//! Network tweaks: reading `netsh` output and registry values, judging IPv4
//! addresses, the DNS probe packet, and the messages the commands return.
//!
//! Running `netsh`/`ipconfig`, the registry and sockets stay with the caller; the
//! functions here take what those returned.

use vstd::prelude::*;
use crate::text::{
    append_str, append_vec, chars_of, contains_sub, find_sub, has_prefix, has_sub, is_digit,
    digits_value, slice_vec, spec_to_lowercase, split_vec, split_when, starts_with,
    str_to_lowercase, string_from_chars, trim, trim_vec, views, SepKind,
};

verus! {

/// Network tweak states shown by the front end.
pub struct NetworkTweakState {
    pub tcp_congestion_optimized: bool,
    pub chimney_offload: bool,
    pub nagle_optimized: bool,
    pub adapter_power_saving_off: bool,
    pub dns_primary: String,
    pub dns_secondary: String,
}

/// The result every tweak command reports.
pub struct PerfTweakResult {
    pub success: bool,
    pub message: String,
}

/// Decoding of console output bytes as `encoding_rs::GBK.decode` performs it
/// (BOM sniffing, malformed sequences replaced).
pub uninterp spec fn spec_gbk_decode(bytes: Seq<u8>) -> Seq<char>;

/// `encoding_rs::GBK.decode`: console output of Chinese Windows is code page 936.
#[verifier::external_body]
fn gbk_decode(bytes: &[u8]) -> (r: String)
    ensures
        r@ == spec_gbk_decode(bytes@),
{
    let (cow, _, _) = encoding_rs::GBK.decode(bytes);
    cow.into_owned()
}

/// Decodes console output (code page 936).
pub fn decode_console(bytes: Vec<u8>) -> (r: String)
    ensures
        r@ == spec_gbk_decode(bytes@),
{
    gbk_decode(bytes.as_slice())
}

// ───────────────────────── IPv4 ─────────────────────────

/// `.` separates the parts of an address.
pub open spec fn dot_sep() -> spec_fn(char) -> bool {
    |c: char| c == '.'
}

/// Anything but a digit or `.` ends a candidate address.
pub open spec fn ip_token_sep() -> spec_fn(char) -> bool {
    |c: char| !is_digit(c) && c != '.'
}

/// `\n` separates lines.
pub open spec fn newline_sep() -> spec_fn(char) -> bool {
    |c: char| c == '\n'
}

/// Commas and whitespace separate the servers of a list.
pub open spec fn server_list_sep() -> spec_fn(char) -> bool {
    |c: char| c == ',' || crate::text::is_ws(c)
}

/// One dotted part of an IPv4 address: one to three ASCII digits, at most 255.
pub open spec fn valid_octet(p: Seq<char>) -> bool {
    &&& 0 < p.len() <= 3
    &&& forall|i: int| 0 <= i < p.len() ==> is_digit(#[trigger] p[i])
    &&& digits_value(p) <= 255
}

/// Four valid parts separated by dots.
pub open spec fn valid_ipv4_spec(s: Seq<char>) -> bool {
    let parts = split_when(s, dot_sep());
    parts.len() == 4 && forall|i: int| 0 <= i < 4 ==> valid_octet(#[trigger] parts[i])
}

/// The first piece that is a valid IPv4 address.
pub open spec fn first_valid_ipv4(parts: Seq<Seq<char>>) -> Option<Seq<char>>
    decreases parts.len(),
{
    if parts.len() == 0 {
        None
    } else if valid_ipv4_spec(parts[0]) {
        Some(parts[0])
    } else {
        first_valid_ipv4(parts.drop_first())
    }
}

/// The first IPv4 address among the runs of digits and dots of `text`.
pub open spec fn find_ipv4_spec(text: Seq<char>) -> Option<Seq<char>> {
    first_valid_ipv4(split_when(text, ip_token_sep()))
}

fn valid_octet_exec(p: &Vec<char>) -> (b: bool)
    ensures
        b == valid_octet(p@),
{
    if p.len() == 0 || p.len() > 3 {
        return false;
    }
    let mut v: u32 = 0;
    let mut i: usize = 0;
    while i < p.len()
        invariant
            0 < p.len() <= 3,
            i <= p.len(),
            forall|j: int| 0 <= j < i ==> is_digit(#[trigger] p@[j]),
            v as nat == digits_value(p@.subrange(0, i as int)),
            i == 0 ==> v == 0,
            i == 1 ==> v < 10,
            i == 2 ==> v < 100,
            v < 1000,
        decreases p.len() - i,
    {
        let c = p[i];
        if !('0' <= c && c <= '9') {
            assert(!is_digit(p@[i as int]));
            return false;
        }
        let ghost pre = p@.subrange(0, i + 1);
        assert(pre.drop_last() =~= p@.subrange(0, i as int));
        proof {
            if i == 0 {
                assert(p@.subrange(0, 0) =~= Seq::<char>::empty());
            }
        }
        v = v * 10 + (c as u32 - '0' as u32);
        i = i + 1;
    }
    assert(p@.subrange(0, p.len() as int) =~= p@);
    v <= 255
}

fn valid_ipv4_chars(s: &Vec<char>) -> (b: bool)
    ensures
        b == valid_ipv4_spec(s@),
{
    let kind = SepKind::AnyOf(vec!['.']);
    let parts = split_vec(s, &kind);
    assert(kind.pred() =~= dot_sep());
    if parts.len() != 4 {
        return false;
    }
    let mut i: usize = 0;
    while i < 4
        invariant
            i <= 4,
            parts@.len() == 4,
            views(parts@) == split_when(s@, dot_sep()),
            forall|j: int| 0 <= j < i ==> valid_octet(#[trigger] views(parts@)[j]),
        decreases 4 - i,
    {
        if !valid_octet_exec(&parts[i]) {
            assert(!valid_octet(views(parts@)[i as int]));
            return false;
        }
        i = i + 1;
    }
    true
}

/// A valid IPv4 address: four dot-separated parts of one to three digits, each at most 255.
pub fn is_valid_ipv4(s: &str) -> (b: bool)
    ensures
        b == valid_ipv4_spec(s@),
{
    let c = chars_of(s);
    valid_ipv4_chars(&c)
}

fn find_ipv4_chars(text: &Vec<char>) -> (r: Option<Vec<char>>)
    ensures
        match r {
            Some(v) => find_ipv4_spec(text@) == Some(v@),
            None => find_ipv4_spec(text@) is None,
        },
{
    let kind = SepKind::NotDigitOrDot;
    let parts = split_vec(text, &kind);
    let ghost all = views(parts@);
    assert(kind.pred() =~= ip_token_sep());
    assert(all.subrange(0, all.len() as int) =~= all);
    let mut i: usize = 0;
    while i < parts.len()
        invariant
            i <= parts@.len(),
            all == views(parts@),
            all == split_when(text@, ip_token_sep()),
            first_valid_ipv4(all) == first_valid_ipv4(all.subrange(i as int, all.len() as int)),
        decreases parts.len() - i,
    {
        let ghost rest = all.subrange(i as int, all.len() as int);
        assert(rest[0] == parts@[i as int]@);
        if valid_ipv4_chars(&parts[i]) {
            return Some(parts[i].clone());
        }
        assert(rest.drop_first() =~= all.subrange(i + 1, all.len() as int));
        i = i + 1;
    }
    assert(all.subrange(i as int, all.len() as int) =~= Seq::<Seq<char>>::empty());
    None
}

/// The first IPv4 address in arbitrary text.
pub fn find_ipv4(text: &str) -> (r: Option<String>)
    ensures
        match r {
            Some(s) => find_ipv4_spec(text@) == Some(s@),
            None => find_ipv4_spec(text@) is None,
        },
{
    let t = chars_of(text);
    match find_ipv4_chars(&t) {
        Some(v) => Some(string_from_chars(&v)),
        None => None,
    }
}

/// How a public-IP service answers.
#[derive(Clone, Copy, PartialEq, Eq, Structural, Debug)]
pub enum PublicIpProvider {
    /// The bare address as text.
    Plain,
    /// `key=value` lines (Cloudflare trace); the address is the `ip=` line.
    Trace,
}

/// The address in one trace line: the trimmed line must start with `ip=`.
pub open spec fn trace_line_ip(line: Seq<char>) -> Option<Seq<char>> {
    let t = trim(line);
    if has_prefix(t, "ip="@) {
        find_ipv4_spec(t.subrange(3, t.len() as int))
    } else {
        None
    }
}

/// The first line that yields an address.
pub open spec fn first_trace_ip(lines: Seq<Seq<char>>) -> Option<Seq<char>>
    decreases lines.len(),
{
    if lines.len() == 0 {
        None
    } else {
        match trace_line_ip(lines[0]) {
            Some(ip) => Some(ip),
            None => first_trace_ip(lines.drop_first()),
        }
    }
}

/// The address a provider's answer holds.  Lines are the `\n`-separated pieces;
/// a `\r` before the `\n` is whitespace and goes with the trim.
pub open spec fn extract_ipv4_spec(text: Seq<char>, provider: PublicIpProvider) -> Option<Seq<char>> {
    match provider {
        PublicIpProvider::Plain => find_ipv4_spec(text),
        PublicIpProvider::Trace => first_trace_ip(split_when(text, newline_sep())),
    }
}

/// The IPv4 address in a provider's answer.
pub fn extract_ipv4(text: &str, provider: PublicIpProvider) -> (r: Option<String>)
    ensures
        match r {
            Some(s) => extract_ipv4_spec(text@, provider) == Some(s@),
            None => extract_ipv4_spec(text@, provider) is None,
        },
{
    match provider {
        PublicIpProvider::Plain => find_ipv4(text),
        PublicIpProvider::Trace => {
            let t = chars_of(text);
            let kind = SepKind::AnyOf(vec!['\n']);
            let lines = split_vec(&t, &kind);
            assert(kind.pred() =~= newline_sep());
            let ghost all = views(lines@);
            let prefix = chars_of("ip=");
            proof {
                reveal_strlit("ip=");
            }
            assert(all.subrange(0, all.len() as int) =~= all);
            let mut i: usize = 0;
            while i < lines.len()
                invariant
                    i <= lines@.len(),
                    all == views(lines@),
                    all == split_when(t@, newline_sep()),
                    prefix@ == "ip="@,
                    prefix@.len() == 3,
                    provider == PublicIpProvider::Trace,
                    t@ == text@,
                    first_trace_ip(all) == first_trace_ip(all.subrange(i as int, all.len() as int)),
                decreases lines.len() - i,
            {
                let ghost rest = all.subrange(i as int, all.len() as int);
                assert(rest[0] == lines@[i as int]@);
                let line = trim_vec(&lines[i]);
                if starts_with(&line, &prefix) {
                    let tail = slice_vec(&line, 3, line.len());
                    match find_ipv4_chars(&tail) {
                        Some(v) => {
                            assert(trace_line_ip(rest[0]) == Some(v@));
                            assert(first_trace_ip(rest) == Some(v@));
                            return Some(string_from_chars(&v));
                        },
                        None => {},
                    }
                }
                assert(rest.drop_first() =~= all.subrange(i + 1, all.len() as int));
                i = i + 1;
            }
            assert(all.subrange(i as int, all.len() as int) =~= Seq::<Seq<char>>::empty());
            None
        },
    }
}

/// The public-IP services, tried in order.
pub fn public_ip_providers() -> (r: Vec<(&'static str, PublicIpProvider)>)
    ensures
        r@.len() == 6,
        r@[0].0@ == "https://4.ipw.cn"@ && r@[0].1 == PublicIpProvider::Plain,
        r@[1].0@ == "https://ip.3322.net"@ && r@[1].1 == PublicIpProvider::Plain,
        r@[2].0@ == "https://myip.ipip.net"@ && r@[2].1 == PublicIpProvider::Plain,
        r@[3].0@ == "https://api.ip.sb/ip"@ && r@[3].1 == PublicIpProvider::Plain,
        r@[4].0@ == "https://api.ipify.org"@ && r@[4].1 == PublicIpProvider::Plain,
        r@[5].0@ == "https://cloudflare.com/cdn-cgi/trace"@ && r@[5].1 == PublicIpProvider::Trace,
{
    vec![
        ("https://4.ipw.cn", PublicIpProvider::Plain),
        ("https://ip.3322.net", PublicIpProvider::Plain),
        ("https://myip.ipip.net", PublicIpProvider::Plain),
        ("https://api.ip.sb/ip", PublicIpProvider::Plain),
        ("https://api.ipify.org", PublicIpProvider::Plain),
        ("https://cloudflare.com/cdn-cgi/trace", PublicIpProvider::Trace),
    ]
}

// ───────────────────────── netsh output ─────────────────────────

/// `netsh int tcp show global` reports Chimney offload as disabled.
pub open spec fn chimney_disabled_spec(output: Seq<char>) -> bool {
    (has_sub(output, "Chimney Offload State"@) || has_sub(output, "Chimney 卸载状态"@)) && (has_sub(
        spec_to_lowercase(output),
        "disabled"@,
    ) || has_sub(output, "禁用"@))
}

/// Whether `netsh int tcp show global` output says Chimney offload is disabled.
pub fn is_chimney_disabled(output: &str) -> (b: bool)
    ensures
        b == chimney_disabled_spec(output@),
{
    let o = chars_of(output);
    let mentions = contains_sub(&o, &chars_of("Chimney Offload State")) || contains_sub(
        &o,
        &chars_of("Chimney 卸载状态"),
    );
    if !mentions {
        return false;
    }
    let lower = chars_of(str_to_lowercase(output).as_str());
    contains_sub(&lower, &chars_of("disabled")) || contains_sub(&o, &chars_of("禁用"))
}

/// `netsh int tcp show supplemental` reports CTCP or CUBIC congestion control.
pub fn is_congestion_optimized(supplemental_output: &str) -> (b: bool)
    ensures
        b == (has_sub(spec_to_lowercase(supplemental_output@), "ctcp"@) || has_sub(
            spec_to_lowercase(supplemental_output@),
            "cubic"@,
        )),
{
    let lower = chars_of(str_to_lowercase(supplemental_output).as_str());
    contains_sub(&lower, &chars_of("ctcp")) || contains_sub(&lower, &chars_of("cubic"))
}

/// Error text that means the process lacked administrator rights.
pub open spec fn access_denied_spec(text: Seq<char>) -> bool {
    let lower = spec_to_lowercase(text);
    has_sub(lower, "access denied"@) || has_sub(lower, "denied"@) || has_sub(lower, "拒绝访问"@)
        || has_sub(lower, "权限不足"@)
}

/// Whether an error text means the process lacked administrator rights.
pub fn is_access_denied(text: &str) -> (b: bool)
    ensures
        b == access_denied_spec(text@),
{
    let lower = chars_of(str_to_lowercase(text).as_str());
    contains_sub(&lower, &chars_of("access denied")) || contains_sub(&lower, &chars_of("denied"))
        || contains_sub(&lower, &chars_of("拒绝访问")) || contains_sub(&lower, &chars_of("权限不足"))
}

/// The message for a command that needs administrator rights.
pub open spec fn admin_required_msg() -> Seq<char> {
    "需要管理员权限，请以管理员身份运行 NexBox"@
}

/// What a finished `netsh` run reports: its decoded output on success; otherwise
/// the administrator message or `命令执行失败: ` and the trimmed output.
pub open spec fn netsh_outcome_spec(success: bool, stdout: Seq<u8>, stderr: Seq<u8>) -> Result<Seq<char>, Seq<char>> {
    let text = if stdout.len() > 0 {
        spec_gbk_decode(stdout)
    } else {
        spec_gbk_decode(stderr)
    };
    if success {
        Ok(text)
    } else if access_denied_spec(text) {
        Err(admin_required_msg())
    } else {
        Err("命令执行失败: "@ + trim(text))
    }
}

/// The view of a `Result<String, String>`.
pub open spec fn result_view(r: Result<String, String>) -> Result<Seq<char>, Seq<char>> {
    match r {
        Ok(s) => Ok(s@),
        Err(e) => Err(e@),
    }
}

/// Interprets a finished `netsh` run (exit status and raw output).
pub fn netsh_outcome(success: bool, stdout: Vec<u8>, stderr: Vec<u8>) -> (r: Result<String, String>)
    ensures
        result_view(r) == netsh_outcome_spec(success, stdout@, stderr@),
{
    let text = if stdout.len() > 0 {
        decode_console(stdout)
    } else {
        decode_console(stderr)
    };
    if success {
        Ok(text)
    } else if is_access_denied(text.as_str()) {
        Err(str_to_string_lit_admin())
    } else {
        let mut v = chars_of("命令执行失败: ");
        let t = trim_vec(&chars_of(text.as_str()));
        append_vec(&mut v, &t);
        Err(string_from_chars(&v))
    }
}

fn str_to_string_lit_admin() -> (r: String)
    ensures
        r@ == admin_required_msg(),
{
    string_from_chars(&chars_of("需要管理员权限，请以管理员身份运行 NexBox"))
}

/// The message of a failed command that printed to stdout/stderr: the trimmed
/// stderr when it is not blank, else the trimmed stdout; administrator message
/// when it says access was denied, else `prefix` and the text.
pub open spec fn command_failure_spec(prefix: Seq<char>, stdout: Seq<char>, stderr: Seq<char>) -> Seq<char> {
    let msg = if trim(stderr).len() > 0 {
        trim(stderr)
    } else {
        trim(stdout)
    };
    if access_denied_spec(msg) {
        admin_required_msg()
    } else {
        prefix + msg
    }
}

/// Builds the message of a failed command (DNS switch, DNS cache flush, DHCP repair).
pub fn command_failure_message(prefix: &str, stdout: &str, stderr: &str) -> (r: String)
    ensures
        r@ == command_failure_spec(prefix@, stdout@, stderr@),
{
    let e = trim_vec(&chars_of(stderr));
    let msg = if e.len() > 0 {
        e
    } else {
        trim_vec(&chars_of(stdout))
    };
    let msg_s = string_from_chars(&msg);
    if is_access_denied(msg_s.as_str()) {
        str_to_string_lit_admin()
    } else {
        let mut v = chars_of(prefix);
        append_vec(&mut v, &msg);
        string_from_chars(&v)
    }
}

/// The joined result of a batch of tweaks: success with `ok_message` when no step
/// failed, else all step errors joined with `; `.
pub open spec fn join_errors(errors: Seq<Seq<char>>) -> Seq<char>
    decreases errors.len(),
{
    if errors.len() == 0 {
        Seq::empty()
    } else if errors.len() == 1 {
        errors[0]
    } else {
        join_errors(errors.drop_last()) + "; "@ + errors.last()
    }
}

/// Collects the outcome of a batch of tweaks.
pub fn batch_outcome(errors: &Vec<String>, ok_message: &str) -> (r: Result<PerfTweakResult, String>)
    ensures
        match r {
            Ok(p) => errors@.len() == 0 && p.success && p.message@ == ok_message@,
            Err(e) => errors@.len() > 0 && e@ == join_errors(Seq::new(errors@.len(), |i: int| errors@[i]@)),
        },
{
    let ghost ev = Seq::new(errors@.len(), |i: int| errors@[i]@);
    if errors.len() == 0 {
        return Ok(PerfTweakResult { success: true, message: str_to_string_helper(ok_message) });
    }
    let mut v: Vec<char> = Vec::new();
    let mut i: usize = 0;
    while i < errors.len()
        invariant
            i <= errors@.len(),
            ev == Seq::new(errors@.len(), |k: int| errors@[k]@),
            v@ == join_errors(ev.subrange(0, i as int)),
        decreases errors.len() - i,
    {
        let ghost pre = ev.subrange(0, i + 1);
        assert(pre.drop_last() =~= ev.subrange(0, i as int));
        if i > 0 {
            append_str(&mut v, "; ");
        } else {
            assert(ev.subrange(0, 0) =~= Seq::<Seq<char>>::empty());
        }
        append_str(&mut v, errors[i].as_str());
        i = i + 1;
    }
    assert(ev.subrange(0, errors@.len() as int) =~= ev);
    Err(string_from_chars(&v))
}

fn str_to_string_helper(s: &str) -> (r: String)
    ensures
        r@ == s@,
{
    string_from_chars(&chars_of(s))
}

/// The label of each batch step in an error message: `label: error`.
pub fn batch_step_error(label: &str, err: &str) -> (r: String)
    ensures
        r@ == label@ + ": "@ + err@,
{
    let mut v = chars_of(label);
    append_str(&mut v, ": ");
    append_str(&mut v, err);
    string_from_chars(&v)
}

/// The steps of the network batch, run in this order whether or not an
/// earlier one failed.
#[derive(PartialEq, Eq, Structural, Clone, Copy, Debug)]
pub enum BatchStep {
    Congestion,
    Chimney,
    Nagle,
    AdapterPowerSaving,
}

/// What a batch step does.
#[derive(Clone, Copy, Debug)]
pub enum BatchAction {
    /// `netsh int tcp set supplemental Internet congestionprovider=<provider>`.
    CongestionProvider(&'static str),
    /// `netsh int tcp set global chimney=<state>`.
    ChimneyState(&'static str),
    /// Turns Nagle's algorithm off on every interface.
    SetNagle,
    /// Gives Nagle's algorithm back to Windows on every interface.
    RestoreNagle,
    /// Sets the adapters' power saving: off when `true`, back on when `false`.
    PowerSavingOff(bool),
}

/// The batch steps in their order.
pub open spec fn batch_steps_spec() -> Seq<BatchStep> {
    seq![BatchStep::Congestion, BatchStep::Chimney, BatchStep::Nagle, BatchStep::AdapterPowerSaving]
}

/// The steps of the network batch, in order.
pub fn batch_steps() -> (r: Vec<BatchStep>)
    ensures
        r@ == batch_steps_spec(),
{
    let r = vec![BatchStep::Congestion, BatchStep::Chimney, BatchStep::Nagle, BatchStep::AdapterPowerSaving];
    assert(r@ =~= batch_steps_spec());
    r
}

/// The label of a step in the batch's error message.
pub open spec fn batch_label_spec(step: BatchStep) -> Seq<char> {
    match step {
        BatchStep::Congestion => "TCP 拥塞控制"@,
        BatchStep::Chimney => "Chimney Offload"@,
        BatchStep::Nagle => "Nagle"@,
        BatchStep::AdapterPowerSaving => "网卡省电"@,
    }
}

/// The label of a step in the batch's error message.
pub fn batch_label(step: BatchStep) -> (r: &'static str)
    ensures
        r@ == batch_label_spec(step),
{
    match step {
        BatchStep::Congestion => "TCP 拥塞控制",
        BatchStep::Chimney => "Chimney Offload",
        BatchStep::Nagle => "Nagle",
        BatchStep::AdapterPowerSaving => "网卡省电",
    }
}

/// What a step does when the batch applies the tweaks (`enable`) or undoes
/// them: CTCP or NewReno congestion control, chimney offload disabled or
/// enabled, Nagle set or restored, adapter power saving off or back on.
pub fn batch_action(step: BatchStep, enable: bool) -> (r: BatchAction)
    ensures
        match step {
            BatchStep::Congestion => r matches BatchAction::CongestionProvider(p) && p@ == if enable { "ctcp"@ } else { "newreno"@ },
            BatchStep::Chimney => r matches BatchAction::ChimneyState(c) && c@ == if enable { "disabled"@ } else { "enabled"@ },
            BatchStep::Nagle => r == if enable { BatchAction::SetNagle } else { BatchAction::RestoreNagle },
            BatchStep::AdapterPowerSaving => r == BatchAction::PowerSavingOff(enable),
        },
{
    match step {
        BatchStep::Congestion => BatchAction::CongestionProvider(if enable { "ctcp" } else { "newreno" }),
        BatchStep::Chimney => BatchAction::ChimneyState(if enable { "disabled" } else { "enabled" }),
        BatchStep::Nagle => if enable {
            BatchAction::SetNagle
        } else {
            BatchAction::RestoreNagle
        },
        BatchStep::AdapterPowerSaving => BatchAction::PowerSavingOff(enable),
    }
}

/// The error texts of the failed steps among the first `n`, in step order:
/// `label: error`.
pub open spec fn batch_errors(outs: Seq<Result<(), String>>, n: int) -> Seq<Seq<char>>
    decreases n,
{
    if n <= 0 {
        Seq::empty()
    } else {
        let prev = batch_errors(outs, n - 1);
        match outs[n - 1] {
            Ok(_) => prev,
            Err(e) => prev.push(batch_label_spec(batch_steps_spec()[n - 1]) + ": "@ + e@),
        }
    }
}

/// The message of a batch that went through.
pub open spec fn batch_ok_message(enable: bool) -> Seq<char> {
    if enable { "网络优化已全部应用"@ } else { "网络优化已全部恢复"@ }
}

/// The answer of the network batch from the outcomes of its four steps, in
/// step order: success when none failed, else the failed steps' errors,
/// labelled, joined with `; `.
pub fn network_batch_result(enable: bool, outcomes: &Vec<Result<(), String>>) -> (r: Result<PerfTweakResult, String>)
    requires
        outcomes@.len() == 4,
    ensures
        match r {
            Ok(p) => batch_errors(outcomes@, 4).len() == 0 && p.success && p.message@ == batch_ok_message(enable),
            Err(e) => batch_errors(outcomes@, 4).len() > 0 && e@ == join_errors(batch_errors(outcomes@, 4)),
        },
{
    let steps = batch_steps();
    let mut errors: Vec<String> = Vec::new();
    let mut k: usize = 0;
    while k < 4
        invariant
            k <= 4,
            outcomes@.len() == 4,
            steps@ == batch_steps_spec(),
            Seq::new(errors@.len(), |i: int| errors@[i]@) == batch_errors(outcomes@, k as int),
        decreases 4 - k,
    {
        let ghost before = Seq::new(errors@.len(), |i: int| errors@[i]@);
        match &outcomes[k] {
            Ok(_) => {},
            Err(e) => {
                errors.push(batch_step_error(batch_label(steps[k]), e.as_str()));
            },
        }
        assert(Seq::new(errors@.len(), |i: int| errors@[i]@) =~= batch_errors(outcomes@, k + 1));
        k = k + 1;
    }
    let msg = if enable { "网络优化已全部应用" } else { "网络优化已全部恢复" };
    batch_outcome(&errors, msg)
}

// ───────────────────────── registry values ─────────────────────────

/// Bit of `PnPCapabilities` that stops Windows from powering the adapter down.
pub const PNP_POWER_SAVING_OFF_BIT: u32 = 0x100;

/// The new `PnPCapabilities` value, and whether it differs (only then is it written).
pub fn pnp_capabilities(cap: u32, off: bool) -> (r: (u32, bool))
    ensures
        r.0 == if off {
            cap | 0x100u32
        } else {
            cap & !0x100u32
        },
        r.1 == (r.0 != cap),
{
    let new = if off {
        cap | 0x100u32
    } else {
        cap & !0x100u32
    };
    (new, new != cap)
}

/// An adapter has power saving disabled when its `PnPCapabilities` has the 0x100 bit.
pub fn adapter_power_saving_off(cap: Option<u32>) -> (b: bool)
    ensures
        b == match cap {
            Some(v) => v & 0x100u32 != 0,
            None => false,
        },
{
    match cap {
        Some(v) => v & 0x100u32 != 0,
        None => false,
    }
}

/// A blank (or absent) registry string counts as unset.
pub open spec fn non_blank(s: Option<Seq<char>>) -> Option<Seq<char>> {
    match s {
        Some(x) => if trim(x).len() > 0 {
            Some(x)
        } else {
            None
        },
        None => None,
    }
}

/// The servers an interface uses: `NameServer` when set, else `DhcpNameServer`.
pub open spec fn dns_source_spec(name_server: Option<Seq<char>>, dhcp: Option<Seq<char>>) -> Option<Seq<char>> {
    match non_blank(name_server) {
        Some(s) => Some(s),
        None => non_blank(dhcp),
    }
}

/// The non-empty pieces of a server list split on commas and whitespace.
pub open spec fn nonempty_pieces(parts: Seq<Seq<char>>) -> Seq<Seq<char>> {
    parts.filter(|p: Seq<char>| p.len() > 0)
}

/// Primary and secondary DNS server of an interface, if it lists any.
pub open spec fn dns_pair_spec(name_server: Option<Seq<char>>, dhcp: Option<Seq<char>>) -> Option<(Seq<char>, Seq<char>)> {
    match dns_source_spec(name_server, dhcp) {
        Some(s) => {
            let parts = nonempty_pieces(split_when(s, server_list_sep()));
            if parts.len() > 0 {
                Some((parts[0], if parts.len() > 1 { parts[1] } else { Seq::empty() }))
            } else {
                None
            }
        },
        None => None,
    }
}

fn non_blank_exec(s: Option<&str>) -> (r: Option<Vec<char>>)
    ensures
        match r {
            Some(v) => non_blank(match s { Some(x) => Some(x@), None => None }) == Some(v@),
            None => non_blank(match s { Some(x) => Some(x@), None => None }) is None,
        },
{
    match s {
        Some(x) => {
            let c = chars_of(x);
            if trim_vec(&c).len() > 0 {
                Some(c)
            } else {
                None
            }
        },
        None => None,
    }
}

/// Reads the primary and secondary DNS server out of an interface's
/// `NameServer`/`DhcpNameServer` values.
pub fn dns_pair(name_server: Option<&str>, dhcp: Option<&str>) -> (r: Option<(String, String)>)
    ensures
        match r {
            Some((a, b)) => dns_pair_spec(
                match name_server { Some(x) => Some(x@), None => None },
                match dhcp { Some(x) => Some(x@), None => None },
            ) == Some((a@, b@)),
            None => dns_pair_spec(
                match name_server { Some(x) => Some(x@), None => None },
                match dhcp { Some(x) => Some(x@), None => None },
            ) is None,
        },
{
    let src = match non_blank_exec(name_server) {
        Some(v) => Some(v),
        None => non_blank_exec(dhcp),
    };
    let s = match src {
        Some(s) => s,
        None => return None,
    };
    let kind = SepKind::CommaOrWhitespace;
    let parts = split_vec(&s, &kind);
    assert(kind.pred() =~= server_list_sep());
    let ghost all = views(parts@);
    let mut first: Option<Vec<char>> = None;
    let mut second: Option<Vec<char>> = None;
    let mut i: usize = 0;
    while i < parts.len()
        invariant
            i <= parts@.len(),
            all == views(parts@),
            ({
                let ne = nonempty_pieces(all.subrange(0, i as int));
                &&& (ne.len() == 0 <==> first is None)
                &&& (first matches Some(f) ==> f@ == ne[0])
                &&& (ne.len() <= 1 <==> second is None)
                &&& (second matches Some(x) ==> x@ == ne[1])
            }),
        decreases parts.len() - i,
    {
        let ghost pre = all.subrange(0, i + 1);
        assert(pre.drop_last() =~= all.subrange(0, i as int));
        proof {
            vstd::seq_lib::lemma_seq_skip_nothing(all, 0);
        }
        assert(nonempty_pieces(pre) == if pre.last().len() > 0 {
            nonempty_pieces(pre.drop_last()).push(pre.last())
        } else {
            nonempty_pieces(pre.drop_last())
        }) by {
            reveal_with_fuel(Seq::filter, 1);
        }
        if parts[i].len() > 0 {
            if first.is_none() {
                first = Some(parts[i].clone());
            } else if second.is_none() {
                second = Some(parts[i].clone());
            }
        }
        i = i + 1;
    }
    assert(all.subrange(0, all.len() as int) =~= all);
    match first {
        Some(f) => {
            let b = match second {
                Some(x) => string_from_chars(&x),
                None => string_from_chars(&Vec::new()),
            };
            Some((string_from_chars(&f), b))
        },
        None => None,
    }
}

// ───────────────────────── DNS probe ─────────────────────────

/// The probe query: id `NX`, recursion desired, one question for the root's NS
/// record in class IN.
pub open spec fn dns_query_spec() -> Seq<u8> {
    seq![0x4Eu8, 0x58, 0x01, 0, 0, 0x01, 0, 0, 0, 0, 0, 0, 0, 0, 0x02, 0, 0x01]
}

/// The 17-byte probe query.
pub fn dns_query_packet() -> (r: Vec<u8>)
    ensures
        r@ == dns_query_spec(),
{
    let mut q: Vec<u8> = vec![0u8; 17];
    q.set(0, 0x4E);
    q.set(1, 0x58);
    q.set(2, 0x01);
    q.set(5, 0x01);
    q.set(14, 0x02);
    q.set(16, 0x01);
    assert(q@ =~= dns_query_spec());
    q
}

/// An answer is valid when it has a full header and echoes the query id.
pub fn dns_response_valid(received: usize, response: &[u8]) -> (b: bool)
    requires
        response@.len() >= 2,
    ensures
        b == (received >= 12 && response@[0] == 0x4Eu8 && response@[1] == 0x58u8),
{
    received >= 12 && response[0] == 0x4E && response[1] == 0x58
}

/// The PowerShell script that points every physical adapter that is up at the two servers.
pub fn dns_servers_script(primary: &str, secondary: &str) -> (r: String)
    ensures
        r@ == "\n$ErrorActionPreference = 'SilentlyContinue'\n$adapters = Get-NetAdapter -Physical -ErrorAction SilentlyContinue | Where-Object { $_.Status -eq \"Up\" }\nforeach ($adapter in $adapters) {\n    Set-DnsClientServerAddress -InterfaceIndex $adapter.ifIndex -ServerAddresses (\""@
            + primary@ + "\", \""@ + secondary@
            + "\") -ErrorAction SilentlyContinue | Out-Null\n}\nWrite-Output 'OK'\n"@,
{
    let mut v = chars_of("\n$ErrorActionPreference = 'SilentlyContinue'\n$adapters = Get-NetAdapter -Physical -ErrorAction SilentlyContinue | Where-Object { $_.Status -eq \"Up\" }\nforeach ($adapter in $adapters) {\n    Set-DnsClientServerAddress -InterfaceIndex $adapter.ifIndex -ServerAddresses (\"");
    append_str(&mut v, primary);
    append_str(&mut v, "\", \"");
    append_str(&mut v, secondary);
    append_str(&mut v, "\") -ErrorAction SilentlyContinue | Out-Null\n}\nWrite-Output 'OK'\n");
    string_from_chars(&v)
}

/// The interface ids of the physical adapters: every `NetCfgInstanceId` that is not blank.
pub fn physical_interface_ids(ids: &Vec<String>) -> (r: Vec<String>)
    ensures
        Seq::new(r@.len(), |i: int| r@[i]@) == Seq::new(ids@.len(), |i: int| ids@[i]@).filter(
            |s: Seq<char>| trim(s).len() > 0,
        ),
{
    let ghost all = Seq::new(ids@.len(), |i: int| ids@[i]@);
    let ghost keep = |s: Seq<char>| trim(s).len() > 0;
    let mut r: Vec<String> = Vec::new();
    let mut i: usize = 0;
    while i < ids.len()
        invariant
            i <= ids@.len(),
            all == Seq::new(ids@.len(), |k: int| ids@[k]@),
            keep == (|s: Seq<char>| trim(s).len() > 0),
            Seq::new(r@.len(), |k: int| r@[k]@) == all.subrange(0, i as int).filter(keep),
        decreases ids.len() - i,
    {
        let ghost pre = all.subrange(0, i + 1);
        assert(pre.drop_last() =~= all.subrange(0, i as int));
        assert(pre.filter(keep) == if keep(pre.last()) {
            pre.drop_last().filter(keep).push(pre.last())
        } else {
            pre.drop_last().filter(keep)
        }) by {
            reveal_with_fuel(Seq::filter, 1);
        }
        let t = trim_vec(&chars_of(ids[i].as_str()));
        if t.len() > 0 {
            r.push(ids[i].clone());
            assert(Seq::new(r@.len(), |k: int| r@[k]@) =~= pre.filter(keep));
        } else {
            assert(Seq::new(r@.len(), |k: int| r@[k]@) =~= pre.filter(keep));
        }
        i = i + 1;
    }
    assert(all.subrange(0, ids@.len() as int) =~= all);
    r
}

/// Whether the repair must stop: a step of the DHCP repair failed for lack of rights.
pub fn dhcp_step_aborts(err: &str) -> (b: bool)
    ensures
        b == access_denied_spec(err@),
{
    is_access_denied(err)
}

// ───────────────────────── laws ─────────────────────────

/// An address found in text is itself a valid IPv4 address.
pub proof fn law_found_ipv4_is_valid(parts: Seq<Seq<char>>)
    ensures
        first_valid_ipv4(parts) matches Some(ip) ==> valid_ipv4_spec(ip),
    decreases parts.len(),
{
    if parts.len() > 0 && !valid_ipv4_spec(parts[0]) {
        law_found_ipv4_is_valid(parts.drop_first());
    }
}

/// Switching adapter power saving off and back restores a value that never had the bit.
pub proof fn law_power_saving_roundtrip(cap: u32)
    requires
        cap & 0x100u32 == 0,
    ensures
        ((cap | 0x100u32) & !0x100u32) == cap,
        (cap | 0x100u32) & 0x100u32 != 0,
{
    assert(((cap | 0x100u32) & !0x100u32) == cap) by (bit_vector)
        requires
            cap & 0x100u32 == 0,
    ;
    assert((cap | 0x100u32) & 0x100u32 != 0) by (bit_vector);
}

} // verus!
