//! The hardware recorder: a one-hour ring of samples kept in memory, with
//! batches handed out for the data file; which stored samples a report takes
//! and in what order, and the escaping of the HTML report.
//!
//! A sample is any value of the caller's choosing; the recorder only keeps,
//! drops and hands them out in order.

use vstd::prelude::*;
use crate::text::{chars_of, string_from_chars, str_to_string, append_str, path_join, spec_path_join, strs};
use crate::sorting::{stable_order, stable_order_by_key};

verus! {

/// The samples kept in memory: one hour at one per second.
pub const MAX_SAMPLES: usize = 3600;

/// Samples gathered before they are written to the data file.
pub const DISK_FLUSH_INTERVAL: usize = 10;

/// A running recorder.
pub struct Recorder<T> {
    /// The last samples, oldest first, at most `MAX_SAMPLES`.
    pub samples: Vec<T>,
    /// The samples not yet written to the data file, oldest first.
    pub disk_buffer: Vec<T>,
    /// When recording started (RFC 3339).
    pub start_timestamp: String,
}

impl<T> Recorder<T> {
    /// The recorder keeps at most an hour of samples and less than a batch
    /// waiting for the data file.
    pub open spec fn wf(&self) -> bool {
        self.samples@.len() <= MAX_SAMPLES && self.disk_buffer@.len() < DISK_FLUSH_INTERVAL
    }
}

/// The ring after one more sample: the oldest one goes when it is full.
pub open spec fn ring_push<T>(s: Seq<T>, x: T) -> Seq<T> {
    if s.len() >= MAX_SAMPLES {
        s.drop_first().push(x)
    } else {
        s.push(x)
    }
}

/// Starts the recorder if it is not running; a running one is left alone.
pub fn start_recording<T>(state: &mut Option<Recorder<T>>, start_timestamp: String)
    ensures
        match *old(state) {
            Some(_) => *final(state) == *old(state),
            None => match *final(state) {
                Some(r) => r.wf() && r.samples@.len() == 0 && r.disk_buffer@.len() == 0
                    && r.start_timestamp@ == start_timestamp@,
                None => false,
            },
        },
{
    if state.is_none() {
        *state = Some(Recorder { samples: Vec::new(), disk_buffer: Vec::new(), start_timestamp });
    }
}

/// Stops the recorder, handing out what still waits for the data file.
pub fn stop_recording<T>(state: &mut Option<Recorder<T>>) -> (pending: Vec<T>)
    ensures
        *final(state) is None,
        pending@ == match *old(state) {
            Some(r) => r.disk_buffer@,
            None => Seq::empty(),
        },
{
    let mut old_state: Option<Recorder<T>> = None;
    std::mem::swap(&mut old_state, state);
    match old_state {
        Some(r) => r.disk_buffer,
        None => Vec::new(),
    }
}

impl<T> Recorder<T> {
    /// Records a sample (`for_memory` and `for_disk` are the same sample):
    /// into the ring, and into the batch for the data file, which is handed
    /// out once it holds `DISK_FLUSH_INTERVAL` samples.
    pub fn push_snapshot(&mut self, for_memory: T, for_disk: T) -> (batch: Option<Vec<T>>)
        requires
            old(self).wf(),
            for_memory == for_disk,
        ensures
            final(self).wf(),
            final(self).samples@ == ring_push(old(self).samples@, for_memory),
            final(self).start_timestamp == old(self).start_timestamp,
            old(self).disk_buffer@.len() + 1 >= DISK_FLUSH_INTERVAL ==> batch is Some && batch->0@ == old(self).disk_buffer@.push(
                for_disk,
            ) && final(self).disk_buffer@.len() == 0,
            old(self).disk_buffer@.len() + 1 < DISK_FLUSH_INTERVAL ==> batch is None && final(self).disk_buffer@ == old(
                self,
            ).disk_buffer@.push(for_disk),
    {
        if self.samples.len() >= MAX_SAMPLES {
            self.samples.remove(0);
        }
        self.samples.push(for_memory);
        proof {
            assert(self.samples@ =~= ring_push(old(self).samples@, for_memory));
        }
        self.disk_buffer.push(for_disk);
        if self.disk_buffer.len() >= DISK_FLUSH_INTERVAL {
            let mut batch: Vec<T> = Vec::new();
            std::mem::swap(&mut batch, &mut self.disk_buffer);
            return Some(batch);
        }
        None
    }

    /// Hands out what waits for the data file, leaving nothing waiting.
    pub fn flush_disk_buffer(&mut self) -> (batch: Vec<T>)
        requires
            old(self).wf(),
        ensures
            final(self).wf(),
            batch@ == old(self).disk_buffer@,
            final(self).disk_buffer@.len() == 0,
            final(self).samples == old(self).samples,
            final(self).start_timestamp == old(self).start_timestamp,
    {
        let mut batch: Vec<T> = Vec::new();
        std::mem::swap(&mut batch, &mut self.disk_buffer);
        batch
    }

    /// Forgets every sample and restarts the clock at `start_timestamp`.
    pub fn clear(&mut self, start_timestamp: String)
        ensures
            final(self).wf(),
            final(self).samples@.len() == 0,
            final(self).disk_buffer@.len() == 0,
            final(self).start_timestamp@ == start_timestamp@,
    {
        self.samples = Vec::new();
        self.disk_buffer = Vec::new();
        self.start_timestamp = start_timestamp;
    }
}

/// Whether the recorder runs, how many samples it keeps, since when, and
/// for how long.
pub struct RecordingStatus {
    pub is_recording: bool,
    pub sample_count: u32,
    pub start_time: String,
    pub elapsed_sec: u64,
}

/// The recorder's status; `elapsed_sec` is the time since it started.
pub fn get_hardware_recording_status<T>(state: &Option<Recorder<T>>, elapsed_sec: u64) -> (r: RecordingStatus)
    ensures
        match *state {
            Some(rec) => r.is_recording && r.sample_count as int == rec.samples@.len() as u32 as int
                && r.start_time@ == rec.start_timestamp@ && r.elapsed_sec == elapsed_sec,
            None => !r.is_recording && r.sample_count == 0 && r.start_time@.len() == 0 && r.elapsed_sec == 0,
        },
{
    match state {
        Some(rec) => RecordingStatus {
            is_recording: true,
            sample_count: #[verifier::truncate] (rec.samples.len() as u32),
            start_time: rec.start_timestamp.clone(),
            elapsed_sec,
        },
        None => RecordingStatus { is_recording: false, sample_count: 0, start_time: String::new(), elapsed_sec: 0 },
    }
}

/// The message after the data file was cleared (`deleted`: it was there).
pub fn clear_message(deleted: bool) -> (r: String)
    ensures
        r@ == if deleted { "硬件数据已清除，新数据将继续记录"@ } else { "数据文件已重建，将继续记录"@ },
{
    if deleted {
        str_to_string("硬件数据已清除，新数据将继续记录")
    } else {
        str_to_string("数据文件已重建，将继续记录")
    }
}

/// The directory of the toolbox's data under the local data directory (`.`
/// where there is none).
pub fn data_dir(local_data: Option<&str>) -> (r: String)
    ensures
        r@ == spec_path_join(match local_data {
            Some(d) => d@,
            None => "."@,
        }, "NexBox"@),
{
    match local_data {
        Some(d) => path_join(d, "NexBox"),
        None => path_join(".", "NexBox"),
    }
}

/// The data file of the recorder.
pub fn data_file_path(local_data: Option<&str>) -> (r: String)
    ensures
        r@ == spec_path_join(spec_path_join(match local_data {
            Some(d) => d@,
            None => "."@,
        }, "NexBox"@), "hardware_data.jsonl"@),
{
    let dir = data_dir(local_data);
    path_join(dir.as_str(), "hardware_data.jsonl")
}

/// A character as HTML text: `&`, `<`, `>` and `"` as entities.
pub open spec fn html_char(c: char) -> Seq<char> {
    if c == '&' {
        "&amp;"@
    } else if c == '<' {
        "&lt;"@
    } else if c == '>' {
        "&gt;"@
    } else if c == '"' {
        "&quot;"@
    } else {
        seq![c]
    }
}

/// A text as HTML text.
pub open spec fn html_escape_spec(s: Seq<char>) -> Seq<char>
    decreases s.len(),
{
    if s.len() == 0 {
        Seq::empty()
    } else {
        html_escape_spec(s.drop_last()) + html_char(s.last())
    }
}

/// Escapes a text for the HTML report.
pub fn html_escape(s: &str) -> (r: String)
    ensures
        r@ == html_escape_spec(s@),
{
    let v = chars_of(s);
    let mut out: Vec<char> = Vec::new();
    let mut i: usize = 0;
    while i < v.len()
        invariant
            i <= v@.len(),
            v@ == s@,
            out@ == html_escape_spec(v@.subrange(0, i as int)),
        decreases v.len() - i,
    {
        let ghost pre = v@.subrange(0, i + 1);
        assert(pre.drop_last() =~= v@.subrange(0, i as int));
        let c = v[i];
        if c == '&' {
            append_str(&mut out, "&amp;");
        } else if c == '<' {
            append_str(&mut out, "&lt;");
        } else if c == '>' {
            append_str(&mut out, "&gt;");
        } else if c == '"' {
            append_str(&mut out, "&quot;");
        } else {
            out.push(c);
        }
        proof {
            reveal_strlit("&amp;");
            reveal_strlit("&lt;");
            reveal_strlit("&gt;");
            reveal_strlit("&quot;");
        }
        assert(out@ =~= html_escape_spec(pre));
        i = i + 1;
    }
    assert(v@.subrange(0, v@.len() as int) =~= v@);
    string_from_chars(&out)
}

/// The ring after a run of samples, starting empty.
pub open spec fn ring_after<T>(xs: Seq<T>) -> Seq<T>
    decreases xs.len(),
{
    if xs.len() == 0 {
        Seq::empty()
    } else {
        ring_push(ring_after(xs.drop_last()), xs.last())
    }
}

/// The ring keeps exactly the latest samples: after any run of samples it
/// holds the last hour of them (all of them within the first hour), oldest
/// first.
pub proof fn law_ring_keeps_latest<T>(xs: Seq<T>)
    ensures
        ring_after(xs) == xs.subrange(if xs.len() > MAX_SAMPLES { xs.len() - MAX_SAMPLES } else { 0 }, xs.len() as int),
    decreases xs.len(),
{
    if xs.len() > 0 {
        let pre = xs.drop_last();
        law_ring_keeps_latest(pre);
        let r = ring_after(pre);
        let lo = if pre.len() > MAX_SAMPLES { pre.len() - MAX_SAMPLES } else { 0 };
        let lo2 = if xs.len() > MAX_SAMPLES { xs.len() - MAX_SAMPLES } else { 0 };
        if r.len() >= MAX_SAMPLES {
            assert(r.drop_first().push(xs.last()) =~= xs.subrange(lo2, xs.len() as int));
        } else {
            assert(r.push(xs.last()) =~= xs.subrange(lo2, xs.len() as int));
        }
    }
}

// ───────────────────────── stored samples for a report ─────────────────────────

/// The instant an RFC 3339 time stamp names, as whole seconds since the Unix
/// epoch and the nanoseconds past that second; `None` where the text does
/// not read as RFC 3339.
pub uninterp spec fn spec_rfc3339_instant(t: Seq<char>) -> Option<(i64, u32)>;

/// `chrono::DateTime::parse_from_rfc3339`, taken as `timestamp()` and
/// `timestamp_subsec_nanos()`.  The contract only names the result: what a
/// time stamp reads as is left to chrono.
#[verifier::external_body]
fn rfc3339_instant(t: &str) -> (r: Option<(i64, u32)>)
    ensures
        r == spec_rfc3339_instant(t@),
{
    chrono::DateTime::parse_from_rfc3339(t).ok().map(|d| (d.timestamp(), d.timestamp_subsec_nanos()))
}

/// How long stored samples are kept: thirty days, in seconds.
pub const KEEP_SECONDS: i64 = 2592000;

/// A stored sample is kept for a report unless its time stamp reads and lies
/// more than thirty days before `now` (instants compared by seconds, then by
/// nanoseconds).
pub open spec fn is_recent(inst: Option<(i64, u32)>, now: (i64, u32)) -> bool {
    match inst {
        None => true,
        Some(t) => !(t.0 < now.0 - KEEP_SECONDS || (t.0 == now.0 - KEEP_SECONDS && t.1 < now.1)),
    }
}

/// The indices below `upto` of the stamps that are recent, in order.
pub open spec fn recent_indices(stamps: Seq<Seq<char>>, now: (i64, u32), upto: int) -> Seq<usize>
    decreases upto,
{
    if upto <= 0 {
        Seq::empty()
    } else {
        let prev = recent_indices(stamps, now, upto - 1);
        if is_recent(spec_rfc3339_instant(stamps[upto - 1]), now) {
            prev.push((upto - 1) as usize)
        } else {
            prev
        }
    }
}

/// The stored samples a report reads (by index): those that are recent,
/// ordered by their elapsed seconds, samples with as many keeping file order.
pub open spec fn recent_order_spec(stamps: Seq<Seq<char>>, elapsed: Seq<u64>, now: (i64, u32)) -> Seq<usize> {
    let kept = recent_indices(stamps, now, stamps.len() as int);
    let order = stable_order(kept.len(), Seq::new(kept.len(), |j: int| elapsed[kept[j] as int] as u128));
    Seq::new(order.len(), |j: int| kept[order[j] as int])
}

proof fn lemma_recent_indices(stamps: Seq<Seq<char>>, now: (i64, u32), upto: int)
    requires
        0 <= upto <= stamps.len(),
        stamps.len() <= usize::MAX,
    ensures
        forall|j: int| 0 <= j < recent_indices(stamps, now, upto).len() ==> {
            let x = #[trigger] recent_indices(stamps, now, upto)[j];
            x < upto && is_recent(spec_rfc3339_instant(stamps[x as int]), now)
        },
    decreases upto,
{
    if upto > 0 {
        lemma_recent_indices(stamps, now, upto - 1);
    }
}

/// A report reads only samples whose time stamp does not lie more than
/// thirty days back (or does not read), in order of their elapsed seconds.
pub proof fn law_report_reads_recent_in_order(stamps: Seq<Seq<char>>, elapsed: Seq<u64>, now: (i64, u32))
    requires
        stamps.len() == elapsed.len(),
        stamps.len() <= usize::MAX,
    ensures
        forall|j: int| 0 <= j < recent_order_spec(stamps, elapsed, now).len() ==> {
            let x = #[trigger] recent_order_spec(stamps, elapsed, now)[j];
            x < stamps.len() && is_recent(spec_rfc3339_instant(stamps[x as int]), now)
        },
        forall|a: int, b: int| 0 <= a < b < recent_order_spec(stamps, elapsed, now).len() ==>
            elapsed[#[trigger] recent_order_spec(stamps, elapsed, now)[a] as int]
                <= elapsed[#[trigger] recent_order_spec(stamps, elapsed, now)[b] as int],
{
    let kept = recent_indices(stamps, now, stamps.len() as int);
    let keys = Seq::new(kept.len(), |j: int| elapsed[kept[j] as int] as u128);
    let order = stable_order(kept.len(), keys);
    lemma_recent_indices(stamps, now, stamps.len() as int);
    crate::sorting::lemma_stable_order_in_range(kept.len(), keys);
    crate::sorting::law_stable_order_sorted(kept.len(), keys);
    let r = recent_order_spec(stamps, elapsed, now);
    assert forall|j: int| 0 <= j < r.len() implies {
        let x = #[trigger] r[j];
        x < stamps.len() && is_recent(spec_rfc3339_instant(stamps[x as int]), now)
    } by {
        assert(r[j] == kept[order[j] as int]);
    }
    assert forall|a: int, b: int| 0 <= a < b < r.len() implies elapsed[#[trigger] r[a] as int] <= elapsed[#[trigger] r[b] as int] by {
        assert(keys[order[a] as int] <= keys[order[b] as int]);
    }
}

fn older_than_kept(t: (i64, u32), now: (i64, u32)) -> (b: bool)
    ensures
        b == !is_recent(Some(t), now),
{
    let limit: i128 = now.0 as i128 - KEEP_SECONDS as i128;
    (t.0 as i128) < limit || ((t.0 as i128) == limit && t.1 < now.1)
}

/// Which stored samples a report reads, and in what order (see
/// `recent_order_spec`): `stamps` and `elapsed` are the samples' time stamps
/// and elapsed seconds, `now` the present instant.
pub fn recent_order(stamps: &Vec<String>, elapsed: &Vec<u64>, now: (i64, u32)) -> (r: Vec<usize>)
    requires
        stamps@.len() == elapsed@.len(),
    ensures
        r@ == recent_order_spec(strs(stamps@), elapsed@, now),
{
    let ghost sv = strs(stamps@);
    let mut kept: Vec<usize> = Vec::new();
    let mut i: usize = 0;
    while i < stamps.len()
        invariant
            i <= stamps@.len(),
            sv == strs(stamps@),
            kept@ == recent_indices(sv, now, i as int),
            kept@.len() <= i,
            forall|j: int| 0 <= j < kept@.len() ==> (#[trigger] kept@[j]) < i,
        decreases stamps.len() - i,
    {
        assert(sv[i as int] == stamps@[i as int]@);
        let keep = match rfc3339_instant(stamps[i].as_str()) {
            None => true,
            Some(t) => !older_than_kept(t, now),
        };
        if keep {
            kept.push(i);
        }
        i = i + 1;
    }
    let mut keys: Vec<u128> = Vec::new();
    let mut k: usize = 0;
    while k < kept.len()
        invariant
            k <= kept@.len(),
            kept@.len() <= stamps@.len(),
            stamps@.len() == elapsed@.len(),
            forall|j: int| 0 <= j < kept@.len() ==> (#[trigger] kept@[j]) < stamps@.len(),
            keys@ == Seq::new(kept@.len(), |j: int| elapsed@[kept@[j] as int] as u128).subrange(0, k as int),
        decreases kept.len() - k,
    {
        keys.push(elapsed[kept[k]] as u128);
        k = k + 1;
        assert(keys@ =~= Seq::new(kept@.len(), |j: int| elapsed@[kept@[j] as int] as u128).subrange(0, k as int));
    }
    assert(keys@ =~= Seq::new(kept@.len(), |j: int| elapsed@[kept@[j] as int] as u128));
    let order = stable_order_by_key(&keys);
    let mut out: Vec<usize> = Vec::new();
    let mut u: usize = 0;
    while u < order.len()
        invariant
            u <= order@.len(),
            order@.len() == kept@.len(),
            forall|x: int| 0 <= x < order@.len() ==> (#[trigger] order@[x]) < kept@.len(),
            out@.len() == u,
            forall|x: int| 0 <= x < u ==> (#[trigger] out@[x]) == kept@[order@[x] as int],
        decreases order.len() - u,
    {
        out.push(kept[order[u]]);
        u = u + 1;
    }
    assert(out@ =~= recent_order_spec(strs(stamps@), elapsed@, now));
    out
}

/// Text order of time stamps, character by character (the order of Rust
/// strings: a proper prefix comes first).
pub open spec fn stamp_lt(a: Seq<char>, b: Seq<char>) -> bool
    decreases a.len(),
{
    if a.len() == 0 {
        b.len() > 0
    } else if b.len() == 0 {
        false
    } else if a[0] != b[0] {
        a[0] < b[0]
    } else {
        stamp_lt(a.drop_first(), b.drop_first())
    }
}

/// No stamp comes before itself.
pub proof fn lemma_stamp_lt_irreflexive(a: Seq<char>)
    ensures
        !stamp_lt(a, a),
    decreases a.len(),
{
    if a.len() > 0 {
        lemma_stamp_lt_irreflexive(a.drop_first());
    }
}

/// Of two different stamps, one comes first.
pub proof fn lemma_stamp_lt_total(a: Seq<char>, b: Seq<char>)
    requires
        a != b,
    ensures
        stamp_lt(a, b) || stamp_lt(b, a),
    decreases a.len(),
{
    if a.len() > 0 && b.len() > 0 {
        if a[0] == b[0] {
            if a.drop_first() == b.drop_first() {
                assert(a =~= seq![a[0]] + a.drop_first());
                assert(b =~= seq![b[0]] + b.drop_first());
            }
            lemma_stamp_lt_total(a.drop_first(), b.drop_first());
        } else {
        }
    } else if a.len() == 0 && b.len() == 0 {
        assert(a =~= b);
    }
}

/// The text order is transitive.
pub proof fn lemma_stamp_lt_transitive(a: Seq<char>, b: Seq<char>, c: Seq<char>)
    requires
        stamp_lt(a, b),
        stamp_lt(b, c),
    ensures
        stamp_lt(a, c),
    decreases a.len(),
{
    if a.len() > 0 && b.len() > 0 && c.len() > 0 && a[0] == b[0] && b[0] == c[0] {
        lemma_stamp_lt_transitive(a.drop_first(), b.drop_first(), c.drop_first());
    }
}

fn stamp_lt_exec(a: &str, b: &str) -> (r: bool)
    ensures
        r == stamp_lt(a@, b@),
{
    let na = a.unicode_len();
    let nb = b.unicode_len();
    let mut i: usize = 0;
    assert(a@.subrange(0, na as int) =~= a@ && b@.subrange(0, nb as int) =~= b@);
    while i < na && i < nb && a.get_char(i) == b.get_char(i)
        invariant
            na == a@.len(),
            nb == b@.len(),
            i <= na,
            i <= nb,
            stamp_lt(a@, b@) == stamp_lt(a@.subrange(i as int, na as int), b@.subrange(i as int, nb as int)),
        decreases na - i,
    {
        let ghost sa = a@.subrange(i as int, na as int);
        let ghost sb = b@.subrange(i as int, nb as int);
        assert(sa.drop_first() =~= a@.subrange(i + 1, na as int));
        assert(sb.drop_first() =~= b@.subrange(i + 1, nb as int));
        assert(sa[0] == a@[i as int] && sb[0] == b@[i as int]);
        i = i + 1;
    }
    let ghost sa = a@.subrange(i as int, na as int);
    let ghost sb = b@.subrange(i as int, nb as int);
    if i == na {
        i < nb
    } else if i == nb {
        false
    } else {
        assert(sa[0] == a@[i as int] && sb[0] == b@[i as int]);
        a.get_char(i) < b.get_char(i)
    }
}

/// Index `j` holds the first occurrence of its stamp.
pub open spec fn first_occurrence(s: Seq<Seq<char>>, j: int) -> bool {
    0 <= j < s.len() && forall|k: int| 0 <= k < j ==> s[k] != s[j]
}

/// `r` lists the first occurrence of each distinct stamp once, in text order
/// of the stamps.
pub open spec fn distinct_in_order(s: Seq<Seq<char>>, r: Seq<usize>) -> bool {
    &&& forall|t: int| 0 <= t < r.len() ==> first_occurrence(s, #[trigger] r[t] as int)
    &&& forall|j: int| first_occurrence(s, j) ==> exists|t: int| 0 <= t < r.len() && #[trigger] r[t] == j
    &&& forall|t1: int, t2: int| 0 <= t1 < t2 < r.len() ==> stamp_lt(s[#[trigger] r[t1] as int], s[#[trigger] r[t2] as int])
}

proof fn lemma_not_seen(s: Seq<Seq<char>>, r: Seq<usize>, i: int, k: int)
    requires
        0 <= i < s.len(),
        0 <= k <= r.len(),
        forall|t: int| 0 <= t < r.len() ==> #[trigger] r[t] < i,
        covers(s, r, i),
        ordered(s, r),
        forall|t: int| k <= t < r.len() ==> stamp_lt(s[i], s[#[trigger] r[t] as int]),
        k > 0 ==> stamp_lt(s[r[k - 1] as int], s[i]),
    ensures
        first_occurrence(s, i),
        forall|t: int| 0 <= t < k ==> stamp_lt(s[#[trigger] r[t] as int], s[i]),
{
    assert forall|t: int| 0 <= t < k implies stamp_lt(s[#[trigger] r[t] as int], s[i]) by {
        if t < k - 1 {
            lemma_stamp_lt_transitive(s[r[t] as int], s[r[k - 1] as int], s[i]);
        }
    }
    assert forall|m: int| 0 <= m < i implies s[m] != s[i] by {
        assert(witnessed(s, r, m));
        let t = choose|t: int| 0 <= t < r.len() && s[#[trigger] r[t] as int] == s[m];
        if s[m] == s[i] {
            lemma_stamp_lt_irreflexive(s[i]);
            if t < k {
                assert(stamp_lt(s[r[t] as int], s[i]));
            } else {
                assert(stamp_lt(s[i], s[r[t] as int]));
            }
        }
    }
}

/// What the first `i` stamps leave in `r`: the first occurrence of each
/// distinct stamp so far, in text order.
pub open spec fn seen_so_far(s: Seq<Seq<char>>, r: Seq<usize>, i: int) -> bool {
    &&& forall|t: int| 0 <= t < r.len() ==> #[trigger] r[t] < i
    &&& forall|t: int| 0 <= t < r.len() ==> first_occurrence(s, #[trigger] r[t] as int)
    &&& covers(s, r, i)
    &&& ordered(s, r)
}

/// The stamp at `m` is the stamp of an index in `r`.
pub open spec fn witnessed(s: Seq<Seq<char>>, r: Seq<usize>, m: int) -> bool {
    exists|t: int| 0 <= t < r.len() && s[#[trigger] r[t] as int] == s[m]
}

/// Every stamp among the first `i` is the stamp of an index in `r`.
pub open spec fn covers(s: Seq<Seq<char>>, r: Seq<usize>, i: int) -> bool {
    forall|m: int| 0 <= m < i ==> #[trigger] witnessed(s, r, m)
}

/// The stamps of the indices in `r` come in strict text order.
pub open spec fn ordered(s: Seq<Seq<char>>, r: Seq<usize>) -> bool {
    forall|t1: int, t2: int| 0 <= t1 < t2 < r.len() ==> stamp_lt(s[#[trigger] r[t1] as int], s[#[trigger] r[t2] as int])
}

/// Where stamp `i` belongs in `r`: after every listed stamp that does not
/// come after it.
fn stamp_position(stamps: &Vec<String>, r: &Vec<usize>, i: usize) -> (k: usize)
    requires
        i < stamps@.len(),
        forall|t: int| 0 <= t < r@.len() ==> #[trigger] r@[t] < i,
    ensures
        k <= r@.len(),
        forall|t: int| k <= t < r@.len() ==> stamp_lt(strs(stamps@)[i as int], strs(stamps@)[#[trigger] r@[t] as int]),
        k > 0 ==> !stamp_lt(strs(stamps@)[i as int], strs(stamps@)[r@[k - 1] as int]),
{
    let ghost s = strs(stamps@);
    assert(s[i as int] == stamps@[i as int]@);
    let mut k: usize = r.len();
    while k > 0 && stamp_lt_exec(stamps[i].as_str(), stamps[r[k - 1]].as_str())
        invariant
            i < stamps@.len(),
            s == strs(stamps@),
            s[i as int] == stamps@[i as int]@,
            k <= r@.len(),
            forall|t: int| 0 <= t < r@.len() ==> #[trigger] r@[t] < i,
            forall|t: int| k <= t < r@.len() ==> stamp_lt(s[i as int], s[#[trigger] r@[t] as int]),
        decreases k,
    {
        assert(s[r@[k - 1] as int] == stamps@[r@[k - 1] as int]@);
        k = k - 1;
    }
    if k > 0 {
        assert(s[r@[k - 1] as int] == stamps@[r@[k - 1] as int]@);
    }
    k
}

proof fn lemma_seen_repeat(s: Seq<Seq<char>>, r: Seq<usize>, i: int, k: int)
    requires
        0 <= i < s.len(),
        0 < k <= r.len(),
        seen_so_far(s, r, i),
        s[r[k - 1] as int] == s[i],
    ensures
        seen_so_far(s, r, i + 1),
{
    assert forall|m: int| 0 <= m < i + 1 implies #[trigger] witnessed(s, r, m) by {
        if m == i {
            assert(s[r[k - 1] as int] == s[m]);
        }
    }
}

proof fn lemma_insert_at<A>(r: Seq<A>, k: int, x: A, t: int)
    requires
        0 <= k <= r.len(),
        0 <= t <= r.len(),
    ensures
        t < k ==> r.insert(k, x)[t] == r[t],
        t == k ==> r.insert(k, x)[t] == x,
        t > k ==> r.insert(k, x)[t] == r[t - 1],
{
}

proof fn lemma_seen_insert(s: Seq<Seq<char>>, r: Seq<usize>, i: int, k: int)
    requires
        0 <= i < s.len(),
        i <= usize::MAX,
        0 <= k <= r.len(),
        seen_so_far(s, r, i),
        forall|t: int| k <= t < r.len() ==> stamp_lt(s[i], s[#[trigger] r[t] as int]),
        k > 0 ==> stamp_lt(s[r[k - 1] as int], s[i]),
    ensures
        seen_so_far(s, r.insert(k, i as usize), i + 1),
{
    lemma_not_seen(s, r, i, k);
    let n = r.insert(k, i as usize);
    assert forall|t: int| 0 <= t < n.len() implies #[trigger] n[t] < i + 1 && first_occurrence(s, n[t] as int) by {
        lemma_insert_at(r, k, i as usize, t);
    }
    lemma_seen_insert_cover(s, r, i, k);
    lemma_seen_insert_order(s, r, i, k);
}

proof fn lemma_seen_insert_cover(s: Seq<Seq<char>>, r: Seq<usize>, i: int, k: int)
    requires
        0 <= i < s.len(),
        i <= usize::MAX,
        0 <= k <= r.len(),
        covers(s, r, i),
    ensures
        covers(s, r.insert(k, i as usize), i + 1),
{
    let n = r.insert(k, i as usize);
    assert forall|m: int| 0 <= m < i + 1 implies #[trigger] witnessed(s, n, m) by {
        if m == i {
            lemma_insert_at(r, k, i as usize, k);
            assert(s[n[k] as int] == s[m]);
        } else {
            assert(witnessed(s, r, m));
            let t = choose|t: int| 0 <= t < r.len() && s[#[trigger] r[t] as int] == s[m];
            if t < k {
                lemma_insert_at(r, k, i as usize, t);
                assert(s[n[t] as int] == s[m]);
            } else {
                lemma_insert_at(r, k, i as usize, t + 1);
                assert(s[n[t + 1] as int] == s[m]);
            }
        }
    }
}

proof fn lemma_seen_insert_order(s: Seq<Seq<char>>, r: Seq<usize>, i: int, k: int)
    requires
        0 <= i < s.len(),
        i <= usize::MAX,
        0 <= k <= r.len(),
        ordered(s, r),
        forall|t: int| k <= t < r.len() ==> stamp_lt(s[i], s[#[trigger] r[t] as int]),
        forall|t: int| 0 <= t < k ==> stamp_lt(s[#[trigger] r[t] as int], s[i]),
    ensures
        ordered(s, r.insert(k, i as usize)),
{
    let n = r.insert(k, i as usize);
    assert forall|t1: int, t2: int| 0 <= t1 < t2 < n.len() implies stamp_lt(s[#[trigger] n[t1] as int], s[#[trigger] n[t2] as int]) by {
        lemma_insert_at(r, k, i as usize, t1);
        lemma_insert_at(r, k, i as usize, t2);
        if t1 < k && t2 > k {
            assert(stamp_lt(s[r[t1] as int], s[r[t2 - 1] as int]));
        }
    }
}

proof fn lemma_seen_all(s: Seq<Seq<char>>, r: Seq<usize>)
    requires
        seen_so_far(s, r, s.len() as int),
    ensures
        distinct_in_order(s, r),
{
    assert forall|j: int| first_occurrence(s, j) implies exists|t: int| 0 <= t < r.len() && #[trigger] r[t] == j by {
        assert(witnessed(s, r, j));
        let t = choose|t: int| 0 <= t < r.len() && s[#[trigger] r[t] as int] == s[j];
        let w = r[t] as int;
        assert(first_occurrence(s, w));
        if w < j {
            assert(s[w] != s[j]);
        } else if j < w {
            assert(s[j] != s[w]);
        }
        assert(r[t] == j);
    }
}

/// The first occurrence of each distinct stamp, in text order of the stamps
/// (see `distinct_in_order`).
pub fn distinct_stamps(stamps: &Vec<String>) -> (r: Vec<usize>)
    ensures
        distinct_in_order(strs(stamps@), r@),
        forall|t: int| 0 <= t < r@.len() ==> (#[trigger] r@[t]) < stamps@.len(),
{
    let ghost s = strs(stamps@);
    let mut r: Vec<usize> = Vec::new();
    let mut i: usize = 0;
    while i < stamps.len()
        invariant
            i <= stamps@.len(),
            s == strs(stamps@),
            seen_so_far(s, r@, i as int),
        decreases stamps.len() - i,
    {
        assert(s[i as int] == stamps@[i as int]@);
        let k = stamp_position(stamps, &r, i);
        if k > 0 {
            assert(s[r@[k - 1] as int] == stamps@[r@[k - 1] as int]@);
        }
        if k > 0 && crate::text::str_eq(stamps[r[k - 1]].as_str(), stamps[i].as_str()) {
            proof {
                lemma_seen_repeat(s, r@, i as int, k as int);
            }
        } else {
            proof {
                if k > 0 {
                    lemma_stamp_lt_total(s[r@[k - 1] as int], s[i as int]);
                }
                lemma_seen_insert(s, r@, i as int, k as int);
            }
            r.insert(k, i);
        }
        i = i + 1;
    }
    proof {
        lemma_seen_all(s, r@);
    }
    r
}

/// The seconds from instant `b` to instant `x`, in whole seconds, none where
/// `x` is not after `b` (and at most `u64::MAX`).
pub open spec fn seconds_between(b: (i64, u32), x: (i64, u32)) -> u64 {
    let d = (x.0 - b.0) * 1_000_000_000 + (x.1 - b.1);
    if d <= 0 {
        0
    } else if d / 1_000_000_000 > u64::MAX {
        u64::MAX
    } else {
        (d / 1_000_000_000) as u64
    }
}

fn seconds_between_exec(b: (i64, u32), x: (i64, u32)) -> (r: u64)
    ensures
        r == seconds_between(b, x),
{
    let ds: i128 = x.0 as i128 - b.0 as i128;
    assert(-0x1_0000_0000_0000_0000 <= ds <= 0x1_0000_0000_0000_0000);
    assert(-0x1_0000_0000_0000_0000 * 1_000_000_000 <= ds * 1_000_000_000 <= 0x1_0000_0000_0000_0000 * 1_000_000_000) by (nonlinear_arith)
        requires
            -0x1_0000_0000_0000_0000 <= ds <= 0x1_0000_0000_0000_0000,
    ;
    let d: i128 = ds * 1_000_000_000 + (x.1 as i128 - b.1 as i128);
    if d <= 0 {
        return 0;
    }
    let q: i128 = d / 1_000_000_000;
    if q > u64::MAX as i128 {
        u64::MAX
    } else {
        q as u64
    }
}

/// The new elapsed seconds of the sample at index `i`, counted from the one
/// at index `first`: where both time stamps read, the seconds between them;
/// else `None` (the sample keeps its own).
pub open spec fn recounted(s: Seq<Seq<char>>, first: int, i: int) -> Option<u64> {
    match (spec_rfc3339_instant(s[first]), spec_rfc3339_instant(s[i])) {
        (Some(b), Some(x)) => Some(seconds_between(b, x)),
        _ => None,
    }
}

/// How the stored and the current samples are merged for a report, given
/// their time stamps in that order: one sample per time stamp (the first that
/// has it), in text order of the time stamps, each with its elapsed seconds
/// counted from the first of them where both time stamps read.
pub fn merge_plan(stamps: &Vec<String>) -> (r: Vec<(usize, Option<u64>)>)
    ensures
        distinct_in_order(strs(stamps@), Seq::new(r@.len(), |t: int| r@[t].0)),
        forall|t: int| 0 <= t < r@.len() ==> (#[trigger] r@[t]).1 == recounted(strs(stamps@), r@[0].0 as int, r@[t].0 as int),
{
    let ghost s = strs(stamps@);
    let order = distinct_stamps(stamps);
    let mut out: Vec<(usize, Option<u64>)> = Vec::new();
    if order.len() == 0 {
        assert(Seq::new(out@.len(), |t: int| out@[t].0) =~= order@);
        return out;
    }
    let first = order[0];
    assert(s[first as int] == stamps@[first as int]@);
    let base = rfc3339_instant(stamps[first].as_str());
    let mut t: usize = 0;
    while t < order.len()
        invariant
            t <= order@.len(),
            order@.len() > 0,
            first == order@[0],
            s == strs(stamps@),
            s[first as int] == stamps@[first as int]@,
            base == spec_rfc3339_instant(s[first as int]),
            forall|u: int| 0 <= u < order@.len() ==> (#[trigger] order@[u]) < stamps@.len(),
            out@.len() == t,
            forall|u: int| 0 <= u < t ==> (#[trigger] out@[u]).0 == order@[u] && out@[u].1 == recounted(s, first as int, order@[u] as int),
        decreases order.len() - t,
    {
        let i = order[t];
        assert(s[i as int] == stamps@[i as int]@);
        let e = match base {
            Some(b) => match rfc3339_instant(stamps[i].as_str()) {
                Some(x) => Some(seconds_between_exec(b, x)),
                None => None,
            },
            None => None,
        };
        out.push((i, e));
        t = t + 1;
    }
    assert(Seq::new(out@.len(), |u: int| out@[u].0) =~= order@);
    out
}

} // verus!
