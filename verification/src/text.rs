//! Character-sequence helpers shared by the modules of the library.
//!
//! Strings are modelled by their view, a `Seq<char>`.  The executable helpers
//! here work on `Vec<char>` and are proved against small recursive spec
//! functions, which the contracts of the other modules reuse.

use vstd::prelude::*;

verus! {

// ───────────────────────── spec vocabulary ─────────────────────────

/// Unicode `White_Space`, the set that `char::is_whitespace` and `str::trim` use.
pub open spec fn is_ws(c: char) -> bool {
    ||| (c as u32) >= 9 && (c as u32) <= 13
    ||| c as u32 == 0x20
    ||| c as u32 == 0x85
    ||| c as u32 == 0xA0
    ||| c as u32 == 0x1680
    ||| (c as u32) >= 0x2000 && (c as u32) <= 0x200A
    ||| c as u32 == 0x2028
    ||| c as u32 == 0x2029
    ||| c as u32 == 0x202F
    ||| c as u32 == 0x205F
    ||| c as u32 == 0x3000
}

/// ASCII decimal digit.
pub open spec fn is_digit(c: char) -> bool {
    '0' <= c && c <= '9'
}

/// ASCII hexadecimal digit (either case).
pub open spec fn is_hex_digit(c: char) -> bool {
    ||| '0' <= c && c <= '9'
    ||| 'a' <= c && c <= 'f'
    ||| 'A' <= c && c <= 'F'
}

/// Value of an ASCII hexadecimal digit.
pub open spec fn hex_value(c: char) -> int {
    if '0' <= c && c <= '9' {
        c as int - '0' as int
    } else if 'a' <= c && c <= 'f' {
        c as int - 'a' as int + 10
    } else {
        c as int - 'A' as int + 10
    }
}

/// `char::to_ascii_lowercase`.
pub open spec fn ascii_lower(c: char) -> char {
    if 'A' <= c && c <= 'Z' {
        ((c as u32) + 32) as char
    } else {
        c
    }
}

/// `str::to_ascii_lowercase`.
pub open spec fn ascii_lower_seq(s: Seq<char>) -> Seq<char> {
    Seq::new(s.len(), |i: int| ascii_lower(s[i]))
}

/// `p` occurs in `s` starting at position `i`.
pub open spec fn occurs_at(s: Seq<char>, p: Seq<char>, i: int) -> bool {
    0 <= i && i + p.len() <= s.len() && s.subrange(i, i + p.len()) == p
}

/// `s` contains `p` as a contiguous piece (`str::contains`).
pub open spec fn has_sub(s: Seq<char>, p: Seq<char>) -> bool {
    exists|i: int| occurs_at(s, p, i)
}

/// `s` starts with `p` (`str::starts_with`).
pub open spec fn has_prefix(s: Seq<char>, p: Seq<char>) -> bool {
    p.len() <= s.len() && s.subrange(0, p.len() as int) == p
}

/// `s` ends with `p` (`str::ends_with`).
pub open spec fn has_suffix(s: Seq<char>, p: Seq<char>) -> bool {
    p.len() <= s.len() && s.subrange(s.len() - p.len(), s.len() as int) == p
}

/// `str::trim_start`: drops leading whitespace.
pub open spec fn trim_start(s: Seq<char>) -> Seq<char>
    decreases s.len(),
{
    if s.len() > 0 && is_ws(s[0]) {
        trim_start(s.drop_first())
    } else {
        s
    }
}

/// `str::trim_end`: drops trailing whitespace.
pub open spec fn trim_end(s: Seq<char>) -> Seq<char>
    decreases s.len(),
{
    if s.len() > 0 && is_ws(s.last()) {
        trim_end(s.drop_last())
    } else {
        s
    }
}

/// `str::trim`.
pub open spec fn trim(s: Seq<char>) -> Seq<char> {
    trim_end(trim_start(s))
}

/// `str::trim_start_matches(c)` for one character.
pub open spec fn strip_all_start(s: Seq<char>, c: char) -> Seq<char>
    decreases s.len(),
{
    if s.len() > 0 && s[0] == c {
        strip_all_start(s.drop_first(), c)
    } else {
        s
    }
}

/// `str::trim_end_matches(c)` for one character.
pub open spec fn strip_all_end(s: Seq<char>, c: char) -> Seq<char>
    decreases s.len(),
{
    if s.len() > 0 && s.last() == c {
        strip_all_end(s.drop_last(), c)
    } else {
        s
    }
}

/// `str::split` with a separator predicate: `n` separators give `n + 1` pieces,
/// empty pieces included.
pub open spec fn split_when(s: Seq<char>, sep: spec_fn(char) -> bool) -> Seq<Seq<char>>
    decreases s.len(),
{
    if s.len() == 0 {
        seq![Seq::<char>::empty()]
    } else {
        let prev = split_when(s.drop_last(), sep);
        if sep(s.last()) {
            prev.push(Seq::<char>::empty())
        } else {
            prev.update(prev.len() - 1, prev.last().push(s.last()))
        }
    }
}

/// `str::split` on any character of `seps`.
pub open spec fn split_by(s: Seq<char>, seps: Seq<char>) -> Seq<Seq<char>> {
    split_when(s, |c: char| seps.contains(c))
}

/// Which characters separate the pieces of a split.
pub enum SepKind {
    /// Any character of the set.
    AnyOf(Vec<char>),
    /// Unicode whitespace.
    Whitespace,
    /// A comma or Unicode whitespace.
    CommaOrWhitespace,
    /// Anything but an ASCII digit or `.`.
    NotDigitOrDot,
}

impl SepKind {
    pub open spec fn pred(self) -> spec_fn(char) -> bool {
        match self {
            SepKind::AnyOf(v) => |c: char| v@.contains(c),
            SepKind::Whitespace => |c: char| is_ws(c),
            SepKind::CommaOrWhitespace => |c: char| c == ',' || is_ws(c),
            SepKind::NotDigitOrDot => |c: char| !is_digit(c) && c != '.',
        }
    }
}

/// The views of a sequence of character vectors.
pub open spec fn views(v: Seq<Vec<char>>) -> Seq<Seq<char>> {
    Seq::new(v.len(), |i: int| v[i]@)
}

/// Decimal value of a sequence of digits (the empty sequence is 0).
pub open spec fn digits_value(s: Seq<char>) -> nat
    decreases s.len(),
{
    if s.len() == 0 {
        0
    } else {
        digits_value(s.drop_last()) * 10 + ((s.last() as int - '0' as int) as nat)
    }
}

/// Hexadecimal value of a sequence of hex digits (the empty sequence is 0).
pub open spec fn hex_digits_value(s: Seq<char>) -> nat
    decreases s.len(),
{
    if s.len() == 0 {
        0
    } else {
        hex_digits_value(s.drop_last()) * 16 + (hex_value(s.last()) as nat)
    }
}

/// The digits that `u64::from_str` / `u32::from_str` read: an optional `+`, then the rest.
pub open spec fn unsigned_body(s: Seq<char>) -> Seq<char> {
    if s.len() > 0 && s[0] == '+' {
        s.drop_first()
    } else {
        s
    }
}

/// What `<u64 as FromStr>::from_str` (radix 10) accepts and gives back.
pub open spec fn parse_u64_spec(s: Seq<char>) -> Option<u64> {
    let b = unsigned_body(s);
    if b.len() > 0 && (forall|i: int| 0 <= i < b.len() ==> is_digit(#[trigger] b[i]))
        && digits_value(b) <= u64::MAX {
        Some(digits_value(b) as u64)
    } else {
        None
    }
}

/// What `u32::from_str_radix(s, 16)` accepts and gives back.
pub open spec fn parse_hex_u32_spec(s: Seq<char>) -> Option<u32> {
    let b = unsigned_body(s);
    if b.len() > 0 && (forall|i: int| 0 <= i < b.len() ==> is_hex_digit(#[trigger] b[i]))
        && hex_digits_value(b) <= u32::MAX {
        Some(hex_digits_value(b) as u32)
    } else {
        None
    }
}

/// Unicode lower-casing as `str::to_lowercase` performs it.
pub uninterp spec fn spec_to_lowercase(s: Seq<char>) -> Seq<char>;

// ───────────────────────── executable helpers ─────────────────────────

/// The characters of `s`, in order.
pub fn chars_of(s: &str) -> (v: Vec<char>)
    ensures
        v@ == s@,
{
    let n = s.unicode_len();
    let mut v: Vec<char> = Vec::new();
    let mut i: usize = 0;
    while i < n
        invariant
            n == s@.len(),
            i <= n,
            v@ == s@.subrange(0, i as int),
        decreases n - i,
    {
        let c = s.get_char(i);
        v.push(c);
        i = i + 1;
        assert(v@ =~= s@.subrange(0, i as int));
    }
    assert(v@ =~= s@);
    v
}

/// Builds a `String` holding exactly the characters of `v`.
#[verifier::external_body]
pub(crate) fn string_from_chars(v: &Vec<char>) -> (s: String)
    ensures
        s@ == v@,
{
    v.iter().collect()
}

/// What `str::to_uppercase` gives for a text.
pub uninterp spec fn spec_to_uppercase(s: Seq<char>) -> Seq<char>;

/// `str::to_uppercase`.  The contract only names the result: Unicode case
/// mapping is std's.
#[verifier::external_body]
pub(crate) fn str_to_uppercase(s: &str) -> (r: String)
    ensures
        r@ == spec_to_uppercase(s@),
{
    s.to_uppercase()
}

/// `str::to_lowercase`.
#[verifier::external_body]
pub(crate) fn str_to_lowercase(s: &str) -> (r: String)
    ensures
        r@ == spec_to_lowercase(s@),
{
    s.to_lowercase()
}

/// A copy of `s` as a `String`.
pub fn str_to_string(s: &str) -> (r: String)
    ensures
        r@ == s@,
{
    let v = chars_of(s);
    string_from_chars(&v)
}

/// `char::is_whitespace`.
pub fn char_is_ws(c: char) -> (b: bool)
    ensures
        b == is_ws(c),
{
    let u = c as u32;
    (9 <= u && u <= 13) || u == 0x20 || u == 0x85 || u == 0xA0 || u == 0x1680 || (0x2000 <= u
        && u <= 0x200A) || u == 0x2028 || u == 0x2029 || u == 0x202F || u == 0x205F || u == 0x3000
}

/// `char::to_ascii_lowercase`.
pub fn char_ascii_lower(c: char) -> (r: char)
    ensures
        r == ascii_lower(c),
{
    if 'A' <= c && c <= 'Z' {
        let u = (c as u32) + 32;
        proof {
            assert(u == (c as u32) + 32);
        }
        let r = char_from_ascii_upper_shift(c);
        r
    } else {
        c
    }
}

fn char_from_ascii_upper_shift(c: char) -> (r: char)
    requires
        'A' <= c && c <= 'Z',
    ensures
        r == ((c as u32) + 32) as char,
{
    let u: u8 = (c as u8) + 32;
    u as char
}

/// `str::to_ascii_lowercase` on a character vector.
pub fn ascii_lower_vec(s: &Vec<char>) -> (r: Vec<char>)
    ensures
        r@ == ascii_lower_seq(s@),
{
    let mut r: Vec<char> = Vec::new();
    let mut i: usize = 0;
    while i < s.len()
        invariant
            i <= s.len(),
            r@ == ascii_lower_seq(s@.subrange(0, i as int)),
        decreases s.len() - i,
    {
        let c = char_ascii_lower(s[i]);
        r.push(c);
        i = i + 1;
        assert(r@ =~= ascii_lower_seq(s@.subrange(0, i as int)));
    }
    assert(s@.subrange(0, s.len() as int) =~= s@);
    r
}

/// `s` and `t` hold the same characters.
pub fn vec_eq(s: &Vec<char>, t: &Vec<char>) -> (b: bool)
    ensures
        b == (s@ == t@),
{
    if s.len() != t.len() {
        return false;
    }
    let mut i: usize = 0;
    while i < s.len()
        invariant
            s.len() == t.len(),
            i <= s.len(),
            forall|j: int| 0 <= j < i ==> s@[j] == t@[j],
        decreases s.len() - i,
    {
        if s[i] != t[i] {
            return false;
        }
        i = i + 1;
    }
    assert(s@ =~= t@);
    true
}

/// `p` occurs in `s` at position `at`.
pub fn occurs_at_exec(s: &Vec<char>, p: &Vec<char>, at: usize) -> (b: bool)
    ensures
        b == occurs_at(s@, p@, at as int),
{
    if at > s.len() || p.len() > s.len() - at {
        return false;
    }
    let mut i: usize = 0;
    while i < p.len()
        invariant
            at + p.len() <= s.len(),
            i <= p.len(),
            forall|j: int| 0 <= j < i ==> s@[at + j] == p@[j],
        decreases p.len() - i,
    {
        if s[at + i] != p[i] {
            assert(s@.subrange(at as int, at + p.len())[i as int] != p@[i as int]);
            return false;
        }
        i = i + 1;
    }
    assert(s@.subrange(at as int, at + p.len()) =~= p@);
    true
}

/// `str::starts_with`.
pub fn starts_with(s: &Vec<char>, p: &Vec<char>) -> (b: bool)
    ensures
        b == has_prefix(s@, p@),
{
    occurs_at_exec(s, p, 0)
}

/// `str::ends_with`.
pub fn ends_with(s: &Vec<char>, p: &Vec<char>) -> (b: bool)
    ensures
        b == has_suffix(s@, p@),
{
    if p.len() > s.len() {
        return false;
    }
    occurs_at_exec(s, p, s.len() - p.len())
}

/// First position at which `p` occurs in `s` (`str::find`).
pub fn find_sub(s: &Vec<char>, p: &Vec<char>) -> (r: Option<usize>)
    ensures
        match r {
            Some(i) => occurs_at(s@, p@, i as int) && forall|j: int|
                0 <= j < i ==> !occurs_at(s@, p@, j),
            None => !has_sub(s@, p@),
        },
{
    let mut i: usize = 0;
    while i < s.len()
        invariant
            i <= s.len(),
            forall|j: int| 0 <= j < i ==> !occurs_at(s@, p@, j),
        decreases s.len() - i,
    {
        if occurs_at_exec(s, p, i) {
            return Some(i);
        }
        i = i + 1;
    }
    if occurs_at_exec(s, p, i) {
        return Some(i);
    }
    assert forall|j: int| !occurs_at(s@, p@, j) by {
        if 0 <= j <= i {
        } else {
        }
    }
    None
}

/// `str::contains`.
pub fn contains_sub(s: &Vec<char>, p: &Vec<char>) -> (b: bool)
    ensures
        b == has_sub(s@, p@),
{
    match find_sub(s, p) {
        Some(_) => true,
        None => false,
    }
}

/// `str::contains(char)`.
pub fn contains_char(s: &Vec<char>, c: char) -> (b: bool)
    ensures
        b == s@.contains(c),
{
    let mut i: usize = 0;
    while i < s.len()
        invariant
            i <= s.len(),
            forall|j: int| 0 <= j < i ==> s@[j] != c,
        decreases s.len() - i,
    {
        if s[i] == c {
            return true;
        }
        i = i + 1;
    }
    false
}

/// `s[from..to]` as a new vector.
pub fn slice_vec(s: &Vec<char>, from: usize, to: usize) -> (r: Vec<char>)
    requires
        from <= to <= s.len(),
    ensures
        r@ == s@.subrange(from as int, to as int),
{
    let mut r: Vec<char> = Vec::new();
    let mut i: usize = from;
    while i < to
        invariant
            from <= i <= to,
            to <= s.len(),
            r@ == s@.subrange(from as int, i as int),
        decreases to - i,
    {
        r.push(s[i]);
        i = i + 1;
        assert(r@ =~= s@.subrange(from as int, i as int));
    }
    r
}

/// Appends the characters of `t` to `s`.
pub fn append_vec(s: &mut Vec<char>, t: &Vec<char>)
    ensures
        final(s)@ == old(s)@ + t@,
{
    let mut i: usize = 0;
    while i < t.len()
        invariant
            i <= t.len(),
            s@ == old(s)@ + t@.subrange(0, i as int),
        decreases t.len() - i,
    {
        s.push(t[i]);
        i = i + 1;
        assert(s@ =~= old(s)@ + t@.subrange(0, i as int));
    }
    assert(t@.subrange(0, t.len() as int) =~= t@);
}

/// Appends the characters of `t` to `s`.
pub fn append_str(s: &mut Vec<char>, t: &str)
    ensures
        final(s)@ == old(s)@ + t@,
{
    let v = chars_of(t);
    append_vec(s, &v);
}

/// Index of the first non-whitespace character (or the length).
fn trim_start_index(s: &Vec<char>) -> (k: usize)
    ensures
        k <= s.len(),
        trim_start(s@) == s@.subrange(k as int, s.len() as int),
{
    let mut k: usize = 0;
    assert(s@.subrange(0, s.len() as int) =~= s@);
    while k < s.len() && char_is_ws(s[k])
        invariant
            k <= s.len(),
            trim_start(s@) == trim_start(s@.subrange(k as int, s.len() as int)),
        decreases s.len() - k,
    {
        let ghost rest = s@.subrange(k as int, s.len() as int);
        assert(rest.drop_first() =~= s@.subrange(k + 1, s.len() as int));
        k = k + 1;
    }
    proof {
        let rest = s@.subrange(k as int, s.len() as int);
        if rest.len() > 0 {
            assert(rest[0] == s@[k as int]);
        }
    }
    assert(s@.subrange(0, s.len() as int) =~= s@);
    k
}

/// Index one past the last non-whitespace character of `s[..end]` (or 0).
fn trim_end_index(s: &Vec<char>, end: usize) -> (k: usize)
    requires
        end <= s.len(),
    ensures
        k <= end,
        trim_end(s@.subrange(0, end as int)) == s@.subrange(0, k as int),
{
    let mut k: usize = end;
    while k > 0 && char_is_ws(s[k - 1])
        invariant
            k <= end <= s.len(),
            trim_end(s@.subrange(0, end as int)) == trim_end(s@.subrange(0, k as int)),
        decreases k,
    {
        let ghost pre = s@.subrange(0, k as int);
        assert(pre.drop_last() =~= s@.subrange(0, k - 1));
        k = k - 1;
    }
    proof {
        let pre = s@.subrange(0, k as int);
        if pre.len() > 0 {
            assert(pre.last() == s@[k - 1]);
        }
    }
    k
}

/// `str::trim`.
pub fn trim_vec(s: &Vec<char>) -> (r: Vec<char>)
    ensures
        r@ == trim(s@),
{
    let a = trim_start_index(s);
    let t = slice_vec(s, a, s.len());
    let b = trim_end_index(&t, t.len());
    assert(t@.subrange(0, t.len() as int) =~= t@);
    slice_vec(&t, 0, b)
}

/// `str::trim_start_matches(c)`.
pub fn strip_all_start_vec(s: &Vec<char>, c: char) -> (r: Vec<char>)
    ensures
        r@ == strip_all_start(s@, c),
{
    let mut k: usize = 0;
    assert(s@.subrange(0, s.len() as int) =~= s@);
    while k < s.len() && s[k] == c
        invariant
            k <= s.len(),
            strip_all_start(s@, c) == strip_all_start(s@.subrange(k as int, s.len() as int), c),
        decreases s.len() - k,
    {
        let ghost rest = s@.subrange(k as int, s.len() as int);
        assert(rest.drop_first() =~= s@.subrange(k + 1, s.len() as int));
        k = k + 1;
    }
    proof {
        let rest = s@.subrange(k as int, s.len() as int);
        if rest.len() > 0 {
            assert(rest[0] == s@[k as int]);
        }
    }
    assert(s@.subrange(0, s.len() as int) =~= s@);
    slice_vec(s, k, s.len())
}

/// `str::trim_end_matches(c)`.
pub fn strip_all_end_vec(s: &Vec<char>, c: char) -> (r: Vec<char>)
    ensures
        r@ == strip_all_end(s@, c),
{
    let mut k: usize = s.len();
    assert(s@.subrange(0, s.len() as int) =~= s@);
    while k > 0 && s[k - 1] == c
        invariant
            k <= s.len(),
            strip_all_end(s@, c) == strip_all_end(s@.subrange(0, k as int), c),
        decreases k,
    {
        let ghost pre = s@.subrange(0, k as int);
        assert(pre.drop_last() =~= s@.subrange(0, k - 1));
        k = k - 1;
    }
    proof {
        let pre = s@.subrange(0, k as int);
        if pre.len() > 0 {
            assert(pre.last() == s@[k - 1]);
        }
    }
    assert(s@.subrange(0, s.len() as int) =~= s@);
    slice_vec(s, 0, k)
}

fn is_sep(kind: &SepKind, c: char) -> (b: bool)
    ensures
        b == (kind.pred())(c),
{
    match kind {
        SepKind::AnyOf(v) => contains_char(v, c),
        SepKind::Whitespace => char_is_ws(c),
        SepKind::CommaOrWhitespace => c == ',' || char_is_ws(c),
        SepKind::NotDigitOrDot => !('0' <= c && c <= '9') && c != '.',
    }
}

/// `str::split` with the separators of `kind`.
pub fn split_vec(s: &Vec<char>, kind: &SepKind) -> (r: Vec<Vec<char>>)
    ensures
        views(r@) == split_when(s@, kind.pred()),
        r@.len() >= 1,
{
    let ghost sep = kind.pred();
    let mut parts: Vec<Vec<char>> = Vec::new();
    let mut cur: Vec<char> = Vec::new();
    let mut i: usize = 0;
    assert(s@.subrange(0, 0) =~= Seq::<char>::empty());
    assert(views(parts@).push(cur@) =~= seq![Seq::<char>::empty()]);
    while i < s.len()
        invariant
            i <= s.len(),
            sep == kind.pred(),
            views(parts@).push(cur@) == split_when(s@.subrange(0, i as int), sep),
        decreases s.len() - i,
    {
        let c = s[i];
        let ghost before = views(parts@).push(cur@);
        let ghost pre = s@.subrange(0, i + 1);
        assert(pre.drop_last() =~= s@.subrange(0, i as int));
        assert(pre.last() == c);
        if is_sep(kind, c) {
            let done = cur;
            parts.push(done);
            cur = Vec::new();
            assert(views(parts@).push(cur@) =~= before.push(Seq::<char>::empty()));
        } else {
            cur.push(c);
            assert(views(parts@).push(cur@) =~= before.update(
                before.len() - 1,
                before.last().push(c),
            ));
        }
        i = i + 1;
    }
    assert(s@.subrange(0, s.len() as int) =~= s@);
    parts.push(cur);
    assert(views(parts@) =~= split_when(s@, sep));
    parts
}

/// `str::split` on any character of `seps`.
pub fn split_by_vec(s: &Vec<char>, seps: &Vec<char>) -> (r: Vec<Vec<char>>)
    ensures
        views(r@) == split_by(s@, seps@),
        r@.len() >= 1,
{
    let kind = SepKind::AnyOf(seps.clone());
    let r = split_vec(s, &kind);
    assert(kind.pred() =~= (|c: char| seps@.contains(c)));
    r
}

/// Parses an unsigned decimal number as `u64::from_str` does.
pub fn parse_u64(s: &Vec<char>) -> (r: Option<u64>)
    ensures
        r == parse_u64_spec(s@),
{
    let start: usize = if s.len() > 0 && s[0] == '+' {
        1
    } else {
        0
    };
    let ghost b = unsigned_body(s@);
    assert(b =~= s@.subrange(start as int, s.len() as int));
    if start >= s.len() {
        return None;
    }
    let mut acc: u64 = 0;
    let mut i: usize = start;
    while i < s.len()
        invariant
            start <= i <= s.len(),
            b == s@.subrange(start as int, s.len() as int),
            b == unsigned_body(s@),
            forall|j: int| 0 <= j < i - start ==> is_digit(#[trigger] b[j]),
            acc as nat == digits_value(b.subrange(0, i - start)),
        decreases s.len() - i,
    {
        let c = s[i];
        assert(b[i - start] == c);
        if !('0' <= c && c <= '9') {
            assert(!is_digit(b[i - start]));
            return None;
        }
        let d = (c as u32 - '0' as u32) as u64;
        let ghost pre = b.subrange(0, i - start + 1);
        assert(pre.drop_last() =~= b.subrange(0, i - start));
        assert(digits_value(pre) == digits_value(b.subrange(0, i - start)) * 10 + d);
        if acc > (u64::MAX - d) / 10 {
            proof {
                lemma_digits_value_mono(b, (i - start + 1) as int);
                let a = acc as int;
                let dd = d as int;
                assert(a * 10 + dd > u64::MAX) by (nonlinear_arith)
                    requires
                        a > (u64::MAX - dd) / 10,
                        0 <= dd <= 9,
                ;
            }
            return None;
        }
        acc = acc * 10 + d;
        i = i + 1;
    }
    assert(b.subrange(0, b.len() as int) =~= b);
    Some(acc)
}

/// A prefix of digits never has a larger value than a longer prefix.
proof fn lemma_digits_value_mono(b: Seq<char>, k: int)
    requires
        0 <= k <= b.len(),
    ensures
        digits_value(b.subrange(0, k)) <= digits_value(b),
    decreases b.len() - k,
{
    if k < b.len() {
        lemma_digits_value_mono(b, k + 1);
        let pre = b.subrange(0, k + 1);
        assert(pre.drop_last() =~= b.subrange(0, k));
    } else {
        assert(b.subrange(0, k) =~= b);
    }
}

/// Parses hexadecimal digits as `u32::from_str_radix(_, 16)` does.
pub fn parse_hex_u32(s: &Vec<char>) -> (r: Option<u32>)
    ensures
        r == parse_hex_u32_spec(s@),
{
    let start: usize = if s.len() > 0 && s[0] == '+' {
        1
    } else {
        0
    };
    let ghost b = unsigned_body(s@);
    assert(b =~= s@.subrange(start as int, s.len() as int));
    if start >= s.len() {
        return None;
    }
    let mut acc: u32 = 0;
    let mut i: usize = start;
    while i < s.len()
        invariant
            start <= i <= s.len(),
            b == s@.subrange(start as int, s.len() as int),
            b == unsigned_body(s@),
            forall|j: int| 0 <= j < i - start ==> is_hex_digit(#[trigger] b[j]),
            acc as nat == hex_digits_value(b.subrange(0, i - start)),
        decreases s.len() - i,
    {
        let c = s[i];
        assert(b[i - start] == c);
        let d: u32 = if '0' <= c && c <= '9' {
            c as u32 - '0' as u32
        } else if 'a' <= c && c <= 'f' {
            c as u32 - 'a' as u32 + 10
        } else if 'A' <= c && c <= 'F' {
            c as u32 - 'A' as u32 + 10
        } else {
            assert(!is_hex_digit(b[i - start]));
            return None;
        };
        let ghost pre = b.subrange(0, i - start + 1);
        assert(pre.drop_last() =~= b.subrange(0, i - start));
        assert(hex_digits_value(pre) == hex_digits_value(b.subrange(0, i - start)) * 16 + d);
        if acc > (u32::MAX - d) / 16 {
            proof {
                lemma_hex_value_mono(b, (i - start + 1) as int);
                let a = acc as int;
                let dd = d as int;
                assert(a * 16 + dd > u32::MAX) by (nonlinear_arith)
                    requires
                        a > (u32::MAX - dd) / 16,
                        0 <= dd <= 15,
                ;
            }
            return None;
        }
        acc = acc * 16 + d;
        i = i + 1;
    }
    assert(b.subrange(0, b.len() as int) =~= b);
    Some(acc)
}

/// A prefix of hex digits never has a larger value than a longer prefix.
proof fn lemma_hex_value_mono(b: Seq<char>, k: int)
    requires
        0 <= k <= b.len(),
    ensures
        hex_digits_value(b.subrange(0, k)) <= hex_digits_value(b),
    decreases b.len() - k,
{
    if k < b.len() {
        lemma_hex_value_mono(b, k + 1);
        let pre = b.subrange(0, k + 1);
        assert(pre.drop_last() =~= b.subrange(0, k));
    } else {
        assert(b.subrange(0, k) =~= b);
    }
}

/// The decimal digits of `n`, most significant first (as `u64::to_string`).
pub open spec fn decimal(n: nat) -> Seq<char>
    decreases n,
{
    if n < 10 {
        seq![((n + 48) as u32) as char]
    } else {
        decimal(n / 10).push((((n % 10) + 48) as u32) as char)
    }
}

/// Appends the decimal digits of `n` to `s`.
pub fn push_decimal(s: &mut Vec<char>, n: u64)
    ensures
        final(s)@ == old(s)@ + decimal(n as nat),
    decreases n,
{
    if n >= 10 {
        push_decimal(s, n / 10);
    }
    let d: u8 = (n % 10) as u8;
    let c: char = (d + 48) as char;
    s.push(c);
}


/// The views of a sequence of strings.
pub open spec fn strs(v: Seq<String>) -> Seq<Seq<char>> {
    Seq::new(v.len(), |i: int| v[i]@)
}

/// `parts.join(sep)`.
pub open spec fn join_sep(parts: Seq<Seq<char>>, sep: Seq<char>) -> Seq<char>
    decreases parts.len(),
{
    if parts.len() == 0 {
        Seq::empty()
    } else if parts.len() == 1 {
        parts[0]
    } else {
        join_sep(parts.drop_last(), sep) + sep + parts.last()
    }
}

/// `parts.join(sep)` on strings.
pub fn join_strings(parts: &Vec<String>, sep: &str) -> (r: String)
    ensures
        r@ == join_sep(strs(parts@), sep@),
{
    let ghost ev = strs(parts@);
    let mut v: Vec<char> = Vec::new();
    let mut i: usize = 0;
    while i < parts.len()
        invariant
            i <= parts@.len(),
            ev == strs(parts@),
            v@ == join_sep(ev.subrange(0, i as int), sep@),
        decreases parts.len() - i,
    {
        let ghost pre = ev.subrange(0, i + 1);
        assert(pre.drop_last() =~= ev.subrange(0, i as int));
        if i > 0 {
            append_str(&mut v, sep);
        } else {
            assert(ev.subrange(0, 0) =~= Seq::<Seq<char>>::empty());
        }
        append_str(&mut v, parts[i].as_str());
        i = i + 1;
    }
    assert(ev.subrange(0, parts@.len() as int) =~= ev);
    string_from_chars(&v)
}

/// A copy of `s`.
pub fn copy_string(s: &String) -> (r: String)
    ensures
        r@ == s@,
{
    s.clone()
}

/// `a + b` as a new string.
pub fn concat2(a: &str, b: &str) -> (r: String)
    ensures
        r@ == a@ + b@,
{
    let mut v = chars_of(a);
    append_str(&mut v, b);
    string_from_chars(&v)
}

/// `a + b + c` as a new string.
pub fn concat3(a: &str, b: &str, c: &str) -> (r: String)
    ensures
        r@ == a@ + b@ + c@,
{
    let mut v = chars_of(a);
    append_str(&mut v, b);
    append_str(&mut v, c);
    string_from_chars(&v)
}

/// `a` and `b` hold the same characters.
pub fn str_eq(a: &str, b: &str) -> (r: bool)
    ensures
        r == (a@ == b@),
{
    let n = a.unicode_len();
    if n != b.unicode_len() {
        return false;
    }
    let mut i: usize = 0;
    while i < n
        invariant
            n == a@.len(),
            n == b@.len(),
            i <= n,
            forall|j: int| 0 <= j < i ==> a@[j] == b@[j],
        decreases n - i,
    {
        if a.get_char(i) != b.get_char(i) {
            return false;
        }
        i = i + 1;
    }
    assert(a@ =~= b@);
    true
}

/// `s.is_empty()` by characters.
pub fn str_is_empty(s: &str) -> (r: bool)
    ensures
        r == (s@.len() == 0),
{
    s.unicode_len() == 0
}

/// Appends the decimal digits of `n` to `s`.
pub fn push_decimal_u128(s: &mut Vec<char>, n: u128)
    ensures
        final(s)@ == old(s)@ + decimal(n as nat),
    decreases n,
{
    if n >= 10 {
        push_decimal_u128(s, n / 10);
    }
    let d: u8 = (n % 10) as u8;
    let c: char = (d + 48) as char;
    s.push(c);
}

/// `{:02}`: the decimal digits of `n`, with a leading zero below ten.
pub open spec fn pad2(n: nat) -> Seq<char> {
    if n < 10 {
        seq!['0'] + decimal(n)
    } else {
        decimal(n)
    }
}

/// Appends `{:02}` of `n` to `s`.
pub fn push_pad2(s: &mut Vec<char>, n: u64)
    ensures
        final(s)@ == old(s)@ + pad2(n as nat),
{
    if n < 10 {
        s.push('0');
    }
    let ghost mid = s@;
    push_decimal(s, n);
    assert(s@ =~= old(s)@ + pad2(n as nat));
}

/// The decimal form of a signed integer (as `i64::to_string`).
pub open spec fn signed_decimal(i: int) -> Seq<char> {
    if i < 0 {
        seq!['-'] + decimal((-i) as nat)
    } else {
        decimal(i as nat)
    }
}

/// Appends the decimal form of `i` to `s`.
pub fn push_i64(s: &mut Vec<char>, i: i64)
    ensures
        final(s)@ == old(s)@ + signed_decimal(i as int),
{
    if i < 0 {
        s.push('-');
        let mag: u64 = if i == i64::MIN {
            0x8000_0000_0000_0000u64
        } else {
            (-i) as u64
        };
        push_decimal(s, mag);
        assert(s@ =~= old(s)@ + signed_decimal(i as int));
    } else {
        push_decimal(s, i as u64);
    }
}

/// `s` with every occurrence of `from` (taken left to right, not
/// overlapping) replaced by `to` (`str::replace`), for a non-empty `from`.
pub open spec fn replace_all(s: Seq<char>, from: Seq<char>, to: Seq<char>) -> Seq<char>
    decreases s.len(),
{
    if from.len() == 0 || s.len() < from.len() {
        s
    } else if s.subrange(0, from.len() as int) == from {
        to + replace_all(s.subrange(from.len() as int, s.len() as int), from, to)
    } else {
        seq![s[0]] + replace_all(s.drop_first(), from, to)
    }
}

/// `str::replace` for a non-empty pattern.
pub fn replace_str(s: &str, from: &str, to: &str) -> (r: String)
    requires
        from@.len() > 0,
    ensures
        r@ == replace_all(s@, from@, to@),
{
    let v = chars_of(s);
    let f = chars_of(from);
    let t = chars_of(to);
    let n = v.len();
    let mut out: Vec<char> = Vec::new();
    let mut i: usize = 0;
    assert(v@.subrange(0, n as int) =~= v@);
    while i < n
        invariant
            n == v@.len(),
            i <= n,
            f@ == from@,
            f@.len() > 0,
            out@ + replace_all(v@.subrange(i as int, n as int), f@, t@) == replace_all(v@, f@, t@),
        decreases n - i,
    {
        let ghost rest = v@.subrange(i as int, n as int);
        if f.len() <= n - i && occurs_at_exec(&v, &f, i) {
            assert(rest.subrange(0, f@.len() as int) =~= v@.subrange(i as int, i + f@.len()));
            assert(rest.subrange(f@.len() as int, rest.len() as int) =~= v@.subrange(i + f@.len(), n as int));
            let ghost before = out@;
            append_vec(&mut out, &t);
            assert(out@ + replace_all(v@.subrange(i + f@.len(), n as int), f@, t@) =~= before + replace_all(rest, f@, t@));
            i = i + f.len();
        } else {
            proof {
                if f@.len() <= rest.len() {
                    assert(rest.subrange(0, f@.len() as int) =~= v@.subrange(i as int, i + f@.len()));
                }
            }
            assert(rest.drop_first() =~= v@.subrange(i + 1, n as int));
            assert(rest[0] == v@[i as int]);
            let ghost before = out@;
            out.push(v[i]);
            assert(out@ + replace_all(v@.subrange(i + 1, n as int), f@, t@) =~= before + replace_all(rest, f@, t@));
            i = i + 1;
        }
    }
    assert(v@.subrange(n as int, n as int) =~= Seq::<char>::empty());
    assert(out@ =~= replace_all(v@, f@, t@));
    string_from_chars(&out)
}

/// What `Path::join` gives for a base path and a part, as text.
pub uninterp spec fn spec_path_join(base: Seq<char>, part: Seq<char>) -> Seq<char>;

/// `std::path::Path::join`, read back as text.  The contract only names the
/// result, which is fixed by the target the crate is built for: separators
/// and absolute parts are that platform's business.
#[verifier::external_body]
pub(crate) fn path_join(base: &str, part: &str) -> (r: String)
    ensures
        r@ == spec_path_join(base@, part@),
{
    std::path::Path::new(base).join(part).to_string_lossy().into_owned()
}

/// What `<i64 as FromStr>::from_str` accepts and gives back.
pub open spec fn parse_i64_spec(s: Seq<char>) -> Option<i64> {
    if s.len() > 0 && s[0] == '-' {
        let b = s.drop_first();
        if b.len() > 0 && (forall|i: int| 0 <= i < b.len() ==> is_digit(#[trigger] b[i]))
            && digits_value(b) <= 0x8000_0000_0000_0000 {
            Some((-(digits_value(b) as int)) as i64)
        } else {
            None
        }
    } else {
        match parse_u64_spec(s) {
            Some(u) => if u <= i64::MAX {
                Some(u as i64)
            } else {
                None
            },
            None => None,
        }
    }
}

/// Parses a signed decimal number as `i64::from_str` does.
pub fn parse_i64(s: &Vec<char>) -> (r: Option<i64>)
    ensures
        r == parse_i64_spec(s@),
{
    if s.len() > 0 && s[0] == '-' {
        let rest = slice_vec(s, 1, s.len());
        assert(rest@ =~= s@.drop_first());
        if rest.len() > 0 && rest[0] == '+' {
            assert(!is_digit(rest@[0]));
            return None;
        }
        assert(unsigned_body(rest@) == rest@);
        match parse_u64(&rest) {
            Some(u) => {
                if u <= 0x8000_0000_0000_0000u64 {
                    if u == 0x8000_0000_0000_0000u64 {
                        Some(i64::MIN)
                    } else {
                        Some(-(u as i64))
                    }
                } else {
                    None
                }
            },
            None => None,
        }
    } else {
        match parse_u64(s) {
            Some(u) => if u <= 0x7fff_ffff_ffff_ffffu64 {
                Some(u as i64)
            } else {
                None
            },
            None => None,
        }
    }
}

} // verus!
