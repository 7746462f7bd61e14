//! A JSON document as the music providers' responses are read.
//!
//! Objects keep their members in order; reading a key gives the first member
//! with that name.  Numbers keep what the readers ask of them: an unsigned or
//! a negative integer, or the printed form of any other number.

use vstd::prelude::*;
use crate::text::{decimal, str_to_string};

verus! {

broadcast use vstd::std_specs::vec::axiom_vec_decreases_to_view,
    vstd::std_specs::vec::axiom_vec_index_decreases, vstd::seq::axiom_seq_index_decreases,
    vstd::seq::axiom_seq_subrange_decreases;

/// A JSON number.
pub enum JsonNumber {
    /// An integer of zero or more.
    PosInt(u64),
    /// An integer below zero.
    NegInt(i64),
    /// Any other number, by its printed form and whether it is above zero.
    Float(String, bool),
}

/// A JSON value.
pub enum Json {
    Null,
    Bool(bool),
    Num(JsonNumber),
    Str(String),
    Arr(Vec<Json>),
    Obj(Vec<(String, Json)>),
}

// ───────────────────────── spec vocabulary ─────────────────────────

/// The value of the first member named `k`.
pub open spec fn lookup(es: Seq<(String, Json)>, k: Seq<char>) -> Option<Json>
    decreases es.len(),
{
    if es.len() == 0 {
        None
    } else if es[0].0@ == k {
        Some(es[0].1)
    } else {
        lookup(es.drop_first(), k)
    }
}

/// `Value::get(key)`: the member of an object, `None` for any other value.
pub open spec fn get_spec(j: Json, k: Seq<char>) -> Option<Json> {
    match j {
        Json::Obj(es) => lookup(es@, k),
        _ => None,
    }
}

/// `get` on an optional value.
pub open spec fn oget(j: Option<Json>, k: Seq<char>) -> Option<Json> {
    match j {
        Some(x) => get_spec(x, k),
        None => None,
    }
}

/// `Value::as_str`.
pub open spec fn str_of(j: Json) -> Option<Seq<char>> {
    match j {
        Json::Str(s) => Some(s@),
        _ => None,
    }
}

/// `as_str` on an optional value.
pub open spec fn ostr(j: Option<Json>) -> Option<Seq<char>> {
    match j {
        Some(x) => str_of(x),
        None => None,
    }
}

/// `Value::as_u64`.
pub open spec fn u64_of(j: Json) -> Option<u64> {
    match j {
        Json::Num(JsonNumber::PosInt(u)) => Some(u),
        _ => None,
    }
}

/// `as_u64` on an optional value.
pub open spec fn ou64(j: Option<Json>) -> Option<u64> {
    match j {
        Some(x) => u64_of(x),
        None => None,
    }
}

/// `Value::as_i64`.
pub open spec fn i64_of(j: Json) -> Option<i64> {
    match j {
        Json::Num(JsonNumber::PosInt(u)) => if u <= i64::MAX {
            Some(u as i64)
        } else {
            None
        },
        Json::Num(JsonNumber::NegInt(i)) => Some(i),
        _ => None,
    }
}

/// `as_i64` on an optional value.
pub open spec fn oi64(j: Option<Json>) -> Option<i64> {
    match j {
        Some(x) => i64_of(x),
        None => None,
    }
}

/// `Value::as_bool`.
pub open spec fn bool_of(j: Json) -> Option<bool> {
    match j {
        Json::Bool(b) => Some(b),
        _ => None,
    }
}

/// `as_bool` on an optional value.
pub open spec fn obool(j: Option<Json>) -> Option<bool> {
    match j {
        Some(x) => bool_of(x),
        None => None,
    }
}

/// `Value::as_array`.
pub open spec fn arr_of(j: Json) -> Option<Seq<Json>> {
    match j {
        Json::Arr(a) => Some(a@),
        _ => None,
    }
}

/// `as_array` on an optional value.
pub open spec fn oarr(j: Option<Json>) -> Option<Seq<Json>> {
    match j {
        Some(x) => arr_of(x),
        None => None,
    }
}

/// The printed form of a number (`Number::to_string`).
pub open spec fn number_text(n: JsonNumber) -> Seq<char> {
    match n {
        JsonNumber::PosInt(u) => decimal(u as nat),
        JsonNumber::NegInt(i) => if i < 0 {
            seq!['-'] + decimal((-i) as nat)
        } else {
            decimal(i as nat)
        },
        JsonNumber::Float(t, _) => t@,
    }
}

/// `Value::as_f64` is above zero.
pub open spec fn positive_spec(j: Json) -> bool {
    match j {
        Json::Num(JsonNumber::PosInt(u)) => u > 0,
        Json::Num(JsonNumber::Float(_, p)) => p,
        _ => false,
    }
}

/// The values behind a list of references.
pub open spec fn derefs(v: Seq<&Json>) -> Seq<Json> {
    v.map_values(|x: &Json| *x)
}

/// The first of two optional values that is present (`or_else`).
pub open spec fn or_opt(a: Option<Json>, b: Option<Json>) -> Option<Json> {
    match a {
        Some(x) => Some(x),
        None => b,
    }
}

/// The members of an object, each value by the text it holds (`None` for a
/// value that is not a string); `None` for any other value.
pub open spec fn str_entries(j: Json) -> Option<Seq<(Seq<char>, Option<Seq<char>>)>> {
    match j {
        Json::Obj(es) => Some(Seq::new(es@.len(), |i: int| (es@[i].0@, str_of(es@[i].1)))),
        _ => None,
    }
}

/// The value behind an optional reference.
pub open spec fn deref_opt(r: Option<&Json>) -> Option<Json> {
    match r {
        Some(x) => Some(*x),
        None => None,
    }
}

/// The value of `j` where there is one, `d` where there is none (`unwrap_or`).
pub open spec fn or_json(j: Option<Json>, d: Json) -> Json {
    match j {
        Some(x) => x,
        None => d,
    }
}

proof fn lemma_lookup_skip(es: Seq<(String, Json)>, k: Seq<char>, i: int)
    requires
        0 <= i < es.len(),
        es[i].0@ != k,
    ensures
        lookup(es.subrange(i, es.len() as int), k) == lookup(es.subrange(i + 1, es.len() as int), k),
{
    let s = es.subrange(i, es.len() as int);
    assert(s.drop_first() =~= es.subrange(i + 1, es.len() as int));
}

// ───────────────────────── readers ─────────────────────────

impl Json {
    /// `Value::get(key)`.
    pub fn get(&self, key: &str) -> (r: Option<&Json>)
        ensures
            deref_opt(r) == get_spec(*self, key@),
    {
        match self {
            Json::Obj(es) => {
                let k = str_to_string(key);
                let n = es.len();
                let mut i: usize = 0;
                assert(es@.subrange(0, n as int) =~= es@);
                while i < n
                    invariant
                        n == es@.len(),
                        i <= n,
                        k@ == key@,
                        get_spec(*self, key@) == lookup(es@, key@),
                        lookup(es@, key@) == lookup(es@.subrange(i as int, n as int), key@),
                    decreases n - i,
                {
                    if es[i].0 == k {
                        let ghost sub = es@.subrange(i as int, n as int);
                        assert(sub[0] == es@[i as int]);
                        assert(sub[0].0@ == key@);
                        assert(lookup(sub, key@) == Some(es@[i as int].1));
                        let e = &es[i];
                        assert(*e == es@[i as int]);
                        let r = Some(&e.1);
                        assert(deref_opt(r) == Some(es@[i as int].1));
                        return r;
                    }
                    proof {
                        lemma_lookup_skip(es@, key@, i as int);
                    }
                    i = i + 1;
                }
                None
            },
            _ => None,
        }
    }

    /// `Value::as_str`.
    pub fn as_str(&self) -> (r: Option<&String>)
        ensures
            match r {
                Some(s) => str_of(*self) == Some(s@),
                None => str_of(*self) is None,
            },
    {
        match self {
            Json::Str(s) => Some(s),
            _ => None,
        }
    }

    /// `Value::as_u64`.
    pub fn as_u64(&self) -> (r: Option<u64>)
        ensures
            r == u64_of(*self),
    {
        match self {
            Json::Num(JsonNumber::PosInt(u)) => Some(*u),
            _ => None,
        }
    }

    /// `Value::as_i64`.
    pub fn as_i64(&self) -> (r: Option<i64>)
        ensures
            r == i64_of(*self),
    {
        match self {
            Json::Num(JsonNumber::PosInt(u)) => {
                if *u <= 0x7fff_ffff_ffff_ffffu64 {
                    Some(*u as i64)
                } else {
                    None
                }
            },
            Json::Num(JsonNumber::NegInt(i)) => Some(*i),
            _ => None,
        }
    }

    /// `Value::as_bool`.
    pub fn as_bool(&self) -> (r: Option<bool>)
        ensures
            r == bool_of(*self),
    {
        match self {
            Json::Bool(b) => Some(*b),
            _ => None,
        }
    }

    /// `Value::as_array`.
    pub fn as_array(&self) -> (r: Option<&Vec<Json>>)
        ensures
            match r {
                Some(a) => arr_of(*self) == Some(a@),
                None => arr_of(*self) is None,
            },
    {
        match self {
            Json::Arr(a) => Some(a),
            _ => None,
        }
    }

    /// `as_f64().unwrap_or(0.0) > 0.0`.
    pub fn is_positive(&self) -> (b: bool)
        ensures
            b == positive_spec(*self),
    {
        match self {
            Json::Num(JsonNumber::PosInt(u)) => *u > 0,
            Json::Num(JsonNumber::Float(_, p)) => *p,
            _ => false,
        }
    }

    /// `Value::is_null`.
    pub fn is_null(&self) -> (b: bool)
        ensures
            b == (*self is Null),
    {
        match self {
            Json::Null => true,
            _ => false,
        }
    }

    /// `Value::is_object`.
    pub fn is_object(&self) -> (b: bool)
        ensures
            b == (*self is Obj),
    {
        match self {
            Json::Obj(_) => true,
            _ => false,
        }
    }
}

/// `Number::to_string`.
pub fn number_string(n: &JsonNumber) -> (r: String)
    ensures
        r@ == number_text(*n),
{
    match n {
        JsonNumber::PosInt(u) => {
            let mut v: Vec<char> = Vec::new();
            crate::text::push_decimal(&mut v, *u);
            crate::text::string_from_chars(&v)
        },
        JsonNumber::NegInt(i) => {
            let mut v: Vec<char> = Vec::new();
            if *i < 0 {
                v.push('-');
                let mag: u64 = if *i == i64::MIN {
                    0x8000_0000_0000_0000u64
                } else {
                    (-*i) as u64
                };
                crate::text::push_decimal(&mut v, mag);
                assert(v@ =~= seq!['-'] + decimal((-*i) as nat));
            } else {
                crate::text::push_decimal(&mut v, *i as u64);
                assert(v@ =~= decimal(*i as nat));
            }
            crate::text::string_from_chars(&v)
        },
        JsonNumber::Float(t, _) => t.clone(),
    }
}

// ───────────────────────── printing ─────────────────────────

/// A lower-case hexadecimal digit.
pub open spec fn hex_lower(d: int) -> char {
    if d < 10 {
        ((d + 48) as u32) as char
    } else {
        ((d + 87) as u32) as char
    }
}

/// A character inside a JSON string: quotes, backslashes and control
/// characters escaped, as compact JSON writes them.
pub open spec fn escape_char(c: char) -> Seq<char> {
    if c == '"' {
        seq!['\\', '"']
    } else if c == '\\' {
        seq!['\\', '\\']
    } else if c == '\n' {
        seq!['\\', 'n']
    } else if c == '\r' {
        seq!['\\', 'r']
    } else if c == '\t' {
        seq!['\\', 't']
    } else if c as u32 == 8 {
        seq!['\\', 'b']
    } else if c as u32 == 12 {
        seq!['\\', 'f']
    } else if (c as u32) < 0x20 {
        seq!['\\', 'u', '0', '0', hex_lower(((c as u32) / 16) as int), hex_lower(((c as u32) % 16) as int)]
    } else {
        seq![c]
    }
}

/// The escaped characters of a text.
pub open spec fn escape_seq(s: Seq<char>) -> Seq<char>
    decreases s.len(),
{
    if s.len() == 0 {
        Seq::empty()
    } else {
        escape_seq(s.drop_last()) + escape_char(s.last())
    }
}

/// A JSON string literal.
pub open spec fn quoted(s: Seq<char>) -> Seq<char> {
    seq!['"'] + escape_seq(s) + seq!['"']
}

/// The compact JSON text of a value (as `Value::to_string` prints it).
pub open spec fn json_text(j: Json) -> Seq<char>
    decreases j,
{
    match j {
        Json::Null => "null"@,
        Json::Bool(b) => if b {
            "true"@
        } else {
            "false"@
        },
        Json::Num(n) => number_text(n),
        Json::Str(s) => quoted(s@),
        Json::Arr(a) => seq!['['] + items_text(a@) + seq![']'],
        Json::Obj(es) => seq!['{'] + members_text(es@) + seq!['}'],
    }
}

/// The items of an array, comma-separated.
pub open spec fn items_text(items: Seq<Json>) -> Seq<char>
    decreases items,
{
    if items.len() == 0 {
        Seq::empty()
    } else if items.len() == 1 {
        json_text(items[0])
    } else {
        json_text(items[0]) + seq![','] + items_text(items.subrange(1, items.len() as int))
    }
}

/// The members of an object, comma-separated.
pub open spec fn members_text(es: Seq<(String, Json)>) -> Seq<char>
    decreases es,
{
    if es.len() == 0 {
        Seq::empty()
    } else {
        let first = quoted(es[0].0@) + seq![':'] + json_text(es[0].1);
        if es.len() == 1 {
            first
        } else {
            first + seq![','] + members_text(es.subrange(1, es.len() as int))
        }
    }
}

fn hex_lower_exec(d: u32) -> (c: char)
    requires
        d < 16,
    ensures
        c == hex_lower(d as int),
{
    if d < 10 {
        ((d as u8) + 48) as char
    } else {
        ((d as u8) + 87) as char
    }
}

/// Appends a JSON string literal of `s`.
pub fn push_quoted(out: &mut Vec<char>, s: &str)
    ensures
        final(out)@ == old(out)@ + quoted(s@),
{
    out.push('"');
    let ghost start = out@;
    let n = s.unicode_len();
    let mut i: usize = 0;
    while i < n
        invariant
            n == s@.len(),
            i <= n,
            out@ == start + escape_seq(s@.subrange(0, i as int)),
        decreases n - i,
    {
        let c = s.get_char(i);
        let ghost before = out@;
        if c == '"' {
            out.push('\\');
            out.push('"');
        } else if c == '\\' {
            out.push('\\');
            out.push('\\');
        } else if c == '\n' {
            out.push('\\');
            out.push('n');
        } else if c == '\r' {
            out.push('\\');
            out.push('r');
        } else if c == '\t' {
            out.push('\\');
            out.push('t');
        } else if (c as u32) == 8 {
            out.push('\\');
            out.push('b');
        } else if (c as u32) == 12 {
            out.push('\\');
            out.push('f');
        } else if (c as u32) < 0x20 {
            out.push('\\');
            out.push('u');
            out.push('0');
            out.push('0');
            out.push(hex_lower_exec((c as u32) / 16));
            out.push(hex_lower_exec((c as u32) % 16));
        } else {
            out.push(c);
        }
        assert(out@ =~= before + escape_char(c));
        let ghost pre = s@.subrange(0, i + 1);
        assert(pre.drop_last() =~= s@.subrange(0, i as int));
        i = i + 1;
    }
    assert(s@.subrange(0, n as int) =~= s@);
    out.push('"');
    assert(out@ =~= old(out)@ + quoted(s@));
}

/// Appends the compact JSON text of `j`.
pub fn push_json(out: &mut Vec<char>, j: &Json)
    ensures
        final(out)@ == old(out)@ + json_text(*j),
    decreases j,
{
    match j {
        Json::Null => {
            crate::text::append_str(out, "null");
        },
        Json::Bool(b) => {
            if *b {
                crate::text::append_str(out, "true");
            } else {
                crate::text::append_str(out, "false");
            }
        },
        Json::Num(n) => {
            let t = number_string(n);
            crate::text::append_str(out, t.as_str());
        },
        Json::Str(s) => {
            push_quoted(out, s.as_str());
        },
        Json::Arr(a) => {
            out.push('[');
            let ghost start = out@;
            let n = a.len();
            let mut i: usize = 0;
            assert(a@.subrange(0, n as int) =~= a@);
            while i < n
                invariant
                    n == a@.len(),
                    i <= n,
                    *j == Json::Arr(*a),
                    out@ + items_text(a@.subrange(i as int, n as int)) == start + items_text(a@),
                decreases n - i,
            {
                let ghost sub = a@.subrange(i as int, n as int);
                assert(sub[0] == a@[i as int]);
                assert(sub.subrange(1, sub.len() as int) =~= a@.subrange(i + 1, n as int));
                let ghost before = out@;
                proof {
                    vstd::std_specs::vec::axiom_vec_index_decreases(*a, i as int);
                    assert(decreases_to!(*j => (*j)->Arr_0));
                    assert(decreases_to!((*j)->Arr_0 => (*j)->Arr_0[i as int]));
                }
                push_json(out, &a[i]);
                if i + 1 < n {
                    out.push(',');
                    assert(out@ + items_text(a@.subrange(i + 1, n as int)) =~= before + items_text(sub));
                } else {
                    assert(a@.subrange(i + 1, n as int) =~= Seq::<Json>::empty());
                    assert(out@ + items_text(a@.subrange(i + 1, n as int)) =~= before + items_text(sub));
                }
                i = i + 1;
            }
            assert(a@.subrange(n as int, n as int) =~= Seq::<Json>::empty());
            assert(a@.subrange(0, n as int) =~= a@);
            out.push(']');
            assert(out@ =~= old(out)@ + json_text(*j));
        },
        Json::Obj(es) => {
            out.push('{');
            let ghost start = out@;
            let n = es.len();
            let mut i: usize = 0;
            assert(es@.subrange(0, n as int) =~= es@);
            while i < n
                invariant
                    n == es@.len(),
                    i <= n,
                    *j == Json::Obj(*es),
                    out@ + members_text(es@.subrange(i as int, n as int)) == start + members_text(es@),
                decreases n - i,
            {
                let ghost sub = es@.subrange(i as int, n as int);
                assert(sub[0] == es@[i as int]);
                assert(sub.subrange(1, sub.len() as int) =~= es@.subrange(i + 1, n as int));
                let ghost before = out@;
                let e = &es[i];
                push_quoted(out, e.0.as_str());
                out.push(':');
                proof {
                    vstd::std_specs::vec::axiom_vec_index_decreases(*es, i as int);
                    assert(decreases_to!(*j => (*j)->Obj_0));
                    assert(decreases_to!((*j)->Obj_0 => (*j)->Obj_0[i as int]));
                    assert(decreases_to!((*j)->Obj_0[i as int] => (*j)->Obj_0[i as int].1));
                }
                push_json(out, &e.1);
                if i + 1 < n {
                    out.push(',');
                    assert(out@ + members_text(es@.subrange(i + 1, n as int)) =~= before + members_text(sub));
                } else {
                    assert(es@.subrange(i + 1, n as int) =~= Seq::<(String, Json)>::empty());
                    assert(out@ + members_text(es@.subrange(i + 1, n as int)) =~= before + members_text(sub));
                }
                i = i + 1;
            }
            assert(es@.subrange(n as int, n as int) =~= Seq::<(String, Json)>::empty());
            assert(es@.subrange(0, n as int) =~= es@);
            out.push('}');
            assert(out@ =~= old(out)@ + json_text(*j));
        },
    }
}

/// The compact JSON text of a value.
pub fn to_json_string(j: &Json) -> (r: String)
    ensures
        r@ == json_text(*j),
{
    let mut v: Vec<char> = Vec::new();
    push_json(&mut v, j);
    assert(v@ =~= json_text(*j));
    crate::text::string_from_chars(&v)
}

} // verus!
