//! A JSON document model and a verified parser for one line of JSON text.
//!
//! `Json` is the executable tree; `SpecJson` is its mathematical view. The
//! parser is specified by the `sp_*` functions, which define the accepted
//! grammar and the produced tree, and every executable parsing function is
//! proved to return exactly what its specification function says.
//!
//! Strings are unescaped in full (simple escapes and `\uXXXX`, including
//! surrogate pairs); numbers keep their literal text, with a separate exact
//! reading as `u64` for integer fields.

use vstd::prelude::*;
use vstd::string::StrSliceExecFns;

verus! {

/// Mathematical view of a JSON value.
pub enum SpecJson {
    Null,
    Bool(bool),
    /// The literal text of a number, e.g. `-1.5e3`.
    Num(Seq<char>),
    /// The unescaped contents of a string.
    Str(Seq<char>),
    Arr(Seq<SpecJson>),
    Obj(Seq<(Seq<char>, SpecJson)>),
}

/// A JSON value, as decoded from one line of text.
#[derive(Debug, PartialEq)]
pub enum Json {
    Null,
    Bool(bool),
    /// The literal text of a number, e.g. `-1.5e3`.
    Num(String),
    /// The unescaped contents of a string.
    Str(String),
    Arr(Vec<Json>),
    Obj(Vec<(String, Json)>),
}

/// Views of the elements of an array.
pub open spec fn arr_view(items: Seq<Json>) -> Seq<SpecJson>
    decreases items,
{
    if items.len() == 0 {
        Seq::empty()
    } else {
        seq![items[0]@] + arr_view(items.subrange(1, items.len() as int))
    }
}

/// Views of the fields of an object.
pub open spec fn obj_view(fields: Seq<(String, Json)>) -> Seq<(Seq<char>, SpecJson)>
    decreases fields,
{
    if fields.len() == 0 {
        Seq::empty()
    } else {
        seq![(fields[0].0@, fields[0].1@)] + obj_view(fields.subrange(1, fields.len() as int))
    }
}

impl View for Json {
    type V = SpecJson;

    open spec fn view(&self) -> SpecJson
        decreases self,
    {
        match self {
            Json::Null => SpecJson::Null,
            Json::Bool(b) => SpecJson::Bool(*b),
            Json::Num(t) => SpecJson::Num(t@),
            Json::Str(t) => SpecJson::Str(t@),
            Json::Arr(items) => SpecJson::Arr(arr_view(items@)),
            Json::Obj(fields) => SpecJson::Obj(obj_view(fields@)),
        }
    }
}

pub proof fn lemma_arr_view(items: Seq<Json>)
    ensures
        arr_view(items).len() == items.len(),
        forall|k: int| 0 <= k < items.len() ==> arr_view(items)[k] == items[k]@,
    decreases items.len(),
{
    if items.len() > 0 {
        let rest = items.subrange(1, items.len() as int);
        lemma_arr_view(rest);
        assert(arr_view(items) == seq![items[0]@] + arr_view(rest));
        assert forall|k: int| 0 <= k < items.len() implies arr_view(items)[k] == items[k]@ by {
            if k > 0 {
                assert(arr_view(items)[k] == arr_view(rest)[k - 1]);
                assert(rest[k - 1] == items[k]);
            }
        }
    }
}

pub proof fn lemma_obj_view(fields: Seq<(String, Json)>)
    ensures
        obj_view(fields).len() == fields.len(),
        forall|k: int|
            0 <= k < fields.len() ==> obj_view(fields)[k] == (fields[k].0@, fields[k].1@),
    decreases fields.len(),
{
    if fields.len() > 0 {
        let rest = fields.subrange(1, fields.len() as int);
        lemma_obj_view(rest);
        assert(obj_view(fields) == seq![(fields[0].0@, fields[0].1@)] + obj_view(rest));
        assert forall|k: int|
            0 <= k < fields.len() implies obj_view(fields)[k] == (fields[k].0@, fields[k].1@) by {
            if k > 0 {
                assert(obj_view(fields)[k] == obj_view(rest)[k - 1]);
                assert(rest[k - 1] == fields[k]);
            }
        }
    }
}

pub proof fn lemma_arr_view_push(items: Seq<Json>, x: Json)
    ensures
        arr_view(items.push(x)) =~= arr_view(items).push(x@),
{
    lemma_arr_view(items);
    lemma_arr_view(items.push(x));
}

pub proof fn lemma_obj_view_push(fields: Seq<(String, Json)>, x: (String, Json))
    ensures
        obj_view(fields.push(x)) =~= obj_view(fields).push((x.0@, x.1@)),
{
    lemma_obj_view(fields);
    lemma_obj_view(fields.push(x));
}

// ---------------------------------------------------------------------------
// Character classes
// ---------------------------------------------------------------------------

/// JSON whitespace.
pub open spec fn is_ws(c: char) -> bool {
    c == ' ' || c == '\t' || c == '\n' || c == '\r'
}

/// A decimal digit.
pub open spec fn is_digit(c: char) -> bool {
    '0' <= c && c <= '9'
}

/// Value of a hexadecimal digit, if `c` is one.
pub open spec fn sp_hex_val(c: char) -> Option<int> {
    if '0' <= c && c <= '9' {
        Some(c as int - '0' as int)
    } else if 'a' <= c && c <= 'f' {
        Some(c as int - 'a' as int + 10)
    } else if 'A' <= c && c <= 'F' {
        Some(c as int - 'A' as int + 10)
    } else {
        None
    }
}

/// The character written by a simple escape `\c`, if `c` is one.
pub open spec fn sp_simple_escape(c: char) -> Option<char> {
    if c == '"' {
        Some('"')
    } else if c == '\\' {
        Some('\\')
    } else if c == '/' {
        Some('/')
    } else if c == 'b' {
        Some('\u{0008}')
    } else if c == 'f' {
        Some('\u{000C}')
    } else if c == 'n' {
        Some('\n')
    } else if c == 'r' {
        Some('\r')
    } else if c == 't' {
        Some('\t')
    } else {
        None
    }
}

/// First position at or after `i` holding no whitespace.
pub open spec fn sp_ws(s: Seq<char>, i: int) -> int
    decreases s.len() - i,
{
    if 0 <= i && i < s.len() && is_ws(s[i]) {
        sp_ws(s, i + 1)
    } else {
        i
    }
}

/// Value of the four hexadecimal digits at `i`.
pub open spec fn sp_hex4(s: Seq<char>, i: int) -> Option<int> {
    if 0 <= i && i + 4 <= s.len() {
        match (sp_hex_val(s[i]), sp_hex_val(s[i + 1]), sp_hex_val(s[i + 2]), sp_hex_val(
            s[i + 3],
        )) {
            (Some(a), Some(b), Some(c), Some(d)) => Some(a * 4096 + b * 256 + c * 16 + d),
            _ => None,
        }
    } else {
        None
    }
}

/// Parse the body of a string literal from `i` (just after the opening
/// quote): the unescaped contents so far are `acc`. Returns the full
/// contents and the position after the closing quote.
pub open spec fn sp_str_body(s: Seq<char>, i: int, acc: Seq<char>) -> Option<(Seq<char>, int)>
    decreases s.len() - i,
{
    if i < 0 || i >= s.len() {
        None
    } else if s[i] == '"' {
        Some((acc, i + 1))
    } else if s[i] == '\\' {
        if i + 1 >= s.len() {
            None
        } else if s[i + 1] == 'u' {
            match sp_hex4(s, i + 2) {
                None => None,
                Some(hi) => if 0xD800 <= hi && hi <= 0xDBFF {
                    if i + 8 <= s.len() && s[i + 6] == '\\' && s[i + 7] == 'u' {
                        match sp_hex4(s, i + 8) {
                            None => None,
                            Some(lo) => if 0xDC00 <= lo && lo <= 0xDFFF {
                                sp_str_body(
                                    s,
                                    i + 12,
                                    acc.push(
                                        ((0x10000 + (hi - 0xD800) * 0x400 + (lo
                                            - 0xDC00)) as char),
                                    ),
                                )
                            } else {
                                None
                            },
                        }
                    } else {
                        None
                    }
                } else if 0xDC00 <= hi && hi <= 0xDFFF {
                    None
                } else {
                    sp_str_body(s, i + 6, acc.push((hi as char)))
                },
            }
        } else {
            match sp_simple_escape(s[i + 1]) {
                Some(c) => sp_str_body(s, i + 2, acc.push(c)),
                None => None,
            }
        }
    } else if (s[i] as int) < 0x20 {
        None
    } else {
        sp_str_body(s, i + 1, acc.push(s[i]))
    }
}

/// First position at or after `i` holding no decimal digit.
pub open spec fn sp_digits_end(s: Seq<char>, i: int) -> int
    decreases s.len() - i,
{
    if 0 <= i && i < s.len() && is_digit(s[i]) {
        sp_digits_end(s, i + 1)
    } else {
        i
    }
}

/// End of an optional fraction part starting at `i`.
pub open spec fn sp_frac_end(s: Seq<char>, i: int) -> Option<int> {
    if 0 <= i && i < s.len() && s[i] == '.' {
        let q = sp_digits_end(s, i + 1);
        if q == i + 1 {
            None
        } else {
            Some(q)
        }
    } else {
        Some(i)
    }
}

/// End of an optional exponent part starting at `i`.
pub open spec fn sp_exp_end(s: Seq<char>, i: int) -> Option<int> {
    if 0 <= i && i < s.len() && (s[i] == 'e' || s[i] == 'E') {
        let r0 = if i + 1 < s.len() && (s[i + 1] == '+' || s[i + 1] == '-') {
            i + 2
        } else {
            i + 1
        };
        let r1 = sp_digits_end(s, r0);
        if r1 == r0 {
            None
        } else {
            Some(r1)
        }
    } else {
        Some(i)
    }
}

/// End of the number literal starting at `i`.
pub open spec fn sp_num_end(s: Seq<char>, i: int) -> Option<int> {
    if i < 0 {
        None
    } else {
        let p0 = if i < s.len() && s[i] == '-' {
            i + 1
        } else {
            i
        };
        let p1 = sp_digits_end(s, p0);
        if p1 == p0 {
            None
        } else {
            match sp_frac_end(s, p1) {
                None => None,
                Some(p2) => sp_exp_end(s, p2),
            }
        }
    }
}

// ---------------------------------------------------------------------------
// The grammar: values, arrays, objects
// ---------------------------------------------------------------------------

/// Parse the value starting exactly at `i`. Returns the value and the
/// position just after it.
pub open spec fn sp_value(s: Seq<char>, i: int) -> Option<(SpecJson, int)>
    decreases s.len() - i, 0int,
{
    if i < 0 || i >= s.len() {
        None
    } else if s[i] == '"' {
        match sp_str_body(s, i + 1, Seq::empty()) {
            None => None,
            Some((cs, p)) => Some((SpecJson::Str(cs), p)),
        }
    } else if s[i] == '{' {
        let j = sp_ws(s, i + 1);
        if j <= i || j > s.len() {
            None
        } else if j < s.len() && s[j] == '}' {
            Some((SpecJson::Obj(Seq::empty()), j + 1))
        } else {
            sp_members(s, j, Seq::empty())
        }
    } else if s[i] == '[' {
        let j = sp_ws(s, i + 1);
        if j <= i || j > s.len() {
            None
        } else if j < s.len() && s[j] == ']' {
            Some((SpecJson::Arr(Seq::empty()), j + 1))
        } else {
            sp_elems(s, j, Seq::empty())
        }
    } else if s[i] == 't' {
        if i + 4 <= s.len() && s[i + 1] == 'r' && s[i + 2] == 'u' && s[i + 3] == 'e' {
            Some((SpecJson::Bool(true), i + 4))
        } else {
            None
        }
    } else if s[i] == 'f' {
        if i + 5 <= s.len() && s[i + 1] == 'a' && s[i + 2] == 'l' && s[i + 3] == 's' && s[i + 4]
            == 'e' {
            Some((SpecJson::Bool(false), i + 5))
        } else {
            None
        }
    } else if s[i] == 'n' {
        if i + 4 <= s.len() && s[i + 1] == 'u' && s[i + 2] == 'l' && s[i + 3] == 'l' {
            Some((SpecJson::Null, i + 4))
        } else {
            None
        }
    } else if s[i] == '-' || is_digit(s[i]) {
        match sp_num_end(s, i) {
            None => None,
            Some(e) => if i < e && e <= s.len() {
                Some((SpecJson::Num(s.subrange(i, e)), e))
            } else {
                None
            },
        }
    } else {
        None
    }
}

/// Parse the elements of an array from the first element at `i` (whitespace
/// already skipped), with the elements parsed so far in `acc`.
pub open spec fn sp_elems(s: Seq<char>, i: int, acc: Seq<SpecJson>) -> Option<(SpecJson, int)>
    decreases s.len() - i, 1int,
{
    match sp_value(s, i) {
        None => None,
        Some((v, p)) => {
            let q = sp_ws(s, p);
            if q < s.len() && s[q] == ']' {
                Some((SpecJson::Arr(acc.push(v)), q + 1))
            } else if q < s.len() && s[q] == ',' {
                let r = sp_ws(s, q + 1);
                if r <= i || r > s.len() {
                    None
                } else {
                    sp_elems(s, r, acc.push(v))
                }
            } else {
                None
            }
        },
    }
}

/// Parse the members of an object from the first key at `i` (whitespace
/// already skipped), with the members parsed so far in `acc`.
pub open spec fn sp_members(s: Seq<char>, i: int, acc: Seq<(Seq<char>, SpecJson)>) -> Option<
    (SpecJson, int),
>
    decreases s.len() - i, 1int,
{
    if i < 0 || i >= s.len() || s[i] != '"' {
        None
    } else {
        match sp_str_body(s, i + 1, Seq::empty()) {
            None => None,
            Some((key, j)) => {
                let k = sp_ws(s, j);
                if k < s.len() && s[k] == ':' {
                    let m = sp_ws(s, k + 1);
                    if m <= i || m > s.len() {
                        None
                    } else {
                        match sp_value(s, m) {
                            None => None,
                            Some((v, p)) => {
                                let q = sp_ws(s, p);
                                if q < s.len() && s[q] == '}' {
                                    Some((SpecJson::Obj(acc.push((key, v))), q + 1))
                                } else if q < s.len() && s[q] == ',' {
                                    let r = sp_ws(s, q + 1);
                                    if r <= i || r > s.len() {
                                        None
                                    } else {
                                        sp_members(s, r, acc.push((key, v)))
                                    }
                                } else {
                                    None
                                }
                            },
                        }
                    }
                } else {
                    None
                }
            },
        }
    }
}

/// Parse a complete text: one value, surrounded only by whitespace.
pub open spec fn sp_parse_text(s: Seq<char>) -> Option<SpecJson> {
    match sp_value(s, sp_ws(s, 0)) {
        None => None,
        Some((v, p)) => if sp_ws(s, p) == s.len() {
            Some(v)
        } else {
            None
        },
    }
}

// ---------------------------------------------------------------------------
// Executable parser
// ---------------------------------------------------------------------------

fn is_ws_exec(c: char) -> (r: bool)
    ensures
        r == is_ws(c),
{
    c == ' ' || c == '\t' || c == '\n' || c == '\r'
}

fn is_digit_exec(c: char) -> (r: bool)
    ensures
        r == is_digit(c),
{
    '0' <= c && c <= '9'
}

/// First position at or after `i` holding no whitespace.
fn skip_ws(s: &Vec<char>, i: usize) -> (r: usize)
    ensures
        r as int == sp_ws(s@, i as int),
        i <= r,
        i <= s@.len() ==> r <= s@.len(),
{
    let n = s.len();
    let mut cur = i;
    while cur < n && is_ws_exec(s[cur])
        invariant
            n == s@.len(),
            i <= cur,
            i <= n ==> cur <= n,
            sp_ws(s@, i as int) == sp_ws(s@, cur as int),
        decreases n - cur,
    {
        cur += 1;
    }
    cur
}

/// Value of the hexadecimal digit `c`, if it is one.
fn hex_val(c: char) -> (r: Option<u32>)
    ensures
        match r {
            Some(v) => sp_hex_val(c) == Some(v as int) && v < 16,
            None => sp_hex_val(c) is None,
        },
{
    if '0' <= c && c <= '9' {
        Some(c as u32 - '0' as u32)
    } else if 'a' <= c && c <= 'f' {
        Some(c as u32 - 'a' as u32 + 10)
    } else if 'A' <= c && c <= 'F' {
        Some(c as u32 - 'A' as u32 + 10)
    } else {
        None
    }
}

/// Value of the four hexadecimal digits at `i`.
fn hex4(s: &Vec<char>, i: usize) -> (r: Option<u32>)
    ensures
        match r {
            Some(v) => sp_hex4(s@, i as int) == Some(v as int) && v <= 0xFFFF && i + 4 <= s@.len(),
            None => sp_hex4(s@, i as int) is None,
        },
{
    let n = s.len();
    if i > n || n - i < 4 {
        return None;
    }
    match (hex_val(s[i]), hex_val(s[i + 1]), hex_val(s[i + 2]), hex_val(s[i + 3])) {
        (Some(a), Some(b), Some(c), Some(d)) => Some(a * 4096 + b * 256 + c * 16 + d),
        _ => None,
    }
}

/// Relies on `char::from_u32`: `Some` exactly for Unicode scalar values.
#[verifier::external_body]
fn char_from_u32(v: u32) -> (r: Option<char>)
    ensures
        r == (if v < 0xD800 || (0xE000 <= v && v <= 0x10FFFF) {
            Some(v as char)
        } else {
            None::<char>
        }),
{
    char::from_u32(v)
}

/// Parse the body of a string literal from `start` (just after the opening
/// quote): the unescaped contents and the position after the closing quote.
fn p_str_body(s: &Vec<char>, start: usize) -> (r: Option<(Vec<char>, usize)>)
    ensures
        match r {
            Some(cs_p) => sp_str_body(s@, start as int, Seq::empty()) == Some(
                (cs_p.0@, cs_p.1 as int),
            ) && start < cs_p.1 <= s@.len(),
            None => sp_str_body(s@, start as int, Seq::empty()) is None,
        },
{
    let n = s.len();
    if start >= n {
        return None;
    }
    let mut acc: Vec<char> = Vec::new();
    let mut cur = start;
    loop
        invariant
            n == s@.len(),
            start <= cur <= n,
            sp_str_body(s@, start as int, Seq::empty()) == sp_str_body(s@, cur as int, acc@),
        decreases n - cur,
    {
        if cur >= n {
            return None;
        }
        let c = s[cur];
        if c == '"' {
            return Some((acc, cur + 1));
        } else if c == '\\' {
            if n - cur < 2 {
                return None;
            }
            let e = s[cur + 1];
            if e == 'u' {
                match hex4(s, cur + 2) {
                    None => {
                        return None;
                    },
                    Some(hi) => {
                        if 0xD800 <= hi && hi <= 0xDBFF {
                            if n - cur >= 8 && s[cur + 6] == '\\' && s[cur + 7] == 'u' {
                                match hex4(s, cur + 8) {
                                    None => {
                                        return None;
                                    },
                                    Some(lo) => {
                                        if 0xDC00 <= lo && lo <= 0xDFFF {
                                            let code: u32 = 0x10000 + (hi - 0xD800) * 0x400 + (lo
                                                - 0xDC00);
                                            let ch = match char_from_u32(code) {
                                                Some(ch) => ch,
                                                None => {
                                                    assert(false);
                                                    ' '
                                                },
                                            };
                                            acc.push(ch);
                                            cur = cur + 12;
                                        } else {
                                            return None;
                                        }
                                    },
                                }
                            } else {
                                return None;
                            }
                        } else if 0xDC00 <= hi && hi <= 0xDFFF {
                            return None;
                        } else {
                            let ch = match char_from_u32(hi) {
                                Some(ch) => ch,
                                None => {
                                    assert(false);
                                    ' '
                                },
                            };
                            acc.push(ch);
                            cur = cur + 6;
                        }
                    },
                }
            } else {
                let sc = if e == '"' {
                    Some('"')
                } else if e == '\\' {
                    Some('\\')
                } else if e == '/' {
                    Some('/')
                } else if e == 'b' {
                    Some('\u{0008}')
                } else if e == 'f' {
                    Some('\u{000C}')
                } else if e == 'n' {
                    Some('\n')
                } else if e == 'r' {
                    Some('\r')
                } else if e == 't' {
                    Some('\t')
                } else {
                    None
                };
                assert(sc == sp_simple_escape(e));
                match sc {
                    Some(ch) => {
                        acc.push(ch);
                        cur = cur + 2;
                    },
                    None => {
                        return None;
                    },
                }
            }
        } else {
            let ctl_limit: char = ' ';
            if c < ctl_limit {
                assert((c as int) < 0x20);
                return None;
            } else {
                assert(!((s@[cur as int] as int) < 0x20));
                acc.push(c);
                cur = cur + 1;
            }
        }
    }
}

/// First position at or after `i` holding no decimal digit.
fn p_digits_end(s: &Vec<char>, i: usize) -> (r: usize)
    ensures
        r as int == sp_digits_end(s@, i as int),
        i <= r,
        i <= s@.len() ==> r <= s@.len(),
{
    let n = s.len();
    let mut cur = i;
    while cur < n && is_digit_exec(s[cur])
        invariant
            n == s@.len(),
            i <= cur,
            i <= n ==> cur <= n,
            sp_digits_end(s@, i as int) == sp_digits_end(s@, cur as int),
        decreases n - cur,
    {
        cur += 1;
    }
    cur
}

/// End of the number literal starting at `i`.
fn p_num_end(s: &Vec<char>, i: usize) -> (r: Option<usize>)
    ensures
        match r {
            Some(e) => sp_num_end(s@, i as int) == Some(e as int) && i < e <= s@.len(),
            None => sp_num_end(s@, i as int) is None,
        },
{
    let n = s.len();
    if i > n {
        return None;
    }
    let p0 = if i < n && s[i] == '-' {
        i + 1
    } else {
        i
    };
    let p1 = p_digits_end(s, p0);
    if p1 == p0 {
        return None;
    }
    let p2 = if p1 < n && s[p1] == '.' {
        let q = p_digits_end(s, p1 + 1);
        if q == p1 + 1 {
            return None;
        }
        q
    } else {
        p1
    };
    assert(sp_frac_end(s@, p1 as int) == Some(p2 as int));
    if p2 < n && (s[p2] == 'e' || s[p2] == 'E') {
        let r0 = if p2 + 1 < n && (s[p2 + 1] == '+' || s[p2 + 1] == '-') {
            p2 + 2
        } else {
            p2 + 1
        };
        let r1 = p_digits_end(s, r0);
        if r1 == r0 {
            return None;
        }
        Some(r1)
    } else {
        Some(p2)
    }
}

/// Parse the value starting exactly at `i`.
fn p_value(s: &Vec<char>, i: usize) -> (r: Option<(Json, usize)>)
    ensures
        match r {
            Some(jp) => sp_value(s@, i as int) == Some((jp.0@, jp.1 as int)) && i < jp.1
                <= s@.len(),
            None => sp_value(s@, i as int) is None,
        },
    decreases s@.len() - i, 0int,
{
    let n = s.len();
    if i >= n {
        return None;
    }
    assert(i < s@.len());
    let c = s[i];
    if c == '"' {
        match p_str_body(s, i + 1) {
            None => None,
            Some((cs, p)) => {
                let text = crate::text::chars_to_string(&cs);
                Some((Json::Str(text), p))
            },
        }
    } else if c == '{' {
        let j = skip_ws(s, i + 1);
        if j < n && s[j] == '}' {
            let empty: Vec<(String, Json)> = Vec::new();
            assert(obj_view(empty@) =~= Seq::<(Seq<char>, SpecJson)>::empty());
            Some((Json::Obj(empty), j + 1))
        } else {
            p_obj_body(s, j)
        }
    } else if c == '[' {
        let j = skip_ws(s, i + 1);
        if j < n && s[j] == ']' {
            let empty: Vec<Json> = Vec::new();
            assert(arr_view(empty@) =~= Seq::<SpecJson>::empty());
            Some((Json::Arr(empty), j + 1))
        } else {
            p_arr_body(s, j)
        }
    } else if c == 't' {
        if n - i >= 4 && s[i + 1] == 'r' && s[i + 2] == 'u' && s[i + 3] == 'e' {
            Some((Json::Bool(true), i + 4))
        } else {
            None
        }
    } else if c == 'f' {
        if n - i >= 5 && s[i + 1] == 'a' && s[i + 2] == 'l' && s[i + 3] == 's' && s[i + 4] == 'e' {
            Some((Json::Bool(false), i + 5))
        } else {
            None
        }
    } else if c == 'n' {
        if n - i >= 4 && s[i + 1] == 'u' && s[i + 2] == 'l' && s[i + 3] == 'l' {
            Some((Json::Null, i + 4))
        } else {
            None
        }
    } else if c == '-' || is_digit_exec(c) {
        match p_num_end(s, i) {
            None => None,
            Some(e) => {
                let lit = crate::text::copy_range(s, i, e);
                let text = crate::text::chars_to_string(&lit);
                Some((Json::Num(text), e))
            },
        }
    } else {
        None
    }
}

/// Parse the elements of an array from the first element at `i`.
fn p_arr_body(s: &Vec<char>, i: usize) -> (r: Option<(Json, usize)>)
    ensures
        match r {
            Some(jp) => sp_elems(s@, i as int, Seq::empty()) == Some((jp.0@, jp.1 as int)) && i
                < jp.1 <= s@.len(),
            None => sp_elems(s@, i as int, Seq::empty()) is None,
        },
    decreases s@.len() - i, 1int,
{
    let n = s.len();
    if i > n {
        assert(sp_value(s@, i as int) is None);
        assert(sp_elems(s@, i as int, Seq::empty()) is None);
        return None;
    }
    let mut acc: Vec<Json> = Vec::new();
    let mut cur = i;
    assert(arr_view(acc@) =~= Seq::<SpecJson>::empty());
    loop
        invariant
            n == s@.len(),
            i <= cur <= n,
            sp_elems(s@, i as int, Seq::empty()) == sp_elems(s@, cur as int, arr_view(acc@)),
        decreases n - cur,
    {
        match p_value(s, cur) {
            None => {
                return None;
            },
            Some((v, p)) => {
                let q = skip_ws(s, p);
                proof {
                    lemma_arr_view_push(acc@, v);
                }
                if q < n && s[q] == ']' {
                    acc.push(v);
                    return Some((Json::Arr(acc), q + 1));
                } else if q < n && s[q] == ',' {
                    let rnext = skip_ws(s, q + 1);
                    acc.push(v);
                    cur = rnext;
                } else {
                    return None;
                }
            },
        }
    }
}

/// Parse the members of an object from the first key at `i`.
fn p_obj_body(s: &Vec<char>, i: usize) -> (r: Option<(Json, usize)>)
    ensures
        match r {
            Some(jp) => sp_members(s@, i as int, Seq::empty()) == Some((jp.0@, jp.1 as int)) && i
                < jp.1 <= s@.len(),
            None => sp_members(s@, i as int, Seq::empty()) is None,
        },
    decreases s@.len() - i, 1int,
{
    let n = s.len();
    if i > n {
        assert(sp_members(s@, i as int, Seq::empty()) is None);
        return None;
    }
    let mut acc: Vec<(String, Json)> = Vec::new();
    let mut cur = i;
    assert(obj_view(acc@) =~= Seq::<(Seq<char>, SpecJson)>::empty());
    loop
        invariant
            n == s@.len(),
            i <= cur <= n,
            sp_members(s@, i as int, Seq::empty()) == sp_members(s@, cur as int, obj_view(acc@)),
        decreases n - cur,
    {
        if cur >= n {
            return None;
        }
        if s[cur] != '"' {
            return None;
        }
        match p_str_body(s, cur + 1) {
            None => {
                return None;
            },
            Some((key_chars, j)) => {
                let k = skip_ws(s, j);
                if !(k < n && s[k] == ':') {
                    return None;
                }
                let m = skip_ws(s, k + 1);
                match p_value(s, m) {
                    None => {
                        return None;
                    },
                    Some((v, p)) => {
                        let q = skip_ws(s, p);
                        let key = crate::text::chars_to_string(&key_chars);
                        proof {
                            lemma_obj_view_push(acc@, (key, v));
                        }
                        if q < n && s[q] == '}' {
                            acc.push((key, v));
                            return Some((Json::Obj(acc), q + 1));
                        } else if q < n && s[q] == ',' {
                            let rnext = skip_ws(s, q + 1);
                            acc.push((key, v));
                            cur = rnext;
                        } else {
                            return None;
                        }
                    },
                }
            },
        }
    }
}

/// Parse one line of text as a single JSON value.
pub fn parse_json(line: &str) -> (r: Option<Json>)
    ensures
        match r {
            Some(j) => sp_parse_text(line@) == Some(j@),
            None => sp_parse_text(line@) is None,
        },
{
    let chars = crate::text::str_to_chars(line);
    let start = skip_ws(&chars, 0);
    match p_value(&chars, start) {
        None => None,
        Some((v, p)) => {
            let after = skip_ws(&chars, p);
            if after == chars.len() {
                Some(v)
            } else {
                None
            }
        },
    }
}

// ---------------------------------------------------------------------------
// Reading a parsed value
// ---------------------------------------------------------------------------

/// Value of the first field named `key`, if any.
pub open spec fn sp_lookup(fields: Seq<(Seq<char>, SpecJson)>, key: Seq<char>) -> Option<SpecJson>
    decreases fields.len(),
{
    if fields.len() == 0 {
        None
    } else if fields[0].0 == key {
        Some(fields[0].1)
    } else {
        sp_lookup(fields.drop_first(), key)
    }
}

/// Value of the field named `key` of an object, if any.
pub open spec fn sp_get(v: SpecJson, key: Seq<char>) -> Option<SpecJson> {
    match v {
        SpecJson::Obj(fields) => sp_lookup(fields, key),
        _ => None,
    }
}

impl Json {
    /// Value of the field named `key`, when this is an object that has one.
    pub fn get_field<'a>(&'a self, key: &str) -> (r: Option<&'a Json>)
        ensures
            match r {
                Some(f) => sp_get(self@, key@) == Some(f@),
                None => sp_get(self@, key@) is None,
            },
    {
        match self {
            Json::Obj(fields) => {
                let n = fields.len();
                proof {
                    lemma_obj_view(fields@);
                }
                let mut idx: usize = 0;
                assert(obj_view(fields@).skip(0) =~= obj_view(fields@));
                while idx < n
                    invariant
                        n == fields@.len(),
                        self@ == SpecJson::Obj(obj_view(fields@)),
                        obj_view(fields@).len() == n,
                        forall|k: int|
                            0 <= k < n ==> obj_view(fields@)[k] == (
                                fields@[k].0@,
                                fields@[k].1@,
                            ),
                        idx <= n,
                        sp_lookup(obj_view(fields@), key@) == sp_lookup(
                            obj_view(fields@).skip(idx as int),
                            key@,
                        ),
                    decreases n - idx,
                {
                    assert(obj_view(fields@).skip(idx as int)[0] == (
                        fields@[idx as int].0@,
                        fields@[idx as int].1@,
                    ));
                    if crate::text::str_eq(fields[idx].0.as_str(), key) {
                        proof {
                            let sq = obj_view(fields@).skip(idx as int);
                            assert(sq.len() > 0);
                            assert(sq[0].0 == key@);
                            assert(sp_lookup(sq, key@) == Some(sq[0].1));
                            assert(self@ == SpecJson::Obj(obj_view(fields@)));
                        }
                        return Some(&fields[idx].1);
                    }
                    assert(obj_view(fields@).skip(idx as int).drop_first() =~= obj_view(
                        fields@,
                    ).skip(idx as int + 1));
                    idx += 1;
                }
                assert(obj_view(fields@).skip(n as int) =~= Seq::<(Seq<char>, SpecJson)>::empty());
                None
            },
            _ => None,
        }
    }
}

// ---------------------------------------------------------------------------
// Reading a number literal as an unsigned integer
// ---------------------------------------------------------------------------

/// Whether every character of `s` is a decimal digit.
pub open spec fn all_digits(s: Seq<char>) -> bool {
    forall|k: int| 0 <= k < s.len() ==> is_digit(s[k])
}

/// Value of a run of decimal digits.
pub open spec fn sp_digits_val(s: Seq<char>) -> int
    decreases s.len(),
{
    if s.len() == 0 {
        0
    } else {
        sp_digits_val(s.drop_last()) * 10 + (s.last() as int - '0' as int)
    }
}

/// Reading of a number literal as a `u64`: defined exactly when the literal
/// is a plain run of digits whose value fits.
pub open spec fn sp_num_u64(s: Seq<char>) -> Option<u64> {
    if s.len() > 0 && all_digits(s) && sp_digits_val(s) <= u64::MAX {
        Some(sp_digits_val(s) as u64)
    } else {
        None
    }
}

proof fn lemma_digits_val_nonneg(s: Seq<char>)
    requires
        all_digits(s),
    ensures
        sp_digits_val(s) >= 0,
    decreases s.len(),
{
    if s.len() > 0 {
        assert(all_digits(s.drop_last())) by {
            assert(forall|k: int| 0 <= k < s.len() - 1 ==> s.drop_last()[k] == s[k]);
        }
        lemma_digits_val_nonneg(s.drop_last());
    }
}

proof fn lemma_digits_val_prefix_le(s: Seq<char>, m: int)
    requires
        all_digits(s),
        0 <= m <= s.len(),
    ensures
        sp_digits_val(s.take(m)) <= sp_digits_val(s),
    decreases s.len() - m,
{
    if m == s.len() {
        assert(s.take(m) =~= s);
    } else {
        lemma_digits_val_prefix_le(s, m + 1);
        assert(s.take(m + 1).drop_last() =~= s.take(m));
        assert(s.take(m + 1).last() == s[m]);
        assert(all_digits(s.take(m))) by {
            assert(forall|k: int| 0 <= k < m ==> s.take(m)[k] == s[k]);
        }
        lemma_digits_val_nonneg(s.take(m));
        assert(s.take(m + 1).len() == m + 1);
        assert(sp_digits_val(s.take(m + 1)) == sp_digits_val(s.take(m)) * 10 + (s[m] as int
            - '0' as int));
        assert(sp_digits_val(s.take(m)) * 10 >= sp_digits_val(s.take(m))) by (nonlinear_arith)
            requires
                sp_digits_val(s.take(m)) >= 0,
        ;
        assert(is_digit(s[m]));
    }
}

/// Read a number literal as a `u64`, if it is a plain run of digits whose
/// value fits.
pub fn num_as_u64(text: &str) -> (r: Option<u64>)
    ensures
        r == sp_num_u64(text@),
{
    let chars = crate::text::str_to_chars(text);
    let n = chars.len();
    if n == 0 {
        return None;
    }
    let mut acc: u64 = 0;
    let mut idx: usize = 0;
    while idx < n
        invariant
            n == chars@.len() == text@.len(),
            chars@ == text@,
            n > 0,
            idx <= n,
            all_digits(text@.take(idx as int)),
            acc as int == sp_digits_val(text@.take(idx as int)),
        decreases n - idx,
    {
        let c = chars[idx];
        if !is_digit_exec(c) {
            assert(!all_digits(text@));
            return None;
        }
        let d: u64 = (c as u64) - ('0' as u64);
        assert(d <= 9);
        if acc > (u64::MAX - d) / 10 {
            assert(acc as int * 10 + d > u64::MAX) by (nonlinear_arith)
                requires
                    acc as int > (u64::MAX as int - d as int) / 10,
                    0 <= d <= 9,
            ;
            proof {
                assert(text@.take(idx as int + 1).drop_last() =~= text@.take(idx as int));
                assert(sp_digits_val(text@.take(idx as int + 1)) > u64::MAX);
                if all_digits(text@) && sp_digits_val(text@) <= u64::MAX {
                    lemma_digits_val_prefix_le(text@, idx as int + 1);
                }
            }
            return None;
        }
        assert(acc as int * 10 + d <= u64::MAX) by (nonlinear_arith)
            requires
                acc as int <= (u64::MAX as int - d as int) / 10,
                0 <= d <= 9,
        ;
        let old_acc: Ghost<u64> = Ghost(acc);
        acc = acc * 10 + d;
        proof {
            assert(text@.take(idx as int + 1).drop_last() =~= text@.take(idx as int));
            assert(text@.take(idx as int + 1).last() == text@[idx as int]);
            assert(all_digits(text@.take(idx as int + 1)));
        }
        idx += 1;
    }
    assert(text@.take(n as int) =~= text@);
    Some(acc)
}

} // verus!
