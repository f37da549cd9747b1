//! The line scanner: produces session summary metadata from a file's lines
//! by targeted substring search, without decoding every line. Field
//! extraction finds a quoted key followed by a colon and an opening quote,
//! then takes the text up to the next quote; the user-message extraction
//! honours backslash escapes and applies a small unescape pass. This is a
//! deliberate heuristic: faster than full parsing, and able to mis-extract
//! when a value's own text contains another field's key pattern.

use vstd::prelude::*;
use crate::text::{sp_find, sp_replace_all, lemma_find_from_bounds};
use crate::events::opt_str_view;
use crate::time::ts_of;

verus! {

/// Views of a vector of lines.
pub open spec fn lines_view(ls: Seq<String>) -> Seq<Seq<char>> {
    ls.map_values(|s: String| s@)
}

/// Number of non-empty lines.
pub open spec fn count_nonempty(lines: Seq<Seq<char>>) -> int
    decreases lines.len(),
{
    if lines.len() == 0 {
        0
    } else {
        count_nonempty(lines.drop_last()) + (if lines.last().len() == 0 {
            0int
        } else {
            1int
        })
    }
}

/// The key pattern searched for: `"key":"`.
pub open spec fn sp_key_pattern(key: Seq<char>) -> Seq<char> {
    seq!['"'] + key + seq!['"', ':', '"']
}

/// The value extracted for `key`: the text between the opening quote after
/// the first occurrence of the key pattern and the next quote.
pub open spec fn sp_extract_json_string(line: Seq<char>, key: Seq<char>) -> Option<Seq<char>> {
    let pat = sp_key_pattern(key);
    match sp_find(line, pat) {
        None => None,
        Some(i) => {
            let start = i + pat.len();
            if 0 <= start <= line.len() {
                let rest = line.subrange(start, line.len() as int);
                match sp_find(rest, seq!['"']) {
                    None => None,
                    Some(e) => Some(rest.subrange(0, e)),
                }
            } else {
                None
            }
        },
    }
}

/// Position of the first unescaped quote at or after `i`: a backslash
/// skips the character after it.
pub open spec fn sp_scan_quote(s: Seq<char>, i: int) -> int
    decreases s.len() - i,
{
    if i < 0 || i >= s.len() {
        i
    } else if s[i] == '\\' {
        if i + 2 >= s.len() {
            i + 2
        } else {
            sp_scan_quote(s, i + 2)
        }
    } else if s[i] == '"' {
        i
    } else {
        sp_scan_quote(s, i + 1)
    }
}

/// The small unescape pass applied to an extracted user message: `\n` and
/// `\t` become spaces, `\"` and `\\` lose their backslash; other escapes
/// pass through.
pub open spec fn sp_unescape(s: Seq<char>) -> Seq<char> {
    sp_replace_all(
        sp_replace_all(sp_replace_all(sp_replace_all(s, "\\n"@, " "@), "\\t"@, " "@), "\\\""@, "\""@),
        "\\\\"@,
        "\\"@,
    )
}

/// The extracted text of a plain user message: the escape-honouring scan
/// from the first `"content":"` to the next unescaped quote, unescaped;
/// `None` when the pattern is absent, the text empty, or the quote unclosed.
pub open spec fn sp_extract_user_content(line: Seq<char>) -> Option<Seq<char>> {
    let pat = "\"content\":\""@;
    match sp_find(line, pat) {
        None => None,
        Some(i) => {
            let start = i + pat.len();
            if 0 <= start <= line.len() {
                let rest = line.subrange(start, line.len() as int);
                let e = sp_scan_quote(rest, 0);
                if e == 0 || e >= rest.len() {
                    None
                } else {
                    Some(sp_unescape(rest.subrange(0, e)))
                }
            } else {
                None
            }
        },
    }
}

/// Extract a string value for `key` from a JSON line without full parsing.
pub fn extract_json_string(line: &str, key: &str) -> (r: Option<String>)
    ensures
        opt_str_view(r) == sp_extract_json_string(line@, key@),
{
    let chars = crate::text::str_to_chars(line);
    let mut pat: Vec<char> = Vec::new();
    pat.push('"');
    let key_chars = crate::text::str_to_chars(key);
    crate::text::append_range(&mut pat, &key_chars, 0, key_chars.len());
    pat.push('"');
    pat.push(':');
    pat.push('"');
    proof {
        assert(key_chars@.subrange(0, key_chars@.len() as int) =~= key@);
        assert(pat@ =~= sp_key_pattern(key@));
    }
    let total = chars.len();
    match crate::text::find_from(&chars, &pat, 0) {
        None => None,
        Some(i) => {
            let start = i + pat.len();
            let rest = crate::text::copy_range(&chars, start, total);
            let quote: Vec<char> = vec!['"'];
            assert(quote@ =~= seq!['"']);
            match crate::text::find_from(&rest, &quote, 0) {
                None => None,
                Some(e) => {
                    proof {
                        lemma_find_from_bounds(rest@, quote@, 0);
                    }
                    let out = crate::text::copy_range(&rest, 0, e);
                    Some(crate::text::chars_to_string(&out))
                },
            }
        },
    }
}

/// Whether `pat` occurs anywhere in `s`.
fn contains_sub(s: &Vec<char>, pat: &Vec<char>) -> (r: bool)
    ensures
        r == (sp_find(s@, pat@) is Some),
{
    match crate::text::find_from(s, pat, 0) {
        Some(_) => true,
        None => false,
    }
}

/// Extract the content string from a plain user message line: the text of
/// the first `"content":"` field, scanned honouring backslash escapes,
/// with the small unescape pass applied.
pub fn extract_user_content_string(line: &str) -> (r: Option<String>)
    ensures
        opt_str_view(r) == sp_extract_user_content(line@),
{
    let chars = crate::text::str_to_chars(line);
    let pat = crate::text::str_to_chars("\"content\":\"");
    let total = chars.len();
    match crate::text::find_from(&chars, &pat, 0) {
        None => None,
        Some(i) => {
            let start = i + pat.len();
            let rest = crate::text::copy_range(&chars, start, total);
            let n = rest.len();
            let mut end: usize = 0;
            loop
                invariant
                    chars@ == line@,
                    pat@ == "\"content\":\""@,
                    sp_find(line@, pat@) == Some(i as int),
                    start == i + pat@.len(),
                    start <= line@.len(),
                    rest@ == line@.subrange(start as int, line@.len() as int),
                    n == rest@.len(),
                    end <= n,
                    sp_scan_quote(rest@, 0) == sp_scan_quote(rest@, end as int),
                ensures
                    end < n,
                    rest@[end as int] == '"',
                    sp_scan_quote(rest@, 0) == end as int,
                decreases n - end,
            {
                if end >= n {
                    // the scan ran past the closing quote
                    return None;
                }
                if rest[end] == '\\' {
                    if n - end <= 2 {
                        assert(sp_scan_quote(rest@, end as int) == end + 2);
                        return None;
                    }
                    end += 2;
                } else if rest[end] == '"' {
                    break ;
                } else {
                    end += 1;
                }
            }
            if end == 0 {
                return None;
            }
            let raw = crate::text::copy_range(&rest, 0, end);
            let bs_n = crate::text::str_to_chars("\\n");
            let bs_t = crate::text::str_to_chars("\\t");
            let bs_q = crate::text::str_to_chars("\\\"");
            let bs_b = crate::text::str_to_chars("\\\\");
            let sp = crate::text::str_to_chars(" ");
            let q = crate::text::str_to_chars("\"");
            let b = crate::text::str_to_chars("\\");
            proof {
                reveal_strlit("\\n");
                reveal_strlit("\\t");
                reveal_strlit("\\\"");
                reveal_strlit("\\\\");
            }
            let s1 = crate::text::replace_all(&raw, &bs_n, &sp);
            let s2 = crate::text::replace_all(&s1, &bs_t, &sp);
            let s3 = crate::text::replace_all(&s2, &bs_q, &q);
            let s4 = crate::text::replace_all(&s3, &bs_b, &b);
            Some(crate::text::chars_to_string(&s4))
        },
    }
}

/// Summary metadata of one session file, produced by the scanner.
#[derive(Debug, PartialEq)]
pub struct SessionMeta {
    pub slug: Option<String>,
    pub first_timestamp: Option<i64>,
    pub last_timestamp: Option<i64>,
    pub line_count: usize,
    pub first_message: Option<String>,
    pub project_path: Option<String>,
}

/// The timestamp a line contributes: its extracted `timestamp` field, when
/// that text is a well-formed timestamp.
pub open spec fn sp_line_ts(line: Seq<char>) -> Option<i64> {
    match sp_extract_json_string(line, "timestamp"@) {
        None => None,
        Some(t) => ts_of(t),
    }
}

/// The first extracted `key` value over the lines, in order.
pub open spec fn sp_first_field(lines: Seq<Seq<char>>, key: Seq<char>) -> Option<Seq<char>>
    decreases lines.len(),
{
    if lines.len() == 0 {
        None
    } else {
        match sp_extract_json_string(lines[0], key) {
            Some(s) => Some(s),
            None => sp_first_field(lines.drop_first(), key),
        }
    }
}

/// The first timestamp contributed by any line.
pub open spec fn sp_first_ts(lines: Seq<Seq<char>>) -> Option<i64>
    decreases lines.len(),
{
    if lines.len() == 0 {
        None
    } else {
        match sp_line_ts(lines[0]) {
            Some(t) => Some(t),
            None => sp_first_ts(lines.drop_first()),
        }
    }
}

/// The last timestamp contributed by any line.
pub open spec fn sp_last_ts(lines: Seq<Seq<char>>) -> Option<i64>
    decreases lines.len(),
{
    if lines.len() == 0 {
        None
    } else {
        match sp_line_ts(lines.last()) {
            Some(t) => Some(t),
            None => sp_last_ts(lines.drop_last()),
        }
    }
}

/// A line that looks like a plain user message: it holds the user type
/// marker and no tool-result marker.
pub open spec fn sp_plain_user_line(line: Seq<char>) -> bool {
    sp_find(line, "\"type\":\"user\""@) is Some && sp_find(line, "\"toolUseResult\""@) is None
}

/// The first message preview: the first extractable content string of a
/// plain user message line.
pub open spec fn sp_first_message(lines: Seq<Seq<char>>) -> Option<Seq<char>>
    decreases lines.len(),
{
    if lines.len() == 0 {
        None
    } else {
        if sp_plain_user_line(lines[0]) && sp_extract_user_content(lines[0]) is Some {
            sp_extract_user_content(lines[0])
        } else {
            sp_first_message(lines.drop_first())
        }
    }
}

/// Scan a session file's lines, producing summary metadata in one forward
/// pass: the first `slug` and `cwd` values, the first and last timestamps,
/// the number of non-empty lines, and the first plain user message.
pub fn scan_session_metadata(lines: &Vec<String>) -> (r: SessionMeta)
    ensures
        opt_str_view(r.slug) == sp_first_field(lines_view(lines@), "slug"@),
        r.first_timestamp == sp_first_ts(lines_view(lines@)),
        r.last_timestamp == sp_last_ts(lines_view(lines@)),
        r.line_count == count_nonempty(lines_view(lines@)),
        opt_str_view(r.first_message) == sp_first_message(lines_view(lines@)),
        opt_str_view(r.project_path) == sp_first_field(lines_view(lines@), "cwd"@),
{
    let ghost lv = lines_view(lines@);
    let n = lines.len();
    let mut slug: Option<String> = None;
    let mut first_timestamp: Option<i64> = None;
    let mut last_timestamp: Option<i64> = None;
    let mut line_count: usize = 0;
    let mut first_message: Option<String> = None;
    let mut project_path: Option<String> = None;
    let mut k: usize = 0;
    let user_marker = crate::text::str_to_chars("\"type\":\"user\"");
    let tool_marker = crate::text::str_to_chars("\"toolUseResult\"");
    proof {
        assert(lv.skip(0) =~= lv);
        assert(lv.take(0) =~= Seq::<Seq<char>>::empty());
    }
    while k < n
        invariant
            lv == lines_view(lines@),
            n == lines@.len(),
            lv.len() == n,
            forall|m: int| 0 <= m < n ==> lv[m] == lines@[m]@,
            k <= n,
            user_marker@ == "\"type\":\"user\""@,
            tool_marker@ == "\"toolUseResult\""@,
            match slug {
                Some(s) => sp_first_field(lv, "slug"@) == Some(s@),
                None => sp_first_field(lv, "slug"@) == sp_first_field(lv.skip(k as int), "slug"@),
            },
            match first_timestamp {
                Some(t) => sp_first_ts(lv) == Some(t),
                None => sp_first_ts(lv) == sp_first_ts(lv.skip(k as int)),
            },
            last_timestamp == sp_last_ts(lv.take(k as int)),
            line_count == count_nonempty(lv.take(k as int)),
            line_count <= k,
            match first_message {
                Some(s) => sp_first_message(lv) == Some(s@),
                None => sp_first_message(lv) == sp_first_message(lv.skip(k as int)),
            },
            match project_path {
                Some(s) => sp_first_field(lv, "cwd"@) == Some(s@),
                None => sp_first_field(lv, "cwd"@) == sp_first_field(lv.skip(k as int), "cwd"@),
            },
        decreases n - k,
    {
        proof {
            assert(lv.skip(k as int)[0] == lv[k as int]);
            assert(lv.skip(k as int).drop_first() =~= lv.skip(k as int + 1));
            assert(lv.take(k as int + 1).drop_last() =~= lv.take(k as int));
            assert(lv.take(k as int + 1).last() == lv[k as int]);
        }
        let line: &String = &lines[k];
        if line.as_str().is_empty() {
            assert(lv[k as int].len() == 0);
            proof {
                assert(sp_extract_json_string(lv[k as int], "slug"@) is None) by {
                    assert(lv[k as int] =~= Seq::<char>::empty());
                    assert(sp_key_pattern("slug"@).len() >= 4);
                }
                assert(sp_extract_json_string(lv[k as int], "timestamp"@) is None) by {
                    assert(lv[k as int] =~= Seq::<char>::empty());
                }
                assert(sp_extract_json_string(lv[k as int], "cwd"@) is None) by {
                    assert(lv[k as int] =~= Seq::<char>::empty());
                }
                assert(!sp_plain_user_line(lv[k as int]) || sp_extract_user_content(
                    lv[k as int],
                ) is None) by {
                    assert(lv[k as int] =~= Seq::<char>::empty());
                    reveal_strlit("\"type\":\"user\"");
                }
            }
            k += 1;
            continue ;
        }
        line_count += 1;
        if slug.is_none() {
            match extract_json_string(line.as_str(), "slug") {
                Some(s) => {
                    slug = Some(s);
                },
                None => {
                },
            }
        }
        match extract_json_string(line.as_str(), "timestamp") {
            Some(t) => {
                match crate::time::parse_timestamp(t.as_str()) {
                    Some(ms) => {
                        if first_timestamp.is_none() {
                            first_timestamp = Some(ms);
                        }
                        last_timestamp = Some(ms);
                    },
                    None => {
                    },
                }
            },
            None => {
            },
        }
        if project_path.is_none() {
            match extract_json_string(line.as_str(), "cwd") {
                Some(s) => {
                    project_path = Some(s);
                },
                None => {
                },
            }
        }
        if first_message.is_none() {
            let line_chars = crate::text::str_to_chars(line.as_str());
            if contains_sub(&line_chars, &user_marker) && !contains_sub(
                &line_chars,
                &tool_marker,
            ) {
                match extract_user_content_string(line.as_str()) {
                    Some(text) => {
                        first_message = Some(text);
                    },
                    None => {
                    },
                }
            }
        }
        k += 1;
    }
    proof {
        assert(lv.skip(n as int) =~= Seq::<Seq<char>>::empty());
        assert(lv.take(n as int) =~= lv);
    }
    SessionMeta { slug, first_timestamp, last_timestamp, line_count, first_message, project_path }
}

} // verus!
