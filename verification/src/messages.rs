//! Flattened message shapes for consumers: one record per displayable
//! event, with user content resolved into either plain text or tool
//! results, and carried values rendered as text where a string is wanted.

use vstd::prelude::*;
use crate::json::{Json, SpecJson, arr_view, sp_get};
use crate::events::{
    Event,
    Timestamp,
    UserEvent,
    opt_str_view,
    sp_req_str,
    sp_opt_bool,
    trb_ok,
    trb_matches,
};

verus! {

/// The kind of a decoded event.
#[derive(Debug, Clone, Copy, PartialEq, Eq, Structural)]
pub enum EventType {
    User,
    Assistant,
    Progress,
    System,
    FileHistorySnapshot,
    QueueOperation,
}

/// The content of a user turn, resolved once: plain text or tool results.
#[derive(Debug, PartialEq)]
pub enum UserContent {
    Text(UserTextContent),
    ToolResults(UserToolResults),
}

#[derive(Debug, PartialEq)]
pub struct UserTextContent {
    pub text: String,
}

#[derive(Debug, PartialEq)]
pub struct UserToolResults {
    pub results: Vec<ToolResult>,
}

/// One tool result of a user turn, its content rendered as text.
#[derive(Debug, PartialEq)]
pub struct ToolResult {
    pub tool_use_id: String,
    pub content: String,
    pub is_error: Option<bool>,
}

/// The content of an assistant turn.
#[derive(Debug, PartialEq)]
pub struct AssistantContent {
    pub model: Option<String>,
    pub stop_reason: Option<String>,
    pub usage: Option<UsageInfo>,
    pub blocks: Vec<ContentBlock>,
}

/// One assistant content block, shaped for display.
#[derive(Debug, PartialEq)]
pub enum ContentBlock {
    Text(TextBlock),
    Thinking(ThinkingBlock),
    ToolUse(ToolUseBlock),
    ToolResult(ToolResultBlock),
}

#[derive(Debug, PartialEq)]
pub struct TextBlock {
    pub text: String,
}

#[derive(Debug, PartialEq)]
pub struct ThinkingBlock {
    pub thinking: String,
}

#[derive(Debug, PartialEq)]
pub struct ToolUseBlock {
    pub id: String,
    pub name: String,
    pub input: Json,
}

#[derive(Debug, PartialEq)]
pub struct ToolResultBlock {
    pub tool_use_id: String,
    pub content: String,
    pub is_error: Option<bool>,
}

/// Token counters, widened for consumers that expect signed numbers.
#[derive(Debug, PartialEq)]
pub struct UsageInfo {
    pub input_tokens: Option<i64>,
    pub output_tokens: Option<i64>,
    pub cache_creation_input_tokens: Option<i64>,
    pub cache_read_input_tokens: Option<i64>,
}

/// The details of a system notice.
#[derive(Debug, PartialEq)]
pub struct SystemInfo {
    pub subtype: Option<String>,
    pub duration_ms: Option<i64>,
}

/// One displayable event.
#[derive(Debug, PartialEq)]
pub struct SessionMessage {
    pub uuid: String,
    pub parent_uuid: Option<String>,
    pub timestamp: Timestamp,
    pub event_type: EventType,
    pub cwd: Option<String>,
    pub git_branch: Option<String>,
    pub is_sidechain: Option<bool>,
    pub slug: Option<String>,
    pub user_content: Option<UserContent>,
    pub assistant_content: Option<AssistantContent>,
    pub system_info: Option<SystemInfo>,
}

// ---------------------------------------------------------------------------
// Rendering a carried value as text
// ---------------------------------------------------------------------------

/// The escape written for one character inside a rendered string literal.
pub open spec fn sp_escape_char(c: char) -> Seq<char> {
    if c == '"' {
        "\\\""@
    } else if c == '\\' {
        "\\\\"@
    } else if c == '\n' {
        "\\n"@
    } else if c == '\r' {
        "\\r"@
    } else if c == '\t' {
        "\\t"@
    } else if (c as int) < 0x20 {
        let hi = sp_hex_digit_char((c as int) / 16);
        let lo = sp_hex_digit_char((c as int) % 16);
        "\\u00"@ + seq![hi, lo]
    } else {
        seq![c]
    }
}

/// The lower-case hexadecimal digit for a value below sixteen.
pub open spec fn sp_hex_digit_char(v: int) -> char {
    if v == 0 {
        '0'
    } else if v == 1 {
        '1'
    } else if v == 2 {
        '2'
    } else if v == 3 {
        '3'
    } else if v == 4 {
        '4'
    } else if v == 5 {
        '5'
    } else if v == 6 {
        '6'
    } else if v == 7 {
        '7'
    } else if v == 8 {
        '8'
    } else if v == 9 {
        '9'
    } else if v == 10 {
        'a'
    } else if v == 11 {
        'b'
    } else if v == 12 {
        'c'
    } else if v == 13 {
        'd'
    } else if v == 14 {
        'e'
    } else {
        'f'
    }
}

/// The escaped body of a rendered string literal.
pub open spec fn sp_escape_str(s: Seq<char>) -> Seq<char>
    decreases s.len(),
{
    if s.len() == 0 {
        Seq::empty()
    } else {
        sp_escape_str(s.drop_last()) + sp_escape_char(s.last())
    }
}

/// The compact rendering of a value as JSON text.
pub open spec fn sp_render(v: SpecJson) -> Seq<char>
    decreases v, 0int,
{
    match v {
        SpecJson::Null => "null"@,
        SpecJson::Bool(b) => if b {
            "true"@
        } else {
            "false"@
        },
        SpecJson::Num(t) => t,
        SpecJson::Str(s) => seq!['"'] + sp_escape_str(s) + seq!['"'],
        SpecJson::Arr(es) => seq!['['] + sp_render_elems(es) + seq![']'],
        SpecJson::Obj(fields) => seq!['{'] + sp_render_fields(fields) + seq!['}'],
    }
}

/// The comma-separated renderings of array elements.
pub open spec fn sp_render_elems(es: Seq<SpecJson>) -> Seq<char>
    decreases es, 1int,
{
    if es.len() == 0 {
        Seq::empty()
    } else if es.len() == 1 {
        sp_render(es[0])
    } else {
        sp_render_elems(es.drop_last()) + seq![','] + sp_render(es.last())
    }
}

/// The comma-separated renderings of object members.
pub open spec fn sp_render_fields(fields: Seq<(Seq<char>, SpecJson)>) -> Seq<char>
    decreases fields, 1int,
{
    if fields.len() == 0 {
        Seq::empty()
    } else if fields.len() == 1 {
        seq!['"'] + sp_escape_str(fields[0].0) + seq!['"', ':'] + sp_render(fields[0].1)
    } else {
        sp_render_fields(fields.drop_last()) + seq![','] + seq!['"'] + sp_escape_str(
            fields.last().0,
        ) + seq!['"', ':'] + sp_render(fields.last().1)
    }
}

/// The display text of a carried value: the contents of a string, the
/// compact JSON rendering of anything else.
pub open spec fn sp_value_text(v: SpecJson) -> Seq<char> {
    match v {
        SpecJson::Str(s) => s,
        _ => sp_render(v),
    }
}

/// Append the escaped form of the characters of `s` to `out`.
fn push_escaped(out: &mut Vec<char>, s: &str)
    ensures
        final(out)@ == old(out)@ + sp_escape_str(s@),
{
    let chars = crate::text::str_to_chars(s);
    let n = chars.len();
    let mut k: usize = 0;
    proof {
        assert(s@.take(0) =~= Seq::<char>::empty());
        assert(out@ + Seq::<char>::empty() =~= out@);
    }
    while k < n
        invariant
            chars@ == s@,
            n == s@.len(),
            k <= n,
            out@ == old(out)@ + sp_escape_str(s@.take(k as int)),
        decreases n - k,
    {
        proof {
            assert(s@.take(k as int + 1).drop_last() =~= s@.take(k as int));
            assert(s@.take(k as int + 1).last() == s@[k as int]);
        }
        let c = chars[k];
        if c == '"' {
            out.push('\\');
            out.push('"');
            proof {
                reveal_strlit("\\\"");
                assert(out@ =~= old(out)@ + sp_escape_str(s@.take(k as int + 1)));
            }
        } else if c == '\\' {
            out.push('\\');
            out.push('\\');
            proof {
                reveal_strlit("\\\\");
                assert(out@ =~= old(out)@ + sp_escape_str(s@.take(k as int + 1)));
            }
        } else if c == '\n' {
            out.push('\\');
            out.push('n');
            proof {
                reveal_strlit("\\n");
                assert(out@ =~= old(out)@ + sp_escape_str(s@.take(k as int + 1)));
            }
        } else if c == '\r' {
            out.push('\\');
            out.push('r');
            proof {
                reveal_strlit("\\r");
                assert(out@ =~= old(out)@ + sp_escape_str(s@.take(k as int + 1)));
            }
        } else if c == '\t' {
            out.push('\\');
            out.push('t');
            proof {
                reveal_strlit("\\t");
                assert(out@ =~= old(out)@ + sp_escape_str(s@.take(k as int + 1)));
            }
        } else if char_code(c) < 0x20 {
            let v = char_code(c);
            out.push('\\');
            out.push('u');
            out.push('0');
            out.push('0');
            let hi = hex_digit_char(v / 16);
            let lo = hex_digit_char(v % 16);
            out.push(hi);
            out.push(lo);
            proof {
                reveal_strlit("\\u00");
                assert((c as int) < 0x20);
                assert(out@ =~= old(out)@ + sp_escape_str(s@.take(k as int + 1)));
            }
        } else {
            out.push(c);
            proof {
                assert(!((c as int) < 0x20));
                assert(out@ =~= old(out)@ + sp_escape_str(s@.take(k as int + 1)));
            }
        }
        k += 1;
    }
    proof {
        assert(s@.take(n as int) =~= s@);
    }
}

/// Relies on `u32::from`: the Unicode scalar value of the character.
#[verifier::external_body]
fn char_code(c: char) -> (r: u32)
    ensures
        r as int == c as int,
{
    u32::from(c)
}

fn hex_digit_char(v: u32) -> (r: char)
    requires
        v < 16,
    ensures
        r == sp_hex_digit_char(v as int),
{
    if v == 0 {
        '0'
    } else if v == 1 {
        '1'
    } else if v == 2 {
        '2'
    } else if v == 3 {
        '3'
    } else if v == 4 {
        '4'
    } else if v == 5 {
        '5'
    } else if v == 6 {
        '6'
    } else if v == 7 {
        '7'
    } else if v == 8 {
        '8'
    } else if v == 9 {
        '9'
    } else if v == 10 {
        'a'
    } else if v == 11 {
        'b'
    } else if v == 12 {
        'c'
    } else if v == 13 {
        'd'
    } else if v == 14 {
        'e'
    } else {
        'f'
    }
}

/// Append the compact JSON rendering of `j` to `out`.
fn push_rendered(out: &mut Vec<char>, j: &Json)
    ensures
        final(out)@ == old(out)@ + sp_render(j@),
    decreases j, 0int,
{
    match j {
        Json::Null => {
            let lit = crate::text::str_to_chars("null");
            crate::text::append_range(out, &lit, 0, lit.len());
            assert(lit@.subrange(0, lit@.len() as int) =~= "null"@);
        },
        Json::Bool(b) => {
            if *b {
                let lit = crate::text::str_to_chars("true");
                crate::text::append_range(out, &lit, 0, lit.len());
                assert(lit@.subrange(0, lit@.len() as int) =~= "true"@);
            } else {
                let lit = crate::text::str_to_chars("false");
                crate::text::append_range(out, &lit, 0, lit.len());
                assert(lit@.subrange(0, lit@.len() as int) =~= "false"@);
            }
        },
        Json::Num(t) => {
            let lit = crate::text::str_to_chars(t.as_str());
            crate::text::append_range(out, &lit, 0, lit.len());
            assert(lit@.subrange(0, lit@.len() as int) =~= t@);
        },
        Json::Str(s) => {
            out.push('"');
            push_escaped(out, s.as_str());
            out.push('"');
            assert(out@ =~= old(out)@ + sp_render(j@));
        },
        Json::Arr(items) => {
            out.push('[');
            let n = items.len();
            let mut k: usize = 0;
            proof {
                crate::json::lemma_arr_view(items@);
                assert(arr_view(items@).take(0) =~= Seq::<SpecJson>::empty());
                assert(out@ =~= old(out)@ + seq!['['] + sp_render_elems(
                    arr_view(items@).take(0),
                ));
            }
            while k < n
                invariant
                    *j == Json::Arr(*items),
                    n == items@.len(),
                    arr_view(items@).len() == n,
                    forall|m: int| 0 <= m < n ==> arr_view(items@)[m] == items@[m]@,
                    k <= n,
                    out@ == old(out)@ + seq!['['] + sp_render_elems(arr_view(items@).take(k as int)),
                decreases n - k, 1int,
            {
                proof {
                    assert(decreases_to!(*j => j->Arr_0));
                    assert(j->Arr_0 == *items);
                    assert(decreases_to!(j->Arr_0 => items@));
                    assert(decreases_to!(items@ => items@[k as int]));
                    assert(decreases_to!(j => items@[k as int]));
                    assert(arr_view(items@).take(k as int + 1).drop_last() =~= arr_view(
                        items@,
                    ).take(k as int));
                    assert(arr_view(items@).take(k as int + 1).last() == items@[k as int]@);
                }
                if k > 0 {
                    out.push(',');
                }
                push_rendered(out, &items[k]);
                proof {
                    if k == 0 {
                        assert(arr_view(items@).take(1) =~= seq![items@[0]@]);
                        assert(out@ =~= old(out)@ + seq!['['] + sp_render_elems(
                            arr_view(items@).take(1),
                        ));
                    } else {
                        assert(out@ =~= old(out)@ + seq!['['] + sp_render_elems(
                            arr_view(items@).take(k as int + 1),
                        ));
                    }
                }
                k += 1;
            }
            out.push(']');
            proof {
                assert(arr_view(items@).take(n as int) =~= arr_view(items@));
                assert(out@ =~= old(out)@ + sp_render(j@));
            }
        },
        Json::Obj(fields) => {
            out.push('{');
            let n = fields.len();
            let mut k: usize = 0;
            proof {
                crate::json::lemma_obj_view(fields@);
                assert(crate::json::obj_view(fields@).take(0) =~= Seq::<
                    (Seq<char>, SpecJson),
                >::empty());
                assert(out@ =~= old(out)@ + seq!['{'] + sp_render_fields(
                    crate::json::obj_view(fields@).take(0),
                ));
            }
            while k < n
                invariant
                    *j == Json::Obj(*fields),
                    n == fields@.len(),
                    crate::json::obj_view(fields@).len() == n,
                    forall|m: int|
                        0 <= m < n ==> crate::json::obj_view(fields@)[m] == (
                            fields@[m].0@,
                            fields@[m].1@,
                        ),
                    k <= n,
                    out@ == old(out)@ + seq!['{'] + sp_render_fields(
                        crate::json::obj_view(fields@).take(k as int),
                    ),
                decreases n - k, 1int,
            {
                proof {
                    assert(decreases_to!(*j => j->Obj_0));
                    assert(j->Obj_0 == *fields);
                    assert(decreases_to!(j->Obj_0 => fields@));
                    assert(decreases_to!(fields@ => fields@[k as int]));
                    assert(decreases_to!(fields@[k as int] => fields@[k as int].1));
                    assert(decreases_to!(j => fields@[k as int].1));
                    assert(crate::json::obj_view(fields@).take(k as int + 1).drop_last()
                        =~= crate::json::obj_view(fields@).take(k as int));
                    assert(crate::json::obj_view(fields@).take(k as int + 1).last() == (
                        fields@[k as int].0@,
                        fields@[k as int].1@,
                    ));
                }
                if k > 0 {
                    out.push(',');
                }
                out.push('"');
                push_escaped(out, fields[k].0.as_str());
                out.push('"');
                out.push(':');
                push_rendered(out, &fields[k].1);
                proof {
                    if k == 0 {
                        assert(crate::json::obj_view(fields@).take(1) =~= seq![
                            (fields@[0].0@, fields@[0].1@),
                        ]);
                        assert(out@ =~= old(out)@ + seq!['{'] + sp_render_fields(
                            crate::json::obj_view(fields@).take(1),
                        ));
                    } else {
                        assert(out@ =~= old(out)@ + seq!['{'] + sp_render_fields(
                            crate::json::obj_view(fields@).take(k as int + 1),
                        ));
                    }
                }
                k += 1;
            }
            out.push('}');
            proof {
                assert(crate::json::obj_view(fields@).take(n as int) =~= crate::json::obj_view(
                    fields@,
                ));
                assert(out@ =~= old(out)@ + sp_render(j@));
            }
        },
    }
}

/// The display text of a carried value: a string's own contents, or the
/// compact JSON rendering of any other value.
pub fn value_to_string(j: &Json) -> (r: String)
    ensures
        r@ == sp_value_text(j@),
{
    match j {
        Json::Str(s) => s.clone(),
        _ => {
            let mut out: Vec<char> = Vec::new();
            push_rendered(&mut out, j);
            assert(out@ =~= sp_render(j@));
            crate::text::chars_to_string(&out)
        },
    }
}

// ---------------------------------------------------------------------------
// Shaping events into messages
// ---------------------------------------------------------------------------

/// The widened counters equal the decoded ones.
pub open spec fn usage_info_matches(ui: Option<UsageInfo>, u: Option<crate::events::Usage>) -> bool {
    match (ui, u) {
        (None, None) => true,
        (Some(i), Some(us)) => {
            &&& i.input_tokens == (match us.input_tokens {
                Some(x) => Some(x as i64),
                None => None::<i64>,
            })
            &&& i.output_tokens == (match us.output_tokens {
                Some(x) => Some(x as i64),
                None => None::<i64>,
            })
            &&& i.cache_creation_input_tokens == (match us.cache_creation_input_tokens {
                Some(x) => Some(x as i64),
                None => None::<i64>,
            })
            &&& i.cache_read_input_tokens == (match us.cache_read_input_tokens {
                Some(x) => Some(x as i64),
                None => None::<i64>,
            })
        },
        _ => false,
    }
}

/// The shaped block holds exactly the decoded block's fields, tool-result
/// content rendered as text.
pub open spec fn out_block_matches(ob: ContentBlock, b: crate::events::ContentBlock) -> bool {
    match (ob, b) {
        (ContentBlock::Text(t), crate::events::ContentBlock::Text(src)) => t.text@ == src.text@,
        (
            ContentBlock::Thinking(t),
            crate::events::ContentBlock::Thinking(src),
        ) => t.thinking@ == src.thinking@,
        (ContentBlock::ToolUse(t), crate::events::ContentBlock::ToolUse(src)) => {
            &&& t.id@ == src.id@
            &&& t.name@ == src.name@
            &&& t.input@ == src.input@
        },
        (ContentBlock::ToolResult(t), crate::events::ContentBlock::ToolResult(src)) => {
            &&& t.tool_use_id@ == src.tool_use_id@
            &&& t.content@ == sp_value_text(src.content@)
            &&& t.is_error is None
        },
        _ => false,
    }
}

/// The shaped tool result holds exactly the fields of the raw block `e`.
pub open spec fn out_tool_result_matches(tr: ToolResult, e: SpecJson) -> bool {
    &&& trb_ok(e)
    &&& sp_req_str(e, "toolUseId"@) == Some(tr.tool_use_id@)
    &&& sp_get(e, "content"@) matches Some(cv) && tr.content@ == sp_value_text(cv)
    &&& sp_opt_bool(e, "isError"@) == Some(tr.is_error)
}

/// The resolved user content: tool results when the event carries a tool
/// use result, plain text otherwise; absent when the content has neither
/// shape.
pub open spec fn user_content_matches(uc: Option<UserContent>, u: UserEvent) -> bool {
    if u.tool_use_result is Some {
        match uc {
            Some(UserContent::ToolResults(tr)) => u.message.content@ matches SpecJson::Arr(es) && (
            tr.results@.len() == es.len() && (forall|k: int|
                0 <= k < es.len() ==> out_tool_result_matches(tr.results@[k], es[k]))),
            None => !(u.message.content@ matches SpecJson::Arr(es) && (forall|k: int|
                0 <= k < es.len() ==> trb_ok(es[k]))),
            Some(UserContent::Text(_)) => false,
        }
    } else {
        match uc {
            Some(UserContent::Text(t)) => u.message.content@ == SpecJson::Str(t.text@),
            None => !(u.message.content@ matches SpecJson::Str(_)),
            Some(UserContent::ToolResults(_)) => false,
        }
    }
}

/// The message holds exactly the displayable fields of the event.
pub open spec fn message_matches(m: SessionMessage, ev: Event) -> bool {
    match ev {
        Event::User(u) => {
            &&& m.uuid@ == u.common.uuid@
            &&& opt_str_view(m.parent_uuid) == opt_str_view(u.common.parent_uuid)
            &&& m.timestamp == u.common.timestamp
            &&& m.event_type == EventType::User
            &&& opt_str_view(m.cwd) == opt_str_view(u.common.cwd)
            &&& opt_str_view(m.git_branch) == opt_str_view(u.common.git_branch)
            &&& m.is_sidechain == u.common.is_sidechain
            &&& opt_str_view(m.slug) == opt_str_view(u.common.slug)
            &&& user_content_matches(m.user_content, u)
            &&& m.assistant_content is None
            &&& m.system_info is None
        },
        Event::Assistant(a) => {
            &&& m.uuid@ == a.common.uuid@
            &&& opt_str_view(m.parent_uuid) == opt_str_view(a.common.parent_uuid)
            &&& m.timestamp == a.common.timestamp
            &&& m.event_type == EventType::Assistant
            &&& opt_str_view(m.cwd) == opt_str_view(a.common.cwd)
            &&& opt_str_view(m.git_branch) == opt_str_view(a.common.git_branch)
            &&& m.is_sidechain == a.common.is_sidechain
            &&& opt_str_view(m.slug) == opt_str_view(a.common.slug)
            &&& m.user_content is None
            &&& m.assistant_content matches Some(ac) && {
                &&& opt_str_view(ac.model) == opt_str_view(a.message.model)
                &&& opt_str_view(ac.stop_reason) == opt_str_view(a.message.stop_reason)
                &&& usage_info_matches(ac.usage, a.message.usage)
                &&& ac.blocks@.len() == a.message.content@.len()
                &&& (forall|k: int|
                    0 <= k < ac.blocks@.len() ==> out_block_matches(
                        ac.blocks@[k],
                        a.message.content@[k],
                    ))
            }
            &&& m.system_info is None
        },
        Event::System(s) => {
            &&& m.uuid@ == s.uuid@
            &&& opt_str_view(m.parent_uuid) == opt_str_view(s.parent_uuid)
            &&& m.timestamp == s.timestamp
            &&& m.event_type == EventType::System
            &&& m.cwd is None
            &&& m.git_branch is None
            &&& m.is_sidechain is None
            &&& m.slug is None
            &&& m.user_content is None
            &&& m.assistant_content is None
            &&& m.system_info matches Some(si) && {
                &&& opt_str_view(si.subtype) == opt_str_view(s.subtype)
                &&& si.duration_ms == (match s.duration_ms {
                    Some(x) => Some(x as i64),
                    None => None::<i64>,
                })
            }
        },
        _ => false,
    }
}

fn clone_opt_str(o: &Option<String>) -> (r: Option<String>)
    ensures
        opt_str_view(r) == opt_str_view(*o),
{
    match o {
        Some(s) => Some(s.clone()),
        None => None,
    }
}

fn clone_timestamp(t: &Timestamp) -> (r: Timestamp)
    ensures
        r == *t,
{
    Timestamp { raw: t.raw.clone(), millis: t.millis }
}

fn widen_usage(o: &Option<u64>) -> (r: Option<i64>)
    ensures
        r == (match *o {
            Some(x) => Some(x as i64),
            None => None::<i64>,
        }),
{
    match o {
        Some(x) => Some(#[verifier::truncate] (*x as i64)),
        None => None,
    }
}

/// Shape one decoded event for display: user, assistant and system events
/// become messages; progress, snapshot and queue events yield nothing.
pub fn event_to_message(event: &Event) -> (r: Option<SessionMessage>)
    ensures
        match r {
            Some(m) => message_matches(m, *event),
            None => !(*event matches Event::User(_) || *event matches Event::Assistant(_)
                || *event matches Event::System(_)),
        },
{
    match event {
        Event::User(e) => {
            let user_content: Option<UserContent> = if e.tool_use_result.is_some() {
                match e.message.tool_results() {
                    Some(blocks) => {
                        let ghost es = (match e.message.content@ {
                            SpecJson::Arr(es0) => es0,
                            _ => Seq::empty(),
                        });
                        let nb = blocks.len();
                        let mut results: Vec<ToolResult> = Vec::new();
                        let mut k: usize = 0;
                        while k < nb
                            invariant
                                e.message.content@ matches SpecJson::Arr(es0) && es0 == es,
                                nb == blocks@.len() == es.len(),
                                forall|m: int|
                                    0 <= m < nb ==> trb_matches(blocks@[m], es[m]) && trb_ok(
                                        es[m],
                                    ),
                                k <= nb,
                                results@.len() == k,
                                forall|m: int|
                                    0 <= m < k ==> out_tool_result_matches(results@[m], es[m]),
                            decreases nb - k,
                        {
                            let b = &blocks[k];
                            let content_text = value_to_string(&b.content);
                            results.push(
                                ToolResult {
                                    tool_use_id: b.tool_use_id.clone(),
                                    content: content_text,
                                    is_error: b.is_error,
                                },
                            );
                            k += 1;
                        }
                        Some(UserContent::ToolResults(UserToolResults { results }))
                    },
                    None => None,
                }
            } else {
                match e.message.text() {
                    Some(t) => Some(UserContent::Text(UserTextContent { text: t.clone() })),
                    None => None,
                }
            };
            Some(
                SessionMessage {
                    uuid: e.common.uuid.clone(),
                    parent_uuid: clone_opt_str(&e.common.parent_uuid),
                    timestamp: clone_timestamp(&e.common.timestamp),
                    event_type: EventType::User,
                    cwd: clone_opt_str(&e.common.cwd),
                    git_branch: clone_opt_str(&e.common.git_branch),
                    is_sidechain: e.common.is_sidechain,
                    slug: clone_opt_str(&e.common.slug),
                    user_content,
                    assistant_content: None,
                    system_info: None,
                },
            )
        },
        Event::Assistant(e) => {
            let src = &e.message.content;
            let nb = src.len();
            let mut blocks: Vec<ContentBlock> = Vec::new();
            let mut k: usize = 0;
            while k < nb
                invariant
                    nb == src@.len(),
                    k <= nb,
                    blocks@.len() == k,
                    forall|m: int| 0 <= m < k ==> out_block_matches(blocks@[m], src@[m]),
                decreases nb - k,
            {
                match &src[k] {
                    crate::events::ContentBlock::Text(b) => {
                        blocks.push(ContentBlock::Text(TextBlock { text: b.text.clone() }));
                    },
                    crate::events::ContentBlock::Thinking(b) => {
                        blocks.push(
                            ContentBlock::Thinking(ThinkingBlock { thinking: b.thinking.clone() }),
                        );
                    },
                    crate::events::ContentBlock::ToolUse(b) => {
                        blocks.push(
                            ContentBlock::ToolUse(
                                ToolUseBlock {
                                    id: b.id.clone(),
                                    name: b.name.clone(),
                                    input: crate::events::json_clone(&b.input),
                                },
                            ),
                        );
                    },
                    crate::events::ContentBlock::ToolResult(b) => {
                        let content_text = value_to_string(&b.content);
                        blocks.push(
                            ContentBlock::ToolResult(
                                ToolResultBlock {
                                    tool_use_id: b.tool_use_id.clone(),
                                    content: content_text,
                                    is_error: None,
                                },
                            ),
                        );
                    },
                }
                k += 1;
            }
            let usage: Option<UsageInfo> = match &e.message.usage {
                Some(u) => Some(
                    UsageInfo {
                        input_tokens: widen_usage(&u.input_tokens),
                        output_tokens: widen_usage(&u.output_tokens),
                        cache_creation_input_tokens: widen_usage(&u.cache_creation_input_tokens),
                        cache_read_input_tokens: widen_usage(&u.cache_read_input_tokens),
                    },
                ),
                None => None,
            };
            Some(
                SessionMessage {
                    uuid: e.common.uuid.clone(),
                    parent_uuid: clone_opt_str(&e.common.parent_uuid),
                    timestamp: clone_timestamp(&e.common.timestamp),
                    event_type: EventType::Assistant,
                    cwd: clone_opt_str(&e.common.cwd),
                    git_branch: clone_opt_str(&e.common.git_branch),
                    is_sidechain: e.common.is_sidechain,
                    slug: clone_opt_str(&e.common.slug),
                    user_content: None,
                    assistant_content: Some(
                        AssistantContent {
                            model: clone_opt_str(&e.message.model),
                            stop_reason: clone_opt_str(&e.message.stop_reason),
                            usage,
                            blocks,
                        },
                    ),
                    system_info: None,
                },
            )
        },
        Event::System(e) => Some(
            SessionMessage {
                uuid: e.uuid.clone(),
                parent_uuid: clone_opt_str(&e.parent_uuid),
                timestamp: clone_timestamp(&e.timestamp),
                event_type: EventType::System,
                cwd: None,
                git_branch: None,
                is_sidechain: None,
                slug: None,
                user_content: None,
                assistant_content: None,
                system_info: Some(
                    SystemInfo {
                        subtype: clone_opt_str(&e.subtype),
                        duration_ms: widen_usage(&e.duration_ms),
                    },
                ),
            },
        ),
        _ => None,
    }
}

} // verus!
