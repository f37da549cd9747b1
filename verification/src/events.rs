//! The event model: the decoded form of one log line, and the decoding
//! itself. A line decodes into exactly one `Event` variant, chosen by its
//! `type` field; decoding fails when that field is missing, unrecognized, or
//! when a required field of the chosen variant is absent or of the wrong
//! shape. Arbitrary payloads (tool input, progress data, snapshots) are
//! carried as `Json` values.

use vstd::prelude::*;
use crate::json::{Json, SpecJson, sp_get, sp_num_u64, arr_view};
use crate::time::ts_of;

verus! {

/// A timestamp: the literal text from the log line, and its reading as epoch
/// milliseconds.
#[derive(Debug, PartialEq)]
pub struct Timestamp {
    pub raw: String,
    pub millis: i64,
}

impl Timestamp {
    /// The reading matches the text.
    pub open spec fn wf(&self) -> bool {
        ts_of(self.raw@) == Some(self.millis)
    }
}

/// Why a line failed to decode.
#[derive(Debug, Clone, Copy, PartialEq, Eq, Structural)]
pub enum DecodeError {
    /// The `type` field is absent, or not a string.
    MissingType,
    /// The `type` tag is none of the known event kinds.
    UnknownType,
    /// A required field of the matched variant is absent or of the wrong
    /// shape.
    BadShape,
}

// ---------------------------------------------------------------------------
// Reading fields of a decoded line
// ---------------------------------------------------------------------------

/// View of an optional owned string.
pub open spec fn opt_str_view(o: Option<String>) -> Option<Seq<char>> {
    match o {
        Some(s) => Some(s@),
        None => None,
    }
}

/// View of an optional carried value.
pub open spec fn opt_json_view(o: Option<Json>) -> Option<SpecJson> {
    match o {
        Some(j) => Some(j@),
        None => None,
    }
}

/// A required string field: its contents, or `None` when absent or not a
/// string.
pub open spec fn sp_req_str(v: SpecJson, key: Seq<char>) -> Option<Seq<char>> {
    match sp_get(v, key) {
        Some(SpecJson::Str(s)) => Some(s),
        _ => None,
    }
}

/// An optional string field: `Some(None)` when absent or null, `Some(Some)`
/// when a string, `None` when present with another shape.
pub open spec fn sp_opt_str(v: SpecJson, key: Seq<char>) -> Option<Option<Seq<char>>> {
    match sp_get(v, key) {
        None => Some(None),
        Some(SpecJson::Null) => Some(None),
        Some(SpecJson::Str(s)) => Some(Some(s)),
        Some(_) => None,
    }
}

/// An optional boolean field, with the same three outcomes.
pub open spec fn sp_opt_bool(v: SpecJson, key: Seq<char>) -> Option<Option<bool>> {
    match sp_get(v, key) {
        None => Some(None),
        Some(SpecJson::Null) => Some(None),
        Some(SpecJson::Bool(b)) => Some(Some(b)),
        Some(_) => None,
    }
}

/// An optional unsigned-integer field, with the same three outcomes; a
/// number that is not a plain `u64` is the wrong shape.
pub open spec fn sp_opt_u64(v: SpecJson, key: Seq<char>) -> Option<Option<u64>> {
    match sp_get(v, key) {
        None => Some(None),
        Some(SpecJson::Null) => Some(None),
        Some(SpecJson::Num(t)) => match sp_num_u64(t) {
            Some(x) => Some(Some(x)),
            None => None,
        },
        Some(_) => None,
    }
}

/// An optional carried value: absent and null both read as `None`.
pub open spec fn sp_opt_any(v: SpecJson, key: Seq<char>) -> Option<SpecJson> {
    match sp_get(v, key) {
        None => None,
        Some(SpecJson::Null) => None,
        Some(x) => Some(x),
    }
}

/// A required timestamp field: its text and reading, or `None` when absent,
/// not a string, or not a well-formed timestamp.
pub open spec fn sp_req_ts(v: SpecJson, key: Seq<char>) -> Option<(Seq<char>, i64)> {
    match sp_req_str(v, key) {
        None => None,
        Some(s) => match ts_of(s) {
            Some(ms) => Some((s, ms)),
            None => None,
        },
    }
}

/// An optional timestamp field, with the three outcomes of `sp_opt_str`.
pub open spec fn sp_opt_ts(v: SpecJson, key: Seq<char>) -> Option<Option<(Seq<char>, i64)>> {
    match sp_get(v, key) {
        None => Some(None),
        Some(SpecJson::Null) => Some(None),
        Some(SpecJson::Str(s)) => match ts_of(s) {
            Some(ms) => Some(Some((s, ms))),
            None => None,
        },
        Some(_) => None,
    }
}

/// Copy of a parsed value.
pub fn json_clone(j: &Json) -> (r: Json)
    ensures
        r@ == j@,
    decreases j,
{
    match j {
        Json::Null => Json::Null,
        Json::Bool(b) => Json::Bool(*b),
        Json::Num(t) => Json::Num(t.clone()),
        Json::Str(t) => Json::Str(t.clone()),
        Json::Arr(items) => {
            let n = items.len();
            let mut out: Vec<Json> = Vec::new();
            let mut k: usize = 0;
            while k < n
                invariant
                    *j == Json::Arr(*items),
                    n == items@.len(),
                    k <= n,
                    out@.len() == k,
                    forall|m: int| 0 <= m < k ==> out@[m]@ == items@[m]@,
                decreases n - k,
            {
                proof {
                    assert(decreases_to!(*j => j->Arr_0));
                    assert(j->Arr_0 == *items);
                    assert(decreases_to!(j->Arr_0 => items@));
                    assert(decreases_to!(items@ => items@[k as int]));
                    assert(decreases_to!(j => items@[k as int]));
                }
                let c = json_clone(&items[k]);
                out.push(c);
                k += 1;
            }
            proof {
                crate::json::lemma_arr_view(out@);
                crate::json::lemma_arr_view(items@);
                assert(arr_view(out@) =~= arr_view(items@));
            }
            Json::Arr(out)
        },
        Json::Obj(fields) => {
            let n = fields.len();
            let mut out: Vec<(String, Json)> = Vec::new();
            let mut k: usize = 0;
            while k < n
                invariant
                    *j == Json::Obj(*fields),
                    n == fields@.len(),
                    k <= n,
                    out@.len() == k,
                    forall|m: int|
                        0 <= m < k ==> out@[m].0@ == fields@[m].0@ && out@[m].1@ == fields@[m].1@,
                decreases n - k,
            {
                proof {
                    assert(decreases_to!(*j => j->Obj_0));
                    assert(j->Obj_0 == *fields);
                    assert(decreases_to!(j->Obj_0 => fields@));
                    assert(decreases_to!(fields@ => fields@[k as int]));
                    assert(decreases_to!(fields@[k as int] => fields@[k as int].1));
                    assert(decreases_to!(j => fields@[k as int].1));
                }
                let key = fields[k].0.clone();
                let val = json_clone(&fields[k].1);
                out.push((key, val));
                k += 1;
            }
            proof {
                crate::json::lemma_obj_view(out@);
                crate::json::lemma_obj_view(fields@);
                assert(crate::json::obj_view(out@) =~= crate::json::obj_view(fields@));
            }
            Json::Obj(out)
        },
    }
}

/// A required string field of a line.
fn field_str(j: &Json, key: &str) -> (r: Option<String>)
    ensures
        opt_str_view(r) == sp_req_str(j@, key@),
{
    match j.get_field(key) {
        Some(f) => match f {
            Json::Str(s) => Some(s.clone()),
            _ => None,
        },
        None => None,
    }
}

/// An optional string field of a line.
fn field_opt_str(j: &Json, key: &str) -> (r: Option<Option<String>>)
    ensures
        match r {
            Some(o) => sp_opt_str(j@, key@) == Some(opt_str_view(o)),
            None => sp_opt_str(j@, key@) is None,
        },
{
    match j.get_field(key) {
        None => Some(None),
        Some(f) => match f {
            Json::Null => Some(None),
            Json::Str(s) => Some(Some(s.clone())),
            _ => None,
        },
    }
}

/// An optional boolean field of a line.
fn field_opt_bool(j: &Json, key: &str) -> (r: Option<Option<bool>>)
    ensures
        match r {
            Some(o) => sp_opt_bool(j@, key@) == Some(o),
            None => sp_opt_bool(j@, key@) is None,
        },
{
    match j.get_field(key) {
        None => Some(None),
        Some(f) => match f {
            Json::Null => Some(None),
            Json::Bool(b) => Some(Some(*b)),
            _ => None,
        },
    }
}

/// An optional unsigned-integer field of a line.
fn field_opt_u64(j: &Json, key: &str) -> (r: Option<Option<u64>>)
    ensures
        match r {
            Some(o) => sp_opt_u64(j@, key@) == Some(o),
            None => sp_opt_u64(j@, key@) is None,
        },
{
    match j.get_field(key) {
        None => Some(None),
        Some(f) => match f {
            Json::Null => Some(None),
            Json::Num(t) => match crate::json::num_as_u64(t.as_str()) {
                Some(x) => Some(Some(x)),
                None => None,
            },
            _ => None,
        },
    }
}

/// A required carried value.
fn field_any(j: &Json, key: &str) -> (r: Option<Json>)
    ensures
        match r {
            Some(f) => sp_get(j@, key@) == Some(f@),
            None => sp_get(j@, key@) is None,
        },
{
    match j.get_field(key) {
        Some(f) => Some(json_clone(f)),
        None => None,
    }
}

/// An optional carried value: absent and null both read as `None`.
fn field_opt_any(j: &Json, key: &str) -> (r: Option<Json>)
    ensures
        opt_json_view(r) == sp_opt_any(j@, key@),
{
    match j.get_field(key) {
        None => None,
        Some(f) => match f {
            Json::Null => None,
            _ => Some(json_clone(f)),
        },
    }
}

/// A required timestamp field of a line.
fn field_ts(j: &Json, key: &str) -> (r: Option<Timestamp>)
    ensures
        match r {
            Some(t) => sp_req_ts(j@, key@) == Some((t.raw@, t.millis)) && t.wf(),
            None => sp_req_ts(j@, key@) is None,
        },
{
    match j.get_field(key) {
        Some(f) => match f {
            Json::Str(s) => match crate::time::parse_timestamp(s.as_str()) {
                Some(ms) => Some(Timestamp { raw: s.clone(), millis: ms }),
                None => None,
            },
            _ => None,
        },
        None => None,
    }
}

// ---------------------------------------------------------------------------
// The event variants
// ---------------------------------------------------------------------------

/// Fields shared by user, assistant and progress events.
#[derive(Debug, PartialEq)]
pub struct CommonFields {
    pub uuid: String,
    pub parent_uuid: Option<String>,
    pub session_id: String,
    pub timestamp: Timestamp,
    pub version: Option<String>,
    pub cwd: Option<String>,
    pub git_branch: Option<String>,
    pub is_sidechain: Option<bool>,
    pub user_type: Option<String>,
    pub slug: Option<String>,
}

/// A user turn: either direct user text or returned tool results.
#[derive(Debug, PartialEq)]
pub struct UserEvent {
    pub common: CommonFields,
    pub message: UserMessage,
    pub tool_use_result: Option<Json>,
    pub source_tool_assistant_uuid: Option<String>,
    pub permission_mode: Option<String>,
}

/// The message of a user turn. `content` is either a plain string (direct
/// user text) or an array of tool-result blocks; the two shapes are told
/// apart at use time.
#[derive(Debug, PartialEq)]
pub struct UserMessage {
    pub role: String,
    pub content: Json,
}

/// One tool-result block of a user turn's content array.
#[derive(Debug, PartialEq)]
pub struct ToolResultBlock {
    pub block_type: String,
    pub tool_use_id: String,
    pub content: Json,
    pub is_error: Option<bool>,
}

/// An assistant turn.
#[derive(Debug, PartialEq)]
pub struct AssistantEvent {
    pub common: CommonFields,
    pub message: AssistantMessage,
    pub request_id: Option<String>,
}

/// The message of an assistant turn, with its content blocks in order.
#[derive(Debug, PartialEq)]
pub struct AssistantMessage {
    pub role: String,
    pub model: Option<String>,
    pub id: Option<String>,
    pub content: Vec<ContentBlock>,
    pub stop_reason: Option<String>,
    pub usage: Option<Usage>,
}

/// One content block of an assistant turn.
#[derive(Debug, PartialEq)]
pub enum ContentBlock {
    Thinking(ThinkingBlock),
    Text(TextBlock),
    ToolUse(ToolUseBlock),
    ToolResult(ToolResultContentBlock),
}

#[derive(Debug, PartialEq)]
pub struct ThinkingBlock {
    pub thinking: String,
}

#[derive(Debug, PartialEq)]
pub struct TextBlock {
    pub text: String,
}

#[derive(Debug, PartialEq)]
pub struct ToolUseBlock {
    pub id: String,
    pub name: String,
    pub input: Json,
}

#[derive(Debug, PartialEq)]
pub struct ToolResultContentBlock {
    pub tool_use_id: String,
    pub content: Json,
}

/// Token counters of an assistant turn.
#[derive(Debug, PartialEq)]
pub struct Usage {
    pub input_tokens: Option<u64>,
    pub output_tokens: Option<u64>,
    pub cache_creation_input_tokens: Option<u64>,
    pub cache_read_input_tokens: Option<u64>,
}

/// A progress notice.
#[derive(Debug, PartialEq)]
pub struct ProgressEvent {
    pub common: CommonFields,
    pub data: Json,
    pub tool_use_id: Option<String>,
    pub parent_tool_use_id: Option<String>,
}

/// A system notice. It spells out a subset of the common fields directly
/// instead of sharing `CommonFields`, mirroring the line format, which gives
/// system lines no version, working directory or branch.
#[derive(Debug, PartialEq)]
pub struct SystemEvent {
    pub uuid: String,
    pub parent_uuid: Option<String>,
    pub session_id: String,
    pub timestamp: Timestamp,
    pub subtype: Option<String>,
    pub duration_ms: Option<u64>,
    pub is_meta: Option<bool>,
}

/// A snapshot of tracked file state.
#[derive(Debug, PartialEq)]
pub struct FileHistorySnapshotEvent {
    pub message_id: String,
    pub snapshot: Json,
    pub is_snapshot_update: Option<bool>,
}

/// An operation on the queued-message list.
#[derive(Debug, PartialEq)]
pub struct QueueOperationEvent {
    pub operation: String,
    pub session_id: String,
    pub timestamp: Option<Timestamp>,
    pub content: Option<String>,
}

/// One decoded log line, discriminated by its `type` field.
#[derive(Debug, PartialEq)]
pub enum Event {
    User(UserEvent),
    Assistant(AssistantEvent),
    Progress(ProgressEvent),
    System(SystemEvent),
    FileHistorySnapshot(FileHistorySnapshotEvent),
    QueueOperation(QueueOperationEvent),
}

/// An optional timestamp field of a line.
fn field_opt_ts(j: &Json, key: &str) -> (r: Option<Option<Timestamp>>)
    ensures
        match r {
            Some(Some(t)) => sp_opt_ts(j@, key@) == Some(Some((t.raw@, t.millis))) && t.wf(),
            Some(None) => sp_opt_ts(j@, key@) == Some(None::<(Seq<char>, i64)>),
            None => sp_opt_ts(j@, key@) is None,
        },
{
    match j.get_field(key) {
        None => Some(None),
        Some(f) => match f {
            Json::Null => Some(None),
            Json::Str(s) => match crate::time::parse_timestamp(s.as_str()) {
                Some(ms) => Some(Some(Timestamp { raw: s.clone(), millis: ms })),
                None => None,
            },
            _ => None,
        },
    }
}

// ---------------------------------------------------------------------------
// Shape of each variant
// ---------------------------------------------------------------------------

/// The line has every shared field in the right shape.
pub open spec fn common_ok(v: SpecJson) -> bool {
    &&& sp_req_str(v, "uuid"@) is Some
    &&& sp_opt_str(v, "parentUuid"@) is Some
    &&& sp_req_str(v, "sessionId"@) is Some
    &&& sp_req_ts(v, "timestamp"@) is Some
    &&& sp_opt_str(v, "version"@) is Some
    &&& sp_opt_str(v, "cwd"@) is Some
    &&& sp_opt_str(v, "gitBranch"@) is Some
    &&& sp_opt_bool(v, "isSidechain"@) is Some
    &&& sp_opt_str(v, "userType"@) is Some
    &&& sp_opt_str(v, "slug"@) is Some
}

/// `c` holds exactly the shared fields of the line `v`.
pub open spec fn common_matches(c: CommonFields, v: SpecJson) -> bool {
    &&& sp_req_str(v, "uuid"@) == Some(c.uuid@)
    &&& sp_opt_str(v, "parentUuid"@) == Some(opt_str_view(c.parent_uuid))
    &&& sp_req_str(v, "sessionId"@) == Some(c.session_id@)
    &&& sp_req_ts(v, "timestamp"@) == Some((c.timestamp.raw@, c.timestamp.millis))
    &&& sp_opt_str(v, "version"@) == Some(opt_str_view(c.version))
    &&& sp_opt_str(v, "cwd"@) == Some(opt_str_view(c.cwd))
    &&& sp_opt_str(v, "gitBranch"@) == Some(opt_str_view(c.git_branch))
    &&& sp_opt_bool(v, "isSidechain"@) == Some(c.is_sidechain)
    &&& sp_opt_str(v, "userType"@) == Some(opt_str_view(c.user_type))
    &&& sp_opt_str(v, "slug"@) == Some(opt_str_view(c.slug))
}

pub open spec fn user_msg_ok(mv: SpecJson) -> bool {
    &&& sp_req_str(mv, "role"@) is Some
    &&& sp_get(mv, "content"@) is Some
}

pub open spec fn user_msg_matches(m: UserMessage, mv: SpecJson) -> bool {
    &&& sp_req_str(mv, "role"@) == Some(m.role@)
    &&& sp_get(mv, "content"@) == Some(m.content@)
}

pub open spec fn user_ok(v: SpecJson) -> bool {
    &&& common_ok(v)
    &&& sp_get(v, "message"@) matches Some(mv) && user_msg_ok(mv)
    &&& sp_opt_str(v, "sourceToolAssistantUuid"@) is Some
    &&& sp_opt_str(v, "permissionMode"@) is Some
}

pub open spec fn user_matches(u: UserEvent, v: SpecJson) -> bool {
    &&& common_matches(u.common, v)
    &&& sp_get(v, "message"@) matches Some(mv) && user_msg_matches(u.message, mv)
    &&& opt_json_view(u.tool_use_result) == sp_opt_any(v, "toolUseResult"@)
    &&& sp_opt_str(v, "sourceToolAssistantUuid"@) == Some(
        opt_str_view(u.source_tool_assistant_uuid),
    )
    &&& sp_opt_str(v, "permissionMode"@) == Some(opt_str_view(u.permission_mode))
}

/// One assistant content block has the right shape.
pub open spec fn block_ok(e: SpecJson) -> bool {
    match sp_req_str(e, "type"@) {
        None => false,
        Some(t) => if t == "thinking"@ {
            sp_req_str(e, "thinking"@) is Some
        } else if t == "text"@ {
            sp_req_str(e, "text"@) is Some
        } else if t == "tool_use"@ {
            &&& sp_req_str(e, "id"@) is Some
            &&& sp_req_str(e, "name"@) is Some
            &&& sp_get(e, "input"@) is Some
        } else if t == "tool_result"@ {
            &&& sp_req_str(e, "tool_use_id"@) is Some
            &&& sp_get(e, "content"@) is Some
        } else {
            false
        },
    }
}

/// `b` holds exactly the fields of the block `e`.
pub open spec fn block_matches(b: ContentBlock, e: SpecJson) -> bool {
    match b {
        ContentBlock::Thinking(tb) => {
            &&& sp_req_str(e, "type"@) == Some("thinking"@)
            &&& sp_req_str(e, "thinking"@) == Some(tb.thinking@)
        },
        ContentBlock::Text(tb) => {
            &&& sp_req_str(e, "type"@) == Some("text"@)
            &&& sp_req_str(e, "text"@) == Some(tb.text@)
        },
        ContentBlock::ToolUse(tu) => {
            &&& sp_req_str(e, "type"@) == Some("tool_use"@)
            &&& sp_req_str(e, "id"@) == Some(tu.id@)
            &&& sp_req_str(e, "name"@) == Some(tu.name@)
            &&& sp_get(e, "input"@) == Some(tu.input@)
        },
        ContentBlock::ToolResult(tr) => {
            &&& sp_req_str(e, "type"@) == Some("tool_result"@)
            &&& sp_req_str(e, "tool_use_id"@) == Some(tr.tool_use_id@)
            &&& sp_get(e, "content"@) == Some(tr.content@)
        },
    }
}

pub open spec fn blocks_match(bs: Seq<ContentBlock>, es: Seq<SpecJson>) -> bool {
    bs.len() == es.len() && forall|k: int| 0 <= k < es.len() ==> block_matches(bs[k], es[k])
}

pub open spec fn usage_ok(mv: SpecJson) -> bool {
    match sp_get(mv, "usage"@) {
        None => true,
        Some(SpecJson::Null) => true,
        Some(u) => {
            &&& u matches SpecJson::Obj(_)
            &&& sp_opt_u64(u, "inputTokens"@) is Some
            &&& sp_opt_u64(u, "outputTokens"@) is Some
            &&& sp_opt_u64(u, "cacheCreationInputTokens"@) is Some
            &&& sp_opt_u64(u, "cacheReadInputTokens"@) is Some
        },
    }
}

pub open spec fn usage_matches(o: Option<Usage>, mv: SpecJson) -> bool {
    match sp_get(mv, "usage"@) {
        None => o is None,
        Some(SpecJson::Null) => o is None,
        Some(u) => o matches Some(us) && {
            &&& sp_opt_u64(u, "inputTokens"@) == Some(us.input_tokens)
            &&& sp_opt_u64(u, "outputTokens"@) == Some(us.output_tokens)
            &&& sp_opt_u64(u, "cacheCreationInputTokens"@) == Some(us.cache_creation_input_tokens)
            &&& sp_opt_u64(u, "cacheReadInputTokens"@) == Some(us.cache_read_input_tokens)
        },
    }
}

pub open spec fn asst_msg_ok(mv: SpecJson) -> bool {
    &&& sp_req_str(mv, "role"@) is Some
    &&& sp_opt_str(mv, "model"@) is Some
    &&& sp_opt_str(mv, "id"@) is Some
    &&& sp_get(mv, "content"@) matches Some(SpecJson::Arr(es)) && (forall|k: int|
        0 <= k < es.len() ==> block_ok(es[k]))
    &&& sp_opt_str(mv, "stopReason"@) is Some
    &&& usage_ok(mv)
}

pub open spec fn asst_msg_matches(m: AssistantMessage, mv: SpecJson) -> bool {
    &&& sp_req_str(mv, "role"@) == Some(m.role@)
    &&& sp_opt_str(mv, "model"@) == Some(opt_str_view(m.model))
    &&& sp_opt_str(mv, "id"@) == Some(opt_str_view(m.id))
    &&& sp_get(mv, "content"@) matches Some(SpecJson::Arr(es)) && blocks_match(m.content@, es)
    &&& sp_opt_str(mv, "stopReason"@) == Some(opt_str_view(m.stop_reason))
    &&& usage_matches(m.usage, mv)
}

pub open spec fn assistant_ok(v: SpecJson) -> bool {
    &&& common_ok(v)
    &&& sp_get(v, "message"@) matches Some(mv) && asst_msg_ok(mv)
    &&& sp_opt_str(v, "requestId"@) is Some
}

pub open spec fn assistant_matches(a: AssistantEvent, v: SpecJson) -> bool {
    &&& common_matches(a.common, v)
    &&& sp_get(v, "message"@) matches Some(mv) && asst_msg_matches(a.message, mv)
    &&& sp_opt_str(v, "requestId"@) == Some(opt_str_view(a.request_id))
}

pub open spec fn progress_ok(v: SpecJson) -> bool {
    &&& common_ok(v)
    &&& sp_get(v, "data"@) is Some
    &&& sp_opt_str(v, "toolUseId"@) is Some
    &&& sp_opt_str(v, "parentToolUseId"@) is Some
}

pub open spec fn progress_matches(p: ProgressEvent, v: SpecJson) -> bool {
    &&& common_matches(p.common, v)
    &&& sp_get(v, "data"@) == Some(p.data@)
    &&& sp_opt_str(v, "toolUseId"@) == Some(opt_str_view(p.tool_use_id))
    &&& sp_opt_str(v, "parentToolUseId"@) == Some(opt_str_view(p.parent_tool_use_id))
}

pub open spec fn system_ok(v: SpecJson) -> bool {
    &&& sp_req_str(v, "uuid"@) is Some
    &&& sp_opt_str(v, "parentUuid"@) is Some
    &&& sp_req_str(v, "sessionId"@) is Some
    &&& sp_req_ts(v, "timestamp"@) is Some
    &&& sp_opt_str(v, "subtype"@) is Some
    &&& sp_opt_u64(v, "durationMs"@) is Some
    &&& sp_opt_bool(v, "isMeta"@) is Some
}

pub open spec fn system_matches(s: SystemEvent, v: SpecJson) -> bool {
    &&& sp_req_str(v, "uuid"@) == Some(s.uuid@)
    &&& sp_opt_str(v, "parentUuid"@) == Some(opt_str_view(s.parent_uuid))
    &&& sp_req_str(v, "sessionId"@) == Some(s.session_id@)
    &&& sp_req_ts(v, "timestamp"@) == Some((s.timestamp.raw@, s.timestamp.millis))
    &&& sp_opt_str(v, "subtype"@) == Some(opt_str_view(s.subtype))
    &&& sp_opt_u64(v, "durationMs"@) == Some(s.duration_ms)
    &&& sp_opt_bool(v, "isMeta"@) == Some(s.is_meta)
}

pub open spec fn fhs_ok(v: SpecJson) -> bool {
    &&& sp_req_str(v, "messageId"@) is Some
    &&& sp_get(v, "snapshot"@) is Some
    &&& sp_opt_bool(v, "isSnapshotUpdate"@) is Some
}

pub open spec fn fhs_matches(f: FileHistorySnapshotEvent, v: SpecJson) -> bool {
    &&& sp_req_str(v, "messageId"@) == Some(f.message_id@)
    &&& sp_get(v, "snapshot"@) == Some(f.snapshot@)
    &&& sp_opt_bool(v, "isSnapshotUpdate"@) == Some(f.is_snapshot_update)
}

pub open spec fn queue_ok(v: SpecJson) -> bool {
    &&& sp_req_str(v, "operation"@) is Some
    &&& sp_req_str(v, "sessionId"@) is Some
    &&& sp_opt_ts(v, "timestamp"@) is Some
    &&& sp_opt_str(v, "content"@) is Some
}

pub open spec fn opt_ts_view(o: Option<Timestamp>) -> Option<(Seq<char>, i64)> {
    match o {
        Some(t) => Some((t.raw@, t.millis)),
        None => None,
    }
}

pub open spec fn queue_matches(q: QueueOperationEvent, v: SpecJson) -> bool {
    &&& sp_req_str(v, "operation"@) == Some(q.operation@)
    &&& sp_req_str(v, "sessionId"@) == Some(q.session_id@)
    &&& sp_opt_ts(v, "timestamp"@) == Some(opt_ts_view(q.timestamp))
    &&& sp_opt_str(v, "content"@) == Some(opt_str_view(q.content))
}

/// The `type` tag of a line.
pub open spec fn sp_tag(v: SpecJson) -> Option<Seq<char>> {
    sp_req_str(v, "type"@)
}

/// The tag names one of the six event kinds.
pub open spec fn known_tag(t: Seq<char>) -> bool {
    ||| t == "user"@
    ||| t == "assistant"@
    ||| t == "progress"@
    ||| t == "system"@
    ||| t == "file-history-snapshot"@
    ||| t == "queue-operation"@
}

/// The line has the shape that its tag demands.
pub open spec fn shape_ok(t: Seq<char>, v: SpecJson) -> bool {
    if t == "user"@ {
        user_ok(v)
    } else if t == "assistant"@ {
        assistant_ok(v)
    } else if t == "progress"@ {
        progress_ok(v)
    } else if t == "system"@ {
        system_ok(v)
    } else if t == "file-history-snapshot"@ {
        fhs_ok(v)
    } else if t == "queue-operation"@ {
        queue_ok(v)
    } else {
        false
    }
}

/// Why decoding the line `v` fails, or `None` when it succeeds.
pub open spec fn sp_decode_err(v: SpecJson) -> Option<DecodeError> {
    match sp_tag(v) {
        None => Some(DecodeError::MissingType),
        Some(t) => if !known_tag(t) {
            Some(DecodeError::UnknownType)
        } else if !shape_ok(t, v) {
            Some(DecodeError::BadShape)
        } else {
            None
        },
    }
}

/// The decoded event is the chosen variant and holds exactly the fields of
/// the line `v`.
pub open spec fn event_matches(ev: Event, v: SpecJson) -> bool {
    match ev {
        Event::User(u) => sp_tag(v) == Some("user"@) && user_matches(u, v),
        Event::Assistant(a) => sp_tag(v) == Some("assistant"@) && assistant_matches(a, v),
        Event::Progress(p) => sp_tag(v) == Some("progress"@) && progress_matches(p, v),
        Event::System(s) => sp_tag(v) == Some("system"@) && system_matches(s, v),
        Event::FileHistorySnapshot(f) => sp_tag(v) == Some("file-history-snapshot"@)
            && fhs_matches(f, v),
        Event::QueueOperation(q) => sp_tag(v) == Some("queue-operation"@) && queue_matches(q, v),
    }
}

// ---------------------------------------------------------------------------
// Decoding
// ---------------------------------------------------------------------------

fn decode_common(j: &Json) -> (r: Option<CommonFields>)
    ensures
        match r {
            Some(c) => common_matches(c, j@) && common_ok(j@),
            None => !common_ok(j@),
        },
{
    let uuid = match field_str(j, "uuid") {
        Some(x) => x,
        None => {
            return None;
        },
    };
    let parent_uuid = match field_opt_str(j, "parentUuid") {
        Some(x) => x,
        None => {
            return None;
        },
    };
    let session_id = match field_str(j, "sessionId") {
        Some(x) => x,
        None => {
            return None;
        },
    };
    let timestamp = match field_ts(j, "timestamp") {
        Some(x) => x,
        None => {
            return None;
        },
    };
    let version = match field_opt_str(j, "version") {
        Some(x) => x,
        None => {
            return None;
        },
    };
    let cwd = match field_opt_str(j, "cwd") {
        Some(x) => x,
        None => {
            return None;
        },
    };
    let git_branch = match field_opt_str(j, "gitBranch") {
        Some(x) => x,
        None => {
            return None;
        },
    };
    let is_sidechain = match field_opt_bool(j, "isSidechain") {
        Some(x) => x,
        None => {
            return None;
        },
    };
    let user_type = match field_opt_str(j, "userType") {
        Some(x) => x,
        None => {
            return None;
        },
    };
    let slug = match field_opt_str(j, "slug") {
        Some(x) => x,
        None => {
            return None;
        },
    };
    Some(
        CommonFields {
            uuid,
            parent_uuid,
            session_id,
            timestamp,
            version,
            cwd,
            git_branch,
            is_sidechain,
            user_type,
            slug,
        },
    )
}

fn decode_user(j: &Json) -> (r: Option<UserEvent>)
    ensures
        match r {
            Some(u) => user_matches(u, j@) && user_ok(j@),
            None => !user_ok(j@),
        },
{
    let common = match decode_common(j) {
        Some(c) => c,
        None => {
            return None;
        },
    };
    let mv = match j.get_field("message") {
        Some(m) => m,
        None => {
            return None;
        },
    };
    let role = match field_str(mv, "role") {
        Some(x) => x,
        None => {
            return None;
        },
    };
    let content = match field_any(mv, "content") {
        Some(x) => x,
        None => {
            return None;
        },
    };
    let tool_use_result = field_opt_any(j, "toolUseResult");
    let source_tool_assistant_uuid = match field_opt_str(j, "sourceToolAssistantUuid") {
        Some(x) => x,
        None => {
            return None;
        },
    };
    let permission_mode = match field_opt_str(j, "permissionMode") {
        Some(x) => x,
        None => {
            return None;
        },
    };
    Some(
        UserEvent {
            common,
            message: UserMessage { role, content },
            tool_use_result,
            source_tool_assistant_uuid,
            permission_mode,
        },
    )
}

fn decode_block(e: &Json) -> (r: Option<ContentBlock>)
    ensures
        match r {
            Some(b) => block_matches(b, e@) && block_ok(e@),
            None => !block_ok(e@),
        },
{
    let tag = match field_str(e, "type") {
        Some(t) => t,
        None => {
            return None;
        },
    };
    if crate::text::str_eq(tag.as_str(), "thinking") {
        let thinking = match field_str(e, "thinking") {
            Some(x) => x,
            None => {
                return None;
            },
        };
        Some(ContentBlock::Thinking(ThinkingBlock { thinking }))
    } else if crate::text::str_eq(tag.as_str(), "text") {
        let text = match field_str(e, "text") {
            Some(x) => x,
            None => {
                return None;
            },
        };
        Some(ContentBlock::Text(TextBlock { text }))
    } else if crate::text::str_eq(tag.as_str(), "tool_use") {
        let id = match field_str(e, "id") {
            Some(x) => x,
            None => {
                return None;
            },
        };
        let name = match field_str(e, "name") {
            Some(x) => x,
            None => {
                return None;
            },
        };
        let input = match field_any(e, "input") {
            Some(x) => x,
            None => {
                return None;
            },
        };
        Some(ContentBlock::ToolUse(ToolUseBlock { id, name, input }))
    } else if crate::text::str_eq(tag.as_str(), "tool_result") {
        let tool_use_id = match field_str(e, "tool_use_id") {
            Some(x) => x,
            None => {
                return None;
            },
        };
        let content = match field_any(e, "content") {
            Some(x) => x,
            None => {
                return None;
            },
        };
        Some(ContentBlock::ToolResult(ToolResultContentBlock { tool_use_id, content }))
    } else {
        None
    }
}

fn decode_blocks(items: &Vec<Json>) -> (r: Option<Vec<ContentBlock>>)
    ensures
        match r {
            Some(bs) => blocks_match(bs@, arr_view(items@)) && (forall|k: int|
                0 <= k < arr_view(items@).len() ==> block_ok(arr_view(items@)[k])),
            None => !(forall|k: int|
                0 <= k < arr_view(items@).len() ==> block_ok(arr_view(items@)[k])),
        },
{
    proof {
        crate::json::lemma_arr_view(items@);
    }
    let n = items.len();
    let mut out: Vec<ContentBlock> = Vec::new();
    let mut k: usize = 0;
    while k < n
        invariant
            n == items@.len(),
            arr_view(items@).len() == n,
            forall|m: int| 0 <= m < n ==> arr_view(items@)[m] == items@[m]@,
            k <= n,
            out@.len() == k,
            forall|m: int| 0 <= m < k ==> block_matches(out@[m], arr_view(items@)[m]),
            forall|m: int| 0 <= m < k ==> block_ok(arr_view(items@)[m]),
        decreases n - k,
    {
        match decode_block(&items[k]) {
            Some(b) => {
                out.push(b);
            },
            None => {
                assert(!block_ok(arr_view(items@)[k as int]));
                return None;
            },
        }
        k += 1;
    }
    Some(out)
}

fn decode_usage(mv: &Json) -> (r: Option<Option<Usage>>)
    ensures
        match r {
            Some(o) => usage_matches(o, mv@) && usage_ok(mv@),
            None => !usage_ok(mv@),
        },
{
    match mv.get_field("usage") {
        None => Some(None),
        Some(u) => match u {
            Json::Null => Some(None),
            Json::Obj(_) => {
                let input_tokens = match field_opt_u64(u, "inputTokens") {
                    Some(x) => x,
                    None => {
                        return None;
                    },
                };
                let output_tokens = match field_opt_u64(u, "outputTokens") {
                    Some(x) => x,
                    None => {
                        return None;
                    },
                };
                let cache_creation_input_tokens = match field_opt_u64(
                    u,
                    "cacheCreationInputTokens",
                ) {
                    Some(x) => x,
                    None => {
                        return None;
                    },
                };
                let cache_read_input_tokens = match field_opt_u64(u, "cacheReadInputTokens") {
                    Some(x) => x,
                    None => {
                        return None;
                    },
                };
                Some(
                    Some(
                        Usage {
                            input_tokens,
                            output_tokens,
                            cache_creation_input_tokens,
                            cache_read_input_tokens,
                        },
                    ),
                )
            },
            _ => None,
        },
    }
}

fn decode_assistant(j: &Json) -> (r: Option<AssistantEvent>)
    ensures
        match r {
            Some(a) => assistant_matches(a, j@) && assistant_ok(j@),
            None => !assistant_ok(j@),
        },
{
    let common = match decode_common(j) {
        Some(c) => c,
        None => {
            return None;
        },
    };
    let mv = match j.get_field("message") {
        Some(m) => m,
        None => {
            return None;
        },
    };
    let role = match field_str(mv, "role") {
        Some(x) => x,
        None => {
            return None;
        },
    };
    let model = match field_opt_str(mv, "model") {
        Some(x) => x,
        None => {
            return None;
        },
    };
    let id = match field_opt_str(mv, "id") {
        Some(x) => x,
        None => {
            return None;
        },
    };
    let content = match mv.get_field("content") {
        Some(f) => match f {
            Json::Arr(items) => match decode_blocks(items) {
                Some(bs) => bs,
                None => {
                    proof {
                        assert(f@ == SpecJson::Arr(arr_view(items@)));
                        let es0 = arr_view(items@);
                        let k0 = choose|k: int|
                            !(0 <= k < es0.len() ==> block_ok(es0[k]));
                        assert(0 <= k0 < es0.len() && !block_ok(es0[k0]));
                        assert(!asst_msg_ok(mv@)) by {
                            if asst_msg_ok(mv@) {
                                assert(sp_get(mv@, "content"@) matches Some(
                                    SpecJson::Arr(es),
                                ) && block_ok(es[k0]));
                            }
                        }
                    }
                    return None;
                },
            },
            _ => {
                return None;
            },
        },
        None => {
            return None;
        },
    };
    let stop_reason = match field_opt_str(mv, "stopReason") {
        Some(x) => x,
        None => {
            return None;
        },
    };
    let usage = match decode_usage(mv) {
        Some(x) => x,
        None => {
            return None;
        },
    };
    let request_id = match field_opt_str(j, "requestId") {
        Some(x) => x,
        None => {
            return None;
        },
    };
    Some(
        AssistantEvent {
            common,
            message: AssistantMessage { role, model, id, content, stop_reason, usage },
            request_id,
        },
    )
}

fn decode_progress(j: &Json) -> (r: Option<ProgressEvent>)
    ensures
        match r {
            Some(p) => progress_matches(p, j@) && progress_ok(j@),
            None => !progress_ok(j@),
        },
{
    let common = match decode_common(j) {
        Some(c) => c,
        None => {
            return None;
        },
    };
    let data = match field_any(j, "data") {
        Some(x) => x,
        None => {
            return None;
        },
    };
    let tool_use_id = match field_opt_str(j, "toolUseId") {
        Some(x) => x,
        None => {
            return None;
        },
    };
    let parent_tool_use_id = match field_opt_str(j, "parentToolUseId") {
        Some(x) => x,
        None => {
            return None;
        },
    };
    Some(ProgressEvent { common, data, tool_use_id, parent_tool_use_id })
}

fn decode_system(j: &Json) -> (r: Option<SystemEvent>)
    ensures
        match r {
            Some(s) => system_matches(s, j@) && system_ok(j@),
            None => !system_ok(j@),
        },
{
    let uuid = match field_str(j, "uuid") {
        Some(x) => x,
        None => {
            return None;
        },
    };
    let parent_uuid = match field_opt_str(j, "parentUuid") {
        Some(x) => x,
        None => {
            return None;
        },
    };
    let session_id = match field_str(j, "sessionId") {
        Some(x) => x,
        None => {
            return None;
        },
    };
    let timestamp = match field_ts(j, "timestamp") {
        Some(x) => x,
        None => {
            return None;
        },
    };
    let subtype = match field_opt_str(j, "subtype") {
        Some(x) => x,
        None => {
            return None;
        },
    };
    let duration_ms = match field_opt_u64(j, "durationMs") {
        Some(x) => x,
        None => {
            return None;
        },
    };
    let is_meta = match field_opt_bool(j, "isMeta") {
        Some(x) => x,
        None => {
            return None;
        },
    };
    Some(SystemEvent { uuid, parent_uuid, session_id, timestamp, subtype, duration_ms, is_meta })
}

fn decode_fhs(j: &Json) -> (r: Option<FileHistorySnapshotEvent>)
    ensures
        match r {
            Some(f) => fhs_matches(f, j@) && fhs_ok(j@),
            None => !fhs_ok(j@),
        },
{
    let message_id = match field_str(j, "messageId") {
        Some(x) => x,
        None => {
            return None;
        },
    };
    let snapshot = match field_any(j, "snapshot") {
        Some(x) => x,
        None => {
            return None;
        },
    };
    let is_snapshot_update = match field_opt_bool(j, "isSnapshotUpdate") {
        Some(x) => x,
        None => {
            return None;
        },
    };
    Some(FileHistorySnapshotEvent { message_id, snapshot, is_snapshot_update })
}

fn decode_queue(j: &Json) -> (r: Option<QueueOperationEvent>)
    ensures
        match r {
            Some(q) => queue_matches(q, j@) && queue_ok(j@),
            None => !queue_ok(j@),
        },
{
    let operation = match field_str(j, "operation") {
        Some(x) => x,
        None => {
            return None;
        },
    };
    let session_id = match field_str(j, "sessionId") {
        Some(x) => x,
        None => {
            return None;
        },
    };
    let timestamp = match field_opt_ts(j, "timestamp") {
        Some(x) => x,
        None => {
            return None;
        },
    };
    let content = match field_opt_str(j, "content") {
        Some(x) => x,
        None => {
            return None;
        },
    };
    Some(QueueOperationEvent { operation, session_id, timestamp, content })
}

/// Decode one parsed line into the event variant chosen by its `type` tag.
pub fn decode_event(j: &Json) -> (r: Result<Event, DecodeError>)
    ensures
        match r {
            Ok(ev) => sp_decode_err(j@) is None && event_matches(ev, j@),
            Err(e) => sp_decode_err(j@) == Some(e),
        },
{
    let tag = match field_str(j, "type") {
        Some(t) => t,
        None => {
            return Err(DecodeError::MissingType);
        },
    };
    if crate::text::str_eq(tag.as_str(), "user") {
        match decode_user(j) {
            Some(u) => Ok(Event::User(u)),
            None => Err(DecodeError::BadShape),
        }
    } else if crate::text::str_eq(tag.as_str(), "assistant") {
        match decode_assistant(j) {
            Some(a) => Ok(Event::Assistant(a)),
            None => Err(DecodeError::BadShape),
        }
    } else if crate::text::str_eq(tag.as_str(), "progress") {
        match decode_progress(j) {
            Some(p) => Ok(Event::Progress(p)),
            None => Err(DecodeError::BadShape),
        }
    } else if crate::text::str_eq(tag.as_str(), "system") {
        match decode_system(j) {
            Some(s) => Ok(Event::System(s)),
            None => Err(DecodeError::BadShape),
        }
    } else if crate::text::str_eq(tag.as_str(), "file-history-snapshot") {
        match decode_fhs(j) {
            Some(f) => Ok(Event::FileHistorySnapshot(f)),
            None => Err(DecodeError::BadShape),
        }
    } else if crate::text::str_eq(tag.as_str(), "queue-operation") {
        match decode_queue(j) {
            Some(q) => Ok(Event::QueueOperation(q)),
            None => Err(DecodeError::BadShape),
        }
    } else {
        Err(DecodeError::UnknownType)
    }
}

// ---------------------------------------------------------------------------
// Accessors
// ---------------------------------------------------------------------------

/// The timestamp of an event, for the variants that carry one.
pub open spec fn spec_timestamp(ev: Event) -> Option<Timestamp> {
    match ev {
        Event::User(e) => Some(e.common.timestamp),
        Event::Assistant(e) => Some(e.common.timestamp),
        Event::Progress(e) => Some(e.common.timestamp),
        Event::System(e) => Some(e.timestamp),
        Event::FileHistorySnapshot(_) => None,
        Event::QueueOperation(e) => e.timestamp,
    }
}

/// The session identifier of an event, for the variants that carry one.
pub open spec fn spec_session_id(ev: Event) -> Option<Seq<char>> {
    match ev {
        Event::User(e) => Some(e.common.session_id@),
        Event::Assistant(e) => Some(e.common.session_id@),
        Event::Progress(e) => Some(e.common.session_id@),
        Event::System(e) => Some(e.session_id@),
        Event::FileHistorySnapshot(_) => None,
        Event::QueueOperation(e) => Some(e.session_id@),
    }
}

impl Event {
    /// The event's timestamp; absent for variants that lack the field.
    pub fn timestamp(&self) -> (r: Option<&Timestamp>)
        ensures
            match r {
                Some(t) => spec_timestamp(*self) == Some(*t),
                None => spec_timestamp(*self) is None,
            },
    {
        match self {
            Event::User(e) => Some(&e.common.timestamp),
            Event::Assistant(e) => Some(&e.common.timestamp),
            Event::Progress(e) => Some(&e.common.timestamp),
            Event::System(e) => Some(&e.timestamp),
            Event::FileHistorySnapshot(_) => None,
            Event::QueueOperation(e) => e.timestamp.as_ref(),
        }
    }

    /// The event's session identifier; absent for variants that lack it.
    pub fn session_id(&self) -> (r: Option<&String>)
        ensures
            match r {
                Some(s) => spec_session_id(*self) == Some(s@),
                None => spec_session_id(*self) is None,
            },
    {
        match self {
            Event::User(e) => Some(&e.common.session_id),
            Event::Assistant(e) => Some(&e.common.session_id),
            Event::Progress(e) => Some(&e.common.session_id),
            Event::System(e) => Some(&e.session_id),
            Event::FileHistorySnapshot(_) => None,
            Event::QueueOperation(e) => Some(&e.session_id),
        }
    }
}

/// Law: decoding reads the core identity fields exactly, so re-encoding
/// them reproduces the original field values of the line. For any line `v`
/// and decoded event `ev`: the session identifier and timestamp text that
/// the event reports are letter for letter the strings stored in the line,
/// and the timestamp text still reads as the same instant; the event's own
/// identifier equals the line's `uuid` (or `messageId`) field.
pub proof fn lemma_core_fields_round_trip(ev: Event, v: SpecJson)
    requires
        event_matches(ev, v),
    ensures
        spec_session_id(ev) matches Some(sid) ==> sp_req_str(v, "sessionId"@) == Some(sid),
        spec_timestamp(ev) matches Some(t) ==> sp_req_str(v, "timestamp"@) == Some(t.raw@) && ts_of(
            t.raw@,
        ) == Some(t.millis),
        match ev {
            Event::User(u) => sp_req_str(v, "uuid"@) == Some(u.common.uuid@),
            Event::Assistant(a) => sp_req_str(v, "uuid"@) == Some(a.common.uuid@),
            Event::Progress(p) => sp_req_str(v, "uuid"@) == Some(p.common.uuid@),
            Event::System(s) => sp_req_str(v, "uuid"@) == Some(s.uuid@),
            Event::FileHistorySnapshot(f) => sp_req_str(v, "messageId"@) == Some(f.message_id@),
            Event::QueueOperation(q) => sp_req_str(v, "operation"@) == Some(q.operation@),
        },
{
}

/// One tool-result block of a user content array has the right shape.
pub open spec fn trb_ok(e: SpecJson) -> bool {
    &&& sp_req_str(e, "type"@) is Some
    &&& sp_req_str(e, "toolUseId"@) is Some
    &&& sp_get(e, "content"@) is Some
    &&& sp_opt_bool(e, "isError"@) is Some
}

/// `b` holds exactly the fields of the user tool-result block `e`.
pub open spec fn trb_matches(b: ToolResultBlock, e: SpecJson) -> bool {
    &&& sp_req_str(e, "type"@) == Some(b.block_type@)
    &&& sp_req_str(e, "toolUseId"@) == Some(b.tool_use_id@)
    &&& sp_get(e, "content"@) == Some(b.content@)
    &&& sp_opt_bool(e, "isError"@) == Some(b.is_error)
}

fn decode_trb(e: &Json) -> (r: Option<ToolResultBlock>)
    ensures
        match r {
            Some(b) => trb_matches(b, e@) && trb_ok(e@),
            None => !trb_ok(e@),
        },
{
    let block_type = match field_str(e, "type") {
        Some(x) => x,
        None => {
            return None;
        },
    };
    let tool_use_id = match field_str(e, "toolUseId") {
        Some(x) => x,
        None => {
            return None;
        },
    };
    let content = match field_any(e, "content") {
        Some(x) => x,
        None => {
            return None;
        },
    };
    let is_error = match field_opt_bool(e, "isError") {
        Some(x) => x,
        None => {
            return None;
        },
    };
    Some(ToolResultBlock { block_type, tool_use_id, content, is_error })
}

impl UserMessage {
    /// The plain text of a direct user message.
    pub fn text(&self) -> (r: Option<&String>)
        ensures
            match r {
                Some(s) => self.content@ == SpecJson::Str(s@),
                None => !(self.content@ matches SpecJson::Str(_)),
            },
    {
        match &self.content {
            Json::Str(s) => Some(s),
            _ => None,
        }
    }

    /// The tool-result blocks of a tool-result message: `Some` exactly when
    /// the content is an array whose every element is a well-shaped block.
    pub fn tool_results(&self) -> (r: Option<Vec<ToolResultBlock>>)
        ensures
            match r {
                Some(bs) => self.content@ matches SpecJson::Arr(es) && bs@.len() == es.len() && (
                forall|k: int| 0 <= k < es.len() ==> trb_matches(bs@[k], es[k])),
                None => !(self.content@ matches SpecJson::Arr(es) && (forall|k: int|
                    0 <= k < es.len() ==> trb_ok(es[k]))),
            },
    {
        match &self.content {
            Json::Arr(items) => {
                proof {
                    crate::json::lemma_arr_view(items@);
                }
                let n = items.len();
                let mut out: Vec<ToolResultBlock> = Vec::new();
                let mut k: usize = 0;
                while k < n
                    invariant
                        self.content@ matches SpecJson::Arr(es) && es == arr_view(items@),
                        n == items@.len(),
                        arr_view(items@).len() == n,
                        forall|m: int| 0 <= m < n ==> arr_view(items@)[m] == items@[m]@,
                        k <= n,
                        out@.len() == k,
                        forall|m: int| 0 <= m < k ==> trb_matches(out@[m], arr_view(items@)[m]),
                        forall|m: int| 0 <= m < k ==> trb_ok(arr_view(items@)[m]),
                    decreases n - k,
                {
                    match decode_trb(&items[k]) {
                        Some(b) => {
                            out.push(b);
                        },
                        None => {
                            assert(!trb_ok(arr_view(items@)[k as int]));
                            return None;
                        },
                    }
                    k += 1;
                }
                Some(out)
            },
            _ => None,
        }
    }
}

} // verus!
