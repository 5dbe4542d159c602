//! The method gateway.
//!
//! Every client text frame is parsed and routed: malformed frames get the
//! protocol's parse/invalid-request errors, frames without an id are
//! dropped as notifications, `bridge/`-prefixed methods go to the local
//! handler table, allow-listed methods are forwarded to the agent, and
//! everything else is refused.

use vstd::prelude::*;
use crate::json::JsonValue;
use crate::json::SpecJson;
use crate::json::str_eq;
use crate::json::clone_json;
use crate::json::spec_read_string;

verus! {

broadcast use vstd::std_specs::vec::group_vec_axioms;

/// A typed local failure: the taxonomy's code, a message, optional data.
#[derive(Debug)]
pub struct BridgeError {
    pub code: i64,
    pub message: String,
    pub data: Option<JsonValue>,
}

impl BridgeError {
    pub fn method_not_found(message: &str) -> (r: BridgeError)
        ensures
            r.code == -32601i64 && r.message@ == message@ && r.data is None,
    {
        BridgeError { code: -32601, message: message.to_owned(), data: None }
    }

    pub fn invalid_params(message: &str) -> (r: BridgeError)
        ensures
            r.code == -32602i64 && r.message@ == message@ && r.data is None,
    {
        BridgeError { code: -32602, message: message.to_owned(), data: None }
    }

    pub fn server(message: &str) -> (r: BridgeError)
        ensures
            r.code == -32000i64 && r.message@ == message@ && r.data is None,
    {
        BridgeError { code: -32000, message: message.to_owned(), data: None }
    }

    pub fn forbidden(error: &str, message: &str) -> (r: BridgeError)
        ensures
            r.code == -32003i64 && r.message@ == message@ && (r.data matches Some(d) && d@
                == SpecJson::Obj(seq![("error"@, SpecJson::Str(error@))])),
    {
        let data = crate::json::obj1("error", crate::json::jstr(error));
        BridgeError { code: -32003, message: message.to_owned(), data: Some(data) }
    }
}

/// The closed set of agent methods a client may have forwarded.
pub open spec fn spec_is_forwarded_method(m: Seq<char>) -> bool {
    ||| m == "account/login/cancel"@
    ||| m == "account/login/start"@
    ||| m == "account/logout"@
    ||| m == "account/rateLimits/read"@
    ||| m == "account/read"@
    ||| m == "app/list"@
    ||| m == "collaborationMode/list"@
    ||| m == "command/exec"@
    ||| m == "config/batchWrite"@
    ||| m == "config/mcpServer/reload"@
    ||| m == "config/read"@
    ||| m == "config/value/write"@
    ||| m == "configRequirements/read"@
    ||| m == "experimentalFeature/list"@
    ||| m == "feedback/upload"@
    ||| m == "fuzzyFileSearch/sessionStart"@
    ||| m == "fuzzyFileSearch/sessionStop"@
    ||| m == "fuzzyFileSearch/sessionUpdate"@
    ||| m == "mcpServer/oauth/login"@
    ||| m == "mcpServerStatus/list"@
    ||| m == "mock/experimentalMethod"@
    ||| m == "model/list"@
    ||| m == "review/start"@
    ||| m == "skills/config/write"@
    ||| m == "skills/list"@
    ||| m == "skills/remote/export"@
    ||| m == "skills/remote/list"@
    ||| m == "thread/archive"@
    ||| m == "thread/backgroundTerminals/clean"@
    ||| m == "thread/compact/start"@
    ||| m == "thread/fork"@
    ||| m == "thread/list"@
    ||| m == "thread/loaded/list"@
    ||| m == "thread/name/set"@
    ||| m == "thread/read"@
    ||| m == "thread/resume"@
    ||| m == "thread/rollback"@
    ||| m == "thread/start"@
    ||| m == "thread/unarchive"@
    ||| m == "turn/interrupt"@
    ||| m == "turn/start"@
    ||| m == "turn/steer"@
}

/// Whether a method is on the forwarded allow-list.
pub fn is_forwarded_method(method: &str) -> (r: bool)
    ensures
        r == spec_is_forwarded_method(method@),
{
    str_eq(method, "account/login/cancel") || str_eq(method, "account/login/start") || str_eq(
        method,
        "account/logout",
    ) || str_eq(method, "account/rateLimits/read") || str_eq(method, "account/read") || str_eq(
        method,
        "app/list",
    ) || str_eq(method, "collaborationMode/list") || str_eq(method, "command/exec") || str_eq(
        method,
        "config/batchWrite",
    ) || str_eq(method, "config/mcpServer/reload") || str_eq(method, "config/read") || str_eq(
        method,
        "config/value/write",
    ) || str_eq(method, "configRequirements/read") || str_eq(method, "experimentalFeature/list")
        || str_eq(method, "feedback/upload") || str_eq(method, "fuzzyFileSearch/sessionStart")
        || str_eq(method, "fuzzyFileSearch/sessionStop") || str_eq(
        method,
        "fuzzyFileSearch/sessionUpdate",
    ) || str_eq(method, "mcpServer/oauth/login") || str_eq(method, "mcpServerStatus/list")
        || str_eq(method, "mock/experimentalMethod") || str_eq(method, "model/list") || str_eq(
        method,
        "review/start",
    ) || str_eq(method, "skills/config/write") || str_eq(method, "skills/list") || str_eq(
        method,
        "skills/remote/export",
    ) || str_eq(method, "skills/remote/list") || str_eq(method, "thread/archive") || str_eq(
        method,
        "thread/backgroundTerminals/clean",
    ) || str_eq(method, "thread/compact/start") || str_eq(method, "thread/fork") || str_eq(
        method,
        "thread/list",
    ) || str_eq(method, "thread/loaded/list") || str_eq(method, "thread/name/set") || str_eq(
        method,
        "thread/read",
    ) || str_eq(method, "thread/resume") || str_eq(method, "thread/rollback") || str_eq(
        method,
        "thread/start",
    ) || str_eq(method, "thread/unarchive") || str_eq(method, "turn/interrupt") || str_eq(
        method,
        "turn/start",
    ) || str_eq(method, "turn/steer")
}

/// Where a parsed client text frame goes.
#[derive(Debug)]
pub enum ClientFrameAction {
    /// Unparseable text: reply `{id: null, error: {code: -32700}}`.
    ParseError,
    /// Parsed but not an object: reply `-32600` with a null id.
    InvalidPayload,
    /// No method: reply `-32600` under the frame's id (or null).
    MissingMethod(JsonValue),
    /// No id: a client notification, dropped.
    Notification,
    /// A `bridge/`-prefixed method for the local handler table.
    BridgeLocal(JsonValue, String, Option<JsonValue>),
    /// An allow-listed method to forward to the agent.
    Forward(JsonValue, String, Option<JsonValue>),
    /// Anything else: reply `-32601` under the frame's id.
    NotAllowed(JsonValue, String),
}

/// How a client text frame is classified.
pub open spec fn spec_classify_frame(text: Seq<char>) -> SpecFrameAction {
    match crate::json::spec_parse_json(text) {
        None => SpecFrameAction::ParseError,
        Some(v) => {
            if !v.is_obj() {
                SpecFrameAction::InvalidPayload
            } else {
                match spec_read_string(v.get("method"@)) {
                    None => SpecFrameAction::MissingMethod(
                        v.get("id"@).unwrap_or(SpecJson::Null),
                    ),
                    Some(m) => match v.get("id"@) {
                        None => SpecFrameAction::Notification,
                        Some(id) => {
                            let params = v.get("params"@);
                            if crate::text::spec_starts_with(m, "bridge/"@) {
                                SpecFrameAction::BridgeLocal(id, m, params)
                            } else if spec_is_forwarded_method(m) {
                                SpecFrameAction::Forward(id, m, params)
                            } else {
                                SpecFrameAction::NotAllowed(id, m)
                            }
                        },
                    },
                }
            }
        },
    }
}

/// Model of a classified frame.
pub enum SpecFrameAction {
    ParseError,
    InvalidPayload,
    MissingMethod(SpecJson),
    Notification,
    BridgeLocal(SpecJson, Seq<char>, Option<SpecJson>),
    Forward(SpecJson, Seq<char>, Option<SpecJson>),
    NotAllowed(SpecJson, Seq<char>),
}

pub open spec fn frame_action_view(a: ClientFrameAction) -> SpecFrameAction {
    match a {
        ClientFrameAction::ParseError => SpecFrameAction::ParseError,
        ClientFrameAction::InvalidPayload => SpecFrameAction::InvalidPayload,
        ClientFrameAction::MissingMethod(id) => SpecFrameAction::MissingMethod(id@),
        ClientFrameAction::Notification => SpecFrameAction::Notification,
        ClientFrameAction::BridgeLocal(id, m, p) => SpecFrameAction::BridgeLocal(
            id@,
            m@,
            match p {
                Some(p) => Some(p@),
                None => None,
            },
        ),
        ClientFrameAction::Forward(id, m, p) => SpecFrameAction::Forward(
            id@,
            m@,
            match p {
                Some(p) => Some(p@),
                None => None,
            },
        ),
        ClientFrameAction::NotAllowed(id, m) => SpecFrameAction::NotAllowed(id@, m@),
    }
}

/// Classifies one client text frame.
pub fn classify_client_text(text: &str) -> (r: ClientFrameAction)
    ensures
        frame_action_view(r) == spec_classify_frame(text@),
{
    let parsed = match crate::json::parse_json(text) {
        Some(parsed) => parsed,
        None => {
            return ClientFrameAction::ParseError;
        },
    };
    if !parsed.is_obj() {
        return ClientFrameAction::InvalidPayload;
    }
    let method = match crate::json::read_string(parsed.get("method")) {
        Some(m) => m,
        None => {
            let id = match parsed.get("id") {
                Some(id) => clone_json(id),
                None => JsonValue::Null,
            };
            return ClientFrameAction::MissingMethod(id);
        },
    };
    let id = match parsed.get("id") {
        Some(id) => clone_json(id),
        None => {
            return ClientFrameAction::Notification;
        },
    };
    let params = match parsed.get("params") {
        Some(p) => Some(clone_json(p)),
        None => None,
    };
    if crate::text::starts_with(method.as_str(), "bridge/") {
        return ClientFrameAction::BridgeLocal(id, method, params);
    }
    if is_forwarded_method(method.as_str()) {
        return ClientFrameAction::Forward(id, method, params);
    }
    ClientFrameAction::NotAllowed(id, method)
}

/// The replay limit, defaulted and clamped into the allowed window.
pub fn clamp_replay_limit(limit: Option<usize>) -> (r: usize)
    ensures
        r == ({
            let raw = limit.unwrap_or(crate::limits::NOTIFICATION_REPLAY_DEFAULT_LIMIT as usize);
            if raw < 1 {
                1usize
            } else if raw > crate::limits::NOTIFICATION_REPLAY_MAX_LIMIT {
                crate::limits::NOTIFICATION_REPLAY_MAX_LIMIT as usize
            } else {
                raw
            }
        }),
{
    let raw = match limit {
        Some(l) => l,
        None => crate::limits::NOTIFICATION_REPLAY_DEFAULT_LIMIT,
    };
    if raw < 1 {
        1
    } else if raw > crate::limits::NOTIFICATION_REPLAY_MAX_LIMIT {
        crate::limits::NOTIFICATION_REPLAY_MAX_LIMIT
    } else {
        raw
    }
}

/// A non-negative JSON integer that fits in `usize`.
pub open spec fn spec_read_usize(v: Option<SpecJson>) -> Option<Option<usize>> {
    match v {
        None => Some(None),
        Some(SpecJson::Null) => Some(None),
        Some(SpecJson::Int(i)) => if 0 <= i <= usize::MAX {
            Some(Some(i as usize))
        } else {
            None
        },
        Some(SpecJson::UInt(u)) => if u <= usize::MAX {
            Some(Some(u as usize))
        } else {
            None
        },
        _ => None,
    }
}

/// Reads an optional non-negative integer field; the outer `None` means
/// the value is present but not such an integer.
pub fn read_opt_usize(v: Option<&JsonValue>) -> (r: Option<Option<usize>>)
    ensures
        r == spec_read_usize(crate::json::spec_of_opt_value(v)),
{
    match v {
        None => Some(None),
        Some(JsonValue::Null) => Some(None),
        Some(JsonValue::Int(i)) => {
            if *i >= 0 && (*i as u64) <= (usize::MAX as u64) {
                Some(Some(*i as usize))
            } else {
                None
            }
        },
        Some(JsonValue::UInt(u)) => {
            if *u <= (usize::MAX as u64) {
                Some(Some(*u as usize))
            } else {
                None
            }
        },
        _ => None,
    }
}

/// A non-negative JSON integer that fits in `u64`.
pub open spec fn spec_read_opt_u64(v: Option<SpecJson>) -> Option<Option<u64>> {
    match v {
        None => Some(None),
        Some(SpecJson::Null) => Some(None),
        Some(SpecJson::Int(i)) => if i >= 0 {
            Some(Some(i as u64))
        } else {
            None
        },
        Some(SpecJson::UInt(u)) => Some(Some(u)),
        _ => None,
    }
}

/// Reads an optional `u64` field; the outer `None` means the value is
/// present but not such an integer.
pub fn read_opt_u64(v: Option<&JsonValue>) -> (r: Option<Option<u64>>)
    ensures
        r == spec_read_opt_u64(crate::json::spec_of_opt_value(v)),
{
    match v {
        None => Some(None),
        Some(JsonValue::Null) => Some(None),
        Some(JsonValue::Int(i)) => {
            if *i >= 0 {
                Some(Some(*i as u64))
            } else {
                None
            }
        },
        Some(JsonValue::UInt(u)) => Some(Some(*u)),
        _ => None,
    }
}

/// A replay query: `{afterEventId?, limit?}`.
pub struct EventReplayRequest {
    pub after_event_id: Option<u64>,
    pub limit: Option<usize>,
}

/// Reads a replay query; absent params mean an empty query.
pub fn parse_event_replay_request(params: Option<&JsonValue>) -> (r: Result<
    EventReplayRequest,
    BridgeError,
>)
    ensures
        ({
            let p = crate::json::spec_of_opt_value(params);
            let after = spec_read_opt_u64(crate::bridge::spec_param_get(p, "afterEventId"@));
            let limit = spec_read_usize(crate::bridge::spec_param_get(p, "limit"@));
            match r {
                Ok(req) => after == Some(req.after_event_id) && limit == Some(req.limit),
                Err(e) => (after is None || limit is None) && e.code == -32602i64,
            }
        }),
{
    let after_field = match params {
        Some(p) => p.get("afterEventId"),
        None => None,
    };
    let limit_field = match params {
        Some(p) => p.get("limit"),
        None => None,
    };
    let after_event_id = match read_opt_u64(after_field) {
        Some(v) => v,
        None => {
            return Err(BridgeError::invalid_params("afterEventId must be a non-negative integer"));
        },
    };
    let limit = match read_opt_usize(limit_field) {
        Some(v) => v,
        None => {
            return Err(BridgeError::invalid_params("limit must be a non-negative integer"));
        },
    };
    Ok(EventReplayRequest { after_event_id, limit })
}

/// A required string field.
pub fn require_string_field(params: Option<&JsonValue>, key: &str) -> (r: Result<
    String,
    BridgeError,
>)
    ensures
        ({
            let p = crate::json::spec_of_opt_value(params);
            match r {
                Ok(s) => crate::bridge::spec_param_str(p, key@) == Some(s@),
                Err(e) => crate::bridge::spec_param_str(p, key@) is None && e.code == -32602i64,
            }
        }),
{
    let field = match params {
        Some(p) => p.get(key),
        None => None,
    };
    match crate::json::read_string(field) {
        Some(s) => Ok(s),
        None => Err(BridgeError::invalid_params("missing or invalid string field")),
    }
}

/// The `answers` map of a user-input resolution: an object whose every
/// value is an object holding a strict string array under `answers`.
pub open spec fn spec_parse_answers(v: Option<SpecJson>) -> Option<
    Seq<(Seq<char>, Seq<Seq<char>>)>,
>
    decreases 1int,
{
    match v {
        Some(SpecJson::Obj(fields)) => spec_parse_answer_fields(fields),
        _ => None,
    }
}

pub open spec fn spec_parse_answer_fields(fields: Seq<(Seq<char>, SpecJson)>) -> Option<
    Seq<(Seq<char>, Seq<Seq<char>>)>,
>
    decreases fields.len(),
{
    if fields.len() == 0 {
        Some(Seq::empty())
    } else {
        match spec_parse_answer_fields(fields.drop_last()) {
            None => None,
            Some(rest) => {
                let last = fields.last();
                match crate::approval::spec_parse_string_array_strict(
                    last.1.get("answers"@),
                ) {
                    Some(answers) => if last.1.is_obj() {
                        Some(rest.push((last.0, answers)))
                    } else {
                        None
                    },
                    None => None,
                }
            },
        }
    }
}

/// A failing entry anywhere fails the whole answers map.
proof fn lemma_answer_fields_fail(fields: Seq<(Seq<char>, SpecJson)>, i: int)
    requires
        0 <= i < fields.len(),
        crate::approval::spec_parse_string_array_strict(fields[i].1.get("answers"@)) is None
            || !fields[i].1.is_obj(),
    ensures
        spec_parse_answer_fields(fields) is None,
    decreases fields.len(),
{
    if i < fields.len() - 1 {
        lemma_answer_fields_fail(fields.drop_last(), i);
    }
}

/// Reads the `answers` parameter of a user-input resolution.
#[verifier::loop_isolation(false)]
pub fn parse_user_input_answers(v: Option<&JsonValue>) -> (r: Option<Vec<(String, Vec<String>)>>)
    ensures
        match r {
            Some(answers) => spec_parse_answers(crate::json::spec_of_opt_value(v)) == Some(
                crate::userinput::answers_view(answers@),
            ),
            None => spec_parse_answers(crate::json::spec_of_opt_value(v)) is None,
        },
{
    let fields = match v {
        Some(value) => match value.as_obj() {
            Some(fields) => fields,
            None => {
                return None;
            },
        },
        None => {
            return None;
        },
    };
    proof {
        crate::json::lemma_json_fields_view(fields@);
    }
    let ghost view_fields = crate::json::json_fields_view(fields@);
    let mut out: Vec<(String, Vec<String>)> = Vec::new();
    proof {
        assert(view_fields.take(0) =~= Seq::<(Seq<char>, SpecJson)>::empty());
        assert(crate::userinput::answers_view(out@) =~= Seq::<
            (Seq<char>, Seq<Seq<char>>),
        >::empty());
    }
    let mut i: usize = 0;
    while i < fields.len()
        invariant
            0 <= i <= fields@.len(),
            view_fields == crate::json::json_fields_view(fields@),
            view_fields.len() == fields@.len(),
            forall|j: int|
                0 <= j < fields@.len() ==> view_fields[j] == (fields@[j].0@, fields@[j].1@),
            spec_parse_answer_fields(view_fields.take(i as int)) == Some(
                crate::userinput::answers_view(out@),
            ),
        decreases fields@.len() - i,
    {
        let ghost prefix = view_fields.take(i as int);
        proof {
            assert(view_fields.take(i + 1).drop_last() =~= prefix);
            assert(view_fields.take(i + 1).last() == view_fields[i as int]);
        }
        if !fields[i].1.is_obj() {
            proof {
                lemma_answer_fields_fail(view_fields, i as int);
            }
            return None;
        }
        let answers = match crate::approval::parse_string_array_strict(
            fields[i].1.get("answers"),
        ) {
            Some(answers) => answers,
            None => {
                proof {
                    lemma_answer_fields_fail(view_fields, i as int);
                }
                return None;
            },
        };
        let ghost before = crate::userinput::answers_view(out@);
        let key = fields[i].0.clone();
        out.push((key, answers));
        proof {
            assert(crate::userinput::answers_view(out@) =~= before.push(
                (view_fields[i as int].0, crate::userinput::answers_view(out@).last().1),
            ));
        }
        i += 1;
    }
    proof {
        assert(view_fields.take(fields@.len() as int) =~= view_fields);
    }
    Some(out)
}

/// The refusal reply a classified frame calls for, if any: the parse,
/// invalid-request and unknown-method codes of the taxonomy, under the
/// frame's id (null where none was readable). Frames that go somewhere
/// call for none.
pub open spec fn spec_frame_refusal(a: SpecFrameAction) -> Option<SpecJson> {
    match a {
        SpecFrameAction::ParseError => Some(
            crate::bridge::spec_server_error_reply(SpecJson::Null, -32700i64, "Parse error"@),
        ),
        SpecFrameAction::InvalidPayload => Some(
            crate::bridge::spec_server_error_reply(
                SpecJson::Null,
                -32600i64,
                "Invalid request payload"@,
            ),
        ),
        SpecFrameAction::MissingMethod(id) => Some(
            crate::bridge::spec_server_error_reply(id, -32600i64, "Missing method"@),
        ),
        SpecFrameAction::NotAllowed(id, m) => Some(
            crate::bridge::spec_server_error_reply(id, -32601i64, "Method not allowed: "@ + m),
        ),
        _ => None,
    }
}

/// Renders the refusal reply for a classified frame, if it calls for one.
pub fn frame_refusal_reply(action: &ClientFrameAction) -> (r: Option<JsonValue>)
    ensures
        match r {
            Some(reply) => spec_frame_refusal(frame_action_view(*action)) == Some(reply@),
            None => spec_frame_refusal(frame_action_view(*action)) is None,
        },
{
    match action {
        ClientFrameAction::ParseError => Some(
            crate::bridge::build_server_error_reply(&JsonValue::Null, -32700, "Parse error"),
        ),
        ClientFrameAction::InvalidPayload => Some(
            crate::bridge::build_server_error_reply(
                &JsonValue::Null,
                -32600,
                "Invalid request payload",
            ),
        ),
        ClientFrameAction::MissingMethod(id) => Some(
            crate::bridge::build_server_error_reply(id, -32600, "Missing method"),
        ),
        ClientFrameAction::NotAllowed(id, m) => {
            let message = crate::text::concat_str("Method not allowed: ", m.as_str());
            Some(crate::bridge::build_server_error_reply(id, -32601, message.as_str()))
        },
        _ => None,
    }
}

/// The bridge-local handler a `bridge/`-prefixed method names.
#[derive(Debug, PartialEq, Eq, Structural)]
pub enum BridgeLocalMethod {
    HealthRead,
    EventsReplay,
    ApprovalsList,
    ApprovalsResolve,
    UserInputResolve,
    TerminalExec,
    AttachmentsUpload,
    GitStatus,
    GitDiff,
    GitStage,
    GitStageAll,
    GitUnstage,
    GitUnstageAll,
    GitCommit,
    GitPush,
    VoiceTranscribe,
    Unknown,
}

/// Which local handler each `bridge/` method reaches.
pub open spec fn spec_bridge_local_method(m: Seq<char>) -> BridgeLocalMethod {
    if m == "bridge/health/read"@ {
        BridgeLocalMethod::HealthRead
    } else if m == "bridge/events/replay"@ {
        BridgeLocalMethod::EventsReplay
    } else if m == "bridge/approvals/list"@ {
        BridgeLocalMethod::ApprovalsList
    } else if m == "bridge/approvals/resolve"@ {
        BridgeLocalMethod::ApprovalsResolve
    } else if m == "bridge/userInput/resolve"@ {
        BridgeLocalMethod::UserInputResolve
    } else if m == "bridge/terminal/exec"@ {
        BridgeLocalMethod::TerminalExec
    } else if m == "bridge/attachments/upload"@ {
        BridgeLocalMethod::AttachmentsUpload
    } else if m == "bridge/git/status"@ {
        BridgeLocalMethod::GitStatus
    } else if m == "bridge/git/diff"@ {
        BridgeLocalMethod::GitDiff
    } else if m == "bridge/git/stage"@ {
        BridgeLocalMethod::GitStage
    } else if m == "bridge/git/stageAll"@ {
        BridgeLocalMethod::GitStageAll
    } else if m == "bridge/git/unstage"@ {
        BridgeLocalMethod::GitUnstage
    } else if m == "bridge/git/unstageAll"@ {
        BridgeLocalMethod::GitUnstageAll
    } else if m == "bridge/git/commit"@ {
        BridgeLocalMethod::GitCommit
    } else if m == "bridge/git/push"@ {
        BridgeLocalMethod::GitPush
    } else if m == "bridge/voice/transcribe"@ {
        BridgeLocalMethod::VoiceTranscribe
    } else {
        BridgeLocalMethod::Unknown
    }
}

/// Routes a `bridge/`-prefixed method to its local handler.
pub fn parse_bridge_local_method(method: &str) -> (r: BridgeLocalMethod)
    ensures
        r == spec_bridge_local_method(method@),
{
    if str_eq(method, "bridge/health/read") {
        BridgeLocalMethod::HealthRead
    } else if str_eq(method, "bridge/events/replay") {
        BridgeLocalMethod::EventsReplay
    } else if str_eq(method, "bridge/approvals/list") {
        BridgeLocalMethod::ApprovalsList
    } else if str_eq(method, "bridge/approvals/resolve") {
        BridgeLocalMethod::ApprovalsResolve
    } else if str_eq(method, "bridge/userInput/resolve") {
        BridgeLocalMethod::UserInputResolve
    } else if str_eq(method, "bridge/terminal/exec") {
        BridgeLocalMethod::TerminalExec
    } else if str_eq(method, "bridge/attachments/upload") {
        BridgeLocalMethod::AttachmentsUpload
    } else if str_eq(method, "bridge/git/status") {
        BridgeLocalMethod::GitStatus
    } else if str_eq(method, "bridge/git/diff") {
        BridgeLocalMethod::GitDiff
    } else if str_eq(method, "bridge/git/stage") {
        BridgeLocalMethod::GitStage
    } else if str_eq(method, "bridge/git/stageAll") {
        BridgeLocalMethod::GitStageAll
    } else if str_eq(method, "bridge/git/unstage") {
        BridgeLocalMethod::GitUnstage
    } else if str_eq(method, "bridge/git/unstageAll") {
        BridgeLocalMethod::GitUnstageAll
    } else if str_eq(method, "bridge/git/commit") {
        BridgeLocalMethod::GitCommit
    } else if str_eq(method, "bridge/git/push") {
        BridgeLocalMethod::GitPush
    } else if str_eq(method, "bridge/voice/transcribe") {
        BridgeLocalMethod::VoiceTranscribe
    } else {
        BridgeLocalMethod::Unknown
    }
}

} // verus!
