//! Tests of the correlation state machine, approval decisions, user
//! input, the gateway and the id formats.

use bridge_core::approval::approval_decision_to_response_value;
use bridge_core::approval::is_valid_approval_decision;
use bridge_core::approval::parse_execpolicy_amendment;
use bridge_core::approval::read_shell_command;
use bridge_core::approval::ApprovalResponseFormat;
use bridge_core::bridge::parse_internal_id;
use bridge_core::bridge::AppServerBridge;
use bridge_core::bridge::BridgeEffect;
use bridge_core::bridge::Resolution;
use bridge_core::gateway::frame_refusal_reply;
use bridge_core::gateway::is_forwarded_method;
use bridge_core::gateway::parse_bridge_local_method;
use bridge_core::gateway::BridgeLocalMethod;
use bridge_core::gateway::classify_client_text;
use bridge_core::gateway::ClientFrameAction;
use bridge_core::numeric::u64_to_string;
use bridge_core::userinput::is_valid_user_input_answers;
use bridge_core::userinput::parse_user_input_questions;
use bridge_core::JsonValue;

fn s(x: &str) -> JsonValue {
    JsonValue::Str(x.to_string())
}

fn obj(fields: Vec<(&str, JsonValue)>) -> JsonValue {
    JsonValue::Obj(fields.into_iter().map(|(k, v)| (k.to_string(), v)).collect())
}

fn arr(items: Vec<JsonValue>) -> JsonValue {
    JsonValue::Arr(items)
}

fn field<'a>(v: &'a JsonValue, key: &str) -> &'a JsonValue {
    v.get(key).expect("field present")
}

fn field_str<'a>(v: &'a JsonValue, key: &str) -> &'a str {
    field(v, key).as_str().expect("string field").as_str()
}

#[test]
fn forwarded_method_allowlist_matches_expected() {
    assert!(is_forwarded_method("thread/start"));
    assert!(is_forwarded_method("turn/start"));
    assert!(is_forwarded_method("account/read"));
    assert!(is_forwarded_method("mcpServer/oauth/login"));
    assert!(is_forwarded_method("thread/backgroundTerminals/clean"));
    assert!(is_forwarded_method("thread/loaded/list"));
    assert!(!is_forwarded_method("bridge/terminal/exec"));
    assert!(!is_forwarded_method("thread/delete"));
}

#[test]
fn approval_decision_validation_accepts_expected_forms() {
    assert!(is_valid_approval_decision(&s("accept")));
    assert!(is_valid_approval_decision(&s("acceptForSession")));
    assert!(is_valid_approval_decision(&s("decline")));
    assert!(is_valid_approval_decision(&s("cancel")));
    assert!(is_valid_approval_decision(&s("approved")));
    assert!(is_valid_approval_decision(&s("approved_for_session")));
    assert!(is_valid_approval_decision(&s("denied")));
    assert!(is_valid_approval_decision(&s("abort")));
    assert!(is_valid_approval_decision(&obj(vec![(
        "acceptWithExecpolicyAmendment",
        obj(vec![("execpolicy_amendment", arr(vec![s("--allow-network"), s("git")]))]),
    )])));
    assert!(is_valid_approval_decision(&obj(vec![(
        "approved_execpolicy_amendment",
        obj(vec![("proposed_execpolicy_amendment", arr(vec![s("npm"), s("test")]))]),
    )])));
}

#[test]
fn approval_decision_validation_rejects_invalid_values() {
    assert!(!is_valid_approval_decision(&s("approve")));
    assert!(!is_valid_approval_decision(&obj(vec![(
        "acceptWithExecpolicyAmendment",
        obj(vec![("execpolicy_amendment", arr(vec![]))]),
    )])));
    assert!(!is_valid_approval_decision(&obj(vec![(
        "acceptWithExecpolicyAmendment",
        obj(vec![("execpolicy_amendment", arr(vec![s("ok"), JsonValue::Int(1)]))]),
    )])));
    assert!(!is_valid_approval_decision(&obj(vec![(
        "acceptWithExecpolicyAmendment",
        obj(vec![]),
    )])));
    assert!(!is_valid_approval_decision(&obj(vec![(
        "approved_execpolicy_amendment",
        obj(vec![("proposed_execpolicy_amendment", arr(vec![]))]),
    )])));
}

#[test]
fn approval_decision_response_mapping_supports_modern_and_legacy_shapes() {
    assert_eq!(
        approval_decision_to_response_value(&s("accept"), ApprovalResponseFormat::Modern),
        Some(s("accept"))
    );
    assert_eq!(
        approval_decision_to_response_value(&s("accept"), ApprovalResponseFormat::Legacy),
        Some(s("approved"))
    );
    assert_eq!(
        approval_decision_to_response_value(
            &obj(vec![(
                "acceptWithExecpolicyAmendment",
                obj(vec![("execpolicy_amendment", arr(vec![s("git"), s("status")]))]),
            )]),
            ApprovalResponseFormat::Legacy,
        ),
        Some(obj(vec![(
            "approved_execpolicy_amendment",
            obj(vec![("proposed_execpolicy_amendment", arr(vec![s("git"), s("status")]))]),
        )]))
    );
    assert_eq!(
        approval_decision_to_response_value(
            &obj(vec![(
                "approved_execpolicy_amendment",
                obj(vec![("proposed_execpolicy_amendment", arr(vec![s("npm"), s("test")]))]),
            )]),
            ApprovalResponseFormat::Modern,
        ),
        Some(obj(vec![(
            "acceptWithExecpolicyAmendment",
            obj(vec![("execpolicy_amendment", arr(vec![s("npm"), s("test")]))]),
        )]))
    );
}

#[test]
fn parse_internal_id_supports_numeric_and_string_ids() {
    assert_eq!(parse_internal_id(Some(&JsonValue::Int(42))), Some(42));
    assert_eq!(parse_internal_id(Some(&s("17"))), Some(17));
    assert_eq!(parse_internal_id(Some(&JsonValue::Int(-1))), None);
    assert_eq!(parse_internal_id(Some(&s("invalid"))), None);
    assert_eq!(parse_internal_id(None), None);
}

#[test]
fn internal_id_decimal_round_trips_through_rendering() {
    for n in [0u64, 1, 9, 10, 4294967295, 9223372036854775807] {
        let rendered = u64_to_string(n);
        assert_eq!(parse_internal_id(Some(&JsonValue::Str(rendered))), Some(n));
    }
}

#[test]
fn parse_execpolicy_amendment_supports_array_and_object_forms() {
    assert_eq!(
        parse_execpolicy_amendment(Some(&arr(vec![s("--allow-network"), s("git")]))),
        Some(vec!["--allow-network".to_string(), "git".to_string()])
    );
    assert_eq!(
        parse_execpolicy_amendment(Some(&obj(vec![(
            "execpolicy_amendment",
            arr(vec![s("npm"), s("test")]),
        )]))),
        Some(vec!["npm".to_string(), "test".to_string()])
    );
}

#[test]
fn parse_execpolicy_amendment_rejects_invalid_or_empty_values() {
    assert_eq!(parse_execpolicy_amendment(Some(&arr(vec![]))), None);
    assert_eq!(
        parse_execpolicy_amendment(Some(&obj(vec![(
            "execpolicy_amendment",
            arr(vec![JsonValue::Int(1), JsonValue::Bool(true)]),
        )]))),
        None
    );
    assert_eq!(
        parse_execpolicy_amendment(Some(&obj(vec![("other", arr(vec![s("x")]))]))),
        None
    );
    assert_eq!(parse_execpolicy_amendment(Some(&JsonValue::Null)), None);
}

#[test]
fn read_shell_command_supports_string_and_array_forms() {
    assert_eq!(
        read_shell_command(Some(&s("git status"))),
        Some("git status".to_string())
    );
    assert_eq!(
        read_shell_command(Some(&arr(vec![s("npm"), s("test"), s("--watch")]))),
        Some("npm test --watch".to_string())
    );
    assert_eq!(read_shell_command(Some(&arr(vec![]))), None);
}

#[test]
fn parse_user_input_questions_filters_invalid_entries_and_maps_options() {
    let questions = parse_user_input_questions(Some(&arr(vec![
        obj(vec![
            ("id", s("q1")),
            ("header", s("Repo")),
            ("question", s("Pick one")),
            ("isOther", JsonValue::Bool(true)),
            ("isSecret", JsonValue::Bool(false)),
            (
                "options",
                arr(vec![
                    obj(vec![("label", s("main")), ("description", s("default branch"))]),
                    obj(vec![("label", s("develop"))]),
                    obj(vec![("description", s("missing label"))]),
                ]),
            ),
        ]),
        obj(vec![("id", s("q2")), ("question", s("Missing header"))]),
        s("not-an-object"),
    ])));

    assert_eq!(questions.len(), 1);
    assert_eq!(questions[0].id, "q1");
    assert_eq!(questions[0].header, "Repo");
    assert_eq!(questions[0].question, "Pick one");
    assert!(questions[0].is_other);
    assert!(!questions[0].is_secret);
    let options = questions[0].options.as_ref().expect("options to exist");
    assert_eq!(options.len(), 2);
    assert_eq!(options[0].label, "main");
    assert_eq!(options[0].description, "default branch");
    assert_eq!(options[1].label, "develop");
    assert_eq!(options[1].description, "");
}

#[test]
fn user_input_answer_validation_enforces_non_empty_ids_and_answers() {
    let valid = vec![("q1".to_string(), vec!["yes".to_string()])];
    assert!(is_valid_user_input_answers(&valid));

    let invalid_question_id = vec![("  ".to_string(), vec!["yes".to_string()])];
    assert!(!is_valid_user_input_answers(&invalid_question_id));

    let invalid_empty_answers: Vec<(String, Vec<String>)> = vec![("q1".to_string(), Vec::new())];
    assert!(!is_valid_user_input_answers(&invalid_empty_answers));

    let invalid_blank_answer = vec![("q1".to_string(), vec!["   ".to_string()])];
    assert!(!is_valid_user_input_answers(&invalid_blank_answer));
}

#[test]
fn forwarded_response_routes_to_original_client_request_id() {
    let mut bridge = AppServerBridge::new();
    let (internal_id, line) = bridge.forward_request(
        7,
        s("client-req-1"),
        "thread/start",
        Some(obj(vec![("foo", s("bar"))])),
    );
    assert_eq!(internal_id, 1);
    assert_eq!(field(&line, "id"), &JsonValue::UInt(1));
    assert_eq!(field_str(&line, "method"), "thread/start");
    assert_eq!(field_str(field(&line, "params"), "foo"), "bar");

    let effects = bridge.handle_response(&obj(vec![
        ("id", JsonValue::Int(1)),
        ("result", obj(vec![("ok", JsonValue::Bool(true))])),
    ]));
    assert_eq!(effects.len(), 1);
    match &effects[0] {
        BridgeEffect::SendToClient(cid, reply) => {
            assert_eq!(*cid, 7);
            assert_eq!(field_str(reply, "id"), "client-req-1");
            assert_eq!(field(field(reply, "result"), "ok"), &JsonValue::Bool(true));
        }
        other => panic!("unexpected effect: {other:?}"),
    }
    assert!(bridge.pending_requests.is_empty());
}

#[test]
fn fail_all_pending_notifies_waiting_clients_exactly_once() {
    let mut bridge = AppServerBridge::new();
    bridge.forward_request(1, s("req-a"), "thread/start", None);
    bridge.forward_request(2, s("req-b"), "thread/start", None);

    let effects = bridge.fail_all_pending("agent closed");
    assert_eq!(effects.len(), 2);
    for (effect, (cid, rid)) in effects.iter().zip([(1u64, "req-a"), (2u64, "req-b")]) {
        match effect {
            BridgeEffect::SendToClient(client, reply) => {
                assert_eq!(*client, cid);
                assert_eq!(field_str(reply, "id"), rid);
                let error = field(reply, "error");
                assert_eq!(field(error, "code"), &JsonValue::Int(-32000));
                assert_eq!(field_str(error, "message"), "agent closed");
            }
            other => panic!("unexpected effect: {other:?}"),
        }
    }
    assert!(bridge.pending_requests.is_empty());
    bridge.clear_interactions();
    assert!(bridge.pending_approvals.is_empty());
    assert!(bridge.pending_user_inputs.is_empty());
}

#[test]
fn response_with_unknown_id_is_silently_dropped() {
    let mut bridge = AppServerBridge::new();
    bridge.forward_request(1, s("req-a"), "thread/start", None);
    let effects = bridge.handle_response(&obj(vec![
        ("id", JsonValue::Int(99)),
        ("result", JsonValue::Null),
    ]));
    assert!(effects.is_empty());
    assert_eq!(bridge.pending_requests.len(), 1);
}

#[test]
fn response_completes_internal_waiter() {
    let mut bridge = AppServerBridge::new();
    let waiter_id = bridge.begin_internal_request();
    let effects = bridge.handle_response(&obj(vec![
        ("id", JsonValue::UInt(waiter_id)),
        ("result", obj(vec![("initialized", JsonValue::Bool(true))])),
    ]));
    assert_eq!(effects.len(), 1);
    match &effects[0] {
        BridgeEffect::FulfillWaiterOk(id, result) => {
            assert_eq!(*id, waiter_id);
            assert_eq!(field(result, "initialized"), &JsonValue::Bool(true));
        }
        other => panic!("unexpected effect: {other:?}"),
    }
    assert!(bridge.internal_waiters.is_empty());
}

#[test]
fn legacy_exec_command_approval_round_trips_to_legacy_wire() {
    let mut bridge = AppServerBridge::new();
    let effects = bridge.handle_approval_request(
        "execCommandApproval",
        s("sub-req-1"),
        Some(&obj(vec![
            ("conversationId", s("c1")),
            ("callId", s("cl1")),
            ("command", arr(vec![s("git"), s("status")])),
        ])),
    );
    assert_eq!(effects.len(), 1);
    let approval_id = match &effects[0] {
        BridgeEffect::Broadcast(method, payload) => {
            assert_eq!(method, "bridge/approval.requested");
            assert_eq!(field_str(payload, "threadId"), "c1");
            assert_eq!(field_str(payload, "command"), "git status");
            assert_eq!(field_str(payload, "kind"), "commandExecution");
            field_str(payload, "id").to_string()
        }
        other => panic!("unexpected effect: {other:?}"),
    };
    assert_eq!(bridge.pending_approvals.len(), 1);

    match bridge.resolve_approval(&approval_id, &s("accept")) {
        Resolution::Resolved(entry, effects) => {
            assert_eq!(entry.app_server_request_id, s("sub-req-1"));
            assert_eq!(effects.len(), 2);
            match &effects[0] {
                BridgeEffect::WriteLine(line) => {
                    assert_eq!(field_str(line, "id"), "sub-req-1");
                    assert_eq!(field_str(field(line, "result"), "decision"), "approved");
                }
                other => panic!("unexpected effect: {other:?}"),
            }
            match &effects[1] {
                BridgeEffect::Broadcast(method, payload) => {
                    assert_eq!(method, "bridge/approval.resolved");
                    assert_eq!(field_str(payload, "threadId"), "c1");
                }
                other => panic!("unexpected effect: {other:?}"),
            }
        }
        _ => panic!("expected the approval to resolve"),
    }
    assert!(bridge.pending_approvals.is_empty());
}

#[test]
fn failed_write_restores_pending_approval_verbatim() {
    let mut bridge = AppServerBridge::new();
    bridge.handle_approval_request(
        "item/commandExecution/requestApproval",
        s("sub-req-9"),
        Some(&obj(vec![("threadId", s("t9")), ("command", s("ls"))])),
    );
    let approval_id = bridge.pending_approvals[0].0.clone();
    match bridge.resolve_approval(&approval_id, &s("decline")) {
        Resolution::Resolved(entry, _) => {
            assert!(bridge.pending_approvals.is_empty());
            bridge.restore_pending_approval(approval_id.clone(), entry);
        }
        _ => panic!("expected resolution"),
    }
    assert_eq!(bridge.pending_approvals.len(), 1);
    assert_eq!(bridge.pending_approvals[0].0, approval_id);
    assert_eq!(bridge.pending_approvals[0].1.app_server_request_id, s("sub-req-9"));
    assert_eq!(
        bridge.pending_approvals[0].1.response_format,
        ApprovalResponseFormat::Modern
    );
}

#[test]
fn approval_with_empty_amendment_array_is_rejected() {
    let mut bridge = AppServerBridge::new();
    bridge.handle_approval_request(
        "item/commandExecution/requestApproval",
        s("sub-req-2"),
        Some(&obj(vec![("threadId", s("t1"))])),
    );
    let approval_id = bridge.pending_approvals[0].0.clone();
    let empty_amendment = obj(vec![(
        "acceptWithExecpolicyAmendment",
        obj(vec![("execpolicy_amendment", arr(vec![]))]),
    )]);
    assert!(!is_valid_approval_decision(&empty_amendment));
    match bridge.resolve_approval(&approval_id, &empty_amendment) {
        Resolution::InvalidDecision => {}
        _ => panic!("expected the empty amendment to be rejected"),
    }
    assert_eq!(bridge.pending_approvals.len(), 1);
}

#[test]
fn gateway_classifies_frames_by_method_and_id() {
    match classify_client_text("{invalid-json") {
        ClientFrameAction::ParseError => {}
        other => panic!("unexpected action: {other:?}"),
    }
    match classify_client_text("{\"id\":\"abc\"}") {
        ClientFrameAction::MissingMethod(id) => assert_eq!(id, s("abc")),
        other => panic!("unexpected action: {other:?}"),
    }
    match classify_client_text("{\"id\":\"abc\",\"method\":\"thread/delete\"}") {
        ClientFrameAction::NotAllowed(id, method) => {
            assert_eq!(id, s("abc"));
            assert_eq!(method, "thread/delete");
        }
        other => panic!("unexpected action: {other:?}"),
    }
    match classify_client_text("{\"id\":1,\"method\":\"thread/start\",\"params\":{}}") {
        ClientFrameAction::Forward(id, method, params) => {
            assert_eq!(id, JsonValue::Int(1));
            assert_eq!(method, "thread/start");
            assert_eq!(params, Some(obj(vec![])));
        }
        other => panic!("unexpected action: {other:?}"),
    }
    match classify_client_text("{\"id\":1,\"method\":\"bridge/health/read\"}") {
        ClientFrameAction::BridgeLocal(_, method, _) => assert_eq!(method, "bridge/health/read"),
        other => panic!("unexpected action: {other:?}"),
    }
    match classify_client_text("{\"method\":\"note\"}") {
        ClientFrameAction::Notification => {}
        other => panic!("unexpected action: {other:?}"),
    }
}

#[test]
fn unsupported_server_request_gets_reserved_error() {
    let mut bridge = AppServerBridge::new();
    let effects = bridge.handle_server_request("made/up", s("id-1"), None, None, None, None);
    assert_eq!(effects.len(), 1);
    match &effects[0] {
        BridgeEffect::WriteLine(line) => {
            assert_eq!(field_str(line, "id"), "id-1");
            let error = field(line, "error");
            assert_eq!(field(error, "code"), &JsonValue::Int(-32601));
            assert_eq!(
                field_str(error, "message"),
                "Unsupported server request method: made/up"
            );
        }
        other => panic!("unexpected effect: {other:?}"),
    }
}

#[test]
fn dynamic_tool_call_gets_structured_refusal() {
    let effects = bridge_core::bridge::handle_tool_call_request(
        s("tool-call-1"),
        Some(&obj(vec![("tool", s("demo_tool"))])),
    );
    assert_eq!(effects.len(), 2);
    match &effects[0] {
        BridgeEffect::Broadcast(method, payload) => {
            assert_eq!(method, "bridge/tool.call.unsupported");
            assert_eq!(field_str(field(payload, "request"), "tool"), "demo_tool");
        }
        other => panic!("unexpected effect: {other:?}"),
    }
    match &effects[1] {
        BridgeEffect::WriteLine(line) => {
            assert_eq!(field_str(line, "id"), "tool-call-1");
            let result = field(line, "result");
            assert_eq!(field(result, "success"), &JsonValue::Bool(false));
            let items = match field(result, "contentItems") {
                JsonValue::Arr(items) => items,
                other => panic!("unexpected contentItems: {other:?}"),
            };
            assert_eq!(items.len(), 1);
            assert_eq!(field_str(&items[0], "type"), "inputText");
        }
        other => panic!("unexpected effect: {other:?}"),
    }
}

#[test]
fn frame_refusals_carry_the_taxonomy_codes() {
    let reply = frame_refusal_reply(&classify_client_text("{bad")).expect("parse refusal");
    assert_eq!(field(&reply, "id"), &JsonValue::Null);
    assert_eq!(field(field(&reply, "error"), "code"), &JsonValue::Int(-32700));

    let reply = frame_refusal_reply(&classify_client_text("{\"id\":\"abc\"}"))
        .expect("missing-method refusal");
    assert_eq!(field_str(&reply, "id"), "abc");
    assert_eq!(field(field(&reply, "error"), "code"), &JsonValue::Int(-32600));
    assert_eq!(field_str(field(&reply, "error"), "message"), "Missing method");

    let reply = frame_refusal_reply(&classify_client_text(
        "{\"id\":1,\"method\":\"thread/delete\"}",
    ))
    .expect("not-allowed refusal");
    assert_eq!(field(field(&reply, "error"), "code"), &JsonValue::Int(-32601));
    assert_eq!(
        field_str(field(&reply, "error"), "message"),
        "Method not allowed: thread/delete"
    );

    assert!(frame_refusal_reply(&classify_client_text(
        "{\"id\":1,\"method\":\"thread/start\"}",
    ))
    .is_none());
}

#[test]
fn bridge_local_methods_route_to_their_handlers() {
    assert_eq!(
        parse_bridge_local_method("bridge/health/read"),
        BridgeLocalMethod::HealthRead
    );
    assert_eq!(
        parse_bridge_local_method("bridge/events/replay"),
        BridgeLocalMethod::EventsReplay
    );
    assert_eq!(
        parse_bridge_local_method("bridge/approvals/resolve"),
        BridgeLocalMethod::ApprovalsResolve
    );
    assert_eq!(
        parse_bridge_local_method("bridge/userInput/resolve"),
        BridgeLocalMethod::UserInputResolve
    );
    assert_eq!(
        parse_bridge_local_method("bridge/git/stageAll"),
        BridgeLocalMethod::GitStageAll
    );
    assert_eq!(
        parse_bridge_local_method("bridge/voice/transcribe"),
        BridgeLocalMethod::VoiceTranscribe
    );
    assert_eq!(
        parse_bridge_local_method("bridge/nothing"),
        BridgeLocalMethod::Unknown
    );
}
