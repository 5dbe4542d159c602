//! Tests of the rollout tailer: hub replay, projections, deduplication
//! and truncation handling.

use bridge_core::hub::ClientHub;
use bridge_core::hub::DeliveryKind;
use bridge_core::hub::SendDecision;
use bridge_core::hub::SendOutcome;
use bridge_core::hub::WaitOutcome;
use bridge_core::hub::send_decision;
use bridge_core::hub::wait_decision;
use bridge_core::rollout::build_rollout_event_msg_notification;
use bridge_core::rollout::build_rollout_response_item_notification;
use bridge_core::rollout::build_rollout_thread_status_notification;
use bridge_core::rollout::extract_rollout_search_query;
use bridge_core::rollout::extract_rollout_thread_id;
use bridge_core::rollout::parse_rollout_mcp_tool_name;
use bridge_core::rollout::rollout_originator_allowed;
use bridge_core::rollout::should_run_rollout_discovery_tick;
use bridge_core::rollout::PollAction;
use bridge_core::rollout::RolloutTrackedFile;
use bridge_core::JsonValue;

fn s(x: &str) -> JsonValue {
    JsonValue::Str(x.to_string())
}

fn obj(fields: Vec<(&str, JsonValue)>) -> JsonValue {
    JsonValue::Obj(fields.into_iter().map(|(k, v)| (k.to_string(), v)).collect())
}

fn arr(items: Vec<JsonValue>) -> JsonValue {
    JsonValue::Arr(items)
}

fn field<'a>(v: &'a JsonValue, key: &str) -> &'a JsonValue {
    v.get(key).expect("field present")
}

fn field_str<'a>(v: &'a JsonValue, key: &str) -> &'a str {
    field(v, key).as_str().expect("string field").as_str()
}

#[test]
fn replay_since_returns_notifications_after_cursor() {
    let mut hub = ClientHub::with_replay_capacity(16);
    hub.broadcast_notification("turn/started".to_string(), obj(vec![("threadId", s("thr_1"))]));
    hub.broadcast_notification("turn/completed".to_string(), obj(vec![("threadId", s("thr_1"))]));

    let (events, has_more) = hub.replay_since(Some(1), 10);
    assert_eq!(events.len(), 1);
    assert!(!has_more);
    assert_eq!(events[0].method, "turn/completed");
    assert_eq!(events[0].event_id, 2);
    assert_eq!(field_str(&events[0].params, "threadId"), "thr_1");
    assert_eq!(hub.latest_event_id(), 2);
}

#[test]
fn replay_since_respects_limit() {
    let mut hub = ClientHub::with_replay_capacity(16);
    hub.broadcast_notification("event/1".to_string(), obj(vec![]));
    hub.broadcast_notification("event/2".to_string(), obj(vec![]));
    hub.broadcast_notification("event/3".to_string(), obj(vec![]));

    let (events, has_more) = hub.replay_since(Some(0), 2);
    assert_eq!(events.len(), 2);
    assert!(has_more);
    assert_eq!(events[0].event_id, 1);
    assert_eq!(events[1].event_id, 2);
}

#[test]
fn replay_buffer_evicts_oldest_entries() {
    let mut hub = ClientHub::with_replay_capacity(2);
    hub.broadcast_notification("event/1".to_string(), obj(vec![]));
    hub.broadcast_notification("event/2".to_string(), obj(vec![]));
    hub.broadcast_notification("event/3".to_string(), obj(vec![]));

    let (events, has_more) = hub.replay_since(Some(0), 10);
    assert_eq!(events.len(), 2);
    assert!(!has_more);
    assert_eq!(hub.earliest_event_id(), Some(2));
    assert_eq!(events[0].event_id, 2);
    assert_eq!(events[1].event_id, 3);
}

#[test]
fn zero_capacity_hub_stores_nothing_but_still_stamps_ids() {
    let mut hub = ClientHub::with_replay_capacity(0);
    let env = hub.broadcast_notification("event/1".to_string(), obj(vec![]));
    assert_eq!(env.event_id, 1);
    let env = hub.broadcast_notification("event/2".to_string(), obj(vec![]));
    assert_eq!(env.event_id, 2);
    let (events, has_more) = hub.replay_since(None, 10);
    assert!(events.is_empty());
    assert!(!has_more);
    assert_eq!(hub.earliest_event_id(), None);
    assert_eq!(hub.latest_event_id(), 2);
}

#[test]
fn slow_client_policy_waits_only_for_unicast() {
    assert_eq!(
        send_decision(&DeliveryKind::Unicast, &SendOutcome::Delivered),
        SendDecision::Keep
    );
    assert_eq!(
        send_decision(&DeliveryKind::Unicast, &SendOutcome::QueueFull),
        SendDecision::WaitBriefly
    );
    assert_eq!(
        send_decision(&DeliveryKind::Unicast, &SendOutcome::Closed),
        SendDecision::Evict
    );
    assert_eq!(
        send_decision(&DeliveryKind::Broadcast, &SendOutcome::QueueFull),
        SendDecision::Keep
    );
    assert_eq!(
        send_decision(&DeliveryKind::Broadcast, &SendOutcome::Closed),
        SendDecision::Evict
    );
    assert_eq!(wait_decision(&WaitOutcome::Sent), SendDecision::Keep);
    assert_eq!(wait_decision(&WaitOutcome::TimedOut), SendDecision::Evict);
    assert_eq!(wait_decision(&WaitOutcome::Closed), SendDecision::Evict);
}

#[test]
fn rollout_event_msg_mapping_converts_reasoning_and_message_to_delta_events() {
    let ts1 = "2026-02-25T00:00:00Z".to_string();
    let reasoning = build_rollout_event_msg_notification(
        &obj(vec![
            ("type", s("agent_reasoning")),
            ("text", s("**Inspecting workspace**")),
        ]),
        "thread-1",
        Some(&ts1),
    )
    .expect("reasoning notification");

    assert_eq!(reasoning.0, "codex/event/agent_reasoning_delta");
    let msg = field(&reasoning.1, "msg");
    assert_eq!(field_str(msg, "type"), "agent_reasoning_delta");
    assert_eq!(field_str(msg, "delta"), "**Inspecting workspace**");
    assert_eq!(field_str(msg, "thread_id"), "thread-1");

    let ts2 = "2026-02-25T00:00:01Z".to_string();
    let agent_message = build_rollout_event_msg_notification(
        &obj(vec![
            ("type", s("agent_message")),
            ("message", s("Running checks")),
        ]),
        "thread-1",
        Some(&ts2),
    )
    .expect("agent message notification");

    assert_eq!(agent_message.0, "codex/event/agent_message_delta");
    let msg = field(&agent_message.1, "msg");
    assert_eq!(field_str(msg, "type"), "agent_message_delta");
    assert_eq!(field_str(msg, "delta"), "Running checks");
}

#[test]
fn rollout_event_msg_mapping_ignores_noise_events() {
    assert!(build_rollout_event_msg_notification(
        &obj(vec![("type", s("token_count")), ("info", obj(vec![]))]),
        "thread-1",
        None,
    )
    .is_none());
    assert!(build_rollout_event_msg_notification(
        &obj(vec![("type", s("user_message")), ("message", s("hello"))]),
        "thread-1",
        None,
    )
    .is_none());
}

#[test]
fn extract_rollout_thread_id_prefers_parent_thread_id_from_source() {
    let payload = obj(vec![
        ("id", s("session-123")),
        (
            "source",
            obj(vec![(
                "subagent",
                obj(vec![(
                    "thread_spawn",
                    obj(vec![("parent_thread_id", s("thread-parent"))]),
                )]),
            )]),
        ),
    ]);
    assert_eq!(
        extract_rollout_thread_id(&payload, true),
        Some("thread-parent".to_string())
    );
}

#[test]
fn rollout_thread_status_notification_maps_task_lifecycle_events() {
    let params = obj(vec![("msg", obj(vec![("thread_id", s("thread-1"))]))]);

    let running = build_rollout_thread_status_notification("codex/event/task_started", &params)
        .expect("running status");
    assert_eq!(field_str(&running, "threadId"), "thread-1");
    assert_eq!(field_str(&running, "status"), "running");

    let completed = build_rollout_thread_status_notification("codex/event/task_complete", &params)
        .expect("complete status");
    assert_eq!(field_str(&completed, "status"), "completed");

    let failed = build_rollout_thread_status_notification("codex/event/task_failed", &params)
        .expect("failed status");
    assert_eq!(field_str(&failed, "status"), "failed");

    let interrupted =
        build_rollout_thread_status_notification("codex/event/task_interrupted", &params)
            .expect("interrupted status");
    assert_eq!(field_str(&interrupted, "status"), "interrupted");

    assert!(
        build_rollout_thread_status_notification("codex/event/agent_message_delta", &params)
            .is_none()
    );
}

#[test]
fn rollout_originator_filter_allows_codex_and_clawdex_origins() {
    assert!(rollout_originator_allowed(Some("codex_cli_rs")));
    assert!(rollout_originator_allowed(Some("clawdex-mobile-rust-bridge")));
    assert!(!rollout_originator_allowed(Some("some_other_originator")));
}

#[test]
fn rollout_response_item_mapping_builds_exec_command_and_mcp_notifications() {
    let exec_command = build_rollout_response_item_notification(
        &obj(vec![
            ("type", s("function_call")),
            ("name", s("exec_command")),
            ("arguments", s("{\"cmd\":\"npm run test\"}")),
            ("call_id", s("call_1")),
        ]),
        "thread-1",
        None,
    )
    .expect("exec command notification");

    assert_eq!(exec_command.0, "codex/event/exec_command_begin");
    let msg = field(&exec_command.1, "msg");
    assert_eq!(field_str(msg, "type"), "exec_command_begin");
    assert_eq!(field_str(msg, "thread_id"), "thread-1");
    assert_eq!(
        field(msg, "command"),
        &arr(vec![s("npm"), s("run"), s("test")])
    );

    let mcp_call = build_rollout_response_item_notification(
        &obj(vec![
            ("type", s("function_call")),
            ("name", s("mcp__openaiDeveloperDocs__search_openai_docs")),
            ("arguments", s("{\"query\":\"codex\"}")),
        ]),
        "thread-2",
        None,
    )
    .expect("mcp notification");

    assert_eq!(mcp_call.0, "codex/event/mcp_tool_call_begin");
    let msg = field(&mcp_call.1, "msg");
    assert_eq!(field_str(msg, "server"), "openaiDeveloperDocs");
    assert_eq!(field_str(msg, "tool"), "search_openai_docs");
}

#[test]
fn parse_rollout_mcp_tool_name_handles_expected_shapes() {
    assert_eq!(
        parse_rollout_mcp_tool_name("mcp__server__tool_name"),
        Some(("server".to_string(), "tool_name".to_string()))
    );
    assert_eq!(
        parse_rollout_mcp_tool_name("mcp__server__namespace__tool"),
        Some(("server".to_string(), "namespace__tool".to_string()))
    );
    assert_eq!(parse_rollout_mcp_tool_name("exec_command"), None);
    assert_eq!(parse_rollout_mcp_tool_name("mcp____tool"), None);
}

#[test]
fn extract_rollout_search_query_supports_search_and_image_query_shapes() {
    assert_eq!(
        extract_rollout_search_query(&obj(vec![(
            "search_query",
            arr(vec![obj(vec![("q", s("codex cli live mode"))])]),
        )])),
        Some("codex cli live mode".to_string())
    );
    assert_eq!(
        extract_rollout_search_query(&obj(vec![(
            "image_query",
            arr(vec![obj(vec![("q", s("sunset"))])]),
        )])),
        Some("sunset".to_string())
    );
    assert_eq!(extract_rollout_search_query(&obj(vec![])), None);
}

#[test]
fn rollout_discovery_tick_scheduler_handles_one_tick_interval() {
    assert!(should_run_rollout_discovery_tick(1, 1));
    assert!(should_run_rollout_discovery_tick(10, 1));
    assert!(should_run_rollout_discovery_tick(5, 0));
}

#[test]
fn rollout_discovery_tick_scheduler_handles_multi_tick_intervals() {
    assert!(should_run_rollout_discovery_tick(1, 3));
    assert!(!should_run_rollout_discovery_tick(2, 3));
    assert!(should_run_rollout_discovery_tick(3, 3));
    assert!(should_run_rollout_discovery_tick(6, 3));
}

#[test]
fn tracked_file_emits_each_line_at_most_once() {
    let mut tail_state = RolloutTrackedFile::start(0, Some(("t-1".to_string(), None)));
    let line = "{\"type\":\"event_msg\",\"payload\":{\"type\":\"exec_done\"}}";
    let first = tail_state.process_rollout_line(line);
    assert_eq!(first.len(), 1);
    assert_eq!(first[0].0, "codex/event/exec_done");
    let again = tail_state.process_rollout_line(line);
    assert!(again.is_empty());
}

#[test]
fn truncated_file_resets_offset_and_partial_line() {
    let mut tail_state = RolloutTrackedFile::start(200_000, Some(("t-1".to_string(), None)));
    assert!(tail_state.offset > 0);
    assert!(tail_state.drop_first_partial_line);
    let lines = tail_state.consume_chunk("half a line", tail_state.offset + 11);
    assert!(lines.is_empty());
    assert_eq!(tail_state.partial_line, "half a line");

    let action = tail_state.begin_poll(0);
    assert_eq!(action, PollAction::Skip);
    assert_eq!(tail_state.offset, 0);
    assert_eq!(tail_state.partial_line, "");
    assert!(!tail_state.drop_first_partial_line);
    assert!(tail_state.recent_line_hashes.is_empty());

    let action = tail_state.begin_poll(10);
    assert_eq!(action, PollAction::ReadFrom(0));
}

#[test]
fn rollout_projection_reads_session_meta_then_function_call() {
    let mut tail_state = RolloutTrackedFile::start(0, None);
    assert!(!tail_state.include_for_live_sync);
    let meta_line =
        "{\"type\":\"session_meta\",\"payload\":{\"thread_id\":\"t-1\",\"originator\":\"codex_cli_rs\"}}";
    let none = tail_state.process_rollout_line(meta_line);
    assert!(none.is_empty());
    assert!(tail_state.include_for_live_sync);
    assert_eq!(tail_state.thread_id.as_deref(), Some("t-1"));

    let call_line = "{\"type\":\"response_item\",\"payload\":{\"type\":\"function_call\",\"name\":\"exec_command\",\"arguments\":\"{\\\"cmd\\\":\\\"npm run test\\\"}\",\"call_id\":\"c1\"}}";
    let notes = tail_state.process_rollout_line(call_line);
    assert_eq!(notes.len(), 1);
    assert_eq!(notes[0].0, "codex/event/exec_command_begin");
    let msg = field(&notes[0].1, "msg");
    assert_eq!(field(msg, "command"), &arr(vec![s("npm"), s("run"), s("test")]));
    assert_eq!(field_str(msg, "thread_id"), "t-1");
    assert_eq!(field_str(msg, "call_id"), "c1");
}

#[test]
fn lifecycle_line_gains_thread_status_companion() {
    let mut tail_state = RolloutTrackedFile::start(0, Some(("t-2".to_string(), None)));
    let line = "{\"type\":\"event_msg\",\"payload\":{\"type\":\"task_started\"}}";
    let notes = tail_state.process_rollout_line(line);
    assert_eq!(notes.len(), 2);
    assert_eq!(notes[0].0, "thread/status/changed");
    assert_eq!(field_str(&notes[0].1, "status"), "running");
    assert_eq!(notes[1].0, "codex/event/task_started");
}
