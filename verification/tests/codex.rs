use dsh_desktop::adapter::{goal_update_params, CodexSessionGoalUpdateRequest};
use dsh_desktop::attach::plan_attachments;
use dsh_desktop::catalog::{build_collaboration_catalog, build_model_catalog, check_model_request, choose_model};
use dsh_desktop::detect::{codex_candidates, installed_binary, needs_install, npm_install_args, CodexDetection};
use dsh_desktop::dispatch::{MessageOutcome, ServerRequestOutcome};
use dsh_desktop::json::{JsonList, JsonMembers, JsonNumber, JsonValue};
use dsh_desktop::prompt::{compose_prompt, turn_start_params, StoredAttachment};
use dsh_desktop::runtime::{CodexBinary, CodexRuntime};
use dsh_desktop::send::{CodexSessionAttachment, CodexSessionSendRequest, ThreadPlan};
use dsh_desktop::session::{
    goal_json, parse_thread_goal, push_message, push_session_event, sanitize_session_params,
    CodexSessionMessage, CodexSessionEvent, CodexThreadGoal,
};
use dsh_desktop::strmap::StrMap;
use dsh_desktop::usage::{saturate_millis, CodexUsageSnapshot};
use dsh_desktop::validate::{
    clean_title, parse_codex_version, safe_attachment_name, validate_collaboration_mode,
    validate_goal_objective, validate_session_id, CODEX_CLI_VERSION, DSH_VERSION,
    MAX_GOAL_OBJECTIVE_LEN,
};

/// The library's JSON value of a serde_json value.
fn to_json(v: &serde_json::Value) -> JsonValue {
    match v {
        serde_json::Value::Null => JsonValue::Null,
        serde_json::Value::Bool(b) => JsonValue::Bool(*b),
        serde_json::Value::Number(n) => JsonValue::Number(JsonNumber {
            signed: n.as_i64(),
            unsigned: n.as_u64(),
            text: n.to_string(),
        }),
        serde_json::Value::String(s) => JsonValue::Str(s.clone()),
        serde_json::Value::Array(items) => {
            let mut list = JsonList::Nil;
            for item in items.iter().rev() {
                list = JsonList::Cons(Box::new(to_json(item)), Box::new(list));
            }
            JsonValue::Array(list)
        }
        serde_json::Value::Object(map) => {
            let entries: Vec<(&String, &serde_json::Value)> = map.iter().collect();
            let mut members = JsonMembers::Nil;
            for (k, item) in entries.into_iter().rev() {
                members = JsonMembers::Cons(k.clone(), Box::new(to_json(item)), Box::new(members));
            }
            JsonValue::Object(members)
        }
    }
}

fn parse(text: &str) -> JsonValue {
    to_json(&serde_json::from_str::<serde_json::Value>(text).unwrap())
}

fn ready_runtime() -> CodexRuntime {
    let mut rt = CodexRuntime::new();
    rt.status.backend = "codex".to_string();
    rt.status.phase = "ready".to_string();
    rt.status.app_server_running = true;
    rt.status.auth_mode = Some("chatgpt".to_string());
    rt
}

fn linked_runtime() -> CodexRuntime {
    let mut rt = ready_runtime();
    let result = parse(r#"{"thread":{"id":"thread-1"}}"#);
    rt.link_new_thread("s1", &result, "/work", Some("  Title  "), "default").unwrap();
    rt
}

#[test]
fn parses_codex_cli_version() {
    assert_eq!(parse_codex_version("codex-cli 0.147.0\n"), Some("0.147.0".into()));
    assert_eq!(parse_codex_version(""), None);
}

#[test]
fn pinned_releases_match_verified_date() {
    assert_eq!(CODEX_CLI_VERSION, "0.147.0");
    assert_eq!(DSH_VERSION, "0.1.0-rc.6");
}

#[test]
fn validates_session_adapter_inputs() {
    assert!(validate_session_id("session-123_abc.test:1").is_ok());
    assert!(validate_session_id("").is_err());
    assert!(validate_session_id("../../escape").is_err());
    assert_eq!(clean_title(Some("  hello  ")), Some("hello".into()));
    assert_eq!(clean_title(Some("   ")), None);
    assert_eq!(safe_attachment_name("report (final).md", 2).unwrap(), "02-report _final_.md");
    assert!(safe_attachment_name("../", 1).is_err());
}

#[test]
fn validates_native_collaboration_modes() {
    assert_eq!(validate_collaboration_mode(None).unwrap(), "default");
    assert_eq!(validate_collaboration_mode(Some("default")).unwrap(), "default");
    assert_eq!(validate_collaboration_mode(Some("plan")).unwrap(), "plan");
    assert!(validate_collaboration_mode(Some("agent")).is_err());
}

#[test]
fn validates_and_parses_thread_goals() {
    assert_eq!(validate_goal_objective("  ship it  ").unwrap(), "ship it");
    assert!(validate_goal_objective("").is_err());
    assert!(validate_goal_objective(&"x".repeat(MAX_GOAL_OBJECTIVE_LEN + 1)).is_err());

    let value = parse(
        r#"{
            "threadId": "thread-1",
            "objective": "Finish native plan mode",
            "status": "active",
            "tokenBudget": 1200,
            "tokensUsed": 25,
            "timeUsedSeconds": 3,
            "createdAt": 1,
            "updatedAt": 2
        }"#,
    );
    let goal = parse_thread_goal(Some(&value)).unwrap().unwrap();
    assert_eq!(goal.objective, "Finish native plan mode");
    assert_eq!(goal.status, "active");
    assert_eq!(goal.token_budget, Some(1200));
    assert_eq!(goal.tokens_used, 25);
}

#[test]
fn session_event_queue_is_bounded() {
    let mut events: StrMap<Vec<CodexSessionEvent>> = StrMap::new();
    let mut latest: u64 = 0;
    for index in 0..(1_000 + 10) {
        let params = parse(&format!("{{\"index\": {index}}}"));
        push_session_event(&mut events, &mut latest, "s1", "test", params);
    }
    let queue = events.get("s1").unwrap();
    assert_eq!(queue.len(), 1_000);
    assert_eq!(queue[0].seq, 11);
}

#[test]
fn normalizes_rate_limit_windows_and_credits() {
    let mut snapshot = CodexUsageSnapshot::default();
    snapshot.apply_rate_limits(&parse(
        r#"{
            "rateLimits": {
                "limitId": "codex",
                "planType": "pro",
                "primary": { "usedPercent": 31, "resetsAt": 123, "windowDurationMins": 300 },
                "secondary": null,
                "credits": { "hasCredits": true, "unlimited": false, "balance": "12.50" }
            }
        }"#,
    ), 1_700);
    assert_eq!(snapshot.state, "ready");
    assert_eq!(snapshot.plan_type.as_deref(), Some("pro"));
    assert_eq!(snapshot.buckets[0].primary.as_ref().unwrap().remaining_percent, 69);
    assert_eq!(snapshot.credits.as_ref().unwrap().balance.as_deref(), Some("12.50"));
    assert_eq!(snapshot.updated_at, 1_700);
}

#[test]
fn keeps_thread_usage_by_codex_thread_id() {
    let mut snapshot = CodexUsageSnapshot::default();
    snapshot.apply_thread_usage(&parse(
        r#"{
            "threadId": "thread-1",
            "turnId": "turn-1",
            "tokenUsage": {
                "modelContextWindow": 200000,
                "last": { "inputTokens": 5, "cachedInputTokens": 2, "outputTokens": 3, "reasoningOutputTokens": 1, "totalTokens": 8 },
                "total": { "inputTokens": 10, "cachedInputTokens": 4, "outputTokens": 6, "reasoningOutputTokens": 2, "totalTokens": 16 }
            }
        }"#,
    ), 1_800);
    assert_eq!(snapshot.thread_usage.get("thread-1").unwrap().total.total_tokens, 16);
    assert_eq!(snapshot.thread_usage.get("thread-1").unwrap().updated_at, 1_800);
    assert_eq!(snapshot.updated_at, 1_800);
}

#[test]
fn polling_after_latest_sees_only_the_next_event() {
    let mut rt = linked_runtime();
    let latest = rt.session_snapshot("s1", 0).unwrap().latest_seq;
    let params = parse(r#"{"threadId":"thread-1","turn":{"id":"turn-9"}}"#);
    let routed = rt.handle_session_notification("turn/started", &params, 40, 7);
    assert_eq!(routed, Some(("s1".to_string(), false)));
    let snapshot = rt.session_snapshot("s1", latest).unwrap();
    assert_eq!(snapshot.events.len(), 1);
    assert_eq!(snapshot.events[0].method, "turn/started");
    assert_eq!(snapshot.events[0].seq, latest + 1);
    assert_eq!(snapshot.active_turn_id.as_deref(), Some("turn-9"));
}

#[test]
fn transcript_keeps_the_newest_two_hundred_messages() {
    let mut messages: Vec<CodexSessionMessage> = Vec::new();
    for i in 0..205u64 {
        push_message(
            &mut messages,
            CodexSessionMessage { id: format!("m{i}"), role: "user".into(), text: "x".into(), created_at: i },
        );
    }
    assert_eq!(messages.len(), 200);
    assert_eq!(messages[0].id, "m5");
    push_message(
        &mut messages,
        CodexSessionMessage { id: "m10".into(), role: "assistant".into(), text: "y".into(), created_at: 0 },
    );
    assert_eq!(messages.len(), 200);
    assert_eq!(messages[5].text, "y");
}

#[test]
fn streamed_deltas_become_the_completed_message() {
    let mut rt = linked_runtime();
    let d1 = parse(r#"{"threadId":"thread-1","itemId":"i1","delta":"Hel"}"#);
    let d2 = parse(r#"{"threadId":"thread-1","itemId":"i1","delta":"lo"}"#);
    assert_eq!(rt.handle_session_notification("item/agentMessage/delta", &d1, 10, 1), Some(("s1".into(), false)));
    rt.handle_session_notification("item/agentMessage/delta", &d2, 10, 2);
    assert_eq!(rt.buffers.get("i1").unwrap(), "Hello");
    let done = parse(r#"{"threadId":"thread-1","item":{"type":"agentMessage","id":"i1"}}"#);
    assert_eq!(rt.handle_session_notification("item/completed", &done, 10, 3), Some(("s1".into(), true)));
    assert!(rt.buffers.get("i1").is_none());
    let snapshot = rt.session_snapshot("s1", 0).unwrap();
    assert_eq!(snapshot.messages.len(), 1);
    assert_eq!(snapshot.messages[0].text, "Hello");
    assert_eq!(snapshot.messages[0].role, "assistant");
    assert_eq!(snapshot.messages[0].created_at, 3);
}

#[test]
fn notifications_of_unlinked_threads_change_nothing() {
    let mut rt = linked_runtime();
    let params = parse(r#"{"threadId":"other","turn":{"id":"t"}}"#);
    assert_eq!(rt.handle_session_notification("turn/started", &params, 10, 1), None);
    assert_eq!(rt.handle_session_notification("account/updated", &params, 10, 1), None);
    assert_eq!(rt.event_seq, 1);
}

#[test]
fn oversized_events_are_replaced_by_a_notice() {
    let params = parse(r#"{"threadId":"t","turnId":"u","big":"x"}"#);
    let kept = sanitize_session_params("turn/diff/updated", &params, 200_000);
    assert_eq!(kept, params);
    let cut = sanitize_session_params("turn/diff/updated", &params, 200_001);
    assert_eq!(cut.get("truncated"), Some(&JsonValue::Bool(true)));
    assert_eq!(cut.get("message").and_then(|m| m.as_str()), Some("Codex event was too large to display"));
    let delta = parse(r#"{"threadId":"t","itemId":"i","delta":"abc","extra":1}"#);
    let safe = sanitize_session_params("item/plan/delta", &delta, 10);
    assert_eq!(safe.get("delta").and_then(|d| d.as_str()), Some("abc"));
    assert!(safe.get("extra").is_none());
    assert_eq!(safe.get("turnId"), Some(&JsonValue::Null));
}

#[test]
fn replies_resolve_the_awaited_request() {
    let mut rt = CodexRuntime::new();
    let (id, message) = rt.begin_request("account/read", parse(r#"{"refreshToken":false}"#));
    assert_eq!(id, 1);
    assert_eq!(message.get("method").and_then(|m| m.as_str()), Some("account/read"));
    let ok = parse(r#"{"id":1,"result":{"account":null}}"#);
    match rt.handle_message(&ok, 0, 0) {
        MessageOutcome::Reply(n, Ok(v)) => {
            assert_eq!(n, 1);
            assert_eq!(v, parse(r#"{"account":null}"#));
        }
        _ => panic!("expected a reply"),
    }
    assert!(rt.pending.is_empty());
    let (id2, _) = rt.begin_request("model/list", JsonValue::Null);
    let failed = parse(&format!("{{\"id\":{id2},\"error\":{{\"code\":1}}}}"));
    match rt.handle_message(&failed, 0, 0) {
        MessageOutcome::Reply(_, Err(e)) => assert_eq!(e, "Codex app-server request failed"),
        _ => panic!("expected a failed reply"),
    }
    let stray = parse(r#"{"id":99,"result":{}}"#);
    assert!(matches!(rt.handle_message(&stray, 0, 0), MessageOutcome::Ignored));
}

#[test]
fn approval_requests_are_routed_or_declined() {
    let mut rt = linked_runtime();
    let request = parse(
        r#"{"id":7,"method":"item/commandExecution/requestApproval","params":{"threadId":"thread-1","command":"ls"}}"#,
    );
    match rt.handle_message(&request, 0, 0) {
        MessageOutcome::ServerRequest(ServerRequestOutcome::Routed(s)) => assert_eq!(s, "s1"),
        _ => panic!("expected a routed approval"),
    }
    assert!(rt.server_requests.get("n:7").is_some());
    let event = rt.session_snapshot("s1", 1).unwrap().events.pop().unwrap();
    assert_eq!(event.params.get("kind").and_then(|k| k.as_str()), Some("command"));
    assert!(rt.approval_response("s1", &parse("8"), "accept").is_err());
    assert_eq!(rt.approval_response("s2", &parse("7"), "accept").unwrap_err(), "Codex approval request belongs to another session");
    assert_eq!(rt.approval_response("s1", &parse("7"), "maybe").unwrap_err(), "Unsupported Codex approval decision");
    let (key, response) = rt.approval_response("s1", &parse("7"), "accept").unwrap();
    assert_eq!(key, "n:7");
    assert_eq!(response, parse(r#"{"id":7,"result":{"decision":"accept"}}"#));
    rt.approval_sent(&key);
    assert!(rt.server_requests.get("n:7").is_none());

    let unsupported = parse(r#"{"id":"x","method":"tool/call","params":{"threadId":"thread-1"}}"#);
    match rt.handle_message(&unsupported, 0, 0) {
        MessageOutcome::ServerRequest(ServerRequestOutcome::Declined(r)) => {
            assert_eq!(r.get("id").and_then(|i| i.as_str()), Some("x"));
            assert_eq!(r.get("error").and_then(|e| e.get("code")).and_then(|c| c.as_i64()), Some(-32601));
        }
        _ => panic!("expected a declined request"),
    }
}

#[test]
fn account_notifications_update_status_and_usage() {
    let mut rt = CodexRuntime::new();
    let login = parse(r#"{"method":"account/updated","params":{"authMode":"chatgpt","planType":"plus"}}"#);
    match rt.handle_message(&login, 0, 0) {
        MessageOutcome::Notification(None, refresh) => assert!(refresh),
        _ => panic!("expected a notification"),
    }
    assert_eq!(rt.status.phase, "ready");
    assert_eq!(rt.usage.state, "loading");
    assert_eq!(rt.usage.plan_type.as_deref(), Some("plus"));
    let logout = parse(r#"{"method":"account/updated","params":{}}"#);
    rt.handle_message(&logout, 0, 0);
    assert_eq!(rt.status.phase, "signedOut");
    assert_eq!(rt.usage.state, "unauthenticated");
    let failed = parse(r#"{"method":"account/login/completed","params":{"success":false}}"#);
    rt.handle_message(&failed, 0, 0);
    assert_eq!(rt.status.phase, "error");
    assert_eq!(rt.status.error.as_deref(), Some("ChatGPT login failed"));
}

#[test]
fn a_stopped_app_server_fails_everything_pending() {
    let mut rt = linked_runtime();
    rt.status.app_server_running = true;
    rt.begin_request("a", JsonValue::Null);
    rt.begin_request("b", JsonValue::Null);
    let failed = rt.mark_stopped("Codex app-server stopped", 900);
    assert_eq!(failed, vec![1, 2]);
    assert!(!rt.status.app_server_running);
    assert_eq!(rt.status.phase, "error");
    assert_eq!(rt.status.error.as_deref(), Some("Codex app-server stopped"));
    assert!(!rt.links.get("s1").unwrap().loaded);
    assert_eq!(rt.usage.state, "unavailable");
    assert_eq!(rt.usage.updated_at, 900);
    let failed = rt.select_dsh(901);
    assert!(failed.is_empty());
    assert_eq!(rt.status.backend, "dsh");
    assert_eq!(rt.status.phase, "idle");
}

#[test]
fn sends_are_checked_in_order() {
    let rt = CodexRuntime::new();
    let mut request = CodexSessionSendRequest {
        session_id: "s1".into(),
        cwd: "/work".into(),
        prompt: "  ".into(),
        context: None,
        title: None,
        model: None,
        effort: None,
        collaboration_mode: None,
        attachments: Vec::new(),
    };
    assert_eq!(rt.check_send(&request, true, Some(true)).unwrap_err(), "prompt must not be empty");
    request.prompt = "hi".into();
    assert_eq!(rt.check_send(&request, false, Some(true)).unwrap_err(), "Codex workspace must be an absolute path");
    assert_eq!(
        rt.check_send(&request, true, Some(true)).unwrap_err(),
        "Codex is not ready. Open dsh Settings → Codex and complete ChatGPT login first."
    );
    let ready = ready_runtime();
    assert_eq!(ready.check_send(&request, true, Some(true)).unwrap(), "/work");
}

#[test]
fn a_turn_goes_to_the_linked_thread() {
    let mut rt = ready_runtime();
    match rt.plan_thread("s1", "/work", "gpt-5").unwrap() {
        ThreadPlan::Start(params) => {
            assert_eq!(params.get("model").and_then(|m| m.as_str()), Some("gpt-5"));
            assert_eq!(params.get("sandbox").and_then(|m| m.as_str()), Some("workspace-write"));
        }
        _ => panic!("expected a new thread"),
    }
    let (thread, name) = rt
        .link_new_thread("s1", &parse(r#"{"thread":{"id":"t1"}}"#), "/work", Some("  My title "), "plan")
        .unwrap();
    assert_eq!(thread, "t1");
    assert_eq!(name.unwrap().get("name").and_then(|n| n.as_str()), Some("My title"));
    assert!(matches!(rt.plan_thread("s1", "/work", "gpt-5").unwrap(), ThreadPlan::Continue(_)));
    assert!(rt.plan_thread("s1", "/elsewhere", "gpt-5").is_err());
    let sent = rt.record_turn("s1", "t1", &parse(r#"{"turn":{"id":"u1"}}"#), "plan", "  do it ", 5).unwrap();
    assert_eq!(sent.turn_id, "u1");
    let link = rt.links.get("s1").unwrap();
    assert_eq!(link.active_turn_id.as_deref(), Some("u1"));
    assert_eq!(link.messages[0].id, "user-u1");
    assert_eq!(link.messages[0].text, "do it");
    assert!(rt.session_reset("s1").is_err());
    assert!(rt.record_turn("s1", "t1", &parse("{}"), "plan", "x", 5).is_err());
}

#[test]
fn prompts_carry_context_and_attachments() {
    assert_eq!(compose_prompt(false, Some("ctx"), "  hi  ", &Vec::new()), "hi");
    let handed = compose_prompt(true, Some(" ctx "), "hi", &Vec::new());
    assert!(handed.starts_with("Continue this work from a DeepSeek Harness session."));
    assert!(handed.contains("<dsh-session-context>\nctx\n</dsh-session-context>"));
    assert!(handed.ends_with("<current-request>\nhi\n</current-request>"));
    let atts = vec![StoredAttachment { name: "a.png".into(), path: "/tmp/a.png".into(), is_image: true }];
    let text = compose_prompt(false, None, "", &atts);
    assert!(text.starts_with("Review and process the attached files."));
    assert!(text.ends_with("\n- a.png: /tmp/a.png\n</local-attachments>"));
    let params = turn_start_params("t1", &text, &atts, "/work", "gpt-5", Some("high"), "default");
    assert_eq!(params.get("effort").and_then(|e| e.as_str()), Some("high"));
    match params.get("input") {
        Some(JsonValue::Array(list)) => assert_eq!(list.item_refs().len(), 2),
        _ => panic!("expected an input array"),
    }
    let no_effort = turn_start_params("t1", "x", &Vec::new(), "/work", "gpt-5", None, "plan");
    assert!(no_effort.get("effort").is_none());
}

#[test]
fn attachments_are_decoded_and_named() {
    let atts = vec![CodexSessionAttachment { name: "pic.PNG".into(), mime_type: "image/png".into(), data_base64: "aGVsbG8=".into() }];
    let planned = plan_attachments(&atts, 42).unwrap();
    assert_eq!(planned[0].bytes, b"hello".to_vec());
    assert_eq!(planned[0].file_name, "42-01-pic.PNG");
    assert!(planned[0].is_image);
    let bad = vec![CodexSessionAttachment { name: "x".into(), mime_type: String::new(), data_base64: "!!".into() }];
    assert_eq!(plan_attachments(&bad, 1).unwrap_err(), "Attachment 'x' is not valid base64 data");
    let many: Vec<CodexSessionAttachment> = (0..11)
        .map(|_| CodexSessionAttachment { name: "x".into(), mime_type: String::new(), data_base64: String::new() })
        .collect();
    assert_eq!(plan_attachments(&many, 1).unwrap_err(), "A message can include at most 10 attachments");
}

#[test]
fn model_catalog_prefers_configured_then_default() {
    let result = parse(
        r#"{"data":[
            {"model":"hidden","hidden":true},
            {"model":"a","supportedReasoningEfforts":[{"reasoningEffort":"low"}]},
            {"model":"b","isDefault":true,"defaultReasoningEffort":"high",
             "supportedReasoningEfforts":[{"reasoningEffort":"medium"},{"reasoningEffort":"high"}]}
        ]}"#,
    );
    let catalog = build_model_catalog(&result, None, None).unwrap();
    assert_eq!(catalog.data.len(), 2);
    assert_eq!(catalog.selected_model, "b");
    assert_eq!(catalog.selected_effort.as_deref(), Some("high"));
    let configured = build_model_catalog(&result, Some("a"), Some("medium")).unwrap();
    assert_eq!(configured.selected_model, "a");
    assert_eq!(configured.selected_effort.as_deref(), Some("low"));
    assert_eq!(build_model_catalog(&parse("{}"), None, None).unwrap_err(), "Codex app-server did not return a model list");
    assert!(build_model_catalog(&parse(r#"{"data":[{"id":1}]}"#), None, None).is_err());
    assert_eq!(
        build_model_catalog(&parse(r#"{"data":[]}"#), None, None).unwrap_err(),
        "Codex app-server returned no selectable models"
    );
    let (model, effort) = choose_model(&catalog, Some("a"), None).unwrap();
    assert_eq!(model, "a");
    assert_eq!(effort, None);
    assert_eq!(choose_model(&catalog, Some("zzz"), None).unwrap_err(), "Codex model is not available: zzz");
    assert_eq!(
        choose_model(&catalog, Some("a"), Some("high")).unwrap_err(),
        "Reasoning effort 'high' is not supported by model 'a'"
    );
    assert_eq!(check_model_request(Some("bad model"), None).unwrap_err(), "Invalid Codex model");
    assert_eq!(check_model_request(None, Some("")).unwrap_err(), "Invalid Codex reasoning effort");
}

#[test]
fn collaboration_modes_need_default_and_plan() {
    let both = parse(r#"{"data":[{"mode":"default","name":"Default"},{"mode":"plan"},{"mode":"agent"}]}"#);
    let catalog = build_collaboration_catalog(&both).unwrap();
    assert_eq!(catalog.data.len(), 2);
    assert_eq!(catalog.data[1].name, "plan");
    assert_eq!(
        build_collaboration_catalog(&parse(r#"{"data":[{"mode":"default"}]}"#)).unwrap_err(),
        "Codex app-server did not advertise default and plan modes"
    );
    assert_eq!(
        build_collaboration_catalog(&parse("{}")).unwrap_err(),
        "Codex app-server did not return collaboration modes"
    );
}

#[test]
fn goal_updates_are_checked() {
    let empty = CodexSessionGoalUpdateRequest { session_id: "s1".into(), objective: None, status: None, token_budget: None };
    assert!(goal_update_params("t", &empty).is_err());
    let paused = CodexSessionGoalUpdateRequest { session_id: "s1".into(), objective: None, status: Some("paused".into()), token_budget: Some(5) };
    let params = goal_update_params("t", &paused).unwrap();
    assert_eq!(params.get("threadId").and_then(|v| v.as_str()), Some("t"));
    assert_eq!(params.get("status").and_then(|v| v.as_str()), Some("paused"));
    assert_eq!(params.get("tokenBudget").and_then(|v| v.as_u64()), Some(5));
    assert!(params.get("objective").is_none());
    let zero = CodexSessionGoalUpdateRequest { session_id: "s1".into(), objective: None, status: None, token_budget: Some(0) };
    assert_eq!(goal_update_params("t", &zero).unwrap_err(), "Goal token budget must be greater than zero");
}

#[test]
fn goal_update_trims_the_objective_and_checks_status() {
    let request = CodexSessionGoalUpdateRequest { session_id: "s1".into(), objective: Some("  ship it  ".into()), status: Some("active".into()), token_budget: None };
    let params = goal_update_params("t9", &request).unwrap();
    assert_eq!(params.get("threadId").and_then(|v| v.as_str()), Some("t9"));
    assert_eq!(params.get("objective").and_then(|v| v.as_str()), Some("ship it"));
    assert_eq!(params.get("status").and_then(|v| v.as_str()), Some("active"));
    assert!(params.get("tokenBudget").is_none());
    let done = CodexSessionGoalUpdateRequest { session_id: "s1".into(), objective: None, status: Some("done".into()), token_budget: None };
    assert_eq!(goal_update_params("t9", &done).unwrap_err(), "Goal status must be 'active' or 'paused'");
    let blank = CodexSessionGoalUpdateRequest { session_id: "s1".into(), objective: Some("   ".into()), status: None, token_budget: None };
    assert_eq!(goal_update_params("t9", &blank).unwrap_err(), "Goal objective must not be empty");
}

#[test]
fn detection_prefers_the_pinned_version() {
    let candidates = codex_candidates(Some("custom".into()), None, "/m/codex".into(), false);
    let names: Vec<&str> = candidates.iter().map(|c| c.0.as_str()).collect();
    assert_eq!(names, vec!["custom", "/m/codex", "codex"]);
    let mut detection = CodexDetection::new();
    assert!(!detection.record("old".into(), false, Some("0.1.0".into())));
    assert!(!detection.record("none".into(), false, None));
    assert!(detection.record("/m/codex".into(), true, Some("0.147.0".into())));
    let chosen = detection.chosen().unwrap();
    assert_eq!(chosen.program, "/m/codex");
    assert!(chosen.managed);
    assert_eq!(npm_install_args("/p")[4], "@openai/codex@0.147.0");
    assert_eq!(installed_binary("x".into(), None).unwrap_err(), "installed Codex CLI did not start");
    assert_eq!(
        installed_binary("x".into(), Some("1.0".into())).unwrap_err(),
        "installed Codex CLI version 1.0, expected 0.147.0"
    );
    let b: CodexBinary = installed_binary("x".into(), Some("0.147.0".into())).unwrap();
    assert_eq!(b.version, "0.147.0");
}

#[test]
fn goal_json_reads_back_as_the_goal() {
    let goal = CodexThreadGoal {
        thread_id: "thread-7".into(),
        objective: "Ship the release".into(),
        status: "paused".into(),
        token_budget: None,
        tokens_used: 40,
        time_used_seconds: 9,
        created_at: 100,
        updated_at: 200,
    };
    let back = parse_thread_goal(Some(&goal_json(&goal))).unwrap().unwrap();
    assert_eq!(back.thread_id, "thread-7");
    assert_eq!(back.objective, "Ship the release");
    assert_eq!(back.status, "paused");
    assert_eq!(back.token_budget, None);
    assert_eq!(back.tokens_used, 40);
    assert_eq!(back.time_used_seconds, 9);
    assert_eq!(back.created_at, 100);
    assert_eq!(back.updated_at, 200);
}

#[test]
fn attachment_file_names_are_sanitized() {
    let atts = vec![CodexSessionAttachment {
        name: "my notes#1.txt".into(),
        mime_type: "text/plain".into(),
        data_base64: "aGk=".into(),
    }];
    let planned = plan_attachments(&atts, 7).unwrap();
    assert_eq!(planned[0].display_name, "my notes#1.txt");
    assert_eq!(planned[0].file_name, "7-01-my notes_1.txt");
    assert_eq!(planned[0].bytes, b"hi".to_vec());
    assert!(!planned[0].is_image);
    let blank = vec![CodexSessionAttachment { name: "   ".into(), mime_type: String::new(), data_base64: "aGk=".into() }];
    assert_eq!(plan_attachments(&blank, 7).unwrap_err(), "An attachment has an invalid file name");
}

#[test]
fn attachment_names_keep_only_the_final_component() {
    let atts = vec![CodexSessionAttachment {
        name: "photos/pic.png".into(),
        mime_type: "image/png".into(),
        data_base64: "aGk=".into(),
    }];
    let planned = plan_attachments(&atts, 3).unwrap();
    assert_eq!(planned[0].display_name, "pic.png");
    assert_eq!(planned[0].file_name, "3-01-pic.png");
    assert!(planned[0].is_image);
}

#[test]
fn usage_states_carry_the_time_they_were_set() {
    let mut snapshot = CodexUsageSnapshot::default();
    snapshot.set_loading(10);
    assert_eq!((snapshot.state.as_str(), snapshot.updated_at), ("loading", 10));
    snapshot.set_unavailable(Some("down".into()), 11);
    assert_eq!((snapshot.state.as_str(), snapshot.error.as_deref(), snapshot.updated_at), ("unavailable", Some("down"), 11));
    snapshot.set_plan_type(Some("plus".into()), 12);
    assert_eq!((snapshot.plan_type.as_deref(), snapshot.state.as_str(), snapshot.updated_at), (Some("plus"), "unavailable", 12));
    assert_eq!(saturate_millis(5), 5);
    assert_eq!(saturate_millis(u128::MAX), u64::MAX);
}

#[test]
fn a_rate_limit_refresh_records_limits_or_the_error() {
    let mut rt = CodexRuntime::new();
    assert!(rt.record_rate_limits(Ok(parse(r#"{"rateLimits":{"limitId":"codex","primary":{"usedPercent":40}}}"#)), 20));
    assert_eq!(rt.usage.state, "ready");
    assert_eq!(rt.usage.buckets[0].primary.as_ref().unwrap().remaining_percent, 60);
    assert_eq!(rt.usage.updated_at, 20);
    assert!(!rt.record_rate_limits(Err("boom".into()), 21));
    assert_eq!(rt.usage.state, "unavailable");
    assert_eq!(rt.usage.error.as_deref(), Some("boom"));
}

#[test]
fn attachment_names_come_from_the_last_path_component() {
    assert_eq!(safe_attachment_name("a/b/", 2).unwrap(), "02-b");
    assert_eq!(safe_attachment_name("a/./c.txt/.", 3).unwrap(), "03-c.txt");
    assert_eq!(safe_attachment_name("photos/..", 1).unwrap_err(), "An attachment has an invalid file name");
    assert_eq!(safe_attachment_name("/", 1).unwrap_err(), "An attachment has an invalid file name");
}

#[test]
fn app_server_lines_are_parsed_and_measured() {
    let mut rt = linked_runtime();
    assert!(matches!(rt.handle_line("not json", 1), MessageOutcome::Unreadable(_)));
    let (id, _) = rt.begin_request("account/read", JsonValue::Null);
    match rt.handle_line(&format!(r#"{{"id":{id},"result":{{"ok":true}}}}"#), 2) {
        MessageOutcome::Reply(n, Ok(v)) => {
            assert_eq!(n, id);
            assert_eq!(v.get("ok"), Some(&JsonValue::Bool(true)));
        }
        other => panic!("unexpected outcome {other:?}"),
    }
    let big = "x".repeat(200_001);
    let line = format!(r#"{{"method":"turn/diff/updated","params":{{"threadId":"thread-1","diff":"{big}"}}}}"#);
    match rt.handle_line(&line, 3) {
        MessageOutcome::Notification(Some((session, _)), _) => assert_eq!(session, "s1"),
        other => panic!("unexpected outcome {other:?}"),
    }
    let snapshot = rt.session_snapshot("s1", 0).unwrap();
    let last = snapshot.events.last().unwrap();
    assert_eq!(last.method, "turn/diff/updated");
    assert_eq!(last.params.get("truncated"), Some(&JsonValue::Bool(true)));
}

#[test]
fn buckets_with_equal_ids_keep_their_order() {
    let mut snapshot = CodexUsageSnapshot::default();
    snapshot.apply_rate_limits(&parse(
        r#"{"rateLimitsByLimitId":{
            "a":{"limitId":"zeta","planType":"one"},
            "b":{"limitId":"codex","planType":"two"},
            "c":{"limitId":"codex","planType":"three"}
        }}"#,
    ), 5);
    let ids: Vec<(&str, Option<&str>)> = snapshot.buckets.iter().map(|b| (b.id.as_str(), b.plan_type.as_deref())).collect();
    assert_eq!(ids, vec![("codex", Some("two")), ("codex", Some("three")), ("zeta", Some("one"))]);
    assert_eq!(snapshot.plan_type.as_deref(), Some("two"));
}

#[test]
fn only_the_pinned_cli_skips_installation() {
    assert!(needs_install(None));
    let old = CodexBinary { program: "codex".into(), version: "0.1.0".into(), managed: false };
    assert!(needs_install(Some(&old)));
    let pinned = CodexBinary { program: "codex".into(), version: CODEX_CLI_VERSION.into(), managed: true };
    assert!(!needs_install(Some(&pinned)));
}
