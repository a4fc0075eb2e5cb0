use dsh_desktop::board::{parse_workspaces, workspace_cards};
use dsh_desktop::json::{JsonList, JsonMembers, JsonNumber, JsonValue};
use dsh_desktop::logging::{error, expired_log, info, log_file_name, parse_log_date, redact, warn, LogDate};
use dsh_desktop::navigation::{authorize_control_bridge, authorize_session_bridge, is_allowed_navigation, opens_externally};
use dsh_desktop::plugins::{diff_text, lines_of, plugin_preview, profile_deps_of, read_deps};
use dsh_desktop::supervisor::{
    closure_fingerprint, harness_fallback, harness_step, node_dist_dir, node_program,
    override_command, path_is_within, HarnessStep,
    readiness_url, should_use_workspace_layout, windows_path_is_within, Backoff, HarnessSupervisor,
    READINESS_PREFIX,
};

/// The library's JSON value of a serde_json value.
fn convert(v: &serde_json::Value) -> JsonValue {
        match v {
            serde_json::Value::Null => JsonValue::Null,
            serde_json::Value::Bool(b) => JsonValue::Bool(*b),
            serde_json::Value::Number(n) => JsonValue::Number(JsonNumber {
                signed: n.as_i64(),
                unsigned: n.as_u64(),
                text: n.to_string(),
            }),
            serde_json::Value::String(s) => JsonValue::Str(s.clone()),
            serde_json::Value::Array(items) => {
                let mut list = JsonList::Nil;
                for item in items.iter().rev() {
                    list = JsonList::Cons(Box::new(convert(item)), Box::new(list));
                }
                JsonValue::Array(list)
            }
            serde_json::Value::Object(map) => {
                let entries: Vec<(&String, &serde_json::Value)> = map.iter().collect();
                let mut members = JsonMembers::Nil;
                for (k, item) in entries.into_iter().rev() {
                    members = JsonMembers::Cons(k.clone(), Box::new(convert(item)), Box::new(members));
                }
                JsonValue::Object(members)
            }
        }
}

/// The library's JSON value of JSON text.
fn json_of(text: &str) -> JsonValue {
    convert(&serde_json::from_str::<serde_json::Value>(text).unwrap())
}

fn sample() -> JsonValue {
    json_of(
        r#"{
            "unit": { "name": "workspace", "version": 2 },
            "global": {
                "initialized": true,
                "workspaceIds": ["ws-a", "ws-b", "ws-c"],
                "archivedSessionIds": ["s2"]
            },
            "tables": {
                "workspaces": {
                    "ws-a": {
                        "path": "C:/proj/alpha",
                        "title": "alpha",
                        "sessionIds": ["s1", "s2"],
                        "createdAt": "2026-08-01T00:00:00Z",
                        "updatedAt": "2026-08-14T00:00:00Z"
                    },
                    "ws-b": {
                        "path": "C:/proj/beta",
                        "title": "beta",
                        "sessionIds": [],
                        "createdAt": "2026-08-02T00:00:00Z",
                        "updatedAt": "2026-08-03T00:00:00Z"
                    },
                    "ws-c": {
                        "path": "C:/proj/gamma",
                        "title": "gamma",
                        "sessionIds": ["s3"],
                        "createdAt": "2026-08-03T00:00:00Z",
                        "updatedAt": "2026-08-04T00:00:00Z"
                    }
                }
            }
        }"#,
    )
}

fn day(year: i32, month: u32, d: u32) -> LogDate {
    LogDate { year, month, day: d }
}

#[test]
fn parses_workspaces_in_display_order() {
    let cards = parse_workspaces(&sample());
    assert_eq!(cards.len(), 3);
    assert_eq!(cards.iter().map(|c| c.id.as_str()).collect::<Vec<_>>(), vec!["ws-a", "ws-b", "ws-c"]);
}

#[test]
fn derives_status_from_session_accounting() {
    let cards = parse_workspaces(&sample());
    let by_id = |id: &str| cards.iter().find(|c| c.id == id).unwrap();
    let a = by_id("ws-a");
    assert_eq!(a.session_count, 2);
    assert_eq!(a.archived_session_count, 1);
    assert_eq!(a.status, "active");
    assert_eq!(by_id("ws-b").status, "empty");
    assert_eq!(by_id("ws-c").status, "active");
}

#[test]
fn missing_storage_parses_to_empty() {
    assert!(parse_workspaces(&json_of("{}")).is_empty());
}

#[test]
fn board_falls_back_to_table_order_and_marks_archived() {
    let registry = json_of(
        r#"{"global":{"workspaceIds":[],"archivedSessionIds":["s1"]},
            "tables":{"workspaces":{"b":{"sessionIds":["s1"]},"a":{"title":"A"}}}}"#,
    );
    let cards = parse_workspaces(&registry);
    assert_eq!(cards.iter().map(|c| c.id.as_str()).collect::<Vec<_>>(), vec!["a", "b"]);
    assert_eq!(cards[0].title, "A");
    assert_eq!(cards[0].path, "");
    assert_eq!(cards[1].status, "archived");
}

#[test]
fn recognizes_only_owned_daily_log_files() {
    let d = day(2026, 8, 17);
    assert_eq!(log_file_name(d), "dsh-desktop-2026-08-17.log");
    assert_eq!(parse_log_date("dsh-desktop-2026-08-17.log"), Some(d));
    assert_eq!(parse_log_date("other-2026-08-17.log"), None);
    assert_eq!(parse_log_date("dsh-desktop-current.log"), None);
}

#[test]
fn redacts_common_secret_bearing_lines() {
    assert_eq!(redact("Authorization: Bearer secret"), "[redacted potentially sensitive log line]");
    assert_eq!(redact("server ready"), "server ready");
}

#[test]
fn log_lines_name_level_and_scope() {
    assert_eq!(info("codex", "started"), "[INFO] [codex] started");
    assert_eq!(warn("dsh", "slow"), "[WARN] [dsh] slow");
    assert_eq!(error("codex", "refresh_token=abc"), "[ERROR] [codex] [redacted potentially sensitive log line]");
}

#[test]
fn old_log_files_expire_after_three_days() {
    let today = day(2026, 8, 17);
    assert!(!expired_log("dsh-desktop-2026-08-17.log", true, today));
    assert!(!expired_log("dsh-desktop-2026-08-15.log", true, today));
    assert!(expired_log("dsh-desktop-2026-08-14.log", true, today));
    assert!(expired_log("dsh-desktop-2025-12-31.log", true, today));
    assert!(!expired_log("dsh-desktop-2026-08-14.log", false, today));
    assert!(!expired_log("keep-me.txt", true, today));
    assert!(!expired_log("dsh-desktop-2026-03-01.log", true, day(2026, 3, 2)));
    assert!(!expired_log("dsh-desktop-2026-02-27.log", true, day(2026, 3, 1)));
    assert!(expired_log("dsh-desktop-2026-02-26.log", true, day(2026, 3, 1)));
}

#[test]
fn diff_text_marks_added_and_removed_lines() {
    let a = "line1\nline2\n";
    let b = "line1\nline3\n";
    let diff = diff_text(a, b);
    assert!(diff.contains("+ line3"), "diff was: {diff}");
    assert!(diff.contains("- line2"), "diff was: {diff}");
    assert_eq!(diff_text("same\n", "same\n"), "(无变化)");
}

#[test]
fn lines_follow_str_lines() {
    assert_eq!(lines_of("a\r\nb\n\nc"), vec!["a", "b", "", "c"]);
    assert_eq!(lines_of("x\r"), vec!["x\r"]);
    assert!(lines_of("").is_empty());
    assert_eq!(diff_text("a\nb", "b\nc\n"), "+ c\n- a\n");
}

#[test]
fn read_deps_parses_dependencies() {
    let deps = read_deps(&json_of(r#"{"dependencies":{"a":"^1.0.0","b":"2.0.0"}}"#));
    assert_eq!(deps.get("a").map(String::as_str), Some("^1.0.0"));
    assert_eq!(deps.get("b").map(String::as_str), Some("2.0.0"));
}

#[test]
fn preview_lists_added_and_removed_plugins() {
    let active = read_deps(&json_of(r#"{"dependencies":{"a":"1","b":"2"}}"#));
    let candidate = read_deps(&json_of(r#"{"dependencies":{"b":"2","c":3}}"#));
    let preview = plugin_preview(&active, &candidate, "x: 1\n", "x: 1\n");
    assert_eq!(preview.added, vec!["c@"]);
    assert_eq!(preview.removed, vec!["a@1"]);
    assert_eq!(preview.patch_diff, "(无变化)");
}

#[test]
fn release_build_never_selects_workspace_layout() {
    assert!(should_use_workspace_layout(true, true));
    assert!(!should_use_workspace_layout(false, true));
    assert!(!should_use_workspace_layout(true, false));
}

#[test]
fn workspace_link_target_matching_respects_path_boundaries() {
    let root = "/work/dsh/node_modules";
    assert!(path_is_within("/work/dsh/node_modules/.pnpm/react", root, false));
    assert!(!path_is_within("/work/dsh/node_modules-elsewhere/react", root, false));
    assert!(!path_is_within("C:/another-project/node_modules/react", root, false));
}

#[test]
fn windows_link_targets_are_compared_case_insensitively() {
    let root = r"C:\Work\dsh\node_modules";
    assert!(windows_path_is_within(r"\\?\c:\work\DSH\node_modules\.pnpm\react", root));
    assert!(windows_path_is_within("C:/Work/dsh/node_modules/react", root));
    assert!(!windows_path_is_within(r"C:\Work\dsh\node_modules-elsewhere\react", root));
    assert!(path_is_within(r"C:\Work\dsh\node_modules\x", root, true));
}

#[test]
fn readiness_prefix_parses_origin() {
    let line = "dsh web: http://127.0.0.1:1730";
    let url = line.strip_prefix(READINESS_PREFIX).unwrap().trim();
    assert_eq!(url, "http://127.0.0.1:1730");
    assert_eq!(readiness_url(line).as_deref(), Some("http://127.0.0.1:1730"));
    assert_eq!(readiness_url("dsh web:   http://x  ").as_deref(), Some("http://x"));
    assert_eq!(readiness_url("listening"), None);
}

#[test]
fn restart_backoff_doubles_up_to_thirty_seconds() {
    let mut backoff = Backoff::new();
    let waits: Vec<u64> = (0..7).map(|_| backoff.next_wait()).collect();
    assert_eq!(waits, vec![1, 2, 4, 8, 16, 30, 30]);
    backoff.reset();
    assert_eq!(backoff.next_wait(), 1);
}

#[test]
fn supervisor_tracks_the_child() {
    let mut supervisor = HarnessSupervisor::new();
    assert_eq!(supervisor.url(), None);
    supervisor.child_started(42);
    supervisor.child_ready("http://127.0.0.1:1".into());
    assert_eq!(supervisor.url().as_deref(), Some("http://127.0.0.1:1"));
    assert_eq!(supervisor.shutdown(), Some(42));
    assert!(supervisor.shutdown_requested);
    supervisor.child_ended();
    assert_eq!(supervisor.url(), None);
    assert_eq!(supervisor.shutdown(), None);
}

#[test]
fn harness_command_helpers() {
    let (program, args) = override_command("  node  /x/dsh-web.mjs --flag ").unwrap();
    assert_eq!(program, "node");
    assert_eq!(args, vec!["/x/dsh-web.mjs", "--flag"]);
    assert!(override_command("   ").is_none());
    assert_eq!(node_program(true), "node.exe");
    assert_eq!(node_program(false), "node");
    assert_eq!(node_dist_dir("linux", "aarch64"), "linux-arm64");
    assert_eq!(node_dist_dir("windows", "x86_64"), "win-x64");
    assert_eq!(node_dist_dir("freebsd", "x86_64"), "unknown");
    assert_eq!(closure_fingerprint(255, 4096), "ff-1000");
}

#[test]
fn allows_tauri_and_loopback_only() {
    assert!(is_allowed_navigation("tauri://localhost/index.html"));
    assert!(is_allowed_navigation("http://127.0.0.1:8298/"));
    assert!(is_allowed_navigation("http://localhost:3080/"));
    assert!(!is_allowed_navigation("https://example.com/"));
    assert!(!is_allowed_navigation("https://github.com/x/y"));
    assert!(!is_allowed_navigation("file:///etc/passwd"));
}

#[test]
fn bridges_check_window_and_origin() {
    let harness = Some("http://127.0.0.1:8298/");
    assert!(authorize_session_bridge("main", harness, Some("http://127.0.0.1:8298/chat")).is_ok());
    assert_eq!(
        authorize_session_bridge("main", harness, Some("http://127.0.0.1:9999/")).unwrap_err(),
        "Codex session bridge rejected an untrusted web origin"
    );
    assert_eq!(
        authorize_session_bridge("market", harness, None).unwrap_err(),
        "Codex session bridge is only available to the main dsh window"
    );
    assert_eq!(authorize_session_bridge("main", None, None).unwrap_err(), "DeepSeek Harness is not ready");
    assert!(authorize_control_bridge("settings", None, Some("tauri://localhost/settings.html")).is_ok());
    assert!(authorize_control_bridge("settings", None, Some("http://tauri.localhost/")).is_ok());
    assert_eq!(
        authorize_control_bridge("settings", None, Some("https://evil.example/")).unwrap_err(),
        "Codex control bridge rejected an untrusted settings origin"
    );
    assert_eq!(authorize_control_bridge("main", harness, None).unwrap_err(), "Unable to verify window origin");
    assert!(opens_externally("https://example.com/"));
    assert!(!opens_externally("file:///etc/passwd"));
}

#[test]
fn pruning_keeps_exactly_three_calendar_days_and_unrelated_files() {
    let today = day(2026, 8, 17);
    let kept = [day(2026, 8, 17), day(2026, 8, 16), day(2026, 8, 15)];
    for d in kept {
        assert!(!expired_log(&log_file_name(d), true, today));
    }
    assert!(expired_log(&log_file_name(day(2026, 8, 14)), true, today));
    assert!(!expired_log("keep-me.txt", true, today));
}

#[test]
fn posix_containment_goes_by_whole_components() {
    let root = "/work/dsh/node_modules/";
    assert!(path_is_within("/work/dsh//node_modules/./.pnpm/react", root, false));
    assert!(path_is_within("/work/dsh/node_modules", root, false));
    assert!(!path_is_within("work/dsh/node_modules/react", root, false));
    assert!(!path_is_within("/work/dsh/node_module", root, false));
    assert!(path_is_within("./a/b", "./a", false));
    assert!(!path_is_within("a/b", "./a", false));
}

#[test]
fn storage_texts_are_parsed_before_projection() {
    assert!(workspace_cards("{}").unwrap().is_empty());
    assert!(workspace_cards("not json").is_err());
    let deps = profile_deps_of(r#"{"dependencies":{"left-pad":"^1.3.0"}}"#).unwrap();
    assert_eq!(deps.get("left-pad").map(String::as_str), Some("^1.3.0"));
    assert!(profile_deps_of("{").is_err());
}

#[test]
fn log_names_sign_years_outside_four_digits() {
    assert_eq!(log_file_name(day(10000, 1, 2)), "dsh-desktop-+10000-01-02.log");
    assert_eq!(log_file_name(day(-1, 3, 4)), "dsh-desktop--0001-03-04.log");
    assert_eq!(log_file_name(day(7, 11, 30)), "dsh-desktop-0007-11-30.log");
}

#[test]
fn harness_command_prefers_override_then_workspace_then_bundle() {
    let script = "/w/apps/runtime/dsh-web.mjs";
    match harness_step(Some("  custom --flag x "), false, true, script, true) {
        HarnessStep::Run(p, a) => {
            assert_eq!(p, "custom");
            assert_eq!(a, vec!["--flag".to_string(), "x".to_string()]);
        }
        other => panic!("unexpected {other:?}"),
    }
    match harness_step(Some("   "), true, true, script, true) {
        HarnessStep::Run(p, a) => {
            assert_eq!(p, "node.exe");
            assert_eq!(a, vec![script.to_string()]);
        }
        other => panic!("unexpected {other:?}"),
    }
    assert!(matches!(harness_step(None, false, false, script, true), HarnessStep::Bundled));
    assert!(matches!(harness_step(None, false, true, script, false), HarnessStep::Bundled));
    assert_eq!(
        harness_fallback(false, script, Some(("/r/node/node".into(), "/d/rt/dsh-web.mjs".into()))),
        ("/r/node/node".to_string(), vec!["/d/rt/dsh-web.mjs".to_string()])
    );
    assert_eq!(harness_fallback(false, script, None), ("node".to_string(), vec![script.to_string()]));
}
