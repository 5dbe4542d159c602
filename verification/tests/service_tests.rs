//! Tests of paths, sanitation, configuration and the git/terminal
//! policies.

use bridge_core::config::constant_time_eq;
use bridge_core::config::resolve_max_voice_transcription_bytes;
use bridge_core::config::BridgeConfig;
use bridge_core::git::parse_porcelain_status_entries;
use bridge_core::paths::normalize_path;
use bridge_core::paths::resolve_exec_cwd;
use bridge_core::paths::resolve_git_cwd;
use bridge_core::paths::resolve_repo_relative_path;
use bridge_core::sanitize::build_attachment_file_name;
use bridge_core::sanitize::contains_disallowed_control_chars;
use bridge_core::sanitize::decode_base64_payload;
use bridge_core::sanitize::estimate_base64_decoded_size;
use bridge_core::sanitize::infer_extension_from_mime;
use bridge_core::sanitize::normalize_attachment_kind;
use bridge_core::sanitize::normalize_transcription_file_name;
use bridge_core::sanitize::normalize_transcription_mime_type;
use bridge_core::sanitize::sanitize_filename;
use bridge_core::sanitize::sanitize_path_segment;
use bridge_core::terminal::TerminalService;

#[test]
fn resolves_relative_cwd_against_root() {
    let resolved =
        resolve_git_cwd(Some("workspace/repo"), "/bridge/root", false).expect("resolve relative cwd");
    assert_eq!(resolved, "/bridge/root/workspace/repo");
}

#[test]
fn rejects_absolute_cwd_outside_root_by_default() {
    let error = resolve_git_cwd(Some("/external/repo"), "/bridge/root", false)
        .expect_err("reject outside-root cwd");
    assert_eq!(error.code, -32602);
}

#[test]
fn rejects_relative_cwd_that_escapes_root() {
    let error =
        resolve_git_cwd(Some("../outside"), "/bridge/root", false).expect_err("reject escaped cwd");
    assert_eq!(error.code, -32602);
}

#[test]
fn allows_absolute_cwd_outside_root_when_enabled() {
    let resolved =
        resolve_git_cwd(Some("/external/repo"), "/bridge/root", true).expect("allow outside root");
    assert_eq!(resolved, "/external/repo");
}

#[test]
fn falls_back_to_root_when_cwd_missing() {
    let resolved = resolve_git_cwd(None, "/bridge/root", false).expect("fallback to root");
    assert_eq!(resolved, "/bridge/root");
}

#[test]
fn resolves_repo_relative_path_and_rejects_escape() {
    let normalized = resolve_repo_relative_path("src/../src/main.rs", "/bridge/root/repo")
        .expect("resolve normalized relative path");
    assert_eq!(normalized, "src/main.rs");

    let error = resolve_repo_relative_path("../outside.txt", "/bridge/root/repo")
        .expect_err("reject escape path");
    assert_eq!(error.code, -32602);
}

#[test]
fn parses_porcelain_entries_for_rename_and_untracked() {
    let raw = "## main...origin/main\0R  new/path.ts\0old/path.ts\0?? fresh/file.ts\0";
    let entries = parse_porcelain_status_entries(raw).expect("parse status entries");
    assert_eq!(entries.len(), 2);

    let renamed = &entries[0];
    assert_eq!(renamed.path, "new/path.ts");
    assert_eq!(renamed.original_path.as_deref(), Some("old/path.ts"));
    assert_eq!(renamed.index_status, "R");
    assert_eq!(renamed.worktree_status, " ");
    assert!(renamed.staged);
    assert!(!renamed.unstaged);
    assert!(!renamed.untracked);

    let untracked = &entries[1];
    assert_eq!(untracked.path, "fresh/file.ts");
    assert_eq!(untracked.index_status, "?");
    assert_eq!(untracked.worktree_status, "?");
    assert!(!untracked.staged);
    assert!(untracked.unstaged);
    assert!(untracked.untracked);
}

#[test]
fn resolves_relative_exec_cwd_against_root() {
    let resolved =
        resolve_exec_cwd(Some("workspace/repo"), "/bridge/root", false).expect("resolve relative cwd");
    assert_eq!(resolved, "/bridge/root/workspace/repo");
}

#[test]
fn rejects_absolute_exec_cwd_outside_root_by_default() {
    let error = resolve_exec_cwd(Some("/external/repo"), "/bridge/root", false)
        .expect_err("reject outside-root cwd");
    assert_eq!(error.code, -32602);
}

#[test]
fn rejects_relative_exec_cwd_that_escapes_root() {
    let error =
        resolve_exec_cwd(Some("../outside"), "/bridge/root", false).expect_err("reject escape path");
    assert_eq!(error.code, -32602);
}

#[test]
fn allows_absolute_exec_cwd_outside_root_when_enabled() {
    let resolved =
        resolve_exec_cwd(Some("/external/repo"), "/bridge/root", true).expect("allow outside root");
    assert_eq!(resolved, "/external/repo");
}

#[test]
fn normalize_path_collapses_current_and_parent_components() {
    assert_eq!(
        normalize_path("/tmp/./bridge/../repo/./main.rs"),
        "/tmp/repo/main.rs"
    );
    assert_eq!(normalize_path("a/b/../c/./d"), "a/c/d");
}

#[test]
fn decode_base64_payload_supports_standard_urlsafe_and_data_uri_inputs() {
    assert_eq!(
        decode_base64_payload("aGVsbG8=").expect("decode standard base64"),
        b"hello".to_vec()
    );
    assert_eq!(
        decode_base64_payload("data:text/plain;base64,aGVsbG8=").expect("decode data-uri base64"),
        b"hello".to_vec()
    );
    assert_eq!(decode_base64_payload("_w==").expect("decode url-safe base64"), vec![255]);
}

#[test]
fn decode_base64_payload_rejects_invalid_payloads() {
    assert!(decode_base64_payload("not@@base64").is_err());
    assert!(decode_base64_payload("data:text/plain;base64,").is_err());
}

#[test]
fn estimate_base64_decoded_size_matches_expected_values() {
    assert_eq!(estimate_base64_decoded_size("aGVsbG8=").unwrap_or_default(), 5);
    assert_eq!(
        estimate_base64_decoded_size("data:text/plain;base64,aGVsbG8=").unwrap_or_default(),
        5
    );
    assert_eq!(estimate_base64_decoded_size("YQ==").unwrap_or_default(), 1);
}

#[test]
fn attachment_kind_normalization_uses_kind_then_mime_fallback() {
    assert_eq!(normalize_attachment_kind(Some("image"), None), "image");
    assert_eq!(normalize_attachment_kind(Some(" FILE "), None), "file");
    assert_eq!(normalize_attachment_kind(Some("unknown"), Some("image/png")), "image");
    assert_eq!(normalize_attachment_kind(None, Some("application/pdf")), "file");
}

#[test]
fn attachment_file_name_building_sanitizes_and_infers_extension() {
    assert_eq!(
        build_attachment_file_name(None, Some("image/png"), "image"),
        "image.png"
    );
    assert_eq!(
        build_attachment_file_name(Some("../weird name?.txt"), None, "file"),
        "weird_name_.txt"
    );
    assert_eq!(
        build_attachment_file_name(Some("notes"), Some("application/json"), "file"),
        "notes.json"
    );
}

#[test]
fn sanitize_filename_drops_path_segments_and_limits_length() {
    assert_eq!(sanitize_filename("../unsafe/..\\evil?.txt"), "evil_.txt".to_string());
    assert_eq!(sanitize_filename("..."), "attachment".to_string());
    assert_eq!(sanitize_filename(&"a".repeat(120)).len(), 96);
}

#[test]
fn sanitize_path_segment_keeps_safe_characters_only() {
    assert_eq!(sanitize_path_segment(" ../Thread 01/.. "), "Thread_01".to_string());
    assert_eq!(sanitize_path_segment(&"a".repeat(80)).len(), 64);
}

#[test]
fn sanitizing_twice_equals_sanitizing_once() {
    for name in ["../weird name?.txt", "evil_.txt", "...", "a b c", "x/y/z.png"] {
        let once = sanitize_filename(name);
        assert_eq!(sanitize_filename(&once), once);
    }
    for segment in [" ../Thread 01/.. ", "Thread_01", "", "a b"] {
        let once = sanitize_path_segment(segment);
        assert_eq!(sanitize_path_segment(&once), once);
    }
}

#[test]
fn infer_extension_from_mime_handles_supported_and_unknown_values() {
    assert_eq!(infer_extension_from_mime(Some("image/JPEG")), Some("jpg"));
    assert_eq!(infer_extension_from_mime(Some("text/plain")), Some("txt"));
    assert_eq!(infer_extension_from_mime(Some("application/zip")), None);
}

#[test]
fn transcription_mime_normalization_accepts_known_values_and_falls_back() {
    assert_eq!(
        normalize_transcription_mime_type(Some(" audio/MP4 ")),
        "audio/mp4".to_string()
    );
    assert_eq!(
        normalize_transcription_mime_type(Some("audio/webm;codecs=opus")),
        "audio/webm".to_string()
    );
    assert_eq!(
        normalize_transcription_mime_type(Some("audio/mpga")),
        "audio/mpeg".to_string()
    );
    assert_eq!(
        normalize_transcription_mime_type(Some("application/octet-stream")),
        "audio/wav".to_string()
    );
    assert_eq!(normalize_transcription_mime_type(None), "audio/wav".to_string());
}

#[test]
fn transcription_file_name_normalization_sanitizes_and_sets_extension() {
    assert_eq!(
        normalize_transcription_file_name(Some("../voice note"), "audio/mp4"),
        "voice_note.m4a".to_string()
    );
    assert_eq!(
        normalize_transcription_file_name(None, "audio/wav"),
        "audio.wav".to_string()
    );
    assert_eq!(
        normalize_transcription_file_name(Some("meeting"), "audio/webm"),
        "meeting.webm".to_string()
    );
}

#[test]
fn disallowed_control_character_detection_flags_shell_metacharacters() {
    assert!(!contains_disallowed_control_chars("git status"));
    assert!(contains_disallowed_control_chars("echo hi; ls"));
    assert!(contains_disallowed_control_chars("echo `whoami`"));
}

#[test]
fn constant_time_eq_handles_equal_and_different_strings() {
    assert!(constant_time_eq("secret-token", "secret-token"));
    assert!(!constant_time_eq("secret-token", "secret-tok3n"));
    assert!(!constant_time_eq("secret-token", "secret-token-extra"));
}

#[test]
fn bridge_config_authorization_validates_header_and_query_token_paths() {
    let base = BridgeConfig {
        host: "127.0.0.1".to_string(),
        port: 8787,
        workdir: "/tmp/workdir".to_string(),
        cli_bin: "codex".to_string(),
        auth_token: Some("secret-token".to_string()),
        auth_enabled: true,
        allow_insecure_no_auth: false,
        allow_query_token_auth: false,
        allow_outside_root_cwd: false,
        disable_terminal_exec: false,
        terminal_allowed_commands: Vec::new(),
    };

    assert!(base.is_authorized(Some("bearer secret-token"), None));
    assert!(!base.is_authorized(None, Some("secret-token")));
    assert!(!base.is_authorized(None, Some("secret-tok3n")));

    let query_allowed = BridgeConfig { allow_query_token_auth: true, ..clone_config(&base) };
    assert!(query_allowed.is_authorized(None, Some("secret-token")));
    assert!(query_allowed.is_authorized(None, Some("  secret-token  ")));

    let auth_disabled = BridgeConfig {
        auth_enabled: false,
        auth_token: None,
        ..clone_config(&base)
    };
    assert!(auth_disabled.is_authorized(None, None));
}

fn clone_config(base: &BridgeConfig) -> BridgeConfig {
    BridgeConfig {
        host: base.host.clone(),
        port: base.port,
        workdir: base.workdir.clone(),
        cli_bin: base.cli_bin.clone(),
        auth_token: base.auth_token.clone(),
        auth_enabled: base.auth_enabled,
        allow_insecure_no_auth: base.allow_insecure_no_auth,
        allow_query_token_auth: base.allow_query_token_auth,
        allow_outside_root_cwd: base.allow_outside_root_cwd,
        disable_terminal_exec: base.disable_terminal_exec,
        terminal_allowed_commands: base.terminal_allowed_commands.clone(),
    }
}

#[test]
fn voice_transcription_byte_cap_parses_positive_overrides() {
    assert_eq!(
        resolve_max_voice_transcription_bytes(Some(&"1048576".to_string())),
        1048576
    );
    assert_eq!(
        resolve_max_voice_transcription_bytes(Some(&"0".to_string())),
        100 * 1024 * 1024
    );
    assert_eq!(
        resolve_max_voice_transcription_bytes(Some(&"junk".to_string())),
        100 * 1024 * 1024
    );
    assert_eq!(resolve_max_voice_transcription_bytes(None), 100 * 1024 * 1024);
}

#[test]
fn terminal_policy_refuses_disabled_and_disallowed_commands() {
    let disabled = TerminalService::new("/root/work".to_string(), Vec::new(), true, false);
    let err = disabled
        .plan_shell_command("pwd", None, None)
        .expect_err("disabled terminal refuses");
    assert_eq!(err.code, -32003);

    let service = TerminalService::new(
        "/root/work".to_string(),
        vec!["pwd".to_string(), "git".to_string()],
        false,
        false,
    );
    let err = service
        .plan_shell_command("rm -rf /", None, None)
        .expect_err("off-list command refused");
    assert_eq!(err.code, -32602);
    let err = service
        .plan_shell_command("echo hi; ls", None, None)
        .expect_err("metacharacters refused");
    assert_eq!(err.code, -32602);

    let plan = service
        .plan_shell_command("git status", Some("sub/dir"), Some(10))
        .expect("allowed command planned");
    assert_eq!(plan.binary, "git");
    assert_eq!(plan.args, vec!["status".to_string()]);
    assert_eq!(plan.cwd, "/root/work/sub/dir");
    assert_eq!(plan.timeout_ms, 100);
    assert_eq!(plan.display_command, "git status");
}
