use codex_air::app_server::{AccountField, AccountStatus};
use codex_air::settings::{
    access_label, apply_account, effort_label, enabled_label, find_model, hook_detail, model_button_label,
    model_entry, plugin_detail, reset_label, session_caption, settings_model_id, tool_count, window_fallback,
    window_label, ComposerState, ConfigRead, JsonText, ModelEntry, Refreshes, Section, SettingsQuery,
};
use codex_air::storage::{
    backup_name, interpret_stored, load_read, load_recovered, normalized_warning, read_failure_warning,
    recovery_warning, state_file_name, temporary_name, unsupported_version_reason, LoadStep, ReadOutcome,
    StoredState, BACKUP_ATTEMPTS,
};
use codex_air::updates::{
    interpret_release, is_later, parse_u64, parse_version, size_error, status_error, strip_v, update_message,
    IntErrorKind, LatestRelease, ReleaseError, release_from_body,
};
use codex_air::workspace::{AppState, Workspace, WorkspaceRoot};

#[test]
fn numbers_parse_like_std() {
    assert_eq!(parse_u64("42"), Ok(42));
    assert_eq!(parse_u64("18446744073709551615"), Ok(u64::MAX));
    assert_eq!(parse_u64(""), Err(IntErrorKind::Empty));
    assert_eq!(parse_u64("4a"), Err(IntErrorKind::InvalidDigit));
    assert_eq!(parse_u64("18446744073709551616"), Err(IntErrorKind::PosOverflow));
    assert_eq!(parse_u64("+7"), Ok(7));
    assert_eq!(parse_u64("+"), Err(IntErrorKind::InvalidDigit));
    assert_eq!(IntErrorKind::Empty.message(), "cannot parse integer from empty string");
}

#[test]
fn versions() {
    assert_eq!(parse_version("1.2.3").ok(), Some((1, 2, 3)));
    match parse_version("1.2") {
        Err(e) => assert_eq!(e.message(), "Unsupported release version: 1.2"),
        Ok(_) => panic!("expected an error"),
    }
    match parse_version("1.x.3") {
        Err(ReleaseError::InvalidNumber(k)) => assert_eq!(k, IntErrorKind::InvalidDigit),
        _ => panic!("expected an invalid number"),
    }
    assert!(is_later((0, 4, 0), (0, 3, 9)));
    assert!(!is_later((0, 3, 0), (0, 3, 0)));
    assert!(is_later((1, 0, 0), (0, 9, 9)));
    assert_eq!(strip_v("vv1.0.0"), "1.0.0");
    assert_eq!(strip_v("1.0.0"), "1.0.0");
}

#[test]
fn releases_are_compared_with_the_installed_version() {
    let newer = interpret_release(Some("v0.4.0".to_string()), "0.3.0").ok().unwrap();
    assert_eq!(newer.version, "0.4.0");
    assert!(newer.newer);
    let same = interpret_release(Some("0.3.0".to_string()), "0.3.0").ok().unwrap();
    assert!(!same.newer);
    match interpret_release(None, "0.3.0") {
        Err(e) => assert_eq!(e.message(), "GitHub did not return a release version."),
        Ok(_) => panic!("expected an error"),
    }
    assert_eq!(
        update_message(&Ok(LatestRelease { version: "0.4.0".to_string(), newer: true }), "0.3.0"),
        "Codex Air 0.4.0 is available."
    );
    assert_eq!(
        update_message(&Ok(LatestRelease { version: "0.3.0".to_string(), newer: false }), "0.3.0"),
        "Installed: 0.3.0. Latest published release: 0.3.0."
    );
    assert_eq!(update_message(&Err("offline".to_string()), "0.3.0"), "Could not check for updates: offline");
    assert_eq!(status_error(200), None);
    assert_eq!(status_error(404).as_deref(), Some("GitHub returned HTTP 404. Try again later."));
    assert_eq!(size_error(1_048_576), None);
    assert_eq!(size_error(1_048_577).as_deref(), Some("Release response exceeded the expected size."));
}

fn valid_state() -> AppState {
    AppState {
        version: 1,
        workspaces: vec![Workspace {
            id: 1,
            name: None,
            pinned: false,
            archived: false,
            thread_id: None,
            roots: vec![WorkspaceRoot { id: 2, path: "C:/a".to_string() }],
            default_root: Some(2),
        }],
        active_workspace: Some(1),
    }
}

#[test]
fn loading_decisions() {
    match load_read("C:/s/state.json", ReadOutcome::Missing) {
        LoadStep::Done(l) => {
            assert!(l.can_save && l.warning.is_none() && l.state.workspaces.is_empty());
        }
        LoadStep::Recover(_) => panic!("expected a fresh start"),
    }
    match load_read("C:/s/state.json", ReadOutcome::Failed("Access is denied.".to_string())) {
        LoadStep::Done(l) => {
            assert!(!l.can_save);
            assert_eq!(l.warning.as_deref(), Some("Could not read workspace state at C:/s/state.json: Access is denied."));
        }
        LoadStep::Recover(_) => panic!("expected a protected start"),
    }
    match load_read("p", ReadOutcome::Parsed(Ok(valid_state()))) {
        LoadStep::Done(l) => {
            assert!(l.can_save && l.warning.is_none());
            assert_eq!(l.state.workspaces.len(), 1);
            assert_eq!(l.state.active_workspace, Some(1));
        }
        LoadStep::Recover(_) => panic!("expected the state"),
    }
    let mut dangling = valid_state();
    dangling.active_workspace = Some(9);
    match load_read("p", ReadOutcome::Parsed(Ok(dangling))) {
        LoadStep::Done(l) => {
            assert_eq!(l.warning.as_deref(), Some("Workspace state contained invalid references or values and was normalized."));
            assert_eq!(l.state.active_workspace, None);
        }
        LoadStep::Recover(_) => panic!("expected the state"),
    }
    let mut future = valid_state();
    future.version = 2;
    match load_read("p", ReadOutcome::Parsed(Ok(future))) {
        LoadStep::Recover(reason) => assert_eq!(reason, "workspace state uses unsupported version 2 (supported version is 1)"),
        LoadStep::Done(_) => panic!("expected recovery"),
    }
    match load_read("p", ReadOutcome::Parsed(Err("expected value at line 1 column 1".to_string()))) {
        LoadStep::Recover(reason) => assert_eq!(reason, "invalid workspace state JSON: expected value at line 1 column 1"),
        LoadStep::Done(_) => panic!("expected recovery"),
    }
    let kept = load_recovered("C:/s/state.json", "bad", &Ok("C:/s/state.json.bak".to_string()));
    assert!(kept.can_save);
    assert_eq!(
        kept.warning.as_deref(),
        Some("Could not load workspace state at C:/s/state.json: bad. The original file was preserved as C:/s/state.json.bak.")
    );
    let lost = load_recovered("C:/s/state.json", "bad", &Err("disk full".to_string()));
    assert!(!lost.can_save);
    assert_eq!(
        lost.warning.as_deref(),
        Some("Could not load workspace state at C:/s/state.json: bad. The original file could not be backed up: disk full.")
    );
}

#[test]
fn storage_texts() {
    assert!(matches!(interpret_stored(Ok(valid_state())), StoredState::Usable(_)));
    assert_eq!(unsupported_version_reason(0), "workspace state uses unsupported version 0 (supported version is 1)");
    assert_eq!(normalized_warning(false), None);
    assert_eq!(read_failure_warning("x", "y"), "Could not read workspace state at x: y");
    assert!(recovery_warning("x", "y", &Ok("b".to_string())).1);
    assert_eq!(state_file_name(None), "state.json");
    assert_eq!(state_file_name(Some("s.json".to_string())), "s.json");
    assert_eq!(backup_name("state.json", 0), "state.json.bak");
    assert_eq!(backup_name("state.json", 12), "state.json.bak.12");
    assert_eq!(BACKUP_ATTEMPTS, 1000);
    assert_eq!(temporary_name("state.json", 77, 123456789), ".state.json.tmp.77.123456789");
}

#[test]
fn settings_pages() {
    let all = Section::all();
    assert_eq!(all.len(), 8);
    assert_eq!(all[3].label(), "Usage & billing");
    assert_eq!(Section::Mcp.query(), SettingsQuery::McpServers);
    assert_eq!(Section::Personalization.query(), SettingsQuery::ConfigRead);
    assert!(Section::General.lists_models());
    assert!(!Section::Usage.lists_models());
    assert!(Section::Account.refreshes_account());
    assert_eq!(access_label(Some("workspace-write")), "Workspace access");
    assert_eq!(access_label(Some("danger-full-access")), "Full access");
    assert_eq!(access_label(Some("read-only")), "Read only");
    assert_eq!(access_label(Some("other")), "Configured access");
    assert_eq!(access_label(None), "Configured access");
}

#[test]
fn usage_windows() {
    assert_eq!(window_label(Some(10080), "x"), "7 day limit");
    assert_eq!(window_label(Some(300), "x"), "5 hour limit");
    assert_eq!(window_label(Some(45), "x"), "45 minute limit");
    assert_eq!(window_label(Some(-5), "x"), "-5 minute limit");
    assert_eq!(window_label(None, "Weekly window"), "Weekly window");
    assert_eq!(window_fallback(true), "Weekly window");
    assert_eq!(window_fallback(false), "Current window");
    assert_eq!(reset_label(Some(1000 + 90061), Some(1000)), "Resets in 1d 1h");
    assert_eq!(reset_label(Some(1000 + 3700), Some(1000)), "Resets in 1h 2m");
    assert_eq!(reset_label(Some(1000 + 61), Some(1000)), "Resets in 2m");
    assert_eq!(reset_label(Some(10), Some(1000)), "Resets in 0m");
    assert_eq!(reset_label(None, Some(1000)), "");
}

#[test]
fn models() {
    assert_eq!(settings_model_id(JsonText::Text("gpt".to_string()), JsonText::Text("id".to_string())).as_deref(), Some("gpt"));
    assert_eq!(settings_model_id(JsonText::Missing, JsonText::Text("id".to_string())).as_deref(), Some("id"));
    assert_eq!(settings_model_id(JsonText::Other, JsonText::Text("id".to_string())), None);
    let entry = model_entry("gpt-5".to_string(), None, vec!["low".to_string()], Some("low".to_string()));
    assert_eq!(entry.name, "gpt-5");
    let named = model_entry("gpt-5".to_string(), Some("GPT-5".to_string()), vec![], None);
    let models: Vec<ModelEntry> = vec![named.clone(), entry.clone()];
    assert_eq!(find_model(&models, "gpt-5"), Some(0));
    assert_eq!(find_model(&models, "none"), None);
    assert_eq!(model_button_label(&models, Some("gpt-5"), false), "GPT-5");
    assert_eq!(model_button_label(&models, Some("o3"), false), "o3");
    assert_eq!(model_button_label(&models, None, true), "Loading models…");
    assert_eq!(model_button_label(&models, None, false), "Default model");
    assert_eq!(effort_label(None), "Default effort");
    assert_eq!(effort_label(Some("high")), "high");
}

#[test]
fn account_page() {
    let mut status = AccountStatus { connected: false, email: None, plan: None, detail: Some("d".to_string()) };
    apply_account(&mut status, AccountField::Present { email: Some("e".to_string()), plan: None });
    assert!(status.connected);
    assert_eq!(status.email.as_deref(), Some("e"));
    apply_account(&mut status, AccountField::Null);
    assert!(!status.connected && status.email.is_none());
    apply_account(&mut status, AccountField::Missing);
    assert!(!status.connected);
    assert_eq!(session_caption(Some("t1")), "Session: t1");
    assert_eq!(session_caption(None), "New session");
    assert_eq!(hook_detail(Some("PreToolUse"), None, Some("trusted")), "PreToolUse · unknown source · trusted");
    assert_eq!(plugin_detail(Some("off")), "Installed plugin · off");
    assert_eq!(plugin_detail(None), "Installed plugin");
    assert_eq!(enabled_label(true), "Enabled");
    assert_eq!(tool_count(3), "3 tools");
}

#[test]
fn stale_replies_are_ignored() {
    let mut refreshes = Refreshes::new();
    let first = refreshes.begin();
    let second = refreshes.begin();
    assert_eq!((first, second), (1, 2));
    assert!(!refreshes.finish(first, Some("late".to_string())));
    assert!(refreshes.loading);
    assert!(refreshes.message.is_none());
    assert!(refreshes.finish(second, Some("failed".to_string())));
    assert!(!refreshes.loading);
    assert_eq!(refreshes.message.as_deref(), Some("failed"));
}

#[test]
fn composer_controls() {
    let (mut controls, g) = ComposerState::new(Some("C:/a".to_string()));
    assert_eq!(g, 1);
    assert_eq!(controls.access, "Configured access");
    let config = ConfigRead {
        model: Some("gpt-5".to_string()),
        effort: Some("high".to_string()),
        sandbox_mode: Some("read-only".to_string()),
    };
    let catalog = vec![model_entry("gpt-5".to_string(), None, vec![], None)];
    assert!(controls.apply(g, Ok(config.clone()), Ok(catalog)));
    assert_eq!(controls.model.as_deref(), Some("gpt-5"));
    assert_eq!(controls.access, "Read only");
    assert_eq!(controls.models.len(), 1);
    assert!(!controls.refreshes.loading);
    assert_eq!(controls.set_workspace(Some("C:/a".to_string())), None);
    let next = controls.set_workspace(Some("C:/b".to_string())).unwrap();
    assert_eq!(next, 2);
    assert!(controls.model.is_none() && controls.effort.is_none());
    assert!(!controls.apply(g, Ok(config), Ok(Vec::new())));
    assert!(controls.apply(next, Err("no config".to_string()), Err("no models".to_string())));
    assert_eq!(controls.refreshes.message.as_deref(), Some("no models"));
    assert_eq!(controls.models.len(), 1);
}

#[test]
fn release_bodies_are_read() {
    let newer = release_from_body(br#"{"tag_name":"v0.4.0","name":"Codex Air 0.4.0"}"#, "0.3.0").expect("a release");
    assert_eq!(newer.version, "0.4.0");
    assert!(newer.newer);
    let same = release_from_body(br#"{"tag_name":"0.3.0"}"#, "0.3.0").expect("a release");
    assert!(!same.newer);
    match release_from_body(br#"{"name":"x"}"#, "0.3.0") {
        Err(e) => assert_eq!(e, "GitHub did not return a release version."),
        Ok(_) => panic!("expected an error"),
    }
    match release_from_body(br#"{"tag_name":"v1.2"}"#, "0.3.0") {
        Err(e) => assert_eq!(e, "Unsupported release version: 1.2"),
        Ok(_) => panic!("expected an error"),
    }
    assert!(release_from_body(b"<html>rate limited</html>", "0.3.0").is_err());
    assert!(release_from_body(br#"{"tag_name":7}"#, "0.3.0").is_err());
}
