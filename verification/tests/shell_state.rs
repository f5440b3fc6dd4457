use codex_air::app_server::{AccountStatus, Request, Update};
use codex_air::controller::{Command, Snapshot};
use codex_air::shell::{
    account_action, account_identity, account_label, archive_label, composer_status,
    folder_available, header_title, pin_label, search_target, send_enabled, send_label,
    sidebar_list, task_target, trim_activity, visible_activity, window_title, workspace_kind,
    ActivityLine, ShellAction, ShellState, SnapshotStep, ACTIVITY_LIMIT,
};
use codex_air::workspace::{AppState, Workspace, WorkspaceRoot};

fn workspace(id: u128, name: Option<&str>, roots: Vec<(u128, &str)>, default_root: Option<u128>) -> Workspace {
    Workspace {
        id,
        name: name.map(str::to_string),
        pinned: false,
        archived: false,
        thread_id: None,
        roots: roots.into_iter().map(|(id, p)| WorkspaceRoot { id, path: p.to_string() }).collect(),
        default_root,
    }
}

fn state() -> AppState {
    let mut pinned = workspace(1, Some("Alpha"), vec![(10, "C:/code/alpha")], Some(10));
    pinned.pinned = true;
    let recent = workspace(2, None, vec![(20, "C:/code/beta"), (21, "D:/Shared/Docs")], Some(21));
    let mut archived = workspace(3, Some("Gamma"), vec![(30, "C:/old/gamma")], Some(30));
    archived.archived = true;
    archived.pinned = true;
    AppState { version: 1, workspaces: vec![pinned, recent, archived], active_workspace: Some(2) }
}

fn line(workspace: Option<u128>, text: &str) -> ActivityLine {
    ActivityLine { workspace, item_id: None, text: text.to_string() }
}

#[test]
fn activity_keeps_the_last_eighty_lines() {
    let mut lines: Vec<ActivityLine> = (0..85).map(|i| line(Some(1), &i.to_string())).collect();
    trim_activity(&mut lines);
    assert_eq!(lines.len(), ACTIVITY_LIMIT);
    assert_eq!(lines[0].text, "5");
    assert_eq!(lines[79].text, "84");
    let mut few = vec![line(Some(1), "a")];
    trim_activity(&mut few);
    assert_eq!(few.len(), 1);
    assert_eq!(few[0].text, "a");
    let shown = visible_activity(&lines, Some(1));
    assert_eq!(shown.len(), 8);
    assert_eq!(shown[0], "77");
    assert_eq!(shown[7], "84");
}

#[test]
fn activity_is_shown_for_its_own_workspace() {
    let lines = vec![line(Some(1), "a1"), line(Some(2), "b1"), line(Some(1), "a2"), line(None, "n")];
    assert_eq!(visible_activity(&lines, Some(1)), vec!["a1".to_string(), "a2".to_string()]);
    assert_eq!(visible_activity(&lines, Some(2)), vec!["b1".to_string()]);
    assert_eq!(visible_activity(&lines, None), vec!["n".to_string()]);
    assert!(visible_activity(&lines, Some(3)).is_empty());
}

#[test]
fn streamed_fragments_gather_by_item() {
    let mut shell = ShellState::new();
    shell.task_workspace = Some(2);
    let fragment = |item: &str, text: &str| Update::Streamed { item_id: item.to_string(), text: text.to_string() };
    shell.on_update(fragment("a", "Hel"));
    shell.on_update(fragment("b", "ls"));
    shell.on_update(fragment("a", "lo"));
    shell.on_update(Update::Activity("Codex: commandExecution".to_string()));
    shell.on_update(fragment("a", "!"));
    assert_eq!(shell.activity.len(), 3);
    assert_eq!(shell.activity[0].text, "Hello!");
    assert_eq!(shell.activity[0].item_id.as_deref(), Some("a"));
    assert_eq!(shell.activity[1].text, "ls");
    assert_eq!(shell.activity[2].text, "Codex: commandExecution");
    assert!(shell.activity.iter().all(|l| l.workspace == Some(2)));
    shell.task_workspace = Some(3);
    shell.on_update(fragment("a", "new"));
    assert_eq!(shell.activity.len(), 4);
    assert_eq!(shell.activity[3].text, "new");
    assert_eq!(shell.activity[0].text, "Hello!");
}

#[test]
fn sidebar_groups_matching_workspaces() {
    let s = state();
    let all = sidebar_list(&s, "", true);
    assert_eq!(all.pinned, vec![0]);
    assert_eq!(all.recent, vec![1]);
    assert_eq!(all.archived, vec![2]);
    assert!(all.empty_text.is_none());
    let docs = sidebar_list(&s, "DOCS", true);
    assert!(docs.pinned.is_empty());
    assert_eq!(docs.recent, vec![1]);
    let none = sidebar_list(&s, "zzz", true);
    assert_eq!(none.empty_text.as_deref(), Some("No matching workspaces."));
    let empty = sidebar_list(&AppState::default(), "", false);
    assert_eq!(empty.empty_text.as_deref(), Some("Loading workspaces…"));
    let loaded = sidebar_list(&AppState::default(), "", true);
    assert_eq!(loaded.empty_text.as_deref(), Some("Opened workspaces appear here."));
}

#[test]
fn search_selects_the_first_match() {
    let s = state();
    assert_eq!(search_target(&s, "gam"), Some(3));
    assert_eq!(search_target(&s, "CODE"), Some(1));
    assert_eq!(search_target(&s, "beta"), Some(2));
    assert_eq!(search_target(&s, "nothing"), None);
}

#[test]
fn titles() {
    let s = state();
    assert_eq!(window_title(&s), "beta — Codex Air");
    assert_eq!(header_title(&s), "beta");
    assert_eq!(window_title(&AppState::default()), "Codex Air");
    assert_eq!(header_title(&AppState::default()), "No workspace open");
}

#[test]
fn tasks_run_in_the_default_root() {
    let s = state();
    let (id, cwd, thread) = task_target(&s).unwrap();
    assert_eq!(id, 2);
    assert_eq!(cwd, "D:/Shared/Docs");
    assert!(thread.is_none());
    let mut other = s.clone();
    other.workspaces[1].default_root = Some(99);
    assert_eq!(task_target(&other).unwrap().1, "C:/code/beta");
    assert!(task_target(&AppState::default()).is_none());
}

#[test]
fn starting_a_task() {
    let mut shell = ShellState::new();
    assert!(shell.start_task("hi").is_none());
    assert_eq!(shell.warning.as_deref(), Some("Open a workspace folder before starting a Codex task."));
    shell.state = state();
    shell.warning = None;
    assert!(shell.start_task("   ").is_none());
    assert!(!shell.turn_active);
    match shell.start_task("  fix it  ") {
        Some(Request::StartTurn { workspace, cwd, text, thread_id }) => {
            assert_eq!(workspace, 2);
            assert_eq!(cwd, "D:/Shared/Docs");
            assert_eq!(text, "fix it");
            assert!(thread_id.is_none());
        }
        _ => panic!("expected a task"),
    }
    assert!(shell.turn_active);
    assert_eq!(shell.activity.last().map(|l| l.text.as_str()), Some("You: fix it"));
    assert_eq!(shell.activity.last().and_then(|l| l.workspace), Some(2));
    assert_eq!(shell.task_workspace, Some(2));
    assert!(shell.start_task("again").is_none());
    assert_eq!(shell.activity.len(), 1);
}

#[test]
fn following_connection_updates() {
    let mut shell = ShellState::new();
    shell.turn_active = true;
    let status = AccountStatus { connected: true, email: Some("a@b.c".to_string()), plan: None, detail: None };
    assert!(matches!(shell.on_update(Update::Status(status)), ShellAction::Nothing));
    assert!(shell.account.connected);
    match shell.on_update(Update::LoginUrl("https://x".to_string())) {
        ShellAction::OpenUrl(url) => assert_eq!(url, "https://x"),
        _ => panic!("expected an address"),
    }
    match shell.on_update(Update::ThreadStarted { workspace: 4, thread_id: "t".to_string() }) {
        ShellAction::Send(Command::SetThread(w, t)) => {
            assert_eq!(w, 4);
            assert_eq!(t, "t");
        }
        _ => panic!("expected a command"),
    }
    assert_eq!(shell.thread_id.as_deref(), Some("t"));
    for i in 0..81 {
        shell.on_update(Update::Activity(i.to_string()));
    }
    assert_eq!(shell.activity.len(), 80);
    assert_eq!(shell.activity[0].text, "1");
    shell.on_update(Update::Error("boom".to_string()));
    assert!(!shell.turn_active);
    assert_eq!(shell.warning.as_deref(), Some("boom"));
    shell.turn_active = true;
    shell.on_update(Update::TurnFinished);
    assert!(!shell.turn_active);
}

#[test]
fn following_snapshots() {
    let mut shell = ShellState::new();
    assert!(shell.request_close());
    assert!(!shell.request_close());
    let snapshot = Snapshot {
        state: state(),
        warning: Some("w".to_string()),
        initial: true,
        closed: false,
        close_failed: true,
        can_save: false,
    };
    match shell.on_snapshot(snapshot) {
        SnapshotStep::Show { title, restore_placement } => {
            assert_eq!(title, "beta — Codex Air");
            assert!(restore_placement);
        }
        SnapshotStep::Quit => panic!("expected to show"),
    }
    assert!(shell.loaded && !shell.closing && !shell.can_save);
    assert_eq!(shell.warning.as_deref(), Some("w"));
    let closed = Snapshot { state: AppState::default(), warning: None, initial: false, closed: true, close_failed: false, can_save: true };
    assert!(matches!(shell.on_snapshot(closed), SnapshotStep::Quit));
    assert_eq!(shell.state.workspaces.len(), 3);
}

#[test]
fn labels() {
    assert_eq!(composer_status(true, true), "Codex is working");
    assert_eq!(composer_status(false, true), "Ready");
    assert_eq!(composer_status(false, false), "Connecting");
    assert_eq!(send_label(true), "Working…");
    assert_eq!(send_label(false), "Send");
    assert!(send_enabled(false, true));
    assert!(!send_enabled(true, true));
    assert!(!send_enabled(false, false));
    let mut account = AccountStatus::default();
    assert_eq!(account_label(&account), "Connect Codex");
    assert_eq!(account_identity(&account), "No ChatGPT account is connected to the local Codex App Server.");
    account.connected = true;
    assert_eq!(account_label(&account), "Codex connected");
    assert_eq!(account_identity(&account), "Connected through the local Codex App Server.");
    account.email = Some("me@x.y".to_string());
    assert_eq!(account_label(&account), "me@x.y");
    let (label, request) = account_action(false);
    assert_eq!(label, "Sign in with ChatGPT");
    assert!(matches!(request, Request::StartChatGptLogin));
    assert!(matches!(account_action(true).1, Request::Refresh));
    assert_eq!(pin_label(true), "Unpin workspace");
    assert_eq!(archive_label(false), "Archive workspace");
    let s = state();
    assert_eq!(workspace_kind(&s.workspaces[1]), "Multi-folder workspace");
    assert_eq!(workspace_kind(&s.workspaces[0]), "Local workspace");
    assert!(folder_available(None));
    assert!(folder_available(Some(true)));
    assert!(!folder_available(Some(false)));
}

#[test]
fn drafts_are_kept_per_workspace() {
    let mut shell = ShellState::new();
    assert_eq!(shell.draft(1), "");
    shell.keep_draft(1, "half a thought".to_string());
    shell.keep_draft(2, "other".to_string());
    assert_eq!(shell.draft(1), "half a thought");
    assert_eq!(shell.draft(2), "other");
    shell.keep_draft(1, "rewritten".to_string());
    assert_eq!(shell.draft(1), "rewritten");
    assert_eq!(shell.draft(2), "other");
    assert_eq!(shell.drafts.len(), 2);
    assert_eq!(shell.draft(3), "");
}
