use codex_air::controller::{run_command, Command, CommandError, FolderLookup};
use codex_air::workspace::{
    default_state_version, directory_identity, AppState, DirectoryIdentity, Folder, FolderProbe,
    Workspace, WorkspaceError, WorkspaceRoot, STATE_VERSION,
};

fn ident(n: u64) -> DirectoryIdentity {
    DirectoryIdentity { volume_serial: 7, file_index: n }
}

fn folder(path: &str, n: u64) -> Folder {
    Folder { path: path.to_string(), identity: ident(n) }
}

fn probe(path: &str, n: u64) -> FolderProbe {
    FolderProbe { path: path.to_string(), identity: Some(ident(n)) }
}

fn probes() -> Vec<FolderProbe> {
    vec![probe("C:\\a", 1), probe("C:\\b", 2), probe("C:\\c", 3), probe("C:\\A", 1)]
}

fn workspace(id: u128, roots: Vec<(u128, &str)>, default_root: Option<u128>) -> Workspace {
    Workspace {
        id,
        name: None,
        pinned: false,
        archived: false,
        thread_id: None,
        roots: roots
            .into_iter()
            .map(|(id, path)| WorkspaceRoot { id, path: path.to_string() })
            .collect(),
        default_root,
    }
}

#[test]
fn state_version_is_one() {
    assert_eq!(default_state_version(), 1);
    assert_eq!(STATE_VERSION, 1);
    let state = AppState::default();
    assert_eq!(state.version, 1);
    assert!(state.workspaces.is_empty());
    assert_eq!(state.active_workspace, None);
}

#[test]
fn directory_identity_joins_index_halves() {
    let id = directory_identity(42, 0x1, 0x2);
    assert_eq!(id.volume_serial, 42);
    assert_eq!(id.file_index, 0x1_0000_0002);
}

#[test]
fn opening_a_folder_creates_and_selects_a_workspace() {
    let mut state = AppState::default();
    let id = state.open_folder(folder("C:\\a", 1), &probes());
    assert_ne!(id, 0);
    assert_eq!(state.workspaces.len(), 1);
    assert_eq!(state.active_workspace, Some(id));
    let w = &state.workspaces[0];
    assert_eq!(w.id, id);
    assert_eq!(w.roots.len(), 1);
    assert_eq!(w.roots[0].path, "C:\\a");
    assert_ne!(w.roots[0].id, 0);
    assert_eq!(w.default_root, Some(w.roots[0].id));
    assert!(!w.pinned && !w.archived);
}

#[test]
fn opening_the_same_folder_twice_reuses_the_workspace() {
    let mut state = AppState::default();
    let first = state.open_folder(folder("C:\\a", 1), &probes());
    let other = state.open_folder(folder("C:\\b", 2), &probes());
    assert_ne!(first, other);
    assert_eq!(state.active_workspace, Some(other));
    // The same directory under another spelling is the same folder.
    let again = state.open_folder(folder("C:\\A", 1), &probes());
    assert_eq!(again, first);
    assert_eq!(state.workspaces.len(), 2);
    assert_eq!(state.active_workspace, Some(first));
}

#[test]
fn new_workspaces_come_first() {
    let mut state = AppState::default();
    let first = state.open_folder(folder("C:\\a", 1), &probes());
    let second = state.open_folder(folder("C:\\b", 2), &probes());
    assert_eq!(state.workspaces[0].id, second);
    assert_eq!(state.workspaces[1].id, first);
}

#[test]
fn one_two_one_roots_keep_identity_and_default() {
    let mut state = AppState::default();
    let id = state.open_folder(folder("C:\\a", 1), &probes());
    let first_root = state.workspaces[0].roots[0].id;
    assert!(matches!(state.add_root(folder("C:\\b", 2), &probes()), Ok(true)));
    assert_eq!(state.workspaces[0].roots.len(), 2);
    let second_root = state.workspaces[0].roots[1].id;
    assert_ne!(first_root, second_root);
    assert_eq!(state.workspaces[0].default_root, Some(first_root));
    state.set_default_root(second_root);
    assert_eq!(state.workspaces[0].default_root, Some(second_root));
    state.remove_root(second_root);
    assert_eq!(state.workspaces[0].id, id);
    assert_eq!(state.workspaces[0].roots.len(), 1);
    assert_eq!(state.workspaces[0].roots[0].id, first_root);
    assert_eq!(state.workspaces[0].default_root, Some(first_root));
}

#[test]
fn adding_a_folder_twice_adds_nothing() {
    let mut state = AppState::default();
    state.open_folder(folder("C:\\a", 1), &probes());
    assert!(matches!(state.add_root(folder("C:\\b", 2), &probes()), Ok(true)));
    assert!(matches!(state.add_root(folder("C:\\b", 2), &probes()), Ok(false)));
    assert!(matches!(state.add_root(folder("C:\\A", 1), &probes()), Ok(false)));
    assert_eq!(state.workspaces[0].roots.len(), 2);
}

#[test]
fn adding_without_an_active_workspace_fails() {
    let mut state = AppState::default();
    let r = state.add_root(folder("C:\\a", 1), &probes());
    match r {
        Err(e) => {
            assert!(matches!(e, WorkspaceError::NoActiveWorkspaceToAdd));
            assert_eq!(e.message(), "cannot add a root without an active workspace");
        }
        Ok(_) => panic!("expected an error"),
    }
}

#[test]
fn relocating_keeps_workspace_and_root_identity() {
    let mut state = AppState::default();
    let id = state.open_folder(folder("C:\\a", 1), &probes());
    let root = state.workspaces[0].roots[0].id;
    assert!(state.relocate_root(root, folder("C:\\c", 3), &probes()).is_ok());
    assert_eq!(state.workspaces[0].id, id);
    assert_eq!(state.workspaces[0].roots[0].id, root);
    assert_eq!(state.workspaces[0].roots[0].path, "C:\\c");
}

#[test]
fn relocating_onto_another_root_is_refused() {
    let mut state = AppState::default();
    state.open_folder(folder("C:\\a", 1), &probes());
    state.add_root(folder("C:\\b", 2), &probes()).unwrap();
    let root = state.workspaces[0].roots[0].id;
    match state.relocate_root(root, folder("C:\\b", 2), &probes()) {
        Err(e) => assert!(matches!(e, WorkspaceError::FolderAlreadyPresent)),
        Ok(()) => panic!("expected an error"),
    }
    match state.relocate_root(12345, folder("C:\\c", 3), &probes()) {
        Err(e) => assert!(matches!(e, WorkspaceError::RootNotFound(12345))),
        Ok(()) => panic!("expected an error"),
    }
    assert_eq!(state.workspaces[0].roots[0].path, "C:\\a");
}

#[test]
fn relocating_without_an_active_workspace_fails() {
    let mut state = AppState::default();
    match state.relocate_root(1, folder("C:\\c", 3), &probes()) {
        Err(e) => assert!(matches!(e, WorkspaceError::NoActiveWorkspaceToRelocate)),
        Ok(()) => panic!("expected an error"),
    }
}

#[test]
fn removing_the_active_workspace_selects_the_first() {
    let mut state = AppState::default();
    let a = state.open_folder(folder("C:\\a", 1), &probes());
    let b = state.open_folder(folder("C:\\b", 2), &probes());
    let c = state.open_folder(folder("C:\\c", 3), &probes());
    state.select_workspace(b);
    state.remove_workspace(b);
    assert_eq!(state.workspaces.len(), 2);
    assert_eq!(state.active_workspace, Some(c));
    state.remove_workspace(a);
    assert_eq!(state.active_workspace, Some(c));
    state.remove_workspace(c);
    assert_eq!(state.active_workspace, None);
    assert!(state.workspaces.is_empty());
}

#[test]
fn selecting_an_unknown_workspace_changes_nothing() {
    let mut state = AppState::default();
    let a = state.open_folder(folder("C:\\a", 1), &probes());
    state.select_workspace(999);
    assert_eq!(state.active_workspace, Some(a));
}

#[test]
fn pin_twice_restores() {
    let mut state = AppState::default();
    let a = state.open_folder(folder("C:\\a", 1), &probes());
    state.toggle_pin_workspace(a);
    assert!(state.workspaces[0].pinned);
    state.toggle_pin_workspace(a);
    assert!(!state.workspaces[0].pinned);
}

#[test]
fn archiving_the_active_workspace_moves_to_the_first_unarchived() {
    let mut state = AppState::default();
    let a = state.open_folder(folder("C:\\a", 1), &probes());
    let b = state.open_folder(folder("C:\\b", 2), &probes());
    // b is first and active
    state.toggle_archive_workspace(b);
    assert!(state.workspaces[0].archived);
    assert_eq!(state.active_workspace, Some(a));
    state.toggle_archive_workspace(b);
    assert!(!state.workspaces[0].archived);
    assert_eq!(state.active_workspace, Some(a));
    state.toggle_archive_workspace(a);
    state.toggle_archive_workspace(b);
    assert_eq!(state.active_workspace, None);
}

#[test]
fn thread_id_is_recorded() {
    let mut state = AppState::default();
    let a = state.open_folder(folder("C:\\a", 1), &probes());
    state.set_thread_id(a, "thr_1".to_string());
    assert_eq!(state.workspaces[0].thread_id.as_deref(), Some("thr_1"));
    state.set_thread_id(77, "other".to_string());
    assert_eq!(state.workspaces[0].thread_id.as_deref(), Some("thr_1"));
}

#[test]
fn rename_and_display_name() {
    let mut state = AppState::default();
    state.open_folder(folder("C:/work/proj", 1), &[probe("C:/work/proj", 1)]);
    assert_eq!(state.workspaces[0].display_name(), "proj");
    state.rename_workspace(Some("Mine".to_string()));
    assert_eq!(state.workspaces[0].display_name(), "Mine");
    assert_eq!(state.active().unwrap().display_name(), "Mine");
}

#[test]
fn display_name_falls_back_to_workspace() {
    let w = workspace(1, vec![], None);
    assert_eq!(w.display_name(), "Workspace");
}

#[test]
fn display_path_strips_verbatim_prefixes() {
    let unc = WorkspaceRoot { id: 1, path: "\\\\?\\UNC\\server\\share".to_string() };
    assert_eq!(unc.display_path(), "\\\\server\\share");
    let local = WorkspaceRoot { id: 2, path: "\\\\?\\C:\\dir".to_string() };
    assert_eq!(local.display_path(), "C:\\dir");
    let plain = WorkspaceRoot { id: 3, path: "C:\\dir".to_string() };
    assert_eq!(plain.display_path(), "C:\\dir");
}

#[test]
fn normalize_repairs_references_and_values() {
    let mut state = AppState {
        version: 1,
        workspaces: vec![
            Workspace { name: Some("   ".to_string()), ..workspace(5, vec![(10, "C:\\a"), (0, "C:\\b")], Some(99)) },
            workspace(5, vec![(10, "C:\\c")], None),
            workspace(0, vec![], Some(4)),
        ],
        active_workspace: Some(42),
    };
    assert!(state.normalize());
    let ws = &state.workspaces;
    assert_eq!(ws.len(), 3);
    assert_eq!(ws[0].id, 5);
    assert_eq!(ws[0].name, None);
    assert_eq!(ws[0].roots[0].id, 10);
    assert_ne!(ws[0].roots[1].id, 0);
    assert_ne!(ws[0].roots[1].id, 10);
    assert_eq!(ws[0].default_root, Some(10));
    assert_ne!(ws[1].id, 5);
    assert_ne!(ws[1].id, 0);
    assert_ne!(ws[1].roots[0].id, 10);
    assert_eq!(ws[1].default_root, Some(ws[1].roots[0].id));
    assert_ne!(ws[2].id, 0);
    assert_eq!(ws[2].default_root, None);
    assert_eq!(state.active_workspace, None);
    // A normalized state is left as it is.
    let before: Vec<u128> = state.workspaces.iter().map(|w| w.id).collect();
    assert!(!state.normalize());
    let after: Vec<u128> = state.workspaces.iter().map(|w| w.id).collect();
    assert_eq!(before, after);
}

#[test]
fn normalize_keeps_a_valid_state() {
    let mut state = AppState {
        version: 1,
        workspaces: vec![workspace(1, vec![(2, "C:\\a")], Some(2))],
        active_workspace: Some(1),
    };
    assert!(!state.normalize());
    assert_eq!(state.workspaces[0].id, 1);
    assert_eq!(state.active_workspace, Some(1));
}

#[test]
fn commands_on_a_removed_workspace_fail() {
    let mut state = AppState::default();
    let r = run_command(&mut state, Command::RemoveRoot(9, 1), true, &[]);
    match r {
        Err(e) => {
            assert!(matches!(e, CommandError::WorkspaceRemoved));
            assert_eq!(e.message(), "This workspace was removed. Open the folder again.");
        }
        Ok(()) => panic!("expected an error"),
    }
}

#[test]
fn changes_are_refused_when_saving_is_disabled() {
    let mut state = AppState::default();
    let r = run_command(&mut state, Command::Open(FolderLookup::Found(folder("C:\\a", 1))), false, &probes());
    match r {
        Err(e) => assert_eq!(
            e.message(),
            "Workspace changes are disabled to protect your saved state. Resolve the state file error and restart Codex Air."
        ),
        Ok(()) => panic!("expected an error"),
    }
    assert!(state.workspaces.is_empty());
    assert!(run_command(&mut state, Command::Refresh, false, &[]).is_ok());
}

#[test]
fn command_rename_trims_and_restores_active() {
    let mut state = AppState::default();
    let a = state.open_folder(folder("C:\\a", 1), &probes());
    let b = state.open_folder(folder("C:\\b", 2), &probes());
    assert_eq!(state.active_workspace, Some(b));
    assert!(run_command(&mut state, Command::Rename(a, "  Alpha  ".to_string()), true, &probes()).is_ok());
    assert_eq!(state.active_workspace, Some(b));
    assert_eq!(state.workspaces[1].name.as_deref(), Some("Alpha"));
    // A blank name falls back to the folder name.
    assert!(run_command(&mut state, Command::Rename(a, "   ".to_string()), true, &probes()).is_ok());
    assert_eq!(state.workspaces[1].name, None);
}

#[test]
fn folder_lookup_failures_are_reported() {
    let mut state = AppState::default();
    let r = run_command(&mut state, Command::Open(FolderLookup::Failed("cannot inspect".to_string())), true, &[]);
    match r {
        Err(e) => assert_eq!(e.message(), "cannot inspect"),
        Ok(()) => panic!("expected an error"),
    }
}

#[test]
fn add_root_through_the_writer_targets_the_named_workspace() {
    let mut state = AppState::default();
    let a = state.open_folder(folder("C:\\a", 1), &probes());
    let b = state.open_folder(folder("C:\\b", 2), &probes());
    assert!(run_command(&mut state, Command::AddRoot(a, FolderLookup::Found(folder("C:\\c", 3))), true, &probes()).is_ok());
    assert_eq!(state.active_workspace, Some(b));
    assert_eq!(state.workspaces[1].roots.len(), 2);
    assert_eq!(state.workspaces[0].roots.len(), 1);
}

#[test]
fn missing_root_error_names_the_root_as_a_uuid() {
    let e = WorkspaceError::RootNotFound(0x67e5504410b1426f9247bb680e5fe0c8);
    assert_eq!(e.message(), "workspace root does not exist: 67e55044-10b1-426f-9247-bb680e5fe0c8");
    assert_eq!(WorkspaceError::FolderAlreadyPresent.message(), "workspace already contains that folder");
}

#[test]
fn command_errors_wrap_workspace_errors() {
    let e = CommandError::Workspace(WorkspaceError::NoActiveWorkspaceToRelocate);
    assert_eq!(e.message(), "cannot relocate a root without an active workspace");
}

#[test]
fn active_mut_changes_only_the_active_workspace() {
    let mut state = AppState::default();
    let a = state.open_folder(folder("C:\\a", 1), &probes());
    let b = state.open_folder(folder("C:\\b", 2), &probes());
    state.select_workspace(a);
    if let Some(w) = state.active_mut() {
        w.pinned = true;
    }
    assert!(state.workspaces[1].pinned);
    assert!(!state.workspaces[0].pinned);
    assert_eq!(state.workspaces[0].id, b);
    let mut empty = AppState::default();
    assert!(empty.active_mut().is_none());
}

#[test]
fn a_root_is_named_by_its_folder() {
    let root = WorkspaceRoot { id: 1, path: "C:/code/alpha".to_string() };
    assert_eq!(root.folder_name(), "alpha");
    let top = WorkspaceRoot { id: 2, path: "/".to_string() };
    assert_eq!(top.folder_name(), "/");
}

#[test]
fn the_add_root_command_refuses_a_folder_already_present() {
    let mut state = AppState::default();
    state.open_folder(folder("C:\\a", 1), &probes());
    let id = state.workspaces[0].id;
    let r = run_command(&mut state, Command::AddRoot(id, FolderLookup::Found(folder("C:\\a", 1))), true, &probes());
    match r {
        Err(CommandError::Workspace(WorkspaceError::FolderAlreadyPresent)) => {}
        _ => panic!("expected the folder to be refused"),
    }
    assert_eq!(state.workspaces[0].roots.len(), 1);
}
