use codex_air::controller::{Command, FolderLookup, Report, SaveReason, Writer, WriterAction, WriterEvent};
use codex_air::workspace::{AppState, DirectoryIdentity, Folder, FolderProbe};

fn folder(path: &str, n: u64) -> Folder {
    Folder { path: path.to_string(), identity: DirectoryIdentity { volume_serial: 1, file_index: n } }
}

fn probes() -> Vec<FolderProbe> {
    vec![FolderProbe { path: "C:\\a".to_string(), identity: Some(DirectoryIdentity { volume_serial: 1, file_index: 1 }) }]
}

fn report(action: &WriterAction) -> &Report {
    match action {
        WriterAction::Report(r) | WriterAction::ReportAndStop(r) => r,
        _ => panic!("expected a report"),
    }
}

#[test]
fn first_report_carries_the_load_warning() {
    let (writer, first) = Writer::new(AppState::default(), true, Some("normalized".to_string()));
    assert!(first.initial && !first.closed && !first.close_failed && first.can_save);
    assert_eq!(first.warning.as_deref(), Some("normalized"));
    assert_eq!(writer.warning.as_deref(), Some("normalized"));
    assert!(!writer.waits_briefly());
}

#[test]
fn a_change_is_saved_then_reported() {
    let (mut writer, _) = Writer::new(AppState::default(), true, Some("loaded".to_string()));
    let (action, result) = writer.apply(Command::Open(FolderLookup::Found(folder("C:\\a", 1))), &probes());
    assert!(result.is_ok());
    assert!(matches!(action, WriterAction::Save));
    assert_eq!(writer.pending, Some(SaveReason::Change));
    assert_eq!(writer.state.workspaces.len(), 1);
    let after = writer.step(WriterEvent::Saved(Ok(())));
    let r = report(&after);
    assert_eq!(r.warning.as_deref(), Some("loaded"));
    assert!(!r.initial && !r.closed);
    assert!(writer.warning.is_none());
    assert!(writer.pending.is_none());
}

#[test]
fn a_failed_save_after_a_change_warns() {
    let (mut writer, _) = Writer::new(AppState::default(), true, None);
    writer.apply(Command::Open(FolderLookup::Found(folder("C:\\a", 1))), &probes());
    let after = writer.step(WriterEvent::Saved(Err("disk full".to_string())));
    assert_eq!(report(&after).warning.as_deref(), Some("Changes are in memory but could not be saved: disk full"));
    assert!(writer.warning.is_none());
}

#[test]
fn a_failed_command_is_reported_at_once() {
    let (mut writer, _) = Writer::new(AppState::default(), true, None);
    let (action, result) = writer.apply(Command::RemoveRoot(5, 6), &[]);
    assert!(result.is_err());
    assert_eq!(report(&action).warning.as_deref(), Some("This workspace was removed. Open the folder again."));
    assert!(writer.warning.is_none());
}

#[test]
fn without_saving_changes_are_refused_and_selection_reported() {
    let (mut writer, _) = Writer::new(AppState::default(), false, None);
    let (action, result) = writer.apply(Command::Open(FolderLookup::Found(folder("C:\\a", 1))), &probes());
    assert!(result.is_err());
    assert!(report(&action).warning.is_some());
    let (action, result) = writer.apply(Command::Select(3), &[]);
    assert!(result.is_ok());
    assert!(report(&action).warning.is_none());
    assert!(matches!(writer.step(WriterEvent::WindowChanged), WriterAction::Wait));
    assert!(!writer.waits_briefly());
}

#[test]
fn window_changes_are_saved_when_idle() {
    let (mut writer, _) = Writer::new(AppState::default(), true, None);
    assert!(matches!(writer.step(WriterEvent::WindowChanged), WriterAction::Wait));
    assert!(writer.waits_briefly());
    assert!(matches!(writer.step(WriterEvent::Idle), WriterAction::Save));
    assert!(!writer.waits_briefly());
    assert!(matches!(writer.step(WriterEvent::Saved(Ok(()))), WriterAction::Wait));
    assert!(matches!(writer.step(WriterEvent::Idle), WriterAction::Wait));
    writer.step(WriterEvent::WindowChanged);
    writer.step(WriterEvent::Idle);
    let failed = writer.step(WriterEvent::Saved(Err("locked".to_string())));
    assert_eq!(report(&failed).warning.as_deref(), Some("Could not save workspace state: locked"));
    assert_eq!(writer.warning.as_deref(), Some("Could not save workspace state: locked"));
}

#[test]
fn closing_saves_first() {
    let (mut writer, _) = Writer::new(AppState::default(), true, None);
    assert!(matches!(writer.step(WriterEvent::Close), WriterAction::Save));
    let failed = writer.step(WriterEvent::Saved(Err("denied".to_string())));
    match &failed {
        WriterAction::Report(r) => {
            assert!(r.close_failed && !r.closed);
            assert_eq!(r.warning.as_deref(), Some("Could not save before closing: denied"));
        }
        _ => panic!("expected a report"),
    }
    assert!(matches!(writer.step(WriterEvent::Close), WriterAction::Save));
    match writer.step(WriterEvent::Saved(Ok(()))) {
        WriterAction::ReportAndStop(r) => assert!(r.closed && r.warning.is_none()),
        _ => panic!("expected the last report"),
    }
}

#[test]
fn closing_without_saving_stops_at_once() {
    let (mut writer, _) = Writer::new(AppState::default(), false, None);
    match writer.step(WriterEvent::Close) {
        WriterAction::ReportAndStop(r) => assert!(r.closed),
        _ => panic!("expected the last report"),
    }
    assert!(matches!(writer.step(WriterEvent::Disconnected), WriterAction::Stop));
    let (mut saving, _) = Writer::new(AppState::default(), true, None);
    assert!(matches!(saving.step(WriterEvent::Disconnected), WriterAction::SaveAndStop));
}

#[test]
fn adding_a_folder_the_workspace_holds_is_refused_with_a_warning() {
    let (mut writer, _) = Writer::new(AppState::default(), true, None);
    writer.apply(Command::Open(FolderLookup::Found(folder("C:\\a", 1))), &probes());
    writer.step(WriterEvent::Saved(Ok(())));
    let id = writer.state.workspaces[0].id;
    let (action, result) = writer.apply(Command::AddRoot(id, FolderLookup::Found(folder("C:\\a", 1))), &probes());
    assert!(result.is_err());
    assert_eq!(report(&action).warning.as_deref(), Some("workspace already contains that folder"));
    assert_eq!(writer.state.workspaces[0].roots.len(), 1);
    assert!(writer.pending.is_none());
}

#[test]
fn commands_are_applied_in_the_order_they_come() {
    let (mut writer, _) = Writer::new(AppState::default(), true, None);
    let (action, result) = writer.apply(Command::Open(FolderLookup::Found(folder("C:\\a", 1))), &probes());
    assert!(result.is_ok() && matches!(action, WriterAction::Save));
    assert!(report(&writer.step(WriterEvent::Saved(Ok(())))).warning.is_none());
    let id = writer.state.workspaces[0].id;
    let (action, result) = writer.apply(Command::AddRoot(id, FolderLookup::Found(folder("C:\\b", 2))), &probes());
    assert!(result.is_ok() && matches!(action, WriterAction::Save));
    report(&writer.step(WriterEvent::Saved(Ok(()))));
    let (action, result) = writer.apply(Command::Rename(id, "  Both  ".to_string()), &probes());
    assert!(result.is_ok() && matches!(action, WriterAction::Save));
    report(&writer.step(WriterEvent::Saved(Ok(()))));
    let w = &writer.state.workspaces[0];
    assert_eq!(w.roots.len(), 2);
    assert_eq!(w.roots[0].path, "C:\\a");
    assert_eq!(w.roots[1].path, "C:\\b");
    assert_eq!(w.name.as_deref(), Some("Both"));
    assert!(writer.pending.is_none() && writer.warning.is_none());
}

#[test]
fn leaving_saves_the_state() {
    let (mut writer, _) = Writer::new(AppState::default(), true, None);
    assert!(matches!(writer.step(WriterEvent::Disconnected), WriterAction::SaveAndStop));
    assert!(matches!(writer.step(WriterEvent::Close), WriterAction::Save));
    assert_eq!(writer.pending, Some(SaveReason::Close));
}
