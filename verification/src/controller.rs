//! The workspace commands that the single state writer applies, one at a time.
use vstd::prelude::*;

use crate::text::{trim, trimmed};
use crate::workspace::{
    lemma_normalize_establishes_well_formed, normalized_from, opened, pin_toggled, root_added,
    root_relocated, root_removed, default_root_set, renamed, selected, thread_set, well_formed,
    workspace_error_text, workspace_removed, archive_toggled, has_workspace, AppState, Folder,
    FolderProbe, WorkspaceError,
};

verus! {

/// The outcome of resolving a folder chosen by the user: the folder, or why it could not be
/// inspected.
#[derive(Clone, Debug)]
pub enum FolderLookup {
    Found(Folder),
    Failed(String),
}

/// A change requested of the workspace state.
#[derive(Clone, Debug)]
pub enum Command {
    Open(FolderLookup),
    AddRoot(u128, FolderLookup),
    RelocateRoot(u128, u128, FolderLookup),
    RemoveRoot(u128, u128),
    DefaultRoot(u128, u128),
    Select(u128),
    Rename(u128, String),
    RemoveWorkspace(u128),
    TogglePin(u128),
    ToggleArchive(u128),
    SetThread(u128, String),
    Refresh,
}

/// What the state writer reports after each command: the state, the warning to show, and
/// how the writer stands.
#[derive(Clone, Debug)]
pub struct Snapshot {
    pub state: AppState,
    pub warning: Option<String>,
    /// The first report, made after loading.
    pub initial: bool,
    /// The writer has stopped after a close.
    pub closed: bool,
    /// A close was requested and saving before it failed.
    pub close_failed: bool,
    /// The writer may save.
    pub can_save: bool,
}

/// Why a command was not applied.
#[derive(Clone, Debug)]
pub enum CommandError {
    ChangesDisabled,
    WorkspaceRemoved,
    Folder(String),
    Workspace(WorkspaceError),
}

pub open spec fn command_error_text(e: CommandError) -> Seq<char> {
    match e {
        CommandError::ChangesDisabled => "Workspace changes are disabled to protect your saved state. Resolve the state file error and restart Codex Air."@,
        CommandError::WorkspaceRemoved => "This workspace was removed. Open the folder again."@,
        CommandError::Folder(text) => text@,
        CommandError::Workspace(inner) => workspace_error_text(inner),
    }
}

impl CommandError {
    /// The text shown for this error.
    pub fn message(&self) -> (r: String)
        ensures
            r@ == command_error_text(*self),
    {
        match self {
            CommandError::ChangesDisabled => "Workspace changes are disabled to protect your saved state. Resolve the state file error and restart Codex Air.".to_owned(),
            CommandError::WorkspaceRemoved => "This workspace was removed. Open the folder again.".to_owned(),
            CommandError::Folder(text) => text.clone(),
            CommandError::Workspace(inner) => inner.message(),
        }
    }
}

/// Selecting and refreshing are allowed even when the state file cannot be saved.
pub open spec fn allowed_without_saving(command: Command) -> bool {
    command is Select || command is Refresh
}

/// `s` with `id` as its active workspace.
pub open spec fn with_active(s: AppState, id: u128) -> AppState {
    AppState { active_workspace: Some(id), ..s }
}

/// The command's result when the workspace operation ended with `r`.
pub open spec fn lifted<T>(r: Result<T, WorkspaceError>) -> Result<(), CommandError> {
    match r {
        Ok(_) => Ok(()),
        Err(e) => Err(CommandError::Workspace(e)),
    }
}

/// The command's result when adding a root ended with `r`: a folder that the workspace
/// already holds is refused with a warning.
pub open spec fn added(r: Result<bool, WorkspaceError>) -> Result<(), CommandError> {
    match r {
        Ok(true) => Ok(()),
        Ok(false) => Err(CommandError::Workspace(WorkspaceError::FolderAlreadyPresent)),
        Err(e) => Err(CommandError::Workspace(e)),
    }
}

/// An operation on workspace `id`: it runs with `id` temporarily active, and the active
/// workspace is restored afterwards.
pub open spec fn on_workspace(pre: AppState, post: AppState, id: u128, done: spec_fn(AppState, AppState) -> bool) -> bool {
    &&& post.active_workspace == pre.active_workspace
    &&& done(with_active(pre, id), with_active(post, id))
}

/// `post` and `r` are what applying `command` to `pre` gives.
pub open spec fn applied(
    pre: AppState,
    post: AppState,
    command: Command,
    can_save: bool,
    probes: Seq<FolderProbe>,
    r: Result<(), CommandError>,
) -> bool {
    if !can_save && !allowed_without_saving(command) {
        r is Err && r->Err_0 is ChangesDisabled && post == pre
    } else {
        match command {
            Command::Select(id) => r is Ok && selected(pre, post, id),
            Command::Refresh => r is Ok && post == pre,
            Command::Open(lookup) => match lookup {
                FolderLookup::Failed(text) => r == Err::<(), CommandError>(CommandError::Folder(text)) && post == pre,
                FolderLookup::Found(folder) => r is Ok && exists|id: u128| opened(pre, post, folder, probes, id),
            },
            Command::RemoveWorkspace(id) => r is Ok && workspace_removed(pre, post, id),
            Command::TogglePin(id) => r is Ok && pin_toggled(pre, post, id),
            Command::ToggleArchive(id) => r is Ok && archive_toggled(pre, post, id),
            Command::SetThread(id, thread) => r is Ok && thread_set(pre, post, id, thread),
            Command::AddRoot(id, lookup) => if !has_workspace(pre.workspaces@, id) {
                r is Err && r->Err_0 is WorkspaceRemoved && post == pre
            } else {
                match lookup {
                    FolderLookup::Failed(text) => r == Err::<(), CommandError>(CommandError::Folder(text)) && post == pre,
                    FolderLookup::Found(folder) => exists|res: Result<bool, WorkspaceError>|
                        r == added(res) && on_workspace(pre, post, id, |a: AppState, b: AppState| root_added(a, b, folder, probes, res)),
                }
            },
            Command::RelocateRoot(id, root, lookup) => if !has_workspace(pre.workspaces@, id) {
                r is Err && r->Err_0 is WorkspaceRemoved && post == pre
            } else {
                match lookup {
                    FolderLookup::Failed(text) => r == Err::<(), CommandError>(CommandError::Folder(text)) && post == pre,
                    FolderLookup::Found(folder) => exists|res: Result<(), WorkspaceError>|
                        r == lifted(res) && on_workspace(pre, post, id, |a: AppState, b: AppState| root_relocated(a, b, root, folder, probes, res)),
                }
            },
            Command::RemoveRoot(id, root) => if !has_workspace(pre.workspaces@, id) {
                r is Err && r->Err_0 is WorkspaceRemoved && post == pre
            } else {
                r is Ok && on_workspace(pre, post, id, |a: AppState, b: AppState| root_removed(a, b, root))
            },
            Command::DefaultRoot(id, root) => if !has_workspace(pre.workspaces@, id) {
                r is Err && r->Err_0 is WorkspaceRemoved && post == pre
            } else {
                r is Ok && on_workspace(pre, post, id, |a: AppState, b: AppState| default_root_set(a, b, root))
            },
            Command::Rename(id, name) => if !has_workspace(pre.workspaces@, id) {
                r is Err && r->Err_0 is WorkspaceRemoved && post == pre
            } else {
                r is Ok && exists|t: String| t@ == trimmed(name@) && on_workspace(pre, post, id, |a: AppState, b: AppState| renamed(a, b, Some(t)))
            },
        }
    }
}

/// Runs `state` with `id` as its active workspace for the duration of one operation.
fn enter(state: &mut AppState, id: u128) -> (previous: Option<u128>)
    ensures
        *final(state) == with_active(*old(state), id),
        previous == old(state).active_workspace,
{
    let previous = state.active_workspace;
    state.active_workspace = Some(id);
    previous
}

/// Applies one command to the state. Commands that change workspaces are refused when the
/// state cannot be saved; commands on a workspace are refused when it no longer exists.
pub fn apply_command(state: &mut AppState, command: Command, can_save: bool, probes: &[FolderProbe]) -> (r: Result<(), CommandError>)
    ensures
        applied(*old(state), *final(state), command, can_save, probes@, r),
{
    let ghost pre = *state;
    let ghost cmd = command;
    let allowed = match &command {
        Command::Select(_) | Command::Refresh => true,
        _ => can_save,
    };
    if !allowed {
        return Err(CommandError::ChangesDisabled);
    }
    match command {
        Command::Select(id) => {
            state.select_workspace(id);
            Ok(())
        },
        Command::Refresh => Ok(()),
        Command::Open(lookup) => match lookup {
            FolderLookup::Failed(text) => Err(CommandError::Folder(text)),
            FolderLookup::Found(folder) => {
                let _id = state.open_folder(folder, probes);
                Ok(())
            },
        },
        Command::RemoveWorkspace(id) => {
            state.remove_workspace(id);
            Ok(())
        },
        Command::TogglePin(id) => {
            state.toggle_pin_workspace(id);
            Ok(())
        },
        Command::ToggleArchive(id) => {
            state.toggle_archive_workspace(id);
            Ok(())
        },
        Command::SetThread(id, thread) => {
            state.set_thread_id(id, thread);
            Ok(())
        },
        Command::AddRoot(id, lookup) => {
            if !has_workspace_exec(state, id) {
                return Err(CommandError::WorkspaceRemoved);
            }
            match lookup {
                FolderLookup::Failed(text) => Err(CommandError::Folder(text)),
                FolderLookup::Found(folder) => {
                    let previous = enter(state, id);
                    let res = state.add_root(folder, probes);
                    state.active_workspace = previous;
                    assert(root_added(with_active(pre, id), with_active(*state, id), folder, probes@, res));
                    let out = match res {
                        Ok(true) => Ok(()),
                        Ok(false) => Err(CommandError::Workspace(WorkspaceError::FolderAlreadyPresent)),
                        Err(e) => Err(CommandError::Workspace(e)),
                    };
                    assert(out == added(res));
                    assert(on_workspace(pre, *state, id, |a: AppState, b: AppState| root_added(a, b, folder, probes@, res)));
                    out
                },
            }
        },
        Command::RelocateRoot(id, root, lookup) => {
            if !has_workspace_exec(state, id) {
                return Err(CommandError::WorkspaceRemoved);
            }
            match lookup {
                FolderLookup::Failed(text) => Err(CommandError::Folder(text)),
                FolderLookup::Found(folder) => {
                    let previous = enter(state, id);
                    let res = state.relocate_root(root, folder, probes);
                    state.active_workspace = previous;
                    assert(root_relocated(with_active(pre, id), with_active(*state, id), root, folder, probes@, res));
                    let out = match res {
                        Ok(_) => Ok(()),
                        Err(e) => Err(CommandError::Workspace(e)),
                    };
                    assert(out == lifted(res));
                    assert(on_workspace(pre, *state, id, |a: AppState, b: AppState| root_relocated(a, b, root, folder, probes@, res)));
                    out
                },
            }
        },
        Command::RemoveRoot(id, root) => {
            if !has_workspace_exec(state, id) {
                return Err(CommandError::WorkspaceRemoved);
            }
            let previous = enter(state, id);
            state.remove_root(root);
            state.active_workspace = previous;
            assert(root_removed(with_active(pre, id), with_active(*state, id), root));
            Ok(())
        },
        Command::DefaultRoot(id, root) => {
            if !has_workspace_exec(state, id) {
                return Err(CommandError::WorkspaceRemoved);
            }
            let previous = enter(state, id);
            state.set_default_root(root);
            state.active_workspace = previous;
            assert(default_root_set(with_active(pre, id), with_active(*state, id), root));
            Ok(())
        },
        Command::Rename(id, name) => {
            if !has_workspace_exec(state, id) {
                return Err(CommandError::WorkspaceRemoved);
            }
            let trimmed_name = trim(name.as_str());
            let ghost t = trimmed_name;
            let previous = enter(state, id);
            state.rename_workspace(Some(trimmed_name));
            state.active_workspace = previous;
            assert(renamed(with_active(pre, id), with_active(*state, id), Some(t)));
            assert(on_workspace(pre, *state, id, |a: AppState, b: AppState| renamed(a, b, Some(t))));
            Ok(())
        },
    }
}

/// Whether some workspace has the identifier `id`.
pub fn has_workspace_exec(state: &AppState, id: u128) -> (r: bool)
    ensures
        r == has_workspace(state.workspaces@, id),
{
    let n = state.workspaces.len();
    let mut k: usize = 0;
    while k < n
        invariant
            n == state.workspaces@.len(),
            k <= n,
            forall|j: int| 0 <= j < k ==> (#[trigger] state.workspaces@[j]).id != id,
        decreases n - k,
    {
        if state.workspaces[k].id == id {
            return true;
        }
        k = k + 1;
    }
    false
}

/// Applies one command and, when it succeeds, normalizes the state, as the state writer does
/// before saving. Returns the command's result.
pub fn run_command(state: &mut AppState, command: Command, can_save: bool, probes: &[FolderProbe]) -> (r: Result<(), CommandError>)
    ensures
        ran(*old(state), *final(state), command, can_save, probes@, r),
{
    let ghost pre = *state;
    let r = apply_command(state, command, can_save, probes);
    match r {
        Ok(()) => {
            let ghost mid = *state;
            let _changed = state.normalize();
            proof {
                lemma_normalize_establishes_well_formed(mid, *state);
            }
            Ok(())
        },
        Err(e) => {
            proof {
                lemma_errors_leave_state(pre, *state, command, can_save, probes@, Err(e));
            }
            Err(e)
        },
    }
}

/// `post` and `r` are what running `command` on `pre` gives: a failed command leaves the
/// state as it was; a command that succeeds is applied and the result normalized, which
/// leaves it well formed.
pub open spec fn ran(
    pre: AppState,
    post: AppState,
    command: Command,
    can_save: bool,
    probes: Seq<FolderProbe>,
    r: Result<(), CommandError>,
) -> bool {
    &&& r is Err ==> applied(pre, post, command, can_save, probes, r) && same_state(pre, post)
    &&& r is Ok ==> exists|mid: AppState| applied(pre, mid, command, can_save, probes, r) && normalized_from(mid, post)
    &&& r is Ok ==> well_formed(post)
}

/// The two states hold the same version, workspaces and active workspace.
pub open spec fn same_state(a: AppState, b: AppState) -> bool {
    &&& a.version == b.version
    &&& a.workspaces@ == b.workspaces@
    &&& a.active_workspace == b.active_workspace
}

/// A command that fails leaves the state as it was.
pub proof fn lemma_errors_leave_state(
    pre: AppState,
    post: AppState,
    command: Command,
    can_save: bool,
    probes: Seq<FolderProbe>,
    r: Result<(), CommandError>,
)
    requires
        applied(pre, post, command, can_save, probes, r),
        r is Err,
    ensures
        same_state(pre, post),
{
    if !can_save && !allowed_without_saving(command) {
    } else {
        match command {
            Command::AddRoot(id, lookup) => {
                if has_workspace(pre.workspaces@, id) {
                    if let FolderLookup::Found(folder) = lookup {
                        let res = choose|res: Result<bool, WorkspaceError>|
                            r == added(res) && on_workspace(pre, post, id, |a: AppState, b: AppState| root_added(a, b, folder, probes, res));
                        assert(root_added(with_active(pre, id), with_active(post, id), folder, probes, res));
                    }
                }
            },
            Command::RelocateRoot(id, root, lookup) => {
                if has_workspace(pre.workspaces@, id) {
                    if let FolderLookup::Found(folder) = lookup {
                        let res = choose|res: Result<(), WorkspaceError>|
                            r == lifted(res) && on_workspace(pre, post, id, |a: AppState, b: AppState| root_relocated(a, b, root, folder, probes, res));
                        assert(root_relocated(with_active(pre, id), with_active(post, id), root, folder, probes, res));
                    }
                }
            },
            _ => {},
        }
    }
}

// ---------------------------------------------------------------------------------------
// The state writer
// ---------------------------------------------------------------------------------------
/// The save that the writer awaits the outcome of.
#[derive(Clone, Copy, Debug, PartialEq, Eq, Structural)]
pub enum SaveReason {
    /// A window change, saved once no command has come for a while.
    Idle,
    /// The save before closing.
    Close,
    /// The save after a command changed the state.
    Change,
}

/// What the state writer keeps: the state it owns, whether it may save, whether a window
/// change awaits saving, the warning for the next report, and the save it waits on.
#[derive(Clone, Debug)]
pub struct Writer {
    pub state: AppState,
    pub can_save: bool,
    pub dirty: bool,
    pub warning: Option<String>,
    pub pending: Option<SaveReason>,
}

/// A report of the writer: a snapshot of its state goes with it.
#[derive(Clone, Debug)]
pub struct Report {
    pub warning: Option<String>,
    pub initial: bool,
    pub closed: bool,
    pub close_failed: bool,
    pub can_save: bool,
}

/// What happens to the writer, apart from commands.
#[derive(Debug)]
pub enum WriterEvent {
    /// The window's placement or the sidebar's width changed.
    WindowChanged,
    /// The window asks to close.
    Close,
    /// No command came within the short wait that a pending window change uses.
    Idle,
    /// The window has gone.
    Disconnected,
    /// The save that the writer asked for ended so.
    Saved(Result<(), String>),
}

/// What the writer does next.
#[derive(Clone, Debug)]
pub enum WriterAction {
    /// Wait for the next event: briefly when a window change awaits saving, else until a
    /// command comes.
    Wait,
    /// Save the state and hand the outcome back as `Saved`.
    Save,
    /// Send this report with a snapshot of the state, then wait.
    Report(Report),
    /// Send this report with a snapshot of the state, then stop.
    ReportAndStop(Report),
    /// Save once more, whatever comes of it, then stop.
    SaveAndStop,
    /// Stop.
    Stop,
}

/// A report that is neither the first nor a close.
pub open spec fn plain_report(warning: Option<String>, can_save: bool) -> Report {
    Report { warning, initial: false, closed: false, close_failed: false, can_save }
}

/// The report of a close.
pub open spec fn closed_report(can_save: bool) -> Report {
    Report { warning: None, initial: false, closed: true, close_failed: false, can_save }
}

/// The warning after a save that failed for `reason`.
pub open spec fn save_warning(reason: SaveReason, error: Seq<char>) -> Seq<char> {
    match reason {
        SaveReason::Idle => "Could not save workspace state: "@ + error,
        SaveReason::Close => "Could not save before closing: "@ + error,
        SaveReason::Change => "Changes are in memory but could not be saved: "@ + error,
    }
}

/// The writer after it reported the outcome of a command: the warning went out with the
/// report and is cleared, and a pending window change is saved with the state.
pub open spec fn finished(w: Writer) -> Writer {
    Writer { dirty: false, warning: None, pending: None, ..w }
}

/// `post` and `action` are what the writer does with `event` in `pre`.
pub open spec fn writer_step(pre: Writer, event: WriterEvent, post: Writer, action: WriterAction) -> bool {
    match event {
        WriterEvent::WindowChanged => post == Writer { dirty: pre.can_save, ..pre } && action is Wait,
        WriterEvent::Idle => if pre.dirty {
            post == Writer { dirty: false, pending: Some(SaveReason::Idle), ..pre } && action is Save
        } else {
            post == pre && action is Wait
        },
        WriterEvent::Close => if !pre.can_save {
            post == pre && action == WriterAction::ReportAndStop(closed_report(pre.can_save))
        } else {
            post == Writer { pending: Some(SaveReason::Close), ..pre } && action is Save
        },
        WriterEvent::Disconnected => post == pre && if pre.can_save { action is SaveAndStop } else { action is Stop },
        WriterEvent::Saved(result) => match pre.pending {
            None => post == pre && action is Wait,
            Some(reason) => match result {
                Ok(()) => match reason {
                    SaveReason::Idle => post == Writer { pending: None, ..pre } && action is Wait,
                    SaveReason::Close => post == Writer { pending: None, ..pre }
                        && action == WriterAction::ReportAndStop(closed_report(pre.can_save)),
                    SaveReason::Change => post == finished(pre)
                        && action == WriterAction::Report(plain_report(pre.warning, pre.can_save)),
                },
                Err(error) => match reason {
                    SaveReason::Idle => {
                        &&& post == Writer { pending: None, warning: post.warning, ..pre }
                        &&& post.warning matches Some(w)
                        &&& w@ == save_warning(reason, error@)
                        &&& action == WriterAction::Report(plain_report(post.warning, pre.can_save))
                    },
                    SaveReason::Close => {
                        &&& post == Writer { pending: None, warning: post.warning, ..pre }
                        &&& post.warning matches Some(w)
                        &&& w@ == save_warning(reason, error@)
                        &&& action == WriterAction::Report(Report { close_failed: true, ..plain_report(post.warning, pre.can_save) })
                    },
                    SaveReason::Change => {
                        &&& post == finished(pre)
                        &&& action matches WriterAction::Report(report)
                        &&& report.warning matches Some(w)
                        &&& w@ == save_warning(reason, error@)
                        &&& report == plain_report(report.warning, pre.can_save)
                    },
                },
            },
        },
    }
}

/// `post`, `action` and `r` are what the writer does with a command: it runs it; a
/// change that can be saved is saved before the report; otherwise the report goes out at
/// once, with the command's error as its warning when it failed.
pub open spec fn writer_applied(
    pre: Writer,
    command: Command,
    probes: Seq<FolderProbe>,
    post: Writer,
    action: WriterAction,
    r: Result<(), CommandError>,
) -> bool {
    &&& ran(pre.state, post.state, command, pre.can_save, probes, r)
    &&& post.can_save == pre.can_save
    &&& match r {
        Ok(()) => if pre.can_save {
            &&& post == Writer { state: post.state, pending: Some(SaveReason::Change), ..pre }
            &&& action is Save
        } else {
            &&& post == finished(Writer { state: post.state, ..pre })
            &&& action == WriterAction::Report(plain_report(pre.warning, pre.can_save))
        },
        Err(e) => {
            &&& post == finished(Writer { state: post.state, ..pre })
            &&& action matches WriterAction::Report(report)
            &&& report.warning matches Some(w)
            &&& w@ == command_error_text(e)
            &&& report == plain_report(report.warning, pre.can_save)
        },
    }
}

fn with_prefix(prefix: &str, error: &String) -> (r: String)
    ensures
        r@ == prefix@ + error@,
{
    crate::text::join2(prefix, error.as_str())
}

impl Writer {
    /// The writer over the loaded state, and its first report, which carries the load's
    /// warning; the warning stays for the next report too.
    pub fn new(state: AppState, can_save: bool, warning: Option<String>) -> (r: (Writer, Report))
        ensures
            r.0 == (Writer { state, can_save, dirty: false, warning, pending: None }),
            r.1 == (Report { warning, initial: true, closed: false, close_failed: false, can_save }),
    {
        let report = Report { warning: warning.clone(), initial: true, closed: false, close_failed: false, can_save };
        (Writer { state, can_save, dirty: false, warning, pending: None }, report)
    }

    /// Whether the next wait is the short one, after which an idle save is due.
    pub fn waits_briefly(&self) -> (r: bool)
        ensures
            r == self.dirty,
    {
        self.dirty
    }

    /// Handles an event other than a command.
    pub fn step(&mut self, event: WriterEvent) -> (action: WriterAction)
        ensures
            writer_step(*old(self), event, *final(self), action),
    {
        match event {
            WriterEvent::WindowChanged => {
                self.dirty = self.can_save;
                WriterAction::Wait
            },
            WriterEvent::Idle => {
                if self.dirty {
                    self.dirty = false;
                    self.pending = Some(SaveReason::Idle);
                    WriterAction::Save
                } else {
                    WriterAction::Wait
                }
            },
            WriterEvent::Close => {
                if !self.can_save {
                    WriterAction::ReportAndStop(Report { warning: None, initial: false, closed: true, close_failed: false, can_save: self.can_save })
                } else {
                    self.pending = Some(SaveReason::Close);
                    WriterAction::Save
                }
            },
            WriterEvent::Disconnected => {
                if self.can_save {
                    WriterAction::SaveAndStop
                } else {
                    WriterAction::Stop
                }
            },
            WriterEvent::Saved(result) => self.saved(result),
        }
    }

    /// Handles the outcome of the save the writer asked for.
    fn saved(&mut self, result: Result<(), String>) -> (action: WriterAction)
        ensures
            writer_step(*old(self), WriterEvent::Saved(result), *final(self), action),
    {
        let reason = match self.pending {
            Some(reason) => reason,
            None => return WriterAction::Wait,
        };
        self.pending = None;
        match result {
            Ok(()) => match reason {
                SaveReason::Idle => WriterAction::Wait,
                SaveReason::Close => WriterAction::ReportAndStop(Report { warning: None, initial: false, closed: true, close_failed: false, can_save: self.can_save }),
                SaveReason::Change => {
                    self.finish()
                },
            },
            Err(error) => {
                let prefix = match reason {
                    SaveReason::Idle => "Could not save workspace state: ",
                    SaveReason::Close => "Could not save before closing: ",
                    SaveReason::Change => "Changes are in memory but could not be saved: ",
                };
                let text = with_prefix(prefix, &error);
                assert(text@ == save_warning(reason, error@)) by {
                    reveal_strlit("Could not save workspace state: ");
                    reveal_strlit("Could not save before closing: ");
                    reveal_strlit("Changes are in memory but could not be saved: ");
                }
                self.warning = Some(text);
                match reason {
                    SaveReason::Change => self.finish(),
                    SaveReason::Close => WriterAction::Report(Report { warning: self.warning.clone(), initial: false, closed: false, close_failed: true, can_save: self.can_save }),
                    SaveReason::Idle => WriterAction::Report(Report { warning: self.warning.clone(), initial: false, closed: false, close_failed: false, can_save: self.can_save }),
                }
            },
        }
    }

    /// Reports the outcome of a command and clears the warning it carried.
    fn finish(&mut self) -> (action: WriterAction)
        ensures
            *final(self) == finished(*old(self)),
            action == WriterAction::Report(plain_report(old(self).warning, old(self).can_save)),
    {
        self.dirty = false;
        self.pending = None;
        let report = Report { warning: self.warning.clone(), initial: false, closed: false, close_failed: false, can_save: self.can_save };
        self.warning = None;
        WriterAction::Report(report)
    }

    /// Runs a command on the state; returns what to do next and the command's result.
    pub fn apply(&mut self, command: Command, probes: &[FolderProbe]) -> (r: (WriterAction, Result<(), CommandError>))
        ensures
            writer_applied(*old(self), command, probes@, *final(self), r.0, r.1),
    {
        let result = run_command(&mut self.state, command, self.can_save, probes);
        match result {
            Ok(()) => {
                if self.can_save {
                    self.pending = Some(SaveReason::Change);
                    (WriterAction::Save, Ok(()))
                } else {
                    (self.finish(), Ok(()))
                }
            },
            Err(e) => {
                self.warning = Some(e.message());
                (self.finish(), Err(e))
            },
        }
    }
}

/// Each command is answered by exactly one report, after its save when it changed the
/// state: once the writer has applied a command and, when it asked for one, taken the
/// outcome of the save, it has sent one plain report, waits on no save, has no window
/// change pending and keeps no warning; its state is what running the command gives.
pub proof fn lemma_one_report_per_command(
    w0: Writer,
    command: Command,
    probes: Seq<FolderProbe>,
    w1: Writer,
    a1: WriterAction,
    r: Result<(), CommandError>,
    saved: Result<(), String>,
    w2: Writer,
    a2: WriterAction,
)
    requires
        writer_applied(w0, command, probes, w1, a1, r),
        a1 is Save ==> writer_step(w1, WriterEvent::Saved(saved), w2, a2),
        !(a1 is Save) ==> w2 == w1 && a2 == a1,
    ensures
        a2 matches WriterAction::Report(report) && !report.initial && !report.closed && !report.close_failed
            && report.can_save == w0.can_save,
        w2.pending is None,
        !w2.dirty,
        w2.warning is None,
        w2.can_save == w0.can_save,
        ran(w0.state, w2.state, command, w0.can_save, probes, r),
{
}


/// One command's passage through the writer: the writer before it, the command and the
/// folders probed for it, what applying it gave, the outcome handed back for the save it
/// asked for, if any, and the writer and action after that.
pub struct CommandPass {
    pub before: Writer,
    pub command: Command,
    pub probes: Seq<FolderProbe>,
    pub applied: Writer,
    pub first: WriterAction,
    pub result: Result<(), CommandError>,
    pub saved: Result<(), String>,
    pub after: Writer,
    pub last: WriterAction,
}

/// The pass is what the writer does: it applies the command and, when it asks for a save,
/// takes the save's outcome.
pub open spec fn pass_done(p: CommandPass) -> bool {
    &&& writer_applied(p.before, p.command, p.probes, p.applied, p.first, p.result)
    &&& p.first is Save ==> writer_step(p.applied, WriterEvent::Saved(p.saved), p.after, p.last)
    &&& !(p.first is Save) ==> p.after == p.applied && p.last == p.first
}

/// Commands sent one after another: each pass is done, and each starts from the writer
/// the pass before it left.
pub open spec fn passes_in_order(passes: Seq<CommandPass>) -> bool {
    &&& forall|i: int| 0 <= i < passes.len() ==> pass_done(#[trigger] passes[i])
    &&& forall|i: int| 0 < i < passes.len() ==> (#[trigger] passes[i]).before == passes[i - 1].after
}

/// The state worker, which runs the writer, applies commands one at a time, in the order
/// they are sent to it: the state after the
/// `i`-th command is what running that command gives on the state the one before it left,
/// so it reflects exactly the commands up to it; each command is answered by one plain
/// report, and whether the writer may save never changes.
pub proof fn lemma_commands_in_order(passes: Seq<CommandPass>)
    requires
        passes_in_order(passes),
    ensures
        forall|i: int| 0 <= i < passes.len() ==> {
            &&& (#[trigger] passes[i]).after.can_save == passes[0].before.can_save
            &&& ran(passes[i].before.state, passes[i].after.state, passes[i].command, passes[0].before.can_save, passes[i].probes, passes[i].result)
            &&& passes[i].last matches WriterAction::Report(report) && report == plain_report(report.warning, passes[0].before.can_save)
            &&& passes[i].after.pending is None
            &&& passes[i].after.warning is None
        },
    decreases passes.len(),
{
    if passes.len() > 0 {
        let rest = passes.drop_last();
        assert forall|i: int| 0 < i < rest.len() implies (#[trigger] rest[i]).before == rest[i - 1].after by {
            assert(rest[i] == passes[i]);
            assert(rest[i - 1] == passes[i - 1]);
        }
        assert forall|i: int| 0 <= i < rest.len() implies pass_done(#[trigger] rest[i]) by {
            assert(rest[i] == passes[i]);
        }
        lemma_commands_in_order(rest);
        let n = passes.len() - 1;
        assert forall|i: int| 0 <= i < passes.len() implies {
            &&& (#[trigger] passes[i]).after.can_save == passes[0].before.can_save
            &&& ran(passes[i].before.state, passes[i].after.state, passes[i].command, passes[0].before.can_save, passes[i].probes, passes[i].result)
            &&& passes[i].last matches WriterAction::Report(report) && report == plain_report(report.warning, passes[0].before.can_save)
            &&& passes[i].after.pending is None
            &&& passes[i].after.warning is None
        } by {
            let p = passes[i];
            assert(pass_done(p));
            lemma_one_report_per_command(p.before, p.command, p.probes, p.applied, p.first, p.result, p.saved, p.after, p.last);
            if i > 0 {
                assert(rest[i - 1] == passes[i - 1]);
                assert(p.before == passes[i - 1].after);
                assert(rest[0] == passes[0]);
            }
        }
    }
}

/// Leaving keeps the state: when the window asks to close, or goes (File → Exit), a
/// writer that may save saves the state as it stands before it stops.
pub proof fn lemma_leaving_saves(pre: Writer, event: WriterEvent, post: Writer, action: WriterAction)
    requires
        pre.can_save,
        event is Close || event is Disconnected,
        writer_step(pre, event, post, action),
    ensures
        post.state == pre.state,
        event is Close ==> action is Save && post.pending == Some(SaveReason::Close),
        event is Disconnected ==> action is SaveAndStop,
{
}
} // verus!
