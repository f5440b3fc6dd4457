//! What loading and saving the state file decide. Reading, writing and backing up the
//! bytes is left to the caller.
use vstd::prelude::*;

use crate::text::{decimal, join2, join3, u128_text, u64_text};
use crate::workspace::{lemma_normalize_well_formed_is_identity, same_workspaces, normalized_from, state_changed, well_formed, lemma_normalize_establishes_well_formed, AppState, STATE_VERSION};

verus! {

/// How a stored state is to be used.
pub enum StoredState {
    /// The state can be used, after normalization.
    Usable(AppState),
    /// The state cannot be used; the file is to be preserved and the default state used,
    /// for the given reason.
    Unusable(String),
}

/// Decides how the parse result of a state file is used: a state of the supported version
/// is usable; another version, or text that is not a state, is not.
pub fn interpret_stored(parsed: Result<AppState, String>) -> (r: StoredState)
    ensures
        match parsed {
            Ok(state) => if state.version == STATE_VERSION {
                r matches StoredState::Usable(s) && s == state
            } else {
                r matches StoredState::Unusable(reason) && reason@ == unsupported_version_text(state.version)
            },
            Err(error) => r matches StoredState::Unusable(reason) && reason@ == "invalid workspace state JSON: "@ + error@,
        },
{
    match parsed {
        Ok(state) => if state.version == STATE_VERSION {
            StoredState::Usable(state)
        } else {
            StoredState::Unusable(unsupported_version_reason(state.version))
        },
        Err(error) => StoredState::Unusable(join2("invalid workspace state JSON: ", error.as_str())),
    }
}

pub open spec fn unsupported_version_text(version: u32) -> Seq<char> {
    "workspace state uses unsupported version "@ + decimal(version as nat) + " (supported version is "@
        + decimal(STATE_VERSION as nat) + ")"@
}

/// Why a state of another version is not used.
pub fn unsupported_version_reason(version: u32) -> (r: String)
    ensures
        r@ == unsupported_version_text(version),
{
    let v = u64_text(version as u64);
    let supported = u64_text(STATE_VERSION as u64);
    let head = join3("workspace state uses unsupported version ", v.as_str(), " (supported version is ");
    join3(head.as_str(), supported.as_str(), ")")
}

/// The warning shown when normalization changed the loaded state.
pub fn normalized_warning(changed: bool) -> (r: Option<String>)
    ensures
        changed ==> (r matches Some(w) && w@ == "Workspace state contained invalid references or values and was normalized."@),
        !changed ==> r is None,
{
    if changed {
        Some("Workspace state contained invalid references or values and was normalized.".to_owned())
    } else {
        None
    }
}

/// The warning shown when the state file exists but cannot be read.
pub fn read_failure_warning(path: &str, error: &str) -> (r: String)
    ensures
        r@ == "Could not read workspace state at "@ + path@ + ": "@ + error@,
{
    let head = join3("Could not read workspace state at ", path, ": ");
    join2(head.as_str(), error)
}

/// The warning for an unusable state file, and whether saving stays allowed: saving is
/// allowed only when the original file was preserved as `backup`.
pub fn recovery_warning(path: &str, reason: &str, backup: &Result<String, String>) -> (r: (String, bool))
    ensures
        r.1 == backup is Ok,
        match backup {
            Ok(backup_path) => r.0@ == "Could not load workspace state at "@ + path@ + ": "@ + reason@
                + ". The original file was preserved as "@ + backup_path@ + "."@,
            Err(error) => r.0@ == "Could not load workspace state at "@ + path@ + ": "@ + reason@
                + ". The original file could not be backed up: "@ + error@ + "."@,
        },
{
    let head = join3("Could not load workspace state at ", path, ": ");
    let head = join2(head.as_str(), reason);
    match backup {
        Ok(backup_path) => {
            let text = join3(head.as_str(), ". The original file was preserved as ", backup_path.as_str());
            (join2(text.as_str(), "."), true)
        },
        Err(error) => {
            let text = join3(head.as_str(), ". The original file could not be backed up: ", error.as_str());
            (join2(text.as_str(), "."), false)
        },
    }
}

/// The file name of the state file, or `state.json` when its path has none.
pub fn state_file_name(file_name: Option<String>) -> (r: String)
    ensures
        match file_name {
            Some(name) => r@ == name@,
            None => r@ == "state.json"@,
        },
{
    match file_name {
        Some(name) => name,
        None => "state.json".to_owned(),
    }
}

/// How many backup names are tried before giving up.
pub const BACKUP_ATTEMPTS: u32 = 1000;

/// The `suffix`-th candidate name for a backup of `file_name`: `NAME.bak`, then
/// `NAME.bak.1`, `NAME.bak.2`, and so on.
pub fn backup_name(file_name: &str, suffix: u32) -> (r: String)
    ensures
        suffix == 0 ==> r@ == file_name@ + ".bak"@,
        suffix != 0 ==> r@ == file_name@ + ".bak."@ + decimal(suffix as nat),
{
    if suffix == 0 {
        join2(file_name, ".bak")
    } else {
        let digits = u64_text(suffix as u64);
        join3(file_name, ".bak.", digits.as_str())
    }
}

/// The state the application starts with, the warning to show, and whether it may save.
#[derive(Clone, Debug)]
pub struct LoadResult {
    pub state: AppState,
    pub warning: Option<String>,
    pub can_save: bool,
}

/// What reading the state file gave.
#[derive(Debug)]
pub enum ReadOutcome {
    /// There is no state file yet.
    Missing,
    /// The file could not be read, for this reason.
    Failed(String),
    /// The file was read and parsed as a state, or could not be, for this reason.
    Parsed(Result<AppState, String>),
}

/// What loading does after reading the file.
#[derive(Clone, Debug)]
pub enum LoadStep {
    /// Loading is done.
    Done(LoadResult),
    /// The file cannot be used, for this reason: preserve it, then finish with
    /// `load_recovered`.
    Recover(String),
}

/// The text of the warning for a file that could not be read.
pub open spec fn read_failure_text(path: Seq<char>, error: Seq<char>) -> Seq<char> {
    "Could not read workspace state at "@ + path + ": "@ + error
}

/// The text of the warning for a normalized state.
pub open spec fn normalized_text() -> Seq<char> {
    "Workspace state contained invalid references or values and was normalized."@
}

/// The default state of a first start.
pub open spec fn fresh(s: AppState) -> bool {
    &&& s.workspaces@.len() == 0
    &&& s.active_workspace is None
    &&& s.version == STATE_VERSION
}

/// `r` is what reading the state file at `path` gave `read` leads to.
pub open spec fn loaded_from(path: Seq<char>, read: ReadOutcome, r: LoadStep) -> bool {
    match read {
        ReadOutcome::Missing => {
            &&& r matches LoadStep::Done(l)
            &&& l.can_save
            &&& l.warning is None
            &&& fresh(l.state)
        },
        ReadOutcome::Failed(error) => {
            &&& r matches LoadStep::Done(l)
            &&& !l.can_save
            &&& l.warning matches Some(w)
            &&& w@ == read_failure_text(path, error@)
            &&& fresh(l.state)
        },
        ReadOutcome::Parsed(parsed) => match parsed {
            Ok(state) => if state.version == STATE_VERSION {
                &&& r matches LoadStep::Done(l)
                &&& l.can_save
                &&& normalized_from(state, l.state)
                &&& well_formed(l.state)
                &&& (l.warning is Some <==> state_changed(state, l.state))
                &&& (l.warning matches Some(w) ==> w@ == normalized_text())
            } else {
                &&& r matches LoadStep::Recover(reason)
                &&& reason@ == unsupported_version_text(state.version)
            },
            Err(error) => {
                &&& r matches LoadStep::Recover(reason)
                &&& reason@ == "invalid workspace state JSON: "@ + error@
            },
        },
    }
}

/// Decides what reading the state file at `path` gives: no file starts afresh; a file that
/// cannot be read starts afresh and protects it by refusing to save; a usable state is
/// normalized (with a warning when that changed it); an unusable one is to be preserved.
pub fn load_read(path: &str, read: ReadOutcome) -> (r: LoadStep)
    ensures
        loaded_from(path@, read, r),
{
    match read {
        ReadOutcome::Missing => LoadStep::Done(LoadResult { state: AppState::default(), warning: None, can_save: true }),
        ReadOutcome::Failed(error) => LoadStep::Done(LoadResult {
            state: AppState::default(),
            warning: Some(read_failure_warning(path, error.as_str())),
            can_save: false,
        }),
        ReadOutcome::Parsed(parsed) => match interpret_stored(parsed) {
            StoredState::Usable(state) => {
                let ghost before = state;
                let mut state = state;
                let changed = state.normalize();
                proof {
                    lemma_normalize_establishes_well_formed(before, state);
                }
                LoadStep::Done(LoadResult { state, warning: normalized_warning(changed), can_save: true })
            },
            StoredState::Unusable(reason) => LoadStep::Recover(reason),
        },
    }
}

/// The warning for a file at `path` that could not be used for `reason`, after trying to
/// preserve it.
pub open spec fn recovery_text(path: Seq<char>, reason: Seq<char>, backup: Result<String, String>) -> Seq<char> {
    match backup {
        Ok(backup_path) => "Could not load workspace state at "@ + path + ": "@ + reason
            + ". The original file was preserved as "@ + backup_path@ + "."@,
        Err(error) => "Could not load workspace state at "@ + path + ": "@ + reason
            + ". The original file could not be backed up: "@ + error@ + "."@,
    }
}

/// Finishes loading a file that could not be used: the default state, and a warning that
/// says whether the file was preserved; saving stays allowed only if it was.
pub fn load_recovered(path: &str, reason: &str, backup: &Result<String, String>) -> (r: LoadResult)
    ensures
        r.can_save == backup is Ok,
        fresh(r.state),
        r.warning matches Some(w) && w@ == recovery_text(path@, reason@, *backup),
{
    let (warning, can_save) = recovery_warning(path, reason, backup);
    LoadResult { state: AppState::default(), warning: Some(warning), can_save }
}

/// The name of the temporary file a save writes first: `.NAME.tmp.PID.STAMP`.
pub fn temporary_name(file_name: &str, process_id: u32, stamp: u128) -> (r: String)
    ensures
        r@ == "."@ + file_name@ + ".tmp."@ + decimal(process_id as nat) + "."@ + decimal(stamp as nat),
{
    let head = join3(".", file_name, ".tmp.");
    let pid = u64_text(process_id as u64);
    let head = join3(head.as_str(), pid.as_str(), ".");
    let stamp_text = u128_text(stamp);
    join2(head.as_str(), stamp_text.as_str())
}

/// Loading a state that is well formed, as every saved state is (commands are saved only
/// after normalization), gives it back unchanged, with saving allowed and no warning.
pub proof fn lemma_load_gives_back_saved_state(path: Seq<char>, s: AppState, r: LoadStep)
    requires
        well_formed(s),
        s.version == STATE_VERSION,
        loaded_from(path, ReadOutcome::Parsed(Ok(s)), r),
    ensures
        r matches LoadStep::Done(l) && l.can_save && l.warning is None && l.state.version == s.version
            && l.state.active_workspace == s.active_workspace && same_workspaces(s.workspaces@, l.state.workspaces@),
{
    let l = r->Done_0;
    lemma_normalize_well_formed_is_identity(s, l.state);
    assert forall|i: int| 0 <= i < s.workspaces@.len() implies (#[trigger] l.state.workspaces@[i]).roots@ == s.workspaces@[i].roots@ by {
        assert(l.state.workspaces@[i].roots@ =~= s.workspaces@[i].roots@);
    }
    assert(same_workspaces(s.workspaces@, l.state.workspaces@));
}

} // verus!
