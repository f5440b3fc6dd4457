//! The decisions of the main window: which workspaces the sidebar lists and under which
//! heading, what the task composer sends, and how the window follows the updates of the
//! state writer and of the App Server connection. Drawing and input stay with the caller.
use vstd::prelude::*;

use crate::app_server::{AccountStatus, Request, Update};
use crate::controller::{Command, Snapshot};
use crate::text::{contains, contains_text, join2, same_text, trim, trimmed};
use crate::workspace::{
    active_position, find_root, first_root_at, has_root_id, shown_path, workspace_title, AppState, Workspace, WorkspaceRoot,
};

verus! {

/// The most activity lines the window keeps.
pub const ACTIVITY_LIMIT: usize = 80;

/// The most recent activity lines shown under the composer.
pub const VISIBLE_ACTIVITY: usize = 8;

/// The last `limit` elements of `s` (all of them when there are fewer).
pub open spec fn last_n<T>(s: Seq<T>, limit: int) -> Seq<T> {
    if s.len() > limit {
        s.subrange(s.len() - limit, s.len() as int)
    } else {
        s
    }
}

/// One line of what was said and done: the workspace whose task it belongs to, the
/// streamed item whose fragments it gathers, when it is one, and its text.
#[derive(Clone, Debug)]
pub struct ActivityLine {
    pub workspace: Option<u128>,
    pub item_id: Option<String>,
    pub text: String,
}

/// Drops the oldest activity lines so that at most `ACTIVITY_LIMIT` remain.
pub fn trim_activity(activity: &mut Vec<ActivityLine>)
    ensures
        final(activity)@ == last_n(old(activity)@, ACTIVITY_LIMIT as int),
{
    let n = activity.len();
    if n <= ACTIVITY_LIMIT {
        return;
    }
    let kept = activity.split_off(n - ACTIVITY_LIMIT);
    *activity = kept;
}

/// The texts of the lines that belong to `workspace`, oldest first.
pub open spec fn texts_of(lines: Seq<ActivityLine>, workspace: Option<u128>) -> Seq<String>
    decreases lines.len(),
{
    if lines.len() == 0 {
        Seq::empty()
    } else {
        let rest = texts_of(lines.drop_last(), workspace);
        if lines.last().workspace == workspace {
            rest.push(lines.last().text)
        } else {
            rest
        }
    }
}

fn same_workspace(a: Option<u128>, b: Option<u128>) -> (r: bool)
    ensures
        r == (a == b),
{
    match (a, b) {
        (Some(x), Some(y)) => x == y,
        (None, None) => true,
        _ => false,
    }
}

/// The activity shown under the composer while `workspace` is active: the most recent
/// `VISIBLE_ACTIVITY` lines of that workspace, oldest first. Lines of other workspaces
/// are not shown.
pub fn visible_activity(activity: &Vec<ActivityLine>, workspace: Option<u128>) -> (r: Vec<String>)
    ensures
        r@ == last_n(texts_of(activity@, workspace), VISIBLE_ACTIVITY as int),
{
    let n = activity.len();
    let mut all: Vec<String> = Vec::new();
    let mut k: usize = 0;
    assert(activity@.take(0) =~= Seq::<ActivityLine>::empty());
    while k < n
        invariant
            n == activity@.len(),
            k <= n,
            all@ == texts_of(activity@.take(k as int), workspace),
        decreases n - k,
    {
        assert(activity@.take(k + 1).drop_last() =~= activity@.take(k as int));
        assert(activity@.take(k + 1).last() == activity@[k as int]);
        if same_workspace(activity[k].workspace, workspace) {
            all.push(activity[k].text.clone());
        }
        k = k + 1;
    }
    assert(activity@.take(n as int) =~= activity@);
    let m = all.len();
    if m > VISIBLE_ACTIVITY {
        all.split_off(m - VISIBLE_ACTIVITY)
    } else {
        all
    }
}

/// The line holds the fragments of item `item_id` of `workspace`.
pub open spec fn holds_item(line: ActivityLine, workspace: Option<u128>, item_id: Seq<char>) -> bool {
    &&& line.workspace == workspace
    &&& line.item_id matches Some(i) && i@ == item_id
}

/// The most recent line that holds the fragments of item `item_id` of `workspace`.
pub open spec fn item_position(lines: Seq<ActivityLine>, workspace: Option<u128>, item_id: Seq<char>) -> Option<int>
    decreases lines.len(),
{
    if lines.len() == 0 {
        None
    } else if holds_item(lines.last(), workspace, item_id) {
        Some(lines.len() - 1)
    } else {
        item_position(lines.drop_last(), workspace, item_id)
    }
}

proof fn lemma_item_position_take(lines: Seq<ActivityLine>, workspace: Option<u128>, item_id: Seq<char>, k: int)
    requires
        0 <= k <= lines.len(),
        forall|j: int| k <= j < lines.len() ==> !holds_item(#[trigger] lines[j], workspace, item_id),
    ensures
        item_position(lines, workspace, item_id) == item_position(lines.take(k), workspace, item_id),
    decreases lines.len(),
{
    if k == lines.len() {
        assert(lines.take(k) =~= lines);
    } else {
        let rest = lines.drop_last();
        assert(!holds_item(lines[lines.len() - 1], workspace, item_id));
        assert forall|j: int| k <= j < rest.len() implies !holds_item(#[trigger] rest[j], workspace, item_id) by {
            assert(rest[j] == lines[j]);
        }
        lemma_item_position_take(rest, workspace, item_id, k);
        assert(rest.take(k) =~= lines.take(k));
    }
}

proof fn lemma_item_position_bounds(lines: Seq<ActivityLine>, workspace: Option<u128>, item_id: Seq<char>)
    ensures
        item_position(lines, workspace, item_id) matches Some(k) ==> 0 <= k < lines.len() && holds_item(lines[k], workspace, item_id),
    decreases lines.len(),
{
    if lines.len() > 0 && !holds_item(lines.last(), workspace, item_id) {
        lemma_item_position_bounds(lines.drop_last(), workspace, item_id);
        if let Some(k) = item_position(lines.drop_last(), workspace, item_id) {
            assert(lines.drop_last()[k] == lines[k]);
        }
    }
}

/// Finds the most recent line that holds the fragments of item `item_id` of `workspace`.
fn find_item(lines: &Vec<ActivityLine>, workspace: Option<u128>, item_id: &str) -> (r: Option<usize>)
    ensures
        match r {
            Some(k) => item_position(lines@, workspace, item_id@) == Some(k as int),
            None => item_position(lines@, workspace, item_id@) is None,
        },
{
    let mut k: usize = lines.len();
    while k > 0
        invariant
            k <= lines@.len(),
            forall|j: int| k <= j < lines@.len() ==> !holds_item(#[trigger] lines@[j], workspace, item_id@),
        decreases k,
    {
        let j = k - 1;
        let holds = same_workspace(lines[j].workspace, workspace) && match &lines[j].item_id {
            Some(i) => same_text(i.as_str(), item_id),
            None => false,
        };
        if holds {
            proof {
                lemma_item_position_take(lines@, workspace, item_id@, k as int);
                assert(lines@.take(k as int).last() == lines@[j as int]);
            }
            return Some(j);
        }
        k = j;
    }
    proof {
        lemma_item_position_take(lines@, workspace, item_id@, 0);
    }
    None
}

/// `post` is `pre` after the fragment `text` of item `item_id` of `workspace`: added to the
/// end of the line that gathers that item, or else the first text of a new line, the
/// oldest lines then dropped beyond the limit.
pub open spec fn streamed_into(
    pre: Seq<ActivityLine>,
    post: Seq<ActivityLine>,
    workspace: Option<u128>,
    item_id: String,
    text: String,
) -> bool {
    match item_position(pre, workspace, item_id@) {
        Some(k) => {
            &&& post == pre.update(k, ActivityLine { text: post[k].text, ..pre[k] })
            &&& post[k].text@ == pre[k].text@ + text@
        },
        None => post == last_n(pre.push(ActivityLine { workspace, item_id: Some(item_id), text }), ACTIVITY_LIMIT as int),
    }
}

// ---------------------------------------------------------------------------------------
// Search
// ---------------------------------------------------------------------------------------
/// What `str::to_lowercase` gives for `s`.
pub uninterp spec fn lowercase(s: Seq<char>) -> Seq<char>;

/// `s.to_lowercase()`. The Unicode case mapping is std's: the contract names the result
/// and says nothing more of it.
#[verifier::external_body]
fn to_lowercase(s: &str) -> (r: String)
    ensures
        r@ == lowercase(s@),
{
    s.to_lowercase()
}

/// A root matches a lower-case query when its shown path, lower-cased, contains it.
pub open spec fn root_matches_query(root: WorkspaceRoot, query: Seq<char>) -> bool {
    contains_text(lowercase(shown_path(root.path@)), query)
}

/// A workspace matches a lower-case query when its title, or the shown path of one of
/// its roots, lower-cased, contains it.
pub open spec fn matches_query(w: Workspace, query: Seq<char>) -> bool {
    ||| contains_text(lowercase(workspace_title(w)), query)
    ||| exists|k: int| 0 <= k < w.roots@.len() && root_matches_query(#[trigger] w.roots@[k], query)
}

/// Whether `w` matches the lower-case `query`.
pub fn workspace_matches(w: &Workspace, query: &str) -> (r: bool)
    ensures
        r == matches_query(*w, query@),
{
    let title = to_lowercase(w.display_name().as_str());
    if contains(title.as_str(), query) {
        return true;
    }
    let n = w.roots.len();
    let mut k: usize = 0;
    while k < n
        invariant
            n == w.roots@.len(),
            k <= n,
            !contains_text(lowercase(workspace_title(*w)), query@),
            forall|j: int| 0 <= j < k ==> !root_matches_query(#[trigger] w.roots@[j], query@),
        decreases n - k,
    {
        let shown = to_lowercase(w.roots[k].display_path().as_str());
        if contains(shown.as_str(), query) {
            return true;
        }
        k = k + 1;
    }
    false
}

/// `k` is the first workspace that matches `query`.
pub open spec fn first_match_at(ws: Seq<Workspace>, query: Seq<char>, k: int) -> bool {
    &&& 0 <= k < ws.len()
    &&& matches_query(ws[k], query)
    &&& forall|j: int| 0 <= j < k ==> !matches_query(#[trigger] ws[j], query)
}

/// The workspace that pressing Enter in the search box selects: the first one that matches
/// the lower-cased search text.
pub fn search_target(state: &AppState, search: &str) -> (r: Option<u128>)
    ensures
        match r {
            Some(id) => exists|k: int| first_match_at(state.workspaces@, lowercase(search@), k) && state.workspaces@[k].id == id,
            None => forall|k: int| 0 <= k < state.workspaces@.len() ==> !matches_query(#[trigger] state.workspaces@[k], lowercase(search@)),
        },
{
    let query = to_lowercase(search);
    let n = state.workspaces.len();
    let mut k: usize = 0;
    while k < n
        invariant
            n == state.workspaces@.len(),
            k <= n,
            query@ == lowercase(search@),
            forall|j: int| 0 <= j < k ==> !matches_query(#[trigger] state.workspaces@[j], query@),
        decreases n - k,
    {
        if workspace_matches(&state.workspaces[k], query.as_str()) {
            assert(first_match_at(state.workspaces@, query@, k as int));
            return Some(state.workspaces[k].id);
        }
        k = k + 1;
    }
    None
}

// ---------------------------------------------------------------------------------------
// Sidebar
// ---------------------------------------------------------------------------------------
/// The heading a workspace is listed under.
#[derive(Clone, Copy, Debug, PartialEq, Eq, Structural)]
pub enum Section {
    Pinned,
    Recent,
    Archived,
}

/// Archived workspaces are listed under "ARCHIVED" whether pinned or not; the others under
/// "PINNED" or "RECENT".
pub open spec fn section_of(w: Workspace) -> Section {
    if w.archived {
        Section::Archived
    } else if w.pinned {
        Section::Pinned
    } else {
        Section::Recent
    }
}

/// The positions, in order, of the first `n` workspaces that match `query` and belong under
/// `section`.
pub open spec fn listed(ws: Seq<Workspace>, query: Seq<char>, section: Section, n: int) -> Seq<usize>
    decreases n,
{
    if n <= 0 {
        Seq::empty()
    } else if matches_query(ws[n - 1], query) && section_of(ws[n - 1]) == section {
        listed(ws, query, section, n - 1).push((n - 1) as usize)
    } else {
        listed(ws, query, section, n - 1)
    }
}

/// A workspace is listed under a heading exactly when it matches the search and belongs
/// there; so each matching workspace is listed once, and archived ones only under
/// "ARCHIVED".
pub proof fn lemma_listed_exactly(ws: Seq<Workspace>, query: Seq<char>, section: Section, n: int, i: int)
    requires
        0 <= n <= ws.len(),
        n <= usize::MAX,
        0 <= i <= usize::MAX,
    ensures
        listed(ws, query, section, n).contains(i as usize)
            <==> (0 <= i < n && matches_query(ws[i], query) && section_of(ws[i]) == section),
    decreases n,
{
    if n > 0 {
        lemma_listed_exactly(ws, query, section, n - 1, i);
        let prev = listed(ws, query, section, n - 1);
        if matches_query(ws[n - 1], query) && section_of(ws[n - 1]) == section {
            let cur = prev.push((n - 1) as usize);
            if cur.contains(i as usize) {
                let k = choose|k: int| 0 <= k < cur.len() && cur[k] == i as usize;
                if k < prev.len() {
                    assert(prev[k] == cur[k]);
                }
            }
            if prev.contains(i as usize) {
                let k = choose|k: int| 0 <= k < prev.len() && prev[k] == i as usize;
                assert(cur[k] == prev[k]);
            }
            assert(cur[prev.len() as int] == (n - 1) as usize);
        }
    }
}

/// The sidebar's list: the positions of the workspaces under each heading, and the text
/// shown when the list is empty.
#[derive(Clone, Debug)]
pub struct SidebarList {
    pub pinned: Vec<usize>,
    pub recent: Vec<usize>,
    pub archived: Vec<usize>,
    pub empty_text: Option<String>,
}

/// The text of an empty sidebar.
pub open spec fn empty_text(query: Seq<char>, loaded: bool) -> Seq<char> {
    if query.len() == 0 {
        if loaded {
            "Opened workspaces appear here."@
        } else {
            "Loading workspaces…"@
        }
    } else {
        "No matching workspaces."@
    }
}

/// Lists the workspaces that match the lower-cased search text under their headings.
pub fn sidebar_list(state: &AppState, search: &str, loaded: bool) -> (r: SidebarList)
    ensures
        r.pinned@ == listed(state.workspaces@, lowercase(search@), Section::Pinned, state.workspaces@.len() as int),
        r.recent@ == listed(state.workspaces@, lowercase(search@), Section::Recent, state.workspaces@.len() as int),
        r.archived@ == listed(state.workspaces@, lowercase(search@), Section::Archived, state.workspaces@.len() as int),
        match r.empty_text {
            Some(t) => r.pinned@.len() + r.recent@.len() + r.archived@.len() == 0
                && t@ == empty_text(lowercase(search@), loaded),
            None => r.pinned@.len() + r.recent@.len() + r.archived@.len() > 0,
        },
{
    let query = to_lowercase(search);
    let ghost q = query@;
    let ghost ws = state.workspaces@;
    let n = state.workspaces.len();
    let mut pinned: Vec<usize> = Vec::new();
    let mut recent: Vec<usize> = Vec::new();
    let mut archived: Vec<usize> = Vec::new();
    let mut k: usize = 0;
    while k < n
        invariant
            n == ws.len(),
            ws == state.workspaces@,
            k <= n,
            q == query@,
            pinned@ == listed(ws, q, Section::Pinned, k as int),
            recent@ == listed(ws, q, Section::Recent, k as int),
            archived@ == listed(ws, q, Section::Archived, k as int),
        decreases n - k,
    {
        let w = &state.workspaces[k];
        if workspace_matches(w, query.as_str()) {
            if w.archived {
                archived.push(k);
            } else if w.pinned {
                pinned.push(k);
            } else {
                recent.push(k);
            }
        }
        k = k + 1;
    }
    let empty = pinned.len() == 0 && recent.len() == 0 && archived.len() == 0;
    let text = if !empty {
        None
    } else if query.unicode_len() == 0 {
        if loaded {
            Some("Opened workspaces appear here.".to_owned())
        } else {
            Some("Loading workspaces…".to_owned())
        }
    } else {
        Some("No matching workspaces.".to_owned())
    };
    SidebarList { pinned, recent, archived, empty_text: text }
}

// ---------------------------------------------------------------------------------------
// The window's state
// ---------------------------------------------------------------------------------------
/// What the main window keeps between updates.
#[derive(Clone, Debug)]
pub struct ShellState {
    /// The latest state from the state writer.
    pub state: AppState,
    /// A snapshot has arrived.
    pub loaded: bool,
    /// The warning shown above the panes.
    pub warning: Option<String>,
    /// A close has been requested and not refused.
    pub closing: bool,
    /// The state writer may save.
    pub can_save: bool,
    pub account: AccountStatus,
    /// The thread of the latest task.
    pub thread_id: Option<String>,
    /// A task is running.
    pub turn_active: bool,
    /// The workspace of the latest task: what the connection reports belongs to it.
    pub task_workspace: Option<u128>,
    /// What was said and done in the current session, oldest first.
    pub activity: Vec<ActivityLine>,
    /// The unsent composer text of each workspace that was left with one.
    pub drafts: Vec<(u128, String)>,
}

/// What the window does after an update of the connection.
#[derive(Clone, Debug)]
pub enum ShellAction {
    Nothing,
    /// Open this address in the browser.
    OpenUrl(String),
    /// Hand this command to the state writer.
    Send(Command),
}

/// What the window does with a snapshot of the state writer.
#[derive(Clone, Debug)]
pub enum SnapshotStep {
    /// The writer has closed: quit the application.
    Quit,
    /// Show the new state under this window title; `restore_placement` when the saved
    /// window placement is to be applied.
    Show { title: String, restore_placement: bool },
}

/// The window title for `s`.
pub open spec fn window_title_of(s: AppState) -> Seq<char> {
    match active_position(s) {
        Some(p) => workspace_title(s.workspaces@[p]) + " — Codex Air"@,
        None => "Codex Air"@,
    }
}

/// The title of the window: the active workspace's title and the application's name.
pub fn window_title(state: &AppState) -> (r: String)
    ensures
        r@ == window_title_of(*state),
{
    match state.active() {
        Some(w) => join2(w.display_name().as_str(), " — Codex Air"),
        None => "Codex Air".to_owned(),
    }
}

/// The root a task in `w` runs in: the default root when it names one, else the first.
pub open spec fn task_root(w: Workspace) -> Option<WorkspaceRoot> {
    let by_default = match w.default_root {
        Some(d) => if has_root_id(w.roots@, d) {
            Some(w.roots@[choose|p: int| first_root_at(w.roots@, d, p)])
        } else {
            None
        },
        None => None,
    };
    match by_default {
        Some(r) => Some(r),
        None => if w.roots@.len() > 0 {
            Some(w.roots@[0])
        } else {
            None
        },
    }
}

/// The workspace, folder and thread a new task of the active workspace uses.
pub open spec fn task_target_of(s: AppState) -> Option<(u128, Seq<char>, Option<String>)> {
    match active_position(s) {
        Some(p) => match task_root(s.workspaces@[p]) {
            Some(root) => Some((s.workspaces@[p].id, root.path@, s.workspaces@[p].thread_id)),
            None => None,
        },
        None => None,
    }
}

/// The workspace, folder and thread a new task runs with.
pub fn task_target(state: &AppState) -> (r: Option<(u128, String, Option<String>)>)
    ensures
        match (r, task_target_of(*state)) {
            (Some((id, cwd, thread)), Some((tid, tcwd, tthread))) => id == tid && cwd@ == tcwd && thread == tthread,
            (None, None) => true,
            _ => false,
        },
{
    let w = match state.active() {
        Some(w) => w,
        None => return None,
    };
    let by_default = match w.default_root {
        Some(d) => match find_root(&w.roots, d) {
            Some(p) => {
                proof {
                    assert(first_root_at(w.roots@, d, p as int));
                    let c = choose|c: int| first_root_at(w.roots@, d, c);
                    if c < p {
                        assert(w.roots@[c].id != d);
                    } else if p < c {
                        assert(w.roots@[p as int].id != d);
                    }
                }
                Some(p)
            },
            None => None,
        },
        None => None,
    };
    let root = match by_default {
        Some(p) => &w.roots[p],
        None => if w.roots.len() > 0 {
            &w.roots[0]
        } else {
            return None;
        },
    };
    Some((w.id, root.path.clone(), w.thread_id.clone()))
}

/// The state of the window after `update`.
pub open spec fn after_update(pre: ShellState, post: ShellState, update: Update) -> bool {
    match update {
        Update::Status(status) => post == ShellState { account: status, ..pre },
        Update::LoginUrl(_) => post == pre,
        Update::ThreadStarted { thread_id, .. } => post == ShellState { thread_id: Some(thread_id), ..pre },
        Update::Activity(line) => post.activity@ == last_n(
            pre.activity@.push(ActivityLine { workspace: pre.task_workspace, item_id: None, text: line }),
            ACTIVITY_LIMIT as int,
        ) && post == ShellState { activity: post.activity, ..pre },
        Update::Streamed { item_id, text } => streamed_into(pre.activity@, post.activity@, pre.task_workspace, item_id, text)
            && post == ShellState { activity: post.activity, ..pre },
        Update::TurnFinished => post == ShellState { turn_active: false, ..pre },
        Update::Error(error) => post == ShellState { turn_active: false, warning: Some(error), ..pre },
    }
}

/// What the window does after `update`.
pub open spec fn action_for(update: Update) -> ShellAction {
    match update {
        Update::LoginUrl(url) => ShellAction::OpenUrl(url),
        Update::ThreadStarted { workspace, thread_id } => ShellAction::Send(Command::SetThread(workspace, thread_id)),
        _ => ShellAction::Nothing,
    }
}

/// The state of the window after a snapshot that is not a close.
pub open spec fn after_snapshot(pre: ShellState, post: ShellState, snapshot: Snapshot) -> bool {
    post == ShellState {
        state: snapshot.state,
        warning: snapshot.warning,
        loaded: true,
        closing: if snapshot.close_failed { false } else { pre.closing },
        can_save: snapshot.can_save,
        ..pre
    }
}

/// The warning shown when a folder is to be chosen while the state cannot be saved.
pub open spec fn picker_blocked_warning() -> Seq<char> {
    "Workspace changes are disabled until the saved state can be read safely. Resolve the state file error and restart Codex Air."@
}

/// The warning shown when a task is asked for without a folder to run it in.
pub open spec fn no_folder_warning() -> Seq<char> {
    "Open a workspace folder before starting a Codex task."@
}

/// The window after a close request.
pub open spec fn closing_requested(s: ShellState) -> ShellState {
    ShellState { closing: true, ..s }
}

/// The window follows `snapshot`: a close quits and leaves it as it was; any other
/// snapshot replaces the state and shows it under its title.
pub open spec fn snapshot_followed(pre: ShellState, post: ShellState, snapshot: Snapshot, r: SnapshotStep) -> bool {
    if snapshot.closed {
        r is Quit && post == pre
    } else {
        &&& after_snapshot(pre, post, snapshot)
        &&& r matches SnapshotStep::Show { title, restore_placement }
        &&& title@ == window_title_of(snapshot.state)
        &&& restore_placement == snapshot.initial
    }
}

/// A task request for the composer's `composer` text: none while a task runs; without a
/// folder, none and a warning; with blank text, none; else the trimmed text goes to the
/// target's folder and thread, and is recorded in the activity.
pub open spec fn task_started(pre: ShellState, post: ShellState, composer: Seq<char>, r: Option<Request>) -> bool {
    if pre.turn_active {
        r is None && post == pre
    } else {
        match task_target_of(pre.state) {
            None => {
                &&& r is None
                &&& post.warning matches Some(w)
                &&& w@ == no_folder_warning()
                &&& post == ShellState { warning: post.warning, ..pre }
            },
            Some((id, cwd, thread)) => {
                let text = trimmed(composer);
                if text.len() == 0 {
                    r is None && post == pre
                } else {
                    &&& r matches Some(Request::StartTurn { workspace, cwd: c, text: t, thread_id })
                    &&& workspace == id
                    &&& c@ == cwd
                    &&& t@ == text
                    &&& thread_id == thread
                    &&& post.activity@ == pre.activity@.push(post.activity@.last())
                    &&& post.activity@.last().text@ == "You: "@ + text
                    &&& post.activity@.last().workspace == Some(id)
                    &&& post.activity@.last().item_id is None
                    &&& post == ShellState { turn_active: true, task_workspace: Some(id), activity: post.activity, ..pre }
                }
            },
        }
    }
}

/// Fragments of one streamed item gather in one line: the first fragment of a new item
/// starts a line, and the next fragment of that item is added to the end of it, with no
/// line added.
pub proof fn lemma_fragments_accumulate(
    pre: ShellState,
    mid: ShellState,
    post: ShellState,
    item_id: String,
    next_id: String,
    first: String,
    second: String,
)
    requires
        item_position(pre.activity@, pre.task_workspace, item_id@) is None,
        pre.activity@.len() < ACTIVITY_LIMIT,
        next_id@ == item_id@,
        after_update(pre, mid, Update::Streamed { item_id, text: first }),
        after_update(mid, post, Update::Streamed { item_id: next_id, text: second }),
    ensures
        post.activity@.len() == pre.activity@.len() + 1,
        post.activity@.drop_last() == pre.activity@,
        post.activity@.last().text@ == first@ + second@,
        post.activity@.last().item_id == Some(item_id),
        post.activity@.last().workspace == pre.task_workspace,
{
    let n = pre.activity@.len();
    assert(mid.activity@ == pre.activity@.push(ActivityLine { workspace: pre.task_workspace, item_id: Some(item_id), text: first }));
    assert(holds_item(mid.activity@.last(), mid.task_workspace, next_id@));
    assert(item_position(mid.activity@, mid.task_workspace, next_id@) == Some(n as int));
    assert(post.activity@.drop_last() =~= pre.activity@);
}

/// The unsent composer text kept for `workspace`: the latest one kept for it.
pub open spec fn draft_of(drafts: Seq<(u128, String)>, workspace: u128) -> Option<Seq<char>>
    decreases drafts.len(),
{
    if drafts.len() == 0 {
        None
    } else if drafts.last().0 == workspace {
        Some(drafts.last().1@)
    } else {
        draft_of(drafts.drop_last(), workspace)
    }
}

impl ShellState {
    /// The window before the first snapshot.
    pub fn new() -> (r: ShellState)
        ensures
            r.state.workspaces@.len() == 0,
            r.state.active_workspace is None,
            !r.loaded,
            r.warning is None,
            !r.closing,
            r.can_save,
            !r.account.connected,
            r.account.email is None,
            r.thread_id is None,
            !r.turn_active,
            r.task_workspace is None,
            r.activity@.len() == 0,
            r.drafts@.len() == 0,
    {
        ShellState {
            state: AppState::default(),
            loaded: false,
            warning: None,
            closing: false,
            can_save: true,
            account: AccountStatus::default(),
            thread_id: None,
            turn_active: false,
            task_workspace: None,
            activity: Vec::new(),
            drafts: Vec::new(),
        }
    }

    /// Follows an update of the App Server connection.
    pub fn on_update(&mut self, update: Update) -> (r: ShellAction)
        ensures
            after_update(*old(self), *final(self), update),
            r == action_for(update),
    {
        match update {
            Update::Status(status) => {
                self.account = status;
                ShellAction::Nothing
            },
            Update::LoginUrl(url) => ShellAction::OpenUrl(url),
            Update::ThreadStarted { workspace, thread_id } => {
                self.thread_id = Some(thread_id.clone());
                ShellAction::Send(Command::SetThread(workspace, thread_id))
            },
            Update::Activity(line) => {
                self.activity.push(ActivityLine { workspace: self.task_workspace, item_id: None, text: line });
                if self.activity.len() > ACTIVITY_LIMIT {
                    trim_activity(&mut self.activity);
                }
                ShellAction::Nothing
            },
            Update::Streamed { item_id, text } => {
                let ghost pre = self.activity@;
                match find_item(&self.activity, self.task_workspace, item_id.as_str()) {
                    Some(k) => {
                        proof {
                            lemma_item_position_bounds(pre, self.task_workspace, item_id@);
                        }
                        let line = self.activity.remove(k);
                        let joined = join2(line.text.as_str(), text.as_str());
                        self.activity.insert(k, ActivityLine { workspace: line.workspace, item_id: line.item_id, text: joined });
                        assert(self.activity@ =~= pre.update(k as int, ActivityLine { text: self.activity@[k as int].text, ..pre[k as int] }));
                    },
                    None => {
                        self.activity.push(ActivityLine { workspace: self.task_workspace, item_id: Some(item_id), text });
                        if self.activity.len() > ACTIVITY_LIMIT {
                            trim_activity(&mut self.activity);
                        }
                    },
                }
                ShellAction::Nothing
            },
            Update::TurnFinished => {
                self.turn_active = false;
                ShellAction::Nothing
            },
            Update::Error(error) => {
                self.turn_active = false;
                self.warning = Some(error);
                ShellAction::Nothing
            },
        }
    }

    /// Follows a snapshot of the state writer.
    pub fn on_snapshot(&mut self, snapshot: Snapshot) -> (r: SnapshotStep)
        ensures
            snapshot_followed(*old(self), *final(self), snapshot, r),
    {
        if snapshot.closed {
            return SnapshotStep::Quit;
        }
        let title = window_title(&snapshot.state);
        let initial = snapshot.initial;
        self.state = snapshot.state;
        self.warning = snapshot.warning;
        self.loaded = true;
        if snapshot.close_failed {
            self.closing = false;
        }
        self.can_save = snapshot.can_save;
        SnapshotStep::Show { title, restore_placement: initial }
    }

    /// Asks for the window to close; true when the state writer is to be told (the first
    /// time, or again after a close that failed).
    pub fn request_close(&mut self) -> (r: bool)
        ensures
            r == !old(self).closing,
            *final(self) == closing_requested(*old(self)),
    {
        if self.closing {
            false
        } else {
            self.closing = true;
            true
        }
    }

    /// Whether the folder picker may open: not while the state cannot be saved, which
    /// warns instead.
    pub fn may_pick_folder(&mut self) -> (r: bool)
        ensures
            r == old(self).can_save,
            r ==> *final(self) == *old(self),
            !r ==> (final(self).warning matches Some(w) && w@ == picker_blocked_warning()),
            !r ==> *final(self) == (ShellState { warning: final(self).warning, ..*old(self) }),
    {
        if self.can_save {
            true
        } else {
            self.warning = Some("Workspace changes are disabled until the saved state can be read safely. Resolve the state file error and restart Codex Air.".to_owned());
            false
        }
    }

    /// Starts a task with the composer's text: the request to send, when one is sent. No
    /// task starts while one runs, without a folder to run in (that warns), or with blank
    /// text.
    pub fn start_task(&mut self, composer: &str) -> (r: Option<Request>)
        ensures
            task_started(*old(self), *final(self), composer@, r),
    {
        if self.turn_active {
            return None;
        }
        let target = task_target(&self.state);
        let (workspace, cwd, thread_id) = match target {
            Some(t) => t,
            None => {
                self.warning = Some("Open a workspace folder before starting a Codex task.".to_owned());
                return None;
            },
        };
        let text = trim(composer);
        if text.unicode_len() == 0 {
            return None;
        }
        self.turn_active = true;
        self.task_workspace = Some(workspace);
        let ghost before = self.activity@;
        self.activity.push(ActivityLine { workspace: Some(workspace), item_id: None, text: join2("You: ", text.as_str()) });
        assert(self.activity@.drop_last() =~= before);
        Some(Request::StartTurn { workspace, cwd, text, thread_id })
    }

    /// Keeps `text` as the unsent composer text of `workspace`, in place of what was kept
    /// for it before; what is kept for other workspaces stays.
    pub fn keep_draft(&mut self, workspace: u128, text: String)
        ensures
            draft_of(final(self).drafts@, workspace) == Some(text@),
            forall|v: u128| v != workspace ==> draft_of(final(self).drafts@, v) == draft_of(old(self).drafts@, v),
            *final(self) == (ShellState { drafts: final(self).drafts, ..*old(self) }),
    {
        let ghost pre = self.drafts@;
        let n = self.drafts.len();
        let mut kept: Vec<(u128, String)> = Vec::new();
        let mut k: usize = 0;
        while k < n
            invariant
                n == pre.len(),
                pre == self.drafts@,
                k <= n,
                forall|v: u128| v != workspace ==> draft_of(kept@, v) == draft_of(pre.take(k as int), v),
            decreases n - k,
        {
            assert(pre.take(k + 1).drop_last() =~= pre.take(k as int));
            assert(pre.take(k + 1).last() == pre[k as int]);
            let ghost before = kept@;
            if self.drafts[k].0 != workspace {
                let entry = (self.drafts[k].0, self.drafts[k].1.clone());
                kept.push(entry);
                assert(kept@.drop_last() =~= before);
            }
            assert forall|v: u128| v != workspace implies draft_of(kept@, v) == draft_of(pre.take(k + 1), v) by {
                assert(draft_of(before, v) == draft_of(pre.take(k as int), v));
            }
            k = k + 1;
        }
        assert(pre.take(n as int) =~= pre);
        let ghost before = kept@;
        kept.push((workspace, text));
        assert(kept@.drop_last() =~= before);
        assert forall|v: u128| v != workspace implies draft_of(kept@, v) == draft_of(pre, v) by {
            assert(draft_of(before, v) == draft_of(pre.take(n as int), v));
        }
        self.drafts = kept;
    }

    /// The unsent composer text kept for `workspace`; empty when none was kept.
    pub fn draft(&self, workspace: u128) -> (r: String)
        ensures
            r@ == match draft_of(self.drafts@, workspace) {
                Some(t) => t,
                None => Seq::<char>::empty(),
            },
    {
        let mut k: usize = self.drafts.len();
        assert(self.drafts@.take(k as int) =~= self.drafts@);
        while k > 0
            invariant
                k <= self.drafts@.len(),
                draft_of(self.drafts@, workspace) == draft_of(self.drafts@.take(k as int), workspace),
            decreases k,
        {
            let j = k - 1;
            assert(self.drafts@.take(k as int).last() == self.drafts@[j as int]);
            assert(self.drafts@.take(k as int).drop_last() =~= self.drafts@.take(j as int));
            if self.drafts[j].0 == workspace {
                return self.drafts[j].1.clone();
            }
            k = j;
        }
        assert(self.drafts@.take(0) =~= Seq::<(u128, String)>::empty());
        String::new()
    }
}

// ---------------------------------------------------------------------------------------
// Captions and labels
// ---------------------------------------------------------------------------------------
/// The title bar's text: the active workspace's title, or that none is open.
pub fn header_title(state: &AppState) -> (r: String)
    ensures
        r@ == match active_position(*state) {
            Some(p) => workspace_title(state.workspaces@[p]),
            None => "No workspace open"@,
        },
{
    match state.active() {
        Some(w) => w.display_name(),
        None => "No workspace open".to_owned(),
    }
}

/// The composer's status line.
pub fn composer_status(turn_active: bool, connected: bool) -> (r: &'static str)
    ensures
        r@ == if turn_active {
            "Codex is working"@
        } else if connected {
            "Ready"@
        } else {
            "Connecting"@
        },
{
    if turn_active {
        "Codex is working"
    } else if connected {
        "Ready"
    } else {
        "Connecting"
    }
}

/// The send button's label.
pub fn send_label(turn_active: bool) -> (r: &'static str)
    ensures
        r@ == if turn_active { "Working…"@ } else { "Send"@ },
{
    if turn_active {
        "Working…"
    } else {
        "Send"
    }
}

/// The send button takes clicks only when connected and no task runs.
pub fn send_enabled(turn_active: bool, connected: bool) -> (r: bool)
    ensures
        r == (!turn_active && connected),
{
    !turn_active && connected
}

/// The sidebar's account button: the account's e-mail, else whether Codex is connected.
pub fn account_label(account: &AccountStatus) -> (r: String)
    ensures
        r@ == match account.email {
            Some(e) => e@,
            None => if account.connected { "Codex connected"@ } else { "Connect Codex"@ },
        },
{
    match &account.email {
        Some(e) => e.clone(),
        None => if account.connected {
            "Codex connected".to_owned()
        } else {
            "Connect Codex".to_owned()
        },
    }
}

/// The preferences dialog's account line: the account's e-mail, else whether the local App
/// Server has an account.
pub fn account_identity(account: &AccountStatus) -> (r: String)
    ensures
        r@ == match account.email {
            Some(e) => e@,
            None => if account.connected {
                "Connected through the local Codex App Server."@
            } else {
                "No ChatGPT account is connected to the local Codex App Server."@
            },
        },
{
    match &account.email {
        Some(e) => e.clone(),
        None => if account.connected {
            "Connected through the local Codex App Server.".to_owned()
        } else {
            "No ChatGPT account is connected to the local Codex App Server.".to_owned()
        },
    }
}

/// The preferences dialog's account action: refresh a connected account, else sign in.
pub fn account_action(connected: bool) -> (r: (&'static str, Request))
    ensures
        connected ==> r.0@ == "Refresh"@ && r.1 is Refresh,
        !connected ==> r.0@ == "Sign in with ChatGPT"@ && r.1 is StartChatGptLogin,
{
    if connected {
        ("Refresh", Request::Refresh)
    } else {
        ("Sign in with ChatGPT", Request::StartChatGptLogin)
    }
}

/// The menu entry that pins or unpins a workspace.
pub fn pin_label(pinned: bool) -> (r: &'static str)
    ensures
        r@ == if pinned { "Unpin workspace"@ } else { "Pin workspace"@ },
{
    if pinned {
        "Unpin workspace"
    } else {
        "Pin workspace"
    }
}

/// The menu entry that archives or restores a workspace.
pub fn archive_label(archived: bool) -> (r: &'static str)
    ensures
        r@ == if archived { "Restore from archive"@ } else { "Archive workspace"@ },
{
    if archived {
        "Restore from archive"
    } else {
        "Archive workspace"
    }
}

/// The caption under a workspace: whether it spans several folders.
pub fn workspace_kind(w: &Workspace) -> (r: &'static str)
    ensures
        r@ == if w.roots@.len() > 1 { "Multi-folder workspace"@ } else { "Local workspace"@ },
{
    if w.roots.len() > 1 {
        "Multi-folder workspace"
    } else {
        "Local workspace"
    }
}

/// A folder counts as available until a check has found it missing.
pub fn folder_available(checked: Option<bool>) -> (r: bool)
    ensures
        r == (checked != Some(false)),
{
    match checked {
        Some(present) => present,
        None => true,
    }
}


/// Each heading lists its workspaces in the state's order: the positions it lists are
/// below `n` and strictly increasing.
pub proof fn lemma_listed_in_order(ws: Seq<Workspace>, query: Seq<char>, section: Section, n: int)
    requires
        0 <= n <= ws.len(),
        n <= usize::MAX,
    ensures
        forall|i: int| 0 <= i < listed(ws, query, section, n).len() ==> (#[trigger] listed(ws, query, section, n)[i]) < n,
        forall|i: int, j: int| 0 <= i < j < listed(ws, query, section, n).len() ==> (#[trigger] listed(ws, query, section, n)[i]) < (#[trigger] listed(ws, query, section, n)[j]),
    decreases n,
{
    if n > 0 {
        lemma_listed_in_order(ws, query, section, n - 1);
        let prev = listed(ws, query, section, n - 1);
        if matches_query(ws[n - 1], query) && section_of(ws[n - 1]) == section {
            let cur = prev.push((n - 1) as usize);
            assert forall|i: int| 0 <= i < cur.len() implies (#[trigger] cur[i]) < n by {
                if i < prev.len() {
                    assert(cur[i] == prev[i]);
                }
            }
            assert forall|i: int, j: int| 0 <= i < j < cur.len() implies (#[trigger] cur[i]) < (#[trigger] cur[j]) by {
                assert(cur[i] == prev[i]);
                if j < prev.len() {
                    assert(cur[j] == prev[j]);
                }
            }
        }
    }
}
} // verus!
