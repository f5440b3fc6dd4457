//! Workspaces: named groups of root folders with a persistent identity and a
//! default working root, and the application state that lists them.
use std::collections::HashSet;

use vstd::prelude::*;

use crate::ids::{lemma_v4_not_nil, new_v4_id};
use crate::text::{blank, has_prefix, is_blank, join2, strip_prefix};

verus! {

broadcast use vstd::std_specs::hash::group_hash_axioms;

/// The state format version written by this application.
pub const STATE_VERSION: u32 = 1;

/// The state version assumed when a stored state names none.
pub fn default_state_version() -> (v: u32)
    ensures
        v == STATE_VERSION,
{
    STATE_VERSION
}

/// The identity of a directory on its volume, independent of the path used to reach it.
#[derive(Clone, Copy, Debug, PartialEq, Eq, Structural)]
pub struct DirectoryIdentity {
    pub volume_serial: u32,
    pub file_index: u64,
}

/// Builds a directory identity from the volume serial number and the two halves of the
/// file index that the file system reports for an open directory handle.
pub fn directory_identity(volume_serial: u32, file_index_high: u32, file_index_low: u32) -> (r:
    DirectoryIdentity)
    ensures
        r.volume_serial == volume_serial,
        r.file_index == file_index_high as int * 0x1_0000_0000 + file_index_low as int,
{
    let high = file_index_high as u64;
    let low = file_index_low as u64;
    let index = (high << 32u64) | low;
    assert(((high << 32u64) | low) == high * 0x1_0000_0000 + low) by (bit_vector)
        requires
            high < 0x1_0000_0000,
            low < 0x1_0000_0000,
    ;
    DirectoryIdentity { volume_serial, file_index: index }
}

/// What was learned about the folder at `path`: its identity, or `None` when it could
/// not be inspected.
#[derive(Clone, Debug)]
pub struct FolderProbe {
    pub path: String,
    pub identity: Option<DirectoryIdentity>,
}

/// A resolved folder: its canonical path and its identity.
#[derive(Clone, Debug)]
pub struct Folder {
    pub path: String,
    pub identity: DirectoryIdentity,
}

#[derive(Clone, Debug)]
pub struct WorkspaceRoot {
    pub id: u128,
    pub path: String,
}

#[derive(Clone, Debug)]
pub struct Workspace {
    pub id: u128,
    pub name: Option<String>,
    pub pinned: bool,
    pub archived: bool,
    pub thread_id: Option<String>,
    pub roots: Vec<WorkspaceRoot>,
    pub default_root: Option<u128>,
}

/// The persisted application state, apart from window geometry.
#[derive(Clone, Debug)]
pub struct AppState {
    pub version: u32,
    pub workspaces: Vec<Workspace>,
    pub active_workspace: Option<u128>,
}

impl Default for AppState {
    fn default() -> (r: Self)
        ensures
            r.version == STATE_VERSION,
            r.workspaces@.len() == 0,
            r.active_workspace is None,
    {
        AppState { version: STATE_VERSION, workspaces: Vec::new(), active_workspace: None }
    }
}

/// Errors of the workspace operations.
#[derive(Clone, Copy, Debug, PartialEq, Eq, Structural)]
pub enum WorkspaceError {
    NoActiveWorkspaceToAdd,
    NoActiveWorkspaceToRelocate,
    RootNotFound(u128),
    FolderAlreadyPresent,
}

impl WorkspaceError {
    /// The text shown for this error.
    pub fn message(&self) -> (r: String)
        ensures
            r@ == workspace_error_text(*self),
    {
        match self {
            WorkspaceError::NoActiveWorkspaceToAdd => "cannot add a root without an active workspace".to_owned(),
            WorkspaceError::NoActiveWorkspaceToRelocate => "cannot relocate a root without an active workspace".to_owned(),
            WorkspaceError::RootNotFound(id) => {
                let id_text = crate::ids::uuid_text(*id);
                join2("workspace root does not exist: ", id_text.as_str())
            },
            WorkspaceError::FolderAlreadyPresent => "workspace already contains that folder".to_owned(),
        }
    }
}

pub open spec fn workspace_error_text(e: WorkspaceError) -> Seq<char> {
    match e {
        WorkspaceError::NoActiveWorkspaceToAdd => "cannot add a root without an active workspace"@,
        WorkspaceError::NoActiveWorkspaceToRelocate => "cannot relocate a root without an active workspace"@,
        WorkspaceError::RootNotFound(id) => "workspace root does not exist: "@
            + crate::ids::uuid_hyphenated(id),
        WorkspaceError::FolderAlreadyPresent => "workspace already contains that folder"@,
    }
}

// ---------------------------------------------------------------------------------------
// Model
// ---------------------------------------------------------------------------------------
/// Some root of `roots` has the identifier `id`.
pub open spec fn has_root_id(roots: Seq<WorkspaceRoot>, id: u128) -> bool {
    exists|k: int| 0 <= k < roots.len() && (#[trigger] roots[k]).id == id
}

/// The identifier of the first root, if any.
pub open spec fn first_root_id(roots: Seq<WorkspaceRoot>) -> Option<u128> {
    if roots.len() > 0 {
        Some(roots[0].id)
    } else {
        None
    }
}

/// Some workspace of `ws` has the identifier `id`.
pub open spec fn has_workspace(ws: Seq<Workspace>, id: u128) -> bool {
    exists|k: int| 0 <= k < ws.len() && (#[trigger] ws[k]).id == id
}

/// `k` is the first position of a workspace with identifier `id`.
pub open spec fn first_with_id(ws: Seq<Workspace>, id: u128, k: int) -> bool {
    &&& 0 <= k < ws.len()
    &&& ws[k].id == id
    &&& forall|j: int| 0 <= j < k ==> (#[trigger] ws[j]).id != id
}

/// The first position of a workspace with identifier `id` (meaningful when one exists).
pub open spec fn position_of(ws: Seq<Workspace>, id: u128) -> int {
    choose|k: int| first_with_id(ws, id, k)
}

pub proof fn lemma_first_unique(ws: Seq<Workspace>, id: u128, k1: int, k2: int)
    requires
        first_with_id(ws, id, k1),
        first_with_id(ws, id, k2),
    ensures
        k1 == k2,
{
    if k1 < k2 {
        assert(ws[k1].id != id);
    } else if k2 < k1 {
        assert(ws[k2].id != id);
    }
}

pub proof fn lemma_position_of(ws: Seq<Workspace>, id: u128, k: int)
    requires
        first_with_id(ws, id, k),
    ensures
        position_of(ws, id) == k,
{
    lemma_first_unique(ws, id, k, position_of(ws, id));
}

/// The position of the active workspace, when the active identifier names one.
pub open spec fn active_position(s: AppState) -> Option<int> {
    match s.active_workspace {
        Some(id) => if has_workspace(s.workspaces@, id) {
            Some(position_of(s.workspaces@, id))
        } else {
            None
        },
        None => None,
    }
}

/// `probes` report the identity `identity` for the folder at `path`.
pub open spec fn probed_as(probes: Seq<FolderProbe>, path: Seq<char>, identity: DirectoryIdentity) -> bool {
    exists|k: int|
        0 <= k < probes.len() && (#[trigger] probes[k]).path@ == path && probes[k].identity
            == Some(identity)
}

/// The root's folder is the directory `identity`, as far as the probes tell.
pub open spec fn root_is(root: WorkspaceRoot, identity: DirectoryIdentity, probes: Seq<FolderProbe>) -> bool {
    probed_as(probes, root.path@, identity)
}

/// A workspace that consists of exactly one root, which is the directory `identity`.
pub open spec fn single_root_of(w: Workspace, identity: DirectoryIdentity, probes: Seq<FolderProbe>) -> bool {
    w.roots@.len() == 1 && root_is(w.roots@[0], identity, probes)
}

/// Some root of `roots`, other than the one at `skip`, is the directory `identity`.
pub open spec fn other_root_is(
    roots: Seq<WorkspaceRoot>,
    skip: int,
    identity: DirectoryIdentity,
    probes: Seq<FolderProbe>,
) -> bool {
    exists|k: int| 0 <= k < roots.len() && k != skip && root_is(#[trigger] roots[k], identity, probes)
}

// ---------------------------------------------------------------------------------------
// Well-formedness
// ---------------------------------------------------------------------------------------
/// The position `(j, b)` comes before `(i, a)` in workspace order, then root order.
pub open spec fn earlier(j: int, b: int, i: int, a: int) -> bool {
    j < i || (j == i && b < a)
}

/// A valid root position of `ws`.
pub open spec fn root_at(ws: Seq<Workspace>, i: int, a: int) -> bool {
    0 <= i < ws.len() && 0 <= a < ws[i].roots@.len()
}

pub open spec fn root_id(ws: Seq<Workspace>, i: int, a: int) -> u128 {
    ws[i].roots@[a].id
}

/// A workspace's default root names one of its roots, and it has one exactly when it has roots.
pub open spec fn default_root_valid(w: Workspace) -> bool {
    match w.default_root {
        Some(r) => has_root_id(w.roots@, r),
        None => w.roots@.len() == 0,
    }
}

/// A workspace name is never blank.
pub open spec fn name_valid(name: Option<String>) -> bool {
    name matches Some(n) ==> !is_blank(n@)
}

/// The invariant that normalization establishes: identifiers are non-nil and unique
/// (workspaces among workspaces, roots among all roots), names are not blank, default
/// roots are valid and the active workspace exists.
pub open spec fn well_formed(s: AppState) -> bool {
    let ws = s.workspaces@;
    &&& forall|i: int| 0 <= i < ws.len() ==> (#[trigger] ws[i]).id != 0
    &&& forall|i: int, j: int| 0 <= i < ws.len() && 0 <= j < ws.len() && i != j ==> (#[trigger] ws[i]).id != (#[trigger] ws[j]).id
    &&& forall|i: int, a: int| #[trigger] root_at(ws, i, a) ==> root_id(ws, i, a) != 0
    &&& forall|i: int, a: int, j: int, b: int|
        #[trigger] root_at(ws, i, a) && #[trigger] root_at(ws, j, b) && (i != j || a != b) ==> root_id(ws, i, a) != root_id(ws, j, b)
    &&& forall|i: int| 0 <= i < ws.len() ==> name_valid((#[trigger] ws[i]).name)
    &&& forall|i: int| 0 <= i < ws.len() ==> default_root_valid(#[trigger] ws[i])
    &&& (s.active_workspace matches Some(id) ==> has_workspace(ws, id))
}

// ---------------------------------------------------------------------------------------
// Display
// ---------------------------------------------------------------------------------------
/// The file name that `std::path::Path::file_name` gives for `path`.
pub uninterp spec fn path_file_name(path: Seq<char>) -> Option<Seq<char>>;

/// `Path::new(path).file_name()` as text. A path built from a `&str` is valid Unicode,
/// so `to_string_lossy` copies the name unchanged. The result is named, not described:
/// the contract ties it to `path` and says nothing more of it. How a path splits into
/// components is std's rule for the target the application is built for (Windows, where
/// both `\` and `/` separate).
#[verifier::external_body]
fn file_name_of(path: &str) -> (r: Option<String>)
    ensures
        match r {
            Some(name) => path_file_name(path@) == Some(name@),
            None => path_file_name(path@) is None,
        },
{
    std::path::Path::new(path).file_name().map(|name| name.to_string_lossy().into_owned())
}

/// A workspace's title: its name, else the file name of its first root when that is
/// not empty, else "Workspace".
pub open spec fn title_from(name: Option<Seq<char>>, first_root_file_name: Option<Seq<char>>) -> Seq<char> {
    match name {
        Some(n) => n,
        None => match first_root_file_name {
            Some(f) => if f.len() > 0 {
                f
            } else {
                "Workspace"@
            },
            None => "Workspace"@,
        },
    }
}

/// The title of `w`.
pub open spec fn workspace_title(w: Workspace) -> Seq<char> {
    title_from(
        match w.name {
            Some(n) => Some(n@),
            None => None,
        },
        if w.roots@.len() > 0 {
            path_file_name(w.roots@[0].path@)
        } else {
            None
        },
    )
}

/// Picks a workspace title from its name and the file name of its first root.
pub fn title_from_parts(name: Option<&str>, first_root_file_name: Option<String>) -> (r: String)
    ensures
        r@ == title_from(
            match name {
                Some(n) => Some(n@),
                None => None,
            },
            match first_root_file_name {
                Some(f) => Some(f@),
                None => None,
            },
        ),
{
    match name {
        Some(n) => n.to_owned(),
        None => match first_root_file_name {
            Some(f) => if f.unicode_len() > 0 {
                f
            } else {
                "Workspace".to_owned()
            },
            None => "Workspace".to_owned(),
        },
    }
}

/// The verbatim UNC prefix that canonical network paths carry.
pub open spec fn unc_prefix() -> Seq<char> {
    "\\\\?\\UNC\\"@
}

/// The verbatim prefix that canonical local paths carry.
pub open spec fn verbatim_prefix() -> Seq<char> {
    "\\\\?\\"@
}

/// A root path as shown to people: `\\?\UNC\server\share` becomes `\\server\share`,
/// `\\?\C:\dir` becomes `C:\dir`, anything else is unchanged.
pub open spec fn shown_path(p: Seq<char>) -> Seq<char> {
    if has_prefix(p, unc_prefix()) {
        "\\\\"@ + p.subrange(unc_prefix().len() as int, p.len() as int)
    } else if has_prefix(p, verbatim_prefix()) {
        p.subrange(verbatim_prefix().len() as int, p.len() as int)
    } else {
        p
    }
}

impl Workspace {
    /// The title shown for this workspace.
    pub fn display_name(&self) -> (r: String)
        ensures
            r@ == workspace_title(*self),
    {
        let file_name = if self.roots.len() > 0 {
            file_name_of(self.roots[0].path.as_str())
        } else {
            None
        };
        match &self.name {
            Some(n) => title_from_parts(Some(n.as_str()), file_name),
            None => title_from_parts(None, file_name),
        }
    }
}

impl WorkspaceRoot {
    /// The root's path without the verbatim prefix of canonical Windows paths.
    pub fn display_path(&self) -> (r: String)
        ensures
            r@ == shown_path(self.path@),
    {
        let path = self.path.as_str();
        if let Some(rest) = strip_prefix(path, "\\\\?\\UNC\\") {
            return join2("\\\\", rest.as_str());
        }
        match strip_prefix(path, "\\\\?\\") {
            Some(rest) => rest,
            None => path.to_owned(),
        }
    }

    /// The name shown for the root's folder: the file name of its path, else its shown path.
    pub fn folder_name(&self) -> (r: String)
        ensures
            r@ == match path_file_name(self.path@) {
                Some(name) => name,
                None => shown_path(self.path@),
            },
    {
        match file_name_of(self.path.as_str()) {
            Some(name) => name,
            None => self.display_path(),
        }
    }
}

// ---------------------------------------------------------------------------------------
// Lookups
// ---------------------------------------------------------------------------------------
/// The first position of a workspace with identifier `id`.
fn find_workspace(ws: &Vec<Workspace>, id: u128) -> (r: Option<usize>)
    ensures
        r matches Some(p) ==> first_with_id(ws@, id, p as int) && position_of(ws@, id) == p,
        r is None <==> !has_workspace(ws@, id),
{
    let n = ws.len();
    let mut k: usize = 0;
    while k < n
        invariant
            n == ws@.len(),
            k <= n,
            forall|j: int| 0 <= j < k ==> (#[trigger] ws@[j]).id != id,
        decreases n - k,
    {
        if ws[k].id == id {
            proof {
                lemma_position_of(ws@, id, k as int);
            }
            return Some(k);
        }
        k = k + 1;
    }
    None
}

/// The position of the first root with identifier `id`.
pub(crate) fn find_root(roots: &Vec<WorkspaceRoot>, id: u128) -> (r: Option<usize>)
    ensures
        r matches Some(p) ==> p < roots@.len() && roots@[p as int].id == id && forall|j: int|
            0 <= j < p ==> (#[trigger] roots@[j]).id != id,
        r is None <==> !has_root_id(roots@, id),
{
    let n = roots.len();
    let mut k: usize = 0;
    while k < n
        invariant
            n == roots@.len(),
            k <= n,
            forall|j: int| 0 <= j < k ==> (#[trigger] roots@[j]).id != id,
        decreases n - k,
    {
        if roots[k].id == id {
            return Some(k);
        }
        k = k + 1;
    }
    None
}

/// Whether the folder of `root` is the directory `identity`.
fn root_matches(root: &WorkspaceRoot, identity: &DirectoryIdentity, probes: &[FolderProbe]) -> (r:
    bool)
    ensures
        r == root_is(*root, *identity, probes@),
{
    let n = probes.len();
    let mut k: usize = 0;
    while k < n
        invariant
            n == probes@.len(),
            k <= n,
            forall|j: int|
                0 <= j < k ==> !((#[trigger] probes@[j]).path@ == root.path@ && probes@[j].identity
                    == Some(*identity)),
        decreases n - k,
    {
        let probe = &probes[k];
        if crate::text::same_text(probe.path.as_str(), root.path.as_str()) {
            if let Some(found) = probe.identity {
                if found == *identity {
                    return true;
                }
            }
        }
        k = k + 1;
    }
    false
}

/// `post` is `pre` after selecting `workspace_id`.
pub open spec fn selected(pre: AppState, post: AppState, workspace_id: u128) -> bool {
    &&& post.workspaces@ == pre.workspaces@
    &&& post.version == pre.version
    &&& post.active_workspace == if has_workspace(pre.workspaces@, workspace_id) {
            Some(workspace_id)
        } else {
            pre.active_workspace
        }
}

/// `post` is `pre` after opening `folder`, which gave the workspace identifier `r`.
pub open spec fn opened(pre: AppState, post: AppState, folder: Folder, probes: Seq<FolderProbe>, r: u128) -> bool {
    &&& post.version == pre.version
    &&& post.active_workspace == Some(r)
    &&& (exists|k: int| first_single_root_at(pre.workspaces@, folder.identity, probes, k))
            ==> {
            let k = choose|k: int| first_single_root_at(pre.workspaces@, folder.identity, probes, k);
            &&& r == pre.workspaces@[k].id
            &&& post.workspaces@ == pre.workspaces@
        }
    &&& !(exists|k: int| first_single_root_at(pre.workspaces@, folder.identity, probes, k))
            ==> {
            let w = post.workspaces@[0];
            &&& post.workspaces@.len() == pre.workspaces@.len() + 1
            &&& post.workspaces@.subrange(1, post.workspaces@.len() as int) == pre.workspaces@
            &&& w.id == r
            &&& r != 0
            &&& w.name is None
            &&& !w.pinned
            &&& !w.archived
            &&& w.thread_id is None
            &&& w.roots@.len() == 1
            &&& w.roots@[0].path == folder.path
            &&& w.roots@[0].id != 0
            &&& w.default_root == Some(w.roots@[0].id)
        }
}

/// `post` is `pre` after adding `folder` to the active workspace, with result `r`.
pub open spec fn root_added(pre: AppState, post: AppState, folder: Folder, probes: Seq<FolderProbe>, r: Result<bool, WorkspaceError>) -> bool {
    &&& post.version == pre.version
    &&& post.active_workspace == pre.active_workspace
    &&& match active_position(pre) {
            None => r == Err::<bool, WorkspaceError>(WorkspaceError::NoActiveWorkspaceToAdd)
                && post.workspaces@ == pre.workspaces@,
            Some(p) => {
                let w = pre.workspaces@[p];
                if exists|k: int| 0 <= k < w.roots@.len() && root_is(#[trigger] w.roots@[k], folder.identity, probes) {
                    r == Ok::<bool, WorkspaceError>(false) && post.workspaces@ == pre.workspaces@
                } else {
                    let nw = post.workspaces@[p];
                    &&& r == Ok::<bool, WorkspaceError>(true)
                    &&& post.workspaces@.len() == pre.workspaces@.len()
                    &&& forall|j: int| 0 <= j < pre.workspaces@.len() && j != p ==> post.workspaces@[j] == pre.workspaces@[j]
                    &&& nw.roots@.len() == w.roots@.len() + 1
                    &&& nw.roots@.subrange(0, w.roots@.len() as int) == w.roots@
                    &&& nw.roots@.last().path == folder.path
                    &&& nw.roots@.last().id != 0
                    &&& nw.default_root == if w.default_root is None { Some(nw.roots@.last().id) } else { w.default_root }
                    &&& nw.id == w.id && nw.name == w.name && nw.pinned == w.pinned && nw.archived == w.archived && nw.thread_id == w.thread_id
                }
            },
        }
}

/// `post` is `pre` after making `root_id` the active workspace's default root.
pub open spec fn default_root_set(pre: AppState, post: AppState, root_id: u128) -> bool {
    &&& post.version == pre.version
    &&& post.active_workspace == pre.active_workspace
    &&& match active_position(pre) {
            Some(p) => if has_root_id(pre.workspaces@[p].roots@, root_id) {
                post.workspaces@ == pre.workspaces@.update(
                    p,
                    (Workspace { default_root: Some(root_id), ..pre.workspaces@[p] }),
                )
            } else {
                post.workspaces@ == pre.workspaces@
            },
            None => post.workspaces@ == pre.workspaces@,
        }
}

/// `post` is `pre` after pointing root `root_id` of the active workspace at `folder`, with result `r`.
pub open spec fn root_relocated(pre: AppState, post: AppState, root_id: u128, folder: Folder, probes: Seq<FolderProbe>, r: Result<(), WorkspaceError>) -> bool {
    &&& post.version == pre.version
    &&& post.active_workspace == pre.active_workspace
    &&& match active_position(pre) {
            None => r == Err::<(), WorkspaceError>(WorkspaceError::NoActiveWorkspaceToRelocate)
                && post.workspaces@ == pre.workspaces@,
            Some(p) => {
                let w = pre.workspaces@[p];
                if !has_root_id(w.roots@, root_id) {
                    r == Err::<(), WorkspaceError>(WorkspaceError::RootNotFound(root_id))
                        && post.workspaces@ == pre.workspaces@
                } else {
                    let a = choose|a: int| first_root_at(w.roots@, root_id, a);
                    if other_root_is(w.roots@, a, folder.identity, probes) {
                        r == Err::<(), WorkspaceError>(WorkspaceError::FolderAlreadyPresent)
                            && post.workspaces@ == pre.workspaces@
                    } else {
                        &&& r is Ok
                        &&& post.workspaces@ == pre.workspaces@.update(
                            p,
                            (Workspace {
                                roots: post.workspaces@[p].roots,
                                ..w
                            }),
                        )
                        &&& post.workspaces@[p].roots@ == w.roots@.update(
                            a,
                            (WorkspaceRoot { id: root_id, path: folder.path }),
                        )
                    }
                }
            },
        }
}

/// `post` is `pre` after removing the root `root_id`.
pub open spec fn root_removed(pre: AppState, post: AppState, root_id: u128) -> bool {
    &&& post.version == pre.version
    &&& post.active_workspace == pre.active_workspace
    &&& (exists|i: int| first_holding_root(pre.workspaces@, root_id, i)) ==> {
            let i = choose|i: int| first_holding_root(pre.workspaces@, root_id, i);
            let w = pre.workspaces@[i];
            let a = choose|a: int| first_root_at(w.roots@, root_id, a);
            let roots = w.roots@.remove(a);
            &&& post.workspaces@.len() == pre.workspaces@.len()
            &&& forall|j: int| 0 <= j < pre.workspaces@.len() && j != i ==> post.workspaces@[j] == pre.workspaces@[j]
            &&& post.workspaces@[i].roots@ == roots
            &&& post.workspaces@[i].default_root == if w.default_root == Some(root_id) {
                first_root_id(roots)
            } else {
                w.default_root
            }
            &&& post.workspaces@[i].id == w.id
            &&& post.workspaces@[i].name == w.name
            &&& post.workspaces@[i].pinned == w.pinned
            &&& post.workspaces@[i].archived == w.archived
            &&& post.workspaces@[i].thread_id == w.thread_id
        }
    &&& !(exists|i: int| first_holding_root(pre.workspaces@, root_id, i)) ==> post.workspaces@ == pre.workspaces@
}

/// `post` is `pre` after renaming the active workspace to `name`.
pub open spec fn renamed(pre: AppState, post: AppState, name: Option<String>) -> bool {
    &&& post.version == pre.version
    &&& post.active_workspace == pre.active_workspace
    &&& match active_position(pre) {
            Some(p) => post.workspaces@ == pre.workspaces@.update(
                p,
                (Workspace { name: name, ..pre.workspaces@[p] }),
            ),
            None => post.workspaces@ == pre.workspaces@,
        }
}

/// `post` is `pre` after removing the workspace `workspace_id`.
pub open spec fn workspace_removed(pre: AppState, post: AppState, workspace_id: u128) -> bool {
    &&& post.version == pre.version
    &&& has_workspace(pre.workspaces@, workspace_id) ==> {
            let p = position_of(pre.workspaces@, workspace_id);
            &&& post.workspaces@ == pre.workspaces@.remove(p)
            &&& post.active_workspace == if pre.active_workspace == Some(workspace_id) {
                first_workspace_id(post.workspaces@)
            } else {
                pre.active_workspace
            }
        }
    &&& !has_workspace(pre.workspaces@, workspace_id) ==> post == pre
}

/// `post` is `pre` after pinning or unpinning `workspace_id`.
pub open spec fn pin_toggled(pre: AppState, post: AppState, workspace_id: u128) -> bool {
    &&& post.version == pre.version
    &&& post.active_workspace == pre.active_workspace
    &&& has_workspace(pre.workspaces@, workspace_id) ==> {
            let p = position_of(pre.workspaces@, workspace_id);
            post.workspaces@ == pre.workspaces@.update(
                p,
                (Workspace { pinned: !pre.workspaces@[p].pinned, ..pre.workspaces@[p] }),
            )
        }
    &&& !has_workspace(pre.workspaces@, workspace_id) ==> post.workspaces@ == pre.workspaces@
}

/// `post` is `pre` after archiving or restoring `workspace_id`.
pub open spec fn archive_toggled(pre: AppState, post: AppState, workspace_id: u128) -> bool {
    &&& post.version == pre.version
    &&& has_workspace(pre.workspaces@, workspace_id) ==> {
            let p = position_of(pre.workspaces@, workspace_id);
            let w = pre.workspaces@[p];
            &&& post.workspaces@ == pre.workspaces@.update(p, (Workspace { archived: !w.archived, ..w }))
            &&& post.active_workspace == if !w.archived && pre.active_workspace == Some(workspace_id) {
                first_unarchived_id(post.workspaces@)
            } else {
                pre.active_workspace
            }
        }
    &&& !has_workspace(pre.workspaces@, workspace_id) ==> post == pre
}

/// `post` is `pre` after recording `thread_id` for `workspace_id`.
pub open spec fn thread_set(pre: AppState, post: AppState, workspace_id: u128, thread_id: String) -> bool {
    &&& post.version == pre.version
    &&& post.active_workspace == pre.active_workspace
    &&& has_workspace(pre.workspaces@, workspace_id) ==> {
            let p = position_of(pre.workspaces@, workspace_id);
            post.workspaces@ == pre.workspaces@.update(
                p,
                (Workspace { thread_id: Some(thread_id), ..pre.workspaces@[p] }),
            )
        }
    &&& !has_workspace(pre.workspaces@, workspace_id) ==> post.workspaces@ == pre.workspaces@
}

impl AppState {
    /// The active workspace, if the active identifier names one.
    pub fn active(&self) -> (r: Option<&Workspace>)
        ensures
            match active_position(*self) {
                Some(p) => r is Some && *r->0 == self.workspaces@[p],
                None => r is None,
            },
    {
        let idx = self.active_index();
        match idx {
            Some(p) => Some(&self.workspaces[p]),
            None => None,
        }
    }

    /// The active workspace, to be changed in place; the rest of the state stays as it is.
    pub fn active_mut(&mut self) -> (r: Option<&mut Workspace>)
        ensures
            active_position(*old(self)) is None ==> r.is_none() && final(self).workspaces@ == old(self).workspaces@,
            active_position(*old(self)) matches Some(p) ==> r.is_some() && *r.unwrap() == old(self).workspaces@[p]
                && final(self).workspaces@ == old(self).workspaces@.update(p, *final(r.unwrap())),
            final(self).version == old(self).version,
            final(self).active_workspace == old(self).active_workspace,
    {
        match self.active_index() {
            Some(p) => Some(&mut self.workspaces[p]),
            None => None,
        }
    }

    /// The position of the active workspace.
    pub fn active_index(&self) -> (r: Option<usize>)
        ensures
            match active_position(*self) {
                Some(p) => r matches Some(q) && q as int == p && 0 <= p < self.workspaces@.len(),
                None => r is None,
            },
    {
        match self.active_workspace {
            Some(id) => {
                let found = find_workspace(&self.workspaces, id);
                found
            },
            None => None,
        }
    }

    /// Makes `workspace_id` active when a workspace has that identifier.
    pub fn select_workspace(&mut self, workspace_id: u128)
        ensures
            well_formed(*old(self)) ==> well_formed(*final(self)),
            selected(*old(self), *final(self), workspace_id),
    {
        if find_workspace(&self.workspaces, workspace_id).is_some() {
            self.active_workspace = Some(workspace_id);
        }
    }
}


/// `k` is the first workspace that holds a root with identifier `root_id`.
pub open spec fn first_holding_root(ws: Seq<Workspace>, root_id: u128, k: int) -> bool {
    &&& 0 <= k < ws.len()
    &&& has_root_id(ws[k].roots@, root_id)
    &&& forall|j: int| 0 <= j < k ==> !has_root_id((#[trigger] ws[j]).roots@, root_id)
}

/// `a` is the first position of a root with identifier `id`.
pub open spec fn first_root_at(roots: Seq<WorkspaceRoot>, id: u128, a: int) -> bool {
    &&& 0 <= a < roots.len()
    &&& roots[a].id == id
    &&& forall|j: int| 0 <= j < a ==> (#[trigger] roots[j]).id != id
}

/// `k` is the first workspace that is not archived.
pub open spec fn first_unarchived_at(ws: Seq<Workspace>, k: int) -> bool {
    &&& 0 <= k < ws.len()
    &&& !ws[k].archived
    &&& forall|j: int| 0 <= j < k ==> (#[trigger] ws[j]).archived
}

/// The identifier of the first workspace that is not archived.
pub open spec fn first_unarchived_id(ws: Seq<Workspace>) -> Option<u128> {
    if exists|k: int| first_unarchived_at(ws, k) {
        Some(ws[choose|k: int| first_unarchived_at(ws, k)].id)
    } else {
        None
    }
}

/// `k` is the first workspace that consists of the single directory `identity`.
pub open spec fn first_single_root_at(
    ws: Seq<Workspace>,
    identity: DirectoryIdentity,
    probes: Seq<FolderProbe>,
    k: int,
) -> bool {
    &&& 0 <= k < ws.len()
    &&& single_root_of(ws[k], identity, probes)
    &&& forall|j: int| 0 <= j < k ==> !single_root_of(#[trigger] ws[j], identity, probes)
}

/// The identifier of the first workspace, if any.
pub open spec fn first_workspace_id(ws: Seq<Workspace>) -> Option<u128> {
    if ws.len() > 0 {
        Some(ws[0].id)
    } else {
        None
    }
}

/// The identifier of the first workspace that is not archived.
fn first_unarchived(ws: &Vec<Workspace>) -> (r: Option<u128>)
    ensures
        r == first_unarchived_id(ws@),
{
    let n = ws.len();
    let mut k: usize = 0;
    while k < n
        invariant
            n == ws@.len(),
            k <= n,
            forall|j: int| 0 <= j < k ==> (#[trigger] ws@[j]).archived,
        decreases n - k,
    {
        if !ws[k].archived {
            proof {
                assert(first_unarchived_at(ws@, k as int));
                let c = choose|c: int| first_unarchived_at(ws@, c);
                if c < k {
                    assert(ws@[c].archived);
                } else if k < c {
                    assert(ws@[k as int].archived);
                }
            }
            return Some(ws[k].id);
        }
        k = k + 1;
    }
    assert forall|c: int| !first_unarchived_at(ws@, c) by {
        if 0 <= c < n {
            assert(ws@[c].archived);
        }
    }
    None
}

/// Some root of `roots` is the directory `identity`.
fn any_root_matches(roots: &Vec<WorkspaceRoot>, identity: &DirectoryIdentity, probes: &[FolderProbe]) -> (r: bool)
    ensures
        r == exists|k: int| 0 <= k < roots@.len() && root_is(#[trigger] roots@[k], *identity, probes@),
{
    let n = roots.len();
    let mut k: usize = 0;
    while k < n
        invariant
            n == roots@.len(),
            k <= n,
            forall|j: int| 0 <= j < k ==> !root_is(#[trigger] roots@[j], *identity, probes@),
        decreases n - k,
    {
        if root_matches(&roots[k], identity, probes) {
            return true;
        }
        k = k + 1;
    }
    false
}


/// Replacing one workspace by one with the same identifier, root identifiers in the same
/// order, a valid name and a valid default root keeps the state well formed.
pub proof fn lemma_update_keeps_well_formed(old: AppState, new: AppState, p: int)
    requires
        well_formed(old),
        0 <= p < old.workspaces@.len(),
        new.workspaces@.len() == old.workspaces@.len(),
        forall|j: int| 0 <= j < old.workspaces@.len() && j != p ==> new.workspaces@[j] == old.workspaces@[j],
        new.workspaces@[p].id == old.workspaces@[p].id,
        new.workspaces@[p].roots@.len() == old.workspaces@[p].roots@.len(),
        forall|a: int| 0 <= a < old.workspaces@[p].roots@.len() ==> (#[trigger] new.workspaces@[p].roots@[a]).id == old.workspaces@[p].roots@[a].id,
        name_valid(new.workspaces@[p].name),
        new.workspaces@[p].default_root == old.workspaces@[p].default_root || default_root_valid(new.workspaces@[p]),
        new.active_workspace == old.active_workspace,
    ensures
        well_formed(new),
{
    let ow = old.workspaces@;
    let ws = new.workspaces@;
    assert forall|i: int| 0 <= i < ws.len() implies (#[trigger] ws[i]).id == ow[i].id by {}
    assert forall|i: int, a: int| #[trigger] root_at(ws, i, a) == root_at(ow, i, a) && (root_at(ws, i, a) ==> root_id(ws, i, a) == root_id(ow, i, a)) by {
        if 0 <= i < ws.len() && i != p {
            assert(ws[i] == ow[i]);
        }
    }
    assert forall|i: int| 0 <= i < ws.len() implies default_root_valid(#[trigger] ws[i]) by {
        if i == p {
            if !default_root_valid(ws[p]) {
                assert(default_root_valid(ow[p]));
                match ow[p].default_root {
                    Some(r) => {
                        let k = choose|k: int| 0 <= k < ow[p].roots@.len() && (#[trigger] ow[p].roots@[k]).id == r;
                        assert(ws[p].roots@[k].id == r);
                    },
                    None => {},
                }
            }
        } else {
            assert(ws[i] == ow[i]);
        }
    }
    assert forall|i: int| 0 <= i < ws.len() implies name_valid((#[trigger] ws[i]).name) by {
        if i != p {
            assert(ws[i] == ow[i]);
        }
    }
    match new.active_workspace {
        Some(id) => {
            let k = choose|k: int| 0 <= k < ow.len() && (#[trigger] ow[k]).id == id;
            assert(ws[k].id == id);
        },
        None => {},
    }
}

/// Removing a workspace keeps the state well formed when the active workspace afterwards is
/// either unchanged and still present, the first remaining workspace, or none.
pub proof fn lemma_remove_keeps_well_formed(old: AppState, new: AppState, p: int)
    requires
        well_formed(old),
        0 <= p < old.workspaces@.len(),
        new.workspaces@ == old.workspaces@.remove(p),
        new.active_workspace == old.active_workspace || new.active_workspace == first_workspace_id(new.workspaces@),
        new.active_workspace matches Some(id) ==> id != old.workspaces@[p].id,
    ensures
        well_formed(new),
{
    let ow = old.workspaces@;
    let ws = new.workspaces@;
    assert forall|i: int| 0 <= i < ws.len() implies #[trigger] ws[i] == ow[if i < p { i } else { i + 1 }] by {}
    assert forall|i: int, a: int| #[trigger] root_at(ws, i, a) implies root_at(ow, if i < p { i } else { i + 1 }, a) && root_id(ws, i, a) == root_id(ow, if i < p { i } else { i + 1 }, a) by {
        assert(ws[i] == ow[if i < p { i } else { i + 1 }]);
    }
    assert forall|i: int, j: int| 0 <= i < ws.len() && 0 <= j < ws.len() && i != j implies (#[trigger] ws[i]).id != (#[trigger] ws[j]).id by {
        assert(ws[i] == ow[if i < p { i } else { i + 1 }]);
        assert(ws[j] == ow[if j < p { j } else { j + 1 }]);
    }
    assert forall|i: int, a: int, j: int, b: int| #[trigger] root_at(ws, i, a) && #[trigger] root_at(ws, j, b) && (i != j || a != b) implies root_id(ws, i, a) != root_id(ws, j, b) by {
        let oi = if i < p { i } else { i + 1 };
        let oj = if j < p { j } else { j + 1 };
        assert(root_at(ow, oi, a) && root_at(ow, oj, b));
    }
    match new.active_workspace {
        Some(id) => {
            if new.active_workspace == old.active_workspace {
                let k = choose|k: int| 0 <= k < ow.len() && (#[trigger] ow[k]).id == id;
                assert(k != p);
                let nk = if k < p { k } else { k - 1 };
                assert(ws[nk] == ow[k]);
            } else {
                assert(ws[0].id == id);
            }
        },
        None => {},
    }
}


/// Removing one root from a workspace, and moving its default to the first remaining root
/// when the removed root was the default, keeps the state well formed.
pub proof fn lemma_remove_root_keeps_well_formed(old: AppState, new: AppState, i: int, a: int)
    requires
        well_formed(old),
        root_at(old.workspaces@, i, a),
        new.workspaces@.len() == old.workspaces@.len(),
        forall|j: int| 0 <= j < old.workspaces@.len() && j != i ==> new.workspaces@[j] == old.workspaces@[j],
        new.workspaces@[i].id == old.workspaces@[i].id,
        new.workspaces@[i].name == old.workspaces@[i].name,
        new.workspaces@[i].roots@ == old.workspaces@[i].roots@.remove(a),
        new.workspaces@[i].default_root == if old.workspaces@[i].default_root == Some(root_id(old.workspaces@, i, a)) {
            first_root_id(new.workspaces@[i].roots@)
        } else {
            old.workspaces@[i].default_root
        },
        new.active_workspace == old.active_workspace,
    ensures
        well_formed(new),
{
    let ow = old.workspaces@;
    let ws = new.workspaces@;
    let src = |k: int, b: int| if k == i && b >= a { b + 1 } else { b };
    assert forall|k: int| 0 <= k < ws.len() implies (#[trigger] ws[k]).id == ow[k].id by {}
    assert forall|k: int, b: int| #[trigger] root_at(ws, k, b) implies root_at(ow, k, src(k, b)) && root_id(ws, k, b) == root_id(ow, k, src(k, b)) by {
        if k != i {
            assert(ws[k] == ow[k]);
        }
    }
    assert forall|k: int, b: int, j: int, c: int| #[trigger] root_at(ws, k, b) && #[trigger] root_at(ws, j, c) && (k != j || b != c) implies root_id(ws, k, b) != root_id(ws, j, c) by {
        assert(root_at(ow, k, src(k, b)) && root_at(ow, j, src(j, c)));
    }
    assert forall|k: int| 0 <= k < ws.len() implies name_valid((#[trigger] ws[k]).name) by {
        if k != i {
            assert(ws[k] == ow[k]);
        }
    }
    assert forall|k: int| 0 <= k < ws.len() implies default_root_valid(#[trigger] ws[k]) by {
        if k != i {
            assert(ws[k] == ow[k]);
        } else {
            let w = ws[i];
            let o = ow[i];
            if o.default_root == Some(root_id(ow, i, a)) {
                if w.roots@.len() > 0 {
                    assert(has_root_id(w.roots@, w.roots@[0].id));
                }
            } else {
                assert(default_root_valid(o));
                match o.default_root {
                    Some(r) => {
                        let t = choose|t: int| 0 <= t < o.roots@.len() && (#[trigger] o.roots@[t]).id == r;
                        assert(t != a);
                        let nt = if t < a { t } else { t - 1 };
                        assert(w.roots@[nt] == o.roots@[t]);
                    },
                    None => {
                        assert(o.roots@.len() == 0);
                    },
                }
            }
        }
    }
    match new.active_workspace {
        Some(id) => {
            let k = choose|k: int| 0 <= k < ow.len() && (#[trigger] ow[k]).id == id;
            assert(ws[k].id == id);
        },
        None => {},
    }
}

impl AppState {
    /// Opens the folder as a workspace. A workspace whose only root is the same directory is
    /// selected and returned; otherwise a new workspace holding just this folder is placed
    /// first and made active.
    pub fn open_folder(&mut self, folder: Folder, probes: &[FolderProbe]) -> (r: u128)
        ensures
            opened(*old(self), *final(self), folder, probes@, r),
    {
        let n = self.workspaces.len();
        let mut k: usize = 0;
        while k < n
            invariant
                n == self.workspaces@.len(),
                self.workspaces@ == old(self).workspaces@,
                self.version == old(self).version,
                k <= n,
                forall|j: int| 0 <= j < k ==> !single_root_of(#[trigger] self.workspaces@[j], folder.identity, probes@),
            decreases n - k,
        {
            if self.workspaces[k].roots.len() == 1 && root_matches(&self.workspaces[k].roots[0], &folder.identity, probes) {
                let id = self.workspaces[k].id;
                proof {
                    let ws = self.workspaces@;
                    assert(first_single_root_at(ws, folder.identity, probes@, k as int));
                    let c = choose|c: int| first_single_root_at(ws, folder.identity, probes@, c);
                    if c < k {
                        assert(!single_root_of(ws[c], folder.identity, probes@));
                    } else if k < c {
                        assert(!single_root_of(ws[k as int], folder.identity, probes@));
                    }
                    assert(has_workspace(ws, id));
                }
                self.select_workspace(id);
                return id;
            }
            k = k + 1;
        }
        let root_id = new_v4_id();
        let workspace_id = new_v4_id();
        proof {
            lemma_v4_not_nil(root_id);
            lemma_v4_not_nil(workspace_id);
        }
        let ghost old_ws = self.workspaces@;
        self.workspaces.insert(
            0,
            Workspace {
                id: workspace_id,
                name: None,
                pinned: false,
                archived: false,
                thread_id: None,
                roots: vec![WorkspaceRoot { id: root_id, path: folder.path }],
                default_root: Some(root_id),
            },
        );
        assert(self.workspaces@.subrange(1, self.workspaces@.len() as int) =~= old_ws);
        self.active_workspace = Some(workspace_id);
        workspace_id
    }

    /// Adds the folder as a root of the active workspace, unless one of its roots is already
    /// that directory. Returns whether a root was added.
    pub fn add_root(&mut self, folder: Folder, probes: &[FolderProbe]) -> (r: Result<bool, WorkspaceError>)
        ensures
            root_added(*old(self), *final(self), folder, probes@, r),
    {
        let p = match self.active_index() {
            Some(p) => p,
            None => return Err(WorkspaceError::NoActiveWorkspaceToAdd),
        };
        if any_root_matches(&self.workspaces[p].roots, &folder.identity, probes) {
            return Ok(false);
        }
        let root_id = new_v4_id();
        proof {
            lemma_v4_not_nil(root_id);
        }
        let ghost old_roots = self.workspaces@[p as int].roots@;
        if self.workspaces[p].default_root.is_none() {
            self.workspaces[p].default_root = Some(root_id);
        }
        self.workspaces[p].roots.push(WorkspaceRoot { id: root_id, path: folder.path });
        assert(self.workspaces@[p as int].roots@.subrange(0, old_roots.len() as int) =~= old_roots);
        Ok(true)
    }

    /// Makes `root_id` the default root of the active workspace, when it is one of its roots.
    pub fn set_default_root(&mut self, root_id: u128)
        ensures
            well_formed(*old(self)) ==> well_formed(*final(self)),
            default_root_set(*old(self), *final(self), root_id),
    {
        if let Some(p) = self.active_index() {
            if find_root(&self.workspaces[p].roots, root_id).is_some() {
                self.workspaces[p].default_root = Some(root_id);
                proof {
                    if well_formed(*old(self)) {
                        lemma_update_keeps_well_formed(*old(self), *self, p as int);
                    }
                }
            }
        }
    }

    /// Points the root `root_id` of the active workspace at another folder, unless another
    /// root of that workspace already is that directory.
    pub fn relocate_root(&mut self, root_id: u128, folder: Folder, probes: &[FolderProbe]) -> (r: Result<(), WorkspaceError>)
        ensures
            well_formed(*old(self)) ==> well_formed(*final(self)),
            root_relocated(*old(self), *final(self), root_id, folder, probes@, r),
    {
        let p = match self.active_index() {
            Some(p) => p,
            None => return Err(WorkspaceError::NoActiveWorkspaceToRelocate),
        };
        let a = match find_root(&self.workspaces[p].roots, root_id) {
            Some(a) => a,
            None => return Err(WorkspaceError::RootNotFound(root_id)),
        };
        let ghost w = self.workspaces@[p as int];
        proof {
            assert(first_root_at(w.roots@, root_id, a as int));
            let c = choose|c: int| first_root_at(w.roots@, root_id, c);
            if c < a {
                assert(w.roots@[c].id != root_id);
            } else if a < c {
                assert(w.roots@[a as int].id != root_id);
            }
        }
        let n = self.workspaces[p].roots.len();
        let mut k: usize = 0;
        while k < n
            invariant
                n == w.roots@.len(),
                self.workspaces@ == old(self).workspaces@,
                self.active_workspace == old(self).active_workspace,
                self.version == old(self).version,
                active_position(*old(self)) == Some(p as int),
                (choose|c: int| first_root_at(w.roots@, root_id, c)) == a,
                has_root_id(w.roots@, root_id),
                self.workspaces@[p as int] == w,
                p < self.workspaces@.len(),
                a < n,
                k <= n,
                forall|j: int| 0 <= j < k && j != a ==> !root_is(#[trigger] w.roots@[j], folder.identity, probes@),
            decreases n - k,
        {
            if k != a && root_matches(&self.workspaces[p].roots[k], &folder.identity, probes) {
                return Err(WorkspaceError::FolderAlreadyPresent);
            }
            k = k + 1;
        }
        self.workspaces[p].roots[a].path = folder.path;
        proof {
            if well_formed(*old(self)) {
                lemma_update_keeps_well_formed(*old(self), *self, p as int);
            }
        }
        assert(self.workspaces@[p as int].roots@ =~= w.roots@.update(a as int, (WorkspaceRoot { id: root_id, path: folder.path })));
        Ok(())
    }

    /// Removes the first root with identifier `root_id` from the first workspace that has one.
    /// When it was that workspace's default, its first remaining root becomes the default.
    pub fn remove_root(&mut self, root_id: u128)
        ensures
            well_formed(*old(self)) ==> well_formed(*final(self)),
            root_removed(*old(self), *final(self), root_id),
    {
        let n = self.workspaces.len();
        let mut i: usize = 0;
        while i < n
            invariant
                n == self.workspaces@.len(),
                self.workspaces@ == old(self).workspaces@,
                self.active_workspace == old(self).active_workspace,
                self.version == old(self).version,
                i <= n,
                forall|j: int| 0 <= j < i ==> !has_root_id((#[trigger] self.workspaces@[j]).roots@, root_id),
            decreases n - i,
        {
            if let Some(a) = find_root(&self.workspaces[i].roots, root_id) {
                let ghost ws = self.workspaces@;
                let ghost w = ws[i as int];
                proof {
                    assert(first_holding_root(ws, root_id, i as int));
                    let c = choose|c: int| first_holding_root(ws, root_id, c);
                    if c < i {
                        assert(!has_root_id(ws[c].roots@, root_id));
                    } else if i < c {
                        assert(!has_root_id(ws[i as int].roots@, root_id));
                    }
                    assert(first_root_at(w.roots@, root_id, a as int));
                    let d = choose|d: int| first_root_at(w.roots@, root_id, d);
                    if d < a {
                        assert(w.roots@[d].id != root_id);
                    } else if a < d {
                        assert(w.roots@[a as int].id != root_id);
                    }
                }
                self.workspaces[i].roots.remove(a);
                if self.workspaces[i].default_root == Some(root_id) {
                    let first = if self.workspaces[i].roots.len() > 0 {
                        Some(self.workspaces[i].roots[0].id)
                    } else {
                        None
                    };
                    self.workspaces[i].default_root = first;
                }
                proof {
                    if well_formed(*old(self)) {
                        lemma_remove_root_keeps_well_formed(*old(self), *self, i as int, a as int);
                    }
                }
                return;
            }
            i = i + 1;
        }
    }

    /// Renames the active workspace.
    pub fn rename_workspace(&mut self, name: Option<String>)
        ensures
            well_formed(*old(self)) && name_valid(name) ==> well_formed(*final(self)),
            renamed(*old(self), *final(self), name),
    {
        if let Some(p) = self.active_index() {
            let ghost valid = name_valid(name);
            self.workspaces[p].name = name;
            proof {
                if well_formed(*old(self)) && valid {
                    lemma_update_keeps_well_formed(*old(self), *self, p as int);
                }
            }
        }
    }

    /// Removes the workspace entry `workspace_id`. When it was active, the first remaining
    /// workspace becomes active.
    pub fn remove_workspace(&mut self, workspace_id: u128)
        ensures
            well_formed(*old(self)) ==> well_formed(*final(self)),
            workspace_removed(*old(self), *final(self), workspace_id),
    {
        let p = match find_workspace(&self.workspaces, workspace_id) {
            Some(p) => p,
            None => return,
        };
        let was_active = self.active_workspace == Some(workspace_id);
        self.workspaces.remove(p);
        if was_active {
            self.active_workspace = if self.workspaces.len() > 0 {
                Some(self.workspaces[0].id)
            } else {
                None
            };
        }
        proof {
            if well_formed(*old(self)) {
                if !was_active {
                    assert(self.active_workspace == old(self).active_workspace);
                }
                if self.workspaces@.len() > 0 {
                    assert(self.workspaces@[0] == old(self).workspaces@[if p == 0 { 1int } else { 0int }]);
                }
                lemma_remove_keeps_well_formed(*old(self), *self, p as int);
            }
        }
    }

    /// Pins or unpins the workspace `workspace_id`.
    pub fn toggle_pin_workspace(&mut self, workspace_id: u128)
        ensures
            well_formed(*old(self)) ==> well_formed(*final(self)),
            pin_toggled(*old(self), *final(self), workspace_id),
    {
        if let Some(p) = find_workspace(&self.workspaces, workspace_id) {
            self.workspaces[p].pinned = !self.workspaces[p].pinned;
            proof {
                if well_formed(*old(self)) {
                    lemma_update_keeps_well_formed(*old(self), *self, p as int);
                }
            }
        }
    }

    /// Archives or restores the workspace `workspace_id`. Archiving the active workspace
    /// makes the first workspace that is not archived active.
    pub fn toggle_archive_workspace(&mut self, workspace_id: u128)
        ensures
            well_formed(*old(self)) ==> well_formed(*final(self)),
            archive_toggled(*old(self), *final(self), workspace_id),
    {
        let p = match find_workspace(&self.workspaces, workspace_id) {
            Some(p) => p,
            None => return,
        };
        self.workspaces[p].archived = !self.workspaces[p].archived;
        proof {
            if well_formed(*old(self)) {
                lemma_update_keeps_well_formed(*old(self), *self, p as int);
            }
        }
        if self.workspaces[p].archived && self.active_workspace == Some(workspace_id) {
            let found = first_unarchived(&self.workspaces);
            proof {
                if found is Some {
                    let k = choose|k: int| first_unarchived_at(self.workspaces@, k);
                    assert(has_workspace(self.workspaces@, self.workspaces@[k].id));
                }
            }
            self.active_workspace = found;
        }
    }

    /// Records the backend thread of the workspace `workspace_id`.
    pub fn set_thread_id(&mut self, workspace_id: u128, thread_id: String)
        ensures
            well_formed(*old(self)) ==> well_formed(*final(self)),
            thread_set(*old(self), *final(self), workspace_id, thread_id),
    {
        if let Some(p) = find_workspace(&self.workspaces, workspace_id) {
            self.workspaces[p].thread_id = Some(thread_id);
            proof {
                if well_formed(*old(self)) {
                    lemma_update_keeps_well_formed(*old(self), *self, p as int);
                }
            }
        }
    }
}


// ---------------------------------------------------------------------------------------
// Normalization
// ---------------------------------------------------------------------------------------
/// A name survives normalization unless it is blank.
pub open spec fn normalized_name(name: Option<String>) -> Option<String> {
    match name {
        Some(n) => if is_blank(n@) {
            None
        } else {
            Some(n)
        },
        None => None,
    }
}

/// The default root after normalization: a default that names one of `roots` stays, any
/// other becomes the first root (or none).
pub open spec fn default_after(default_root: Option<u128>, roots: Seq<WorkspaceRoot>) -> Option<u128> {
    match default_root {
        Some(r) => if has_root_id(roots, r) {
            Some(r)
        } else {
            first_root_id(roots)
        },
        None => first_root_id(roots),
    }
}

/// Workspace `i` keeps its identifier: it is not nil and no earlier workspace already has it.
pub open spec fn workspace_id_kept(old_ws: Seq<Workspace>, new_ws: Seq<Workspace>, i: int) -> bool {
    &&& old_ws[i].id != 0
    &&& forall|j: int| 0 <= j < i ==> (#[trigger] new_ws[j]).id != old_ws[i].id
}

/// Workspace `i` keeps its identifier when it may, and otherwise has a fresh non-nil one that
/// no earlier workspace has.
pub open spec fn workspace_id_settled(old_ws: Seq<Workspace>, new_ws: Seq<Workspace>, i: int) -> bool {
    if workspace_id_kept(old_ws, new_ws, i) {
        new_ws[i].id == old_ws[i].id
    } else {
        &&& new_ws[i].id != 0
        &&& forall|j: int| 0 <= j < i ==> (#[trigger] new_ws[j]).id != new_ws[i].id
    }
}

/// Root `a` of workspace `i` keeps its identifier: it is not nil and no earlier root (in
/// workspace order, then root order) already has it.
pub open spec fn root_id_kept(old_ws: Seq<Workspace>, new_ws: Seq<Workspace>, i: int, a: int) -> bool {
    &&& root_id(old_ws, i, a) != 0
    &&& forall|j: int, b: int|
        #[trigger] root_at(new_ws, j, b) && earlier(j, b, i, a) ==> root_id(new_ws, j, b) != root_id(old_ws, i, a)
}

/// Root `a` of workspace `i` keeps its identifier when it may, and otherwise has a fresh
/// non-nil one that no earlier root has.
pub open spec fn root_id_settled(old_ws: Seq<Workspace>, new_ws: Seq<Workspace>, i: int, a: int) -> bool {
    if root_id_kept(old_ws, new_ws, i, a) {
        root_id(new_ws, i, a) == root_id(old_ws, i, a)
    } else {
        &&& root_id(new_ws, i, a) != 0
        &&& forall|j: int, b: int|
            #[trigger] root_at(new_ws, j, b) && earlier(j, b, i, a) ==> root_id(new_ws, j, b) != root_id(new_ws, i, a)
    }
}

/// Workspace `i` of `new_ws` is the normalized form of workspace `i` of `old_ws`.
pub open spec fn workspace_normalized(old_ws: Seq<Workspace>, new_ws: Seq<Workspace>, i: int) -> bool {
    let o = old_ws[i];
    let w = new_ws[i];
    &&& workspace_id_settled(old_ws, new_ws, i)
    &&& w.name == normalized_name(o.name)
    &&& w.pinned == o.pinned
    &&& w.archived == o.archived
    &&& w.thread_id == o.thread_id
    &&& w.roots@.len() == o.roots@.len()
    &&& forall|a: int| 0 <= a < o.roots@.len() ==> (#[trigger] w.roots@[a]).path == o.roots@[a].path
    &&& forall|a: int| 0 <= a < o.roots@.len() ==> #[trigger] root_id_settled(old_ws, new_ws, i, a)
    &&& w.default_root == default_after(o.default_root, w.roots@)
}

/// `new` is what normalization makes of `old`.
pub open spec fn normalized_from(old: AppState, new: AppState) -> bool {
    &&& new.version == old.version
    &&& new.workspaces@.len() == old.workspaces@.len()
    &&& forall|i: int| 0 <= i < old.workspaces@.len() ==> #[trigger] workspace_normalized(old.workspaces@, new.workspaces@, i)
    &&& new.active_workspace == match old.active_workspace {
        Some(a) => if has_workspace(new.workspaces@, a) {
            Some(a)
        } else {
            None
        },
        None => None,
    }
}

/// Something that normalization may change differs between `o` and `w`.
pub open spec fn workspace_changed(o: Workspace, w: Workspace) -> bool {
    ||| o.id != w.id
    ||| o.name != w.name
    ||| o.default_root != w.default_root
    ||| exists|a: int| 0 <= a < o.roots@.len() && (#[trigger] o.roots@[a]).id != w.roots@[a].id
}

/// Normalization changed something between `old` and `new`.
pub open spec fn state_changed(old: AppState, new: AppState) -> bool {
    ||| exists|i: int| 0 <= i < old.workspaces@.len() && #[trigger] workspace_changed(old.workspaces@[i], new.workspaces@[i])
    ||| old.active_workspace != new.active_workspace
}

proof fn lemma_prefix_count(used: Set<u128>, k: u128)
    requires
        used.finite(),
        forall|j: u128| 1 <= j <= k ==> used.contains(j),
    ensures
        k <= used.len(),
    decreases k,
{
    if k > 0 {
        let smaller = used.remove(k);
        assert forall|j: u128| 1 <= j <= (k - 1) as u128 implies smaller.contains(j) by {
            assert(used.contains(j));
        }
        lemma_prefix_count(smaller, (k - 1) as u128);
    }
}

/// Draws identifiers until one is not in `used`, records it and returns it. After an
/// astronomically long run of collisions it settles for the smallest unused positive value.
fn fresh_id(used: &mut HashSet<u128>) -> (id: u128)
    requires
        old(used)@.finite(),
        old(used)@.len() < u128::MAX,
    ensures
        id != 0,
        !old(used)@.contains(id),
        final(used)@ == old(used)@.insert(id),
{
    let mut attempts: u64 = 0;
    while attempts < u64::MAX
        invariant
            used@ == old(used)@,
        decreases u64::MAX - attempts,
    {
        let id = new_v4_id();
        proof {
            lemma_v4_not_nil(id);
        }
        if used.insert(id) {
            return id;
        }
        attempts = attempts + 1;
    }
    let mut k: u128 = 1;
    while used.contains(&k)
        invariant
            used@ == old(used)@,
            used@.finite(),
            used@.len() < u128::MAX,
            1 <= k <= used@.len() + 1,
            forall|j: u128| 1 <= j < k ==> used@.contains(j),
        decreases used@.len() + 1 - k,
    {
        proof {
            assert forall|j: u128| 1 <= j <= k implies used@.contains(j) by {
                if j < k {
                } else {
                    assert(j == k);
                }
            }
            lemma_prefix_count(used@, k);
        }
        k = k + 1;
    }
    used.insert(k);
    k
}

proof fn lemma_root_settled_transfer(old_ws: Seq<Workspace>, s1: Seq<Workspace>, s2: Seq<Workspace>, i: int, a: int)
    requires
        forall|j: int, b: int| #[trigger] root_at(s1, j, b) == root_at(s2, j, b),
        forall|j: int, b: int| #[trigger] root_at(s1, j, b) ==> root_id(s1, j, b) == root_id(s2, j, b),
        root_at(s1, i, a),
        root_id_settled(old_ws, s1, i, a),
    ensures
        root_id_settled(old_ws, s2, i, a),
{
    assert(root_at(s2, i, a));
    assert(root_id(s1, i, a) == root_id(s2, i, a));
    if root_id_kept(old_ws, s1, i, a) {
        assert forall|j: int, b: int| #[trigger] root_at(s2, j, b) && earlier(j, b, i, a) implies root_id(s2, j, b) != root_id(old_ws, i, a) by {
            assert(root_at(s1, j, b));
        }
    } else {
        if root_id_kept(old_ws, s2, i, a) {
            assert forall|j: int, b: int| #[trigger] root_at(s1, j, b) && earlier(j, b, i, a) implies root_id(s1, j, b) != root_id(old_ws, i, a) by {
                assert(root_at(s2, j, b));
            }
        }
        assert forall|j: int, b: int| #[trigger] root_at(s2, j, b) && earlier(j, b, i, a) implies root_id(s2, j, b) != root_id(s2, i, a) by {
            assert(root_at(s1, j, b));
        }
    }
}

proof fn lemma_normalized_stable(old_ws: Seq<Workspace>, s1: Seq<Workspace>, s2: Seq<Workspace>, k: int, i: int)
    requires
        s1.len() == s2.len(),
        s1.len() == old_ws.len(),
        0 <= k < i < s1.len(),
        forall|j: int| 0 <= j < s1.len() && j != i ==> s1[j] == s2[j],
        workspace_normalized(old_ws, s1, k),
    ensures
        workspace_normalized(old_ws, s2, k),
{
    assert(s1[k] == s2[k]);
    assert forall|j: int| 0 <= j < k implies s1[j] == s2[j] by {}
    assert forall|a: int| 0 <= a < old_ws[k].roots@.len() implies #[trigger] root_id_settled(old_ws, s2, k, a) by {
        assert(root_id_settled(old_ws, s1, k, a));
        assert forall|j: int, b: int| earlier(j, b, k, a) implies (root_at(s1, j, b) == root_at(s2, j, b) && (root_at(s1, j, b) ==> root_id(s1, j, b) == root_id(s2, j, b))) by {
            if 0 <= j < s1.len() {
                assert(s1[j] == s2[j]);
            }
        }
    }
}

impl AppState {
    /// Repairs stored state: nil or repeated identifiers get fresh ones, blank names are
    /// dropped, an invalid default root becomes the first root, and an active identifier
    /// that names no workspace is cleared. Returns whether anything changed.
    pub fn normalize(&mut self) -> (changed: bool)
        ensures
            normalized_from(*old(self), *final(self)),
            changed == state_changed(*old(self), *final(self)),
    {
        let ghost old_ws = old(self).workspaces@;
        let mut changed = false;
        let mut workspace_ids: HashSet<u128> = HashSet::new();
        let mut root_ids: HashSet<u128> = HashSet::new();
        let ghost mut counted: int = 0;
        let n = self.workspaces.len();
        let mut i: usize = 0;
        while i < n
            invariant
                n == old_ws.len(),
                old_ws == old(self).workspaces@,
                self.workspaces@.len() == n,
                self.version == old(self).version,
                self.active_workspace == old(self).active_workspace,
                i <= n,
                forall|k: int| i <= k < n ==> #[trigger] self.workspaces@[k] == old_ws[k],
                forall|k: int| 0 <= k < i ==> #[trigger] workspace_normalized(old_ws, self.workspaces@, k),
                changed == exists|k: int| 0 <= k < i && #[trigger] workspace_changed(old_ws[k], self.workspaces@[k]),
                workspace_ids@.finite(),
                workspace_ids@.len() <= i,
                forall|x: u128| #[trigger] workspace_ids@.contains(x) <==> exists|k: int| 0 <= k < i && (#[trigger] self.workspaces@[k]).id == x,
                root_ids@.finite(),
                0 <= counted <= i * 0x1_0000_0000_0000_0000,
                root_ids@.len() <= counted,
                forall|x: u128| #[trigger] root_ids@.contains(x) <==> exists|k: int, b: int| k < i && #[trigger] root_at(self.workspaces@, k, b) && root_id(self.workspaces@, k, b) == x,
            decreases n - i,
        {
            let ghost before = self.workspaces@;
            let ghost changed_before = changed;
            // identifier
            let id = self.workspaces[i].id;
            let ghost set_before = workspace_ids@;
            if id == 0 || !workspace_ids.insert(id) {
                proof {
                    if id != 0 {
                        assert(set_before.contains(id));
                        assert(set_before.insert(id) =~= set_before);
                        let k = choose|k: int| 0 <= k < i && (#[trigger] before[k]).id == id;
                        assert(before[k].id == old_ws[i as int].id);
                    }
                    assert(!workspace_id_kept(old_ws, before, i as int));
                }
                let fresh = fresh_id(&mut workspace_ids);
                self.workspaces[i].id = fresh;
                changed = true;
            }
            let ghost after_id = self.workspaces@;
            proof {
                assert forall|j: int| 0 <= j < n && j != i implies after_id[j] == before[j] by {}
                assert forall|j: int| 0 <= j < i implies after_id[j].id == before[j].id by {}
                assert(workspace_id_settled(old_ws, after_id, i as int));
                assert forall|x: u128| #[trigger] workspace_ids@.contains(x) <==> exists|k: int| 0 <= k < i + 1 && (#[trigger] after_id[k]).id == x by {
                    if workspace_ids@.contains(x) {
                        if x == after_id[i as int].id {
                        } else {
                            assert(set_before.contains(x));
                            let k = choose|k: int| 0 <= k < i && (#[trigger] before[k]).id == x;
                            assert(after_id[k].id == x);
                        }
                    }
                    if exists|k: int| 0 <= k < i + 1 && (#[trigger] after_id[k]).id == x {
                        let k = choose|k: int| 0 <= k < i + 1 && (#[trigger] after_id[k]).id == x;
                        if k < i {
                            assert(before[k].id == x);
                            assert(set_before.contains(x));
                        }
                    }
                }
            }
            let ghost id_changed = after_id[i as int].id != old_ws[i as int].id;
            // name
            let blank_name = match &self.workspaces[i].name {
                Some(name) => blank(name.as_str()),
                None => false,
            };
            if blank_name {
                self.workspaces[i].name = None;
                changed = true;
            }
            // roots
            let m = self.workspaces[i].roots.len();
            let ghost mid = self.workspaces@;
            let ghost name_changed = mid[i as int].name != old_ws[i as int].name;
            assert(mid[i as int].name == normalized_name(old_ws[i as int].name));
            assert(changed == (changed_before || id_changed || name_changed));
            proof {
                assert forall|j: int| 0 <= j < n && j != i implies mid[j] == before[j] by {}
                assert forall|x: u128| #[trigger] root_ids@.contains(x) <==> exists|k: int, b: int| earlier(k, b, i as int, 0) && #[trigger] root_at(mid, k, b) && root_id(mid, k, b) == x by {
                    if root_ids@.contains(x) {
                        let (k, b) = choose|k: int, b: int| k < i && #[trigger] root_at(before, k, b) && root_id(before, k, b) == x;
                        assert(mid[k] == before[k]);
                        assert(earlier(k, b, i as int, 0) && root_at(mid, k, b) && root_id(mid, k, b) == x);
                    }
                    if exists|k: int, b: int| earlier(k, b, i as int, 0) && #[trigger] root_at(mid, k, b) && root_id(mid, k, b) == x {
                        let (k, b) = choose|k: int, b: int| earlier(k, b, i as int, 0) && #[trigger] root_at(mid, k, b) && root_id(mid, k, b) == x;
                        assert(k < i);
                        assert(mid[k] == before[k]);
                        assert(root_at(before, k, b) && root_id(before, k, b) == x);
                    }
                }
            }
            let mut a: usize = 0;
            while a < m
                invariant
                    n == old_ws.len(),
                    self.version == old(self).version,
                    self.active_workspace == old(self).active_workspace,
                    self.workspaces@.len() == n,
                    i < n,
                    mid.len() == n,
                    m == old_ws[i as int].roots@.len(),
                    mid[i as int].roots == old_ws[i as int].roots,
                    self.workspaces@[i as int].roots@.len() == m,
                    a <= m,
                    forall|k: int| 0 <= k < n && k != i ==> #[trigger] self.workspaces@[k] == mid[k],
                    self.workspaces@[i as int].id == mid[i as int].id,
                    self.workspaces@[i as int].name == mid[i as int].name,
                    self.workspaces@[i as int].pinned == mid[i as int].pinned,
                    self.workspaces@[i as int].archived == mid[i as int].archived,
                    self.workspaces@[i as int].thread_id == mid[i as int].thread_id,
                    self.workspaces@[i as int].default_root == mid[i as int].default_root,
                    forall|b: int| 0 <= b < m ==> (#[trigger] self.workspaces@[i as int].roots@[b]).path == old_ws[i as int].roots@[b].path,
                    forall|b: int| a <= b < m ==> (#[trigger] self.workspaces@[i as int].roots@[b]).id == old_ws[i as int].roots@[b].id,
                    forall|b: int| 0 <= b < a ==> #[trigger] root_id_settled(old_ws, self.workspaces@, i as int, b),
                    changed == (changed_before || id_changed || name_changed || exists|b: int| 0 <= b < a && (#[trigger] old_ws[i as int].roots@[b]).id != self.workspaces@[i as int].roots@[b].id),
                    root_ids@.finite(),
                    0 <= counted <= i * 0x1_0000_0000_0000_0000 + a,
                    root_ids@.len() <= counted,
                    forall|x: u128| #[trigger] root_ids@.contains(x) <==> exists|k: int, b: int| earlier(k, b, i as int, a as int) && #[trigger] root_at(self.workspaces@, k, b) && root_id(self.workspaces@, k, b) == x,
                decreases m - a,
            {
                let rid = self.workspaces[i].roots[a].id;
                let ghost pre = self.workspaces@;
                let ghost rset = root_ids@;
                if rid == 0 || !root_ids.insert(rid) {
                    proof {
                        if rid != 0 {
                            assert(rset.contains(rid));
                            assert(rset.insert(rid) =~= rset);
                            let (k, b) = choose|k: int, b: int| earlier(k, b, i as int, a as int) && #[trigger] root_at(pre, k, b) && root_id(pre, k, b) == rid;
                            assert(root_id(pre, k, b) == root_id(old_ws, i as int, a as int));
                        }
                        assert(!root_id_kept(old_ws, pre, i as int, a as int));
                    }
                    let fresh = fresh_id(&mut root_ids);
                    self.workspaces[i].roots[a].id = fresh;
                    changed = true;
                }
                let ghost post = self.workspaces@;
                proof {
                    counted = counted + 1;
                    assert forall|k: int, b: int| (k != i || b != a) implies (root_at(pre, k, b) == root_at(post, k, b) && (root_at(pre, k, b) ==> root_id(pre, k, b) == root_id(post, k, b))) by {
                        if 0 <= k < n && k != i {
                            assert(pre[k] == post[k]);
                        }
                    }
                    assert(root_at(post, i as int, a as int));
                    assert(root_id_settled(old_ws, post, i as int, a as int));
                    assert forall|b: int| 0 <= b < a + 1 implies #[trigger] root_id_settled(old_ws, post, i as int, b) by {
                        if b < a {
                            assert(root_id_settled(old_ws, pre, i as int, b));
                        }
                    }
                    assert forall|x: u128| #[trigger] root_ids@.contains(x) <==> exists|k: int, b: int| earlier(k, b, i as int, a + 1) && #[trigger] root_at(post, k, b) && root_id(post, k, b) == x by {
                        if root_ids@.contains(x) {
                            if x == root_id(post, i as int, a as int) {
                                assert(earlier(i as int, a as int, i as int, a + 1) && root_at(post, i as int, a as int));
                            } else {
                                assert(rset.contains(x));
                                let (k, b) = choose|k: int, b: int| earlier(k, b, i as int, a as int) && #[trigger] root_at(pre, k, b) && root_id(pre, k, b) == x;
                                assert(root_at(post, k, b) && root_id(post, k, b) == x);
                            }
                        }
                        if exists|k: int, b: int| earlier(k, b, i as int, a + 1) && #[trigger] root_at(post, k, b) && root_id(post, k, b) == x {
                            let (k, b) = choose|k: int, b: int| earlier(k, b, i as int, a + 1) && #[trigger] root_at(post, k, b) && root_id(post, k, b) == x;
                            if k != i || b != a {
                                assert(root_at(pre, k, b) && root_id(pre, k, b) == x);
                                assert(rset.contains(x));
                            }
                        }
                    }
                    if changed {
                    }
                }
                a = a + 1;
            }
            let ghost after_roots = self.workspaces@;
            let ghost roots_changed = exists|b: int| 0 <= b < m && (#[trigger] old_ws[i as int].roots@[b]).id != after_roots[i as int].roots@[b].id;
            // default root
            let valid_default = match self.workspaces[i].default_root {
                Some(root_id) => find_root(&self.workspaces[i].roots, root_id).is_some(),
                None => false,
            };
            if !valid_default {
                let first = if self.workspaces[i].roots.len() > 0 {
                    Some(self.workspaces[i].roots[0].id)
                } else {
                    None
                };
                if self.workspaces[i].default_root != first {
                    self.workspaces[i].default_root = first;
                    changed = true;
                }
            }
            proof {
                let fin = self.workspaces@;
                let ii = i as int;
                assert forall|j: int| 0 <= j < n && j != ii implies fin[j] == before[j] by {
                    assert(fin[j] == after_roots[j]);
                    assert(after_roots[j] == mid[j]);
                    assert(mid[j] == before[j]);
                }
                assert(before[ii] == old_ws[ii]);
                assert(fin[ii].roots == after_roots[ii].roots);
                assert forall|j: int| 0 <= j <= ii implies #[trigger] fin[j].id == after_id[j].id by {
                    if j < ii {
                        assert(after_id[j] == before[j]);
                    }
                }
                assert(workspace_id_settled(old_ws, fin, ii)) by {
                    assert(workspace_id_settled(old_ws, after_id, ii));
                    assert forall|j: int| 0 <= j < ii implies fin[j].id == after_id[j].id by {}
                }
                assert forall|j: int, b: int| #[trigger] root_at(fin, j, b) == root_at(after_roots, j, b) && (root_at(fin, j, b) ==> root_id(fin, j, b) == root_id(after_roots, j, b)) by {
                    if 0 <= j < n && j != ii {
                        assert(fin[j] == after_roots[j]);
                    }
                }
                assert forall|a: int| 0 <= a < m implies #[trigger] root_id_settled(old_ws, fin, ii, a) by {
                    assert(root_id_settled(old_ws, after_roots, ii, a));
                    assert(root_at(after_roots, ii, a));
                    lemma_root_settled_transfer(old_ws, after_roots, fin, ii, a);
                }
                assert(fin[ii].default_root == default_after(old_ws[ii].default_root, fin[ii].roots@));
                assert(workspace_normalized(old_ws, fin, ii));
                assert forall|k: int| 0 <= k < ii + 1 implies #[trigger] workspace_normalized(old_ws, fin, k) by {
                    if k < ii {
                        lemma_normalized_stable(old_ws, before, fin, k, ii);
                    }
                }
                assert(workspace_changed(old_ws[ii], fin[ii]) == (id_changed || name_changed || roots_changed || old_ws[ii].default_root != fin[ii].default_root));
                assert(changed == exists|k: int| 0 <= k < ii + 1 && #[trigger] workspace_changed(old_ws[k], fin[k])) by {
                    if changed_before {
                        let k = choose|k: int| 0 <= k < ii && #[trigger] workspace_changed(old_ws[k], before[k]);
                        assert(workspace_changed(old_ws[k], fin[k]));
                    }
                    if exists|k: int| 0 <= k < ii + 1 && #[trigger] workspace_changed(old_ws[k], fin[k]) {
                        let k = choose|k: int| 0 <= k < ii + 1 && #[trigger] workspace_changed(old_ws[k], fin[k]);
                        if k < ii {
                            assert(workspace_changed(old_ws[k], before[k]));
                        }
                    }
                }
                assert forall|x: u128| #[trigger] workspace_ids@.contains(x) <==> exists|k: int| 0 <= k < ii + 1 && (#[trigger] fin[k]).id == x by {
                    if workspace_ids@.contains(x) {
                        let k = choose|k: int| 0 <= k < ii + 1 && (#[trigger] after_id[k]).id == x;
                        assert(fin[k].id == x);
                    }
                    if exists|k: int| 0 <= k < ii + 1 && (#[trigger] fin[k]).id == x {
                        let k = choose|k: int| 0 <= k < ii + 1 && (#[trigger] fin[k]).id == x;
                        assert(after_id[k].id == x);
                    }
                }
                assert forall|x: u128| #[trigger] root_ids@.contains(x) <==> exists|k: int, b: int| k < ii + 1 && #[trigger] root_at(fin, k, b) && root_id(fin, k, b) == x by {
                    if root_ids@.contains(x) {
                        let (k, b) = choose|k: int, b: int| earlier(k, b, ii, m as int) && #[trigger] root_at(after_roots, k, b) && root_id(after_roots, k, b) == x;
                        assert(root_at(fin, k, b));
                    }
                    if exists|k: int, b: int| k < ii + 1 && #[trigger] root_at(fin, k, b) && root_id(fin, k, b) == x {
                        let (k, b) = choose|k: int, b: int| k < ii + 1 && #[trigger] root_at(fin, k, b) && root_id(fin, k, b) == x;
                        assert(root_at(after_roots, k, b));
                        assert(earlier(k, b, ii, m as int));
                    }
                }
                assert forall|k: int| ii + 1 <= k < n implies #[trigger] fin[k] == old_ws[k] by {
                    assert(fin[k] == before[k]);
                }
            }
            i = i + 1;
        }
        if let Some(active) = self.active_workspace {
            if !workspace_ids.contains(&active) {
                self.active_workspace = None;
                changed = true;
            }
        }
        changed
    }
}


// ---------------------------------------------------------------------------------------
// Laws of normalization
// ---------------------------------------------------------------------------------------
/// Normalization establishes the state invariant: whatever fresh identifiers were drawn, the
/// normalized state has unique non-nil identifiers, no blank names, valid default roots and
/// an active workspace that exists.
pub proof fn lemma_normalize_establishes_well_formed(old: AppState, new: AppState)
    requires
        normalized_from(old, new),
    ensures
        well_formed(new),
{
    let ow = old.workspaces@;
    let ws = new.workspaces@;
    assert forall|i: int| 0 <= i < ws.len() implies (#[trigger] ws[i]).id != 0 by {
        assert(workspace_normalized(ow, ws, i));
    }
    assert forall|i: int, j: int| 0 <= i < ws.len() && 0 <= j < ws.len() && i != j implies (#[trigger] ws[i]).id != (#[trigger] ws[j]).id by {
        assert(workspace_normalized(ow, ws, i));
        assert(workspace_normalized(ow, ws, j));
        if j < i {
            assert(workspace_id_settled(ow, ws, i));
        } else {
            assert(workspace_id_settled(ow, ws, j));
        }
    }
    assert forall|i: int, a: int| #[trigger] root_at(ws, i, a) implies root_id(ws, i, a) != 0 by {
        assert(workspace_normalized(ow, ws, i));
        assert(root_id_settled(ow, ws, i, a));
    }
    assert forall|i: int, a: int, j: int, b: int| #[trigger] root_at(ws, i, a) && #[trigger] root_at(ws, j, b) && (i != j || a != b) implies root_id(ws, i, a) != root_id(ws, j, b) by {
        assert(workspace_normalized(ow, ws, i));
        assert(workspace_normalized(ow, ws, j));
        assert(root_id_settled(ow, ws, i, a));
        assert(root_id_settled(ow, ws, j, b));
        if earlier(j, b, i, a) {
        } else {
            assert(earlier(i, a, j, b));
        }
    }
    assert forall|i: int| 0 <= i < ws.len() implies name_valid((#[trigger] ws[i]).name) by {
        assert(workspace_normalized(ow, ws, i));
    }
    assert forall|i: int| 0 <= i < ws.len() implies default_root_valid(#[trigger] ws[i]) by {
        assert(workspace_normalized(ow, ws, i));
        let w = ws[i];
        if w.roots@.len() > 0 {
            assert(has_root_id(w.roots@, w.roots@[0].id));
        }
    }
}

proof fn lemma_root_ids_stay(old: AppState, new: AppState, i: int, a: int)
    requires
        well_formed(old),
        normalized_from(old, new),
        0 <= i < old.workspaces@.len(),
        0 <= a <= old.workspaces@[i].roots@.len(),
        forall|k: int, b: int| 0 <= k < i && #[trigger] root_at(old.workspaces@, k, b) ==> root_id(new.workspaces@, k, b) == root_id(old.workspaces@, k, b),
    ensures
        forall|b: int| 0 <= b < a ==> #[trigger] new.workspaces@[i].roots@[b].id == old.workspaces@[i].roots@[b].id,
    decreases a,
{
    let ow = old.workspaces@;
    let ws = new.workspaces@;
    if a > 0 {
        let a1 = a - 1;
        lemma_root_ids_stay(old, new, i, a1);
        assert(workspace_normalized(ow, ws, i));
        assert(root_at(ow, i, a1));
        assert(root_id_settled(ow, ws, i, a1));
        assert(root_id_kept(ow, ws, i, a1)) by {
            assert forall|j: int, b: int| #[trigger] root_at(ws, j, b) && earlier(j, b, i, a1) implies root_id(ws, j, b) != root_id(ow, i, a1) by {
                assert(workspace_normalized(ow, ws, j));
                assert(root_at(ow, j, b));
                if j < i {
                    assert(root_id(ws, j, b) == root_id(ow, j, b));
                } else {
                    assert(ws[i].roots@[b].id == ow[i].roots@[b].id);
                }
            }
        }
    }
}

proof fn lemma_ids_stay(old: AppState, new: AppState, i: int)
    requires
        well_formed(old),
        normalized_from(old, new),
        0 <= i <= old.workspaces@.len(),
    ensures
        forall|k: int| 0 <= k < i ==> #[trigger] new.workspaces@[k].id == old.workspaces@[k].id,
        forall|k: int, b: int| 0 <= k < i && #[trigger] root_at(old.workspaces@, k, b) ==> root_id(new.workspaces@, k, b) == root_id(old.workspaces@, k, b),
    decreases i,
{
    let ow = old.workspaces@;
    let ws = new.workspaces@;
    if i > 0 {
        let i1 = i - 1;
        lemma_ids_stay(old, new, i1);
        assert(workspace_normalized(ow, ws, i1));
        assert(workspace_id_kept(ow, ws, i1)) by {
            assert forall|j: int| 0 <= j < i1 implies (#[trigger] ws[j]).id != ow[i1].id by {
                assert(ws[j].id == ow[j].id);
                assert(ow[j].id != ow[i1].id);
            }
        }
        lemma_root_ids_stay(old, new, i1, ow[i1].roots@.len() as int);
        assert forall|k: int, b: int| 0 <= k < i && #[trigger] root_at(ow, k, b) implies root_id(ws, k, b) == root_id(ow, k, b) by {
            if k == i1 {
                assert(ws[i1].roots@[b].id == ow[i1].roots@[b].id);
            }
        }
    }
}

/// Two lists of workspaces hold the same workspaces, field by field and root by root.
pub open spec fn same_workspaces(a: Seq<Workspace>, b: Seq<Workspace>) -> bool {
    &&& a.len() == b.len()
    &&& forall|i: int| 0 <= i < a.len() ==> {
        let o = #[trigger] a[i];
        let w = b[i];
        &&& w.id == o.id
        &&& w.name == o.name
        &&& w.pinned == o.pinned
        &&& w.archived == o.archived
        &&& w.thread_id == o.thread_id
        &&& w.default_root == o.default_root
        &&& w.roots@ == o.roots@
    }
}

/// Normalizing a well-formed state changes nothing: every identifier, name and default root
/// stays, the active workspace stays, and normalization reports no change.
pub proof fn lemma_normalize_well_formed_is_identity(old: AppState, new: AppState)
    requires
        well_formed(old),
        normalized_from(old, new),
    ensures
        !state_changed(old, new),
        new.active_workspace == old.active_workspace,
        forall|i: int| 0 <= i < old.workspaces@.len() ==> {
            let o = #[trigger] old.workspaces@[i];
            let w = new.workspaces@[i];
            &&& w.id == o.id
            &&& w.name == o.name
            &&& w.pinned == o.pinned
            &&& w.archived == o.archived
            &&& w.thread_id == o.thread_id
            &&& w.default_root == o.default_root
            &&& w.roots@.len() == o.roots@.len()
            &&& forall|a: int| 0 <= a < o.roots@.len() ==> #[trigger] w.roots@[a] == o.roots@[a]
        },
{
    let ow = old.workspaces@;
    let ws = new.workspaces@;
    let n = ow.len();
    lemma_ids_stay(old, new, n as int);
    assert forall|i: int| 0 <= i < n implies {
        let o = #[trigger] ow[i];
        let w = ws[i];
        &&& w.id == o.id
        &&& w.name == o.name
        &&& w.pinned == o.pinned
        &&& w.archived == o.archived
        &&& w.thread_id == o.thread_id
        &&& w.default_root == o.default_root
        &&& w.roots@.len() == o.roots@.len()
        &&& forall|a: int| 0 <= a < o.roots@.len() ==> #[trigger] w.roots@[a] == o.roots@[a]
    } by {
        let o = ow[i];
        let w = ws[i];
        assert(workspace_normalized(ow, ws, i));
        assert(name_valid(o.name));
        assert forall|a: int| 0 <= a < o.roots@.len() implies #[trigger] w.roots@[a] == o.roots@[a] by {
            assert(root_at(ow, i, a));
            assert(w.roots@[a].path == o.roots@[a].path);
            assert(w.roots@[a].id == o.roots@[a].id);
        }
        assert(default_root_valid(o));
        match o.default_root {
            Some(r) => {
                let k = choose|k: int| 0 <= k < o.roots@.len() && (#[trigger] o.roots@[k]).id == r;
                assert(w.roots@[k].id == r);
            },
            None => {},
        }
    }
    assert(!state_changed(old, new)) by {
        assert forall|i: int| 0 <= i < n implies !#[trigger] workspace_changed(ow[i], ws[i]) by {
            assert(ws[i].id == ow[i].id);
            assert forall|a: int| 0 <= a < ow[i].roots@.len() implies !((#[trigger] ow[i].roots@[a]).id != ws[i].roots@[a].id) by {
                assert(ws[i].roots@[a] == ow[i].roots@[a]);
            }
        }
        match old.active_workspace {
            Some(id) => {
                let k = choose|k: int| 0 <= k < n && (#[trigger] ow[k]).id == id;
                assert(ws[k].id == id);
            },
            None => {},
        }
    }
}
// ---------------------------------------------------------------------------------------
// Laws of the workspace operations
// ---------------------------------------------------------------------------------------
proof fn lemma_first_single_unique(ws: Seq<Workspace>, identity: DirectoryIdentity, probes: Seq<FolderProbe>, k1: int, k2: int)
    requires
        first_single_root_at(ws, identity, probes, k1),
        first_single_root_at(ws, identity, probes, k2),
    ensures
        k1 == k2,
{
    if k1 < k2 {
        assert(!single_root_of(ws[k1], identity, probes));
    } else if k2 < k1 {
        assert(!single_root_of(ws[k2], identity, probes));
    }
}

/// Two workspace lists with the same identifiers at the same positions.
pub open spec fn same_ids(a: Seq<Workspace>, b: Seq<Workspace>) -> bool {
    a.len() == b.len() && forall|i: int| 0 <= i < a.len() ==> (#[trigger] a[i]).id == b[i].id
}

proof fn lemma_same_ids_position(a: Seq<Workspace>, b: Seq<Workspace>, id: u128)
    requires
        same_ids(a, b),
    ensures
        has_workspace(a, id) == has_workspace(b, id),
        has_workspace(a, id) ==> position_of(a, id) == position_of(b, id),
{
    if has_workspace(a, id) {
        let k = choose|k: int| 0 <= k < a.len() && (#[trigger] a[k]).id == id;
        assert(b[k].id == id);
        let p = position_of(a, id);
        assert(first_with_id(a, id, p)) by {
            let q = choose|q: int| first_with_id(a, id, q);
            lemma_first_index_exists(a, id, k);
        }
        assert(first_with_id(b, id, p)) by {
            assert forall|j: int| 0 <= j < p implies (#[trigger] b[j]).id != id by {
                assert(a[j].id != id);
            }
        }
        lemma_position_of(b, id, p);
    } else {
        if has_workspace(b, id) {
            let k = choose|k: int| 0 <= k < b.len() && (#[trigger] b[k]).id == id;
            assert(a[k].id == id);
        }
    }
}

/// Where some workspace has the identifier `id`, a first one does.
proof fn lemma_first_index_exists(ws: Seq<Workspace>, id: u128, k: int)
    requires
        0 <= k < ws.len(),
        ws[k].id == id,
    ensures
        first_with_id(ws, id, position_of(ws, id)),
    decreases k,
{
    if exists|j: int| 0 <= j < k && (#[trigger] ws[j]).id == id {
        let j = choose|j: int| 0 <= j < k && (#[trigger] ws[j]).id == id;
        lemma_first_index_exists(ws, id, j);
    } else {
        assert(first_with_id(ws, id, k));
    }
}

/// Opening a folder that is already open as a one-folder workspace selects that workspace:
/// opening the same folder twice gives the same workspace and adds nothing the second time.
pub proof fn lemma_open_twice(a: AppState, b: AppState, c: AppState, folder: Folder, probes: Seq<FolderProbe>, r1: u128, r2: u128)
    requires
        opened(a, b, folder, probes, r1),
        opened(b, c, folder, probes, r2),
        probed_as(probes, folder.path@, folder.identity),
    ensures
        r2 == r1,
        c.workspaces@ == b.workspaces@,
        c.active_workspace == Some(r1),
{
    let identity = folder.identity;
    if exists|k: int| first_single_root_at(a.workspaces@, identity, probes, k) {
        let k = choose|k: int| first_single_root_at(a.workspaces@, identity, probes, k);
        assert(first_single_root_at(b.workspaces@, identity, probes, k));
        let k2 = choose|k: int| first_single_root_at(b.workspaces@, identity, probes, k);
        lemma_first_single_unique(b.workspaces@, identity, probes, k, k2);
    } else {
        let w = b.workspaces@[0];
        assert(root_is(w.roots@[0], identity, probes));
        assert(first_single_root_at(b.workspaces@, identity, probes, 0));
        let k2 = choose|k: int| first_single_root_at(b.workspaces@, identity, probes, k);
        lemma_first_single_unique(b.workspaces@, identity, probes, 0, k2);
    }
}

/// Adding a folder to a workspace that holds it already adds nothing: after adding a folder,
/// adding it again reports that nothing was added and changes nothing.
pub proof fn lemma_add_twice(
    a: AppState,
    b: AppState,
    c: AppState,
    folder: Folder,
    probes: Seq<FolderProbe>,
    r1: Result<bool, WorkspaceError>,
    r2: Result<bool, WorkspaceError>,
)
    requires
        root_added(a, b, folder, probes, r1),
        root_added(b, c, folder, probes, r2),
        r1 is Ok,
        probed_as(probes, folder.path@, folder.identity),
    ensures
        r2 == Ok::<bool, WorkspaceError>(false),
        c.workspaces@ == b.workspaces@,
{
    let p = active_position(a)->0;
    let id = a.active_workspace->0;
    let w = a.workspaces@[p];
    if r1 == Ok::<bool, WorkspaceError>(true) {
        assert(same_ids(a.workspaces@, b.workspaces@)) by {
            assert forall|i: int| 0 <= i < a.workspaces@.len() implies (#[trigger] a.workspaces@[i]).id == b.workspaces@[i].id by {
                if i != p {
                    assert(b.workspaces@[i] == a.workspaces@[i]);
                }
            }
        }
        lemma_same_ids_position(a.workspaces@, b.workspaces@, id);
        let nw = b.workspaces@[p];
        assert(root_is(nw.roots@[nw.roots@.len() - 1], folder.identity, probes));
    } else {
        assert(b.workspaces@ == a.workspaces@);
    }
}

/// Pinning and then unpinning a workspace gives back the state it started from.
pub proof fn lemma_pin_twice(a: AppState, b: AppState, c: AppState, id: u128)
    requires
        pin_toggled(a, b, id),
        pin_toggled(b, c, id),
    ensures
        c.workspaces@ == a.workspaces@,
        c.active_workspace == a.active_workspace,
        c.version == a.version,
{
    if has_workspace(a.workspaces@, id) {
        let p = position_of(a.workspaces@, id);
        let k = choose|k: int| 0 <= k < a.workspaces@.len() && (#[trigger] a.workspaces@[k]).id == id;
        lemma_first_index_exists(a.workspaces@, id, k);
        assert(same_ids(a.workspaces@, b.workspaces@));
        lemma_same_ids_position(a.workspaces@, b.workspaces@, id);
        assert(c.workspaces@ =~= a.workspaces@);
    } else {
        assert(same_ids(a.workspaces@, b.workspaces@));
        lemma_same_ids_position(a.workspaces@, b.workspaces@, id);
    }
}

/// Archiving and then restoring a workspace gives back the workspaces as they were.
pub proof fn lemma_archive_twice(a: AppState, b: AppState, c: AppState, id: u128)
    requires
        archive_toggled(a, b, id),
        archive_toggled(b, c, id),
    ensures
        c.workspaces@ == a.workspaces@,
        c.version == a.version,
{
    if has_workspace(a.workspaces@, id) {
        let k = choose|k: int| 0 <= k < a.workspaces@.len() && (#[trigger] a.workspaces@[k]).id == id;
        lemma_first_index_exists(a.workspaces@, id, k);
        assert(same_ids(a.workspaces@, b.workspaces@));
        lemma_same_ids_position(a.workspaces@, b.workspaces@, id);
        assert(c.workspaces@ =~= a.workspaces@);
    }
}

/// After renaming the active workspace, its title is the new name.
pub proof fn lemma_rename_shows_name(a: AppState, b: AppState, name: String)
    requires
        renamed(a, b, Some(name)),
        active_position(a) is Some,
    ensures
        active_position(b) == active_position(a),
        workspace_title(b.workspaces@[active_position(b)->0]) == name@,
{
    let p = active_position(a)->0;
    let id = a.active_workspace->0;
    let k = choose|k: int| 0 <= k < a.workspaces@.len() && (#[trigger] a.workspaces@[k]).id == id;
    lemma_first_index_exists(a.workspaces@, id, k);
    assert(same_ids(a.workspaces@, b.workspaces@)) by {
        assert forall|i: int| 0 <= i < a.workspaces@.len() implies (#[trigger] a.workspaces@[i]).id == b.workspaces@[i].id by {
            if i != p {
                assert(b.workspaces@[i] == a.workspaces@[i]);
            }
        }
    }
    lemma_same_ids_position(a.workspaces@, b.workspaces@, id);
}

/// A second folder, made the default and then removed, leaves the workspace as it was:
/// its identity and its one folder, which is now the default, whatever the default was
/// before. The new folder's identifier is random; the law holds unless it happens to be
/// that of the kept folder or of a root of a workspace listed before this one.
pub proof fn lemma_second_root_round_trip(
    a: AppState,
    b: AppState,
    c: AppState,
    d: AppState,
    folder: Folder,
    probes: Seq<FolderProbe>,
    p: int,
    ra: WorkspaceRoot,
)
    requires
        active_position(a) == Some(p),
        a.workspaces@[p].roots@ == seq![ra],
        root_added(a, b, folder, probes, Ok(true)),
        b.workspaces@[p].roots@.last().id != ra.id,
        forall|j: int| 0 <= j < p ==> !has_root_id(
            #[trigger] a.workspaces@[j].roots@,
            b.workspaces@[p].roots@.last().id,
        ),
        default_root_set(b, c, b.workspaces@[p].roots@.last().id),
        root_removed(c, d, b.workspaces@[p].roots@.last().id),
    ensures
        d.active_workspace == a.active_workspace,
        d.workspaces@.len() == a.workspaces@.len(),
        d.workspaces@[p].id == a.workspaces@[p].id,
        d.workspaces@[p].roots@ == seq![ra],
        d.workspaces@[p].default_root == Some(ra.id),
{
    let id = a.active_workspace->0;
    let k = choose|k: int| 0 <= k < a.workspaces@.len() && (#[trigger] a.workspaces@[k]).id == id;
    lemma_first_index_exists(a.workspaces@, id, k);
    let w = a.workspaces@[p];
    let nw = b.workspaces@[p];
    let rb = nw.roots@.last();
    assert(same_ids(a.workspaces@, b.workspaces@)) by {
        assert forall|i: int| 0 <= i < a.workspaces@.len() implies (#[trigger] a.workspaces@[i]).id == b.workspaces@[i].id by {
            if i != p {
                assert(b.workspaces@[i] == a.workspaces@[i]);
            }
        }
    }
    lemma_same_ids_position(a.workspaces@, b.workspaces@, id);
    assert(nw.roots@.len() == 2);
    assert(nw.roots@.subrange(0, 1) == w.roots@);
    assert(nw.roots@.subrange(0, 1)[0] == nw.roots@[0]);
    assert(nw.roots@[0] == ra);
    assert(nw.roots@[1] == rb);
    assert(has_root_id(nw.roots@, rb.id));
    let cw = Workspace { default_root: Some(rb.id), ..nw };
    assert(c.workspaces@ == b.workspaces@.update(p, cw));
    assert forall|j: int| 0 <= j < p implies !has_root_id((#[trigger] c.workspaces@[j]).roots@, rb.id) by {
        assert(c.workspaces@[j] == b.workspaces@[j]);
        assert(b.workspaces@[j] == a.workspaces@[j]);
    }
    assert(first_holding_root(c.workspaces@, rb.id, p));
    let i = choose|i: int| first_holding_root(c.workspaces@, rb.id, i);
    if i < p {
        assert(!has_root_id(c.workspaces@[i].roots@, rb.id));
    } else if p < i {
        assert(!has_root_id(c.workspaces@[p].roots@, rb.id));
    }
    assert(w.roots@[0] == ra);
    assert(first_root_at(cw.roots@, rb.id, 1));
    let x = choose|x: int| first_root_at(cw.roots@, rb.id, x);
    if x == 0 {
        assert(cw.roots@[0].id != rb.id);
    }
    assert(cw.roots@.remove(1) =~= seq![ra]);
}

} // verus!
