//! What the Codex Settings pages and the composer controls show, computed from the values
//! that the App Server returns.
use vstd::prelude::*;

use crate::app_server::{AccountField, AccountStatus};
use crate::text::{decimal, join2, join3, same_text, signed_decimal, u64_text, i64_text};

verus! {

/// The pages of Codex Settings, in the order the navigation lists them.
#[derive(Clone, Copy, Debug, PartialEq, Eq, Structural)]
pub enum Section {
    General,
    Configuration,
    Personalization,
    Usage,
    Mcp,
    Hooks,
    Plugins,
    Account,
}

pub open spec fn section_title(s: Section) -> Seq<char> {
    match s {
        Section::General => "General"@,
        Section::Configuration => "Configuration"@,
        Section::Personalization => "Personalization"@,
        Section::Usage => "Usage & billing"@,
        Section::Mcp => "MCP servers"@,
        Section::Hooks => "Hooks"@,
        Section::Plugins => "Plugins"@,
        Section::Account => "Account"@,
    }
}

/// What a settings page asks the App Server for.
#[derive(Clone, Copy, Debug, PartialEq, Eq, Structural)]
pub enum SettingsQuery {
    /// `config/read` for the workspace.
    ConfigRead,
    /// `account/rateLimits/read`.
    RateLimits,
    /// `mcpServerStatus/list`.
    McpServers,
    /// `hooks/list` for the workspace.
    Hooks,
    /// `plugin/list` for the workspace.
    Plugins,
    /// `account/read`.
    AccountRead,
}

impl Section {
    /// The page title.
    pub fn label(self) -> (r: String)
        ensures
            r@ == section_title(self),
    {
        match self {
            Section::General => "General".to_owned(),
            Section::Configuration => "Configuration".to_owned(),
            Section::Personalization => "Personalization".to_owned(),
            Section::Usage => "Usage & billing".to_owned(),
            Section::Mcp => "MCP servers".to_owned(),
            Section::Hooks => "Hooks".to_owned(),
            Section::Plugins => "Plugins".to_owned(),
            Section::Account => "Account".to_owned(),
        }
    }

    /// The pages in navigation order.
    pub fn all() -> (r: Vec<Section>)
        ensures
            r@ == seq![
                Section::General,
                Section::Configuration,
                Section::Personalization,
                Section::Usage,
                Section::Mcp,
                Section::Hooks,
                Section::Plugins,
                Section::Account,
            ],
    {
        let r = vec![
            Section::General,
            Section::Configuration,
            Section::Personalization,
            Section::Usage,
            Section::Mcp,
            Section::Hooks,
            Section::Plugins,
            Section::Account,
        ];
        assert(r@ =~= seq![
            Section::General,
            Section::Configuration,
            Section::Personalization,
            Section::Usage,
            Section::Mcp,
            Section::Hooks,
            Section::Plugins,
            Section::Account,
        ]);
        r
    }

    /// The query that loads the page.
    pub fn query(self) -> (r: SettingsQuery)
        ensures
            r == match self {
                Section::General | Section::Configuration | Section::Personalization => SettingsQuery::ConfigRead,
                Section::Usage => SettingsQuery::RateLimits,
                Section::Mcp => SettingsQuery::McpServers,
                Section::Hooks => SettingsQuery::Hooks,
                Section::Plugins => SettingsQuery::Plugins,
                Section::Account => SettingsQuery::AccountRead,
            },
    {
        match self {
            Section::General | Section::Configuration | Section::Personalization => SettingsQuery::ConfigRead,
            Section::Usage => SettingsQuery::RateLimits,
            Section::Mcp => SettingsQuery::McpServers,
            Section::Hooks => SettingsQuery::Hooks,
            Section::Plugins => SettingsQuery::Plugins,
            Section::Account => SettingsQuery::AccountRead,
        }
    }

    /// The page also lists the models of the account.
    pub fn lists_models(self) -> (r: bool)
        ensures
            r == (self == Section::General || self == Section::Configuration),
    {
        match self {
            Section::General | Section::Configuration => true,
            _ => false,
        }
    }

    /// Opening the page also refreshes the account status.
    pub fn refreshes_account(self) -> (r: bool)
        ensures
            r == (self == Section::Account),
    {
        match self {
            Section::Account => true,
            _ => false,
        }
    }
}

/// The label of the sandbox mode that the configuration names.
pub open spec fn access_text(sandbox_mode: Option<Seq<char>>) -> Seq<char> {
    match sandbox_mode {
        Some(m) => if m == "danger-full-access"@ {
            "Full access"@
        } else if m == "workspace-write"@ {
            "Workspace access"@
        } else if m == "read-only"@ {
            "Read only"@
        } else {
            "Configured access"@
        },
        None => "Configured access"@,
    }
}

/// How the composer describes the configured sandbox mode.
pub fn access_label(sandbox_mode: Option<&str>) -> (r: String)
    ensures
        r@ == access_text(
            match sandbox_mode {
                Some(m) => Some(m@),
                None => None,
            },
        ),
{
    match sandbox_mode {
        Some(m) => if same_text(m, "danger-full-access") {
            "Full access".to_owned()
        } else if same_text(m, "workspace-write") {
            "Workspace access".to_owned()
        } else if same_text(m, "read-only") {
            "Read only".to_owned()
        } else {
            "Configured access".to_owned()
        },
        None => "Configured access".to_owned(),
    }
}

/// The name of a usage window from its length in minutes: whole days from a day on, whole
/// hours from an hour on, else minutes; without a length, `fallback`.
pub open spec fn window_text(minutes: Option<i64>, fallback: Seq<char>) -> Seq<char> {
    match minutes {
        Some(m) => if m >= 1440 {
            decimal((m / 1440) as nat) + " day limit"@
        } else if m >= 60 {
            decimal((m / 60) as nat) + " hour limit"@
        } else {
            signed_decimal(m as int) + " minute limit"@
        },
        None => fallback,
    }
}

pub fn window_label(minutes: Option<i64>, fallback: &str) -> (r: String)
    ensures
        r@ == window_text(minutes, fallback@),
{
    match minutes {
        Some(m) => if m >= 1440 {
            let days = u64_text((m / 1440) as u64);
            join2(days.as_str(), " day limit")
        } else if m >= 60 {
            let hours = u64_text((m / 60) as u64);
            join2(hours.as_str(), " hour limit")
        } else {
            let text = i64_text(m);
            join2(text.as_str(), " minute limit")
        },
        None => fallback.to_owned(),
    }
}

/// The default names of the two usage windows a rate limit reports.
pub fn window_fallback(secondary: bool) -> (r: String)
    ensures
        secondary ==> r@ == "Weekly window"@,
        !secondary ==> r@ == "Current window"@,
{
    if secondary {
        "Weekly window".to_owned()
    } else {
        "Current window".to_owned()
    }
}

/// Whole minutes from `now` until `resets_at`, rounded up, and zero once it has passed.
pub open spec fn minutes_until(resets_at: u64, now: u64) -> nat {
    let seconds: nat = if resets_at > now {
        (resets_at - now) as nat
    } else {
        0
    };
    ((seconds + 59) / 60) as nat
}

/// When a usage window resets: in days and hours from a day on, in hours and minutes from
/// an hour on, else in minutes. Nothing is shown without a reset time or a clock.
pub open spec fn reset_text(resets_at: Option<u64>, now: Option<u64>) -> Seq<char> {
    match (resets_at, now) {
        (Some(at), Some(n)) => {
            let m = minutes_until(at, n);
            if m >= 1440 {
                "Resets in "@ + decimal(m / 1440) + "d "@ + decimal((m % 1440) / 60) + "h"@
            } else if m >= 60 {
                "Resets in "@ + decimal(m / 60) + "h "@ + decimal(m % 60) + "m"@
            } else {
                "Resets in "@ + decimal(m) + "m"@
            }
        },
        _ => Seq::<char>::empty(),
    }
}

pub fn reset_label(resets_at: Option<u64>, now: Option<u64>) -> (r: String)
    ensures
        r@ == reset_text(resets_at, now),
{
    match (resets_at, now) {
        (Some(at), Some(n)) => {
            let seconds: u64 = if at > n {
                at - n
            } else {
                0
            };
            let m: u64 = seconds / 60 + if seconds % 60 == 0 {
                0u64
            } else {
                1u64
            };
            assert(m == minutes_until(at, n));
            if m >= 1440 {
                let days = u64_text(m / 1440);
                let hours = u64_text((m % 1440) / 60);
                let head = join3("Resets in ", days.as_str(), "d ");
                join3(head.as_str(), hours.as_str(), "h")
            } else if m >= 60 {
                let hours = u64_text(m / 60);
                let minutes = u64_text(m % 60);
                let head = join3("Resets in ", hours.as_str(), "h ");
                join3(head.as_str(), minutes.as_str(), "m")
            } else {
                let minutes = u64_text(m);
                join3("Resets in ", minutes.as_str(), "m")
            }
        },
        _ => String::new(),
    }
}

/// A JSON member that should hold text.
#[derive(Clone, Debug)]
pub enum JsonText {
    Missing,
    Text(String),
    Other,
}

/// A model that the account can use.
#[derive(Clone, Debug)]
pub struct ModelEntry {
    pub id: String,
    pub name: String,
    pub efforts: Vec<String>,
    pub default_effort: Option<String>,
}

/// The identifier of a model listed by `model/list`, for the settings page: its `model`
/// member, or its `id` member when it has no `model` member; either must be text.
pub fn settings_model_id(model: JsonText, id: JsonText) -> (r: Option<String>)
    ensures
        match model {
            JsonText::Text(m) => r matches Some(x) && x@ == m@,
            JsonText::Other => r is None,
            JsonText::Missing => match id {
                JsonText::Text(i) => r matches Some(x) && x@ == i@,
                _ => r is None,
            },
        },
{
    match model {
        JsonText::Text(m) => Some(m),
        JsonText::Other => None,
        JsonText::Missing => match id {
            JsonText::Text(i) => Some(i),
            _ => None,
        },
    }
}

/// A model entry: it is named by its display name, or by its identifier when it has none.
pub fn model_entry(id: String, display_name: Option<String>, efforts: Vec<String>, default_effort: Option<String>) -> (r: ModelEntry)
    ensures
        r.id@ == id@,
        match display_name {
            Some(n) => r.name@ == n@,
            None => r.name@ == id@,
        },
        r.efforts@ == efforts@,
        r.default_effort == default_effort,
{
    let name = match display_name {
        Some(n) => n,
        None => id.clone(),
    };
    ModelEntry { id, name, efforts, default_effort }
}

/// The position of the first model with identifier `id`.
pub fn find_model(models: &[ModelEntry], id: &str) -> (r: Option<usize>)
    ensures
        match r {
            Some(k) => k < models@.len() && models@[k as int].id@ == id@ && forall|j: int| 0 <= j < k ==> (#[trigger] models@[j]).id@ != id@,
            None => forall|j: int| 0 <= j < models@.len() ==> (#[trigger] models@[j]).id@ != id@,
        },
{
    let n = models.len();
    let mut k: usize = 0;
    while k < n
        invariant
            n == models@.len(),
            k <= n,
            forall|j: int| 0 <= j < k ==> (#[trigger] models@[j]).id@ != id@,
        decreases n - k,
    {
        if same_text(models[k].id.as_str(), id) {
            return Some(k);
        }
        k = k + 1;
    }
    None
}

/// The label of the composer's model button: the selected model's name when it is listed,
/// else the configured model identifier, else a placeholder that depends on loading.
pub fn model_button_label(models: &[ModelEntry], model: Option<&str>, loading: bool) -> (r: String)
    ensures
        match model {
            Some(m) => if exists|j: int| 0 <= j < models@.len() && (#[trigger] models@[j]).id@ == m@ {
                exists|j: int| 0 <= j < models@.len() && (#[trigger] models@[j]).id@ == m@ && r@ == models@[j].name@ && forall|i: int| 0 <= i < j ==> (#[trigger] models@[i]).id@ != m@
            } else {
                r@ == m@
            },
            None => r@ == if loading { "Loading models…"@ } else { "Default model"@ },
        },
{
    match model {
        Some(m) => match find_model(models, m) {
            Some(k) => models[k].name.clone(),
            None => m.to_owned(),
        },
        None => if loading {
            "Loading models…".to_owned()
        } else {
            "Default model".to_owned()
        },
    }
}

/// The label of the composer's effort button.
pub fn effort_label(effort: Option<&str>) -> (r: String)
    ensures
        match effort {
            Some(e) => r@ == e@,
            None => r@ == "Default effort"@,
        },
{
    match effort {
        Some(e) => e.to_owned(),
        None => "Default effort".to_owned(),
    }
}

/// Applies the `account` member of an `account/read` result to the account shown on the
/// Account page; a missing member changes nothing and the explanation is kept.
pub fn apply_account(status: &mut AccountStatus, account: AccountField)
    ensures
        final(status).detail == old(status).detail,
        match account {
            AccountField::Missing => *final(status) == *old(status),
            AccountField::Null => !final(status).connected && final(status).email is None && final(status).plan is None,
            AccountField::Present { email, plan } => final(status).connected && final(status).email == email && final(status).plan == plan,
        },
{
    match account {
        AccountField::Missing => {},
        AccountField::Null => {
            status.connected = false;
            status.email = None;
            status.plan = None;
        },
        AccountField::Present { email, plan } => {
            status.connected = true;
            status.email = email;
            status.plan = plan;
        },
    }
}

/// The session line of the status popover.
pub fn session_caption(thread_id: Option<&str>) -> (r: String)
    ensures
        match thread_id {
            Some(id) => r@ == "Session: "@ + id@,
            None => r@ == "New session"@,
        },
{
    match thread_id {
        Some(id) => join2("Session: ", id),
        None => "New session".to_owned(),
    }
}

/// The detail line of a hook.
pub fn hook_detail(event: Option<&str>, source: Option<&str>, trust: Option<&str>) -> (r: String)
    ensures
        r@ == (match event { Some(e) => e@, None => "event"@ }) + " · "@ + (match source { Some(s) => s@, None => "unknown source"@ })
            + " · "@ + (match trust { Some(t) => t@, None => "unknown trust"@ }),
{
    let e = match event {
        Some(e) => e.to_owned(),
        None => "event".to_owned(),
    };
    let s = match source {
        Some(s) => s.to_owned(),
        None => "unknown source".to_owned(),
    };
    let t = match trust {
        Some(t) => t.to_owned(),
        None => "unknown trust".to_owned(),
    };
    let head = join3(e.as_str(), " · ", s.as_str());
    join3(head.as_str(), " · ", t.as_str())
}

/// The detail line of an installed plugin.
pub fn plugin_detail(disabled_reason: Option<&str>) -> (r: String)
    ensures
        match disabled_reason {
            Some(reason) => r@ == "Installed plugin · "@ + reason@,
            None => r@ == "Installed plugin"@,
        },
{
    match disabled_reason {
        Some(reason) => join2("Installed plugin · ", reason),
        None => "Installed plugin".to_owned(),
    }
}

/// "Enabled" or "Disabled".
pub fn enabled_label(enabled: bool) -> (r: String)
    ensures
        enabled ==> r@ == "Enabled"@,
        !enabled ==> r@ == "Disabled"@,
{
    if enabled {
        "Enabled".to_owned()
    } else {
        "Disabled".to_owned()
    }
}

/// How many tools an MCP server offers.
pub fn tool_count(count: usize) -> (r: String)
    ensures
        r@ == decimal(count as nat) + " tools"@,
{
    let digits = u64_text(count as u64);
    join2(digits.as_str(), " tools")
}

// ---------------------------------------------------------------------------------------
// Refreshes
// ---------------------------------------------------------------------------------------
/// The settings view's refreshes: each gets a new generation, and only the reply to the
/// latest one is taken.
#[derive(Clone, Debug)]
pub struct Refreshes {
    pub generation: u64,
    pub loading: bool,
    pub message: Option<String>,
}

/// `post` is `pre` after starting the refresh of generation `g`.
pub open spec fn refresh_begun(pre: Refreshes, post: Refreshes, g: u64) -> bool {
    &&& post.generation == pre.generation + 1
    &&& post.loading
    &&& post.message is None
    &&& g == post.generation
}

/// `post` is `pre` after the reply to the refresh of generation `g`, with `error`;
/// `taken` says whether it was the latest.
pub open spec fn reply_handled(pre: Refreshes, post: Refreshes, g: u64, error: Option<String>, taken: bool) -> bool {
    &&& taken == (g == pre.generation)
    &&& taken ==> post == (Refreshes { generation: g, loading: false, message: error })
    &&& !taken ==> post == pre
}

impl Refreshes {
    /// No refresh yet.
    pub fn new() -> (r: Refreshes)
        ensures
            r.generation == 0,
            !r.loading,
            r.message is None,
    {
        Refreshes { generation: 0, loading: false, message: None }
    }

    /// Starts a refresh; returns its generation.
    pub fn begin(&mut self) -> (g: u64)
        requires
            old(self).generation < u64::MAX,
        ensures
            refresh_begun(*old(self), *final(self), g),
    {
        self.loading = true;
        self.message = None;
        self.generation = self.generation + 1;
        self.generation
    }

    /// Takes the reply to the refresh of generation `g`, which failed with `error` when it
    /// is `Some`. A reply to an earlier refresh is ignored: returns whether it was taken.
    pub fn finish(&mut self, g: u64, error: Option<String>) -> (taken: bool)
        ensures
            reply_handled(*old(self), *final(self), g, error, taken),
    {
        if g != self.generation {
            return false;
        }
        self.loading = false;
        self.message = error;
        true
    }
}

/// A refresh started after another makes the reply to the first one ignored, whatever it
/// holds: the view stays as the second refresh left it.
pub proof fn lemma_stale_reply_ignored(
    a: Refreshes,
    b: Refreshes,
    c: Refreshes,
    d: Refreshes,
    first: u64,
    second: u64,
    error: Option<String>,
    taken: bool,
)
    requires
        refresh_begun(a, b, first),
        refresh_begun(b, c, second),
        reply_handled(c, d, first, error, taken),
    ensures
        !taken,
        d == c,
        d.loading,
{
}

/// The reply to the latest refresh is taken: loading ends and its error, if any, is shown.
pub proof fn lemma_latest_reply_taken(a: Refreshes, b: Refreshes, c: Refreshes, g: u64, error: Option<String>, taken: bool)
    requires
        refresh_begun(a, b, g),
        reply_handled(b, c, g, error, taken),
    ensures
        taken,
        !c.loading,
        c.message == error,
        c.generation == g,
{
}

// ---------------------------------------------------------------------------------------
// The composer's controls
// ---------------------------------------------------------------------------------------
/// What the composer reads of the configuration: `config.model`,
/// `config.model_reasoning_effort` and `config.sandbox_mode`, where they hold text.
#[derive(Clone, Debug)]
pub struct ConfigRead {
    pub model: Option<String>,
    pub effort: Option<String>,
    pub sandbox_mode: Option<String>,
}

/// The model, effort and access controls under the composer, for the folder `cwd`.
#[derive(Clone, Debug)]
pub struct ComposerState {
    pub cwd: Option<String>,
    pub models: Vec<ModelEntry>,
    pub model: Option<String>,
    pub effort: Option<String>,
    pub access: String,
    pub refreshes: Refreshes,
}

pub open spec fn opt_text(o: Option<String>) -> Option<Seq<char>> {
    match o {
        Some(s) => Some(s@),
        None => None,
    }
}

fn same_folder(a: &Option<String>, b: &Option<String>) -> (r: bool)
    ensures
        r == (opt_text(*a) == opt_text(*b)),
{
    match (a, b) {
        (Some(x), Some(y)) => same_text(x.as_str(), y.as_str()),
        (None, None) => true,
        _ => false,
    }
}

/// `post` is `pre` after the reply to refresh `g` with `config` and `catalog`: a stale reply
/// changes nothing; otherwise the configuration sets the model, effort and access, the
/// catalog replaces the models, and a failure of either is the message (the catalog's
/// last).
pub open spec fn composer_applied(
    pre: ComposerState,
    post: ComposerState,
    g: u64,
    config: Result<ConfigRead, String>,
    catalog: Result<Vec<ModelEntry>, String>,
    taken: bool,
) -> bool {
    &&& taken == (g == pre.refreshes.generation)
    &&& !taken ==> post == pre
    &&& taken ==> {
        &&& post.cwd == pre.cwd
        &&& post.refreshes.generation == g
        &&& !post.refreshes.loading
        &&& match config {
            Ok(c) => post.model == c.model && post.effort == c.effort && post.access@ == access_text(opt_text(c.sandbox_mode)),
            Err(_) => post.model == pre.model && post.effort == pre.effort && post.access == pre.access,
        }
        &&& match catalog {
            Ok(list) => post.models@ == list@,
            Err(_) => post.models@ == pre.models@,
        }
        &&& post.refreshes.message == match catalog {
            Err(e) => Some(e),
            Ok(_) => match config {
                Err(e) => Some(e),
                Ok(_) => pre.refreshes.message,
            },
        }
    }
}

/// `post` and `r` are what moving the controls from `pre` to the folder `cwd` gives.
pub open spec fn moved_to(pre: ComposerState, post: ComposerState, cwd: Option<String>, r: Option<u64>) -> bool {
    if opt_text(cwd) == opt_text(pre.cwd) {
        r is None && post == pre
    } else {
        &&& r matches Some(g)
        &&& refresh_begun(pre.refreshes, post.refreshes, g)
        &&& post == (ComposerState { cwd, model: None, effort: None, refreshes: post.refreshes, ..pre })
    }
}

impl ComposerState {
    /// The controls for `cwd`, with their first refresh started; returns its generation.
    pub fn new(cwd: Option<String>) -> (r: (ComposerState, u64))
        ensures
            r.0.cwd == cwd,
            r.0.models@.len() == 0,
            r.0.model is None,
            r.0.effort is None,
            r.0.access@ == "Configured access"@,
            r.0.refreshes == (Refreshes { generation: 1, loading: true, message: None }),
            r.1 == 1,
    {
        let mut refreshes = Refreshes::new();
        let g = refreshes.begin();
        (ComposerState { cwd, models: Vec::new(), model: None, effort: None, access: "Configured access".to_owned(), refreshes }, g)
    }

    /// Moves the controls to another folder: the model and effort are cleared and a refresh
    /// starts (its generation is returned). The same folder changes nothing.
    pub fn set_workspace(&mut self, cwd: Option<String>) -> (r: Option<u64>)
        requires
            old(self).refreshes.generation < u64::MAX,
        ensures
            moved_to(*old(self), *final(self), cwd, r),
    {
        if same_folder(&self.cwd, &cwd) {
            return None;
        }
        self.cwd = cwd;
        self.model = None;
        self.effort = None;
        let g = self.refreshes.begin();
        Some(g)
    }

    /// Takes the reply to refresh `g`; returns whether it was the latest.
    pub fn apply(&mut self, g: u64, config: Result<ConfigRead, String>, catalog: Result<Vec<ModelEntry>, String>) -> (taken: bool)
        ensures
            composer_applied(*old(self), *final(self), g, config, catalog, taken),
    {
        if g != self.refreshes.generation {
            return false;
        }
        self.refreshes.loading = false;
        match config {
            Ok(c) => {
                self.access = match &c.sandbox_mode {
                    Some(m) => access_label(Some(m.as_str())),
                    None => access_label(None),
                };
                self.model = c.model;
                self.effort = c.effort;
            },
            Err(e) => {
                self.refreshes.message = Some(e);
            },
        }
        match catalog {
            Ok(list) => {
                self.models = list;
            },
            Err(e) => {
                self.refreshes.message = Some(e);
            },
        }
        true
    }
}

} // verus!
