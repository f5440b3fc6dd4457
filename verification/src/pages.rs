//! The content of the Codex Settings pages that list what the App Server reports: hooks,
//! plugins, MCP servers, the account and the plan. Each page is a list of lines, computed
//! from what the server's reply holds.
use vstd::prelude::*;

use crate::app_server::AccountStatus;
use crate::settings::{find_model, opt_text, ModelEntry};
use crate::text::{decimal, join2, join3, u64_text};

verus! {

/// One line of a settings page.
#[derive(Clone, Debug)]
pub enum PageLine {
    /// A labelled row with a detail line and a status on the right.
    Row { label: String, detail: String, status: String },
    /// A problem, shown in the error colour.
    Error(String),
    /// A caption.
    Caption(String),
}

/// What a page line shows.
pub enum LineModel {
    Row { label: Seq<char>, detail: Seq<char>, status: Seq<char> },
    Error(Seq<char>),
    Caption(Seq<char>),
}

impl View for PageLine {
    type V = LineModel;

    open spec fn view(&self) -> LineModel {
        match self {
            PageLine::Row { label, detail, status } => LineModel::Row { label: label@, detail: detail@, status: status@ },
            PageLine::Error(text) => LineModel::Error(text@),
            PageLine::Caption(text) => LineModel::Caption(text@),
        }
    }
}

pub open spec fn lines_model(lines: Seq<PageLine>) -> Seq<LineModel> {
    lines.map_values(|l: PageLine| l@)
}

/// `value`, or `fallback` when there is none.
pub open spec fn or_text(value: Option<String>, fallback: Seq<char>) -> Seq<char> {
    match opt_text(value) {
        Some(v) => v,
        None => fallback,
    }
}

fn text_or(value: &Option<String>, fallback: &str) -> (r: String)
    ensures
        r@ == or_text(*value, fallback@),
{
    match value {
        Some(v) => v.clone(),
        None => fallback.to_owned(),
    }
}

pub open spec fn status_text(enabled: bool) -> Seq<char> {
    if enabled { "Enabled"@ } else { "Disabled"@ }
}

fn status_label(enabled: bool) -> (r: String)
    ensures
        r@ == status_text(enabled),
{
    if enabled {
        "Enabled".to_owned()
    } else {
        "Disabled".to_owned()
    }
}

// ---------------------------------------------------------------------------------------
// Hooks
// ---------------------------------------------------------------------------------------
/// What the page reads of a hook: `key`, `eventName`, `source`, `trustStatus` where they
/// hold text, and `enabled` where it holds a boolean.
#[derive(Clone, Debug)]
pub struct HookRead {
    pub key: Option<String>,
    pub event_name: Option<String>,
    pub source: Option<String>,
    pub trust: Option<String>,
    pub enabled: Option<bool>,
}

/// What the page reads of a hook that could not be loaded: `path` and `message`.
#[derive(Clone, Debug)]
pub struct HookIssue {
    pub path: Option<String>,
    pub message: Option<String>,
}

/// One entry of `hooks/list`: its hooks, the errors in loading them, and its warnings.
#[derive(Clone, Debug)]
pub struct HookGroup {
    pub hooks: Vec<HookRead>,
    pub errors: Vec<HookIssue>,
    pub warnings: Vec<String>,
}

/// A hook's row: named by its key, else its event, else "Hook".
pub open spec fn hook_line(h: HookRead) -> LineModel {
    LineModel::Row {
        label: match opt_text(h.key) {
            Some(k) => k,
            None => or_text(h.event_name, "Hook"@),
        },
        detail: or_text(h.event_name, "event"@) + " · "@ + or_text(h.source, "unknown source"@) + " · "@
            + or_text(h.trust, "unknown trust"@),
        status: status_text(h.enabled == Some(true)),
    }
}

pub open spec fn issue_line(e: HookIssue) -> LineModel {
    LineModel::Error(or_text(e.path, "hook"@) + ": "@ + or_text(e.message, "Hook could not be loaded."@))
}

pub open spec fn warning_line(w: String) -> LineModel {
    LineModel::Caption("Hook warning: "@ + w@)
}

/// The lines of one entry: its hooks, then its errors, then its warnings.
pub open spec fn group_lines(g: HookGroup) -> Seq<LineModel> {
    g.hooks@.map_values(|h: HookRead| hook_line(h)) + g.errors@.map_values(|e: HookIssue| issue_line(e))
        + g.warnings@.map_values(|w: String| warning_line(w))
}

/// The lines of the first `n` entries.
pub open spec fn groups_lines(groups: Seq<HookGroup>, n: int) -> Seq<LineModel>
    decreases n,
{
    if n <= 0 {
        Seq::empty()
    } else {
        groups_lines(groups, n - 1) + group_lines(groups[n - 1])
    }
}

/// How many hooks and errors the first `n` entries hold.
pub open spec fn hooks_and_errors(groups: Seq<HookGroup>, n: int) -> int
    decreases n,
{
    if n <= 0 {
        0
    } else {
        hooks_and_errors(groups, n - 1) + groups[n - 1].hooks@.len() + groups[n - 1].errors@.len()
    }
}

/// The Hooks page: every entry's lines, and a caption when there is neither a hook nor an
/// error.
pub open spec fn hooks_page_spec(groups: Seq<HookGroup>) -> Seq<LineModel> {
    groups_lines(groups, groups.len() as int) + if hooks_and_errors(groups, groups.len() as int) == 0 {
        seq![LineModel::Caption("No hooks are configured for this workspace."@)]
    } else {
        Seq::empty()
    }
}

fn hook_row(h: &HookRead) -> (r: PageLine)
    ensures
        r@ == hook_line(*h),
{
    let label = match &h.key {
        Some(k) => k.clone(),
        None => text_or(&h.event_name, "Hook"),
    };
    let event = text_or(&h.event_name, "event");
    let source = text_or(&h.source, "unknown source");
    let trust = text_or(&h.trust, "unknown trust");
    let head = join3(event.as_str(), " · ", source.as_str());
    let detail = join3(head.as_str(), " · ", trust.as_str());
    let enabled = match h.enabled {
        Some(e) => e,
        None => false,
    };
    PageLine::Row { label, detail, status: status_label(enabled) }
}

fn issue_row(e: &HookIssue) -> (r: PageLine)
    ensures
        r@ == issue_line(*e),
{
    let path = text_or(&e.path, "hook");
    let message = text_or(&e.message, "Hook could not be loaded.");
    PageLine::Error(join3(path.as_str(), ": ", message.as_str()))
}

/// Appends the lines of `g` to `out`.
fn push_group(out: &mut Vec<PageLine>, g: &HookGroup)
    ensures
        lines_model(final(out)@) == lines_model(old(out)@) + group_lines(*g),
{
    let ghost start = lines_model(out@);
    let mut i: usize = 0;
    while i < g.hooks.len()
        invariant
            i <= g.hooks@.len(),
            lines_model(out@) == start + g.hooks@.take(i as int).map_values(|h: HookRead| hook_line(h)),
        decreases g.hooks@.len() - i,
    {
        let ghost before = out@;
        let row = hook_row(&g.hooks[i]);
        out.push(row);
        proof {
            assert(lines_model(out@) =~= lines_model(before).push(row@));
            assert(g.hooks@.take(i + 1).map_values(|h: HookRead| hook_line(h)) =~= g.hooks@.take(i as int).map_values(|h: HookRead| hook_line(h)).push(hook_line(g.hooks@[i as int])));
        }
        i = i + 1;
    }
    let ghost after_hooks = lines_model(out@);
    assert(g.hooks@.take(g.hooks@.len() as int) =~= g.hooks@);
    let mut j: usize = 0;
    while j < g.errors.len()
        invariant
            j <= g.errors@.len(),
            lines_model(out@) == after_hooks + g.errors@.take(j as int).map_values(|e: HookIssue| issue_line(e)),
        decreases g.errors@.len() - j,
    {
        let ghost before = out@;
        let row = issue_row(&g.errors[j]);
        out.push(row);
        proof {
            assert(lines_model(out@) =~= lines_model(before).push(row@));
            assert(g.errors@.take(j + 1).map_values(|e: HookIssue| issue_line(e)) =~= g.errors@.take(j as int).map_values(|e: HookIssue| issue_line(e)).push(issue_line(g.errors@[j as int])));
        }
        j = j + 1;
    }
    let ghost after_errors = lines_model(out@);
    assert(g.errors@.take(g.errors@.len() as int) =~= g.errors@);
    let mut k: usize = 0;
    while k < g.warnings.len()
        invariant
            k <= g.warnings@.len(),
            lines_model(out@) == after_errors + g.warnings@.take(k as int).map_values(|w: String| warning_line(w)),
        decreases g.warnings@.len() - k,
    {
        let ghost before = out@;
        let row = PageLine::Caption(join2("Hook warning: ", g.warnings[k].as_str()));
        out.push(row);
        proof {
            assert(lines_model(out@) =~= lines_model(before).push(row@));
            assert(g.warnings@.take(k + 1).map_values(|w: String| warning_line(w)) =~= g.warnings@.take(k as int).map_values(|w: String| warning_line(w)).push(warning_line(g.warnings@[k as int])));
        }
        k = k + 1;
    }
    assert(g.warnings@.take(g.warnings@.len() as int) =~= g.warnings@);
    assert(lines_model(out@) =~= start + group_lines(*g));
}

/// The lines of the Hooks page.
pub fn hooks_page(groups: &Vec<HookGroup>) -> (r: Vec<PageLine>)
    ensures
        lines_model(r@) == hooks_page_spec(groups@),
{
    let mut out: Vec<PageLine> = Vec::new();
    let mut found: usize = 0;
    let mut k: usize = 0;
    assert(lines_model(out@) =~= groups_lines(groups@, 0));
    while k < groups.len()
        invariant
            k <= groups@.len(),
            lines_model(out@) == groups_lines(groups@, k as int),
            found == if hooks_and_errors(groups@, k as int) == 0 { 0usize } else { 1usize },
        decreases groups@.len() - k,
    {
        push_group(&mut out, &groups[k]);
        if groups[k].hooks.len() > 0 || groups[k].errors.len() > 0 {
            found = 1;
        }
        proof {
            assert(hooks_and_errors(groups@, k as int) >= 0) by {
                lemma_count_nonnegative(groups@, k as int);
            }
        }
        k = k + 1;
    }
    if found == 0 {
        let ghost before = lines_model(out@);
        out.push(PageLine::Caption("No hooks are configured for this workspace.".to_owned()));
        assert(lines_model(out@) =~= before.push(out@.last()@));
    } else {
        assert(lines_model(out@) =~= lines_model(out@) + Seq::<LineModel>::empty());
    }
    out
}

proof fn lemma_count_nonnegative(groups: Seq<HookGroup>, n: int)
    ensures
        hooks_and_errors(groups, n) >= 0,
    decreases n,
{
    if n > 0 {
        lemma_count_nonnegative(groups, n - 1);
    }
}

// ---------------------------------------------------------------------------------------
// Plugins
// ---------------------------------------------------------------------------------------
/// What the page reads of a plugin of the catalog: its display name (else its name), and
/// whether it is installed and enabled, and why it is disabled.
#[derive(Clone, Debug)]
pub struct PluginRead {
    pub name: Option<String>,
    pub installed: bool,
    pub enabled: bool,
    pub disabled_reason: Option<String>,
}

pub open spec fn plugin_line(p: PluginRead) -> LineModel {
    LineModel::Row {
        label: or_text(p.name, "Plugin"@),
        detail: match opt_text(p.disabled_reason) {
            Some(reason) => "Installed plugin · "@ + reason,
            None => "Installed plugin"@,
        },
        status: status_text(p.enabled),
    }
}

/// The rows of the installed plugins among the first `n`.
pub open spec fn installed_lines(plugins: Seq<PluginRead>, n: int) -> Seq<LineModel>
    decreases n,
{
    if n <= 0 {
        Seq::empty()
    } else if plugins[n - 1].installed {
        installed_lines(plugins, n - 1).push(plugin_line(plugins[n - 1]))
    } else {
        installed_lines(plugins, n - 1)
    }
}

/// The Plugins page: a row for each installed plugin, in catalog order, or a caption when
/// none is installed.
pub open spec fn plugins_page_spec(plugins: Seq<PluginRead>) -> Seq<LineModel> {
    let rows = installed_lines(plugins, plugins.len() as int);
    if rows.len() == 0 {
        seq![LineModel::Caption("No installed plugins returned by the local catalog."@)]
    } else {
        rows
    }
}

/// The lines of the Plugins page, from the plugins of all marketplaces in order.
pub fn plugins_page(plugins: &Vec<PluginRead>) -> (r: Vec<PageLine>)
    ensures
        lines_model(r@) == plugins_page_spec(plugins@),
{
    let mut out: Vec<PageLine> = Vec::new();
    let mut k: usize = 0;
    while k < plugins.len()
        invariant
            k <= plugins@.len(),
            lines_model(out@) == installed_lines(plugins@, k as int),
        decreases plugins@.len() - k,
    {
        let p = &plugins[k];
        if p.installed {
            let detail = match &p.disabled_reason {
                Some(reason) => join2("Installed plugin · ", reason.as_str()),
                None => "Installed plugin".to_owned(),
            };
            let row = PageLine::Row { label: text_or(&p.name, "Plugin"), detail, status: status_label(p.enabled) };
            let ghost before = out@;
            out.push(row);
            assert(lines_model(out@) =~= lines_model(before).push(row@));
        }
        k = k + 1;
    }
    if out.len() == 0 {
        out.push(PageLine::Caption("No installed plugins returned by the local catalog.".to_owned()));
        assert(lines_model(out@) =~= seq![LineModel::Caption("No installed plugins returned by the local catalog."@)]);
    }
    out
}

// ---------------------------------------------------------------------------------------
// MCP servers
// ---------------------------------------------------------------------------------------
/// What the page reads of an MCP server: `name`, `authStatus`, and how many tools it lists.
#[derive(Clone, Debug)]
pub struct ServerRead {
    pub name: Option<String>,
    pub auth_status: Option<String>,
    pub tool_count: usize,
}

pub open spec fn server_line(s: ServerRead) -> LineModel {
    LineModel::Row {
        label: or_text(s.name, "MCP server"@),
        detail: decimal(s.tool_count as nat) + " tools"@,
        status: or_text(s.auth_status, "Unknown"@),
    }
}

/// The MCP servers page: a row per listed server, or a caption when the list is empty.
/// Without a list there is nothing to show.
pub open spec fn servers_page_spec(servers: Option<Seq<ServerRead>>) -> Seq<LineModel> {
    match servers {
        None => Seq::empty(),
        Some(list) => if list.len() == 0 {
            seq![LineModel::Caption("No MCP servers returned by your Codex installation."@)]
        } else {
            list.map_values(|s: ServerRead| server_line(s))
        },
    }
}

/// The lines of the MCP servers page.
pub fn servers_page(servers: &Option<Vec<ServerRead>>) -> (r: Vec<PageLine>)
    ensures
        lines_model(r@) == servers_page_spec(match servers {
            Some(list) => Some(list@),
            None => None,
        }),
{
    let mut out: Vec<PageLine> = Vec::new();
    let list = match servers {
        Some(list) => list,
        None => {
            assert(lines_model(out@) =~= Seq::<LineModel>::empty());
            return out;
        },
    };
    let mut k: usize = 0;
    while k < list.len()
        invariant
            k <= list@.len(),
            lines_model(out@) == list@.take(k as int).map_values(|s: ServerRead| server_line(s)),
        decreases list@.len() - k,
    {
        let s = &list[k];
        let count = u64_text(s.tool_count as u64);
        let row = PageLine::Row {
            label: text_or(&s.name, "MCP server"),
            detail: join2(count.as_str(), " tools"),
            status: text_or(&s.auth_status, "Unknown"),
        };
        let ghost before = out@;
        out.push(row);
        assert(lines_model(out@) =~= lines_model(before).push(row@));
        assert(list@.take(k + 1).map_values(|s: ServerRead| server_line(s)) =~= list@.take(k as int).map_values(|s: ServerRead| server_line(s)).push(server_line(list@[k as int])));
        k = k + 1;
    }
    assert(list@.take(list@.len() as int) =~= list@);
    if list.len() == 0 {
        out.push(PageLine::Caption("No MCP servers returned by your Codex installation.".to_owned()));
        assert(lines_model(out@) =~= seq![LineModel::Caption("No MCP servers returned by your Codex installation."@)]);
    }
    out
}

// ---------------------------------------------------------------------------------------
// Account, plan and models
// ---------------------------------------------------------------------------------------
/// The Account page: the account's explanation, if any, then the account row, which names
/// the signed-in e-mail; and whether the sign-in button is shown (when not connected).
pub fn account_page(account: &AccountStatus) -> (r: (Vec<PageLine>, bool))
    ensures
        lines_model(r.0@) == (match opt_text(account.detail) {
            Some(d) => seq![LineModel::Caption(d)],
            None => Seq::<LineModel>::empty(),
        }) + seq![LineModel::Row {
            label: "Codex account"@,
            detail: "Uses the login managed by your local Codex installation."@,
            status: or_text(account.email, "Signed out"@),
        }],
        r.1 == !account.connected,
{
    let mut out: Vec<PageLine> = Vec::new();
    if let Some(detail) = &account.detail {
        out.push(PageLine::Caption(detail.clone()));
    }
    let ghost before = out@;
    let row = PageLine::Row {
        label: "Codex account".to_owned(),
        detail: "Uses the login managed by your local Codex installation.".to_owned(),
        status: text_or(&account.email, "Signed out"),
    };
    out.push(row);
    assert(lines_model(out@) =~= lines_model(before).push(row@));
    assert(lines_model(before) =~= (match opt_text(account.detail) {
        Some(d) => seq![LineModel::Caption(d)],
        None => Seq::<LineModel>::empty(),
    }));
    (out, !account.connected)
}

/// The Usage page's plan row.
pub fn plan_row(account: &AccountStatus) -> (r: PageLine)
    ensures
        r@ == (LineModel::Row { label: "Your plan"@, detail: "Managed through ChatGPT."@, status: or_text(account.plan, "Unavailable"@) }),
{
    PageLine::Row {
        label: "Your plan".to_owned(),
        detail: "Managed through ChatGPT.".to_owned(),
        status: text_or(&account.plan, "Unavailable"),
    }
}

/// The label of a configuration choice: the configured value, or "Default".
pub fn choice_label(value: Option<&str>) -> (r: String)
    ensures
        r@ == match value {
            Some(v) => v@,
            None => "Default"@,
        },
{
    match value {
        Some(v) => v.to_owned(),
        None => "Default".to_owned(),
    }
}

/// Menu entries whose value is their label.
pub fn choices(values: &Vec<String>) -> (r: Vec<(String, String)>)
    ensures
        r@.len() == values@.len(),
        forall|i: int| 0 <= i < r@.len() ==> (#[trigger] r@[i]).0@ == values@[i]@ && r@[i].1@ == values@[i]@,
{
    let mut out: Vec<(String, String)> = Vec::new();
    let mut k: usize = 0;
    while k < values.len()
        invariant
            k <= values@.len(),
            out@.len() == k,
            forall|i: int| 0 <= i < k ==> (#[trigger] out@[i]).0@ == values@[i]@ && out@[i].1@ == values@[i]@,
        decreases values@.len() - k,
    {
        out.push((values[k].clone(), values[k].clone()));
        k = k + 1;
    }
    out
}

/// The reasoning efforts offered for the configured model: those of the first listed model
/// with its identifier, or none.
pub fn efforts_for(models: &Vec<ModelEntry>, model: Option<&str>) -> (r: Vec<String>)
    ensures
        match model {
            Some(m) => if exists|j: int| 0 <= j < models@.len() && (#[trigger] models@[j]).id@ == m@ {
                exists|j: int| 0 <= j < models@.len() && (#[trigger] models@[j]).id@ == m@
                    && (forall|i: int| 0 <= i < j ==> (#[trigger] models@[i]).id@ != m@) && r@ == models@[j].efforts@
            } else {
                r@.len() == 0
            },
            None => r@.len() == 0,
        },
{
    match model {
        Some(m) => match find_model(models.as_slice(), m) {
            Some(k) => models[k].efforts.clone(),
            None => Vec::new(),
        },
        None => Vec::new(),
    }
}


/// A hook's row is labelled by its key; a hook without a key by its event; and only a
/// hook with neither by "Hook".
pub proof fn lemma_hook_label(h: HookRead)
    ensures
        hook_line(h) is Row,
        h.key matches Some(k) ==> hook_line(h)->Row_label == k@,
        h.key is None ==> (h.event_name matches Some(e) ==> hook_line(h)->Row_label == e@),
        h.key is None && h.event_name is None ==> hook_line(h)->Row_label == "Hook"@,
{
}

proof fn lemma_first_hooks_lines(groups: Seq<HookGroup>, n: int, i: int)
    requires
        1 <= n <= groups.len(),
        0 <= i < groups[0].hooks@.len(),
    ensures
        i < groups_lines(groups, n).len(),
        groups_lines(groups, n)[i] == hook_line(groups[0].hooks@[i]),
    decreases n,
{
    if n == 1 {
        assert(groups_lines(groups, 0) =~= Seq::<LineModel>::empty());
        assert(groups_lines(groups, 1) =~= group_lines(groups[0]));
    } else {
        lemma_first_hooks_lines(groups, n - 1, i);
    }
}

/// The first entry's hooks come first on the Hooks page, a row each, in order.
pub proof fn lemma_first_hooks_lead(groups: Seq<HookGroup>, i: int)
    requires
        1 <= groups.len(),
        0 <= i < groups[0].hooks@.len(),
    ensures
        i < hooks_page_spec(groups).len(),
        hooks_page_spec(groups)[i] == hook_line(groups[0].hooks@[i]),
{
    lemma_first_hooks_lines(groups, groups.len() as int, i);
}

} // verus!
