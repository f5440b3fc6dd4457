//! What the Codex Settings pages and the composer's controls ask the App Server, and what
//! they read of its replies: the request of each page, and the configuration, account,
//! models, MCP servers, hooks and plugins that the pages and controls show.
use vstd::prelude::*;

use crate::app_server::{AccountField, AccountFieldModel};
use crate::json::{
    bool_of, bool_value, entry_models, get, items_of, items_value, lemma_models_index, list_of, member, models, opt_ref,
    put, str_of, str_value, string, Json, JsonModel,
};
use crate::pages::{HookGroup, HookIssue, HookRead, PluginRead, ServerRead};
use crate::settings::{opt_text, ConfigRead, ModelEntry, SettingsQuery};

verus! {

// ---------------------------------------------------------------------------------------
// Requests
// ---------------------------------------------------------------------------------------
/// The workspace folder as a JSON value: its path, or `null` without one.
pub open spec fn folder_model(cwd: Option<Seq<char>>) -> JsonModel {
    match cwd {
        Some(c) => JsonModel::Str(c),
        None => JsonModel::Null,
    }
}

/// The method of each query.
pub open spec fn query_method(q: SettingsQuery) -> Seq<char> {
    match q {
        SettingsQuery::ConfigRead => "config/read"@,
        SettingsQuery::RateLimits => "account/rateLimits/read"@,
        SettingsQuery::McpServers => "mcpServerStatus/list"@,
        SettingsQuery::Hooks => "hooks/list"@,
        SettingsQuery::Plugins => "plugin/list"@,
        SettingsQuery::AccountRead => "account/read"@,
    }
}

/// The parameters of each query for the workspace folder `cwd`, when there is one: the
/// configuration without its layers, the first hundred MCP servers, the hooks and
/// plugins of the folder, and the account without a token refresh.
pub open spec fn query_params(q: SettingsQuery, cwd: Option<Seq<char>>) -> JsonModel {
    match q {
        SettingsQuery::ConfigRead => JsonModel::Object(seq![
            ("includeLayers"@, JsonModel::Bool(false)),
            ("cwd"@, folder_model(cwd)),
        ]),
        SettingsQuery::RateLimits => JsonModel::Null,
        SettingsQuery::McpServers => JsonModel::Object(seq![("limit"@, JsonModel::Number(Some(100)))]),
        SettingsQuery::Hooks => JsonModel::Object(seq![("cwds"@, JsonModel::Array(match cwd {
            Some(c) => seq![JsonModel::Str(c)],
            None => Seq::empty(),
        }))]),
        SettingsQuery::Plugins => JsonModel::Object(seq![("cwds"@, match cwd {
            Some(c) => JsonModel::Array(seq![JsonModel::Str(c)]),
            None => JsonModel::Null,
        })]),
        SettingsQuery::AccountRead => JsonModel::Object(seq![("refreshToken"@, JsonModel::Bool(false))]),
    }
}

fn folder_value(cwd: Option<&str>) -> (r: Json)
    ensures
        r@ == match cwd {
            Some(c) => JsonModel::Str(c@),
            None => JsonModel::Null,
        },
{
    match cwd {
        Some(c) => string(c),
        None => Json::Null,
    }
}

fn folders(cwd: Option<&str>) -> (r: Json)
    ensures
        r@ == JsonModel::Array(match cwd {
            Some(c) => seq![JsonModel::Str(c@)],
            None => Seq::<JsonModel>::empty(),
        }),
{
    let mut items: Vec<Json> = Vec::new();
    assert(models(items@) =~= Seq::<JsonModel>::empty());
    if let Some(c) = cwd {
        let item = string(c);
        proof {
            crate::json::lemma_models_push(items@, item);
        }
        items.push(item);
        assert(models(items@) =~= seq![JsonModel::Str(c@)]);
    }
    Json::Array(items)
}

fn object1(key: &str, value: Json) -> (r: Json)
    ensures
        r@ == JsonModel::Object(seq![(key@, value@)]),
{
    let mut e: Vec<(String, Json)> = Vec::new();
    assert(entry_models(e@) =~= Seq::<(Seq<char>, JsonModel)>::empty());
    let ghost v = value@;
    put(&mut e, key, value);
    assert(entry_models(e@) =~= seq![(key@, v)]);
    Json::Object(e)
}

/// The method and parameters of a settings query for the workspace folder `cwd`.
pub fn settings_request(query: SettingsQuery, cwd: Option<&str>) -> (r: (String, Json))
    ensures
        r.0@ == query_method(query),
        r.1@ == query_params(query, match cwd {
            Some(c) => Some(c@),
            None => None,
        }),
{
    match query {
        SettingsQuery::ConfigRead => {
            let mut e: Vec<(String, Json)> = Vec::new();
            assert(entry_models(e@) =~= Seq::<(Seq<char>, JsonModel)>::empty());
            put(&mut e, "includeLayers", Json::Bool(false));
            let folder = folder_value(cwd);
            let ghost f = folder@;
            put(&mut e, "cwd", folder);
            assert(entry_models(e@) =~= seq![("includeLayers"@, JsonModel::Bool(false)), ("cwd"@, f)]);
            let value = Json::Object(e);
            assert(value@ == JsonModel::Object(seq![("includeLayers"@, JsonModel::Bool(false)), ("cwd"@, f)]));
            ("config/read".to_owned(), value)
        },
        SettingsQuery::RateLimits => ("account/rateLimits/read".to_owned(), Json::Null),
        SettingsQuery::McpServers => ("mcpServerStatus/list".to_owned(), object1("limit", Json::Number(Some(100)))),
        SettingsQuery::Hooks => ("hooks/list".to_owned(), object1("cwds", folders(cwd))),
        SettingsQuery::Plugins => {
            let value = match cwd {
                Some(c) => folders(Some(c)),
                None => Json::Null,
            };
            ("plugin/list".to_owned(), object1("cwds", value))
        },
        SettingsQuery::AccountRead => ("account/read".to_owned(), object1("refreshToken", Json::Bool(false))),
    }
}

/// The method and parameters that list the first hundred models of the account.
pub fn models_request() -> (r: (String, Json))
    ensures
        r.0@ == "model/list"@,
        r.1@ == JsonModel::Object(seq![("limit"@, JsonModel::Number(Some(100)))]),
{
    ("model/list".to_owned(), object1("limit", Json::Number(Some(100))))
}

// ---------------------------------------------------------------------------------------
// Configuration and account
// ---------------------------------------------------------------------------------------
/// What is read of the `config` of a `config/read` reply: `model`,
/// `model_reasoning_effort` and `sandbox_mode`, where they hold text. A reply without
/// `config` gives nothing.
pub fn read_config(reply: &Json) -> (r: Option<ConfigRead>)
    ensures
        match member(reply@, "config"@) {
            None => r is None,
            Some(c) => r matches Some(read) && opt_text(read.model) == str_value(member(c, "model"@))
                && opt_text(read.effort) == str_value(member(c, "model_reasoning_effort"@))
                && opt_text(read.sandbox_mode) == str_value(member(c, "sandbox_mode"@)),
        },
{
    match get(reply, "config") {
        None => None,
        Some(c) => Some(ConfigRead {
            model: str_of(get(c, "model")),
            effort: str_of(get(c, "model_reasoning_effort")),
            sandbox_mode: str_of(get(c, "sandbox_mode")),
        }),
    }
}

/// The personal instructions of a `config/read` reply: `config.developer_instructions`
/// where it holds text, else empty; nothing when the reply has no `config`.
pub fn developer_instructions(reply: &Json) -> (r: Option<String>)
    ensures
        match member(reply@, "config"@) {
            None => r is None,
            Some(c) => r matches Some(t) && t@ == match str_value(member(c, "developer_instructions"@)) {
                Some(text) => text,
                None => Seq::<char>::empty(),
            },
        },
{
    match get(reply, "config") {
        None => None,
        Some(c) => match str_of(get(c, "developer_instructions")) {
            Some(t) => Some(t),
            None => Some(String::new()),
        },
    }
}

pub open spec fn account_field_view(a: AccountField) -> AccountFieldModel {
    match a {
        AccountField::Missing => AccountFieldModel::Missing,
        AccountField::Null => AccountFieldModel::Null,
        AccountField::Present { email, plan } => AccountFieldModel::Present { email: opt_text(email), plan: opt_text(plan) },
    }
}

/// What an `account/read` reply says of the account, as the session reads it.
pub fn read_account(reply: &Json) -> (r: AccountField)
    ensures
        account_field_view(r) == crate::wire::account_field_of(member(reply@, "account"@)),
{
    match get(reply, "account") {
        None => AccountField::Missing,
        Some(Json::Null) => AccountField::Null,
        Some(v) => AccountField::Present { email: str_of(get(v, "email")), plan: str_of(get(v, "planType")) },
    }
}

// ---------------------------------------------------------------------------------------
// MCP servers
// ---------------------------------------------------------------------------------------
/// What is read of a server: `name` and `authStatus` where they hold text, and how many
/// `tools` it lists.
pub open spec fn server_of(j: JsonModel) -> (Option<Seq<char>>, Option<Seq<char>>, int) {
    (str_value(member(j, "name"@)), str_value(member(j, "authStatus"@)), list_of(member(j, "tools"@)).len() as int)
}

pub open spec fn server_view(s: ServerRead) -> (Option<Seq<char>>, Option<Seq<char>>, int) {
    (opt_text(s.name), opt_text(s.auth_status), s.tool_count as int)
}

pub open spec fn servers_view(v: Seq<ServerRead>) -> Seq<(Option<Seq<char>>, Option<Seq<char>>, int)> {
    v.map_values(|s: ServerRead| server_view(s))
}

fn read_server(j: &Json) -> (r: ServerRead)
    ensures
        server_view(r) == server_of(j@),
{
    let tool_count = match items_of(get(j, "tools")) {
        Some(tools) => {
            proof {
                crate::json::lemma_models_len(tools@);
            }
            tools.len()
        },
        None => 0,
    };
    ServerRead { name: str_of(get(j, "name")), auth_status: str_of(get(j, "authStatus")), tool_count }
}

/// The servers of an `mcpServerStatus/list` reply: one for each item of its `data`, in
/// order; nothing when `data` is not a list.
pub fn read_servers(reply: &Json) -> (r: Option<Vec<ServerRead>>)
    ensures
        match items_value(member(reply@, "data"@)) {
            None => r is None,
            Some(items) => r matches Some(v) && servers_view(v@) == items.map_values(|j: JsonModel| server_of(j)),
        },
{
    let items = match items_of(get(reply, "data")) {
        Some(items) => items,
        None => return None,
    };
    let ghost all = models(items@);
    let mut out: Vec<ServerRead> = Vec::new();
    let mut k: usize = 0;
    proof {
        crate::json::lemma_models_len(items@);
    }
    while k < items.len()
        invariant
            k <= items@.len(),
            all == models(items@),
            all.len() == items@.len(),
            servers_view(out@) == all.take(k as int).map_values(|j: JsonModel| server_of(j)),
        decreases items@.len() - k,
    {
        proof {
            lemma_models_index(items@, k as int);
        }
        let s = read_server(&items[k]);
        let ghost before = out@;
        out.push(s);
        assert(servers_view(out@) =~= servers_view(before).push(server_view(s)));
        assert(all.take(k + 1).map_values(|j: JsonModel| server_of(j)) =~= all.take(k as int).map_values(
            |j: JsonModel| server_of(j),
        ).push(server_of(all[k as int])));
        k = k + 1;
    }
    assert(all.take(k as int) =~= all);
    Some(out)
}

// ---------------------------------------------------------------------------------------
// Hooks
// ---------------------------------------------------------------------------------------
pub type HookView = (Option<Seq<char>>, Option<Seq<char>>, Option<Seq<char>>, Option<Seq<char>>, Option<bool>);

/// What is read of a hook: `key`, `eventName`, `source` and `trustStatus` where they hold
/// text, and `enabled` where it holds a boolean.
pub open spec fn hook_of(j: JsonModel) -> HookView {
    (
        str_value(member(j, "key"@)),
        str_value(member(j, "eventName"@)),
        str_value(member(j, "source"@)),
        str_value(member(j, "trustStatus"@)),
        bool_value(member(j, "enabled"@)),
    )
}

pub open spec fn hook_view(h: HookRead) -> HookView {
    (opt_text(h.key), opt_text(h.event_name), opt_text(h.source), opt_text(h.trust), h.enabled)
}

/// What is read of a hook that could not be loaded: `path` and `message`, where they hold
/// text.
pub open spec fn issue_of(j: JsonModel) -> (Option<Seq<char>>, Option<Seq<char>>) {
    (str_value(member(j, "path"@)), str_value(member(j, "message"@)))
}

pub open spec fn issue_view(e: HookIssue) -> (Option<Seq<char>>, Option<Seq<char>>) {
    (opt_text(e.path), opt_text(e.message))
}

/// The items that are text, in order.
pub open spec fn texts_in(items: Seq<JsonModel>) -> Seq<Seq<char>>
    decreases items.len(),
{
    if items.len() == 0 {
        Seq::empty()
    } else {
        let rest = texts_in(items.drop_last());
        match items.last() {
            JsonModel::Str(t) => rest.push(t),
            _ => rest,
        }
    }
}

pub type GroupView = (Seq<HookView>, Seq<(Option<Seq<char>>, Option<Seq<char>>)>, Seq<Seq<char>>);

/// What is read of one entry of `hooks/list`: each item of `hooks`, each item of
/// `errors`, and the `warnings` that are text.
pub open spec fn group_of(j: JsonModel) -> GroupView {
    (
        list_of(member(j, "hooks"@)).map_values(|h: JsonModel| hook_of(h)),
        list_of(member(j, "errors"@)).map_values(|e: JsonModel| issue_of(e)),
        texts_in(list_of(member(j, "warnings"@))),
    )
}

pub open spec fn group_view(g: HookGroup) -> GroupView {
    (
        g.hooks@.map_values(|h: HookRead| hook_view(h)),
        g.errors@.map_values(|e: HookIssue| issue_view(e)),
        g.warnings@.map_values(|w: String| w@),
    )
}

fn read_hook(j: &Json) -> (r: HookRead)
    ensures
        hook_view(r) == hook_of(j@),
{
    HookRead {
        key: str_of(get(j, "key")),
        event_name: str_of(get(j, "eventName")),
        source: str_of(get(j, "source")),
        trust: str_of(get(j, "trustStatus")),
        enabled: bool_of(get(j, "enabled")),
    }
}

fn read_issue(j: &Json) -> (r: HookIssue)
    ensures
        issue_view(r) == issue_of(j@),
{
    HookIssue { path: str_of(get(j, "path")), message: str_of(get(j, "message")) }
}

fn read_hook_list(j: Option<&Json>) -> (r: Vec<HookRead>)
    ensures
        r@.map_values(|h: HookRead| hook_view(h)) == list_of(opt_ref(j)).map_values(|h: JsonModel| hook_of(h)),
{
    let mut out: Vec<HookRead> = Vec::new();
    let items = match items_of(j) {
        Some(items) => items,
        None => {
            assert(out@.map_values(|h: HookRead| hook_view(h)) =~= list_of(opt_ref(j)).map_values(|h: JsonModel| hook_of(h)));
            return out;
        },
    };
    let ghost all = models(items@);
    proof {
        crate::json::lemma_models_len(items@);
    }
    let mut k: usize = 0;
    while k < items.len()
        invariant
            k <= items@.len(),
            all == models(items@),
            all.len() == items@.len(),
            out@.map_values(|h: HookRead| hook_view(h)) == all.take(k as int).map_values(|h: JsonModel| hook_of(h)),
        decreases items@.len() - k,
    {
        proof {
            lemma_models_index(items@, k as int);
        }
        let h = read_hook(&items[k]);
        let ghost before = out@;
        out.push(h);
        assert(out@.map_values(|h: HookRead| hook_view(h)) =~= before.map_values(|h: HookRead| hook_view(h)).push(hook_view(h)));
        assert(all.take(k + 1).map_values(|h: JsonModel| hook_of(h)) =~= all.take(k as int).map_values(|h: JsonModel| hook_of(h)).push(
            hook_of(all[k as int]),
        ));
        k = k + 1;
    }
    assert(all.take(k as int) =~= all);
    out
}

fn read_issue_list(j: Option<&Json>) -> (r: Vec<HookIssue>)
    ensures
        r@.map_values(|e: HookIssue| issue_view(e)) == list_of(opt_ref(j)).map_values(|e: JsonModel| issue_of(e)),
{
    let mut out: Vec<HookIssue> = Vec::new();
    let items = match items_of(j) {
        Some(items) => items,
        None => {
            assert(out@.map_values(|e: HookIssue| issue_view(e)) =~= list_of(opt_ref(j)).map_values(|e: JsonModel| issue_of(e)));
            return out;
        },
    };
    let ghost all = models(items@);
    proof {
        crate::json::lemma_models_len(items@);
    }
    let mut k: usize = 0;
    while k < items.len()
        invariant
            k <= items@.len(),
            all == models(items@),
            all.len() == items@.len(),
            out@.map_values(|e: HookIssue| issue_view(e)) == all.take(k as int).map_values(|e: JsonModel| issue_of(e)),
        decreases items@.len() - k,
    {
        proof {
            lemma_models_index(items@, k as int);
        }
        let e = read_issue(&items[k]);
        let ghost before = out@;
        out.push(e);
        assert(out@.map_values(|e: HookIssue| issue_view(e)) =~= before.map_values(|e: HookIssue| issue_view(e)).push(issue_view(e)));
        assert(all.take(k + 1).map_values(|e: JsonModel| issue_of(e)) =~= all.take(k as int).map_values(|e: JsonModel| issue_of(e)).push(
            issue_of(all[k as int]),
        ));
        k = k + 1;
    }
    assert(all.take(k as int) =~= all);
    out
}

/// The items of a list that are text, in order.
fn read_texts(j: Option<&Json>) -> (r: Vec<String>)
    ensures
        r@.map_values(|w: String| w@) == texts_in(list_of(opt_ref(j))),
{
    let mut out: Vec<String> = Vec::new();
    let items = match items_of(j) {
        Some(items) => items,
        None => {
            assert(out@.map_values(|w: String| w@) =~= texts_in(list_of(opt_ref(j))));
            return out;
        },
    };
    let ghost all = models(items@);
    proof {
        crate::json::lemma_models_len(items@);
    }
    let mut k: usize = 0;
    assert(all.take(0) =~= Seq::<JsonModel>::empty());
    while k < items.len()
        invariant
            k <= items@.len(),
            all == models(items@),
            all.len() == items@.len(),
            out@.map_values(|w: String| w@) == texts_in(all.take(k as int)),
        decreases items@.len() - k,
    {
        proof {
            lemma_models_index(items@, k as int);
            assert(all.take(k + 1).drop_last() =~= all.take(k as int));
            assert(all.take(k + 1).last() == all[k as int]);
        }
        let ghost before = out@;
        if let Json::Str(t) = &items[k] {
            out.push(t.clone());
            assert(out@.map_values(|w: String| w@) =~= before.map_values(|w: String| w@).push(t@));
        }
        k = k + 1;
    }
    assert(all.take(k as int) =~= all);
    out
}

fn read_group(j: &Json) -> (r: HookGroup)
    ensures
        group_view(r) == group_of(j@),
{
    HookGroup {
        hooks: read_hook_list(get(j, "hooks")),
        errors: read_issue_list(get(j, "errors")),
        warnings: read_texts(get(j, "warnings")),
    }
}

/// The entries of a `hooks/list` reply: one for each item of its `data`, in order.
pub fn read_hooks(reply: &Json) -> (r: Vec<HookGroup>)
    ensures
        r@.map_values(|g: HookGroup| group_view(g)) == list_of(member(reply@, "data"@)).map_values(|j: JsonModel| group_of(j)),
{
    let mut out: Vec<HookGroup> = Vec::new();
    let data = get(reply, "data");
    let items = match items_of(data) {
        Some(items) => items,
        None => {
            assert(out@.map_values(|g: HookGroup| group_view(g)) =~= list_of(member(reply@, "data"@)).map_values(
                |j: JsonModel| group_of(j),
            ));
            return out;
        },
    };
    let ghost all = models(items@);
    proof {
        crate::json::lemma_models_len(items@);
    }
    let mut k: usize = 0;
    while k < items.len()
        invariant
            k <= items@.len(),
            all == models(items@),
            all.len() == items@.len(),
            out@.map_values(|g: HookGroup| group_view(g)) == all.take(k as int).map_values(|j: JsonModel| group_of(j)),
        decreases items@.len() - k,
    {
        proof {
            lemma_models_index(items@, k as int);
        }
        let g = read_group(&items[k]);
        let ghost before = out@;
        out.push(g);
        assert(out@.map_values(|g: HookGroup| group_view(g)) =~= before.map_values(|g: HookGroup| group_view(g)).push(group_view(g)));
        assert(all.take(k + 1).map_values(|j: JsonModel| group_of(j)) =~= all.take(k as int).map_values(|j: JsonModel| group_of(j)).push(
            group_of(all[k as int]),
        ));
        k = k + 1;
    }
    assert(all.take(k as int) =~= all);
    out
}

// ---------------------------------------------------------------------------------------
// Plugins
// ---------------------------------------------------------------------------------------
pub type PluginView = (Option<Seq<char>>, bool, bool, Option<Seq<char>>);

/// The member that names a plugin: `interface.displayName`, else `name`.
pub open spec fn plugin_name_member(j: JsonModel) -> Option<JsonModel> {
    let shown = match member(j, "interface"@) {
        Some(i) => member(i, "displayName"@),
        None => None,
    };
    match shown {
        Some(v) => Some(v),
        None => member(j, "name"@),
    }
}

/// What is read of a plugin of the catalog: its name where that member holds text, whether
/// `installed` and `enabled` are `true`, and `disabledReason` where it holds text.
pub open spec fn plugin_of(j: JsonModel) -> PluginView {
    (
        str_value(plugin_name_member(j)),
        bool_value(member(j, "installed"@)) == Some(true),
        bool_value(member(j, "enabled"@)) == Some(true),
        str_value(member(j, "disabledReason"@)),
    )
}

pub open spec fn plugin_view(p: PluginRead) -> PluginView {
    (opt_text(p.name), p.installed, p.enabled, opt_text(p.disabled_reason))
}

/// The plugins of the marketplaces, market after market.
pub open spec fn plugins_in(markets: Seq<JsonModel>) -> Seq<JsonModel>
    decreases markets.len(),
{
    if markets.len() == 0 {
        Seq::empty()
    } else {
        plugins_in(markets.drop_last()) + list_of(member(markets.last(), "plugins"@))
    }
}

fn read_plugin(j: &Json) -> (r: PluginRead)
    ensures
        plugin_view(r) == plugin_of(j@),
{
    let shown = match get(j, "interface") {
        Some(i) => get(i, "displayName"),
        None => None,
    };
    let name_member = match shown {
        Some(v) => Some(v),
        None => get(j, "name"),
    };
    PluginRead {
        name: str_of(name_member),
        installed: bool_of(get(j, "installed")) == Some(true),
        enabled: bool_of(get(j, "enabled")) == Some(true),
        disabled_reason: str_of(get(j, "disabledReason")),
    }
}

fn read_plugin_list(j: Option<&Json>) -> (r: Vec<PluginRead>)
    ensures
        r@.map_values(|p: PluginRead| plugin_view(p)) == list_of(opt_ref(j)).map_values(|p: JsonModel| plugin_of(p)),
{
    let mut out: Vec<PluginRead> = Vec::new();
    let items = match items_of(j) {
        Some(items) => items,
        None => {
            assert(out@.map_values(|p: PluginRead| plugin_view(p)) =~= list_of(opt_ref(j)).map_values(|p: JsonModel| plugin_of(p)));
            return out;
        },
    };
    let ghost all = models(items@);
    proof {
        crate::json::lemma_models_len(items@);
    }
    let mut k: usize = 0;
    while k < items.len()
        invariant
            k <= items@.len(),
            all == models(items@),
            all.len() == items@.len(),
            out@.map_values(|p: PluginRead| plugin_view(p)) == all.take(k as int).map_values(|p: JsonModel| plugin_of(p)),
        decreases items@.len() - k,
    {
        proof {
            lemma_models_index(items@, k as int);
        }
        let p = read_plugin(&items[k]);
        let ghost before = out@;
        out.push(p);
        assert(out@.map_values(|p: PluginRead| plugin_view(p)) =~= before.map_values(|p: PluginRead| plugin_view(p)).push(plugin_view(p)));
        assert(all.take(k + 1).map_values(|p: JsonModel| plugin_of(p)) =~= all.take(k as int).map_values(|p: JsonModel| plugin_of(p)).push(
            plugin_of(all[k as int]),
        ));
        k = k + 1;
    }
    assert(all.take(k as int) =~= all);
    out
}

/// The plugins of a `plugin/list` reply: those of each marketplace in `marketplaces`, in
/// order.
pub fn read_plugins(reply: &Json) -> (r: Vec<PluginRead>)
    ensures
        r@.map_values(|p: PluginRead| plugin_view(p)) == plugins_in(list_of(member(reply@, "marketplaces"@))).map_values(
            |p: JsonModel| plugin_of(p),
        ),
{
    let mut out: Vec<PluginRead> = Vec::new();
    let markets = match items_of(get(reply, "marketplaces")) {
        Some(items) => items,
        None => {
            assert(out@.map_values(|p: PluginRead| plugin_view(p)) =~= plugins_in(list_of(member(reply@, "marketplaces"@))).map_values(
                |p: JsonModel| plugin_of(p),
            ));
            return out;
        },
    };
    let ghost all = models(markets@);
    proof {
        crate::json::lemma_models_len(markets@);
    }
    let mut k: usize = 0;
    assert(all.take(0) =~= Seq::<JsonModel>::empty());
    assert(out@.map_values(|p: PluginRead| plugin_view(p)) =~= plugins_in(all.take(0)).map_values(|p: JsonModel| plugin_of(p)));
    while k < markets.len()
        invariant
            k <= markets@.len(),
            all == models(markets@),
            all.len() == markets@.len(),
            out@.map_values(|p: PluginRead| plugin_view(p)) == plugins_in(all.take(k as int)).map_values(|p: JsonModel| plugin_of(p)),
        decreases markets@.len() - k,
    {
        proof {
            lemma_models_index(markets@, k as int);
            assert(all.take(k + 1).drop_last() =~= all.take(k as int));
            assert(all.take(k + 1).last() == all[k as int]);
        }
        let mut part = read_plugin_list(get(&markets[k], "plugins"));
        let ghost before = out@;
        let ghost added = part@;
        out.append(&mut part);
        proof {
            let f = |p: PluginRead| plugin_view(p);
            let g = |p: JsonModel| plugin_of(p);
            let a = plugins_in(all.take(k as int));
            let b = list_of(member(all[k as int], "plugins"@));
            assert(out@ =~= before + added);
            assert((before + added).map_values(f) =~= before.map_values(f) + added.map_values(f));
            assert((a + b).map_values(g) =~= a.map_values(g) + b.map_values(g));
        }
        k = k + 1;
    }
    assert(all.take(k as int) =~= all);
    out
}

// ---------------------------------------------------------------------------------------
// Models
// ---------------------------------------------------------------------------------------
pub type ModelView = (Seq<char>, Seq<char>, Seq<Seq<char>>, Option<Seq<char>>);

/// The reasoning efforts of a model: the `reasoningEffort` of each item, where it holds
/// text.
pub open spec fn efforts_in(items: Seq<JsonModel>) -> Seq<Seq<char>>
    decreases items.len(),
{
    if items.len() == 0 {
        Seq::empty()
    } else {
        let rest = efforts_in(items.drop_last());
        match str_value(member(items.last(), "reasoningEffort"@)) {
            Some(e) => rest.push(e),
            None => rest,
        }
    }
}

/// The identifier of a listed model: for the composer its `model` member; for the
/// settings page its `model` member, or its `id` member when it has no `model`. Either must
/// hold text.
pub open spec fn model_id_of(j: JsonModel, for_settings: bool) -> Option<Seq<char>> {
    if for_settings {
        match member(j, "model"@) {
            Some(v) => str_value(Some(v)),
            None => str_value(member(j, "id"@)),
        }
    } else {
        str_value(member(j, "model"@))
    }
}

/// What is read of a listed model, when it has an identifier: the identifier, its
/// `displayName` (else the identifier), its efforts, and, for the composer, its
/// `defaultReasoningEffort`.
pub open spec fn model_of(j: JsonModel, for_settings: bool) -> Option<ModelView> {
    match model_id_of(j, for_settings) {
        None => None,
        Some(id) => Some((
            id,
            match str_value(member(j, "displayName"@)) {
                Some(n) => n,
                None => id,
            },
            efforts_in(list_of(member(j, "supportedReasoningEfforts"@))),
            if for_settings {
                None
            } else {
                str_value(member(j, "defaultReasoningEffort"@))
            },
        )),
    }
}

/// The models of a list that have an identifier, in order.
pub open spec fn models_in(items: Seq<JsonModel>, for_settings: bool) -> Seq<ModelView>
    decreases items.len(),
{
    if items.len() == 0 {
        Seq::empty()
    } else {
        let rest = models_in(items.drop_last(), for_settings);
        match model_of(items.last(), for_settings) {
            Some(m) => rest.push(m),
            None => rest,
        }
    }
}

pub open spec fn model_view(m: ModelEntry) -> ModelView {
    (m.id@, m.name@, m.efforts@.map_values(|e: String| e@), opt_text(m.default_effort))
}

fn read_efforts(j: Option<&Json>) -> (r: Vec<String>)
    ensures
        r@.map_values(|e: String| e@) == efforts_in(list_of(opt_ref(j))),
{
    let mut out: Vec<String> = Vec::new();
    let items = match items_of(j) {
        Some(items) => items,
        None => {
            assert(out@.map_values(|e: String| e@) =~= efforts_in(list_of(opt_ref(j))));
            return out;
        },
    };
    let ghost all = models(items@);
    proof {
        crate::json::lemma_models_len(items@);
    }
    let mut k: usize = 0;
    assert(all.take(0) =~= Seq::<JsonModel>::empty());
    while k < items.len()
        invariant
            k <= items@.len(),
            all == models(items@),
            all.len() == items@.len(),
            out@.map_values(|e: String| e@) == efforts_in(all.take(k as int)),
        decreases items@.len() - k,
    {
        proof {
            lemma_models_index(items@, k as int);
            assert(all.take(k + 1).drop_last() =~= all.take(k as int));
            assert(all.take(k + 1).last() == all[k as int]);
        }
        let ghost before = out@;
        if let Some(e) = str_of(get(&items[k], "reasoningEffort")) {
            out.push(e);
            assert(out@.map_values(|e: String| e@) =~= before.map_values(|e: String| e@).push(e@));
        }
        k = k + 1;
    }
    assert(all.take(k as int) =~= all);
    out
}

fn read_model(j: &Json, for_settings: bool) -> (r: Option<ModelEntry>)
    ensures
        match model_of(j@, for_settings) {
            None => r is None,
            Some(m) => r matches Some(e) && model_view(e) == m,
        },
{
    let id = if for_settings {
        match get(j, "model") {
            Some(v) => str_of(Some(v)),
            None => str_of(get(j, "id")),
        }
    } else {
        str_of(get(j, "model"))
    };
    let id = match id {
        Some(id) => id,
        None => return None,
    };
    let name = match str_of(get(j, "displayName")) {
        Some(n) => n,
        None => id.clone(),
    };
    let efforts = read_efforts(get(j, "supportedReasoningEfforts"));
    let default_effort = if for_settings {
        None
    } else {
        str_of(get(j, "defaultReasoningEffort"))
    };
    Some(ModelEntry { id, name, efforts, default_effort })
}

/// The models of a `model/list` reply, for the settings page or for the composer: those of
/// its `data` that have an identifier, in order; nothing when `data` is not a list.
pub fn read_models(reply: &Json, for_settings: bool) -> (r: Option<Vec<ModelEntry>>)
    ensures
        match items_value(member(reply@, "data"@)) {
            None => r is None,
            Some(items) => r matches Some(v) && v@.map_values(|m: ModelEntry| model_view(m)) == models_in(items, for_settings),
        },
{
    let items = match items_of(get(reply, "data")) {
        Some(items) => items,
        None => return None,
    };
    let ghost all = models(items@);
    proof {
        crate::json::lemma_models_len(items@);
    }
    let mut out: Vec<ModelEntry> = Vec::new();
    let mut k: usize = 0;
    assert(all.take(0) =~= Seq::<JsonModel>::empty());
    while k < items.len()
        invariant
            k <= items@.len(),
            all == models(items@),
            all.len() == items@.len(),
            out@.map_values(|m: ModelEntry| model_view(m)) == models_in(all.take(k as int), for_settings),
        decreases items@.len() - k,
    {
        proof {
            lemma_models_index(items@, k as int);
            assert(all.take(k + 1).drop_last() =~= all.take(k as int));
            assert(all.take(k + 1).last() == all[k as int]);
        }
        let ghost before = out@;
        if let Some(m) = read_model(&items[k], for_settings) {
            out.push(m);
            assert(out@.map_values(|m: ModelEntry| model_view(m)) =~= before.map_values(|m: ModelEntry| model_view(m)).push(model_view(m)));
        }
        k = k + 1;
    }
    assert(all.take(k as int) =~= all);
    Some(out)
}

} // verus!
