use codex_air::app_server::AccountField;
use codex_air::inventory::{
    developer_instructions, models_request, read_account, read_config, read_hooks, read_models, read_plugins,
    read_servers, settings_request,
};
use codex_air::json::Json;
use codex_air::settings::SettingsQuery;

fn obj(entries: Vec<(&str, Json)>) -> Json {
    Json::Object(entries.into_iter().map(|(k, v)| (k.to_string(), v)).collect())
}

fn s(t: &str) -> Json {
    Json::Str(t.to_string())
}

fn member<'a>(j: &'a Json, key: &str) -> &'a Json {
    match j {
        Json::Object(entries) => &entries.iter().find(|(k, _)| k == key).expect("member").1,
        _ => panic!("not an object"),
    }
}

#[test]
fn settings_requests_name_their_method_and_parameters() {
    let (method, params) = settings_request(SettingsQuery::ConfigRead, Some("C:/code"));
    assert_eq!(method, "config/read");
    assert!(matches!(member(&params, "includeLayers"), Json::Bool(false)));
    assert!(matches!(member(&params, "cwd"), Json::Str(c) if c == "C:/code"));
    let (_, no_folder) = settings_request(SettingsQuery::ConfigRead, None);
    assert!(matches!(member(&no_folder, "cwd"), Json::Null));
    let (method, params) = settings_request(SettingsQuery::RateLimits, None);
    assert_eq!(method, "account/rateLimits/read");
    assert!(matches!(params, Json::Null));
    let (method, params) = settings_request(SettingsQuery::McpServers, None);
    assert_eq!(method, "mcpServerStatus/list");
    assert!(matches!(member(&params, "limit"), Json::Number(Some(100))));
    let (method, params) = settings_request(SettingsQuery::Hooks, Some("C:/code"));
    assert_eq!(method, "hooks/list");
    assert!(matches!(member(&params, "cwds"), Json::Array(items) if items.len() == 1));
    let (_, params) = settings_request(SettingsQuery::Hooks, None);
    assert!(matches!(member(&params, "cwds"), Json::Array(items) if items.is_empty()));
    let (method, params) = settings_request(SettingsQuery::Plugins, None);
    assert_eq!(method, "plugin/list");
    assert!(matches!(member(&params, "cwds"), Json::Null));
    let (method, params) = settings_request(SettingsQuery::AccountRead, None);
    assert_eq!(method, "account/read");
    assert!(matches!(member(&params, "refreshToken"), Json::Bool(false)));
    let (method, params) = models_request();
    assert_eq!(method, "model/list");
    assert!(matches!(member(&params, "limit"), Json::Number(Some(100))));
}

#[test]
fn configuration_and_account_are_read() {
    let reply = obj(vec![(
        "config",
        obj(vec![
            ("model", s("gpt-5")),
            ("model_reasoning_effort", s("high")),
            ("sandbox_mode", Json::Number(Some(3))),
            ("developer_instructions", s("Be brief.")),
        ]),
    )]);
    let config = read_config(&reply).expect("a configuration");
    assert_eq!(config.model.as_deref(), Some("gpt-5"));
    assert_eq!(config.effort.as_deref(), Some("high"));
    assert!(config.sandbox_mode.is_none());
    assert_eq!(developer_instructions(&reply).as_deref(), Some("Be brief."));
    assert!(read_config(&obj(vec![])).is_none());
    assert_eq!(developer_instructions(&obj(vec![("config", obj(vec![]))])).as_deref(), Some(""));
    match read_account(&obj(vec![("account", obj(vec![("email", s("a@b.c")), ("planType", s("pro"))]))])) {
        AccountField::Present { email, plan } => {
            assert_eq!(email.as_deref(), Some("a@b.c"));
            assert_eq!(plan.as_deref(), Some("pro"));
        }
        _ => panic!("expected an account"),
    }
    assert!(matches!(read_account(&obj(vec![("account", Json::Null)])), AccountField::Null));
    assert!(matches!(read_account(&obj(vec![])), AccountField::Missing));
}

#[test]
fn servers_hooks_and_plugins_are_read() {
    let servers = read_servers(&obj(vec![(
        "data",
        Json::Array(vec![
            obj(vec![("name", s("files")), ("authStatus", s("ok")), ("tools", Json::Array(vec![Json::Null, Json::Null]))]),
            obj(vec![("name", Json::Bool(true))]),
        ]),
    )]))
    .expect("a list");
    assert_eq!(servers.len(), 2);
    assert_eq!(servers[0].name.as_deref(), Some("files"));
    assert_eq!(servers[0].tool_count, 2);
    assert!(servers[1].name.is_none() && servers[1].tool_count == 0);
    assert!(read_servers(&obj(vec![("data", s("x"))])).is_none());

    let hooks = read_hooks(&obj(vec![(
        "data",
        Json::Array(vec![obj(vec![
            ("hooks", Json::Array(vec![obj(vec![("key", s("fmt")), ("eventName", s("PostToolUse")), ("enabled", Json::Bool(true))])])),
            ("errors", Json::Array(vec![obj(vec![("path", s("a.toml")), ("message", s("bad"))])])),
            ("warnings", Json::Array(vec![s("slow"), Json::Number(Some(1)), s("old")])),
        ])]),
    )]));
    assert_eq!(hooks.len(), 1);
    assert_eq!(hooks[0].hooks[0].key.as_deref(), Some("fmt"));
    assert_eq!(hooks[0].hooks[0].enabled, Some(true));
    assert_eq!(hooks[0].errors[0].message.as_deref(), Some("bad"));
    assert_eq!(hooks[0].warnings, vec!["slow".to_string(), "old".to_string()]);
    assert!(read_hooks(&obj(vec![])).is_empty());

    let plugins = read_plugins(&obj(vec![(
        "marketplaces",
        Json::Array(vec![
            obj(vec![(
                "plugins",
                Json::Array(vec![
                    obj(vec![("interface", obj(vec![("displayName", s("Docs"))])), ("name", s("docs")), ("installed", Json::Bool(true)), ("enabled", Json::Bool(true))]),
                    obj(vec![("name", s("raw")), ("installed", Json::Bool(false)), ("disabledReason", s("policy"))]),
                ]),
            )]),
            obj(vec![("plugins", Json::Array(vec![obj(vec![("name", s("third"))])]))]),
        ]),
    )]));
    assert_eq!(plugins.len(), 3);
    assert_eq!(plugins[0].name.as_deref(), Some("Docs"));
    assert!(plugins[0].installed && plugins[0].enabled);
    assert_eq!(plugins[1].name.as_deref(), Some("raw"));
    assert!(!plugins[1].installed);
    assert_eq!(plugins[1].disabled_reason.as_deref(), Some("policy"));
    assert_eq!(plugins[2].name.as_deref(), Some("third"));
}

#[test]
fn models_are_read_for_the_composer_and_the_settings_page() {
    let reply = obj(vec![(
        "data",
        Json::Array(vec![
            obj(vec![
                ("model", s("gpt-5")),
                ("displayName", s("GPT-5")),
                ("supportedReasoningEfforts", Json::Array(vec![obj(vec![("reasoningEffort", s("low"))]), obj(vec![]), obj(vec![("reasoningEffort", s("high"))])])),
                ("defaultReasoningEffort", s("low")),
            ]),
            obj(vec![("id", s("legacy"))]),
        ]),
    )]);
    let composer = read_models(&reply, false).expect("a list");
    assert_eq!(composer.len(), 1);
    assert_eq!(composer[0].id, "gpt-5");
    assert_eq!(composer[0].name, "GPT-5");
    assert_eq!(composer[0].efforts, vec!["low".to_string(), "high".to_string()]);
    assert_eq!(composer[0].default_effort.as_deref(), Some("low"));
    let settings = read_models(&reply, true).expect("a list");
    assert_eq!(settings.len(), 2);
    assert!(settings[0].default_effort.is_none());
    assert_eq!(settings[1].id, "legacy");
    assert_eq!(settings[1].name, "legacy");
    assert!(read_models(&obj(vec![]), true).is_none());
}
