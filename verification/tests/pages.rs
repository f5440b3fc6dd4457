use codex_air::app_server::AccountStatus;
use codex_air::pages::{
    account_page, choice_label, choices, efforts_for, hooks_page, plan_row, plugins_page, servers_page, HookGroup,
    HookIssue, HookRead, PageLine, PluginRead, ServerRead,
};
use codex_air::settings::model_entry;

fn s(text: &str) -> Option<String> {
    Some(text.to_string())
}

fn row(line: &PageLine) -> (&str, &str, &str) {
    match line {
        PageLine::Row { label, detail, status } => (label, detail, status),
        _ => panic!("expected a row"),
    }
}

#[test]
fn hooks_page_lists_hooks_errors_and_warnings() {
    let groups = vec![
        HookGroup {
            hooks: vec![
                HookRead { key: s("fmt"), event_name: s("PostToolUse"), source: s("user"), trust: s("trusted"), enabled: Some(true) },
                HookRead { key: None, event_name: None, source: None, trust: None, enabled: None },
            ],
            errors: vec![HookIssue { path: s("hooks.toml"), message: None }],
            warnings: vec!["old format".to_string()],
        },
        HookGroup { hooks: vec![], errors: vec![], warnings: vec![] },
    ];
    let lines = hooks_page(&groups);
    assert_eq!(lines.len(), 4);
    assert_eq!(row(&lines[0]), ("fmt", "PostToolUse · user · trusted", "Enabled"));
    assert_eq!(row(&lines[1]), ("Hook", "event · unknown source · unknown trust", "Disabled"));
    assert!(matches!(&lines[2], PageLine::Error(t) if t == "hooks.toml: Hook could not be loaded."));
    assert!(matches!(&lines[3], PageLine::Caption(t) if t == "Hook warning: old format"));
    let empty = hooks_page(&vec![HookGroup { hooks: vec![], errors: vec![], warnings: vec!["w".to_string()] }]);
    assert_eq!(empty.len(), 2);
    assert!(matches!(&empty[1], PageLine::Caption(t) if t == "No hooks are configured for this workspace."));
}

#[test]
fn plugins_page_lists_installed_plugins() {
    let plugins = vec![
        PluginRead { name: s("Figma"), installed: true, enabled: true, disabled_reason: None },
        PluginRead { name: s("Other"), installed: false, enabled: false, disabled_reason: None },
        PluginRead { name: None, installed: true, enabled: false, disabled_reason: s("policy") },
    ];
    let lines = plugins_page(&plugins);
    assert_eq!(lines.len(), 2);
    assert_eq!(row(&lines[0]), ("Figma", "Installed plugin", "Enabled"));
    assert_eq!(row(&lines[1]), ("Plugin", "Installed plugin · policy", "Disabled"));
    let none = plugins_page(&vec![plugins[1].clone()]);
    assert!(matches!(&none[0], PageLine::Caption(t) if t == "No installed plugins returned by the local catalog."));
}

#[test]
fn servers_page_lists_servers() {
    let lines = servers_page(&Some(vec![ServerRead { name: None, auth_status: s("oauth"), tool_count: 12 }]));
    assert_eq!(row(&lines[0]), ("MCP server", "12 tools", "oauth"));
    let empty = servers_page(&Some(vec![]));
    assert!(matches!(&empty[0], PageLine::Caption(t) if t == "No MCP servers returned by your Codex installation."));
    assert!(servers_page(&None).is_empty());
}

#[test]
fn account_and_plan() {
    let account = AccountStatus { connected: false, email: None, plan: None, detail: s("Sign-in expired") };
    let (lines, sign_in) = account_page(&account);
    assert!(sign_in);
    assert!(matches!(&lines[0], PageLine::Caption(t) if t == "Sign-in expired"));
    assert_eq!(row(&lines[1]), ("Codex account", "Uses the login managed by your local Codex installation.", "Signed out"));
    let signed_in = AccountStatus { connected: true, email: s("me@x.y"), plan: s("pro"), detail: None };
    let (lines, sign_in) = account_page(&signed_in);
    assert!(!sign_in);
    assert_eq!(lines.len(), 1);
    assert_eq!(row(&lines[0]).2, "me@x.y");
    assert_eq!(row(&plan_row(&signed_in)), ("Your plan", "Managed through ChatGPT.", "pro"));
    assert_eq!(row(&plan_row(&account)).2, "Unavailable");
}

#[test]
fn configuration_choices() {
    assert_eq!(choice_label(None), "Default");
    assert_eq!(choice_label(Some("never")), "never");
    let values = vec!["untrusted".to_string(), "never".to_string()];
    let entries = choices(&values);
    assert_eq!(entries, vec![("untrusted".to_string(), "untrusted".to_string()), ("never".to_string(), "never".to_string())]);
    let models = vec![
        model_entry("a".to_string(), None, vec!["low".to_string(), "high".to_string()], None),
        model_entry("a".to_string(), None, vec!["x".to_string()], None),
    ];
    assert_eq!(efforts_for(&models, Some("a")), vec!["low".to_string(), "high".to_string()]);
    assert!(efforts_for(&models, Some("b")).is_empty());
    assert!(efforts_for(&models, None).is_empty());
}
