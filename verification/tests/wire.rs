use codex_air::app_server::{AccountField, Effect, Outgoing, Session};
use codex_air::json::Json;
use codex_air::wire::{decode, encode, handle_line, message_text, read_line};

fn member<'a>(j: &'a Json, key: &str) -> &'a Json {
    match j {
        Json::Object(entries) => &entries.iter().find(|(k, _)| k == key).expect("member").1,
        _ => panic!("not an object"),
    }
}

fn text(j: &Json) -> &str {
    match j {
        Json::Str(s) => s,
        _ => panic!("not a string"),
    }
}

fn obj(entries: Vec<(&str, Json)>) -> Json {
    Json::Object(entries.into_iter().map(|(k, v)| (k.to_string(), v)).collect())
}

fn s(t: &str) -> Json {
    Json::Str(t.to_string())
}

#[test]
fn account_read_never_refreshes() {
    let m = encode(&Outgoing::AccountRead { id: 7 }, "0.3.0");
    assert!(matches!(member(&m, "id"), Json::Number(Some(7))));
    assert_eq!(text(member(&m, "method")), "account/read");
    assert!(matches!(member(member(&m, "params"), "refreshToken"), Json::Bool(false)));
}

#[test]
fn initialize_names_the_client() {
    let m = encode(&Outgoing::Initialize, "0.3.0");
    assert!(matches!(member(&m, "id"), Json::Number(Some(1))));
    assert_eq!(text(member(&m, "method")), "initialize");
    let info = member(member(&m, "params"), "clientInfo");
    assert_eq!(text(member(info, "name")), "Codex Air");
    assert_eq!(text(member(info, "version")), "0.3.0");
    assert_eq!(text(member(info, "title")), "Codex Air");
    let initialized = encode(&Outgoing::Initialized, "0.3.0");
    assert_eq!(text(member(&initialized, "method")), "initialized");
    assert!(matches!(member(&initialized, "params"), Json::Object(e) if e.is_empty()));
}

#[test]
fn threads_and_turns_carry_their_policy() {
    let start = encode(&Outgoing::ThreadStart { id: 3, cwd: "C:/a".to_string() }, "0.3.0");
    let params = member(&start, "params");
    assert_eq!(text(member(params, "cwd")), "C:/a");
    assert_eq!(text(member(params, "approvalPolicy")), "unlessTrusted");
    assert_eq!(text(member(params, "sandbox")), "workspaceWrite");
    assert_eq!(text(member(params, "serviceName")), "codex_air");
    let turn = encode(
        &Outgoing::TurnStart { id: 4, thread_id: "t".to_string(), text: "hi".to_string(), cwd: "C:/a".to_string() },
        "0.3.0",
    );
    let params = member(&turn, "params");
    assert_eq!(text(member(params, "threadId")), "t");
    match member(params, "input") {
        Json::Array(items) => {
            assert_eq!(items.len(), 1);
            assert_eq!(text(member(&items[0], "type")), "text");
            assert_eq!(text(member(&items[0], "text")), "hi");
        }
        _ => panic!("expected the input"),
    }
    let sandbox = member(params, "sandboxPolicy");
    assert_eq!(text(member(sandbox, "type")), "workspaceWrite");
    assert!(matches!(member(sandbox, "writableRoots"), Json::Array(roots) if roots.len() == 1 && text(&roots[0]) == "C:/a"));
    assert!(matches!(member(sandbox, "networkAccess"), Json::Bool(true)));
    assert_eq!(text(member(params, "effort")), "medium");
    assert_eq!(text(member(params, "summary")), "concise");
    let login = encode(&Outgoing::LoginStart { id: 5 }, "0.3.0");
    assert_eq!(text(member(member(&login, "params"), "type")), "chatgpt");
    let resume = encode(&Outgoing::ThreadResume { id: 6, thread_id: "t9".to_string() }, "0.3.0");
    assert_eq!(text(member(member(&resume, "params"), "threadId")), "t9");
}

#[test]
fn decoding_reads_only_the_named_members() {
    let message = obj(vec![
        ("id", Json::Number(Some(2))),
        (
            "result",
            obj(vec![
                ("requiresOpenaiAuth", Json::Bool(true)),
                ("account", obj(vec![("email", s("me@x.y")), ("planType", s("plus")), ("accessToken", s("secret"))])),
                ("thread", obj(vec![("id", s("thr"))])),
                ("authUrl", s("https://auth")),
            ]),
        ),
    ]);
    let m = decode(&message);
    assert_eq!(m.id, Some(2));
    assert!(m.has_result && m.reports_account);
    assert_eq!(m.thread_id.as_deref(), Some("thr"));
    assert_eq!(m.auth_url.as_deref(), Some("https://auth"));
    match m.account {
        AccountField::Present { email, plan } => {
            assert_eq!(email.as_deref(), Some("me@x.y"));
            assert_eq!(plan.as_deref(), Some("plus"));
        }
        _ => panic!("expected an account"),
    }
    let null = decode(&obj(vec![("result", obj(vec![("account", Json::Null)]))]));
    assert!(matches!(null.account, AccountField::Null));
    assert!(!null.reports_account);
    let note = decode(&obj(vec![
        ("method", s("item/started")),
        ("params", obj(vec![("item", obj(vec![("type", s("commandExecution"))])), ("success", Json::Bool(true))])),
        ("error", obj(vec![("message", s("bad"))])),
    ]));
    assert_eq!(note.method.as_deref(), Some("item/started"));
    assert_eq!(note.item_type.as_deref(), Some("commandExecution"));
    assert!(note.login_succeeded);
    assert_eq!(note.error_message.as_deref(), Some("bad"));
    assert!(note.id.is_none() && !note.has_result);
    assert!(matches!(note.account, AccountField::Missing));
    let fragment = decode(&obj(vec![
        ("method", s("item/agentMessage/delta")),
        ("params", obj(vec![("itemId", s("msg_9")), ("delta", s("Hi")), ("threadId", s("t"))])),
    ]));
    assert_eq!(fragment.item_id.as_deref(), Some("msg_9"));
    assert_eq!(fragment.delta.as_deref(), Some("Hi"));
    let odd = decode(&obj(vec![("id", Json::Number(None)), ("method", Json::Number(Some(1)))]));
    assert!(odd.id.is_none() && odd.method.is_none());
}

#[test]
fn error_reply_carries_the_request_id() {
    let m = encode(&Outgoing::ErrorReply { id: 12, method: "item/tool/requestUserInput".to_string() }, "0.3.0");
    assert!(matches!(member(&m, "id"), Json::Number(Some(12))));
    let error = member(&m, "error");
    assert!(matches!(member(error, "code"), Json::Number(Some(-32601))));
    assert_eq!(text(member(error, "message")), "Codex Air does not support item/tool/requestUserInput.");
    match &m {
        Json::Object(entries) => assert!(entries.iter().all(|(k, _)| k != "method" && k != "result")),
        _ => panic!("not an object"),
    }
}

#[test]
fn a_decoded_server_request_is_answered_with_its_id() {
    let (mut session, _) = Session::start();
    session.handle_message(decode(&obj(vec![("id", Json::Number(Some(1))), ("result", obj(vec![]))])));
    let line = obj(vec![
        ("id", Json::Number(Some(30))),
        ("method", s("item/fileChange/requestApproval")),
        ("params", obj(vec![("threadId", s("t1"))])),
    ]);
    let effects = session.handle_message(decode(&line));
    assert_eq!(effects.len(), 1);
    match &effects[0] {
        Effect::Send(reply) => {
            let j = encode(reply, "0.3.0");
            assert!(matches!(member(&j, "id"), Json::Number(Some(30))));
        }
        _ => panic!("expected a reply"),
    }
}

#[test]
fn messages_are_written_as_one_line_of_json() {
    let text = message_text(&Outgoing::AccountRead { id: 7 }, "0.3.0").expect("text");
    assert_eq!(text, r#"{"id":7,"method":"account/read","params":{"refreshToken":false}}"#);
    assert!(!text.contains('\n'));
    let initialized = message_text(&Outgoing::Initialized, "0.3.0").expect("text");
    assert_eq!(initialized, r#"{"method":"initialized","params":{}}"#);
}

#[test]
fn lines_are_read_as_messages() {
    let m = read_line(r#"{"id":5,"result":{"thread":{"id":"thr_1"}},"extra":[1,2.5,null]}"#).expect("a message");
    assert_eq!(m.id, Some(5));
    assert!(m.has_result);
    assert_eq!(m.thread_id.as_deref(), Some("thr_1"));
    assert!(read_line("not json").is_none());
    assert!(read_line("").is_none());
    let big = read_line(r#"{"id":1.5,"method":"x"}"#).expect("a message");
    assert!(big.id.is_none());
}

#[test]
fn handling_lines_drives_the_session() {
    let (mut session, _) = Session::start();
    assert!(handle_line(&mut session, "{ broken").is_empty());
    assert!(!session.initialized);
    let effects = handle_line(&mut session, r#"{"id":1,"result":{"userAgent":"codex"}}"#);
    assert!(session.initialized);
    assert_eq!(effects.len(), 2);
    let reply = handle_line(&mut session, r#"{"id":0,"method":"item/commandExecution/requestApproval","params":{}}"#);
    match &reply[0] {
        Effect::Send(message) => {
            let text = message_text(message, "0.3.0").expect("text");
            assert_eq!(
                text,
                r#"{"error":{"code":-32601,"message":"Codex Air does not support item/commandExecution/requestApproval."},"id":0}"#
            );
        }
        _ => panic!("expected a reply"),
    }
}
