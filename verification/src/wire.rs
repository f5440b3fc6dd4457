//! The JSONL messages of the App Server conversation, as JSON values: what each message
//! to the server holds, member by member, and what the client reads of each message from
//! it. Only the members named here pass from a server message into the session; nothing
//! else the server sends (a credential included) reaches the interface.
use vstd::prelude::*;

use crate::app_server::{
    effects_model, message_step, AccountField, AccountFieldModel, Effect, Incoming, IncomingModel, Outgoing, OutgoingModel,
    Session,
};
use crate::json::{
    array_of, at, entry_models, first_key_at, get, int_value, member, models, opt_view, parse, parsed, print, printed, put,
    str_of, str_value, string, Json, JsonModel,
};

verus! {

pub open spec fn jstr(t: Seq<char>) -> JsonModel {
    JsonModel::Str(t)
}

pub open spec fn jint(n: i64) -> JsonModel {
    JsonModel::Number(Some(n))
}

pub open spec fn jobj(entries: Seq<(Seq<char>, JsonModel)>) -> JsonModel {
    JsonModel::Object(entries)
}

/// A request: its identifier, its method and its parameters.
pub open spec fn request_json(id: i64, method: Seq<char>, params: JsonModel) -> JsonModel {
    jobj(seq![("id"@, jint(id)), ("method"@, jstr(method)), ("params"@, params)])
}

/// The approval policy of the client's threads and turns: ask unless trusted.
pub open spec fn approval_policy() -> JsonModel {
    jstr("unlessTrusted"@)
}

/// The sandbox of a turn: workspace writes, in its folder only, with network access.
pub open spec fn turn_sandbox(cwd: Seq<char>) -> JsonModel {
    jobj(seq![
        ("type"@, jstr("workspaceWrite"@)),
        ("writableRoots"@, JsonModel::Array(seq![jstr(cwd)])),
        ("networkAccess"@, JsonModel::Bool(true)),
    ])
}

/// The parameters of `account/read`: the account as it stands, without a token refresh.
pub open spec fn account_read_params() -> JsonModel {
    jobj(seq![("refreshToken"@, JsonModel::Bool(false))])
}

/// The text of the error that answers a server request the client does not handle.
pub open spec fn unsupported_text(method: Seq<char>) -> Seq<char> {
    "Codex Air does not support "@ + method + "."@
}

/// The error response to the server's request `id`: JSON-RPC's "method not found".
pub open spec fn error_reply_json(id: i64, method: Seq<char>) -> JsonModel {
    jobj(seq![
        ("id"@, jint(id)),
        ("error"@, jobj(seq![("code"@, jint(-32601i64)), ("message"@, jstr(unsupported_text(method)))])),
    ])
}

/// The JSON form of each message to the server; `version` is the client's version.
pub open spec fn outgoing_json(o: OutgoingModel, version: Seq<char>) -> JsonModel {
    match o {
        OutgoingModel::Initialize => request_json(1, "initialize"@, jobj(seq![(
            "clientInfo"@,
            jobj(seq![("name"@, jstr("Codex Air"@)), ("version"@, jstr(version)), ("title"@, jstr("Codex Air"@))]),
        )])),
        OutgoingModel::Initialized => jobj(seq![("method"@, jstr("initialized"@)), ("params"@, jobj(seq![]))]),
        OutgoingModel::AccountRead { id } => request_json(id, "account/read"@, account_read_params()),
        OutgoingModel::LoginStart { id } => request_json(id, "account/login/start"@, jobj(seq![
            ("type"@, jstr("chatgpt"@)),
            ("appBrand"@, jstr("codex"@)),
            ("useHostedLoginSuccessPage"@, JsonModel::Bool(true)),
        ])),
        OutgoingModel::ThreadResume { id, thread_id } => request_json(id, "thread/resume"@, jobj(seq![
            ("threadId"@, jstr(thread_id)),
        ])),
        OutgoingModel::ThreadStart { id, cwd } => request_json(id, "thread/start"@, jobj(seq![
            ("cwd"@, jstr(cwd)),
            ("approvalPolicy"@, approval_policy()),
            ("sandbox"@, jstr("workspaceWrite"@)),
            ("serviceName"@, jstr("codex_air"@)),
        ])),
        OutgoingModel::TurnStart { id, thread_id, text, cwd } => request_json(id, "turn/start"@, jobj(seq![
            ("threadId"@, jstr(thread_id)),
            ("input"@, JsonModel::Array(seq![jobj(seq![("type"@, jstr("text"@)), ("text"@, jstr(text))])])),
            ("cwd"@, jstr(cwd)),
            ("approvalPolicy"@, approval_policy()),
            ("sandboxPolicy"@, turn_sandbox(cwd)),
            ("effort"@, jstr("medium"@)),
            ("summary"@, jstr("concise"@)),
        ])),
        OutgoingModel::ErrorReply { id, method } => error_reply_json(id, method),
    }
}

/// An empty list of members.
fn no_members() -> (r: Vec<(String, Json)>)
    ensures
        r@.len() == 0,
        entry_models(r@) == Seq::<(Seq<char>, JsonModel)>::empty(),
{
    let r: Vec<(String, Json)> = Vec::new();
    assert(entry_models(r@) =~= Seq::<(Seq<char>, JsonModel)>::empty());
    r
}

fn request(id: i64, method: &str, params: Json) -> (r: Json)
    ensures
        r@ == request_json(id, method@, params@),
{
    let mut e = no_members();
    put(&mut e, "id", Json::Number(Some(id)));
    put(&mut e, "method", string(method));
    put(&mut e, "params", params);
    let r = Json::Object(e);
    assert(entry_models(e@) =~= seq![("id"@, jint(id)), ("method"@, jstr(method@)), ("params"@, params@)]);
    r
}

fn client_info(version: &str) -> (r: Json)
    ensures
        r@ == jobj(seq![("name"@, jstr("Codex Air"@)), ("version"@, jstr(version@)), ("title"@, jstr("Codex Air"@))]),
{
    let mut e = no_members();
    put(&mut e, "name", string("Codex Air"));
    put(&mut e, "version", string(version));
    put(&mut e, "title", string("Codex Air"));
    let r = Json::Object(e);
    assert(entry_models(e@) =~= seq![("name"@, jstr("Codex Air"@)), ("version"@, jstr(version@)), ("title"@, jstr("Codex Air"@))]);
    r
}

fn initialize_params(version: &str) -> (r: Json)
    ensures
        r@ == jobj(seq![(
            "clientInfo"@,
            jobj(seq![("name"@, jstr("Codex Air"@)), ("version"@, jstr(version@)), ("title"@, jstr("Codex Air"@))]),
        )]),
{
    let mut e = no_members();
    let info = client_info(version);
    let ghost m = info@;
    put(&mut e, "clientInfo", info);
    let r = Json::Object(e);
    assert(entry_models(e@) =~= seq![("clientInfo"@, m)]);
    r
}

fn initialized_message() -> (r: Json)
    ensures
        r@ == jobj(seq![("method"@, jstr("initialized"@)), ("params"@, jobj(seq![]))]),
{
    let mut e = no_members();
    let params = no_members();
    let p = Json::Object(params);
    assert(p@ == jobj(seq![]));
    put(&mut e, "method", string("initialized"));
    put(&mut e, "params", p);
    let r = Json::Object(e);
    assert(entry_models(e@) =~= seq![("method"@, jstr("initialized"@)), ("params"@, jobj(seq![]))]);
    r
}

fn account_read(id: i64) -> (r: Json)
    ensures
        r@ == request_json(id, "account/read"@, account_read_params()),
{
    let mut e = no_members();
    put(&mut e, "refreshToken", Json::Bool(false));
    let params = Json::Object(e);
    assert(entry_models(e@) =~= seq![("refreshToken"@, JsonModel::Bool(false))]);
    request(id, "account/read", params)
}

fn login_start(id: i64) -> (r: Json)
    ensures
        r@ == request_json(id, "account/login/start"@, jobj(seq![
            ("type"@, jstr("chatgpt"@)),
            ("appBrand"@, jstr("codex"@)),
            ("useHostedLoginSuccessPage"@, JsonModel::Bool(true)),
        ])),
{
    let mut e = no_members();
    put(&mut e, "type", string("chatgpt"));
    put(&mut e, "appBrand", string("codex"));
    put(&mut e, "useHostedLoginSuccessPage", Json::Bool(true));
    let params = Json::Object(e);
    assert(entry_models(e@) =~= seq![
        ("type"@, jstr("chatgpt"@)),
        ("appBrand"@, jstr("codex"@)),
        ("useHostedLoginSuccessPage"@, JsonModel::Bool(true)),
    ]);
    request(id, "account/login/start", params)
}

fn thread_resume(id: i64, thread_id: &str) -> (r: Json)
    ensures
        r@ == request_json(id, "thread/resume"@, jobj(seq![("threadId"@, jstr(thread_id@))])),
{
    let mut e = no_members();
    put(&mut e, "threadId", string(thread_id));
    let params = Json::Object(e);
    assert(entry_models(e@) =~= seq![("threadId"@, jstr(thread_id@))]);
    request(id, "thread/resume", params)
}

fn thread_start(id: i64, cwd: &str) -> (r: Json)
    ensures
        r@ == request_json(id, "thread/start"@, jobj(seq![
            ("cwd"@, jstr(cwd@)),
            ("approvalPolicy"@, approval_policy()),
            ("sandbox"@, jstr("workspaceWrite"@)),
            ("serviceName"@, jstr("codex_air"@)),
        ])),
{
    let mut e = no_members();
    put(&mut e, "cwd", string(cwd));
    put(&mut e, "approvalPolicy", string("unlessTrusted"));
    put(&mut e, "sandbox", string("workspaceWrite"));
    put(&mut e, "serviceName", string("codex_air"));
    let params = Json::Object(e);
    assert(entry_models(e@) =~= seq![
        ("cwd"@, jstr(cwd@)),
        ("approvalPolicy"@, approval_policy()),
        ("sandbox"@, jstr("workspaceWrite"@)),
        ("serviceName"@, jstr("codex_air"@)),
    ]);
    request(id, "thread/start", params)
}

fn single(item: Json) -> (r: Json)
    ensures
        r@ == JsonModel::Array(seq![item@]),
{
    let mut items: Vec<Json> = Vec::new();
    let ghost m = item@;
    proof {
        crate::json::lemma_models_push(items@, item);
        assert(models(Seq::<Json>::empty()) =~= Seq::<JsonModel>::empty());
    }
    items.push(item);
    let r = array_of(items);
    assert(models(items@) =~= seq![m]);
    r
}

fn sandbox_policy(cwd: &str) -> (r: Json)
    ensures
        r@ == turn_sandbox(cwd@),
{
    let mut e = no_members();
    put(&mut e, "type", string("workspaceWrite"));
    put(&mut e, "writableRoots", single(string(cwd)));
    put(&mut e, "networkAccess", Json::Bool(true));
    let r = Json::Object(e);
    assert(entry_models(e@) =~= seq![
        ("type"@, jstr("workspaceWrite"@)),
        ("writableRoots"@, JsonModel::Array(seq![jstr(cwd@)])),
        ("networkAccess"@, JsonModel::Bool(true)),
    ]);
    r
}

fn text_input(text: &str) -> (r: Json)
    ensures
        r@ == JsonModel::Array(seq![jobj(seq![("type"@, jstr("text"@)), ("text"@, jstr(text@))])]),
{
    let mut e = no_members();
    put(&mut e, "type", string("text"));
    put(&mut e, "text", string(text));
    let item = Json::Object(e);
    assert(entry_models(e@) =~= seq![("type"@, jstr("text"@)), ("text"@, jstr(text@))]);
    single(item)
}

fn turn_start(id: i64, thread_id: &str, text: &str, cwd: &str) -> (r: Json)
    ensures
        r@ == outgoing_json(OutgoingModel::TurnStart { id, thread_id: thread_id@, text: text@, cwd: cwd@ }, Seq::empty()),
{
    let mut e = no_members();
    put(&mut e, "threadId", string(thread_id));
    let input = text_input(text);
    let ghost input_m = input@;
    put(&mut e, "input", input);
    put(&mut e, "cwd", string(cwd));
    put(&mut e, "approvalPolicy", string("unlessTrusted"));
    let sandbox = sandbox_policy(cwd);
    put(&mut e, "sandboxPolicy", sandbox);
    put(&mut e, "effort", string("medium"));
    put(&mut e, "summary", string("concise"));
    let params = Json::Object(e);
    assert(entry_models(e@) =~= seq![
        ("threadId"@, jstr(thread_id@)),
        ("input"@, input_m),
        ("cwd"@, jstr(cwd@)),
        ("approvalPolicy"@, approval_policy()),
        ("sandboxPolicy"@, turn_sandbox(cwd@)),
        ("effort"@, jstr("medium"@)),
        ("summary"@, jstr("concise"@)),
    ]);
    request(id, "turn/start", params)
}

fn error_reply(id: i64, method: &str) -> (r: Json)
    ensures
        r@ == error_reply_json(id, method@),
{
    let mut inner = no_members();
    put(&mut inner, "code", Json::Number(Some(-32601)));
    let text = crate::text::join3("Codex Air does not support ", method, ".");
    put(&mut inner, "message", Json::Str(text));
    let error = Json::Object(inner);
    assert(entry_models(inner@) =~= seq![("code"@, jint(-32601i64)), ("message"@, jstr(unsupported_text(method@)))]);
    let ghost error_m = error@;
    let mut e = no_members();
    put(&mut e, "id", Json::Number(Some(id)));
    put(&mut e, "error", error);
    let r = Json::Object(e);
    assert(entry_models(e@) =~= seq![("id"@, jint(id)), ("error"@, error_m)]);
    r
}

/// The JSON value of a message to the server; `version` is the client's version, which
/// `initialize` reports.
pub fn encode(message: &Outgoing, version: &str) -> (r: Json)
    ensures
        r@ == outgoing_json(message@, version@),
{
    match message {
        Outgoing::Initialize => request(1, "initialize", initialize_params(version)),
        Outgoing::Initialized => initialized_message(),
        Outgoing::AccountRead { id } => account_read(*id),
        Outgoing::LoginStart { id } => login_start(*id),
        Outgoing::ThreadResume { id, thread_id } => thread_resume(*id, thread_id.as_str()),
        Outgoing::ThreadStart { id, cwd } => thread_start(*id, cwd.as_str()),
        Outgoing::TurnStart { id, thread_id, text, cwd } => turn_start(*id, thread_id.as_str(), text.as_str(), cwd.as_str()),
        Outgoing::ErrorReply { id, method } => error_reply(*id, method.as_str()),
    }
}

// ---------------------------------------------------------------------------------------
// Messages from the server
// ---------------------------------------------------------------------------------------
pub open spec fn path2(m: JsonModel, a: Seq<char>, b: Seq<char>) -> Option<JsonModel> {
    at(Some(m), seq![a, b])
}

pub open spec fn path3(m: JsonModel, a: Seq<char>, b: Seq<char>, c: Seq<char>) -> Option<JsonModel> {
    at(Some(m), seq![a, b, c])
}

/// The `account` of a result: missing, `null`, or an account with the e-mail and plan it
/// names as text.
pub open spec fn account_field_of(a: Option<JsonModel>) -> AccountFieldModel {
    match a {
        None => AccountFieldModel::Missing,
        Some(JsonModel::Null) => AccountFieldModel::Null,
        Some(v) => AccountFieldModel::Present {
            email: str_value(member(v, "email"@)),
            plan: str_value(member(v, "planType"@)),
        },
    }
}

/// What the client reads of a message from the server.
pub open spec fn incoming_of(m: JsonModel) -> IncomingModel {
    IncomingModel {
        id: int_value(member(m, "id"@)),
        has_result: member(m, "result"@) is Some,
        method: str_value(member(m, "method"@)),
        auth_url: str_value(path2(m, "result"@, "authUrl"@)),
        error_message: str_value(path2(m, "error"@, "message"@)),
        thread_id: str_value(path3(m, "result"@, "thread"@, "id"@)),
        login_succeeded: path2(m, "params"@, "success"@) == Some(JsonModel::Bool(true)),
        login_error: str_value(path2(m, "params"@, "error"@)),
        reports_account: path2(m, "result"@, "requiresOpenaiAuth"@) is Some,
        account: account_field_of(path2(m, "result"@, "account"@)),
        delta: str_value(path2(m, "params"@, "delta"@)),
        item_id: str_value(path2(m, "params"@, "itemId"@)),
        item_type: str_value(path3(m, "params"@, "item"@, "type"@)),
    }
}

pub open spec fn opt_model(j: Option<&Json>) -> Option<JsonModel> {
    match j {
        Some(v) => Some(v@),
        None => None,
    }
}

fn get2<'a>(j: &'a Json, a: &str, b: &str) -> (r: Option<&'a Json>)
    ensures
        opt_model(r) == path2(j@, a@, b@),
{
    proof {
        reveal_with_fuel(at, 3);
        assert(seq![a@, b@].subrange(1, 2) =~= seq![b@]);
        assert(seq![b@].subrange(1, 1) =~= Seq::<Seq<char>>::empty());
    }
    match get(j, a) {
        Some(v) => get(v, b),
        None => None,
    }
}

fn get3<'a>(j: &'a Json, a: &str, b: &str, c: &str) -> (r: Option<&'a Json>)
    ensures
        opt_model(r) == path3(j@, a@, b@, c@),
{
    proof {
        reveal_with_fuel(at, 4);
        assert(seq![a@, b@, c@].subrange(1, 3) =~= seq![b@, c@]);
        assert(seq![b@, c@].subrange(1, 2) =~= seq![c@]);
        assert(seq![c@].subrange(1, 1) =~= Seq::<Seq<char>>::empty());
    }
    match get(j, a) {
        Some(v) => match get(v, b) {
            Some(w) => get(w, c),
            None => None,
        },
        None => None,
    }
}

fn text_at(j: Option<&Json>) -> (r: Option<String>)
    ensures
        crate::app_server::text_of(r) == str_value(opt_model(j)),
{
    str_of(j)
}

/// Reads a message from the server.
pub fn decode(message: &Json) -> (r: Incoming)
    ensures
        r@ == incoming_of(message@),
{
    let id = match get(message, "id") {
        Some(Json::Number(n)) => *n,
        _ => None,
    };
    let account = match get2(message, "result", "account") {
        None => AccountField::Missing,
        Some(Json::Null) => AccountField::Null,
        Some(v) => AccountField::Present { email: text_at(get(v, "email")), plan: text_at(get(v, "planType")) },
    };
    let login_succeeded = match get2(message, "params", "success") {
        Some(Json::Bool(b)) => *b,
        _ => false,
    };
    Incoming {
        id,
        has_result: get(message, "result").is_some(),
        method: text_at(get(message, "method")),
        auth_url: text_at(get2(message, "result", "authUrl")),
        error_message: text_at(get2(message, "error", "message")),
        thread_id: text_at(get3(message, "result", "thread", "id")),
        login_succeeded,
        login_error: text_at(get2(message, "params", "error")),
        reports_account: get2(message, "result", "requiresOpenaiAuth").is_some(),
        account,
        delta: text_at(get2(message, "params", "delta")),
        item_id: text_at(get2(message, "params", "itemId")),
        item_type: text_at(get3(message, "params", "item", "type")),
    }
}

// ---------------------------------------------------------------------------------------
// Lines of text
// ---------------------------------------------------------------------------------------
/// The JSONL text of a message to the server, without its line end: the text serde_json
/// writes for the message's JSON value.
pub fn message_text(message: &Outgoing, version: &str) -> (r: Option<String>)
    ensures
        opt_view(r) == printed(outgoing_json(message@, version@)),
{
    let value = encode(message, version);
    print(&value)
}

/// Reads one line from the server: what the client reads of the JSON value serde_json
/// parses from it, or nothing when the line is not one JSON value.
pub fn read_line(line: &str) -> (r: Option<Incoming>)
    ensures
        match parsed(line@) {
            Some(j) => r matches Some(m) && m@ == incoming_of(j),
            None => r is None,
        },
{
    match parse(line) {
        Some(value) => Some(decode(&value)),
        None => None,
    }
}

/// Handles one line from the server: the message it holds is handled by the session; a
/// line that is not one JSON value is passed over and changes nothing.
pub fn handle_line(session: &mut Session, line: &str) -> (effects: Vec<Effect>)
    requires
        old(session).next_id < i64::MAX,
    ensures
        match parsed(line@) {
            Some(j) => (final(session)@, effects_model(effects@)) == message_step(old(session)@, incoming_of(j)),
            None => final(session)@ == old(session)@ && effects@.len() == 0,
        },
{
    match read_line(line) {
        Some(message) => session.handle_message(message),
        None => Vec::new(),
    }
}

// ---------------------------------------------------------------------------------------
// Laws of the messages
// ---------------------------------------------------------------------------------------
proof fn lemma_member_at(entries: Seq<(Seq<char>, JsonModel)>, key: Seq<char>, k: int)
    requires
        first_key_at(entries, key, k),
    ensures
        member(jobj(entries), key) == Some(entries[k].1),
{
    let c = choose|c: int| first_key_at(entries, key, c);
    if c < k {
        assert(entries[c].0 != key);
    } else if k < c {
        assert(entries[k].0 != key);
    }
}

proof fn lemma_path2(m: JsonModel, a: Seq<char>, b: Seq<char>)
    ensures
        path2(m, a, b) == match member(m, a) {
            Some(v) => member(v, b),
            None => None,
        },
{
    reveal_with_fuel(at, 3);
    assert(seq![a, b].subrange(1, 2) =~= seq![b]);
    assert(seq![b].subrange(1, 1) =~= Seq::<Seq<char>>::empty());
}

proof fn lemma_path3(m: JsonModel, a: Seq<char>, b: Seq<char>, c: Seq<char>)
    ensures
        path3(m, a, b, c) == match member(m, a) {
            Some(v) => path2(v, b, c),
            None => None,
        },
{
    reveal_with_fuel(at, 2);
    assert(seq![a, b, c].subrange(1, 3) =~= seq![b, c]);
}

/// The parameters of a request.
proof fn lemma_params(id: i64, method: Seq<char>, params: JsonModel)
    ensures
        member(request_json(id, method, params), "params"@) == Some(params),
{
    reveal_strlit("id");
    reveal_strlit("method");
    reveal_strlit("params");
    let e = seq![("id"@, jint(id)), ("method"@, jstr(method)), ("params"@, params)];
    assert("id"@.len() == 2);
    assert("method"@.len() == 6);
    assert("params"@.len() == 6);
    assert(e[0].0 != "params"@);
    assert("method"@[0] != "params"@[0]);
    assert(e[1].0 != "params"@);
    assert(first_key_at(e, "params"@, 2));
    lemma_member_at(e, "params"@, 2);
}

/// Every `account/read` the client sends asks for the account as it stands, without a
/// token refresh.
pub proof fn lemma_account_read_without_refresh(id: i64, version: Seq<char>)
    ensures
        path2(outgoing_json(OutgoingModel::AccountRead { id }, version), "params"@, "refreshToken"@)
            == Some(JsonModel::Bool(false)),
{
    lemma_params(id, "account/read"@, account_read_params());
    lemma_path2(outgoing_json(OutgoingModel::AccountRead { id }, version), "params"@, "refreshToken"@);
    lemma_member_at(seq![("refreshToken"@, JsonModel::Bool(false))], "refreshToken"@, 0);
}

/// `initialize` names the client, "Codex Air", and its version.
pub proof fn lemma_initialize_names_client(version: Seq<char>)
    ensures
        path3(outgoing_json(OutgoingModel::Initialize, version), "params"@, "clientInfo"@, "name"@) == Some(jstr("Codex Air"@)),
        path3(outgoing_json(OutgoingModel::Initialize, version), "params"@, "clientInfo"@, "version"@) == Some(jstr(version)),
{
    reveal_strlit("name");
    reveal_strlit("version");
    let info = seq![("name"@, jstr("Codex Air"@)), ("version"@, jstr(version)), ("title"@, jstr("Codex Air"@))];
    let params = jobj(seq![("clientInfo"@, jobj(info))]);
    let m = outgoing_json(OutgoingModel::Initialize, version);
    lemma_params(1, "initialize"@, params);
    lemma_path3(m, "params"@, "clientInfo"@, "name"@);
    lemma_path3(m, "params"@, "clientInfo"@, "version"@);
    lemma_path2(params, "clientInfo"@, "name"@);
    lemma_path2(params, "clientInfo"@, "version"@);
    lemma_member_at(seq![("clientInfo"@, jobj(info))], "clientInfo"@, 0);
    lemma_member_at(info, "name"@, 0);
    assert("name"@.len() == 4);
    assert("version"@.len() == 7);
    assert(info[0].0 != "version"@);
    lemma_member_at(info, "version"@, 1);
}

/// A new thread runs with approval asked unless trusted, in the workspace-write sandbox.
pub proof fn lemma_thread_start_policy(id: i64, cwd: Seq<char>, version: Seq<char>)
    ensures
        path2(outgoing_json(OutgoingModel::ThreadStart { id, cwd }, version), "params"@, "approvalPolicy"@)
            == Some(approval_policy()),
        path2(outgoing_json(OutgoingModel::ThreadStart { id, cwd }, version), "params"@, "sandbox"@)
            == Some(jstr("workspaceWrite"@)),
{
    reveal_strlit("cwd");
    reveal_strlit("approvalPolicy");
    reveal_strlit("sandbox");
    let e = seq![
        ("cwd"@, jstr(cwd)),
        ("approvalPolicy"@, approval_policy()),
        ("sandbox"@, jstr("workspaceWrite"@)),
        ("serviceName"@, jstr("codex_air"@)),
    ];
    let m = outgoing_json(OutgoingModel::ThreadStart { id, cwd }, version);
    assert("cwd"@.len() == 3);
    assert("approvalPolicy"@.len() == 14);
    assert("sandbox"@.len() == 7);
    lemma_params(id, "thread/start"@, jobj(e));
    lemma_path2(m, "params"@, "approvalPolicy"@);
    lemma_path2(m, "params"@, "sandbox"@);
    assert(e[0].0 != "approvalPolicy"@);
    lemma_member_at(e, "approvalPolicy"@, 1);
    assert(e[0].0 != "sandbox"@);
    assert(e[1].0 != "sandbox"@);
    lemma_member_at(e, "sandbox"@, 2);
}

/// Every turn runs with approval asked unless trusted, and may write only in its folder.
pub proof fn lemma_turn_start_policy(id: i64, thread_id: Seq<char>, text: Seq<char>, cwd: Seq<char>, version: Seq<char>)
    ensures
        path2(outgoing_json(OutgoingModel::TurnStart { id, thread_id, text, cwd }, version), "params"@, "approvalPolicy"@)
            == Some(approval_policy()),
        path2(outgoing_json(OutgoingModel::TurnStart { id, thread_id, text, cwd }, version), "params"@, "sandboxPolicy"@)
            == Some(turn_sandbox(cwd)),
        path2(turn_sandbox(cwd), "writableRoots"@, "type"@) is None,
        member(turn_sandbox(cwd), "writableRoots"@) == Some(JsonModel::Array(seq![jstr(cwd)])),
{
    reveal_strlit("threadId");
    reveal_strlit("input");
    reveal_strlit("cwd");
    reveal_strlit("approvalPolicy");
    reveal_strlit("sandboxPolicy");
    reveal_strlit("type");
    reveal_strlit("writableRoots");
    let e = seq![
        ("threadId"@, jstr(thread_id)),
        ("input"@, JsonModel::Array(seq![jobj(seq![("type"@, jstr("text"@)), ("text"@, jstr(text))])])),
        ("cwd"@, jstr(cwd)),
        ("approvalPolicy"@, approval_policy()),
        ("sandboxPolicy"@, turn_sandbox(cwd)),
        ("effort"@, jstr("medium"@)),
        ("summary"@, jstr("concise"@)),
    ];
    let m = outgoing_json(OutgoingModel::TurnStart { id, thread_id, text, cwd }, version);
    assert("threadId"@.len() == 8);
    assert("input"@.len() == 5);
    assert("cwd"@.len() == 3);
    assert("approvalPolicy"@.len() == 14);
    assert("sandboxPolicy"@.len() == 13);
    assert("type"@.len() == 4);
    assert("writableRoots"@.len() == 13);
    lemma_params(id, "turn/start"@, jobj(e));
    lemma_path2(m, "params"@, "approvalPolicy"@);
    lemma_path2(m, "params"@, "sandboxPolicy"@);
    assert(e[0].0 != "approvalPolicy"@);
    assert(e[1].0 != "approvalPolicy"@);
    assert(e[2].0 != "approvalPolicy"@);
    lemma_member_at(e, "approvalPolicy"@, 3);
    assert(e[0].0 != "sandboxPolicy"@);
    assert(e[1].0 != "sandboxPolicy"@);
    assert(e[2].0 != "sandboxPolicy"@);
    assert(e[3].0 != "sandboxPolicy"@);
    lemma_member_at(e, "sandboxPolicy"@, 4);
    let sb = turn_sandbox(cwd)->Object_0;
    assert(sb[0].0 != "writableRoots"@);
    lemma_member_at(sb, "writableRoots"@, 1);
    lemma_path2(turn_sandbox(cwd), "writableRoots"@, "type"@);
}

/// A request of the server's own, read from its JSON, is answered by a message whose `id`
/// is the request's `id` member and whose `error` is "method not found".
pub proof fn lemma_server_request_reply(s: crate::app_server::SessionModel, j: JsonModel, version: Seq<char>)
    requires
        s.initialized,
        crate::app_server::server_request(incoming_of(j)),
        member(j, "result"@) is None,
    ensures
        ({
            let m = incoming_of(j);
            let reply = OutgoingModel::ErrorReply { id: m.id->0, method: m.method->0 };
            &&& crate::app_server::message_step(s, m) == (s, seq![crate::app_server::send(reply)])
            &&& member(outgoing_json(reply, version), "id"@) == member(j, "id"@)
            &&& path2(outgoing_json(reply, version), "error"@, "code"@) == Some(jint(-32601i64))
        }),
{
    reveal_strlit("id");
    reveal_strlit("error");
    reveal_strlit("code");
    let m = incoming_of(j);
    crate::app_server::lemma_server_requests_answered(s, m);
    let inner = seq![("code"@, jint(-32601i64)), ("message"@, jstr(unsupported_text(m.method->0)))];
    let e = seq![("id"@, jint(m.id->0)), ("error"@, jobj(inner))];
    assert("id"@.len() == 2);
    assert("error"@.len() == 5);
    lemma_member_at(e, "id"@, 0);
    assert(e[0].0 != "error"@);
    lemma_member_at(e, "error"@, 1);
    lemma_member_at(inner, "code"@, 0);
    lemma_path2(error_reply_json(m.id->0, m.method->0), "error"@, "code"@);
}

/// The opening exchange: the reply to `initialize` is answered with `initialized` and
/// `account/read` request 2, which asks for the account without a token refresh.
pub proof fn lemma_opening_exchange(s: crate::app_server::SessionModel, m: IncomingModel, version: Seq<char>)
    requires
        m.id == Some(1i64),
        m.has_result,
    ensures
        crate::app_server::message_step(s, m).1 == seq![
            crate::app_server::send(OutgoingModel::Initialized),
            crate::app_server::send(OutgoingModel::AccountRead { id: 2 }),
        ],
        crate::app_server::message_step(s, m).0.initialized,
        path2(outgoing_json(OutgoingModel::AccountRead { id: 2 }, version), "params"@, "refreshToken"@)
            == Some(JsonModel::Bool(false)),
{
    lemma_account_read_without_refresh(2, version);
}


/// Two server messages agree on every member the client reads: `id`, whether there is a
/// `result`, `method`, `result.authUrl`, `error.message`, `result.thread.id`,
/// `params.success`, `params.error`, whether there is `result.requiresOpenaiAuth`, the
/// presence of `result.account` and its `email` and `planType`, `params.delta`,
/// `params.itemId` and `params.item.type`.
pub open spec fn agree_on_read_members(a: JsonModel, b: JsonModel) -> bool {
    &&& member(a, "id"@) == member(b, "id"@)
    &&& (member(a, "result"@) is Some) == (member(b, "result"@) is Some)
    &&& member(a, "method"@) == member(b, "method"@)
    &&& path2(a, "result"@, "authUrl"@) == path2(b, "result"@, "authUrl"@)
    &&& path2(a, "error"@, "message"@) == path2(b, "error"@, "message"@)
    &&& path3(a, "result"@, "thread"@, "id"@) == path3(b, "result"@, "thread"@, "id"@)
    &&& path2(a, "params"@, "success"@) == path2(b, "params"@, "success"@)
    &&& path2(a, "params"@, "error"@) == path2(b, "params"@, "error"@)
    &&& (path2(a, "result"@, "requiresOpenaiAuth"@) is Some) == (path2(b, "result"@, "requiresOpenaiAuth"@) is Some)
    &&& (path2(a, "result"@, "account"@) is Some) == (path2(b, "result"@, "account"@) is Some)
    &&& (path2(a, "result"@, "account"@) == Some(JsonModel::Null)) == (path2(b, "result"@, "account"@) == Some(JsonModel::Null))
    &&& path3(a, "result"@, "account"@, "email"@) == path3(b, "result"@, "account"@, "email"@)
    &&& path3(a, "result"@, "account"@, "planType"@) == path3(b, "result"@, "account"@, "planType"@)
    &&& path2(a, "params"@, "delta"@) == path2(b, "params"@, "delta"@)
    &&& path2(a, "params"@, "itemId"@) == path2(b, "params"@, "itemId"@)
    &&& path3(a, "params"@, "item"@, "type"@) == path3(b, "params"@, "item"@, "type"@)
}

/// Only the members the client reads matter: two server messages that agree on them have
/// the same effect on any session, so no other member (a credential, say) ever reaches an
/// update or the session.
pub proof fn lemma_only_read_members_matter(s: crate::app_server::SessionModel, a: JsonModel, b: JsonModel)
    requires
        agree_on_read_members(a, b),
    ensures
        incoming_of(a) == incoming_of(b),
        crate::app_server::message_step(s, incoming_of(a)) == crate::app_server::message_step(s, incoming_of(b)),
{
    lemma_path3(a, "result"@, "account"@, "email"@);
    lemma_path3(b, "result"@, "account"@, "email"@);
    lemma_path3(a, "result"@, "account"@, "planType"@);
    lemma_path3(b, "result"@, "account"@, "planType"@);
    lemma_path2(a, "result"@, "account"@);
    lemma_path2(b, "result"@, "account"@);
    let pa = path2(a, "result"@, "account"@);
    let pb = path2(b, "result"@, "account"@);
    if pa is Some && pb is Some {
        lemma_path2(member(a, "result"@)->0, "account"@, "email"@);
        lemma_path2(member(b, "result"@)->0, "account"@, "email"@);
        lemma_path2(member(a, "result"@)->0, "account"@, "planType"@);
        lemma_path2(member(b, "result"@)->0, "account"@, "planType"@);
        assert(account_field_of(pa) == account_field_of(pb));
    }
    assert(incoming_of(a) == incoming_of(b));
}

/// A failed ChatGPT sign-in is reported with the reason the server gives in
/// `params.error`, or a general explanation when it gives none; nothing else of the
/// message counts (its `error.message` included), nothing is sent, and the session stays.
pub proof fn lemma_failed_sign_in_reported(s: crate::app_server::SessionModel, j: JsonModel)
    requires
        member(j, "id"@) is None,
        member(j, "method"@) == Some(jstr("account/login/completed"@)),
        path2(j, "params"@, "success"@) != Some(JsonModel::Bool(true)),
    ensures
        crate::app_server::message_step(s, incoming_of(j)) == (
            s,
            seq![crate::app_server::notify(crate::app_server::UpdateModel::Status(crate::app_server::detail_status(
                match str_value(path2(j, "params"@, "error"@)) {
                    Some(e) => e,
                    None => "ChatGPT sign-in did not complete."@,
                },
            )))],
        ),
{
}
} // verus!
