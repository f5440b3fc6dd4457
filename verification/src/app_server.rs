//! The client side of the local Codex App Server conversation.
//!
//! The server owns ChatGPT authentication and its durable Codex threads. A [`Session`]
//! holds what the client tracks of the JSONL exchange and decides, for each request from
//! the interface and each message from the server, which messages to send and which
//! updates to report. Requests of the server's own are answered, so that no turn waits on
//! the client. It never sees credentials.
use vstd::prelude::*;

use crate::text::{join2, same_text};

verus! {

/// The account as the App Server reports it.
#[derive(Clone, Debug)]
pub struct AccountStatus {
    pub connected: bool,
    pub email: Option<String>,
    pub plan: Option<String>,
    pub detail: Option<String>,
}

impl Default for AccountStatus {
    fn default() -> (r: Self)
        ensures
            !r.connected,
            r.email is None,
            r.plan is None,
            r.detail is None,
    {
        AccountStatus { connected: false, email: None, plan: None, detail: None }
    }
}

/// What the interface learns from the connection.
#[derive(Clone, Debug)]
pub enum Update {
    Status(AccountStatus),
    LoginUrl(String),
    ThreadStarted { workspace: u128, thread_id: String },
    Activity(String),
    /// A fragment of the output of the streamed item `item_id`.
    Streamed { item_id: String, text: String },
    TurnFinished,
    Error(String),
}

/// What the interface asks of the connection.
#[derive(Clone, Debug)]
pub enum Request {
    StartChatGptLogin,
    Refresh,
    StartTurn { workspace: u128, cwd: String, text: String, thread_id: Option<String> },
}

/// A message for the server. Requests carry their request identifier.
#[derive(Clone, Debug)]
pub enum Outgoing {
    /// `initialize`, request 1.
    Initialize,
    /// The `initialized` notification.
    Initialized,
    /// `account/read` without a token refresh.
    AccountRead { id: i64 },
    /// `account/login/start` for the ChatGPT flow.
    LoginStart { id: i64 },
    /// `thread/resume` of an existing thread.
    ThreadResume { id: i64, thread_id: String },
    /// `thread/start` in `cwd`.
    ThreadStart { id: i64, cwd: String },
    /// `turn/start` with the user's text.
    TurnStart { id: i64, thread_id: String, text: String, cwd: String },
    /// The error response to the server's request `id`, whose `method` the client does not
    /// handle.
    ErrorReply { id: i64, method: String },
}

/// One thing to do: send a message to the server, or report an update.
#[derive(Clone, Debug)]
pub enum Effect {
    Send(Outgoing),
    Notify(Update),
}

/// The `account` member of a server result.
#[derive(Clone, Debug)]
pub enum AccountField {
    Missing,
    Null,
    Present { email: Option<String>, plan: Option<String> },
}

/// What the client reads of one server message. Text members are present only when the
/// message holds a string there; `id` only when it holds an integer.
#[derive(Clone, Debug)]
pub struct Incoming {
    /// `id`
    pub id: Option<i64>,
    /// The message has a `result` member.
    pub has_result: bool,
    /// `method`
    pub method: Option<String>,
    /// `result.authUrl`
    pub auth_url: Option<String>,
    /// `error.message`
    pub error_message: Option<String>,
    /// `result.thread.id`
    pub thread_id: Option<String>,
    /// `params.success` is `true`.
    pub login_succeeded: bool,
    /// `params.error`
    pub login_error: Option<String>,
    /// `result` has a `requiresOpenaiAuth` member.
    pub reports_account: bool,
    /// `result.account`
    pub account: AccountField,
    /// `params.delta`
    pub delta: Option<String>,
    /// `params.itemId`
    pub item_id: Option<String>,
    /// `params.item.type`
    pub item_type: Option<String>,
}

/// A thread request that awaits its reply, with the turn to start once it has one.
#[derive(Clone, Debug)]
pub struct PendingThread {
    pub id: i64,
    pub workspace: u128,
    pub cwd: String,
    pub text: String,
}

/// What the client tracks of the conversation with the server.
#[derive(Clone, Debug)]
pub struct Session {
    pub initialized: bool,
    pub next_id: i64,
    pub login_id: Option<i64>,
    pub thread_start: Option<PendingThread>,
    pub turn_start: Option<i64>,
}

// ---------------------------------------------------------------------------------------
// Models
// ---------------------------------------------------------------------------------------
pub open spec fn text_of(o: Option<String>) -> Option<Seq<char>> {
    match o {
        Some(s) => Some(s@),
        None => None,
    }
}

pub struct AccountModel {
    pub connected: bool,
    pub email: Option<Seq<char>>,
    pub plan: Option<Seq<char>>,
    pub detail: Option<Seq<char>>,
}

pub enum UpdateModel {
    Status(AccountModel),
    LoginUrl(Seq<char>),
    ThreadStarted { workspace: u128, thread_id: Seq<char> },
    Activity(Seq<char>),
    Streamed { item_id: Seq<char>, text: Seq<char> },
    TurnFinished,
    Error(Seq<char>),
}

pub enum OutgoingModel {
    Initialize,
    Initialized,
    AccountRead { id: i64 },
    LoginStart { id: i64 },
    ThreadResume { id: i64, thread_id: Seq<char> },
    ThreadStart { id: i64, cwd: Seq<char> },
    TurnStart { id: i64, thread_id: Seq<char>, text: Seq<char>, cwd: Seq<char> },
    ErrorReply { id: i64, method: Seq<char> },
}

pub enum EffectModel {
    Send(OutgoingModel),
    Notify(UpdateModel),
}

pub struct PendingModel {
    pub id: i64,
    pub workspace: u128,
    pub cwd: Seq<char>,
    pub text: Seq<char>,
}

pub struct SessionModel {
    pub initialized: bool,
    pub next_id: i64,
    pub login_id: Option<i64>,
    pub thread_start: Option<PendingModel>,
    pub turn_start: Option<i64>,
}

pub enum RequestModel {
    StartChatGptLogin,
    Refresh,
    StartTurn { workspace: u128, cwd: Seq<char>, text: Seq<char>, thread_id: Option<Seq<char>> },
}

pub enum AccountFieldModel {
    Missing,
    Null,
    Present { email: Option<Seq<char>>, plan: Option<Seq<char>> },
}

pub struct IncomingModel {
    pub id: Option<i64>,
    pub has_result: bool,
    pub method: Option<Seq<char>>,
    pub auth_url: Option<Seq<char>>,
    pub error_message: Option<Seq<char>>,
    pub thread_id: Option<Seq<char>>,
    pub login_succeeded: bool,
    pub login_error: Option<Seq<char>>,
    pub reports_account: bool,
    pub account: AccountFieldModel,
    pub delta: Option<Seq<char>>,
    pub item_id: Option<Seq<char>>,
    pub item_type: Option<Seq<char>>,
}

impl View for AccountStatus {
    type V = AccountModel;

    open spec fn view(&self) -> AccountModel {
        AccountModel {
            connected: self.connected,
            email: text_of(self.email),
            plan: text_of(self.plan),
            detail: text_of(self.detail),
        }
    }
}

impl View for Update {
    type V = UpdateModel;

    open spec fn view(&self) -> UpdateModel {
        match self {
            Update::Status(s) => UpdateModel::Status(s@),
            Update::LoginUrl(u) => UpdateModel::LoginUrl(u@),
            Update::ThreadStarted { workspace, thread_id } => UpdateModel::ThreadStarted {
                workspace: *workspace,
                thread_id: thread_id@,
            },
            Update::Activity(a) => UpdateModel::Activity(a@),
            Update::Streamed { item_id, text } => UpdateModel::Streamed { item_id: item_id@, text: text@ },
            Update::TurnFinished => UpdateModel::TurnFinished,
            Update::Error(e) => UpdateModel::Error(e@),
        }
    }
}

impl View for Outgoing {
    type V = OutgoingModel;

    open spec fn view(&self) -> OutgoingModel {
        match self {
            Outgoing::Initialize => OutgoingModel::Initialize,
            Outgoing::Initialized => OutgoingModel::Initialized,
            Outgoing::AccountRead { id } => OutgoingModel::AccountRead { id: *id },
            Outgoing::LoginStart { id } => OutgoingModel::LoginStart { id: *id },
            Outgoing::ThreadResume { id, thread_id } => OutgoingModel::ThreadResume {
                id: *id,
                thread_id: thread_id@,
            },
            Outgoing::ThreadStart { id, cwd } => OutgoingModel::ThreadStart { id: *id, cwd: cwd@ },
            Outgoing::TurnStart { id, thread_id, text, cwd } => OutgoingModel::TurnStart {
                id: *id,
                thread_id: thread_id@,
                text: text@,
                cwd: cwd@,
            },
            Outgoing::ErrorReply { id, method } => OutgoingModel::ErrorReply { id: *id, method: method@ },
        }
    }
}

impl View for Effect {
    type V = EffectModel;

    open spec fn view(&self) -> EffectModel {
        match self {
            Effect::Send(o) => EffectModel::Send(o@),
            Effect::Notify(u) => EffectModel::Notify(u@),
        }
    }
}

impl View for Session {
    type V = SessionModel;

    open spec fn view(&self) -> SessionModel {
        SessionModel {
            initialized: self.initialized,
            next_id: self.next_id,
            login_id: self.login_id,
            thread_start: match self.thread_start {
                Some(p) => Some(PendingModel { id: p.id, workspace: p.workspace, cwd: p.cwd@, text: p.text@ }),
                None => None,
            },
            turn_start: self.turn_start,
        }
    }
}

impl View for Request {
    type V = RequestModel;

    open spec fn view(&self) -> RequestModel {
        match self {
            Request::StartChatGptLogin => RequestModel::StartChatGptLogin,
            Request::Refresh => RequestModel::Refresh,
            Request::StartTurn { workspace, cwd, text, thread_id } => RequestModel::StartTurn {
                workspace: *workspace,
                cwd: cwd@,
                text: text@,
                thread_id: text_of(*thread_id),
            },
        }
    }
}

impl View for Incoming {
    type V = IncomingModel;

    open spec fn view(&self) -> IncomingModel {
        IncomingModel {
            id: self.id,
            has_result: self.has_result,
            method: text_of(self.method),
            auth_url: text_of(self.auth_url),
            error_message: text_of(self.error_message),
            thread_id: text_of(self.thread_id),
            login_succeeded: self.login_succeeded,
            login_error: text_of(self.login_error),
            reports_account: self.reports_account,
            account: match self.account {
                AccountField::Missing => AccountFieldModel::Missing,
                AccountField::Null => AccountFieldModel::Null,
                AccountField::Present { email, plan } => AccountFieldModel::Present {
                    email: text_of(email),
                    plan: text_of(plan),
                },
            },
            delta: text_of(self.delta),
            item_id: text_of(self.item_id),
            item_type: text_of(self.item_type),
        }
    }
}

pub open spec fn effects_model(effects: Seq<Effect>) -> Seq<EffectModel> {
    effects.map_values(|e: Effect| e@)
}

// ---------------------------------------------------------------------------------------
// The conversation
// ---------------------------------------------------------------------------------------
/// A status that carries only an explanation.
pub open spec fn detail_status(detail: Seq<char>) -> AccountModel {
    AccountModel { connected: false, email: None, plan: None, detail: Some(detail) }
}

pub open spec fn notify(u: UpdateModel) -> EffectModel {
    EffectModel::Notify(u)
}

pub open spec fn send(o: OutgoingModel) -> EffectModel {
    EffectModel::Send(o)
}

/// A thread or a turn is being started.
pub open spec fn busy(s: SessionModel) -> bool {
    s.thread_start is Some || s.turn_start is Some
}

/// The request identifiers that are still unused: every one from `next_id` on.
pub open spec fn session_valid(s: SessionModel) -> bool {
    &&& 3 <= s.next_id
    &&& (s.login_id matches Some(id) ==> id < s.next_id)
    &&& (s.thread_start matches Some(p) ==> p.id < s.next_id)
    &&& (s.turn_start matches Some(id) ==> id < s.next_id)
    &&& !(s.thread_start is Some && s.turn_start is Some)
}

/// What a request from the interface does to the session, and the effects it has.
pub open spec fn request_step(s: SessionModel, r: RequestModel) -> (SessionModel, Seq<EffectModel>) {
    if !s.initialized {
        (s, seq![notify(UpdateModel::Status(detail_status("Connecting to Codex App Server…"@)))])
    } else {
        match r {
            RequestModel::StartChatGptLogin => if s.login_id is None {
                (
                    SessionModel { next_id: (s.next_id + 1) as i64, login_id: Some(s.next_id), ..s },
                    seq![send(OutgoingModel::LoginStart { id: s.next_id })],
                )
            } else {
                (s, seq![])
            },
            RequestModel::Refresh => (
                SessionModel { next_id: (s.next_id + 1) as i64, ..s },
                seq![send(OutgoingModel::AccountRead { id: s.next_id })],
            ),
            RequestModel::StartTurn { workspace, cwd, text, thread_id } => if busy(s) {
                (s, seq![notify(UpdateModel::Error("Codex is already working on this workspace."@))])
            } else {
                (
                    SessionModel {
                        next_id: (s.next_id + 1) as i64,
                        thread_start: Some(PendingModel { id: s.next_id, workspace, cwd, text }),
                        ..s
                    },
                    match thread_id {
                        Some(t) => seq![
                            notify(UpdateModel::Activity("Resuming Codex session…"@)),
                            send(OutgoingModel::ThreadResume { id: s.next_id, thread_id: t }),
                        ],
                        None => seq![
                            notify(UpdateModel::Activity("Starting Codex session…"@)),
                            send(OutgoingModel::ThreadStart { id: s.next_id, cwd }),
                        ],
                    },
                )
            },
        }
    }
}

/// The account status reported by an `account/read` result.
pub open spec fn reported_status(a: AccountFieldModel) -> AccountModel {
    match a {
        AccountFieldModel::Present { email, plan } => AccountModel { connected: true, email, plan, detail: None },
        _ => AccountModel { connected: false, email: None, plan: None, detail: None },
    }
}

/// Updates for a message that is not the reply to a tracked request: an account report,
/// and streamed activity or the end of a turn. A fragment of a streamed item goes out with
/// the item's identifier, so that the item's fragments are gathered in one place.
pub open spec fn event_effects(m: IncomingModel) -> Seq<EffectModel> {
    let status: Seq<EffectModel> = if m.reports_account {
        seq![notify(UpdateModel::Status(reported_status(m.account)))]
    } else {
        seq![]
    };
    let stream: Seq<EffectModel> = match m.method {
        Some(method) => if method == "item/agentMessage/delta"@ || method == "item/reasoning/summaryTextDelta"@
            || method == "item/commandExecution/outputDelta"@ {
            match m.delta {
                Some(d) => match m.item_id {
                    Some(item_id) => seq![notify(UpdateModel::Streamed { item_id, text: d })],
                    None => seq![notify(UpdateModel::Activity(d))],
                },
                None => seq![],
            }
        } else if method == "item/started"@ {
            match m.item_type {
                Some(k) => seq![notify(UpdateModel::Activity("Codex: "@ + k))],
                None => seq![],
            }
        } else if method == "turn/completed"@ {
            seq![notify(UpdateModel::TurnFinished)]
        } else {
            seq![]
        },
        None => seq![],
    };
    status + stream
}

/// A request of the server's own: it carries an identifier and a method. The client
/// handles none of them.
pub open spec fn server_request(m: IncomingModel) -> bool {
    m.id is Some && m.method is Some
}

/// What a message from the server does to the session, and the effects it has. Once the
/// connection is initialized, each request of the server's own is answered at once with an
/// error that carries its identifier, so that no turn waits on the client.
pub open spec fn message_step(s: SessionModel, m: IncomingModel) -> (SessionModel, Seq<EffectModel>) {
    if m.id == Some(1i64) && m.has_result {
        (
            SessionModel { initialized: true, ..s },
            seq![send(OutgoingModel::Initialized), send(OutgoingModel::AccountRead { id: 2 })],
        )
    } else if s.initialized && server_request(m) {
        (s, seq![send(OutgoingModel::ErrorReply { id: m.id->0, method: m.method->0 })])
    } else if s.login_id is Some && m.id == s.login_id {
        (
            SessionModel { login_id: None, ..s },
            match m.auth_url {
                Some(url) => seq![
                    notify(UpdateModel::LoginUrl(url)),
                    notify(UpdateModel::Status(detail_status("Finish signing in in your browser. Codex Air will update automatically."@))),
                ],
                None => match m.error_message {
                    Some(e) => seq![notify(UpdateModel::Status(detail_status(e)))],
                    None => seq![],
                },
            },
        )
    } else if s.thread_start is Some && m.id == Some(s.thread_start->0.id) {
        let p = s.thread_start->0;
        match m.thread_id {
            None => (
                SessionModel { thread_start: None, ..s },
                seq![notify(UpdateModel::Error(match m.error_message {
                    Some(e) => e,
                    None => "Codex could not start a session."@,
                }))],
            ),
            Some(t) => (
                SessionModel { thread_start: None, turn_start: Some(s.next_id), next_id: (s.next_id + 1) as i64, ..s },
                seq![
                    notify(UpdateModel::ThreadStarted { workspace: p.workspace, thread_id: t }),
                    send(OutgoingModel::TurnStart { id: s.next_id, thread_id: t, text: p.text, cwd: p.cwd }),
                ],
            ),
        }
    } else if s.turn_start is Some && m.id == s.turn_start {
        (
            SessionModel { turn_start: None, ..s },
            match m.error_message {
                Some(e) => seq![notify(UpdateModel::Error(e))],
                None => seq![],
            },
        )
    } else if m.method == Some("account/login/completed"@) {
        if m.login_succeeded {
            (SessionModel { next_id: (s.next_id + 1) as i64, ..s }, seq![send(OutgoingModel::AccountRead { id: s.next_id })])
        } else {
            (
                s,
                seq![notify(UpdateModel::Status(detail_status(match m.login_error {
                    Some(e) => e,
                    None => "ChatGPT sign-in did not complete."@,
                })))],
            )
        }
    } else {
        (s, event_effects(m))
    }
}

fn detail_status_value(detail: String) -> (r: AccountStatus)
    ensures
        r@ == detail_status(detail@),
{
    AccountStatus { connected: false, email: None, plan: None, detail: Some(detail) }
}

/// The status reported when the App Server process could not be started, with the
/// system's reason.
pub fn start_failed(reason: &str) -> (r: Update)
    ensures
        r@ == UpdateModel::Status(detail_status("Could not start Codex App Server: "@ + reason@)),
{
    Update::Status(detail_status_value(join2("Could not start Codex App Server: ", reason)))
}

fn is_method(method: &Option<String>, name: &str) -> (r: bool)
    ensures
        r == (text_of(*method) == Some(name@)),
{
    match method {
        Some(m) => same_text(m.as_str(), name),
        None => false,
    }
}

impl Session {
    /// A new session and the `initialize` request that opens it.
    pub fn start() -> (r: (Session, Effect))
        ensures
            r.0@ == opening_session(),
            r.1@ == send(OutgoingModel::Initialize),
            session_valid(r.0@),
    {
        (
            Session { initialized: false, next_id: 3, login_id: None, thread_start: None, turn_start: None },
            Effect::Send(Outgoing::Initialize),
        )
    }

    /// Handles a request from the interface.
    pub fn handle_request(&mut self, request: Request) -> (effects: Vec<Effect>)
        requires
            old(self).next_id < i64::MAX,
        ensures
            (final(self)@, effects_model(effects@)) == request_step(old(self)@, request@),
            session_valid(old(self)@) ==> session_valid(final(self)@),
    {
        let mut effects: Vec<Effect> = Vec::new();
        if !self.initialized {
            effects.push(Effect::Notify(Update::Status(detail_status_value("Connecting to Codex App Server…".to_owned()))));
            assert(effects_model(effects@) =~= request_step(old(self)@, request@).1);
            return effects;
        }
        match request {
            Request::StartChatGptLogin => {
                if self.login_id.is_none() {
                    let id = self.next_id;
                    self.next_id = self.next_id + 1;
                    self.login_id = Some(id);
                    effects.push(Effect::Send(Outgoing::LoginStart { id }));
                }
            },
            Request::Refresh => {
                let id = self.next_id;
                self.next_id = self.next_id + 1;
                effects.push(Effect::Send(Outgoing::AccountRead { id }));
            },
            Request::StartTurn { workspace, cwd, text, thread_id } => {
                if self.thread_start.is_some() || self.turn_start.is_some() {
                    effects.push(Effect::Notify(Update::Error("Codex is already working on this workspace.".to_owned())));
                } else {
                    let id = self.next_id;
                    self.next_id = self.next_id + 1;
                    let start_cwd = cwd.clone();
                    self.thread_start = Some(PendingThread { id, workspace, cwd, text });
                    match thread_id {
                        Some(thread_id) => {
                            effects.push(Effect::Notify(Update::Activity("Resuming Codex session…".to_owned())));
                            effects.push(Effect::Send(Outgoing::ThreadResume { id, thread_id }));
                        },
                        None => {
                            effects.push(Effect::Notify(Update::Activity("Starting Codex session…".to_owned())));
                            effects.push(Effect::Send(Outgoing::ThreadStart { id, cwd: start_cwd }));
                        },
                    }
                }
            },
        }
        assert(effects_model(effects@) =~= request_step(old(self)@, request@).1);
        effects
    }

    /// Handles one message from the server.
    pub fn handle_message(&mut self, message: Incoming) -> (effects: Vec<Effect>)
        requires
            old(self).next_id < i64::MAX,
        ensures
            (final(self)@, effects_model(effects@)) == message_step(old(self)@, message@),
            session_valid(old(self)@) ==> session_valid(final(self)@),
    {
        let mut effects: Vec<Effect> = Vec::new();
        if message.id == Some(1i64) && message.has_result {
            self.initialized = true;
            effects.push(Effect::Send(Outgoing::Initialized));
            effects.push(Effect::Send(Outgoing::AccountRead { id: 2 }));
            assert(effects_model(effects@) =~= message_step(old(self)@, message@).1);
            return effects;
        }
        if self.initialized && message.id.is_some() && message.method.is_some() {
            let id = message.id.unwrap();
            let method = message.method.unwrap();
            effects.push(Effect::Send(Outgoing::ErrorReply { id, method }));
            assert(effects_model(effects@) =~= message_step(old(self)@, message@).1);
            return effects;
        }
        if self.login_id.is_some() && message.id == self.login_id {
            self.login_id = None;
            match message.auth_url {
                Some(url) => {
                    effects.push(Effect::Notify(Update::LoginUrl(url)));
                    effects.push(Effect::Notify(Update::Status(detail_status_value(
                        "Finish signing in in your browser. Codex Air will update automatically.".to_owned(),
                    ))));
                },
                None => match message.error_message {
                    Some(error) => effects.push(Effect::Notify(Update::Status(detail_status_value(error)))),
                    None => {},
                },
            }
            assert(effects_model(effects@) =~= message_step(old(self)@, message@).1);
            return effects;
        }
        let thread_reply = match &self.thread_start {
            Some(pending) => message.id == Some(pending.id),
            None => false,
        };
        if thread_reply {
            let pending = self.thread_start.take().unwrap();
            match message.thread_id {
                None => {
                    let detail = match message.error_message {
                        Some(error) => error,
                        None => "Codex could not start a session.".to_owned(),
                    };
                    effects.push(Effect::Notify(Update::Error(detail)));
                },
                Some(thread_id) => {
                    let request_id = self.next_id;
                    self.next_id = self.next_id + 1;
                    self.turn_start = Some(request_id);
                    effects.push(Effect::Notify(Update::ThreadStarted { workspace: pending.workspace, thread_id: thread_id.clone() }));
                    effects.push(Effect::Send(Outgoing::TurnStart { id: request_id, thread_id, text: pending.text, cwd: pending.cwd }));
                },
            }
            assert(effects_model(effects@) =~= message_step(old(self)@, message@).1);
            return effects;
        }
        if self.turn_start.is_some() && message.id == self.turn_start {
            self.turn_start = None;
            if let Some(error) = message.error_message {
                effects.push(Effect::Notify(Update::Error(error)));
            }
            assert(effects_model(effects@) =~= message_step(old(self)@, message@).1);
            return effects;
        }
        if is_method(&message.method, "account/login/completed") {
            if message.login_succeeded {
                let id = self.next_id;
                self.next_id = self.next_id + 1;
                effects.push(Effect::Send(Outgoing::AccountRead { id }));
            } else {
                let detail = match message.login_error {
                    Some(error) => error,
                    None => "ChatGPT sign-in did not complete.".to_owned(),
                };
                effects.push(Effect::Notify(Update::Status(detail_status_value(detail))));
            }
            assert(effects_model(effects@) =~= message_step(old(self)@, message@).1);
            return effects;
        }
        let ghost m = message@;
        if message.reports_account {
            let status = match message.account {
                AccountField::Present { email, plan } => AccountStatus { connected: true, email, plan, detail: None },
                _ => AccountStatus { connected: false, email: None, plan: None, detail: None },
            };
            effects.push(Effect::Notify(Update::Status(status)));
        }
        let streamed = is_method(&message.method, "item/agentMessage/delta") || is_method(&message.method, "item/reasoning/summaryTextDelta")
            || is_method(&message.method, "item/commandExecution/outputDelta");
        if streamed {
            if let Some(delta) = message.delta {
                match message.item_id {
                    Some(item_id) => effects.push(Effect::Notify(Update::Streamed { item_id, text: delta })),
                    None => effects.push(Effect::Notify(Update::Activity(delta))),
                }
            }
        } else if is_method(&message.method, "item/started") {
            if let Some(kind) = message.item_type {
                effects.push(Effect::Notify(Update::Activity(join2("Codex: ", kind.as_str()))));
            }
        } else if is_method(&message.method, "turn/completed") {
            effects.push(Effect::Notify(Update::TurnFinished));
        }
        assert(effects_model(effects@) =~= event_effects(m));
        effects
    }
}


// ---------------------------------------------------------------------------------------
// Laws of the conversation
// ---------------------------------------------------------------------------------------
/// The request identifier a message carries, if it is a request of the client's. An error
/// response carries the server's identifier, which is not the client's to choose.
pub open spec fn request_id(o: OutgoingModel) -> Option<i64> {
    match o {
        OutgoingModel::Initialize => Some(1),
        OutgoingModel::Initialized => None,
        OutgoingModel::AccountRead { id } => Some(id),
        OutgoingModel::LoginStart { id } => Some(id),
        OutgoingModel::ThreadResume { id, .. } => Some(id),
        OutgoingModel::ThreadStart { id, .. } => Some(id),
        OutgoingModel::TurnStart { id, .. } => Some(id),
        OutgoingModel::ErrorReply { .. } => None,
    }
}

/// Every request among `effects` carries an identifier in `lo..hi`, and no two carry the same.
pub open spec fn ids_within(effects: Seq<EffectModel>, lo: int, hi: int) -> bool {
    &&& forall|k: int| 0 <= k < effects.len() && #[trigger] effects[k] is Send && request_id(effects[k]->Send_0) is Some ==> lo <= request_id(effects[k]->Send_0)->0 < hi
    &&& forall|k: int, l: int| 0 <= k < l < effects.len() && #[trigger] effects[k] is Send && #[trigger] effects[l] is Send && request_id(effects[k]->Send_0) is Some && request_id(effects[l]->Send_0) is Some ==> request_id(effects[k]->Send_0) != request_id(effects[l]->Send_0)
}

/// No message is sent.
pub open spec fn sends_nothing(effects: Seq<EffectModel>) -> bool {
    forall|k: int| 0 <= k < effects.len() ==> !(#[trigger] effects[k] is Send)
}

/// Requests from the interface only ever use fresh request identifiers: each request the
/// step sends carries an identifier from the unused range, and the unused range only shrinks
/// from below. Identifiers are therefore never reused.
pub proof fn lemma_request_ids_fresh(s: SessionModel, r: RequestModel)
    requires
        session_valid(s),
        s.next_id < i64::MAX,
    ensures
        ids_within(request_step(s, r).1, s.next_id as int, request_step(s, r).0.next_id as int),
        s.next_id <= request_step(s, r).0.next_id,
        session_valid(request_step(s, r).0),
{
}

/// Messages from the server only make the client use fresh request identifiers, except
/// that the reply to `initialize` is answered with the fixed `account/read` request 2.
pub proof fn lemma_message_ids_fresh(s: SessionModel, m: IncomingModel)
    requires
        session_valid(s),
        s.next_id < i64::MAX,
    ensures
        !(m.id == Some(1i64) && m.has_result) ==> ids_within(message_step(s, m).1, s.next_id as int, message_step(s, m).0.next_id as int),
        s.next_id <= message_step(s, m).0.next_id,
        session_valid(message_step(s, m).0),
{
    lemma_events_only_notify(m);
}

/// Before the server has answered `initialize`, requests from the interface send nothing
/// and leave the session unchanged; the interface is told that the connection is starting.
pub proof fn lemma_uninitialized_requests_wait(s: SessionModel, r: RequestModel)
    requires
        !s.initialized,
    ensures
        request_step(s, r).0 == s,
        sends_nothing(request_step(s, r).1),
        request_step(s, r).1 == seq![notify(UpdateModel::Status(detail_status("Connecting to Codex App Server…"@)))],
{
}

/// While a thread or turn is being started, another task is refused: nothing is sent, the
/// session is unchanged and the interface gets an error.
pub proof fn lemma_one_task_at_a_time(s: SessionModel, workspace: u128, cwd: Seq<char>, text: Seq<char>, thread_id: Option<Seq<char>>)
    requires
        s.initialized,
        busy(s),
    ensures
        request_step(s, RequestModel::StartTurn { workspace, cwd, text, thread_id }).0 == s,
        sends_nothing(request_step(s, RequestModel::StartTurn { workspace, cwd, text, thread_id }).1),
        request_step(s, RequestModel::StartTurn { workspace, cwd, text, thread_id }).1
            == seq![notify(UpdateModel::Error("Codex is already working on this workspace."@))],
{
}

/// At most one ChatGPT sign-in request is outstanding: asking again while one is pending
/// sends nothing.
pub proof fn lemma_one_login_at_a_time(s: SessionModel)
    requires
        s.initialized,
        s.login_id is Some,
    ensures
        request_step(s, RequestModel::StartChatGptLogin).0 == s,
        request_step(s, RequestModel::StartChatGptLogin).1.len() == 0,
{
}
/// Once the connection is initialized, every request of the server's own is answered with
/// an error response that carries its identifier and method; the session is unchanged and
/// nothing else happens.
pub proof fn lemma_server_requests_answered(s: SessionModel, m: IncomingModel)
    requires
        s.initialized,
        server_request(m),
        !m.has_result,
    ensures
        message_step(s, m) == (s, seq![send(OutgoingModel::ErrorReply { id: m.id->0, method: m.method->0 })]),
{
}

/// `effects` send the `initialized` notification.
pub open spec fn sends_initialized(effects: Seq<EffectModel>) -> bool {
    exists|k: int| 0 <= k < effects.len() && #[trigger] effects[k] == send(OutgoingModel::Initialized)
}

/// Messages that are not replies to tracked requests only ever notify the interface.
proof fn lemma_events_only_notify(m: IncomingModel)
    ensures
        sends_nothing(event_effects(m)),
{
    let status: Seq<EffectModel> = if m.reports_account {
        seq![notify(UpdateModel::Status(reported_status(m.account)))]
    } else {
        seq![]
    };
    assert forall|k: int| 0 <= k < event_effects(m).len() implies !(#[trigger] event_effects(m)[k] is Send) by {
        if k < status.len() {
            assert(event_effects(m)[k] == status[k]);
        } else {
            assert(event_effects(m)[k] == event_effects(m).subrange(status.len() as int, event_effects(m).len() as int)[k - status.len()]);
        }
    }
}

/// The client sends `initialized` only in reply to the result of its `initialize` request,
/// and requests from the interface never send it.
pub proof fn lemma_initialized_only_after_initialize(s: SessionModel, m: IncomingModel, r: RequestModel)
    ensures
        sends_initialized(message_step(s, m).1) ==> m.id == Some(1i64) && m.has_result,
        !sends_initialized(request_step(s, r).1),
{
    lemma_events_only_notify(m);
    if sends_initialized(message_step(s, m).1) && !(m.id == Some(1i64) && m.has_result) {
        let effects = message_step(s, m).1;
        let k = choose|k: int| 0 <= k < effects.len() && #[trigger] effects[k] == send(OutgoingModel::Initialized);
        assert(effects[k] is Send);
    }
    if sends_initialized(request_step(s, r).1) {
        let effects = request_step(s, r).1;
        let k = choose|k: int| 0 <= k < effects.len() && #[trigger] effects[k] == send(OutgoingModel::Initialized);
    }
}

// ---------------------------------------------------------------------------------------
// The conversation over time
// ---------------------------------------------------------------------------------------
/// What reaches the session: a request from the interface or a message from the server.
pub enum EventModel {
    Request(RequestModel),
    Message(IncomingModel),
}

/// One event's step.
pub open spec fn event_step(s: SessionModel, e: EventModel) -> (SessionModel, Seq<EffectModel>) {
    match e {
        EventModel::Request(r) => request_step(s, r),
        EventModel::Message(m) => message_step(s, m),
    }
}

/// The session after `events`, one at a time in order, and all their effects in order.
pub open spec fn run_events(s: SessionModel, events: Seq<EventModel>) -> (SessionModel, Seq<EffectModel>)
    decreases events.len(),
{
    if events.len() == 0 {
        (s, seq![])
    } else {
        let before = run_events(s, events.drop_last());
        let last = event_step(before.0, events.last());
        (last.0, before.1 + last.1)
    }
}

/// The session as `Session::start` makes it.
pub open spec fn opening_session() -> SessionModel {
    SessionModel { initialized: false, next_id: 3, login_id: None, thread_start: None, turn_start: None }
}

/// The server's answer to `initialize`.
pub open spec fn answers_initialize(m: IncomingModel) -> bool {
    m.id == Some(1i64) && m.has_result
}

/// An event that may come before the answer to `initialize`: any request from the
/// interface, and any message but that answer and a finished sign-in.
pub open spec fn before_initialized(e: EventModel) -> bool {
    match e {
        EventModel::Request(_) => true,
        EventModel::Message(m) => !answers_initialize(m) && m.method != Some("account/login/completed"@),
    }
}

proof fn lemma_sends_nothing_concat(a: Seq<EffectModel>, b: Seq<EffectModel>)
    requires
        sends_nothing(a),
        sends_nothing(b),
    ensures
        sends_nothing(a + b),
{
    assert forall|k: int| 0 <= k < (a + b).len() implies !(#[trigger] (a + b)[k] is Send) by {
        if k < a.len() {
            assert((a + b)[k] == a[k]);
        } else {
            assert((a + b)[k] == b[k - a.len()]);
        }
    }
}

/// The opening handshake. Until the server answers `initialize`, whatever the interface
/// asks and whatever else the server sends (but a finished sign-in), the session stays as
/// it started and the client sends nothing, so `initialize` is the only message written.
/// The answer is met with `initialized` and then `account/read` request 2, and the session
/// is initialized.
pub proof fn lemma_handshake(events: Seq<EventModel>, answer: IncomingModel)
    requires
        forall|k: int| 0 <= k < events.len() ==> before_initialized(#[trigger] events[k]),
        answers_initialize(answer),
    ensures
        run_events(opening_session(), events).0 == opening_session(),
        sends_nothing(run_events(opening_session(), events).1),
        run_events(opening_session(), events.push(EventModel::Message(answer))).0
            == (SessionModel { initialized: true, ..opening_session() }),
        run_events(opening_session(), events.push(EventModel::Message(answer))).1
            == run_events(opening_session(), events).1 + seq![
                send(OutgoingModel::Initialized),
                send(OutgoingModel::AccountRead { id: 2 }),
            ],
    decreases events.len(),
{
    let s0 = opening_session();
    if events.len() > 0 {
        let rest = events.drop_last();
        assert forall|k: int| 0 <= k < rest.len() implies before_initialized(#[trigger] rest[k]) by {
            assert(rest[k] == events[k]);
        }
        lemma_handshake(rest, answer);
        let e = events.last();
        assert(before_initialized(events[events.len() - 1]));
        match e {
            EventModel::Request(r) => {
                lemma_uninitialized_requests_wait(s0, r);
            },
            EventModel::Message(m) => {
                lemma_events_only_notify(m);
            },
        }
        lemma_sends_nothing_concat(run_events(s0, rest).1, event_step(s0, e).1);
    } else {
        assert(sends_nothing(Seq::<EffectModel>::empty()));
    }
    let all = events.push(EventModel::Message(answer));
    assert(all.drop_last() =~= events);
}

/// Whatever comes, the session stays valid while request identifiers remain: in
/// particular at most one thread or turn request awaits its reply at any time, and each
/// tracked request's identifier was used before.
pub proof fn lemma_valid_throughout(events: Seq<EventModel>)
    requires
        forall|k: int| 0 <= k < events.len() ==> (#[trigger] run_events(opening_session(), events.take(k))).0.next_id < i64::MAX,
    ensures
        session_valid(run_events(opening_session(), events).0),
    decreases events.len(),
{
    if events.len() > 0 {
        let rest = events.drop_last();
        assert forall|k: int| 0 <= k < rest.len() implies (#[trigger] run_events(opening_session(), rest.take(k))).0.next_id < i64::MAX by {
            assert(rest.take(k) =~= events.take(k));
        }
        lemma_valid_throughout(rest);
        assert(events.take(events.len() - 1) =~= rest);
        let s = run_events(opening_session(), rest).0;
        assert(s.next_id < i64::MAX);
        match events.last() {
            EventModel::Request(r) => lemma_request_ids_fresh(s, r),
            EventModel::Message(m) => lemma_message_ids_fresh(s, m),
        }
    }
}

/// Streamed output reaches the interface: a notification (a message without an
/// identifier) of an agent message, reasoning summary or command output fragment with
/// text `d` gives a notification carrying `d`, with the item's identifier when it has one.
pub proof fn lemma_streamed_output_reported(s: SessionModel, m: IncomingModel, d: Seq<char>)
    requires
        m.id is None,
        m.method == Some("item/agentMessage/delta"@) || m.method == Some("item/reasoning/summaryTextDelta"@)
            || m.method == Some("item/commandExecution/outputDelta"@),
        m.delta == Some(d),
    ensures
        message_step(s, m).0 == s,
        exists|k: int| 0 <= k < message_step(s, m).1.len() && #[trigger] message_step(s, m).1[k] == notify(match m.item_id {
            Some(i) => UpdateModel::Streamed { item_id: i, text: d },
            None => UpdateModel::Activity(d),
        }),
{
    reveal_strlit("item/agentMessage/delta");
    reveal_strlit("item/reasoning/summaryTextDelta");
    reveal_strlit("item/commandExecution/outputDelta");
    reveal_strlit("account/login/completed");
    assert("account/login/completed"@[0] == 'a');
    assert("item/agentMessage/delta"@[0] == 'i');
    assert("item/reasoning/summaryTextDelta"@[0] == 'i');
    assert("item/commandExecution/outputDelta"@[0] == 'i');
    assert(m.method != Some("account/login/completed"@));
    let status: Seq<EffectModel> = if m.reports_account {
        seq![notify(UpdateModel::Status(reported_status(m.account)))]
    } else {
        seq![]
    };
    let e = message_step(s, m).1;
    assert(e == event_effects(m));
    let k = status.len() as int;
    assert(e[k] == notify(match m.item_id {
        Some(i) => UpdateModel::Streamed { item_id: i, text: d },
        None => UpdateModel::Activity(d),
    }));
}
} // verus!
