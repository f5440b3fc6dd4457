use codex_air::app_server::{
    AccountField, AccountStatus, Effect, Incoming, Outgoing, Request, Session, Update,
};

fn message() -> Incoming {
    Incoming {
        id: None,
        has_result: false,
        method: None,
        auth_url: None,
        error_message: None,
        thread_id: None,
        login_succeeded: false,
        login_error: None,
        reports_account: false,
        account: AccountField::Missing,
        delta: None,
        item_id: None,
        item_type: None,
    }
}

fn initialized() -> Session {
    let (mut session, _) = Session::start();
    let effects = session.handle_message(Incoming { id: Some(1), has_result: true, ..message() });
    assert_eq!(effects.len(), 2);
    session
}

#[test]
fn start_sends_initialize() {
    let (session, effect) = Session::start();
    assert!(!session.initialized);
    assert_eq!(session.next_id, 3);
    assert!(matches!(effect, Effect::Send(Outgoing::Initialize)));
}

#[test]
fn initialize_reply_sends_initialized_then_account_read() {
    let (mut session, _) = Session::start();
    let effects = session.handle_message(Incoming { id: Some(1), has_result: true, ..message() });
    assert!(session.initialized);
    assert!(matches!(effects[0], Effect::Send(Outgoing::Initialized)));
    assert!(matches!(effects[1], Effect::Send(Outgoing::AccountRead { id: 2 })));
}

#[test]
fn requests_wait_for_initialization() {
    let (mut session, _) = Session::start();
    let effects = session.handle_request(Request::Refresh);
    assert_eq!(effects.len(), 1);
    match &effects[0] {
        Effect::Notify(Update::Status(status)) => {
            assert!(!status.connected);
            assert_eq!(status.detail.as_deref(), Some("Connecting to Codex App Server…"));
        }
        _ => panic!("expected a status"),
    }
    assert_eq!(session.next_id, 3);
}

#[test]
fn refresh_uses_fresh_ids() {
    let mut session = initialized();
    let a = session.handle_request(Request::Refresh);
    let b = session.handle_request(Request::Refresh);
    assert!(matches!(a[0], Effect::Send(Outgoing::AccountRead { id: 3 })));
    assert!(matches!(b[0], Effect::Send(Outgoing::AccountRead { id: 4 })));
    assert_eq!(session.next_id, 5);
}

#[test]
fn one_login_at_a_time() {
    let mut session = initialized();
    let first = session.handle_request(Request::StartChatGptLogin);
    assert!(matches!(first[0], Effect::Send(Outgoing::LoginStart { id: 3 })));
    let second = session.handle_request(Request::StartChatGptLogin);
    assert!(second.is_empty());
    let reply = session.handle_message(Incoming {
        id: Some(3),
        has_result: true,
        auth_url: Some("https://auth.example/login".to_string()),
        ..message()
    });
    assert_eq!(session.login_id, None);
    match &reply[0] {
        Effect::Notify(Update::LoginUrl(url)) => assert_eq!(url, "https://auth.example/login"),
        _ => panic!("expected the login address"),
    }
    match &reply[1] {
        Effect::Notify(Update::Status(status)) => assert_eq!(
            status.detail.as_deref(),
            Some("Finish signing in in your browser. Codex Air will update automatically.")
        ),
        _ => panic!("expected a status"),
    }
}

#[test]
fn account_results_report_status() {
    let mut session = initialized();
    let effects = session.handle_message(Incoming {
        id: Some(2),
        has_result: true,
        reports_account: true,
        account: AccountField::Present { email: Some("me@example.com".to_string()), plan: Some("plus".to_string()) },
        ..message()
    });
    match &effects[0] {
        Effect::Notify(Update::Status(AccountStatus { connected, email, plan, detail })) => {
            assert!(*connected);
            assert_eq!(email.as_deref(), Some("me@example.com"));
            assert_eq!(plan.as_deref(), Some("plus"));
            assert!(detail.is_none());
        }
        _ => panic!("expected a status"),
    }
    let none = session.handle_message(Incoming { reports_account: true, account: AccountField::Null, ..message() });
    match &none[0] {
        Effect::Notify(Update::Status(status)) => assert!(!status.connected),
        _ => panic!("expected a status"),
    }
}

#[test]
fn a_task_starts_a_thread_then_a_turn() {
    let mut session = initialized();
    let effects = session.handle_request(Request::StartTurn {
        workspace: 9,
        cwd: "C:\\a".to_string(),
        text: "hello".to_string(),
        thread_id: None,
    });
    match &effects[0] {
        Effect::Notify(Update::Activity(text)) => assert_eq!(text, "Starting Codex session…"),
        _ => panic!("expected activity"),
    }
    match &effects[1] {
        Effect::Send(Outgoing::ThreadStart { id, cwd }) => {
            assert_eq!(*id, 3);
            assert_eq!(cwd, "C:\\a");
        }
        _ => panic!("expected thread/start"),
    }
    // While the thread starts, another task is refused.
    let busy = session.handle_request(Request::StartTurn {
        workspace: 9,
        cwd: "C:\\a".to_string(),
        text: "again".to_string(),
        thread_id: None,
    });
    match &busy[0] {
        Effect::Notify(Update::Error(text)) => assert_eq!(text, "Codex is already working on this workspace."),
        _ => panic!("expected an error"),
    }
    let started = session.handle_message(Incoming {
        id: Some(3),
        has_result: true,
        thread_id: Some("thr_1".to_string()),
        ..message()
    });
    match &started[0] {
        Effect::Notify(Update::ThreadStarted { workspace, thread_id }) => {
            assert_eq!(*workspace, 9);
            assert_eq!(thread_id, "thr_1");
        }
        _ => panic!("expected the thread"),
    }
    match &started[1] {
        Effect::Send(Outgoing::TurnStart { id, thread_id, text, cwd }) => {
            assert_eq!(*id, 4);
            assert_eq!(thread_id, "thr_1");
            assert_eq!(text, "hello");
            assert_eq!(cwd, "C:\\a");
        }
        _ => panic!("expected turn/start"),
    }
    let done = session.handle_message(Incoming { id: Some(4), has_result: true, ..message() });
    assert!(done.is_empty());
    assert!(session.turn_start.is_none());
    let finished = session.handle_message(Incoming { method: Some("turn/completed".to_string()), ..message() });
    assert!(matches!(finished[0], Effect::Notify(Update::TurnFinished)));
}

#[test]
fn resuming_a_thread() {
    let mut session = initialized();
    let effects = session.handle_request(Request::StartTurn {
        workspace: 1,
        cwd: "C:\\a".to_string(),
        text: "more".to_string(),
        thread_id: Some("thr_9".to_string()),
    });
    match &effects[1] {
        Effect::Send(Outgoing::ThreadResume { id, thread_id }) => {
            assert_eq!(*id, 3);
            assert_eq!(thread_id, "thr_9");
        }
        _ => panic!("expected thread/resume"),
    }
    let failed = session.handle_message(Incoming { id: Some(3), error_message: Some("no such thread".to_string()), ..message() });
    match &failed[0] {
        Effect::Notify(Update::Error(text)) => assert_eq!(text, "no such thread"),
        _ => panic!("expected an error"),
    }
    assert!(session.thread_start.is_none());
}

#[test]
fn streamed_items_become_activity() {
    let mut session = initialized();
    let delta = session.handle_message(Incoming {
        method: Some("item/agentMessage/delta".to_string()),
        delta: Some("Hel".to_string()),
        ..message()
    });
    match &delta[0] {
        Effect::Notify(Update::Activity(text)) => assert_eq!(text, "Hel"),
        _ => panic!("expected activity"),
    }
    let started = session.handle_message(Incoming {
        method: Some("item/started".to_string()),
        item_type: Some("commandExecution".to_string()),
        ..message()
    });
    match &started[0] {
        Effect::Notify(Update::Activity(text)) => assert_eq!(text, "Codex: commandExecution"),
        _ => panic!("expected activity"),
    }
    let other = session.handle_message(Incoming { method: Some("thread/tokenUsage/updated".to_string()), ..message() });
    assert!(other.is_empty());
}

#[test]
fn login_completion() {
    let mut session = initialized();
    let ok = session.handle_message(Incoming {
        method: Some("account/login/completed".to_string()),
        login_succeeded: true,
        ..message()
    });
    assert!(matches!(ok[0], Effect::Send(Outgoing::AccountRead { id: 3 })));
    let failed = session.handle_message(Incoming { method: Some("account/login/completed".to_string()), ..message() });
    match &failed[0] {
        Effect::Notify(Update::Status(status)) => {
            assert_eq!(status.detail.as_deref(), Some("ChatGPT sign-in did not complete."))
        }
        _ => panic!("expected a status"),
    }
}

#[test]
fn account_status_default_is_disconnected() {
    let status = AccountStatus::default();
    assert!(!status.connected);
    assert!(status.email.is_none() && status.plan.is_none() && status.detail.is_none());
}

#[test]
fn server_requests_are_answered_with_an_error() {
    let mut session = initialized();
    let next = session.next_id;
    let request = Incoming { id: Some(0), method: Some("item/commandExecution/requestApproval".to_string()), ..message() };
    let effects = session.handle_message(request);
    assert_eq!(effects.len(), 1);
    match &effects[0] {
        Effect::Send(Outgoing::ErrorReply { id, method }) => {
            assert_eq!(*id, 0);
            assert_eq!(method, "item/commandExecution/requestApproval");
        }
        _ => panic!("expected an error reply"),
    }
    assert_eq!(session.next_id, next);
    assert!(session.initialized);
}

#[test]
fn server_requests_before_initialization_are_not_answered() {
    let (mut session, _) = Session::start();
    let request = Incoming { id: Some(4), method: Some("item/tool/requestUserInput".to_string()), ..message() };
    let effects = session.handle_message(request);
    assert!(effects.iter().all(|e| matches!(e, Effect::Notify(_))));
}

#[test]
fn streamed_fragments_carry_their_item() {
    let mut session = initialized();
    let delta = session.handle_message(Incoming {
        method: Some("item/agentMessage/delta".to_string()),
        delta: Some("lo".to_string()),
        item_id: Some("msg_1".to_string()),
        ..message()
    });
    assert_eq!(delta.len(), 1);
    match &delta[0] {
        Effect::Notify(Update::Streamed { item_id, text }) => {
            assert_eq!(item_id, "msg_1");
            assert_eq!(text, "lo");
        }
        _ => panic!("expected a streamed fragment"),
    }
}

#[test]
fn a_failed_start_is_reported_as_status() {
    match codex_air::app_server::start_failed("program not found") {
        Update::Status(status) => {
            assert!(!status.connected);
            assert_eq!(status.detail.as_deref(), Some("Could not start Codex App Server: program not found"));
        }
        _ => panic!("expected a status"),
    }
}

#[test]
fn nothing_is_sent_before_the_initialize_reply() {
    let (mut session, opening) = Session::start();
    assert!(matches!(opening, Effect::Send(Outgoing::Initialize)));
    let mut sent = Vec::new();
    for effects in [
        session.handle_request(Request::Refresh),
        session.handle_request(Request::StartChatGptLogin),
        session.handle_message(Incoming { method: Some("item/agentMessage/delta".to_string()), delta: Some("x".to_string()), ..message() }),
        session.handle_message(Incoming { id: Some(9), method: Some("item/tool/requestUserInput".to_string()), ..message() }),
        session.handle_message(Incoming { id: Some(1), ..message() }),
    ] {
        sent.extend(effects.into_iter().filter(|e| matches!(e, Effect::Send(_))));
    }
    assert!(sent.is_empty());
    assert!(!session.initialized);
    let reply = session.handle_message(Incoming { id: Some(1), has_result: true, ..message() });
    assert!(matches!(reply[0], Effect::Send(Outgoing::Initialized)));
    assert!(matches!(reply[1], Effect::Send(Outgoing::AccountRead { id: 2 })));
    assert_eq!(reply.len(), 2);
}
