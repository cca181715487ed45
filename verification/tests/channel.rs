use bridge_channel::channel::BridgeChannel;
use bridge_channel::channel::Directive;
use bridge_channel::error::BridgeError;
use bridge_channel::frames::InboundFrame;
use bridge_channel::message::compose_message;
use bridge_channel::message::Post;
use bridge_channel::message::SendMessage;
use bridge_channel::message::StreamMode;
use bridge_channel::queue::Offer;
use bridge_channel::session::make_approval_command;
use bridge_channel::session::Event;
use bridge_channel::session::Phase;
use bridge_channel::session::Rejection;
use bridge_channel::session::Session;
use tokio::sync::mpsc::Receiver;

fn test_channel(token: &str, allowed: &[String]) -> BridgeChannel {
    BridgeChannel::new(
        "127.0.0.1".to_string(),
        0,
        token.to_string(),
        allowed,
        StreamMode::Off,
        64,
        false,
    )
}

fn auth(token: &str) -> Event {
    Event::Frame(InboundFrame::Auth {
        token: token.to_string(),
    })
}

fn message(content: &str, sender_id: &str) -> Event {
    Event::Frame(InboundFrame::Message {
        content: content.to_string(),
        sender_id: sender_id.to_string(),
        thread_id: None,
    })
}

fn approval(request_id: &str, approved: bool, sender_id: &str) -> Event {
    Event::Frame(InboundFrame::ApprovalResponse {
        request_id: request_id.to_string(),
        approved,
        sender_id: sender_id.to_string(),
    })
}

fn ping() -> Event {
    Event::Frame(InboundFrame::Ping)
}

fn written(directive: Directive) -> String {
    match directive {
        Directive::Write(text) => text,
        _ => panic!("nothing to write"),
    }
}

fn failure(directive: Directive) -> BridgeError {
    match directive {
        Directive::Fail(error) => error,
        _ => panic!("no failure"),
    }
}

/// Takes a client on, with a listener of its own.
fn accept(ch: &mut BridgeChannel, conn_id: &str) -> Session {
    let listener = ch.open_listener();
    let session = ch.accept_as(listener, conn_id.to_string());
    session.expect("no free slot")
}

/// Takes a client through the handshake.
fn connect(ch: &mut BridgeChannel, conn_id: &str, token: &str) -> (Session, Receiver<String>) {
    let mut session = accept(ch, conn_id);
    let text = written(ch.handle_event(&mut session, auth(token), 0));
    assert_eq!(text, r#"{"type":"auth_result","success":true}"#);
    match ch.handle_event(&mut session, Event::ReplyWritten(true), 0) {
        Directive::StartWriter(rx) => (session, rx),
        _ => panic!("not let in"),
    }
}

/// Hands a message to the agent, which takes it.
fn say(ch: &mut BridgeChannel, session: &mut Session, content: &str, sender_id: &str) {
    let directive = ch.handle_event(session, message(content, sender_id), 1);
    assert!(matches!(directive, Directive::Forward(_)));
    let next = ch.handle_event(session, Event::BusAnswered(true), 1);
    assert!(matches!(next, Directive::Read));
}

#[test]
fn bridge_channel_name_is_bridge() {
    let ch = test_channel("tok", &[]);
    assert_eq!(ch.name(), "bridge");
}

#[test]
fn bridge_channel_draft_support_follows_stream_mode() {
    let off = test_channel("tok", &[]);
    assert!(!off.supports_draft_updates());

    let partial = BridgeChannel::new(
        "127.0.0.1".to_string(),
        0,
        "tok".to_string(),
        &[],
        StreamMode::Partial,
        64,
        false,
    );
    assert!(partial.supports_draft_updates());
}

#[test]
fn health_check_false_with_no_connections() {
    let ch = test_channel("tok", &[]);
    assert!(!ch.health_check());
}

#[test]
fn health_check_follows_connections() {
    let mut ch = test_channel("tok", &[]);
    let mut waiting = accept(&mut ch, "c0");
    assert!(!ch.health_check());
    let (session, _rx) = connect(&mut ch, "c1", "tok");
    assert!(ch.health_check());
    ch.finish(session);
    assert!(!ch.health_check());
    let directive = ch.handle_event(&mut waiting, Event::EndOfStream, 0);
    assert!(matches!(directive, Directive::Fail(_)));
}

#[test]
fn send_to_sender_fails_without_connection() {
    let mut ch = test_channel("tok", &[]);
    let result = ch.send(&SendMessage::new("hello", "user_a"));
    assert!(result.is_err());
    let error = result.unwrap_err();
    assert!(matches!(error, BridgeError::NoConnection));
    assert_eq!(error.message(), "No connection for sender");
}

#[test]
fn listen_rejects_public_bind_without_opt_in() {
    let ch = BridgeChannel::new(
        "0.0.0.0".to_string(),
        0,
        "tok".to_string(),
        &[],
        StreamMode::Off,
        64,
        false,
    );
    let result = ch.bind_address();
    assert!(result.is_err());
    let err_msg = result.unwrap_err().message();
    assert!(
        err_msg.contains("refusing to bind"),
        "Expected public-bind rejection, got: {err_msg}"
    );
    assert_eq!(
        err_msg,
        "Bridge: refusing to bind to 0.0.0.0 — would be exposed to the network.\n\
         Fix: use host = \"127.0.0.1\" (default) or set allow_public_bind = true \
         in [channels.bridge] (NOT recommended)."
    );
}

#[test]
fn bind_address_names_host_and_port() {
    let open = BridgeChannel::new(
        "0.0.0.0".to_string(),
        9090,
        "tok".to_string(),
        &[],
        StreamMode::Off,
        64,
        true,
    );
    assert_eq!(open.bind_address().unwrap(), "0.0.0.0:9090");
    let local = test_channel("tok", &[]);
    assert_eq!(local.bind_address().unwrap(), "127.0.0.1:0");
}

#[test]
fn auth_success_allows_messages() {
    let allowed = vec!["user_a".to_string()];
    let mut ch = test_channel("test_token", &allowed);
    let mut session = accept(&mut ch, "test-conn");

    let text = written(ch.handle_event(&mut session, auth("test_token"), 0));
    assert!(
        text.contains(r#""success":true"#),
        "Expected auth success, got: {text}"
    );
    let started = ch.handle_event(&mut session, Event::ReplyWritten(true), 0);
    assert!(matches!(started, Directive::StartWriter(_)));

    match ch.handle_event(&mut session, message("hello", "user_a"), 1_700_000_000) {
        Directive::Forward(channel_msg) => {
            assert_eq!(channel_msg.content, "hello");
            assert_eq!(channel_msg.sender, "bridge_user_a");
            assert_eq!(channel_msg.reply_target, "user_a");
            assert_eq!(channel_msg.channel, "bridge");
            assert_eq!(channel_msg.timestamp, 1_700_000_000);
            assert!(channel_msg.thread_ts.is_none());
            assert_eq!(channel_msg.id.len(), 36);
        }
        _ => panic!("channel closed"),
    }
}

#[test]
fn auth_failure_closes_connection() {
    let mut ch = test_channel("correct_token", &[]);
    let mut session = accept(&mut ch, "test-conn");

    let text = written(ch.handle_event(&mut session, auth("wrong_token"), 0));
    assert!(
        text.contains(r#""success":false"#),
        "Expected auth failure, got: {text}"
    );
    assert_eq!(
        text,
        r#"{"type":"auth_result","success":false,"error":"invalid token"}"#
    );
    assert_eq!(session.phase(), Phase::RejectPending(Rejection::BadToken));

    let error = failure(ch.handle_event(&mut session, Event::ReplyWritten(true), 0));
    assert_eq!(
        error.message(),
        "Bridge: auth failed for connection test-conn"
    );
    assert!(!ch.health_check());
    assert_eq!(session.phase(), Phase::Done);
}

#[test]
fn auth_timeout_closes_connection() {
    let mut ch = test_channel("token", &["*".to_string()]);
    let mut session = accept(&mut ch, "test-conn");
    let error = failure(ch.handle_event(&mut session, Event::AuthTimeout, 0));
    let err_msg = error.message();
    assert!(
        err_msg.contains("timed out") || err_msg.contains("closed before auth"),
        "Expected timeout error, got: {err_msg}"
    );
    assert_eq!(err_msg, "Bridge: auth handshake timed out");
}

#[test]
fn unauthorized_sender_rejected() {
    let allowed = vec!["user_a".to_string()];
    let mut ch = test_channel("tok", &allowed);
    let (mut session, mut rx) = connect(&mut ch, "test-conn", "tok");

    let directive = ch.handle_event(&mut session, message("hi", "user_b"), 0);
    assert!(
        matches!(directive, Directive::Read),
        "No message should reach the bus for unauthorized sender"
    );
    let text = rx.try_recv().unwrap();
    assert!(
        text.contains("sender not allowed"),
        "Expected sender-rejected error, got: {text}"
    );
    assert_eq!(text, r#"{"type":"error","message":"sender not allowed"}"#);
    assert!(rx.try_recv().is_err());

    let reply = ch.send(&SendMessage::new("x", "user_b"));
    assert!(matches!(reply, Err(BridgeError::NoConnection)));
    assert_eq!(session.phase(), Phase::Open);
}

#[test]
fn connection_cleanup_on_disconnect() {
    let allowed = vec!["user_a".to_string()];
    let mut ch = test_channel("tok", &allowed);
    let (mut session, mut rx) = connect(&mut ch, "cleanup-test", "tok");
    say(&mut ch, &mut session, "hi", "user_a");
    assert_eq!(ch.resolve("user_a").unwrap(), "cleanup-test");

    let directive = ch.handle_event(&mut session, Event::CloseFrame, 0);
    assert!(matches!(directive, Directive::Close));
    assert!(
        !ch.health_check(),
        "connections should be empty after disconnect"
    );
    assert!(rx.try_recv().is_err());
    assert!(rx.is_closed());

    let gone = ch.resolve("user_a").unwrap_err();
    assert_eq!(gone.message(), "Bridge connection cleanup-test not found");

    ch.finish(session);
    assert!(
        matches!(ch.resolve("user_a"), Err(BridgeError::NoConnection)),
        "sender_routing should be empty after disconnect"
    );
}

#[test]
fn other_frame_first_is_rejected() {
    let mut ch = test_channel("tok", &["*".to_string()]);
    for event in [message("hi", "user_a"), approval("r1", true, "user_a")] {
        let mut session = accept(&mut ch, "c0");
        let text = written(ch.handle_event(&mut session, event, 0));
        assert_eq!(
            text,
            r#"{"type":"auth_result","success":false,"error":"auth required as first message"}"#
        );
        let error = failure(ch.handle_event(&mut session, Event::ReplyWritten(true), 0));
        assert_eq!(
            error.message(),
            "Bridge: non-auth message received before authentication"
        );
        ch.finish(session);
    }
    assert!(matches!(
        ch.resolve("user_a"),
        Err(BridgeError::NoConnection)
    ));
}

#[test]
fn rejected_client_stays_out() {
    let mut ch = test_channel("tok", &["*".to_string()]);
    let mut session = accept(&mut ch, "c0");
    written(ch.handle_event(&mut session, message("hi", "u"), 0));
    let again = ch.handle_event(&mut session, auth("tok"), 0);
    assert!(matches!(again, Directive::Ignored));
    let timeout = failure(ch.handle_event(&mut session, Event::AuthTimeout, 0));
    assert!(matches!(timeout, BridgeError::AuthTimeout));
    let late = ch.handle_event(&mut session, auth("tok"), 0);
    assert!(matches!(late, Directive::Ignored));
    assert_eq!(session.phase(), Phase::Done);
}

#[test]
fn heartbeat_before_handshake() {
    let mut ch = test_channel("tok", &[]);
    let mut session = accept(&mut ch, "c0");
    let text = written(ch.handle_event(&mut session, ping(), 0));
    assert_eq!(text, r#"{"type":"pong"}"#);
    let next = ch.handle_event(&mut session, Event::ReplyWritten(true), 0);
    assert!(matches!(next, Directive::Read));
    assert_eq!(session.phase(), Phase::Handshake);
    let skipped = ch.handle_event(&mut session, Event::Other, 0);
    assert!(matches!(skipped, Directive::Read));
    let ok = written(ch.handle_event(&mut session, auth("tok"), 0));
    assert_eq!(ok, r#"{"type":"auth_result","success":true}"#);
}

#[test]
fn handshake_failures() {
    let mut ch = test_channel("tok", &[]);
    for (event, words) in [
        (Event::BadText, "Bridge: invalid JSON during auth"),
        (Event::CloseFrame, "Bridge: client closed during auth"),
        (Event::ReadError, "Bridge: WS read error during auth"),
        (Event::EndOfStream, "Bridge: connection closed before auth"),
    ] {
        let mut session = accept(&mut ch, "c0");
        let error = failure(ch.handle_event(&mut session, event, 0));
        assert_eq!(error.message(), words);
        assert_eq!(session.phase(), Phase::Done);
    }
}

#[test]
fn handshake_reply_cannot_be_written() {
    let mut ch = test_channel("tok", &[]);
    for event in [ping(), auth("tok"), auth("bad"), message("a", "b")] {
        let mut session = accept(&mut ch, "c0");
        written(ch.handle_event(&mut session, event, 0));
        let error = failure(ch.handle_event(&mut session, Event::ReplyWritten(false), 0));
        assert!(matches!(error, BridgeError::WriteDuringAuth));
        assert_eq!(error.message(), "Bridge: WS write error during auth");
    }
    assert!(!ch.health_check());
}

#[test]
fn talk_keeps_the_connection() {
    let mut ch = test_channel("tok", &["user_a".to_string()]);
    let (mut session, mut rx) = connect(&mut ch, "c1", "tok");
    for event in [
        Event::BadText,
        Event::Other,
        auth("anything"),
        ping(),
        approval("r1", true, "user_b"),
    ] {
        let directive = ch.handle_event(&mut session, event, 0);
        assert!(matches!(directive, Directive::Read));
        assert_eq!(session.phase(), Phase::Open);
    }
    assert_eq!(
        rx.try_recv().unwrap(),
        r#"{"type":"error","message":"invalid JSON frame"}"#
    );
    assert_eq!(rx.try_recv().unwrap(), r#"{"type":"pong"}"#);
    assert!(rx.try_recv().is_err());
}

#[test]
fn approval_answers_become_commands() {
    assert_eq!(make_approval_command("r1", true), "/approve-allow r1");
    assert_eq!(make_approval_command("r1", false), "/approve-deny r1");

    let mut ch = test_channel("tok", &["user_a".to_string()]);
    let (mut session, _rx) = connect(&mut ch, "c1", "tok");
    match ch.handle_event(&mut session, approval("r1", false, "user_a"), 7) {
        Directive::Forward(msg) => {
            assert_eq!(msg.content, "/approve-deny r1");
            assert_eq!(msg.sender, "bridge_user_a");
            assert_eq!(msg.reply_target, "user_a");
            assert_eq!(msg.timestamp, 7);
            assert!(msg.thread_ts.is_none());
        }
        _ => panic!("nothing for the agent"),
    }
    // An answer does not make a route.
    assert!(matches!(
        ch.resolve("user_a"),
        Err(BridgeError::NoConnection)
    ));
}

#[test]
fn thread_is_passed_through() {
    let mut ch = test_channel("tok", &["*".to_string()]);
    let (mut session, _rx) = connect(&mut ch, "c1", "tok");
    let event = Event::Frame(InboundFrame::Message {
        content: "hi".to_string(),
        sender_id: "user_a".to_string(),
        thread_id: Some("t-1".to_string()),
    });
    match ch.handle_event(&mut session, event, 0) {
        Directive::Forward(msg) => assert_eq!(msg.thread_ts.as_deref(), Some("t-1")),
        _ => panic!("nothing for the agent"),
    }
}

#[test]
fn messages_are_composed() {
    let post = Post {
        sender_id: "s".to_string(),
        content: "c".to_string(),
        thread_id: Some("t".to_string()),
        routes: true,
    };
    let msg = compose_message(post, "id".to_string(), 5);
    assert_eq!(msg.id, "id");
    assert_eq!(msg.sender, "bridge_s");
    assert_eq!(msg.reply_target, "s");
    assert_eq!(msg.content, "c");
    assert_eq!(msg.channel, "bridge");
    assert_eq!(msg.timestamp, 5);
    assert_eq!(msg.thread_ts.as_deref(), Some("t"));
}

#[test]
fn closed_bus_ends_the_connection() {
    let mut ch = test_channel("tok", &["*".to_string()]);
    let (mut session, _rx) = connect(&mut ch, "c1", "tok");
    let directive = ch.handle_event(&mut session, message("a", "u"), 0);
    assert!(matches!(directive, Directive::Forward(_)));
    let end = ch.handle_event(&mut session, Event::BusAnswered(false), 0);
    assert!(matches!(end, Directive::Close));
    assert!(!ch.health_check());
}

#[test]
fn read_error_and_end_close_quietly() {
    let mut ch = test_channel("tok", &[]);
    for event in [Event::ReadError, Event::EndOfStream, Event::CloseFrame] {
        let (mut session, _rx) = connect(&mut ch, "c1", "tok");
        let directive = ch.handle_event(&mut session, event, 0);
        assert!(matches!(directive, Directive::Close));
        ch.finish(session);
    }
}

#[test]
fn replies_go_back_the_way_they_came() {
    let mut ch = test_channel("tok", &["*".to_string()]);
    let (mut one, mut rx1) = connect(&mut ch, "c1", "tok");
    let (mut two, mut rx2) = connect(&mut ch, "c2", "tok");
    say(&mut ch, &mut one, "a", "user_a");
    say(&mut ch, &mut one, "b", "user_b");
    say(&mut ch, &mut two, "c", "user_b");

    ch.send(&SendMessage::new("for a", "user_a")).unwrap();
    ch.send(&SendMessage::new("for b", "user_b")).unwrap();
    assert_eq!(
        rx1.try_recv().unwrap(),
        r#"{"type":"message","content":"for a","sender_id":"user_a"}"#
    );
    assert!(rx1.try_recv().is_err());
    assert_eq!(
        rx2.try_recv().unwrap(),
        r#"{"type":"message","content":"for b","sender_id":"user_b"}"#
    );
    assert!(rx2.try_recv().is_err());
}

#[test]
fn every_frame_reaches_its_sender() {
    let mut ch = test_channel("tok", &["*".to_string()]);
    let (mut session, mut rx) = connect(&mut ch, "c1", "tok");
    say(&mut ch, &mut session, "a", "u");

    let mut threaded = SendMessage::new("hi", "u");
    threaded.thread_ts = Some("t-1".to_string());
    ch.send(&threaded).unwrap();
    ch.start_typing("u").unwrap();
    ch.stop_typing("u").unwrap();
    let id = ch.send_draft_as(&SendMessage::new("d", "u"), "42").unwrap();
    assert_eq!(id.as_deref(), Some("bridge_draft_42"));
    assert_eq!(ch.update_draft("u", "bridge_draft_42", "dr").unwrap(), None);
    ch.finalize_draft("u", "bridge_draft_42", "draft").unwrap();
    ch.cancel_draft("u", "bridge_draft_42").unwrap();
    let nothing = serde_json::Value::Null;
    ch.send_approval_prompt("u", "r1", "shell", &nothing, None)
        .unwrap();

    for expected in [
        r#"{"type":"message","content":"hi","sender_id":"u","thread_ts":"t-1"}"#,
        r#"{"type":"typing_start","sender_id":"u"}"#,
        r#"{"type":"typing_stop","sender_id":"u"}"#,
        r#"{"type":"draft_start","draft_id":"bridge_draft_42","content":"d","sender_id":"u"}"#,
        r#"{"type":"draft_update","draft_id":"bridge_draft_42","content":"dr","sender_id":"u"}"#,
        r#"{"type":"draft_finalize","draft_id":"bridge_draft_42","content":"draft","sender_id":"u"}"#,
        r#"{"type":"draft_cancel","draft_id":"bridge_draft_42","sender_id":"u"}"#,
        r#"{"type":"approval_prompt","request_id":"r1","tool_name":"shell","arguments":null,"sender_id":"u"}"#,
    ] {
        assert_eq!(rx.try_recv().unwrap(), expected);
    }
    assert!(rx.try_recv().is_err());
}

#[test]
fn drafts_get_fresh_identifiers() {
    let mut ch = test_channel("tok", &["*".to_string()]);
    let unreachable = ch.send_draft(&SendMessage::new("d", "u"));
    assert!(matches!(unreachable, Err(BridgeError::NoConnection)));

    let (mut session, mut rx) = connect(&mut ch, "c1", "tok");
    say(&mut ch, &mut session, "a", "u");
    let id = ch.send_draft(&SendMessage::new("d", "u")).unwrap().unwrap();
    assert!(id.starts_with("bridge_draft_"));
    assert_eq!(id.len(), 13 + 36);
    assert!(rx.try_recv().unwrap().contains(&id));
    let next = ch.send_draft(&SendMessage::new("d", "u")).unwrap().unwrap();
    assert_ne!(id, next);
}

#[test]
fn identifiers_are_random_uuids() {
    let mut ch = test_channel("tok", &[]);
    let listener = ch.open_listener();
    let session = ch.accept(listener).unwrap();
    let other = ch.accept(listener).unwrap();
    assert_ne!(session.conn_id(), other.conn_id());
    let id: Vec<char> = session.conn_id().chars().collect();
    assert_eq!(id.len(), 36);
    for (i, c) in id.iter().enumerate() {
        if i == 8 || i == 13 || i == 18 || i == 23 {
            assert_eq!(*c, '-');
        } else {
            assert!(matches!(*c, '0'..='9' | 'a'..='f'));
        }
    }
    assert_eq!(id[14], '4');
    assert!(matches!(id[19], '8' | '9' | 'a' | 'b'));
}

#[test]
fn full_queue_drops_the_connection() {
    let mut ch = test_channel("tok", &["*".to_string()]);
    let (mut session, mut rx) = connect(&mut ch, "c1", "tok");
    assert_eq!(rx.max_capacity(), 1024);
    say(&mut ch, &mut session, "a", "u");
    for _ in 0..1024 {
        ch.start_typing("u").unwrap();
    }
    let error = ch.start_typing("u").unwrap_err();
    assert_eq!(error.message(), "Bridge connection closed for sender u");
    assert!(!ch.health_check());
    assert!(matches!(
        ch.start_typing("u"),
        Err(BridgeError::NoConnection)
    ));
    for _ in 0..1024 {
        rx.try_recv().unwrap();
    }
    assert!(rx.try_recv().is_err());

    // The client goes on talking, and its sender is routed to what is gone.
    say(&mut ch, &mut session, "b", "u");
    assert!(matches!(
        ch.start_typing("u"),
        Err(BridgeError::ConnectionNotFound { .. })
    ));
    let pinged = ch.handle_event(&mut session, ping(), 0);
    assert!(matches!(pinged, Directive::Read));
}

#[test]
fn refused_text_is_queued_nowhere() {
    let mut ch = test_channel("tok", &["*".to_string()]);
    let (mut one, mut rx1) = connect(&mut ch, "c1", "tok");
    let (mut two, mut rx2) = connect(&mut ch, "c2", "tok");
    say(&mut ch, &mut one, "a", "user_a");
    say(&mut ch, &mut one, "b", "user_b");
    say(&mut ch, &mut two, "c", "user_c");
    for _ in 0..1024 {
        ch.send_to_sender("user_a", "x").unwrap();
    }
    let error = ch.send_to_sender("user_b", "y").unwrap_err();
    assert_eq!(error.message(), "Bridge connection closed for sender user_b");
    assert!(matches!(
        ch.resolve("user_a"),
        Err(BridgeError::NoConnection)
    ));
    assert!(matches!(
        ch.resolve("user_b"),
        Err(BridgeError::NoConnection)
    ));
    assert_eq!(ch.resolve("user_c").unwrap(), "c2");
    for _ in 0..1024 {
        assert_eq!(rx1.try_recv().unwrap(), "x");
    }
    assert!(matches!(
        rx1.try_recv(),
        Err(tokio::sync::mpsc::error::TryRecvError::Disconnected)
    ));
    assert!(matches!(
        rx2.try_recv(),
        Err(tokio::sync::mpsc::error::TryRecvError::Empty)
    ));
}

#[test]
fn refused_reaction_is_queued_once_or_not_at_all() {
    let mut ch = test_channel("tok", &["*".to_string()]);
    let (mut one, mut rx1) = connect(&mut ch, "c1", "tok");
    let (_two, mut rx2) = connect(&mut ch, "c2", "tok");
    say(&mut ch, &mut one, "a", "u");
    for _ in 0..1024 {
        ch.send_to_sender("u", "x").unwrap();
    }
    ch.add_reaction("ch1", "msg1", "x").unwrap();
    assert!(ch.resolve("u").is_err());
    for _ in 0..1024 {
        assert_eq!(rx1.try_recv().unwrap(), "x");
    }
    assert!(matches!(
        rx1.try_recv(),
        Err(tokio::sync::mpsc::error::TryRecvError::Disconnected)
    ));
    assert!(rx2.try_recv().is_ok());
    assert!(rx2.try_recv().is_err());
}

#[test]
fn second_connection_under_an_identifier_replaces_the_first() {
    let mut ch = test_channel("tok", &["*".to_string()]);
    let (_one, mut rx1) = connect(&mut ch, "c1", "tok");
    let (mut two, mut rx2) = connect(&mut ch, "c1", "tok");
    assert!(matches!(
        rx1.try_recv(),
        Err(tokio::sync::mpsc::error::TryRecvError::Disconnected)
    ));
    say(&mut ch, &mut two, "a", "u");
    ch.send_to_sender("u", "x").unwrap();
    assert_eq!(rx2.try_recv().unwrap(), "x");
}

#[test]
fn unread_queue_drops_the_connection() {
    let mut ch = test_channel("tok", &["*".to_string()]);
    let (mut one, rx1) = connect(&mut ch, "c1", "tok");
    let (mut two, mut rx2) = connect(&mut ch, "c2", "tok");
    say(&mut ch, &mut one, "a", "user_a");
    say(&mut ch, &mut two, "b", "user_b");
    drop(rx1);
    assert!(matches!(
        ch.send(&SendMessage::new("x", "user_a")),
        Err(BridgeError::ConnectionClosed { .. })
    ));
    assert!(matches!(
        ch.resolve("user_a"),
        Err(BridgeError::NoConnection)
    ));
    ch.send(&SendMessage::new("y", "user_b")).unwrap();
    assert!(rx2.try_recv().is_ok());
}

#[test]
fn offers_are_settled() {
    let mut ch = test_channel("tok", &["*".to_string()]);
    let (mut session, _rx) = connect(&mut ch, "c1", "tok");
    say(&mut ch, &mut session, "a", "u");
    ch.settle("u", "c1", &Offer::Queued).unwrap();
    assert_eq!(ch.resolve("u").unwrap(), "c1");
    let refused = ch.settle("u", "c1", &Offer::Full("text".to_string()));
    assert!(matches!(refused, Err(BridgeError::ConnectionClosed { .. })));
    assert!(!ch.health_check());
    let again = ch.settle("u", "c1", &Offer::Closed("text".to_string()));
    assert!(again.is_err());
}

#[test]
fn reactions_reach_everybody() {
    let mut ch = test_channel("tok", &["*".to_string()]);
    assert!(ch.add_reaction("ch1", "msg1", "x").is_ok());
    let (mut one, mut rx1) = connect(&mut ch, "c1", "tok");
    let (mut two, rx2) = connect(&mut ch, "c2", "tok");
    let (mut three, mut rx3) = connect(&mut ch, "c3", "tok");
    say(&mut ch, &mut one, "a", "user_a");
    say(&mut ch, &mut two, "b", "user_b");
    say(&mut ch, &mut three, "c", "user_c");
    drop(rx2);

    assert!(ch.add_reaction("ch1", "msg1", "x").is_ok());
    assert!(ch.remove_reaction("ch1", "msg1", "x").is_ok());
    for rx in [&mut rx1, &mut rx3] {
        assert_eq!(
            rx.try_recv().unwrap(),
            r#"{"type":"reaction_add","channel_id":"ch1","message_id":"msg1","emoji":"x"}"#
        );
        assert_eq!(
            rx.try_recv().unwrap(),
            r#"{"type":"reaction_remove","channel_id":"ch1","message_id":"msg1","emoji":"x"}"#
        );
        assert!(rx.try_recv().is_err());
    }
    assert_eq!(ch.resolve("user_a").unwrap(), "c1");
    assert!(matches!(
        ch.resolve("user_b"),
        Err(BridgeError::NoConnection)
    ));
    assert_eq!(ch.resolve("user_c").unwrap(), "c3");
}

#[test]
fn removal_is_idempotent() {
    let mut ch = test_channel("tok", &["*".to_string()]);
    let (mut one, _rx1) = connect(&mut ch, "c1", "tok");
    let (mut two, _rx2) = connect(&mut ch, "c2", "tok");
    say(&mut ch, &mut one, "a", "user_a");
    say(&mut ch, &mut one, "a", "user_b");
    say(&mut ch, &mut two, "a", "user_c");
    for _ in 0..2 {
        ch.remove_connection("c1");
        assert!(ch.resolve("user_a").is_err());
        assert!(ch.resolve("user_b").is_err());
        assert_eq!(ch.resolve("user_c").unwrap(), "c2");
    }
    ch.drop_connections(&vec!["c1".to_string(), "c2".to_string()]);
    assert!(!ch.health_check());
    assert!(ch.resolve("user_c").is_err());
}

#[test]
fn connections_are_limited() {
    let mut ch = BridgeChannel::new(
        "localhost".to_string(),
        1,
        "tok".to_string(),
        &[],
        StreamMode::Off,
        2,
        false,
    );
    assert!(ch.accept(0).is_none());
    let listener = ch.open_listener();
    assert_eq!(listener, 0);
    let one = ch.accept(listener).unwrap();
    assert_eq!(one.listener(), listener);
    let _two = ch.accept(listener).unwrap();
    assert!(ch.accept(listener).is_none());
    assert!(ch.accept_as(listener, "three".to_string()).is_none());
    ch.finish(one);
    assert!(ch.accept(listener).is_some());
    assert!(ch.accept(listener).is_none());

    let mut none = BridgeChannel::new(
        "localhost".to_string(),
        1,
        "tok".to_string(),
        &[],
        StreamMode::Off,
        0,
        false,
    );
    let closed = none.open_listener();
    assert!(none.accept(closed).is_none());
}

#[test]
fn every_listener_has_its_own_slots() {
    let mut ch = BridgeChannel::new(
        "localhost".to_string(),
        1,
        "tok".to_string(),
        &[],
        StreamMode::Off,
        1,
        false,
    );
    let first = ch.open_listener();
    let second = ch.open_listener();
    assert_ne!(first, second);
    let one = ch.accept(first).unwrap();
    assert!(ch.accept(first).is_none());
    let two = ch.accept(second).unwrap();
    assert!(ch.accept(second).is_none());
    ch.finish(one);
    assert!(ch.accept(second).is_none());
    assert!(ch.accept(first).is_some());
    ch.finish(two);
    assert!(ch.accept(second).is_some());
}

#[test]
fn handshake_time_runs_until_the_token_was_judged() {
    let mut ch = test_channel("tok", &[]);
    let mut session = accept(&mut ch, "c1");
    assert!(session.is_timed());
    written(ch.handle_event(&mut session, ping(), 0));
    assert!(session.is_timed());
    ch.handle_event(&mut session, Event::ReplyWritten(true), 0);
    written(ch.handle_event(&mut session, auth("tok"), 0));
    assert!(!session.is_timed());
    ch.handle_event(&mut session, Event::ReplyWritten(true), 0);
    assert_eq!(session.phase(), Phase::Open);
    assert!(!session.is_timed());

    let mut wrong = accept(&mut ch, "c2");
    written(ch.handle_event(&mut wrong, auth("bad"), 0));
    assert!(!wrong.is_timed());
    let late = ch.handle_event(&mut wrong, Event::AuthTimeout, 0);
    assert!(matches!(late, Directive::Ignored));

    let mut other = accept(&mut ch, "c3");
    written(ch.handle_event(&mut other, message("a", "b"), 0));
    assert!(other.is_timed());
}

#[test]
fn reactions_differ_only_in_type() {
    let mut texts: Vec<String> = Vec::new();
    for remove in [false, true] {
        let mut ch = test_channel("tok", &["*".to_string()]);
        let (mut one, mut rx1) = connect(&mut ch, "c1", "tok");
        let (mut two, rx2) = connect(&mut ch, "c2", "tok");
        say(&mut ch, &mut one, "a", "user_a");
        say(&mut ch, &mut two, "b", "user_b");
        drop(rx2);
        if remove {
            ch.remove_reaction("ch1", "msg1", "x").unwrap();
        } else {
            ch.add_reaction("ch1", "msg1", "x").unwrap();
        }
        texts.push(rx1.try_recv().unwrap());
        assert_eq!(ch.resolve("user_a").unwrap(), "c1");
        assert!(ch.resolve("user_b").is_err());
    }
    assert_ne!(texts[0], texts[1]);
    assert_eq!(texts[0].replace("reaction_add", "reaction_remove"), texts[1]);
}

#[test]
fn drafts_fail_where_replies_do() {
    let reply = SendMessage::new("d", "u");
    for closed in [false, true] {
        let mut words: Vec<Option<String>> = Vec::new();
        for draft in [false, true] {
            let mut ch = test_channel("tok", &["*".to_string()]);
            let (mut session, rx) = connect(&mut ch, "c1", "tok");
            say(&mut ch, &mut session, "a", "u");
            if closed {
                drop(rx);
            }
            let error = if draft {
                let id = ch.send_draft(&reply);
                assert!(!matches!(id, Ok(None)));
                id.err()
            } else {
                ch.send(&reply).err()
            };
            words.push(error.map(|error| error.message()));
            assert_eq!(ch.health_check(), !closed);
        }
        assert_eq!(words[0].is_some(), closed);
        assert_eq!(words[0], words[1]);
    }
}

#[test]
fn queue_stays_with_its_writer() {
    let mut ch = test_channel("tok", &["*".to_string()]);
    let (mut one, mut rx1) = connect(&mut ch, "c1", "tok");
    say(&mut ch, &mut one, "a", "u");
    ch.start_typing("u").unwrap();
    let (two, _rx2) = connect(&mut ch, "c2", "tok");
    ch.handle_event(&mut one, ping(), 0);
    ch.finish(two);
    ch.add_reaction("ch1", "msg1", "x").unwrap();
    ch.stop_typing("u").unwrap();
    for expected in [
        r#"{"type":"typing_start","sender_id":"u"}"#,
        r#"{"type":"pong"}"#,
        r#"{"type":"reaction_add","channel_id":"ch1","message_id":"msg1","emoji":"x"}"#,
        r#"{"type":"typing_stop","sender_id":"u"}"#,
    ] {
        assert_eq!(rx1.try_recv().unwrap(), expected);
    }
    assert!(rx1.try_recv().is_err());
}

#[test]
fn agent_hears_only_the_allowed_over_proved_connections() {
    let mut ch = test_channel("tok", &["user_a".to_string()]);
    let mut stranger = accept(&mut ch, "c1");
    let (mut proved, _rx) = connect(&mut ch, "c2", "tok");
    let early = ch.handle_event(&mut stranger, message("x", "user_a"), 0);
    assert!(matches!(early, Directive::Write(_)));
    let refused = ch.handle_event(&mut proved, message("x", "user_b"), 0);
    assert!(matches!(refused, Directive::Read));
    let heard = ch.handle_event(&mut proved, message("x", "user_a"), 0);
    assert!(matches!(heard, Directive::Forward(_)));
    assert_eq!(ch.resolve("user_a").unwrap(), "c2");
}

#[test]
fn conversations_are_kept_apart() {
    let mut ch = test_channel("tok", &["*".to_string()]);
    let (mut session, _rx) = connect(&mut ch, "c1", "tok");
    let mut keys: Vec<String> = Vec::new();
    for sender in ["user_a", "user_b", ""] {
        match ch.handle_event(&mut session, message("x", sender), 0) {
            Directive::Forward(msg) => keys.push(msg.sender),
            _ => panic!("nothing for the agent"),
        }
        ch.handle_event(&mut session, Event::BusAnswered(true), 0);
    }
    assert_eq!(keys, vec!["bridge_user_a", "bridge_user_b", "bridge_"]);
}

#[test]
fn unexpected_events_change_nothing() {
    let mut ch = test_channel("tok", &["*".to_string()]);
    let (mut session, _rx) = connect(&mut ch, "c1", "tok");
    for event in [
        Event::ReplyWritten(true),
        Event::AuthTimeout,
        Event::BusAnswered(false),
    ] {
        let directive = ch.handle_event(&mut session, event, 0);
        assert!(matches!(directive, Directive::Ignored));
        assert_eq!(session.phase(), Phase::Open);
    }
}
