//! What the bridge does about whatever happens to a connection, seen from
//! outside: what goes in, what comes out, and what is left behind.

use crate::channel::carried_out;
use crate::channel::Directive;
use crate::error::BridgeError;
use crate::frames::InboundFrame;
use crate::frames::OutboundFrame;
use crate::ids::FreshId;
use crate::laws::wire::law_auth_result_text;
use crate::laws::wire::law_auth_result_text_with_reason;
use crate::laws::wire::law_error_text;
use crate::laws::wire::law_ordinary_text_is_kept;
use crate::laws::wire::law_pong_text;
use crate::queue::Answer;
use crate::queue::QueueState;
use crate::session::run;
use crate::session::session_step;
use crate::session::Action;
use crate::session::Event;
use crate::session::Phase;
use crate::session::Rejection;
use crate::session::AUTH_TIMEOUT_SECS;
use crate::session::WS_UPGRADE_TIMEOUT_SECS;
use crate::state::replied;
use crate::state::BridgeState;
use vstd::prelude::*;

verus! {

proof fn lemma_accept_text()
    ensures
        (OutboundFrame::AuthResult { success: true, error: None }).wire_text() == "{\"type\":\"auth_result\",\"success\":true}"@,
{
    reveal_strlit("{\"type\":\"auth_result\"");
    reveal_strlit(",\"success\":");
    reveal_strlit("true");
    reveal_strlit("}");
    reveal_strlit("{\"type\":\"auth_result\",\"success\":true}");
    law_auth_result_text(true);
    assert("{\"type\":\"auth_result\""@ + ",\"success\":"@ + "true"@ + "}"@
        =~= "{\"type\":\"auth_result\",\"success\":true}"@);
}

proof fn lemma_not_auth_text()
    ensures
        (OutboundFrame::AuthResult {
            success: false,
            error: Some("auth required as first message"),
        }).wire_text() == "{\"type\":\"auth_result\",\"success\":false,\"error\":\"auth required as first message\"}"@,
{
    reveal_strlit("{\"type\":\"auth_result\"");
    reveal_strlit(",\"success\":");
    reveal_strlit("false");
    reveal_strlit(",\"error\":");
    reveal_strlit("}");
    reveal_strlit("{\"type\":\"auth_result\",\"success\":false,\"error\":\"auth required as first message\"}");
    reveal_strlit("auth required as first message");
    law_auth_result_text_with_reason(false, "auth required as first message");
    law_ordinary_text_is_kept("auth required as first message"@);
    assert("{\"type\":\"auth_result\""@ + ",\"success\":"@ + "false"@ + ",\"error\":"@ + (seq!['"'] + "auth required as first message"@ + seq!['"']) + "}"@
        =~= "{\"type\":\"auth_result\",\"success\":false,\"error\":\"auth required as first message\"}"@);
}

proof fn lemma_bad_token_text()
    ensures
        (OutboundFrame::AuthResult { success: false, error: Some("invalid token") }).wire_text() == "{\"type\":\"auth_result\",\"success\":false,\"error\":\"invalid token\"}"@,
{
    reveal_strlit("{\"type\":\"auth_result\"");
    reveal_strlit(",\"success\":");
    reveal_strlit("false");
    reveal_strlit(",\"error\":");
    reveal_strlit("}");
    reveal_strlit("{\"type\":\"auth_result\",\"success\":false,\"error\":\"invalid token\"}");
    reveal_strlit("invalid token");
    law_auth_result_text_with_reason(false, "invalid token");
    law_ordinary_text_is_kept("invalid token"@);
    assert("{\"type\":\"auth_result\""@ + ",\"success\":"@ + "false"@ + ",\"error\":"@ + (seq!['"'] + "invalid token"@ + seq!['"']) + "}"@
        =~= "{\"type\":\"auth_result\",\"success\":false,\"error\":\"invalid token\"}"@);
}

proof fn lemma_pong_text()
    ensures
        OutboundFrame::Pong.wire_text() == "{\"type\":\"pong\"}"@,
{
    reveal_strlit("{\"type\":\"pong\"");
    reveal_strlit("}");
    reveal_strlit("{\"type\":\"pong\"}");
    law_pong_text();
    assert("{\"type\":\"pong\""@ + "}"@
        =~= "{\"type\":\"pong\"}"@);
}

proof fn lemma_bad_frame_text()
    ensures
        (OutboundFrame::Error { message: "invalid JSON frame" }).wire_text() == "{\"type\":\"error\",\"message\":\"invalid JSON frame\"}"@,
{
    reveal_strlit("{\"type\":\"error\"");
    reveal_strlit(",\"message\":");
    reveal_strlit("}");
    reveal_strlit("{\"type\":\"error\",\"message\":\"invalid JSON frame\"}");
    reveal_strlit("invalid JSON frame");
    law_error_text("invalid JSON frame");
    law_ordinary_text_is_kept("invalid JSON frame"@);
    assert("{\"type\":\"error\""@ + ",\"message\":"@ + (seq!['"'] + "invalid JSON frame"@ + seq!['"']) + "}"@
        =~= "{\"type\":\"error\",\"message\":\"invalid JSON frame\"}"@);
}

proof fn lemma_not_allowed_text()
    ensures
        (OutboundFrame::Error { message: "sender not allowed" }).wire_text() == "{\"type\":\"error\",\"message\":\"sender not allowed\"}"@,
{
    reveal_strlit("{\"type\":\"error\"");
    reveal_strlit(",\"message\":");
    reveal_strlit("}");
    reveal_strlit("{\"type\":\"error\",\"message\":\"sender not allowed\"}");
    reveal_strlit("sender not allowed");
    law_error_text("sender not allowed");
    law_ordinary_text_is_kept("sender not allowed"@);
    assert("{\"type\":\"error\""@ + ",\"message\":"@ + (seq!['"'] + "sender not allowed"@ + seq!['"']) + "}"@
        =~= "{\"type\":\"error\",\"message\":\"sender not allowed\"}"@);
}

/// The token decides, whatever it is: a client that shows exactly the configured
/// token is told that it is let in, and any other token is turned away.
pub proof fn law_token_decides(
    before: BridgeState,
    after: BridgeState,
    conn_id: Seq<char>,
    token: String,
    directive: Directive,
    now: u64,
)
    requires
        carried_out(
            before,
            after,
            conn_id,
            session_step(Phase::Handshake, conn_id, before.token, before.allowed, Event::Frame(InboundFrame::Auth { token })@).1,
            directive,
            now,
        ),
    ensures
        after == before,
        token@ == before.token ==> {
            &&& session_step(Phase::Handshake, conn_id, before.token, before.allowed, Event::Frame(InboundFrame::Auth { token })@).0 == Phase::AcceptPending
            &&& (directive matches Directive::Write(text) && text@
            == "{\"type\":\"auth_result\",\"success\":true}"@)
        },
        token@ != before.token ==> {
            &&& session_step(Phase::Handshake, conn_id, before.token, before.allowed, Event::Frame(InboundFrame::Auth { token })@).0 == Phase::RejectPending(Rejection::BadToken)
            &&& (directive matches Directive::Write(text) && text@
            == "{\"type\":\"auth_result\",\"success\":false,\"error\":\"invalid token\"}"@)
        },
{
    lemma_accept_text();
    lemma_bad_token_text();
}

/// Before the token nothing else gets on: a heartbeat is answered, any other frame
/// turns the client away, whatever is no frame ends the connection with its own
/// error, and nothing changes the bridge.
pub proof fn law_others_wait_for_the_token(
    before: BridgeState,
    after: BridgeState,
    conn_id: Seq<char>,
    event: Event,
    directive: Directive,
    now: u64,
)
    requires
        carried_out(
            before,
            after,
            conn_id,
            session_step(Phase::Handshake, conn_id, before.token, before.allowed, event@).1,
            directive,
            now,
        ),
    ensures
        after == before,
        match event {
            Event::Frame(InboundFrame::Ping) => {
                &&& session_step(Phase::Handshake, conn_id, before.token, before.allowed, event@).0 == Phase::PongPending
                &&& (directive matches Directive::Write(text) && text@
            == "{\"type\":\"pong\"}"@)
            },
            Event::Frame(InboundFrame::Message { .. }) => {
                &&& session_step(Phase::Handshake, conn_id, before.token, before.allowed, event@).0 == Phase::RejectPending(Rejection::NotAuth)
                &&& (directive matches Directive::Write(text) && text@
            == "{\"type\":\"auth_result\",\"success\":false,\"error\":\"auth required as first message\"}"@)
            },
            Event::Frame(InboundFrame::ApprovalResponse { .. }) => {
                &&& session_step(Phase::Handshake, conn_id, before.token, before.allowed, event@).0 == Phase::RejectPending(Rejection::NotAuth)
                &&& (directive matches Directive::Write(text) && text@
            == "{\"type\":\"auth_result\",\"success\":false,\"error\":\"auth required as first message\"}"@)
            },
            Event::Frame(InboundFrame::Auth { .. }) => directive is Write,
            Event::BadText => {
                &&& session_step(Phase::Handshake, conn_id, before.token, before.allowed, event@).0 == Phase::Done
                &&& directive == Directive::Fail(BridgeError::InvalidJsonDuringAuth)
            },
            Event::CloseFrame => {
                &&& session_step(Phase::Handshake, conn_id, before.token, before.allowed, event@).0 == Phase::Done
                &&& directive == Directive::Fail(BridgeError::ClientClosedDuringAuth)
            },
            Event::ReadError => {
                &&& session_step(Phase::Handshake, conn_id, before.token, before.allowed, event@).0 == Phase::Done
                &&& directive == Directive::Fail(BridgeError::ReadDuringAuth)
            },
            Event::EndOfStream => {
                &&& session_step(Phase::Handshake, conn_id, before.token, before.allowed, event@).0 == Phase::Done
                &&& directive == Directive::Fail(BridgeError::ClosedBeforeAuth)
            },
            Event::AuthTimeout => {
                &&& session_step(Phase::Handshake, conn_id, before.token, before.allowed, event@).0 == Phase::Done
                &&& directive == Directive::Fail(BridgeError::AuthTimeout)
            },
            Event::Other => session_step(Phase::Handshake, conn_id, before.token, before.allowed, event@).0 == Phase::Handshake && directive is Read,
            _ => session_step(Phase::Handshake, conn_id, before.token, before.allowed, event@).0 == Phase::Handshake && directive is Ignored,
        },
{
    lemma_pong_text();
    lemma_not_auth_text();
}

/// Once a heartbeat before the token is answered, the client has the same chance as
/// before it. An answer that cannot be written, or comes too late, ends the
/// connection.
pub proof fn law_heartbeat_before_the_token_is_forgotten(
    before: BridgeState,
    after: BridgeState,
    conn_id: Seq<char>,
    event: Event,
    directive: Directive,
    now: u64,
)
    requires
        carried_out(
            before,
            after,
            conn_id,
            session_step(Phase::PongPending, conn_id, before.token, before.allowed, event@).1,
            directive,
            now,
        ),
    ensures
        after == before,
        match event {
            Event::ReplyWritten(true) => session_step(Phase::PongPending, conn_id, before.token, before.allowed, event@).0 == Phase::Handshake && directive is Read,
            Event::ReplyWritten(false) => {
                &&& session_step(Phase::PongPending, conn_id, before.token, before.allowed, event@).0 == Phase::Done
                &&& directive == Directive::Fail(BridgeError::WriteDuringAuth)
            },
            Event::AuthTimeout => {
                &&& session_step(Phase::PongPending, conn_id, before.token, before.allowed, event@).0 == Phase::Done
                &&& directive == Directive::Fail(BridgeError::AuthTimeout)
            },
            _ => session_step(Phase::PongPending, conn_id, before.token, before.allowed, event@).0 == Phase::PongPending && directive is Ignored,
        },
{
}

/// A client that is turned away leaves with the reason, under its own identifier,
/// once it was told. Nothing else happens to it; only a client that sent no token
/// is still bound by the time for the handshake.
pub proof fn law_turned_away_client_leaves_with_its_reason(
    before: BridgeState,
    after: BridgeState,
    conn_id: Seq<char>,
    rejection: Rejection,
    event: Event,
    directive: Directive,
    now: u64,
)
    requires
        carried_out(
            before,
            after,
            conn_id,
            session_step(Phase::RejectPending(rejection), conn_id, before.token, before.allowed, event@).1,
            directive,
            now,
        ),
    ensures
        after == before,
        match event {
            Event::ReplyWritten(true) => {
                &&& session_step(Phase::RejectPending(rejection), conn_id, before.token, before.allowed, event@).0 == Phase::Done
                &&& rejection == Rejection::NotAuth ==> directive == Directive::Fail(
                    BridgeError::NotAuthenticated,
                )
                &&& rejection == Rejection::BadToken ==> (directive matches Directive::Fail(
                    BridgeError::AuthFailed { conn_id: named },
                ) && named@ == conn_id)
            },
            Event::ReplyWritten(false) => {
                &&& session_step(Phase::RejectPending(rejection), conn_id, before.token, before.allowed, event@).0 == Phase::Done
                &&& directive == Directive::Fail(BridgeError::WriteDuringAuth)
            },
            Event::AuthTimeout if rejection == Rejection::NotAuth => {
                &&& session_step(Phase::RejectPending(rejection), conn_id, before.token, before.allowed, event@).0 == Phase::Done
                &&& directive == Directive::Fail(BridgeError::AuthTimeout)
            },
            _ => session_step(Phase::RejectPending(rejection), conn_id, before.token, before.allowed, event@).0 == Phase::RejectPending(rejection) && directive is Ignored,
        },
{
}

/// Once a client was told that it is let in, it is known under its identifier with
/// a queue of its own, which is empty, holds 1024 texts and comes out where the
/// writer reads. Other connections and all routes are as they were.
pub proof fn law_client_that_is_let_in_gets_a_queue(
    before: BridgeState,
    after: BridgeState,
    conn_id: Seq<char>,
    event: Event,
    directive: Directive,
    now: u64,
)
    requires
        carried_out(
            before,
            after,
            conn_id,
            session_step(Phase::AcceptPending, conn_id, before.token, before.allowed, event@).1,
            directive,
            now,
        ),
    ensures
        match event {
            Event::ReplyWritten(true) => {
                let queue = after.connections[conn_id];
                &&& session_step(Phase::AcceptPending, conn_id, before.token, before.allowed, event@).0 == Phase::Open
                &&& directive matches Directive::StartWriter(writer) && queue.readers.contains(
                    writer,
                )
                &&& queue.bound == 1024
                &&& queue.taken.len() == 0
                &&& queue.refused.len() == 0
                &&& after == (BridgeState {
                    connections: before.connections.insert(conn_id, queue),
                    departed: if before.connections.contains_key(conn_id) {
                        before.departed.insert(conn_id, before.connections[conn_id])
                    } else {
                        before.departed
                    },
                    ..before
                })
            },
            Event::ReplyWritten(false) => {
                &&& session_step(Phase::AcceptPending, conn_id, before.token, before.allowed, event@).0 == Phase::Done
                &&& directive == Directive::Fail(BridgeError::WriteDuringAuth)
                &&& after == before
            },
            _ => session_step(Phase::AcceptPending, conn_id, before.token, before.allowed, event@).0 == Phase::AcceptPending && directive is Ignored && after == before,
        },
{
}

/// What a sender says reaches the agent as it was said, if the sender is let in:
/// the same words, in the same thread, under the key of the sender. Replies to the
/// sender then go to this connection, and nothing else changes. A sender who is
/// not let in is told so, over this connection, and nothing else happens.
pub proof fn law_messages_reach_the_agent(
    before: BridgeState,
    after: BridgeState,
    conn_id: Seq<char>,
    content: String,
    sender_id: String,
    thread_id: Option<String>,
    directive: Directive,
    now: u64,
)
    requires
        carried_out(
            before,
            after,
            conn_id,
            session_step(Phase::Open, conn_id, before.token, before.allowed, Event::Frame(InboundFrame::Message { content, sender_id, thread_id })@).1,
            directive,
            now,
        ),
    ensures
        before.allowed.contains(sender_id@) ==> {
            &&& session_step(Phase::Open, conn_id, before.token, before.allowed, Event::Frame(InboundFrame::Message { content, sender_id, thread_id })@).0 == Phase::BusPending
            &&& directive matches Directive::Forward(message) && {
                &&& message.content@ == content@
                &&& message.reply_target@ == sender_id@
                &&& message.sender@ == "bridge_"@ + sender_id@
                &&& message.channel@ == "bridge"@
                &&& message.timestamp == now
                &&& message.thread_ts is Some <==> thread_id is Some
                &&& thread_id is Some ==> message.thread_ts->0@ == thread_id->0@
                &&& message.id@.len() == 36
                &&& exists|id: FreshId| #[trigger] id@ == message.id@
            }
            &&& after == (BridgeState {
                routing: before.routing.insert(sender_id@, conn_id),
                ..before
            })
        },
        !before.allowed.contains(sender_id@) ==> {
            &&& session_step(Phase::Open, conn_id, before.token, before.allowed, Event::Frame(InboundFrame::Message { content, sender_id, thread_id })@).0 == Phase::Open
            &&& directive is Read
            &&& (if before.connections.contains_key(conn_id) {
            let (queue, last) = (before.connections[conn_id], after.connections[conn_id]);
            let text = "{\"type\":\"error\",\"message\":\"sender not allowed\"}"@;
            &&& after == (BridgeState {
                connections: before.connections.insert(conn_id, last),
                ..before
            })
            &&& last == (QueueState { taken: queue.taken.push(text), ..queue }) || last == (
            QueueState { refused: queue.refused.push((text, true)), ..queue }) || last == (
            QueueState { refused: queue.refused.push((text, false)), ..queue })
        } else {
            after == before
        })
        },
{
    lemma_not_allowed_text();
    if !before.allowed.contains(sender_id@) {
        lemma_reply(before, after, conn_id, "{\"type\":\"error\",\"message\":\"sender not allowed\"}"@);
    }
}

/// What a user answers to a prompt reaches the agent as the command that says so,
/// if the user is let in: `/approve-allow` where it was approved, `/approve-deny`
/// where it was not, with the identifier of the prompt. It changes nothing, not
/// even a route. An answer of a user who is not let in is passed over.
pub proof fn law_approval_answers_reach_the_agent(
    before: BridgeState,
    after: BridgeState,
    conn_id: Seq<char>,
    request_id: String,
    approved: bool,
    sender_id: String,
    directive: Directive,
    now: u64,
)
    requires
        carried_out(
            before,
            after,
            conn_id,
            session_step(Phase::Open, conn_id, before.token, before.allowed, Event::Frame(InboundFrame::ApprovalResponse { request_id, approved, sender_id })@).1,
            directive,
            now,
        ),
    ensures
        after == before,
        before.allowed.contains(sender_id@) ==> {
            &&& session_step(Phase::Open, conn_id, before.token, before.allowed, Event::Frame(InboundFrame::ApprovalResponse { request_id, approved, sender_id })@).0 == Phase::BusPending
            &&& directive matches Directive::Forward(message) && {
                &&& message.content@ == (if approved {
                    "/approve-allow "@
                } else {
                    "/approve-deny "@
                }) + request_id@
                &&& message.reply_target@ == sender_id@
                &&& message.sender@ == "bridge_"@ + sender_id@
                &&& message.channel@ == "bridge"@
                &&& message.timestamp == now
                &&& message.thread_ts is None
                &&& message.id@.len() == 36
                &&& exists|id: FreshId| #[trigger] id@ == message.id@
            }
        },
        !before.allowed.contains(sender_id@) ==> {
            &&& session_step(Phase::Open, conn_id, before.token, before.allowed, Event::Frame(InboundFrame::ApprovalResponse { request_id, approved, sender_id })@).0 == Phase::Open
            &&& directive is Read
        },
{
}

/// A heartbeat and a text that is no frame are answered over the connection itself,
/// a second handshake and data without text are passed over, and the connection
/// goes on. It ends, and is no longer known, when the client closes it, when
/// reading fails and at the end of the stream. Nothing else changes.
pub proof fn law_other_talk_is_answered_or_passed_over(
    before: BridgeState,
    after: BridgeState,
    conn_id: Seq<char>,
    event: Event,
    directive: Directive,
    now: u64,
)
    requires
        carried_out(
            before,
            after,
            conn_id,
            session_step(Phase::Open, conn_id, before.token, before.allowed, event@).1,
            directive,
            now,
        ),
    ensures
        match event {
            Event::Frame(InboundFrame::Auth { .. }) => {
                session_step(Phase::Open, conn_id, before.token, before.allowed, event@).0 == Phase::Open && directive is Read && after == before
            },
            Event::Frame(InboundFrame::Ping) => {
                &&& session_step(Phase::Open, conn_id, before.token, before.allowed, event@).0 == Phase::Open
                &&& directive is Read
                &&& (if before.connections.contains_key(conn_id) {
            let (queue, last) = (before.connections[conn_id], after.connections[conn_id]);
            let text = "{\"type\":\"pong\"}"@;
            &&& after == (BridgeState {
                connections: before.connections.insert(conn_id, last),
                ..before
            })
            &&& last == (QueueState { taken: queue.taken.push(text), ..queue }) || last == (
            QueueState { refused: queue.refused.push((text, true)), ..queue }) || last == (
            QueueState { refused: queue.refused.push((text, false)), ..queue })
        } else {
            after == before
        })
            },
            Event::Frame(_) => true,
            Event::BadText => {
                &&& session_step(Phase::Open, conn_id, before.token, before.allowed, event@).0 == Phase::Open
                &&& directive is Read
                &&& (if before.connections.contains_key(conn_id) {
            let (queue, last) = (before.connections[conn_id], after.connections[conn_id]);
            let text = "{\"type\":\"error\",\"message\":\"invalid JSON frame\"}"@;
            &&& after == (BridgeState {
                connections: before.connections.insert(conn_id, last),
                ..before
            })
            &&& last == (QueueState { taken: queue.taken.push(text), ..queue }) || last == (
            QueueState { refused: queue.refused.push((text, true)), ..queue }) || last == (
            QueueState { refused: queue.refused.push((text, false)), ..queue })
        } else {
            after == before
        })
            },
            Event::Other => session_step(Phase::Open, conn_id, before.token, before.allowed, event@).0 == Phase::Open && directive is Read && after == before,
            Event::CloseFrame | Event::ReadError | Event::EndOfStream => {
                &&& session_step(Phase::Open, conn_id, before.token, before.allowed, event@).0 == Phase::Done
                &&& directive is Close
                &&& after == (BridgeState {
                    connections: before.connections.remove(conn_id),
                    departed: if before.connections.contains_key(conn_id) {
                        before.departed.insert(conn_id, before.connections[conn_id])
                    } else {
                        before.departed
                    },
                    ..before
                })
            },
            _ => session_step(Phase::Open, conn_id, before.token, before.allowed, event@).0 == Phase::Open && directive is Ignored && after == before,
        },
{
    lemma_pong_text();
    lemma_bad_frame_text();
    if event == Event::<String>::Frame(InboundFrame::Ping) {
        lemma_reply(before, after, conn_id, "{\"type\":\"pong\"}"@);
    }
    if event is BadText {
        lemma_reply(before, after, conn_id, "{\"type\":\"error\",\"message\":\"invalid JSON frame\"}"@);
    }
    if !before.connections.contains_key(conn_id) {
        assert(before.connections.remove(conn_id) =~= before.connections);
    }
}

/// Once the agent has taken a message the connection goes on as before it, under
/// whatever identifier. Only an agent that listens no more ends it.
pub proof fn law_connection_outlives_its_messages(
    before: BridgeState,
    after: BridgeState,
    conn_id: Seq<char>,
    event: Event,
    directive: Directive,
    now: u64,
)
    requires
        carried_out(
            before,
            after,
            conn_id,
            session_step(Phase::BusPending, conn_id, before.token, before.allowed, event@).1,
            directive,
            now,
        ),
    ensures
        match event {
            Event::BusAnswered(true) => {
                session_step(Phase::BusPending, conn_id, before.token, before.allowed, event@).0 == Phase::Open && directive is Read && after == before
            },
            Event::BusAnswered(false) => {
                &&& session_step(Phase::BusPending, conn_id, before.token, before.allowed, event@).0 == Phase::Done
                &&& directive is Close
                &&& after == (BridgeState {
                    connections: before.connections.remove(conn_id),
                    departed: if before.connections.contains_key(conn_id) {
                        before.departed.insert(conn_id, before.connections[conn_id])
                    } else {
                        before.departed
                    },
                    ..before
                })
            },
            _ => session_step(Phase::BusPending, conn_id, before.token, before.allowed, event@).0 == Phase::BusPending && directive is Ignored && after == before,
        },
{
    if !before.connections.contains_key(conn_id) {
        assert(before.connections.remove(conn_id) =~= before.connections);
    }
}

/// Whatever happens to a connection that is over, nothing is done about it.
pub proof fn law_nothing_happens_after_the_end(
    before: BridgeState,
    after: BridgeState,
    conn_id: Seq<char>,
    event: Event,
    directive: Directive,
    now: u64,
)
    requires
        carried_out(
            before,
            after,
            conn_id,
            session_step(Phase::Done, conn_id, before.token, before.allowed, event@).1,
            directive,
            now,
        ),
    ensures
        session_step(Phase::Done, conn_id, before.token, before.allowed, event@).0 == Phase::Done,
        directive is Ignored,
        after == before,
{
}

proof fn lemma_reply(before: BridgeState, after: BridgeState, conn_id: Seq<char>, text: Seq<char>)
    requires
        exists|answer: Answer| after == #[trigger] replied(before, conn_id, text, answer),
    ensures
        if before.connections.contains_key(conn_id) {
            let (queue, last) = (before.connections[conn_id], after.connections[conn_id]);
            &&& after == (BridgeState {
                connections: before.connections.insert(conn_id, last),
                ..before
            })
            &&& last == (QueueState { taken: queue.taken.push(text), ..queue }) || last == (
            QueueState { refused: queue.refused.push((text, true)), ..queue }) || last == (
            QueueState { refused: queue.refused.push((text, false)), ..queue })
        } else {
            after == before
        },
{
}

/// A client stays connected for as long as it likes: a connection that is let in
/// goes on through whatever happens, under whatever identifier, until the client
/// closes it, reading fails, the stream ends, or the agent listens no more.
pub proof fn law_open_life_ends_only_for_a_reason(
    phase: Phase,
    conn_id: Seq<char>,
    token: Seq<char>,
    allowed: Set<Seq<char>>,
    event: Event<Seq<char>>,
)
    requires
        phase == Phase::Open || phase == Phase::BusPending,
    ensures
        ({
            let (next, action) = session_step(phase, conn_id, token, allowed, event);
            let ends = if phase == Phase::Open {
                event is CloseFrame || event is ReadError || event is EndOfStream
            } else {
                event == Event::<Seq<char>>::BusAnswered(false)
            };
            &&& ends ==> next == Phase::Done && action is Close
            &&& !ends ==> next == Phase::Open || next == Phase::BusPending
            &&& !ends ==> !(action is Close) && !(action is Fail)
        }),
{
}

/// A client can go on talking for ever: while nothing ends the connection it is
/// let in, however much happens.
pub proof fn law_open_life_goes_on(
    conn_id: Seq<char>,
    token: Seq<char>,
    allowed: Set<Seq<char>>,
    events: Seq<Event<Seq<char>>>,
)
    requires
        forall|i: int|
            0 <= i < events.len() ==> {
                &&& !(#[trigger] events[i] is CloseFrame)
                &&& !(events[i] is ReadError)
                &&& !(events[i] is EndOfStream)
                &&& events[i] != Event::<Seq<char>>::BusAnswered(false)
            },
    ensures
        ({
            let phase = run(Phase::Open, conn_id, token, allowed, events);
            phase == Phase::Open || phase == Phase::BusPending
        }),
    decreases events.len(),
{
    if events.len() > 0 {
        let front = events.drop_last();
        assert forall|i: int| 0 <= i < front.len() implies {
            &&& !(#[trigger] front[i] is CloseFrame)
            &&& !(front[i] is ReadError)
            &&& !(front[i] is EndOfStream)
            &&& front[i] != Event::<Seq<char>>::BusAnswered(false)
        } by {
            assert(front[i] == events[i]);
        }
        law_open_life_goes_on(conn_id, token, allowed, front);
        let n = events.len() - 1;
        assert(!(events[n] is CloseFrame));
        let before = run(Phase::Open, conn_id, token, allowed, front);
        law_open_life_ends_only_for_a_reason(before, conn_id, token, allowed, events[n]);
    }
}

/// The right token opens the connection, whatever the token is and however often
/// the client asked for a heartbeat before: the client shows it, is told so, and
/// is in.
pub proof fn law_right_token_opens(
    conn_id: Seq<char>,
    token: Seq<char>,
    allowed: Set<Seq<char>>,
    events: Seq<Event<Seq<char>>>,
)
    requires
        run(Phase::Handshake, conn_id, token, allowed, events) == Phase::Handshake,
    ensures
        ({
            let shown = events.push(Event::Frame(InboundFrame::Auth { token }));
            let told = shown.push(Event::ReplyWritten(true));
            &&& run(Phase::Handshake, conn_id, token, allowed, shown) == Phase::AcceptPending
            &&& run(Phase::Handshake, conn_id, token, allowed, told) == Phase::Open
            &&& session_step(
                Phase::AcceptPending,
                conn_id,
                token,
                allowed,
                Event::ReplyWritten(true),
            ).1 == Action::<Seq<char>>::Register
        }),
{
    let shown = events.push(Event::Frame(InboundFrame::Auth { token }));
    let told = shown.push(Event::ReplyWritten(true));
    assert(shown.drop_last() =~= events);
    assert(told.drop_last() =~= shown);
}

/// A client has ten seconds for the handshake, after ten for the upgrade.
pub proof fn law_time_limits()
    ensures
        AUTH_TIMEOUT_SECS == 10,
        WS_UPGRADE_TIMEOUT_SECS == 10,
{
}

} // verus!
