//! What comes of calling the operations that change the bridge.

use crate::channel::carried_out;
use crate::channel::result_of;
use crate::channel::BridgeChannel;
use crate::channel::Directive;
use crate::error::BridgeError;
use crate::frames::InboundFrame;
use crate::frames::OutboundFrame;
use crate::json::quoted;
use crate::json::value_text;
use crate::laws::operations::law_broadcast_reaches_everybody;
use crate::laws::operations::law_cleanup_leaves_the_others_alone;
use crate::laws::operations::law_drafts_carry_what_is_said;
use crate::laws::operations::law_listed_connections_are_dropped;
use crate::laws::operations::law_offers_decide;
use crate::laws::operations::law_removal_is_complete_and_exact;
use crate::laws::operations::law_replies_carry_what_is_said;
use crate::laws::operations::law_send_delivers_or_says_why;
use crate::laws::protocol::law_approval_answers_reach_the_agent;
use crate::laws::protocol::law_connection_outlives_its_messages;
use crate::laws::protocol::law_messages_reach_the_agent;
use crate::laws::protocol::law_token_decides;
use crate::laws::wire::law_approval_prompt_text;
use crate::laws::wire::law_draft_cancel_text;
use crate::laws::wire::law_draft_finalize_text;
use crate::laws::wire::law_draft_update_text;
use crate::laws::wire::law_reaction_add_text;
use crate::laws::wire::law_reaction_remove_text;
use crate::laws::wire::law_typing_start_text;
use crate::laws::wire::law_typing_stop_text;
use crate::message::SendMessage;
use crate::queue::Offer;
use crate::queue::QueueState;
use crate::session::session_step;
use crate::session::Event;
use crate::session::Phase;
use crate::session::Rejection;
use crate::session::Session;
use crate::state::sends;
use crate::state::BridgeState;
use vstd::prelude::*;

verus! {

/// A text for a sender goes into the queue of the connection that last spoke for
/// it, after what is there, or the call fails with the reason: nobody spoke for
/// the sender, its connection is gone, or its connection took no more and goes.
pub proof fn law_call_send_to_sender(
    bridge: &mut BridgeChannel,
    sender_id: &str,
    json: &str,
    result: Result<(), BridgeError>,
)
    requires
        old(bridge).wf(),
        call_ensures(BridgeChannel::send_to_sender, (bridge, sender_id, json), result),
    ensures
        sends(old(bridge)@, final(bridge)@, result_of(result), sender_id@, json@),
        ({
            let (before, after) = (old(bridge)@, final(bridge)@);
            let conn_id = before.routing[sender_id@];
            let queue = before.connections[conn_id];
            let heard = before.routing.contains_key(sender_id@);
            let known = before.connections.contains_key(conn_id);
            &&& !heard ==> result == Err::<(), BridgeError>(BridgeError::NoConnection) && after
                == before
            &&& heard && !known ==> (result matches Err(
                BridgeError::ConnectionNotFound { conn_id: named },
            ) && named@ == conn_id) && after == before
            &&& heard && known && result is Ok ==> after == (BridgeState {
                connections: before.connections.insert(
                    conn_id,
                    QueueState { taken: queue.taken.push(json@), ..queue },
                ),
                ..before
            })
            &&& heard && known && result is Err ==> {
                &&& result matches Err(BridgeError::ConnectionClosed { sender_id: named })
                    && named@ == sender_id@
                &&& after.connections == before.connections.remove(conn_id)
                &&& after.departed[conn_id].taken == queue.taken
            }
        }),
{
    law_send_delivers_or_says_why(
        old(bridge)@,
        final(bridge)@,
        result,
        sender_id@,
        json@,
    );
}

/// A user is told that the agent starts to type.
pub proof fn law_call_start_typing(
    bridge: &mut BridgeChannel,
    recipient: &str,
    result: Result<(), BridgeError>,
)
    requires
        old(bridge).wf(),
        call_ensures(BridgeChannel::start_typing, (bridge, recipient), result),
    ensures
        sends(
            old(bridge)@,
            final(bridge)@,
            result_of(result),
            recipient@,
            "{\"type\":\"typing_start\""@
                + ",\"sender_id\":"@ + quoted(recipient@) + "}"@,
        ),
{
    law_typing_start_text(recipient);
}

/// A user is told that the agent stops typing.
pub proof fn law_call_stop_typing(
    bridge: &mut BridgeChannel,
    recipient: &str,
    result: Result<(), BridgeError>,
)
    requires
        old(bridge).wf(),
        call_ensures(BridgeChannel::stop_typing, (bridge, recipient), result),
    ensures
        sends(
            old(bridge)@,
            final(bridge)@,
            result_of(result),
            recipient@,
            "{\"type\":\"typing_stop\""@
                + ",\"sender_id\":"@ + quoted(recipient@) + "}"@,
        ),
{
    law_typing_stop_text(recipient);
}

/// A draft becomes the reply, with the final words.
pub proof fn law_call_finalize_draft(
    bridge: &mut BridgeChannel,
    recipient: &str,
    message_id: &str,
    text: &str,
    result: Result<(), BridgeError>,
)
    requires
        old(bridge).wf(),
        call_ensures(BridgeChannel::finalize_draft, (bridge, recipient, message_id, text), result),
    ensures
        sends(
            old(bridge)@,
            final(bridge)@,
            result_of(result),
            recipient@,
            "{\"type\":\"draft_finalize\""@
                + ",\"draft_id\":"@ + quoted(message_id@)
                + ",\"content\":"@ + quoted(text@)
                + ",\"sender_id\":"@ + quoted(recipient@) + "}"@,
        ),
{
    law_draft_finalize_text(message_id, text, recipient);
}

/// A draft is withdrawn.
pub proof fn law_call_cancel_draft(
    bridge: &mut BridgeChannel,
    recipient: &str,
    message_id: &str,
    result: Result<(), BridgeError>,
)
    requires
        old(bridge).wf(),
        call_ensures(BridgeChannel::cancel_draft, (bridge, recipient, message_id), result),
    ensures
        sends(
            old(bridge)@,
            final(bridge)@,
            result_of(result),
            recipient@,
            "{\"type\":\"draft_cancel\""@
                + ",\"draft_id\":"@ + quoted(message_id@)
                + ",\"sender_id\":"@ + quoted(recipient@) + "}"@,
        ),
{
    law_draft_cancel_text(message_id, recipient);
}

/// A user is asked whether the agent may use a tool, with the arguments as they are.
pub proof fn law_call_send_approval_prompt(
    bridge: &mut BridgeChannel,
    recipient: &str,
    request_id: &str,
    tool_name: &str,
    arguments: &serde_json::Value,
    thread_ts: Option<String>,
    result: Result<(), BridgeError>,
)
    requires
        old(bridge).wf(),
        call_ensures(BridgeChannel::send_approval_prompt, (bridge, recipient, request_id, tool_name, arguments, thread_ts), result),
    ensures
        sends(
            old(bridge)@,
            final(bridge)@,
            result_of(result),
            recipient@,
            "{\"type\":\"approval_prompt\""@
                + ",\"request_id\":"@ + quoted(request_id@)
                + ",\"tool_name\":"@ + quoted(tool_name@)
                + ",\"arguments\":"@ + value_text(*arguments)
                + ",\"sender_id\":"@ + quoted(recipient@) + "}"@,
        ),
{
    law_approval_prompt_text(request_id, tool_name, arguments, recipient);
}

/// A draft changes, and keeps its identifier.
pub proof fn law_call_update_draft(
    bridge: &mut BridgeChannel,
    recipient: &str,
    message_id: &str,
    text: &str,
    result: Result<Option<String>, BridgeError>,
)
    requires
        old(bridge).wf(),
        call_ensures(BridgeChannel::update_draft, (bridge, recipient, message_id, text), result),
    ensures
        result matches Ok(id) ==> id is None,
        sends(
            old(bridge)@,
            final(bridge)@,
            (match result {
                Ok(_) => Ok(()),
                Err(error) => result_of(Err(error)),
            }),
            recipient@,
            "{\"type\":\"draft_update\""@
                + ",\"draft_id\":"@ + quoted(message_id@)
                + ",\"content\":"@ + quoted(text@)
                + ",\"sender_id\":"@ + quoted(recipient@) + "}"@,
        ),
{
    law_draft_update_text(message_id, text, recipient);
}

/// A reply goes to its recipient as it is: its words, and its thread if it has one.
pub proof fn law_call_send(
    bridge: &mut BridgeChannel,
    message: &SendMessage,
    result: Result<(), BridgeError>,
)
    requires
        old(bridge).wf(),
        call_ensures(BridgeChannel::send, (bridge, message), result),
    ensures
        sends(
            old(bridge)@,
            final(bridge)@,
            result_of(result),
            message.recipient@,
            "{\"type\":\"message\""@ + ",\"content\":"@ + quoted(message.content@)
                + ",\"sender_id\":"@ + quoted(message.recipient@) + (match message.thread_ts {
                Some(thread_ts) => ",\"thread_ts\":"@ + quoted(thread_ts@),
                None => seq![],
            }) + "}"@,
        ),
{
    law_replies_carry_what_is_said(*message);
}

/// A draft is shown under the identifier that is returned, which is made from the
/// unique text that was given, or the call fails.
pub proof fn law_call_send_draft_as(
    bridge: &mut BridgeChannel,
    message: &SendMessage,
    unique: &str,
    result: Result<Option<String>, BridgeError>,
)
    requires
        old(bridge).wf(),
        call_ensures(BridgeChannel::send_draft_as, (bridge, message, unique), result),
    ensures
        result matches Ok(id) ==> id is Some && id->0@ == "bridge_draft_"@ + unique@,
        sends(
            old(bridge)@,
            final(bridge)@,
            (match result {
                Ok(_) => Ok(()),
                Err(error) => result_of(Err(error)),
            }),
            message.recipient@,
            "{\"type\":\"draft_start\""@
                + ",\"draft_id\":"@ + quoted("bridge_draft_"@ + unique@)
                + ",\"content\":"@ + quoted(message.content@)
                + ",\"sender_id\":"@ + quoted(message.recipient@) + "}"@,
        ),
{
    law_drafts_carry_what_is_said(old(bridge)@, final(bridge)@, result, *message, unique@);
}

/// A reaction is shown on a message for everybody: each known connection has the frame
/// as the last text in its queue, or refused it and is gone, with the routes that
/// lead to it and no others.
pub proof fn law_call_add_reaction(
    bridge: &mut BridgeChannel,
    channel_id: &str,
    message_id: &str,
    emoji: &str,
    result: Result<(), BridgeError>,
)
    requires
        old(bridge).wf(),
        call_ensures(BridgeChannel::add_reaction, (bridge, channel_id, message_id, emoji), result),
    ensures
        result is Ok,
        ({
            let (before, after) = (old(bridge)@, final(bridge)@);
            let text = "{\"type\":\"reaction_add\""@
                + ",\"channel_id\":"@ + quoted(channel_id@)
                + ",\"message_id\":"@ + quoted(message_id@)
                + ",\"emoji\":"@ + quoted(emoji@) + "}"@;
            &&& forall|conn_id: Seq<char>| #[trigger]
                before.connections.contains_key(conn_id) ==> {
                    let queue = before.connections[conn_id];
                    if after.connections.contains_key(conn_id) {
                        after.connections[conn_id] == (QueueState {
                            taken: queue.taken.push(text),
                            ..queue
                        })
                    } else {
                        let last = after.departed[conn_id];
                        last.taken == queue.taken && last.refused.len() == queue.refused.len() + 1
                            && last.refused.last().0 == text
                    }
                }
            &&& forall|sender_id: Seq<char>| #[trigger]
                after.routing.contains_key(sender_id) <==> before.routing.contains_key(sender_id)
                    && !(before.connections.contains_key(before.routing[sender_id])
                    && !after.connections.contains_key(before.routing[sender_id]))
        }),
{
    law_reaction_add_text(channel_id, message_id, emoji);
    law_broadcast_reaches_everybody(
        old(bridge)@,
        final(bridge)@,
        (OutboundFrame::ReactionAdd { channel_id, message_id, emoji }).wire_text(),
    );
}

/// A reaction is taken off a message for everybody: each known connection has the frame
/// as the last text in its queue, or refused it and is gone, with the routes that
/// lead to it and no others.
pub proof fn law_call_remove_reaction(
    bridge: &mut BridgeChannel,
    channel_id: &str,
    message_id: &str,
    emoji: &str,
    result: Result<(), BridgeError>,
)
    requires
        old(bridge).wf(),
        call_ensures(BridgeChannel::remove_reaction, (bridge, channel_id, message_id, emoji), result),
    ensures
        result is Ok,
        ({
            let (before, after) = (old(bridge)@, final(bridge)@);
            let text = "{\"type\":\"reaction_remove\""@
                + ",\"channel_id\":"@ + quoted(channel_id@)
                + ",\"message_id\":"@ + quoted(message_id@)
                + ",\"emoji\":"@ + quoted(emoji@) + "}"@;
            &&& forall|conn_id: Seq<char>| #[trigger]
                before.connections.contains_key(conn_id) ==> {
                    let queue = before.connections[conn_id];
                    if after.connections.contains_key(conn_id) {
                        after.connections[conn_id] == (QueueState {
                            taken: queue.taken.push(text),
                            ..queue
                        })
                    } else {
                        let last = after.departed[conn_id];
                        last.taken == queue.taken && last.refused.len() == queue.refused.len() + 1
                            && last.refused.last().0 == text
                    }
                }
            &&& forall|sender_id: Seq<char>| #[trigger]
                after.routing.contains_key(sender_id) <==> before.routing.contains_key(sender_id)
                    && !(before.connections.contains_key(before.routing[sender_id])
                    && !after.connections.contains_key(before.routing[sender_id]))
        }),
{
    law_reaction_remove_text(channel_id, message_id, emoji);
    law_broadcast_reaches_everybody(
        old(bridge)@,
        final(bridge)@,
        (OutboundFrame::ReactionRemove { channel_id, message_id, emoji }).wire_text(),
    );
}

/// Removing a connection takes it and the routes to it, and nothing else.
pub proof fn law_call_remove_connection(bridge: &mut BridgeChannel, conn_id: &str)
    requires
        old(bridge).wf(),
        call_ensures(BridgeChannel::remove_connection, (bridge, conn_id), ()),
    ensures
        ({
            let (before, after) = (old(bridge)@, final(bridge)@);
            &&& after.connections == before.connections.remove(conn_id@)
            &&& forall|sender: Seq<char>| #[trigger]
                after.routing.contains_key(sender) <==> before.routing.contains_key(sender)
                    && before.routing[sender] != conn_id@
            &&& forall|sender: Seq<char>| #[trigger]
                after.routing.contains_key(sender) ==> after.routing[sender]
                    == before.routing[sender]
            &&& after.listeners == before.listeners
        }),
{
    law_removal_is_complete_and_exact(old(bridge)@, conn_id@);
}

/// Drawing the consequence of an offer keeps the connection where its queue took
/// the text, and otherwise removes it and the routes to it, and nothing else.
pub proof fn law_call_settle(
    bridge: &mut BridgeChannel,
    sender_id: &str,
    conn_id: &str,
    offer: &Offer,
    result: Result<(), BridgeError>,
)
    requires
        old(bridge).wf(),
        call_ensures(BridgeChannel::settle, (bridge, sender_id, conn_id, offer), result),
    ensures
        *offer is Queued ==> result is Ok && final(bridge)@ == old(bridge)@,
        !(*offer is Queued) ==> {
            let (before, after) = (old(bridge)@, final(bridge)@);
            &&& result matches Err(BridgeError::ConnectionClosed { sender_id: named }) && named@
                == sender_id@
            &&& after.connections == before.connections.remove(conn_id@)
            &&& forall|sender: Seq<char>| #[trigger]
                after.routing.contains_key(sender) <==> before.routing.contains_key(sender)
                    && before.routing[sender] != conn_id@
            &&& forall|sender: Seq<char>| #[trigger]
                after.routing.contains_key(sender) ==> after.routing[sender]
                    == before.routing[sender]
            &&& after.listeners == before.listeners
        },
{
    law_offers_decide(
        old(bridge)@,
        final(bridge)@,
        result,
        sender_id@,
        conn_id@,
        *offer,
    );
}

/// Dropping connections takes the listed ones and the routes to them, and nothing
/// else.
pub proof fn law_call_drop_connections(bridge: &mut BridgeChannel, gone: &Vec<String>)
    requires
        old(bridge).wf(),
        call_ensures(BridgeChannel::drop_connections, (bridge, gone), ()),
    ensures
        ({
            let (before, after) = (old(bridge)@, final(bridge)@);
            &&& forall|conn_id: Seq<char>| #[trigger]
                after.connections.contains_key(conn_id) <==> before.connections.contains_key(
                    conn_id,
                ) && !(exists|i: int| 0 <= i < gone@.len() && (#[trigger] gone@[i])@ == conn_id)
            &&& forall|conn_id: Seq<char>| #[trigger]
                after.connections.contains_key(conn_id) ==> after.connections[conn_id]
                    == before.connections[conn_id]
            &&& forall|sender_id: Seq<char>| #[trigger]
                after.routing.contains_key(sender_id) <==> before.routing.contains_key(sender_id)
                    && !(exists|i: int|
                    0 <= i < gone@.len() && (#[trigger] gone@[i])@ == before.routing[sender_id])
            &&& forall|sender_id: Seq<char>| #[trigger]
                after.routing.contains_key(sender_id) ==> after.routing[sender_id]
                    == before.routing[sender_id]
        }),
{
    law_listed_connections_are_dropped(old(bridge)@, gone@);
}

/// Cleaning up after a client takes the client and the routes to it, and frees its
/// own slot; everybody else is served as before.
pub proof fn law_call_finish(bridge: &mut BridgeChannel, session: Session)
    requires
        old(bridge).wf(),
        call_ensures(BridgeChannel::finish, (bridge, session), ()),
    ensures
        ({
            let (before, after) = (old(bridge)@, final(bridge)@);
            let (conn_id, i) = (session.id(), session.origin() as int);
            &&& after.connections == before.connections.remove(conn_id)
            &&& forall|sender: Seq<char>| #[trigger]
                after.routing.contains_key(sender) <==> before.routing.contains_key(sender)
                    && before.routing[sender] != conn_id
            &&& forall|sender: Seq<char>| #[trigger]
                after.routing.contains_key(sender) ==> after.routing[sender]
                    == before.routing[sender]
            &&& after.listeners == if i < before.listeners.len() && before.listeners[i] > 0 {
                before.listeners.update(i, (before.listeners[i] - 1) as nat)
            } else {
                before.listeners
            }
        }),
{
    law_cleanup_leaves_the_others_alone(
        old(bridge)@,
        session.id(),
        session.origin(),
        Seq::empty(),
    );
}

/// A listener that is open takes a client on if, and only if, it serves fewer than
/// the bridge was set up for. The client then starts with the handshake and takes
/// one slot, and nothing else changes.
pub proof fn law_call_accept(bridge: &mut BridgeChannel, listener: usize, session: Option<Session>)
    requires
        old(bridge).wf(),
        call_ensures(BridgeChannel::accept, (bridge, listener), session),
    ensures
        ({
            let (before, after, i) = (old(bridge)@, final(bridge)@, listener as int);
            &&& session is Some <==> i < before.listeners.len() && before.listeners[i]
                < before.max_connections
            &&& session is None ==> after == before
            &&& session matches Some(session) ==> {
                &&& session.at() == Phase::Handshake
                &&& session.origin() == listener
                &&& session.id().len() == 36
                &&& after == (BridgeState {
                    listeners: before.listeners.update(i, before.listeners[i] + 1),
                    ..before
                })
            }
        }),
{
}

/// The same holds of a client that comes with its identifier.
pub proof fn law_call_accept_as(
    bridge: &mut BridgeChannel,
    listener: usize,
    conn_id: String,
    session: Option<Session>,
)
    requires
        old(bridge).wf(),
        call_ensures(BridgeChannel::accept_as, (bridge, listener, conn_id), session),
    ensures
        ({
            let (before, after, i) = (old(bridge)@, final(bridge)@, listener as int);
            &&& session is Some <==> i < before.listeners.len() && before.listeners[i]
                < before.max_connections
            &&& session is None ==> after == before
            &&& session matches Some(session) ==> {
                &&& session.at() == Phase::Handshake
                &&& session.origin() == listener
                &&& session.id() == conn_id@
                &&& after == (BridgeState {
                    listeners: before.listeners.update(i, before.listeners[i] + 1),
                    ..before
                })
            }
        }),
{
}

/// A new listener has the next number and serves nobody yet.
pub proof fn law_call_open_listener(bridge: &mut BridgeChannel, listener: usize)
    requires
        old(bridge).wf(),
        call_ensures(BridgeChannel::open_listener, (bridge,), listener),
    ensures
        listener == old(bridge)@.listeners.len(),
        final(bridge)@ == (BridgeState {
            listeners: old(bridge)@.listeners.push(0),
            ..old(bridge)@
        }),
{
}

/// Handling an event is one step of the connection's life, with what the bridge
/// has to do about it. The connection keeps its identifier and its listener.
pub proof fn law_call_handle_event(
    bridge: &mut BridgeChannel,
    session: &mut Session,
    event: Event,
    now: u64,
    directive: Directive,
)
    requires
        old(bridge).wf(),
        call_ensures(BridgeChannel::handle_event, (bridge, session, event, now), directive),
    ensures
        final(session).id() == old(session).id(),
        final(session).origin() == old(session).origin(),
        ({
            let before = old(bridge)@;
            let (next, action) = session_step(
                old(session).at(),
                old(session).id(),
                before.token,
                before.allowed,
                event@,
            );
            &&& final(session).at() == next
            &&& carried_out(before, final(bridge)@, old(session).id(), action, directive, now)
        }),
{
}

/// The right token lets a client in and any other does not: told so first, it is
/// known once that was written.
pub proof fn law_call_handle_token(
    bridge: &mut BridgeChannel,
    session: &mut Session,
    token: String,
    now: u64,
    directive: Directive,
)
    requires
        old(bridge).wf(),
        old(session).at() == Phase::Handshake,
        call_ensures(
            BridgeChannel::handle_event,
            (bridge, session, Event::Frame(InboundFrame::Auth { token }), now),
            directive,
        ),
    ensures
        final(bridge)@ == old(bridge)@,
        token@ == old(bridge)@.token ==> final(session).at() == Phase::AcceptPending && (
        directive matches Directive::Write(text) && text@
            == "{\"type\":\"auth_result\",\"success\":true}"@),
        token@ != old(bridge)@.token ==> final(session).at() == Phase::RejectPending(
            Rejection::BadToken,
        ) && (directive matches Directive::Write(text) && text@
            == "{\"type\":\"auth_result\",\"success\":false,\"error\":\"invalid token\"}"@),
{
    law_token_decides(
        old(bridge)@,
        final(bridge)@,
        old(session).id(),
        token,
        directive,
        now,
    );
}

/// After the agent took a message the connection goes on.
pub proof fn law_call_handle_taken_message(
    bridge: &mut BridgeChannel,
    session: &mut Session,
    now: u64,
    directive: Directive,
)
    requires
        old(bridge).wf(),
        old(session).at() == Phase::BusPending,
        call_ensures(
            BridgeChannel::handle_event,
            (bridge, session, Event::BusAnswered(true), now),
            directive,
        ),
    ensures
        final(session).at() == Phase::Open,
        directive is Read,
        final(bridge)@ == old(bridge)@,
{
    law_connection_outlives_its_messages(
        old(bridge)@,
        final(bridge)@,
        old(session).id(),
        Event::BusAnswered(true),
        directive,
        now,
    );
}

/// A message of a sender who is let in reaches the agent as it was said, and the
/// sender is reached over this connection from then on.
pub proof fn law_call_handle_message(
    bridge: &mut BridgeChannel,
    session: &mut Session,
    content: String,
    sender_id: String,
    thread_id: Option<String>,
    now: u64,
    directive: Directive,
)
    requires
        old(bridge).wf(),
        old(session).at() == Phase::Open,
        old(bridge)@.allowed.contains(sender_id@),
        call_ensures(
            BridgeChannel::handle_event,
            (
                bridge,
                session,
                Event::Frame(InboundFrame::Message { content, sender_id, thread_id }),
                now,
            ),
            directive,
        ),
    ensures
        final(session).at() == Phase::BusPending,
        directive matches Directive::Forward(message) && {
            &&& message.content@ == content@
            &&& message.reply_target@ == sender_id@
            &&& message.sender@ == "bridge_"@ + sender_id@
            &&& message.timestamp == now
            &&& message.thread_ts is Some <==> thread_id is Some
            &&& thread_id is Some ==> message.thread_ts->0@ == thread_id->0@
        },
        final(bridge)@ == (BridgeState {
            routing: old(bridge)@.routing.insert(sender_id@, old(session).id()),
            ..old(bridge)@
        }),
{
    law_messages_reach_the_agent(
        old(bridge)@,
        final(bridge)@,
        old(session).id(),
        content,
        sender_id,
        thread_id,
        directive,
        now,
    );
}

/// What a user answers to a prompt reaches the agent as the command that says so.
pub proof fn law_call_handle_approval(
    bridge: &mut BridgeChannel,
    session: &mut Session,
    request_id: String,
    approved: bool,
    sender_id: String,
    now: u64,
    directive: Directive,
)
    requires
        old(bridge).wf(),
        old(session).at() == Phase::Open,
        old(bridge)@.allowed.contains(sender_id@),
        call_ensures(
            BridgeChannel::handle_event,
            (
                bridge,
                session,
                Event::Frame(InboundFrame::ApprovalResponse { request_id, approved, sender_id }),
                now,
            ),
            directive,
        ),
    ensures
        final(session).at() == Phase::BusPending,
        directive matches Directive::Forward(message) && {
            &&& approved ==> message.content@ == "/approve-allow "@ + request_id@
            &&& !approved ==> message.content@ == "/approve-deny "@ + request_id@
            &&& message.reply_target@ == sender_id@
            &&& message.thread_ts is None
        },
        final(bridge)@ == old(bridge)@,
{
    law_approval_answers_reach_the_agent(
        old(bridge)@,
        final(bridge)@,
        old(session).id(),
        request_id,
        approved,
        sender_id,
        directive,
        now,
    );
}

/// An error is told in its own words.
pub proof fn law_call_message(error: &BridgeError, text: String)
    requires
        call_ensures(BridgeError::<String>::message, (error,), text),
    ensures
        text@ == error@.words(),
{
}

/// A frame is written as it goes on the wire.
pub proof fn law_call_to_json(frame: &OutboundFrame<'_>, text: String)
    requires
        call_ensures(OutboundFrame::to_json, (frame,), text),
    ensures
        text@ == frame.wire_text(),
{
}

} // verus!
