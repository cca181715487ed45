//! What every operation of the bridge does, seen from outside: what it is given,
//! what it returns, and what it leaves behind.

use crate::allow_list::permitted;
use crate::channel::draft_sent;
use crate::channel::is_sound;
use crate::channel::result_of;
use crate::error::BridgeError;
use crate::frames::message_members;
use crate::frames::str_of;
use crate::frames::text_of;
use crate::json::bool_text;
use crate::json::object_text;
use crate::json::quoted;
use crate::laws::wire::lemma_draft_start_text;
use crate::laws::wire::lemma_message_text;
use crate::laws::wire::lemma_threaded_message_text;
use crate::message::is_message_of;
use crate::message::ChannelMessage;
use crate::message::Post;
use crate::message::SendMessage;
use crate::queue::after_offer;
use crate::queue::is_fresh;
use crate::queue::Answer;
use crate::queue::Offer;
use crate::queue::QueueState;
use crate::security::is_loopback;
use crate::session::approval_command;
use crate::state::broadcast_outcome;
use crate::state::broadcasts;
use crate::state::finished;
use crate::state::has_free_slot;
use crate::state::listening;
use crate::state::refusing;
use crate::state::route_of;
use crate::state::send_outcome;
use crate::state::sends;
use crate::state::settled;
use crate::state::slot_taken;
use crate::state::without_connection;
use crate::state::without_connections;
use crate::state::BridgeState;
use crate::table::without_value;
use crate::table::Table;
use crate::text::decimal;
use crate::text::lists;
use tokio::sync::mpsc::Receiver;
use vstd::prelude::*;

verus! {

/// The connection of a sender is the one that last spoke for it, if it is known.
/// A sender for whom nobody spoke has none, and a connection that is gone is
/// named.
pub proof fn law_routes_lead_to_known_connections(state: BridgeState, sender_id: Seq<char>)
    ensures
        !state.routing.contains_key(sender_id) ==> route_of(state, sender_id) == Err::<
            Seq<char>,
            BridgeError<Seq<char>>,
        >(BridgeError::NoConnection),
        state.routing.contains_key(sender_id) ==> {
            let conn_id = state.routing[sender_id];
            &&& state.connections.contains_key(conn_id) ==> route_of(state, sender_id) == Ok::<
                Seq<char>,
                BridgeError<Seq<char>>,
            >(conn_id)
            &&& !state.connections.contains_key(conn_id) ==> route_of(state, sender_id) == Err::<
                Seq<char>,
                BridgeError<Seq<char>>,
            >(BridgeError::ConnectionNotFound { conn_id })
        },
{
}

/// A text for a sender goes into the queue of the connection that last spoke for
/// it, after what is there, and nothing else changes; or it fails with the reason.
/// It fails without a trace where there is no such connection. Where the queue
/// refuses the text, the connection goes, with the routes that lead to it and no
/// others, and its queue is left as it was but for the refusal.
pub proof fn law_send_delivers_or_says_why(
    before: BridgeState,
    after: BridgeState,
    result: Result<(), BridgeError>,
    sender_id: Seq<char>,
    text: Seq<char>,
)
    requires
        sends(before, after, result_of(result), sender_id, text),
    ensures
        !before.routing.contains_key(sender_id) ==> {
            &&& after == before
            &&& result == Err::<(), BridgeError>(BridgeError::NoConnection)
        },
        before.routing.contains_key(sender_id) ==> {
            let conn_id = before.routing[sender_id];
            let queue = before.connections[conn_id];
            if !before.connections.contains_key(conn_id) {
                &&& after == before
                &&& result matches Err(BridgeError::ConnectionNotFound { conn_id: named })
                    && named@ == conn_id
            } else if result is Ok {
                after == (BridgeState {
                    connections: before.connections.insert(
                        conn_id,
                        QueueState { taken: queue.taken.push(text), ..queue },
                    ),
                    ..before
                })
            } else {
                let last = after.departed[conn_id];
                &&& result matches Err(BridgeError::ConnectionClosed { sender_id: named })
                    && named@ == sender_id
                &&& last == (QueueState { refused: queue.refused.push((text, true)), ..queue })
                    || last == (QueueState { refused: queue.refused.push((text, false)), ..queue })
                &&& after == (BridgeState {
                    connections: before.connections.remove(conn_id),
                    routing: after.routing,
                    departed: before.departed.insert(conn_id, last),
                    ..before
                })
                &&& forall|other: Seq<char>| #[trigger]
                    after.routing.contains_key(other) <==> before.routing.contains_key(other)
                        && before.routing[other] != conn_id
                &&& forall|other: Seq<char>| #[trigger]
                    after.routing.contains_key(other) ==> after.routing[other]
                        == before.routing[other]
            }
        },
{
    let answer = choose|answer: Answer|
        (after, result_of(result)) == #[trigger] send_outcome(before, sender_id, text, answer);
    if before.routing.contains_key(sender_id) {
        let conn_id = before.routing[sender_id];
        if before.connections.contains_key(conn_id) && !(answer is Queued) {
            assert(after.connections =~= before.connections.remove(conn_id));
        }
    }
}

/// What the agent says goes out as it is: the reply carries its words, its
/// recipient, and its thread if it has one.
pub proof fn law_replies_carry_what_is_said(message: SendMessage)
    ensures
        object_text(
            message_members(message.content@, message.recipient@, text_of(message.thread_ts)),
        ) == "{\"type\":\"message\""@ + ",\"content\":"@ + quoted(message.content@)
            + ",\"sender_id\":"@ + quoted(message.recipient@) + (match message.thread_ts {
            Some(thread_ts) => ",\"thread_ts\":"@ + quoted(thread_ts@),
            None => seq![],
        }) + "}"@,
{
    match message.thread_ts {
        Some(thread_ts) => {
            lemma_threaded_message_text(message.content@, message.recipient@, thread_ts@);
            assert("{\"type\":\"message\""@ + ",\"content\":"@ + quoted(message.content@)
                + ",\"sender_id\":"@ + quoted(message.recipient@) + ",\"thread_ts\":"@ + quoted(
                thread_ts@,
            ) + "}"@ =~= "{\"type\":\"message\""@ + ",\"content\":"@ + quoted(message.content@)
                + ",\"sender_id\":"@ + quoted(message.recipient@) + (",\"thread_ts\":"@ + quoted(
                thread_ts@,
            )) + "}"@);
        },
        None => {
            lemma_message_text(message.content@, message.recipient@);
            assert("{\"type\":\"message\""@ + ",\"content\":"@ + quoted(message.content@)
                + ",\"sender_id\":"@ + quoted(message.recipient@) + "}"@
                =~= "{\"type\":\"message\""@ + ",\"content\":"@ + quoted(message.content@)
                + ",\"sender_id\":"@ + quoted(message.recipient@) + Seq::<char>::empty() + "}"@);
        },
    }
}

/// A draft is shown to its recipient as it is, under the identifier that is
/// returned, or fails with the reason.
pub proof fn law_drafts_carry_what_is_said(
    before: BridgeState,
    after: BridgeState,
    result: Result<Option<String>, BridgeError>,
    message: SendMessage,
    unique: Seq<char>,
)
    requires
        draft_sent(before, after, result, message, unique),
    ensures
        ({
            let text = "{\"type\":\"draft_start\""@ + ",\"draft_id\":"@ + quoted(
                "bridge_draft_"@ + unique,
            ) + ",\"content\":"@ + quoted(message.content@) + ",\"sender_id\":"@ + quoted(
                message.recipient@,
            ) + "}"@;
            match result {
                Ok(id) => {
                    &&& id is Some
                    &&& id->0@ == "bridge_draft_"@ + unique
                    &&& sends(before, after, result_of(Ok(())), message.recipient@, text)
                },
                Err(error) => sends(
                    before,
                    after,
                    result_of(Err(error)),
                    message.recipient@,
                    text,
                ),
            }
        }),
{
    lemma_draft_start_text(
        "bridge_draft_"@ + unique,
        message.content@,
        message.recipient@,
    );
}

/// What became of an offer decides: where the queue took the text nothing changes,
/// and otherwise the connection goes, with the routes that lead to it and no
/// others.
pub proof fn law_offers_decide(
    before: BridgeState,
    after: BridgeState,
    result: Result<(), BridgeError>,
    sender_id: Seq<char>,
    conn_id: Seq<char>,
    offer: Offer,
)
    requires
        (after, result_of(result)) == settled(before, sender_id, conn_id, offer.answer()),
    ensures
        offer is Queued ==> result is Ok && after == before,
        !(offer is Queued) ==> {
            &&& result matches Err(BridgeError::ConnectionClosed { sender_id: named }) && named@
                == sender_id
            &&& after == (BridgeState {
                connections: before.connections.remove(conn_id),
                routing: after.routing,
                departed: if before.connections.contains_key(conn_id) {
                    before.departed.insert(conn_id, before.connections[conn_id])
                } else {
                    before.departed
                },
                ..before
            })
            &&& forall|sender: Seq<char>| #[trigger]
                after.routing.contains_key(sender) <==> before.routing.contains_key(sender)
                    && before.routing[sender] != conn_id
            &&& forall|sender: Seq<char>| #[trigger]
                after.routing.contains_key(sender) ==> after.routing[sender]
                    == before.routing[sender]
        },
{
    law_removal_is_complete_and_exact(before, conn_id);
}

/// Removing a connection takes it and the routes to it, and nothing else: a sender
/// keeps its route if, and only if, it leads elsewhere, and every other connection
/// keeps its queue.
pub proof fn law_removal_is_complete_and_exact(before: BridgeState, conn_id: Seq<char>)
    ensures
        ({
            let after = without_connection(before, conn_id);
            &&& after == (BridgeState {
                connections: before.connections.remove(conn_id),
                routing: after.routing,
                departed: if before.connections.contains_key(conn_id) {
                    before.departed.insert(conn_id, before.connections[conn_id])
                } else {
                    before.departed
                },
                ..before
            })
            &&& forall|sender: Seq<char>| #[trigger]
                after.routing.contains_key(sender) <==> before.routing.contains_key(sender)
                    && before.routing[sender] != conn_id
            &&& forall|sender: Seq<char>| #[trigger]
                after.routing.contains_key(sender) ==> after.routing[sender]
                    == before.routing[sender]
            &&& !after.connections.contains_key(conn_id)
        }),
{
    let after = without_connection(before, conn_id);
    if !before.connections.contains_key(conn_id) {
        assert(before.connections.remove(conn_id) =~= before.connections);
    }
}

/// Cleaning up after a client takes the client alone: a sender has a route
/// afterwards if, and only if, it had one to another connection, and then the same
/// one; every other connection keeps its queue; the slot of the listener is free
/// again, and no other. So who is reached over another connection is reached as
/// before.
pub proof fn law_cleanup_leaves_the_others_alone(
    before: BridgeState,
    conn_id: Seq<char>,
    listener: nat,
    other: Seq<char>,
)
    ensures
        ({
            let after = finished(before, conn_id, listener);
            let i = listener as int;
            &&& after == (BridgeState {
                connections: before.connections.remove(conn_id),
                routing: after.routing,
                departed: if before.connections.contains_key(conn_id) {
                    before.departed.insert(conn_id, before.connections[conn_id])
                } else {
                    before.departed
                },
                listeners: if i < before.listeners.len() && before.listeners[i] > 0 {
                    before.listeners.update(i, (before.listeners[i] - 1) as nat)
                } else {
                    before.listeners
                },
                ..before
            })
            &&& forall|sender_id: Seq<char>| #[trigger]
                after.routing.contains_key(sender_id) <==> before.routing.contains_key(sender_id)
                    && before.routing[sender_id] != conn_id
            &&& forall|sender_id: Seq<char>| #[trigger]
                after.routing.contains_key(sender_id) ==> after.routing[sender_id]
                    == before.routing[sender_id]
            &&& before.routing.contains_key(other) && before.routing[other] != conn_id ==> route_of(
                after,
                other,
            ) == route_of(before, other)
            &&& before.routing.contains_key(other) && before.routing[other] == conn_id ==> route_of(
                after,
                other,
            ) == Err::<Seq<char>, BridgeError<Seq<char>>>(BridgeError::NoConnection)
        }),
{
    law_removal_is_complete_and_exact(before, conn_id);
}

/// Removing listed connections takes those and the routes to them, and nothing
/// else.
pub proof fn law_listed_connections_are_dropped(before: BridgeState, gone: Seq<String>)
    ensures
        ({
            let after = without_connections(
                before,
                Set::new(|conn_id: Seq<char>| lists(gone, conn_id)),
            );
            &&& after == (BridgeState {
                connections: after.connections,
                routing: after.routing,
                departed: after.departed,
                ..before
            })
            &&& forall|conn_id: Seq<char>|
                {
                    let listed = exists|i: int|
                        0 <= i < gone.len() && (#[trigger] gone[i])@ == conn_id;
                    let known = before.connections.contains_key(conn_id);
                    &&& #[trigger] after.connections.contains_key(conn_id) <==> known && !listed
                    &&& known && !listed ==> after.connections[conn_id]
                        == before.connections[conn_id]
                    &&& after.departed.contains_key(conn_id) <==> before.departed.contains_key(
                        conn_id,
                    ) || (known && listed)
                    &&& known && listed ==> after.departed[conn_id] == before.connections[conn_id]
                    &&& before.departed.contains_key(conn_id) && !(known && listed)
                        ==> after.departed[conn_id] == before.departed[conn_id]
                }
            &&& forall|sender_id: Seq<char>|
                {
                    let listed = exists|i: int|
                        0 <= i < gone.len() && (#[trigger] gone[i])@ == before.routing[sender_id];
                    &&& #[trigger] after.routing.contains_key(sender_id)
                        <==> before.routing.contains_key(sender_id) && !listed
                    &&& after.routing.contains_key(sender_id) ==> after.routing[sender_id]
                        == before.routing[sender_id]
                }
        }),
{
}

/// A text for everybody goes into the queue of every connection, once, after what
/// is there. A connection whose queue refuses it goes, with the routes that lead
/// to it and no others, and a queue that is left as it was but for the refusal.
/// Nothing else changes.
pub proof fn law_broadcast_reaches_everybody(before: BridgeState, after: BridgeState, text: Seq<char>)
    requires
        broadcasts(before, after, text),
    ensures
        after == (BridgeState {
            connections: after.connections,
            routing: after.routing,
            departed: after.departed,
            ..before
        }),
        forall|conn_id: Seq<char>| #[trigger]
            after.connections.contains_key(conn_id) ==> before.connections.contains_key(conn_id),
        forall|conn_id: Seq<char>| #[trigger]
            before.connections.contains_key(conn_id) ==> {
                let queue = before.connections[conn_id];
                if after.connections.contains_key(conn_id) {
                    after.connections[conn_id] == (QueueState {
                        taken: queue.taken.push(text),
                        ..queue
                    })
                } else {
                    let last = after.departed[conn_id];
                    &&& after.departed.contains_key(conn_id)
                    &&& last == (QueueState { refused: queue.refused.push((text, true)), ..queue })
                        || last == (QueueState {
                        refused: queue.refused.push((text, false)),
                        ..queue
                    })
                }
            },
        forall|conn_id: Seq<char>| #[trigger]
            after.departed.contains_key(conn_id) ==> before.departed.contains_key(conn_id) || (
            before.connections.contains_key(conn_id) && !after.connections.contains_key(conn_id)),
        forall|conn_id: Seq<char>| #[trigger]
            before.departed.contains_key(conn_id) ==> after.departed.contains_key(conn_id) && (
            after.departed[conn_id] == before.departed[conn_id] || (
            before.connections.contains_key(conn_id) && !after.connections.contains_key(conn_id))),
        forall|sender_id: Seq<char>| #[trigger]
            after.routing.contains_key(sender_id) <==> before.routing.contains_key(sender_id) && !(
            before.connections.contains_key(before.routing[sender_id])
                && !after.connections.contains_key(before.routing[sender_id])),
        forall|sender_id: Seq<char>| #[trigger]
            after.routing.contains_key(sender_id) ==> after.routing[sender_id]
                == before.routing[sender_id],
{
    let answers = choose|answers: Map<Seq<char>, Answer>|
        answers.dom() == before.connections.dom() && after == #[trigger] broadcast_outcome(
            before,
            text,
            answers,
        );
    assert forall|conn_id: Seq<char>| #[trigger] refusing(answers).contains(conn_id) <==> (
    before.connections.contains_key(conn_id) && !after.connections.contains_key(conn_id)) by {
        assert(answers.dom().contains(conn_id) <==> before.connections.dom().contains(conn_id));
    }
    assert forall|conn_id: Seq<char>| #[trigger]
        before.connections.contains_key(conn_id) implies answers.contains_key(conn_id) by {
        assert(before.connections.dom().contains(conn_id));
    }
}

/// A listener that is open serves as many connections as the bridge was set up
/// for, neither fewer nor more: it has a free slot if, and only if, fewer are
/// taken.
pub proof fn law_slots_are_as_many_as_set(state: BridgeState, listener: nat)
    ensures
        has_free_slot(state, listener) <==> {
            &&& listener < state.listeners.len()
            &&& state.listeners[listener as int] < state.max_connections
        },
{
}

/// A new listener comes after those before it and serves nobody yet; taking a
/// client on takes one slot, of its listener; and nothing else changes.
pub proof fn law_listeners_count_their_clients(state: BridgeState, listener: nat)
    ensures
        listening(state) == (BridgeState { listeners: state.listeners.push(0), ..state }),
        listener < state.listeners.len() ==> slot_taken(state, listener) == (BridgeState {
            listeners: state.listeners.update(
                listener as int,
                state.listeners[listener as int] + 1,
            ),
            ..state
        }),
{
}

/// What a queue says is what becomes of the text: a text that is taken goes in
/// last, a refused one comes back as it was and leaves the queue as it was but for
/// the refusal.
pub proof fn law_queue_answers(queue: QueueState, text: Seq<char>, offer: Offer)
    requires
        offer.answers(text),
    ensures
        ({
            let last = after_offer(queue, text, offer.answer());
            match offer {
                Offer::Queued => last == (QueueState { taken: queue.taken.push(text), ..queue }),
                Offer::Full(back) => {
                    &&& back@ == text
                    &&& last == (QueueState { refused: queue.refused.push((text, true)), ..queue })
                },
                Offer::Closed(back) => {
                    &&& back@ == text
                    &&& last == (QueueState { refused: queue.refused.push((text, false)), ..queue })
                },
            }
        }),
{
}

/// A new queue is empty, holds 1024 texts, and comes out where it is read.
pub proof fn law_new_queue_is_empty(queue: QueueState, rx: Receiver<String>)
    requires
        is_fresh(queue, rx),
    ensures
        queue.bound == 1024,
        queue.readers.contains(rx),
        queue.taken.len() == 0,
        queue.refused.len() == 0,
{
}

/// A queue in good order was made for 1024 texts, and refused one for want of room
/// only after as many had gone in.
pub proof fn law_queues_have_room(queue: QueueState, i: int)
    requires
        is_sound(queue),
    ensures
        queue.bound == 1024,
        0 <= i < queue.refused.len() && queue.refused[i].1 ==> queue.taken.len() >= 1024,
{
}

/// Who is let in: everybody where the list holds `*`, and otherwise exactly those
/// that it names.
pub proof fn law_list_decides_who_is_let_in(raw: Seq<String>, id: Seq<char>)
    ensures
        permitted(raw).contains(id) <==> (exists|i: int|
            0 <= i < raw.len() && (#[trigger] raw[i])@ == "*"@) || (exists|i: int|
            0 <= i < raw.len() && (#[trigger] raw[i])@ == id),
        lists(raw, id) <==> exists|i: int| 0 <= i < raw.len() && (#[trigger] raw[i])@ == id,
{
}

/// Five names stand for this machine's loopback interface, and no others.
pub proof fn law_loopback_names(host: Seq<char>)
    ensures
        is_loopback(host) <==> {
            ||| host == "127.0.0.1"@
            ||| host == "localhost"@
            ||| host == "::1"@
            ||| host == "[::1]"@
            ||| host == "0:0:0:0:0:0:0:1"@
        },
{
}

/// A number below ten is its digit; any other is the number without its last
/// digit, followed by that digit.
pub proof fn law_numbers_are_written_in_decimal(n: nat)
    ensures
        n < 10 ==> decimal(n) == seq![('0' as u32 + n) as char],
        n >= 10 ==> decimal(n) == decimal(n / 10).push(('0' as u32 + n % 10) as char),
{
}

/// What an end-user says reaches the agent with all that belongs to it.
pub proof fn law_messages_are_complete(
    message: ChannelMessage,
    post: Post,
    id: Seq<char>,
    timestamp: u64,
)
    requires
        is_message_of(message, post@, id, timestamp),
    ensures
        message.id@ == id,
        message.sender@ == "bridge_"@ + post.sender_id@,
        message.reply_target@ == post.sender_id@,
        message.content@ == post.content@,
        message.channel@ == "bridge"@,
        message.timestamp == timestamp,
        message.thread_ts is Some <==> post.thread_id is Some,
        post.thread_id is Some ==> message.thread_ts->0@ == post.thread_id->0@,
{
}

/// What a user approves is allowed, and what a user does not approve is denied.
pub proof fn law_answers_say_what_was_decided(request_id: Seq<char>)
    ensures
        approval_command(request_id, true) == "/approve-allow "@ + request_id,
        approval_command(request_id, false) == "/approve-deny "@ + request_id,
{
}

/// The text of an optional text is its text, if there is one; a truth value is
/// written as it is called.
pub proof fn law_optional_text(text: Option<String>, slice: Option<&str>, b: bool)
    ensures
        text is None ==> text_of(text) is None,
        text is Some ==> text_of(text) == Some(text->0@),
        slice is None ==> str_of(slice) is None,
        slice is Some ==> str_of(slice) == Some(slice->0@),
        bool_text(b) == if b {
            "true"@
        } else {
            "false"@
        },
{
}

/// An error says in words what went wrong, and with whom or what.
pub proof fn law_errors_say_what_went_wrong(error: BridgeError)
    ensures
        error@.words() == match error {
            BridgeError::NoConnection => "No connection for sender"@,
            BridgeError::ConnectionClosed { sender_id } => {
                "Bridge connection closed for sender "@ + sender_id@
            },
            BridgeError::ConnectionNotFound { conn_id } => {
                "Bridge connection "@ + conn_id@ + " not found"@
            },
            BridgeError::PublicBind { host } => {
                "Bridge: refusing to bind to "@ + host@
                    + " — would be exposed to the network.\nFix: use host = \"127.0.0.1\" (default) or set allow_public_bind = true in [channels.bridge] (NOT recommended)."@
            },
            BridgeError::ClosedBeforeAuth => "Bridge: connection closed before auth"@,
            BridgeError::ReadDuringAuth => "Bridge: WS read error during auth"@,
            BridgeError::ClientClosedDuringAuth => "Bridge: client closed during auth"@,
            BridgeError::InvalidJsonDuringAuth => "Bridge: invalid JSON during auth"@,
            BridgeError::NotAuthenticated => {
                "Bridge: non-auth message received before authentication"@
            },
            BridgeError::AuthTimeout => "Bridge: auth handshake timed out"@,
            BridgeError::AuthFailed { conn_id } => {
                "Bridge: auth failed for connection "@ + conn_id@
            },
            BridgeError::WriteDuringAuth => "Bridge: WS write error during auth"@,
        },
{
}

/// An error is reported as what it is: no error stands for another, and it names
/// whom or what it is about.
pub proof fn law_errors_are_told_apart(error: BridgeError, told: BridgeError<Seq<char>>)
    requires
        error@ == told,
    ensures
        match told {
            BridgeError::NoConnection => error is NoConnection,
            BridgeError::ConnectionClosed { sender_id } => {
                error matches BridgeError::ConnectionClosed { sender_id: named } && named@
                    == sender_id
            },
            BridgeError::ConnectionNotFound { conn_id } => {
                error matches BridgeError::ConnectionNotFound { conn_id: named } && named@ == conn_id
            },
            BridgeError::PublicBind { host } => {
                error matches BridgeError::PublicBind { host: named } && named@ == host
            },
            BridgeError::ClosedBeforeAuth => error is ClosedBeforeAuth,
            BridgeError::ReadDuringAuth => error is ReadDuringAuth,
            BridgeError::ClientClosedDuringAuth => error is ClientClosedDuringAuth,
            BridgeError::InvalidJsonDuringAuth => error is InvalidJsonDuringAuth,
            BridgeError::NotAuthenticated => error is NotAuthenticated,
            BridgeError::AuthTimeout => error is AuthTimeout,
            BridgeError::AuthFailed { conn_id } => {
                error matches BridgeError::AuthFailed { conn_id: named } && named@ == conn_id
            },
            BridgeError::WriteDuringAuth => error is WriteDuringAuth,
        },
{
}

/// Taking out a value takes every entry that has it, and no other.
pub proof fn law_values_are_taken_out(m: Map<Seq<char>, Seq<char>>, value: Seq<char>, key: Seq<char>)
    ensures
        without_value(m, value).contains_key(key) <==> m.contains_key(key) && m[key] != value,
        without_value(m, value).contains_key(key) ==> without_value(m, value)[key] == m[key],
{
}

/// A table of texts, read as texts, has the same keys with their texts.
pub proof fn law_texts_of_a_table(table: Table<String>, key: Seq<char>)
    ensures
        table.texts().contains_key(key) <==> table@.contains_key(key),
        table@.contains_key(key) ==> table.texts()[key] == table@[key]@,
{
}

} // verus!
