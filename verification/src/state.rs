//! The state of the bridge as mathematics, and what every operation does to it.

use crate::error::BridgeError;
use crate::message::Post;
use crate::message::StreamMode;
use crate::queue::after_offer;
use crate::queue::Answer;
use crate::queue::QueueState;
use crate::table::without_value;
use vstd::prelude::*;

verus! {

/// The state of the bridge.
#[verifier::ext_equal]
pub struct BridgeState {
    /// Where the bridge listens.
    pub host: Seq<char>,
    /// The port on which it listens.
    pub port: u16,
    /// What a client has to know.
    pub token: Seq<char>,
    /// The senders who are let in.
    pub allowed: Set<Seq<char>>,
    /// Whether replies are shown while they are being written.
    pub stream_mode: StreamMode,
    /// How many connections a listener serves at a time.
    pub max_connections: u16,
    /// Whether the bridge may listen beyond this machine.
    pub allow_public_bind: bool,
    /// The connections that have proved themselves, each with its queue.
    pub connections: Map<Seq<char>, QueueState>,
    /// The connection that last spoke for each sender.
    pub routing: Map<Seq<char>, Seq<char>>,
    /// The queue that last departed under each identifier, as it was left.
    pub departed: Map<Seq<char>, QueueState>,
    /// The listeners, each with how many of its slots are taken, by connections
    /// in the handshake too.
    pub listeners: Seq<nat>,
}

/// The connection to which a text for a sender goes.
pub open spec fn route_of(state: BridgeState, sender_id: Seq<char>) -> Result<
    Seq<char>,
    BridgeError<Seq<char>>,
> {
    if !state.routing.contains_key(sender_id) {
        Err(BridgeError::NoConnection)
    } else {
        let conn_id = state.routing[sender_id];
        if state.connections.contains_key(conn_id) {
            Ok(conn_id)
        } else {
            Err(BridgeError::ConnectionNotFound { conn_id })
        }
    }
}

/// A connection is no longer known, and its queue has departed; the routes to it
/// stay for now.
pub open spec fn unregistered(state: BridgeState, conn_id: Seq<char>) -> BridgeState {
    if state.connections.contains_key(conn_id) {
        BridgeState {
            connections: state.connections.remove(conn_id),
            departed: state.departed.insert(conn_id, state.connections[conn_id]),
            ..state
        }
    } else {
        state
    }
}

/// A connection is gone, and with it every route to it.
pub open spec fn without_connection(state: BridgeState, conn_id: Seq<char>) -> BridgeState {
    BridgeState {
        routing: without_value(state.routing, conn_id),
        ..unregistered(state, conn_id)
    }
}

/// A text was offered to a connection, whose queue answered.
pub open spec fn offered(
    state: BridgeState,
    conn_id: Seq<char>,
    text: Seq<char>,
    answer: Answer,
) -> BridgeState {
    BridgeState {
        connections: state.connections.insert(
            conn_id,
            after_offer(state.connections[conn_id], text, answer),
        ),
        ..state
    }
}

/// What an operation leaves behind: the state, and how it went.
pub type Outcome = (BridgeState, Result<(), BridgeError<Seq<char>>>);

/// A text was offered to the connection of a sender. A connection that does not
/// take it is dropped.
pub open spec fn settled(
    state: BridgeState,
    sender_id: Seq<char>,
    conn_id: Seq<char>,
    answer: Answer,
) -> Outcome {
    if answer is Queued {
        (state, Ok(()))
    } else {
        (without_connection(state, conn_id), Err(BridgeError::ConnectionClosed { sender_id }))
    }
}

/// A text is sent to a sender, where `answer` is what the queue of the
/// connection, if there is one, answers.
pub open spec fn send_outcome(
    state: BridgeState,
    sender_id: Seq<char>,
    text: Seq<char>,
    answer: Answer,
) -> Outcome {
    match route_of(state, sender_id) {
        Ok(conn_id) => settled(offered(state, conn_id, text, answer), sender_id, conn_id, answer),
        Err(error) => (state, Err(error)),
    }
}

/// Whether an operation was the sending of a text to a sender, whatever the
/// queue answered.
pub open spec fn sends(
    before: BridgeState,
    after: BridgeState,
    result: Result<(), BridgeError<Seq<char>>>,
    sender_id: Seq<char>,
    text: Seq<char>,
) -> bool {
    exists|answer: Answer|
        (after, result) == #[trigger] send_outcome(before, sender_id, text, answer)
}

/// A text was offered to every connection, and each queue gave its answer.
pub open spec fn offered_to_all(
    state: BridgeState,
    text: Seq<char>,
    answers: Map<Seq<char>, Answer>,
) -> BridgeState {
    BridgeState {
        connections: Map::new(
            |conn_id: Seq<char>| state.connections.contains_key(conn_id),
            |conn_id: Seq<char>| after_offer(state.connections[conn_id], text, answers[conn_id]),
        ),
        ..state
    }
}

/// The connections whose queue did not take a text.
pub open spec fn refusing(answers: Map<Seq<char>, Answer>) -> Set<Seq<char>> {
    Set::new(
        |conn_id: Seq<char>| answers.contains_key(conn_id) && !(answers[conn_id] is Queued),
    )
}

/// Some connections are gone, and with them every route to them.
pub open spec fn without_connections(state: BridgeState, gone: Set<Seq<char>>) -> BridgeState {
    BridgeState {
        connections: Map::new(
            |conn_id: Seq<char>| state.connections.contains_key(conn_id) && !gone.contains(conn_id),
            |conn_id: Seq<char>| state.connections[conn_id],
        ),
        routing: Map::new(
            |sender_id: Seq<char>|
                state.routing.contains_key(sender_id) && !gone.contains(state.routing[sender_id]),
            |sender_id: Seq<char>| state.routing[sender_id],
        ),
        departed: Map::new(
            |conn_id: Seq<char>|
                state.departed.contains_key(conn_id) || (state.connections.contains_key(conn_id)
                    && gone.contains(conn_id)),
            |conn_id: Seq<char>|
                if state.connections.contains_key(conn_id) && gone.contains(conn_id) {
                    state.connections[conn_id]
                } else {
                    state.departed[conn_id]
                },
        ),
        ..state
    }
}

/// A text was offered to every connection, and those that did not take it are
/// dropped.
pub open spec fn broadcast_outcome(
    state: BridgeState,
    text: Seq<char>,
    answers: Map<Seq<char>, Answer>,
) -> BridgeState {
    without_connections(offered_to_all(state, text, answers), refusing(answers))
}

/// Whether an operation was the sending of a text to every connection, whatever
/// their queues answered.
pub open spec fn broadcasts(before: BridgeState, after: BridgeState, text: Seq<char>) -> bool {
    exists|answers: Map<Seq<char>, Answer>|
        answers.dom() == before.connections.dom() && after == #[trigger] broadcast_outcome(
            before,
            text,
            answers,
        )
}

/// A connection is made known, with its queue. Another one under the same
/// identifier has to go.
pub open spec fn registered(
    state: BridgeState,
    conn_id: Seq<char>,
    queue: QueueState,
) -> BridgeState {
    BridgeState {
        connections: state.connections.insert(conn_id, queue),
        ..unregistered(state, conn_id)
    }
}

/// A text is offered to the connection itself, if it is known, whatever its
/// queue answers.
pub open spec fn replied(
    state: BridgeState,
    conn_id: Seq<char>,
    text: Seq<char>,
    answer: Answer,
) -> BridgeState {
    if state.connections.contains_key(conn_id) {
        offered(state, conn_id, text, answer)
    } else {
        state
    }
}

/// A connection spoke for a sender.
pub open spec fn routed(
    state: BridgeState,
    post: Post<Seq<char>>,
    conn_id: Seq<char>,
) -> BridgeState {
    if post.routes {
        BridgeState { routing: state.routing.insert(post.sender_id, conn_id), ..state }
    } else {
        state
    }
}

/// One more listener, none of whose slots is taken.
pub open spec fn listening(state: BridgeState) -> BridgeState {
    BridgeState { listeners: state.listeners.push(0), ..state }
}

/// Whether a listener can take on a client.
pub open spec fn has_free_slot(state: BridgeState, listener: nat) -> bool {
    listener < state.listeners.len() && state.listeners[listener as int] < state.max_connections
}

/// A slot of a listener is taken.
pub open spec fn slot_taken(state: BridgeState, listener: nat) -> BridgeState {
    let i = listener as int;
    BridgeState { listeners: state.listeners.update(i, state.listeners[i] + 1), ..state }
}

/// A slot of a listener is free again. Where none is taken there is none to free.
pub open spec fn slot_freed(state: BridgeState, listener: nat) -> BridgeState {
    let i = listener as int;
    if i < state.listeners.len() && state.listeners[i] > 0 {
        BridgeState {
            listeners: state.listeners.update(i, (state.listeners[i] - 1) as nat),
            ..state
        }
    } else {
        state
    }
}

/// A connection that a listener took on is over: it and all routes to it are
/// gone, and its slot is free again.
pub open spec fn finished(state: BridgeState, conn_id: Seq<char>, listener: nat) -> BridgeState {
    slot_freed(without_connection(state, conn_id), listener)
}

} // verus!
