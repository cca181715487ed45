//! What holds of the bridge across its operations.

pub mod calls;
pub mod operations;
pub mod protocol;
pub mod results;
pub mod wire;

use crate::channel::carried_out;
use crate::channel::draft_sent;
use crate::channel::Directive;
use crate::error::BridgeError;
use crate::frames::draft_members;
use crate::frames::message_members;
use crate::frames::text_of;
use crate::frames::type_member;
use crate::frames::InboundFrame;
use crate::frames::OutboundFrame;
use crate::json::object_text;
use crate::message::Post;
use crate::message::SendMessage;
use crate::queue::after_offer;
use crate::queue::Answer;
use crate::queue::QueueState;
use crate::session::not_allowed_text;
use crate::session::pong_text;
use crate::session::session_step;
use crate::session::Action;
use crate::session::Event;
use crate::session::Phase;
use crate::session::Rejection;
use crate::state::broadcast_outcome;
use crate::state::finished;
use crate::state::has_free_slot;
use crate::state::refusing;
use crate::state::registered;
use crate::state::replied;
use crate::state::route_of;
use crate::state::routed;
use crate::state::send_outcome;
use crate::state::sends;
use crate::state::slot_taken;
use crate::state::unregistered;
use crate::state::without_connection;
use crate::state::BridgeState;
use crate::table::without_value;
use vstd::prelude::*;

verus! {

/// Replies go where the sender was last heard: once a connection has spoken for
/// a sender, texts for the sender go to that connection.
pub proof fn law_replies_go_where_last_heard(
    state: BridgeState,
    post: Post<Seq<char>>,
    conn_id: Seq<char>,
)
    requires
        post.routes,
        state.connections.contains_key(conn_id),
    ensures
        route_of(routed(state, post, conn_id), post.sender_id) == Ok::<
            Seq<char>,
            BridgeError<Seq<char>>,
        >(conn_id),
{
}

/// One connection can carry many senders: speaking for one of them changes the
/// route of no other.
pub proof fn law_senders_do_not_disturb_each_other(
    state: BridgeState,
    post: Post<Seq<char>>,
    conn_id: Seq<char>,
    other: Seq<char>,
)
    requires
        other != post.sender_id,
    ensures
        route_of(routed(state, post, conn_id), other) == route_of(state, other),
{
}

/// A sender for whom nobody has spoken cannot be reached, and trying changes
/// nothing.
pub proof fn law_unheard_sender_is_unreachable(
    state: BridgeState,
    sender_id: Seq<char>,
    text: Seq<char>,
    answer: Answer,
)
    requires
        !state.routing.contains_key(sender_id),
    ensures
        send_outcome(state, sender_id, text, answer) == (
            state,
            Err::<(), BridgeError<Seq<char>>>(BridgeError::NoConnection),
        ),
{
}

/// A text that was sent went into the queue of one connection, the one that last
/// spoke for the sender, after the texts before it. No other connection and no
/// route is touched, and whoever drains the queue still does.
pub proof fn law_send_reaches_one_connection(
    before: BridgeState,
    after: BridgeState,
    sender_id: Seq<char>,
    text: Seq<char>,
)
    requires
        sends(before, after, Ok::<(), BridgeError<Seq<char>>>(()), sender_id, text),
    ensures
        route_of(before, sender_id) matches Ok(conn_id) && {
            let (queue, last) = (before.connections[conn_id], after.connections[conn_id]);
            &&& last.taken == queue.taken.push(text)
            &&& last.refused == queue.refused
            &&& last.readers == queue.readers
            &&& last.bound == queue.bound
            &&& after == (BridgeState {
                connections: before.connections.insert(conn_id, last),
                ..before
            })
        },
{
}

/// A connection that takes no more is dropped: the sender hears of it, and can no
/// longer be reached until a connection speaks for it again. The refused text is
/// queued nowhere: it was offered once, to this connection, whose queue departs
/// with what it had taken before, and every other queue is as it was.
pub proof fn law_stale_connection_is_dropped(
    before: BridgeState,
    after: BridgeState,
    sender_id: Seq<char>,
    text: Seq<char>,
    conn_id: Seq<char>,
    error: BridgeError<Seq<char>>,
)
    requires
        route_of(before, sender_id) == Ok::<Seq<char>, BridgeError<Seq<char>>>(conn_id),
        sends(before, after, Err::<(), BridgeError<Seq<char>>>(error), sender_id, text),
    ensures
        error == (BridgeError::ConnectionClosed { sender_id }),
        ({
            let (queue, last) = (before.connections[conn_id], after.departed[conn_id]);
            &&& last.taken == queue.taken
            &&& last.refused == queue.refused.push((text, true)) || last.refused
                == queue.refused.push((text, false))
            &&& last.readers == queue.readers
            &&& last.bound == queue.bound
            &&& after == (BridgeState {
                connections: before.connections.remove(conn_id),
                routing: without_value(before.routing, conn_id),
                departed: before.departed.insert(conn_id, last),
                ..before
            })
        }),
        route_of(after, sender_id) == Err::<Seq<char>, BridgeError<Seq<char>>>(
            BridgeError::NoConnection,
        ),
{
    assert(after.connections =~= before.connections.remove(conn_id));
}

/// Removing a connection is complete and touches nothing else: it is no longer
/// known, its queue departs as it is, no sender is routed to it, and every other
/// connection and every other route is as it was.
pub proof fn law_removal_is_exact(state: BridgeState, conn_id: Seq<char>)
    ensures
        ({
            let after = without_connection(state, conn_id);
            &&& !after.connections.contains_key(conn_id)
            &&& forall|sender_id: Seq<char>| #[trigger]
                after.routing.contains_key(sender_id) <==> state.routing.contains_key(sender_id)
                    && state.routing[sender_id] != conn_id
            &&& forall|sender_id: Seq<char>| #[trigger]
                after.routing.contains_key(sender_id) ==> after.routing[sender_id]
                    == state.routing[sender_id]
            &&& forall|other: Seq<char>|
                other != conn_id ==> (#[trigger] after.connections.contains_key(other)
                    <==> state.connections.contains_key(other))
            &&& forall|other: Seq<char>|
                other != conn_id && state.connections.contains_key(other)
                    ==> #[trigger] after.connections[other] == state.connections[other]
            &&& after.departed == if state.connections.contains_key(conn_id) {
                state.departed.insert(conn_id, state.connections[conn_id])
            } else {
                state.departed
            }
            &&& after.listeners == state.listeners
        }),
{
}

/// Removing a connection a second time changes nothing.
pub proof fn law_removal_is_idempotent(state: BridgeState, conn_id: Seq<char>)
    ensures
        without_connection(without_connection(state, conn_id), conn_id) == without_connection(
            state,
            conn_id,
        ),
{
    let once = without_connection(state, conn_id);
    let twice = without_connection(once, conn_id);
    assert(twice.connections =~= once.connections);
    assert(twice.routing =~= once.routing);
    assert(twice =~= once);
}

/// Once a connection is over nothing of it is left, neither by name nor by a
/// route, whether or not it was unregistered before.
pub proof fn law_disconnect_leaves_nothing(state: BridgeState, conn_id: Seq<char>)
    ensures
        ({
            let after = without_connection(state, conn_id);
            &&& !after.connections.contains_key(conn_id)
            &&& forall|sender_id: Seq<char>| #[trigger]
                after.routing.contains_key(sender_id) ==> after.routing[sender_id] != conn_id
            &&& after == without_connection(unregistered(state, conn_id), conn_id)
        }),
{
    let after = without_connection(state, conn_id);
    let other = without_connection(unregistered(state, conn_id), conn_id);
    assert(after.connections =~= other.connections);
    assert(after =~= other);
}

/// A connection that comes, says nothing and goes leaves the bridge as it was,
/// but for the queue that departed where it had one.
pub proof fn law_visit_leaves_no_trace(
    state: BridgeState,
    listener: nat,
    conn_id: Seq<char>,
    queue: QueueState,
)
    requires
        has_free_slot(state, listener),
        !state.connections.contains_key(conn_id),
        forall|sender_id: Seq<char>| #[trigger]
            state.routing.contains_key(sender_id) ==> state.routing[sender_id] != conn_id,
    ensures
        finished(slot_taken(state, listener), conn_id, listener) == state,
        ({
            let served = registered(slot_taken(state, listener), conn_id, queue);
            finished(unregistered(served, conn_id), conn_id, listener) == (BridgeState {
                departed: state.departed.insert(conn_id, queue),
                ..state
            })
        }),
{
    let a = finished(slot_taken(state, listener), conn_id, listener);
    let served = registered(slot_taken(state, listener), conn_id, queue);
    let b = finished(unregistered(served, conn_id), conn_id, listener);
    assert(a.routing =~= state.routing);
    assert(a.listeners =~= state.listeners);
    assert(b.connections =~= state.connections);
    assert(b.routing =~= state.routing);
    assert(b.listeners =~= state.listeners);
}

/// A reaction goes to every connection, once: each has it as the last text in its
/// queue, or refused it and is gone with all routes to it, and with a queue that
/// took nothing more. No other route is touched.
pub proof fn law_reactions_reach_everybody(
    state: BridgeState,
    text: Seq<char>,
    answers: Map<Seq<char>, Answer>,
)
    requires
        answers.dom() == state.connections.dom(),
    ensures
        ({
            let after = broadcast_outcome(state, text, answers);
            &&& forall|conn_id: Seq<char>| #[trigger]
                state.connections.contains_key(conn_id) ==> {
                    let last = after_offer(state.connections[conn_id], text, answers[conn_id]);
                    if answers[conn_id] is Queued {
                        &&& after.connections.contains_key(conn_id)
                        &&& after.connections[conn_id] == last
                    } else {
                        &&& !after.connections.contains_key(conn_id)
                        &&& after.departed.contains_key(conn_id)
                        &&& after.departed[conn_id] == last
                        &&& last.taken == state.connections[conn_id].taken
                    }
                }
            &&& forall|conn_id: Seq<char>| #[trigger]
                after.connections.contains_key(conn_id) ==> state.connections.contains_key(conn_id)
            &&& forall|sender_id: Seq<char>| #[trigger]
                after.routing.contains_key(sender_id) <==> state.routing.contains_key(sender_id)
                    && !refusing(answers).contains(state.routing[sender_id])
        }),
{
}

/// Nobody gets anything done before proving themselves: until the token came,
/// nothing that happens to a connection changes the bridge or reaches the agent.
pub proof fn law_strangers_change_nothing(
    before: BridgeState,
    after: BridgeState,
    phase: Phase,
    conn_id: Seq<char>,
    event: Event<Seq<char>>,
    directive: Directive,
    now: u64,
)
    requires
        phase == Phase::Handshake || phase == Phase::PongPending || phase is RejectPending,
        carried_out(
            before,
            after,
            conn_id,
            session_step(phase, conn_id, before.token, before.allowed, event).1,
            directive,
            now,
        ),
    ensures
        after == before,
        !(directive is Forward),
        !(directive is StartWriter),
{
}

/// A message of a sender who is not let in is answered with an error and goes no
/// further: the agent does not see it, and no route changes.
pub proof fn law_refused_sender_is_told_and_ignored(
    before: BridgeState,
    after: BridgeState,
    conn_id: Seq<char>,
    content: Seq<char>,
    sender_id: Seq<char>,
    thread_id: Option<Seq<char>>,
    directive: Directive,
    now: u64,
)
    requires
        !before.allowed.contains(sender_id),
        carried_out(
            before,
            after,
            conn_id,
            session_step(
                Phase::Open,
                conn_id,
                before.token,
                before.allowed,
                Event::Frame(InboundFrame::Message { content, sender_id, thread_id }),
            ).1,
            directive,
            now,
        ),
    ensures
        directive is Read,
        after.routing == before.routing,
        after.connections.dom() == before.connections.dom(),
        before.connections.contains_key(conn_id) ==> exists|answer: Answer|
            after.connections[conn_id] == #[trigger] after_offer(
                before.connections[conn_id],
                not_allowed_text(),
                answer,
            ),
{
    let answer = choose|answer: Answer|
        after == #[trigger] replied(before, conn_id, not_allowed_text(), answer);
    assert(after.connections.dom() =~= before.connections.dom());
    if before.connections.contains_key(conn_id) {
        assert(after.connections[conn_id] == after_offer(
            before.connections[conn_id],
            not_allowed_text(),
            answer,
        ));
    }
}

/// The configuration is fixed: nothing that happens to a connection changes it,
/// nor how many slots are taken.
pub proof fn law_events_keep_the_configuration(
    before: BridgeState,
    after: BridgeState,
    conn_id: Seq<char>,
    action: Action<Seq<char>>,
    directive: Directive,
    now: u64,
)
    requires
        carried_out(before, after, conn_id, action, directive, now),
    ensures
        after == (BridgeState {
            connections: after.connections,
            routing: after.routing,
            departed: after.departed,
            ..before
        }),
{
}

/// A reply goes back the way the message came: a message of a sender who is let
/// in is handed to the agent as it was said, in its thread, and a text for the
/// sender then goes to the connection that the message came through.
pub proof fn law_replies_go_back_the_way_they_came(
    before: BridgeState,
    after: BridgeState,
    conn_id: Seq<char>,
    content: Seq<char>,
    sender_id: Seq<char>,
    thread_id: Option<Seq<char>>,
    directive: Directive,
    now: u64,
    text: Seq<char>,
)
    requires
        before.allowed.contains(sender_id),
        before.connections.contains_key(conn_id),
        carried_out(
            before,
            after,
            conn_id,
            session_step(
                Phase::Open,
                conn_id,
                before.token,
                before.allowed,
                Event::Frame(InboundFrame::Message { content, sender_id, thread_id }),
            ).1,
            directive,
            now,
        ),
    ensures
        directive matches Directive::Forward(message) && message.reply_target@ == sender_id
            && message.content@ == content && text_of(message.thread_ts) == thread_id,
        ({
            let (last, result) = send_outcome(after, sender_id, text, Answer::Queued);
            &&& result is Ok
            &&& last.connections[conn_id] == after_offer(
                before.connections[conn_id],
                text,
                Answer::Queued,
            )
        }),
{
    let post = Post { sender_id, content, thread_id, routes: true };
    law_replies_go_where_last_heard(before, post, conn_id);
}

/// A client that takes too long to prove itself is cut off, whether it said
/// nothing or something else.
pub proof fn law_handshake_times_out(
    phase: Phase,
    conn_id: Seq<char>,
    token: Seq<char>,
    allowed: Set<Seq<char>>,
)
    requires
        phase == Phase::Handshake || phase == Phase::PongPending || phase
            == Phase::RejectPending(Rejection::NotAuth),
    ensures
        session_step(phase, conn_id, token, allowed, Event::AuthTimeout) == (
            Phase::Done,
            Action::<Seq<char>>::Fail(BridgeError::AuthTimeout),
        ),
{
}

/// Heartbeats are answered before and after the handshake.
pub proof fn law_heartbeats_are_answered(
    conn_id: Seq<char>,
    token: Seq<char>,
    allowed: Set<Seq<char>>,
)
    ensures
        session_step(Phase::Handshake, conn_id, token, allowed, Event::Frame(InboundFrame::Ping)).1
            == Action::Write(pong_text()),
        session_step(Phase::Open, conn_id, token, allowed, Event::Frame(InboundFrame::Ping)).1
            == Action::Queue(pong_text()),
{
}

/// Taking a reaction off is the mirror of showing it: where the queues give the
/// same answers, the same connections get the frame and are left, with the same
/// routes. The two frames differ in their `type` and in nothing else.
pub proof fn law_reactions_differ_only_in_type(
    state: BridgeState,
    channel_id: &str,
    message_id: &str,
    emoji: &str,
    answers: Map<Seq<char>, Answer>,
)
    requires
        answers.dom() == state.connections.dom(),
    ensures
        ({
            let add = OutboundFrame::ReactionAdd { channel_id, message_id, emoji };
            let remove = OutboundFrame::ReactionRemove { channel_id, message_id, emoji };
            let shown = broadcast_outcome(state, add.wire_text(), answers);
            let taken_off = broadcast_outcome(state, remove.wire_text(), answers);
            &&& remove.members() == add.members().update(0, type_member("reaction_remove"@))
            &&& add.members() == remove.members().update(0, type_member("reaction_add"@))
            &&& taken_off == (BridgeState {
                connections: taken_off.connections,
                departed: taken_off.departed,
                ..shown
            })
            &&& taken_off.connections.dom() == shown.connections.dom()
            &&& taken_off.departed.dom() == shown.departed.dom()
            &&& forall|conn_id: Seq<char>| #[trigger]
                state.connections.contains_key(conn_id) ==> {
                    let (queue, answer) = (state.connections[conn_id], answers[conn_id]);
                    let (a, b) = if answer is Queued {
                        (shown.connections[conn_id], taken_off.connections[conn_id])
                    } else {
                        (shown.departed[conn_id], taken_off.departed[conn_id])
                    };
                    &&& a == after_offer(queue, add.wire_text(), answer)
                    &&& b == after_offer(queue, remove.wire_text(), answer)
                }
        }),
{
    let add = OutboundFrame::ReactionAdd { channel_id, message_id, emoji };
    let remove = OutboundFrame::ReactionRemove { channel_id, message_id, emoji };
    let shown = broadcast_outcome(state, add.wire_text(), answers);
    let taken_off = broadcast_outcome(state, remove.wire_text(), answers);
    assert(remove.members() =~= add.members().update(0, type_member("reaction_remove"@)));
    assert(add.members() =~= remove.members().update(0, type_member("reaction_add"@)));
    assert(taken_off.connections.dom() =~= shown.connections.dom());
    assert(taken_off.departed.dom() =~= shown.departed.dom());
    assert(taken_off.routing =~= shown.routing);
}

/// A draft fails where the reply itself would: it gives an identifier if, and
/// only if, sending the message to the same recipient in the same state would
/// succeed with the same answer of the queue, and otherwise the same error. It
/// never succeeds without an identifier.
pub proof fn law_draft_fails_where_send_would(
    before: BridgeState,
    after: BridgeState,
    result: Result<Option<String>, BridgeError>,
    message: SendMessage,
    unique: Seq<char>,
)
    requires
        draft_sent(before, after, result, message, unique),
    ensures
        result matches Ok(id) ==> id is Some,
        ({
            let draft = object_text(
                draft_members(
                    "draft_start"@,
                    "bridge_draft_"@ + unique,
                    message.content@,
                    message.recipient@,
                ),
            );
            let text = object_text(
                message_members(message.content@, message.recipient@, text_of(message.thread_ts)),
            );
            exists|answer: Answer| {
                let (sent, outcome) = #[trigger] send_outcome(
                    before,
                    message.recipient@,
                    text,
                    answer,
                );
                &&& after == send_outcome(before, message.recipient@, draft, answer).0
                &&& result is Ok <==> outcome is Ok
                &&& result matches Err(error) ==> {
                    &&& outcome == Err::<(), BridgeError<Seq<char>>>(error@)
                    &&& after.connections.dom() == sent.connections.dom()
                    &&& after.routing == sent.routing
                }
            }
        }),
{
    let text = object_text(
        message_members(message.content@, message.recipient@, text_of(message.thread_ts)),
    );
    let draft = object_text(
        draft_members(
            "draft_start"@,
            "bridge_draft_"@ + unique,
            message.content@,
            message.recipient@,
        ),
    );
    let answer = choose|answer: Answer|
        (
            after,
            match result {
                Ok(_) => Ok(()),
                Err(error) => Err(error@),
            },
        ) == #[trigger] send_outcome(before, message.recipient@, draft, answer);
    let sent = send_outcome(before, message.recipient@, text, answer).0;
    if result is Err {
        assert(after.connections.dom() =~= sent.connections.dom());
        assert(after.routing =~= sent.routing);
    }
}

/// Drafts are told apart: different unique texts give different identifiers.
pub proof fn law_draft_ids_differ(a: Seq<char>, b: Seq<char>)
    requires
        "bridge_draft_"@ + a == "bridge_draft_"@ + b,
    ensures
        a == b,
{
    let n = "bridge_draft_"@.len() as int;
    assert(a =~= ("bridge_draft_"@ + a).skip(n));
    assert(b =~= ("bridge_draft_"@ + b).skip(n));
}

} // verus!
