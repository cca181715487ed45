//! What holds of the bridge over the whole of its life, with all the connections
//! that come and go.

use crate::channel::carried_out;
use crate::channel::Directive;
use crate::error::BridgeError;
use crate::queue::QueueState;
use crate::session::law_nothing_before_token;
use crate::session::proved_itself_at;
use crate::session::run;
use crate::session::session_step;
use crate::session::Event;
use crate::session::Phase;
use crate::state::broadcasts;
use crate::state::finished;
use crate::state::has_free_slot;
use crate::state::listening;
use crate::state::sends;
use crate::state::slot_taken;
use crate::state::without_connection;
use crate::state::without_connections;
use crate::state::BridgeState;
use vstd::prelude::*;

verus! {

/// One connection that a service took on.
pub struct Visit {
    /// Its identifier.
    pub conn_id: Seq<char>,
    /// The listener that took it on.
    pub listener: nat,
    /// Where it is in its life.
    pub phase: Phase,
    /// Whether it was cleaned up.
    pub over: bool,
}

/// The bridge with every connection that it ever took on.
#[verifier::ext_equal]
pub struct Service {
    /// The bridge.
    pub bridge: BridgeState,
    /// The connections in the order in which they came.
    pub sessions: Seq<Visit>,
}

/// One thing that happens to a service.
pub enum Happening {
    /// A listener is opened.
    Listening,
    /// A listener takes a client on.
    Accepted { listener: nat, conn_id: Seq<char> },
    /// Something happens to a connection, at the time `now`, which leaves
    /// `directive` to be done.
    Occurred { session: int, event: Event<Seq<char>>, directive: Directive, now: u64 },
    /// The agent sends a text to a sender.
    Sent { sender_id: Seq<char>, text: Seq<char>, result: Result<(), BridgeError<Seq<char>>> },
    /// The agent sends a text to every connection.
    Broadcast { text: Seq<char> },
    /// A connection is over and cleaned up.
    Finished { session: int },
    /// A connection is removed, because it takes no more.
    Removed { conn_id: Seq<char> },
    /// Some connections are removed together.
    Dropped { gone: Set<Seq<char>> },
}

/// Whether a thing that happens takes a service from one state to the next.
pub open spec fn happens(before: Service, after: Service, happening: Happening) -> bool {
    match happening {
        Happening::Listening => {
            &&& after.sessions == before.sessions
            &&& after.bridge == listening(before.bridge)
        },
        Happening::Accepted { listener, conn_id } => {
            &&& has_free_slot(before.bridge, listener)
            &&& after.bridge == slot_taken(before.bridge, listener)
            &&& after.sessions == before.sessions.push(
                Visit { conn_id, listener, phase: Phase::Handshake, over: false },
            )
        },
        Happening::Occurred { session, event, directive, now } => {
            let visit = before.sessions[session];
            let (phase, action) = session_step(
                visit.phase,
                visit.conn_id,
                before.bridge.token,
                before.bridge.allowed,
                event,
            );
            &&& 0 <= session < before.sessions.len()
            &&& !visit.over
            &&& after.sessions == before.sessions.update(session, Visit { phase, ..visit })
            &&& carried_out(before.bridge, after.bridge, visit.conn_id, action, directive, now)
        },
        Happening::Sent { sender_id, text, result } => {
            &&& after.sessions == before.sessions
            &&& sends(before.bridge, after.bridge, result, sender_id, text)
        },
        Happening::Broadcast { text } => {
            &&& after.sessions == before.sessions
            &&& broadcasts(before.bridge, after.bridge, text)
        },
        Happening::Finished { session } => {
            let visit = before.sessions[session];
            &&& 0 <= session < before.sessions.len()
            &&& !visit.over
            &&& after.sessions == before.sessions.update(session, Visit { over: true, ..visit })
            &&& after.bridge == finished(before.bridge, visit.conn_id, visit.listener)
        },
        Happening::Removed { conn_id } => {
            &&& after.sessions == before.sessions
            &&& after.bridge == without_connection(before.bridge, conn_id)
        },
        Happening::Dropped { gone } => {
            &&& after.sessions == before.sessions
            &&& after.bridge == without_connections(before.bridge, gone)
        },
    }
}

/// Whether the states are those of a service that starts without listeners and
/// connections, as one thing after another happens to it.
pub open spec fn is_life(states: Seq<Service>, happenings: Seq<Happening>) -> bool {
    &&& states.len() == happenings.len() + 1
    &&& states[0].sessions.len() == 0
    &&& states[0].bridge.connections == Map::<Seq<char>, QueueState>::empty()
    &&& states[0].bridge.routing == Map::<Seq<char>, Seq<char>>::empty()
    &&& states[0].bridge.departed == Map::<Seq<char>, QueueState>::empty()
    &&& states[0].bridge.listeners == Seq::<nat>::empty()
    &&& forall|i: int|
        0 <= i < happenings.len() ==> happens(states[i], states[i + 1], #[trigger] happenings[i])
}

/// What happened to one connection, in order.
pub open spec fn events_of(happenings: Seq<Happening>, session: int) -> Seq<Event<Seq<char>>>
    decreases happenings.len(),
{
    if happenings.len() == 0 {
        seq![]
    } else {
        let events = events_of(happenings.drop_last(), session);
        match happenings.last() {
            Happening::Occurred { session: other, event, .. } => if other == session {
                events.push(event)
            } else {
                events
            },
            _ => events,
        }
    }
}

/// Whether a connection showed the token while it was waiting for it.
pub open spec fn has_proved_itself(
    states: Seq<Service>,
    happenings: Seq<Happening>,
    session: int,
) -> bool {
    &&& 0 <= session < states.last().sessions.len()
    &&& exists|i: int| #[trigger]
        proved_itself_at(
            states.last().sessions[session].conn_id,
            states[0].bridge.token,
            states[0].bridge.allowed,
            events_of(happenings, session),
            i,
        )
}

/// Whether a queue is an earlier one after more texts were offered: its bound and
/// its readers are the same, and what it took and refused before stays.
pub open spec fn continues(earlier: QueueState, later: QueueState) -> bool {
    &&& later.bound == earlier.bound
    &&& later.readers == earlier.readers
    &&& earlier.taken.is_prefix_of(later.taken)
    &&& earlier.refused.is_prefix_of(later.refused)
}

/// What happened before the last thing is a life too.
proof fn lemma_shorter_life(states: Seq<Service>, happenings: Seq<Happening>)
    requires
        is_life(states, happenings),
        happenings.len() > 0,
    ensures
        is_life(states.drop_last(), happenings.drop_last()),
        happens(states[states.len() - 2], states.last(), happenings.last()),
{
    let (s, h) = (states.drop_last(), happenings.drop_last());
    assert forall|i: int| 0 <= i < h.len() implies happens(s[i], s[i + 1], #[trigger] h[i]) by {
        assert(h[i] == happenings[i]);
    }
    assert(happenings[happenings.len() - 1] == happenings.last());
}

/// The configuration of a service is fixed: whatever happens, it stays as it was
/// at the start.
pub proof fn law_configuration_is_fixed(states: Seq<Service>, happenings: Seq<Happening>)
    requires
        is_life(states, happenings),
    ensures
        states.last().bridge == (BridgeState {
            connections: states.last().bridge.connections,
            routing: states.last().bridge.routing,
            departed: states.last().bridge.departed,
            listeners: states.last().bridge.listeners,
            ..states[0].bridge
        }),
    decreases happenings.len(),
{
    if happenings.len() > 0 {
        lemma_shorter_life(states, happenings);
        law_configuration_is_fixed(states.drop_last(), happenings.drop_last());
    }
}

/// Every connection is where its own life brought it, whatever happened to the
/// others.
pub proof fn law_connections_live_apart(
    states: Seq<Service>,
    happenings: Seq<Happening>,
    session: int,
)
    requires
        is_life(states, happenings),
    ensures
        0 <= session < states.last().sessions.len() ==> states.last().sessions[session].phase == run(
            Phase::Handshake,
            states.last().sessions[session].conn_id,
            states[0].bridge.token,
            states[0].bridge.allowed,
            events_of(happenings, session),
        ),
        session >= states.last().sessions.len() ==> events_of(happenings, session).len() == 0,
    decreases happenings.len(),
{
    if happenings.len() > 0 {
        let (s, h) = (states.drop_last(), happenings.drop_last());
        lemma_shorter_life(states, happenings);
        law_connections_live_apart(s, h, session);
        law_configuration_is_fixed(s, h);
        if let Happening::Occurred { session: other, event, .. } = happenings.last() {
            if other == session {
                assert(events_of(h, session).push(event).drop_last() =~= events_of(h, session));
            }
        }
    }
}

/// What happened up to some point is a life too.
proof fn lemma_beginning_of_life(states: Seq<Service>, happenings: Seq<Happening>, n: int)
    requires
        is_life(states, happenings),
        0 <= n <= happenings.len(),
    ensures
        is_life(states.take(n + 1), happenings.take(n)),
{
    let (s, h) = (states.take(n + 1), happenings.take(n));
    assert forall|i: int| 0 <= i < h.len() implies happens(s[i], s[i + 1], #[trigger] h[i]) by {
        assert(h[i] == happenings[i]);
    }
}

/// A connection that is about to be made known, or to have a message handed to
/// the agent, has proved itself.
proof fn lemma_active_has_proved_itself(
    states: Seq<Service>,
    happenings: Seq<Happening>,
    session: int,
    event: Event<Seq<char>>,
)
    requires
        is_life(states, happenings),
        0 <= session < states.last().sessions.len(),
        ({
            let visit = states.last().sessions[session];
            let (token, allowed) = (states.last().bridge.token, states.last().bridge.allowed);
            let action = session_step(visit.phase, visit.conn_id, token, allowed, event).1;
            action is Register || action is Forward
        }),
    ensures
        has_proved_itself(states, happenings, session),
{
    law_configuration_is_fixed(states, happenings);
    law_connections_live_apart(states, happenings, session);
    law_nothing_before_token(
        states.last().sessions[session].conn_id,
        states[0].bridge.token,
        states[0].bridge.allowed,
        events_of(happenings, session),
        event,
    );
}

/// Only proved connections, and only senders who are let in, reach the agent:
/// every message that is ever handed to the agent comes from a sender who is let
/// in, over a connection that had shown the token before.
pub proof fn law_agent_hears_only_the_allowed_over_proved_connections(
    states: Seq<Service>,
    happenings: Seq<Happening>,
    n: int,
)
    requires
        is_life(states, happenings),
        0 <= n < happenings.len(),
    ensures
        happenings[n] matches Happening::Occurred { session, directive, .. } ==> directive matches
            Directive::Forward(message) ==> {
            &&& states[0].bridge.allowed.contains(message.reply_target@)
            &&& has_proved_itself(states.take(n + 1), happenings.take(n), session)
        },
{
    if let Happening::Occurred { session, event, directive, .. } = happenings[n] {
        if directive is Forward {
            let (s, h) = (states.take(n + 1), happenings.take(n));
            lemma_beginning_of_life(states, happenings, n);
            law_configuration_is_fixed(s, h);
            lemma_active_has_proved_itself(s, h, session, event);
        }
    }
}

/// A connection that has proved itself has done so for good.
proof fn lemma_proof_lasts(states: Seq<Service>, happenings: Seq<Happening>, session: int)
    requires
        is_life(states, happenings),
        happenings.len() > 0,
        has_proved_itself(states.drop_last(), happenings.drop_last(), session),
    ensures
        has_proved_itself(states, happenings, session),
        states.last().sessions[session].conn_id == states.drop_last().last().sessions[session].conn_id,
{
    let (s, h) = (states.drop_last(), happenings.drop_last());
    let token = states[0].bridge.token;
    let allowed = states[0].bridge.allowed;
    let conn_id = s.last().sessions[session].conn_id;
    let (earlier, later) = (events_of(h, session), events_of(happenings, session));
    lemma_shorter_life(states, happenings);
    let i = choose|i: int| #[trigger] proved_itself_at(conn_id, token, allowed, earlier, i);
    assert(later.take(i) =~= earlier.take(i));
    assert forall|j: int| 0 <= j < i implies {
        let phase = run(Phase::Handshake, conn_id, token, allowed, #[trigger] later.take(j));
        phase == Phase::Handshake || phase == Phase::PongPending
    } by {
        assert(later.take(j) =~= earlier.take(j));
    }
    assert(proved_itself_at(states.last().sessions[session].conn_id, token, allowed, later, i));
}

/// Whether a connection is one of those that have proved themselves.
pub open spec fn is_proved(
    states: Seq<Service>,
    happenings: Seq<Happening>,
    conn_id: Seq<char>,
) -> bool {
    exists|session: int| #[trigger]
        has_proved_itself(states, happenings, session) && states.last().sessions[session].conn_id
            == conn_id
}

/// Nothing is ever sent to a stranger: every connection that is known, and every
/// connection to which a sender is routed, has shown the token.
pub proof fn law_nothing_goes_to_strangers(states: Seq<Service>, happenings: Seq<Happening>)
    requires
        is_life(states, happenings),
    ensures
        forall|conn_id: Seq<char>| #[trigger]
            states.last().bridge.connections.contains_key(conn_id) ==> is_proved(
                states,
                happenings,
                conn_id,
            ),
        forall|sender_id: Seq<char>| #[trigger]
            states.last().bridge.routing.contains_key(sender_id) ==> is_proved(
                states,
                happenings,
                states.last().bridge.routing[sender_id],
            ),
    decreases happenings.len(),
{
    if happenings.len() > 0 {
        let (s, h) = (states.drop_last(), happenings.drop_last());
        let (before, after) = (s.last().bridge, states.last().bridge);
        lemma_shorter_life(states, happenings);
        law_nothing_goes_to_strangers(s, h);
        assert forall|conn_id: Seq<char>| is_proved(s, h, conn_id) implies #[trigger] is_proved(
            states,
            happenings,
            conn_id,
        ) by {
            let session = choose|session: int| #[trigger]
                has_proved_itself(s, h, session) && s.last().sessions[session].conn_id == conn_id;
            lemma_proof_lasts(states, happenings, session);
        }
        if let Happening::Occurred { session, event, directive, .. } = happenings.last() {
            if directive is StartWriter || directive is Forward {
                lemma_active_has_proved_itself(s, h, session, event);
                assert(is_proved(s, h, s.last().sessions[session].conn_id));
            }
        }
    }
}

/// A queue stays with its readers: whatever happens, a connection that was known
/// stays known or departs, with a queue that has the same bound and the same
/// readers, and what went into it before. The exception is a connection that is
/// made known again under its identifier.
pub proof fn law_queues_keep_their_readers(
    before: Service,
    after: Service,
    happening: Happening,
    conn_id: Seq<char>,
)
    requires
        happens(before, after, happening),
        before.bridge.connections.contains_key(conn_id),
        happening matches Happening::Occurred { session, directive, .. } ==> !(directive is StartWriter
            && before.sessions[session].conn_id == conn_id),
    ensures
        if after.bridge.connections.contains_key(conn_id) {
            continues(before.bridge.connections[conn_id], after.bridge.connections[conn_id])
        } else {
            &&& after.bridge.departed.contains_key(conn_id)
            &&& continues(before.bridge.connections[conn_id], after.bridge.departed[conn_id])
        },
{
}

/// A queue that has departed takes nothing more: whatever happens, it stays as it
/// was left, unless another connection departs under the same identifier.
pub proof fn law_departed_queues_are_closed(
    before: Service,
    after: Service,
    happening: Happening,
    conn_id: Seq<char>,
)
    requires
        happens(before, after, happening),
        before.bridge.departed.contains_key(conn_id),
        !before.bridge.connections.contains_key(conn_id),
    ensures
        after.bridge.departed.contains_key(conn_id),
        after.bridge.departed[conn_id] == before.bridge.departed[conn_id],
{
}

/// How many connections of a listener are not over.
pub open spec fn served_by(sessions: Seq<Visit>, listener: nat) -> nat
    decreases sessions.len(),
{
    if sessions.len() == 0 {
        0
    } else {
        let (visit, n) = (sessions.last(), served_by(sessions.drop_last(), listener));
        if visit.listener == listener && !visit.over {
            n + 1
        } else {
            n
        }
    }
}

/// How many connections are not over.
pub open spec fn served(sessions: Seq<Visit>) -> nat
    decreases sessions.len(),
{
    if sessions.len() == 0 {
        0
    } else {
        let n = served(sessions.drop_last());
        if sessions.last().over {
            n
        } else {
            n + 1
        }
    }
}

/// How many slots are taken in all.
pub open spec fn total(listeners: Seq<nat>) -> nat
    decreases listeners.len(),
{
    if listeners.len() == 0 {
        0
    } else {
        total(listeners.drop_last()) + listeners.last()
    }
}

proof fn lemma_served_after_update(sessions: Seq<Visit>, i: int, visit: Visit, listener: nat)
    requires
        0 <= i < sessions.len(),
        visit.listener == sessions[i].listener,
        !sessions[i].over,
    ensures
        ({
            let after = sessions.update(i, visit);
            &&& served(sessions) == served(after) + (if visit.over {
                1int
            } else {
                0
            })
            &&& served_by(sessions, listener) == served_by(after, listener) + (if visit.over
                && visit.listener == listener {
                1int
            } else {
                0
            })
        }),
    decreases sessions.len(),
{
    let after = sessions.update(i, visit);
    let front = sessions.drop_last();
    if i < front.len() {
        lemma_served_after_update(front, i, visit, listener);
        assert(after.drop_last() =~= front.update(i, visit));
    } else {
        assert(after.drop_last() =~= front);
    }
}

proof fn lemma_total_after_update(listeners: Seq<nat>, i: int, n: nat)
    requires
        0 <= i < listeners.len(),
    ensures
        total(listeners.update(i, n)) == total(listeners) - listeners[i] + n,
    decreases listeners.len(),
{
    let after = listeners.update(i, n);
    let front = listeners.drop_last();
    if i < front.len() {
        lemma_total_after_update(front, i, n);
        assert(after.drop_last() =~= front.update(i, n));
    } else {
        assert(after.drop_last() =~= front);
    }
}

proof fn lemma_total_is_limited(listeners: Seq<nat>, limit: nat)
    requires
        forall|i: int| 0 <= i < listeners.len() ==> #[trigger] listeners[i] <= limit,
    ensures
        total(listeners) <= listeners.len() * limit,
    decreases listeners.len(),
{
    if listeners.len() > 0 {
        let front = listeners.drop_last();
        assert forall|i: int| 0 <= i < front.len() implies #[trigger] front[i] <= limit by {
            assert(front[i] == listeners[i]);
        }
        lemma_total_is_limited(front, limit);
        let n = front.len();
        assert(listeners[n as int] <= limit);
        assert((n + 1) * limit == n * limit + limit) by (nonlinear_arith);
    }
}

/// The slots that are taken are those of the connections that are not over, and
/// every connection came through a listener.
proof fn lemma_slots_are_counted(states: Seq<Service>, happenings: Seq<Happening>)
    requires
        is_life(states, happenings),
    ensures
        ({
            let (bridge, sessions) = (states.last().bridge, states.last().sessions);
            &&& total(bridge.listeners) == served(sessions)
            &&& forall|l: nat|
                l < bridge.listeners.len() ==> #[trigger] served_by(sessions, l)
                    == bridge.listeners[l as int] && served_by(sessions, l)
                    <= bridge.max_connections
            &&& forall|k: int|
                0 <= k < sessions.len() ==> (#[trigger] sessions[k]).listener
                    < bridge.listeners.len()
        }),
    decreases happenings.len(),
{
    if happenings.len() > 0 {
        let (s, h) = (states.drop_last(), happenings.drop_last());
        let (before, after) = (s.last(), states.last());
        lemma_shorter_life(states, happenings);
        lemma_slots_are_counted(s, h);
        match happenings.last() {
            Happening::Listening => {
                assert(after.bridge.listeners.drop_last() =~= before.bridge.listeners);
                lemma_served_by_nobody(before.sessions, before.bridge.listeners.len());
            },
            Happening::Accepted { listener, .. } => {
                let n = before.bridge.listeners[listener as int];
                lemma_total_after_update(before.bridge.listeners, listener as int, n + 1);
                assert(after.sessions.drop_last() =~= before.sessions);
                assert(served_by(before.sessions, listener) == n);
                assert forall|l: nat| l < after.bridge.listeners.len() implies #[trigger] served_by(
                    after.sessions,
                    l,
                ) == after.bridge.listeners[l as int] && served_by(after.sessions, l)
                    <= after.bridge.max_connections by {
                    assert(served_by(before.sessions, l) == before.bridge.listeners[l as int]);
                }
            },
            Happening::Occurred { session, .. } => {
                let visit = after.sessions[session];
                assert forall|l: nat| l < after.bridge.listeners.len() implies #[trigger] served_by(
                    after.sessions,
                    l,
                ) == after.bridge.listeners[l as int] && served_by(after.sessions, l)
                    <= after.bridge.max_connections by {
                    lemma_served_after_update(before.sessions, session, visit, l);
                    assert(served_by(before.sessions, l) == before.bridge.listeners[l as int]);
                }
                lemma_served_after_update(before.sessions, session, visit, 0);
            },
            Happening::Finished { session } => {
                let visit = after.sessions[session];
                let listener = visit.listener;
                let n = before.bridge.listeners[listener as int];
                assert(before.sessions[session].listener == listener);
                lemma_served_after_update(before.sessions, session, visit, listener);
                assert(served_by(before.sessions, listener) == n);
                lemma_total_after_update(
                    before.bridge.listeners,
                    listener as int,
                    (n - 1) as nat,
                );
                assert forall|l: nat| l < after.bridge.listeners.len() implies #[trigger] served_by(
                    after.sessions,
                    l,
                ) == after.bridge.listeners[l as int] && served_by(after.sessions, l)
                    <= after.bridge.max_connections by {
                    lemma_served_after_update(before.sessions, session, visit, l);
                    assert(served_by(before.sessions, l) == before.bridge.listeners[l as int]);
                }
            },
            _ => {},
        }
    }
}

/// Nobody came through a listener that is not open yet.
proof fn lemma_served_by_nobody(sessions: Seq<Visit>, listener: nat)
    requires
        forall|k: int| 0 <= k < sessions.len() ==> (#[trigger] sessions[k]).listener < listener,
    ensures
        served_by(sessions, listener) == 0,
    decreases sessions.len(),
{
    if sessions.len() > 0 {
        let front = sessions.drop_last();
        assert forall|k: int| 0 <= k < front.len() implies (#[trigger] front[k]).listener
            < listener by {
            assert(front[k] == sessions[k]);
        }
        lemma_served_by_nobody(front, listener);
        assert(sessions[sessions.len() - 1].listener < listener);
    }
}

/// Connections are limited: at no time does a listener serve more of them than
/// the bridge was set up for, those in the handshake included.
pub proof fn law_connection_limit(states: Seq<Service>, happenings: Seq<Happening>, listener: nat)
    requires
        is_life(states, happenings),
    ensures
        served_by(states.last().sessions, listener) <= states[0].bridge.max_connections,
        served(states.last().sessions) <= states.last().bridge.listeners.len()
            * states[0].bridge.max_connections,
{
    let (bridge, sessions) = (states.last().bridge, states.last().sessions);
    lemma_slots_are_counted(states, happenings);
    law_configuration_is_fixed(states, happenings);
    if listener >= bridge.listeners.len() {
        lemma_served_by_nobody(sessions, listener);
    }
    assert forall|i: int| 0 <= i < bridge.listeners.len() implies #[trigger] bridge.listeners[i]
        <= bridge.max_connections as nat by {
        assert(served_by(sessions, i as nat) == bridge.listeners[i]);
    }
    lemma_total_is_limited(bridge.listeners, bridge.max_connections as nat);
}

/// The identifiers of the connections that are not over.
spec fn ids_served(sessions: Seq<Visit>) -> Set<Seq<char>>
    decreases sessions.len(),
{
    if sessions.len() == 0 {
        Set::empty()
    } else {
        let ids = ids_served(sessions.drop_last());
        if sessions.last().over {
            ids
        } else {
            ids.insert(sessions.last().conn_id)
        }
    }
}

proof fn lemma_ids_served(sessions: Seq<Visit>)
    ensures
        ids_served(sessions).finite(),
        ids_served(sessions).len() <= served(sessions),
        forall|k: int|
            0 <= k < sessions.len() && !(#[trigger] sessions[k]).over ==> ids_served(
                sessions,
            ).contains(sessions[k].conn_id),
    decreases sessions.len(),
{
    if sessions.len() > 0 {
        let front = sessions.drop_last();
        lemma_ids_served(front);
        assert forall|k: int|
            0 <= k < sessions.len() && !(#[trigger] sessions[k]).over implies ids_served(
            sessions,
        ).contains(sessions[k].conn_id) by {
            if k < front.len() {
                assert(front[k] == sessions[k]);
            }
        }
    }
}

/// Whether a connection is not over.
pub open spec fn is_served(sessions: Seq<Visit>, conn_id: Seq<char>) -> bool {
    exists|k: int|
        0 <= k < sessions.len() && !(#[trigger] sessions[k]).over && sessions[k].conn_id == conn_id
}

/// What is known is being served: every known connection is one that is not over
/// yet.
pub proof fn law_known_connections_are_served(states: Seq<Service>, happenings: Seq<Happening>)
    requires
        is_life(states, happenings),
    ensures
        forall|conn_id: Seq<char>| #[trigger]
            states.last().bridge.connections.contains_key(conn_id) ==> is_served(
                states.last().sessions,
                conn_id,
            ),
    decreases happenings.len(),
{
    if happenings.len() > 0 {
        let (s, h) = (states.drop_last(), happenings.drop_last());
        let (before, after) = (s.last(), states.last());
        lemma_shorter_life(states, happenings);
        law_known_connections_are_served(s, h);
        assert forall|conn_id: Seq<char>| #[trigger]
            after.bridge.connections.contains_key(conn_id) implies is_served(
            after.sessions,
            conn_id,
        ) by {
            if before.bridge.connections.contains_key(conn_id) {
                let k = choose|k: int|
                    0 <= k < before.sessions.len() && !(#[trigger] before.sessions[k]).over
                        && before.sessions[k].conn_id == conn_id;
                assert(after.sessions[k].conn_id == conn_id);
            } else {
                assert(happenings.last() is Occurred);
                let k = happenings.last()->Occurred_session;
                assert(after.sessions[k].conn_id == conn_id);
            }
        }
    }
}

/// The connections that are known, and have a queue each, are limited too: they
/// never number more than the bridge was set up for, for each of its listeners.
pub proof fn law_known_connections_are_limited(states: Seq<Service>, happenings: Seq<Happening>)
    requires
        is_life(states, happenings),
    ensures
        states.last().bridge.connections.dom().finite(),
        states.last().bridge.connections.dom().len() <= states.last().bridge.listeners.len()
            * states[0].bridge.max_connections,
{
    let (bridge, sessions) = (states.last().bridge, states.last().sessions);
    law_connection_limit(states, happenings, 0);
    law_known_connections_are_served(states, happenings);
    lemma_ids_served(sessions);
    assert forall|conn_id: Seq<char>| #[trigger]
        bridge.connections.dom().contains(conn_id) implies ids_served(sessions).contains(
        conn_id,
    ) by {
        assert(bridge.connections.contains_key(conn_id));
        let k = choose|k: int|
            0 <= k < sessions.len() && !(#[trigger] sessions[k]).over && sessions[k].conn_id
                == conn_id;
        assert(ids_served(sessions).contains(sessions[k].conn_id));
    }
    assert(bridge.connections.dom().subset_of(ids_served(sessions)));
    vstd::set_lib::lemma_len_subset(bridge.connections.dom(), ids_served(sessions));
}

/// The connections that a listener serves are counted one by one.
pub proof fn law_served_connections_are_counted(sessions: Seq<Visit>, listener: nat)
    ensures
        ({
            let places = Set::new(
                |k: int|
                    0 <= k < sessions.len() && sessions[k].listener == listener
                        && !sessions[k].over,
            );
            places.finite() && served_by(sessions, listener) == places.len()
        }),
    decreases sessions.len(),
{
    let places = Set::new(
        |k: int| 0 <= k < sessions.len() && sessions[k].listener == listener && !sessions[k].over,
    );
    if sessions.len() == 0 {
        assert(places =~= Set::<int>::empty());
    } else {
        let front = sessions.drop_last();
        let n = front.len() as int;
        let earlier = Set::new(
            |k: int| 0 <= k < front.len() && front[k].listener == listener && !front[k].over,
        );
        law_served_connections_are_counted(front, listener);
        if sessions[n].listener == listener && !sessions[n].over {
            assert(places =~= earlier.insert(n));
        } else {
            assert(places =~= earlier);
        }
    }
}

/// Nobody is turned away while there is room: in every life of the service, an
/// open listener takes the next client on if, and only if, it serves fewer
/// connections than the bridge was set up for.
pub proof fn law_clients_are_taken_on_while_there_is_room(
    states: Seq<Service>,
    happenings: Seq<Happening>,
    listener: nat,
)
    requires
        is_life(states, happenings),
        listener < states.last().bridge.listeners.len(),
    ensures
        has_free_slot(states.last().bridge, listener) <==> Set::new(
            |k: int|
                {
                    &&& 0 <= k < states.last().sessions.len()
                    &&& states.last().sessions[k].listener == listener
                    &&& !states.last().sessions[k].over
                },
        ).len() < states[0].bridge.max_connections,
        has_free_slot(states.last().bridge, listener) <==> served_by(
            states.last().sessions,
            listener,
        ) < states[0].bridge.max_connections,
{
    let sessions = states.last().sessions;
    law_configuration_is_fixed(states, happenings);
    lemma_slots_are_counted(states, happenings);
    law_served_connections_are_counted(sessions, listener);
    assert(served_by(sessions, listener) == states.last().bridge.listeners[listener as int]);
    let places = Set::new(
        |k: int| 0 <= k < sessions.len() && sessions[k].listener == listener && !sessions[k].over,
    );
    let same = Set::new(
        |k: int|
            {
                &&& 0 <= k < states.last().sessions.len()
                &&& states.last().sessions[k].listener == listener
                &&& !states.last().sessions[k].over
            },
    );
    assert(places =~= same);
}

} // verus!
