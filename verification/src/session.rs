//! The life of one connection: a client first proves itself with the token,
//! then speaks for its end-users until either side is done.

use crate::allow_list::AllowList;
use crate::error::BridgeError;
use crate::frames::InboundFrame;
use crate::frames::OutboundFrame;
use crate::message::Post;
use crate::security::constant_time_eq;
use crate::text::join;
use vstd::prelude::*;

verus! {

/// Seconds that a client has to finish the handshake.
pub const AUTH_TIMEOUT_SECS: u64 = 10;

/// Seconds that the upgrade from TCP to WebSocket may take.
pub const WS_UPGRADE_TIMEOUT_SECS: u64 = 10;

/// Why a client is turned away.
#[derive(Clone, Copy, Debug, PartialEq, Eq, Structural)]
pub enum Rejection {
    /// It sent another frame than the handshake first.
    NotAuth,
    /// Its token was wrong.
    BadToken,
}

/// Where a connection is in its life.
#[derive(Clone, Copy, Debug, PartialEq, Eq, Structural)]
pub enum Phase {
    /// Waiting for the handshake.
    Handshake,
    /// Answering a heartbeat that came before the handshake.
    PongPending,
    /// Telling the client that it is turned away.
    RejectPending(Rejection),
    /// Telling the client that it is let in.
    AcceptPending,
    /// Relaying.
    Open,
    /// Handing a message to the agent.
    BusPending,
    /// Over.
    Done,
}

/// What happens to a connection.
#[derive(Debug)]
pub enum Event<S = String> {
    /// A text came that is a frame.
    Frame(InboundFrame<S>),
    /// A text came that is not.
    BadText,
    /// Something came that carries no text: a ping, a pong or binary data.
    Other,
    /// The client closes the connection.
    CloseFrame,
    /// Reading failed.
    ReadError,
    /// There is nothing more to read.
    EndOfStream,
    /// The time for the handshake is over.
    AuthTimeout,
    /// A text was written to the socket, or could not be.
    ReplyWritten(bool),
    /// The agent took a message, or listens no more.
    BusAnswered(bool),
}

/// What is to be done next for a connection.
#[derive(Debug)]
pub enum Action<S = String> {
    /// Read on.
    Read,
    /// Write a text to the socket, and tell how that went.
    Write(S),
    /// Make the connection known, and read on.
    Register,
    /// Queue a text for the connection, and read on.
    Queue(S),
    /// Hand a post to the agent, and tell how that went.
    Forward(Post<S>),
    /// End the connection.
    Close,
    /// End the connection with an error.
    Fail(BridgeError<S>),
    /// Nothing: the connection does not wait for what happened.
    Ignored,
}

impl View for Event<String> {
    type V = Event<Seq<char>>;

    open spec fn view(&self) -> Event<Seq<char>> {
        match *self {
            Event::Frame(frame) => Event::Frame(frame@),
            Event::BadText => Event::BadText,
            Event::Other => Event::Other,
            Event::CloseFrame => Event::CloseFrame,
            Event::ReadError => Event::ReadError,
            Event::EndOfStream => Event::EndOfStream,
            Event::AuthTimeout => Event::AuthTimeout,
            Event::ReplyWritten(written) => Event::ReplyWritten(written),
            Event::BusAnswered(taken) => Event::BusAnswered(taken),
        }
    }
}

impl View for Action<String> {
    type V = Action<Seq<char>>;

    open spec fn view(&self) -> Action<Seq<char>> {
        match *self {
            Action::Read => Action::Read,
            Action::Write(text) => Action::Write(text@),
            Action::Register => Action::Register,
            Action::Queue(text) => Action::Queue(text@),
            Action::Forward(post) => Action::Forward(post@),
            Action::Close => Action::Close,
            Action::Fail(error) => Action::Fail(error@),
            Action::Ignored => Action::Ignored,
        }
    }
}

/// The text that lets a client in.
pub open spec fn accept_text() -> Seq<char> {
    OutboundFrame::AuthResult { success: true, error: None }.wire_text()
}

/// The text that turns a client away.
pub open spec fn reject_text(rejection: Rejection) -> Seq<char> {
    match rejection {
        Rejection::NotAuth => OutboundFrame::AuthResult {
            success: false,
            error: Some("auth required as first message"),
        }.wire_text(),
        Rejection::BadToken => OutboundFrame::AuthResult {
            success: false,
            error: Some("invalid token"),
        }.wire_text(),
    }
}

/// The error with which a client that was turned away leaves.
pub open spec fn rejection_error(rejection: Rejection, conn_id: Seq<char>) -> BridgeError<
    Seq<char>,
> {
    match rejection {
        Rejection::NotAuth => BridgeError::NotAuthenticated,
        Rejection::BadToken => BridgeError::AuthFailed { conn_id },
    }
}

/// The text that answers a heartbeat.
pub open spec fn pong_text() -> Seq<char> {
    OutboundFrame::Pong.wire_text()
}

/// The text that answers something that is no frame.
pub open spec fn bad_frame_text() -> Seq<char> {
    OutboundFrame::Error { message: "invalid JSON frame" }.wire_text()
}

/// The text that answers a message of a sender who is not let in.
pub open spec fn not_allowed_text() -> Seq<char> {
    OutboundFrame::Error { message: "sender not allowed" }.wire_text()
}

/// The command that an answer to an approval prompt becomes.
pub open spec fn approval_command(request_id: Seq<char>, approved: bool) -> Seq<char> {
    if approved {
        "/approve-allow "@ + request_id
    } else {
        "/approve-deny "@ + request_id
    }
}

/// Where a connection goes, and what is to be done.
pub type Step = (Phase, Action<Seq<char>>);

/// A connection ends with an error.
pub open spec fn fails(error: BridgeError<Seq<char>>) -> Step {
    (Phase::Done, Action::Fail(error))
}

/// What happens before a client has proved itself. Only the frame with the right
/// token gets on; heartbeats are answered; any other frame turns the client
/// away.
pub open spec fn handshake_step(token: Seq<char>, event: Event<Seq<char>>) -> Step {
    match event {
        Event::Frame(frame) => match frame {
            InboundFrame::Auth { token: given } => if given == token {
                (Phase::AcceptPending, Action::Write(accept_text()))
            } else {
                (
                    Phase::RejectPending(Rejection::BadToken),
                    Action::Write(reject_text(Rejection::BadToken)),
                )
            },
            InboundFrame::Ping => (Phase::PongPending, Action::Write(pong_text())),
            _ => (
                Phase::RejectPending(Rejection::NotAuth),
                Action::Write(reject_text(Rejection::NotAuth)),
            ),
        },
        Event::BadText => fails(BridgeError::InvalidJsonDuringAuth),
        Event::Other => (Phase::Handshake, Action::Read),
        Event::CloseFrame => fails(BridgeError::ClientClosedDuringAuth),
        Event::ReadError => fails(BridgeError::ReadDuringAuth),
        Event::EndOfStream => fails(BridgeError::ClosedBeforeAuth),
        Event::AuthTimeout => fails(BridgeError::AuthTimeout),
        _ => (Phase::Handshake, Action::Ignored),
    }
}

/// What happens once a client has proved itself.
pub open spec fn open_step(allowed: Set<Seq<char>>, event: Event<Seq<char>>) -> Step {
    match event {
        Event::Frame(frame) => match frame {
            InboundFrame::Auth { .. } => (Phase::Open, Action::Read),
            InboundFrame::Message { content, sender_id, thread_id } => if allowed.contains(
                sender_id,
            ) {
                (
                    Phase::BusPending,
                    Action::Forward(Post { sender_id, content, thread_id, routes: true }),
                )
            } else {
                (Phase::Open, Action::Queue(not_allowed_text()))
            },
            InboundFrame::ApprovalResponse { request_id, approved, sender_id } => {
                if allowed.contains(sender_id) {
                    (
                        Phase::BusPending,
                        Action::Forward(
                            Post {
                                sender_id,
                                content: approval_command(request_id, approved),
                                thread_id: None,
                                routes: false,
                            },
                        ),
                    )
                } else {
                    (Phase::Open, Action::Read)
                }
            },
            InboundFrame::Ping => (Phase::Open, Action::Queue(pong_text())),
        },
        Event::BadText => (Phase::Open, Action::Queue(bad_frame_text())),
        Event::Other => (Phase::Open, Action::Read),
        Event::CloseFrame => (Phase::Done, Action::Close),
        Event::ReadError => (Phase::Done, Action::Close),
        Event::EndOfStream => (Phase::Done, Action::Close),
        _ => (Phase::Open, Action::Ignored),
    }
}

/// What happens to a connection. What it does not wait for changes nothing.
pub open spec fn session_step(
    phase: Phase,
    conn_id: Seq<char>,
    token: Seq<char>,
    allowed: Set<Seq<char>>,
    event: Event<Seq<char>>,
) -> Step {
    match phase {
        Phase::Handshake => handshake_step(token, event),
        Phase::PongPending => match event {
            Event::ReplyWritten(true) => (Phase::Handshake, Action::Read),
            Event::ReplyWritten(false) => fails(BridgeError::WriteDuringAuth),
            Event::AuthTimeout => fails(BridgeError::AuthTimeout),
            _ => (phase, Action::Ignored),
        },
        Phase::RejectPending(rejection) => match event {
            Event::ReplyWritten(true) => fails(rejection_error(rejection, conn_id)),
            Event::ReplyWritten(false) => fails(BridgeError::WriteDuringAuth),
            Event::AuthTimeout => if rejection == Rejection::NotAuth {
                fails(BridgeError::AuthTimeout)
            } else {
                (phase, Action::Ignored)
            },
            _ => (phase, Action::Ignored),
        },
        Phase::AcceptPending => match event {
            Event::ReplyWritten(true) => (Phase::Open, Action::Register),
            Event::ReplyWritten(false) => fails(BridgeError::WriteDuringAuth),
            _ => (phase, Action::Ignored),
        },
        Phase::Open => open_step(allowed, event),
        Phase::BusPending => match event {
            Event::BusAnswered(true) => (Phase::Open, Action::Read),
            Event::BusAnswered(false) => (Phase::Done, Action::Close),
            _ => (phase, Action::Ignored),
        },
        Phase::Done => (phase, Action::Ignored),
    }
}

fn accept() -> (text: String)
    ensures
        text@ == accept_text(),
{
    OutboundFrame::AuthResult { success: true, error: None }.to_json()
}

fn reject(rejection: Rejection) -> (text: String)
    ensures
        text@ == reject_text(rejection),
{
    match rejection {
        Rejection::NotAuth => OutboundFrame::AuthResult {
            success: false,
            error: Some("auth required as first message"),
        }.to_json(),
        Rejection::BadToken => OutboundFrame::AuthResult {
            success: false,
            error: Some("invalid token"),
        }.to_json(),
    }
}

/// Makes the command that an answer to an approval prompt becomes.
pub fn make_approval_command(request_id: &str, approved: bool) -> (command: String)
    ensures
        command@ == approval_command(request_id@, approved),
{
    if approved {
        join("/approve-allow ", request_id)
    } else {
        join("/approve-deny ", request_id)
    }
}

/// One connection. It is made when a client is taken on and changes only by
/// what happens to it, so a client cannot get past the handshake but by the
/// token.
pub struct Session {
    conn_id: String,
    listener: usize,
    phase: Phase,
}

impl Session {
    /// The identifier of the connection.
    pub closed spec fn id(&self) -> Seq<char> {
        self.conn_id@
    }

    /// Where the connection is in its life.
    pub closed spec fn at(&self) -> Phase {
        self.phase
    }

    /// The listener that took the connection on.
    pub closed spec fn origin(&self) -> nat {
        self.listener as nat
    }

    /// A connection that waits for the handshake.
    pub(crate) fn new(conn_id: String, listener: usize) -> (session: Session)
        ensures
            session.id() == conn_id@,
            session.origin() == listener,
            session.at() == Phase::Handshake,
    {
        Session { conn_id, listener, phase: Phase::Handshake }
    }

    /// The listener that took the connection on.
    pub fn listener(&self) -> (listener: usize)
        ensures
            listener == self.origin(),
    {
        self.listener
    }

    /// The identifier of the connection.
    pub fn conn_id(&self) -> (id: &str)
        ensures
            id@ == self.id(),
    {
        self.conn_id.as_str()
    }

    /// Where the connection is in its life.
    pub fn phase(&self) -> (phase: Phase)
        ensures
            phase == self.at(),
    {
        self.phase
    }

    /// Whether the time for the handshake still runs.
    pub fn is_timed(&self) -> (timed: bool)
        ensures
            timed == (self.at() == Phase::Handshake || self.at() == Phase::PongPending || self.at()
                == Phase::RejectPending(Rejection::NotAuth)),
    {
        match self.phase {
            Phase::Handshake => true,
            Phase::PongPending => true,
            Phase::RejectPending(rejection) => rejection == Rejection::NotAuth,
            _ => false,
        }
    }

    /// Takes note of what happened and says what is to be done.
    pub(crate) fn step(&mut self, token: &str, allowed: &AllowList, event: Event) -> (action: Action)
        ensures
            final(self).id() == old(self).id(),
            final(self).origin() == old(self).origin(),
            (final(self).at(), action@) == session_step(
                old(self).at(),
                old(self).id(),
                token@,
                allowed@,
                event@,
            ),
    {
        match self.phase {
            Phase::Handshake => self.on_handshake(token, event),
            Phase::PongPending => match event {
                Event::ReplyWritten(true) => self.go(Phase::Handshake, Action::Read),
                Event::ReplyWritten(false) => self.fail(BridgeError::WriteDuringAuth),
                Event::AuthTimeout => self.fail(BridgeError::AuthTimeout),
                _ => Action::Ignored,
            },
            Phase::RejectPending(rejection) => match event {
                Event::ReplyWritten(true) => {
                    let error = match rejection {
                        Rejection::NotAuth => BridgeError::NotAuthenticated,
                        Rejection::BadToken => BridgeError::AuthFailed {
                            conn_id: self.conn_id.clone(),
                        },
                    };
                    self.fail(error)
                },
                Event::ReplyWritten(false) => self.fail(BridgeError::WriteDuringAuth),
                Event::AuthTimeout => if rejection == Rejection::NotAuth {
                    self.fail(BridgeError::AuthTimeout)
                } else {
                    Action::Ignored
                },
                _ => Action::Ignored,
            },
            Phase::AcceptPending => match event {
                Event::ReplyWritten(true) => self.go(Phase::Open, Action::Register),
                Event::ReplyWritten(false) => self.fail(BridgeError::WriteDuringAuth),
                _ => Action::Ignored,
            },
            Phase::Open => self.on_open(allowed, event),
            Phase::BusPending => match event {
                Event::BusAnswered(true) => self.go(Phase::Open, Action::Read),
                Event::BusAnswered(false) => self.go(Phase::Done, Action::Close),
                _ => Action::Ignored,
            },
            Phase::Done => Action::Ignored,
        }
    }

    fn go(&mut self, phase: Phase, action: Action) -> (done: Action)
        ensures
            final(self).id() == old(self).id(),
            final(self).origin() == old(self).origin(),
            final(self).at() == phase,
            done == action,
    {
        self.phase = phase;
        action
    }

    fn fail(&mut self, error: BridgeError) -> (action: Action)
        ensures
            final(self).id() == old(self).id(),
            final(self).origin() == old(self).origin(),
            (final(self).at(), action@) == fails(error@),
    {
        self.phase = Phase::Done;
        Action::Fail(error)
    }

    fn on_handshake(&mut self, token: &str, event: Event) -> (action: Action)
        requires
            old(self).at() == Phase::Handshake,
        ensures
            final(self).id() == old(self).id(),
            final(self).origin() == old(self).origin(),
            (final(self).at(), action@) == handshake_step(token@, event@),
    {
        match event {
            Event::Frame(frame) => match frame {
                InboundFrame::Auth { token: given } => {
                    if constant_time_eq(given.as_str(), token) {
                        self.go(Phase::AcceptPending, Action::Write(accept()))
                    } else {
                        self.go(
                            Phase::RejectPending(Rejection::BadToken),
                            Action::Write(reject(Rejection::BadToken)),
                        )
                    }
                },
                InboundFrame::Ping => self.go(
                    Phase::PongPending,
                    Action::Write(OutboundFrame::Pong.to_json()),
                ),
                _ => self.go(
                    Phase::RejectPending(Rejection::NotAuth),
                    Action::Write(reject(Rejection::NotAuth)),
                ),
            },
            Event::BadText => self.fail(BridgeError::InvalidJsonDuringAuth),
            Event::Other => Action::Read,
            Event::CloseFrame => self.fail(BridgeError::ClientClosedDuringAuth),
            Event::ReadError => self.fail(BridgeError::ReadDuringAuth),
            Event::EndOfStream => self.fail(BridgeError::ClosedBeforeAuth),
            Event::AuthTimeout => self.fail(BridgeError::AuthTimeout),
            _ => Action::Ignored,
        }
    }

    fn on_open(&mut self, allowed: &AllowList, event: Event) -> (action: Action)
        requires
            old(self).at() == Phase::Open,
        ensures
            final(self).id() == old(self).id(),
            final(self).origin() == old(self).origin(),
            (final(self).at(), action@) == open_step(allowed@, event@),
    {
        match event {
            Event::Frame(frame) => match frame {
                InboundFrame::Auth { .. } => Action::Read,
                InboundFrame::Message { content, sender_id, thread_id } => {
                    if allowed.is_allowed(sender_id.as_str()) {
                        self.go(
                            Phase::BusPending,
                            Action::Forward(Post { sender_id, content, thread_id, routes: true }),
                        )
                    } else {
                        Action::Queue(OutboundFrame::Error { message: "sender not allowed" }.to_json())
                    }
                },
                InboundFrame::ApprovalResponse { request_id, approved, sender_id } => {
                    if allowed.is_allowed(sender_id.as_str()) {
                        let content = make_approval_command(request_id.as_str(), approved);
                        self.go(
                            Phase::BusPending,
                            Action::Forward(
                                Post { sender_id, content, thread_id: None, routes: false },
                            ),
                        )
                    } else {
                        Action::Read
                    }
                },
                InboundFrame::Ping => Action::Queue(OutboundFrame::Pong.to_json()),
            },
            Event::BadText => Action::Queue(
                OutboundFrame::Error { message: "invalid JSON frame" }.to_json(),
            ),
            Event::Other => Action::Read,
            Event::CloseFrame => self.go(Phase::Done, Action::Close),
            Event::ReadError => self.go(Phase::Done, Action::Close),
            Event::EndOfStream => self.go(Phase::Done, Action::Close),
            _ => Action::Ignored,
        }
    }
}

/// Where a connection is after a number of things happened to it.
pub open spec fn run(
    phase: Phase,
    conn_id: Seq<char>,
    token: Seq<char>,
    allowed: Set<Seq<char>>,
    events: Seq<Event<Seq<char>>>,
) -> Phase
    decreases events.len(),
{
    if events.len() == 0 {
        phase
    } else {
        let before = run(phase, conn_id, token, allowed, events.drop_last());
        session_step(before, conn_id, token, allowed, events.last()).0
    }
}

/// Whether the first events, all of them before number `i`, kept a connection
/// waiting for the handshake, and number `i` is the handshake with the token.
pub open spec fn proved_itself_at(
    conn_id: Seq<char>,
    token: Seq<char>,
    allowed: Set<Seq<char>>,
    events: Seq<Event<Seq<char>>>,
    i: int,
) -> bool {
    &&& 0 <= i < events.len()
    &&& events[i] == Event::Frame(InboundFrame::Auth { token })
    &&& run(Phase::Handshake, conn_id, token, allowed, events.take(i)) == Phase::Handshake
    &&& forall|j: int|
        0 <= j < i ==> {
            let phase = run(
                Phase::Handshake,
                conn_id,
                token,
                allowed,
                #[trigger] events.take(j),
            );
            phase == Phase::Handshake || phase == Phase::PongPending
        }
}

/// The client must prove itself first: whatever happens to a connection, it is
/// let in only if the token came while it was still waiting for it.
pub proof fn law_open_only_with_token(
    conn_id: Seq<char>,
    token: Seq<char>,
    allowed: Set<Seq<char>>,
    events: Seq<Event<Seq<char>>>,
)
    requires
        ({
            let phase = run(Phase::Handshake, conn_id, token, allowed, events);
            phase == Phase::AcceptPending || phase == Phase::Open || phase == Phase::BusPending
        }),
    ensures
        exists|i: int| #[trigger] proved_itself_at(conn_id, token, allowed, events, i),
    decreases events.len(),
{
    let prefix = events.drop_last();
    let before = run(Phase::Handshake, conn_id, token, allowed, prefix);
    if before == Phase::Handshake {
        let i = events.len() - 1;
        assert(events.take(i) =~= prefix);
        assert forall|j: int| 0 <= j < i implies {
            let phase = run(
                Phase::Handshake,
                conn_id,
                token,
                allowed,
                #[trigger] events.take(j),
            );
            phase == Phase::Handshake || phase == Phase::PongPending
        } by {
            lemma_handshake_was_waiting(conn_id, token, allowed, prefix, j);
            assert(prefix.take(j) =~= events.take(j));
        }
        assert(proved_itself_at(conn_id, token, allowed, events, i));
    } else {
        law_open_only_with_token(conn_id, token, allowed, prefix);
        let i = choose|i: int| #[trigger] proved_itself_at(conn_id, token, allowed, prefix, i);
        assert(prefix.take(i) =~= events.take(i));
        assert forall|j: int| 0 <= j < i implies {
            let phase = run(
                Phase::Handshake,
                conn_id,
                token,
                allowed,
                #[trigger] events.take(j),
            );
            phase == Phase::Handshake || phase == Phase::PongPending
        } by {
            assert(prefix.take(j) =~= events.take(j));
        }
        assert(proved_itself_at(conn_id, token, allowed, events, i));
    }
}

/// A connection that still waits for the handshake has done so all along.
proof fn lemma_handshake_was_waiting(
    conn_id: Seq<char>,
    token: Seq<char>,
    allowed: Set<Seq<char>>,
    events: Seq<Event<Seq<char>>>,
    j: int,
)
    requires
        0 <= j <= events.len(),
        ({
            let phase = run(Phase::Handshake, conn_id, token, allowed, events);
            phase == Phase::Handshake || phase == Phase::PongPending
        }),
    ensures
        ({
            let phase = run(Phase::Handshake, conn_id, token, allowed, events.take(j));
            phase == Phase::Handshake || phase == Phase::PongPending
        }),
    decreases events.len(),
{
    if j == events.len() {
        assert(events.take(j) =~= events);
    } else {
        lemma_handshake_was_waiting(conn_id, token, allowed, events.drop_last(), j);
        assert(events.drop_last().take(j) =~= events.take(j));
    }
}

/// Before a client has proved itself it gets no further than the handshake:
/// nothing is registered, queued or handed to the agent.
pub proof fn law_nothing_before_token(
    conn_id: Seq<char>,
    token: Seq<char>,
    allowed: Set<Seq<char>>,
    events: Seq<Event<Seq<char>>>,
    event: Event<Seq<char>>,
)
    requires
        ({
            let phase = run(Phase::Handshake, conn_id, token, allowed, events);
            let action = session_step(phase, conn_id, token, allowed, event).1;
            action is Register || action is Queue || action is Forward || action is Close
        }),
    ensures
        exists|i: int| #[trigger] proved_itself_at(conn_id, token, allowed, events, i),
{
    law_open_only_with_token(conn_id, token, allowed, events);
}

/// A client that is turned away stays out, whatever it does: the connection only
/// waits for the answer to be written, and then ends.
pub proof fn law_rejected_stays_out(
    rejection: Rejection,
    conn_id: Seq<char>,
    token: Seq<char>,
    allowed: Set<Seq<char>>,
    events: Seq<Event<Seq<char>>>,
)
    ensures
        ({
            let phase = run(Phase::RejectPending(rejection), conn_id, token, allowed, events);
            phase == Phase::RejectPending(rejection) || phase == Phase::Done
        }),
    decreases events.len(),
{
    if events.len() > 0 {
        law_rejected_stays_out(rejection, conn_id, token, allowed, events.drop_last());
    }
}

/// A wrong token is answered with a failure, and the connection then ends with
/// an error.
pub proof fn law_wrong_token_is_turned_away(
    conn_id: Seq<char>,
    token: Seq<char>,
    allowed: Set<Seq<char>>,
    given: Seq<char>,
    written: bool,
)
    requires
        given != token,
    ensures
        ({
            let event = Event::Frame(InboundFrame::Auth { token: given });
            let (phase, action) = session_step(Phase::Handshake, conn_id, token, allowed, event);
            let answered = Event::ReplyWritten(written);
            let (last, outcome) = session_step(phase, conn_id, token, allowed, answered);
            &&& action == Action::Write(reject_text(Rejection::BadToken))
            &&& last == Phase::Done
            &&& outcome is Fail
        }),
{
}

/// A frame that is neither the handshake nor a heartbeat, sent first, is
/// answered with a failure, and the connection then ends with an error.
pub proof fn law_auth_must_come_first(
    conn_id: Seq<char>,
    token: Seq<char>,
    allowed: Set<Seq<char>>,
    frame: InboundFrame<Seq<char>>,
    written: bool,
)
    requires
        !(frame is Auth),
        !(frame is Ping),
    ensures
        ({
            let event = Event::Frame(frame);
            let (phase, action) = session_step(Phase::Handshake, conn_id, token, allowed, event);
            let answered = Event::ReplyWritten(written);
            let (last, outcome) = session_step(phase, conn_id, token, allowed, answered);
            &&& action == Action::Write(reject_text(Rejection::NotAuth))
            &&& last == Phase::Done
            &&& outcome is Fail
        }),
{
}

/// A connection that is over stays over, and asks for nothing.
pub proof fn law_done_is_final(
    conn_id: Seq<char>,
    token: Seq<char>,
    allowed: Set<Seq<char>>,
    events: Seq<Event<Seq<char>>>,
    event: Event<Seq<char>>,
)
    ensures
        run(Phase::Done, conn_id, token, allowed, events) == Phase::Done,
        session_step(Phase::Done, conn_id, token, allowed, event).1 == Action::<Seq<char>>::Ignored,
    decreases events.len(),
{
    if events.len() > 0 {
        law_done_is_final(conn_id, token, allowed, events.drop_last(), event);
    }
}

/// Only senders who are let in reach the agent, and only through a connection
/// that has proved itself.
pub proof fn law_only_allowed_senders_reach_the_agent(
    phase: Phase,
    conn_id: Seq<char>,
    token: Seq<char>,
    allowed: Set<Seq<char>>,
    event: Event<Seq<char>>,
)
    ensures
        session_step(phase, conn_id, token, allowed, event).1 matches Action::Forward(post) ==> {
            &&& phase == Phase::Open
            &&& allowed.contains(post.sender_id)
        },
{
}

/// Once a client has proved itself, nothing that it says ends the connection:
/// neither text that is no frame, nor a sender who is not let in, nor another
/// handshake.
pub proof fn law_talk_keeps_the_connection(
    conn_id: Seq<char>,
    token: Seq<char>,
    allowed: Set<Seq<char>>,
    event: Event<Seq<char>>,
)
    requires
        event is Frame || event is BadText || event is Other,
    ensures
        ({
            let (phase, action) = session_step(Phase::Open, conn_id, token, allowed, event);
            &&& phase == Phase::Open || (phase == Phase::BusPending && action is Forward)
            &&& !(action is Close)
            &&& !(action is Fail)
        }),
{
}

} // verus!
