//! The bounded outbound queue of one connection.

use tokio::sync::mpsc::Receiver;
use tokio::sync::mpsc::Sender;
use vstd::prelude::*;

verus! {

/// Outbound queue size per connection. When the queue is full, because the
/// socket cannot keep pace, a new text is refused.
pub const OUTBOUND_QUEUE_SIZE: usize = 1024;

/// The sending half of a bounded queue, carried as it is.
#[verifier::external_type_specification]
#[verifier::external_body]
#[verifier::reject_recursive_types(T)]
pub struct ExSender<T>(tokio::sync::mpsc::Sender<T>);

/// The receiving half of a bounded queue, carried as it is.
#[verifier::external_type_specification]
#[verifier::external_body]
#[verifier::reject_recursive_types(T)]
pub struct ExReceiver<T>(tokio::sync::mpsc::Receiver<T>);

/// How many texts the queue behind a sending half was made to hold.
pub uninterp spec fn queue_bound(tx: Sender<String>) -> nat;

/// Whether what goes into a sending half comes out of a receiving half.
pub uninterp spec fn feeds(tx: Sender<String>, rx: Receiver<String>) -> bool;

/// The texts that went into the queue through a sending half, in order: those
/// that wait in it, after those that were read.
pub uninterp spec fn put_in(tx: Sender<String>) -> Seq<Seq<char>>;

/// The texts that were offered through a sending half and came back, in order.
/// The flag tells whether there was no room for the text; otherwise nobody read
/// the queue any more. The half keeps no list of them: this is the history of the
/// calls made on it.
pub uninterp spec fn turned_down(tx: Sender<String>) -> Seq<(Seq<char>, bool)>;

/// What a queue says to a text that it is offered.
#[derive(Clone, Copy, Debug, PartialEq, Eq, Structural)]
pub enum Answer {
    /// It takes the text.
    Queued,
    /// It is full.
    Full,
    /// Nobody reads it any more.
    Closed,
}

/// What became of a text that was offered to a queue. A refused text comes
/// back.
#[derive(Debug)]
pub enum Offer {
    /// The queue took the text.
    Queued,
    /// The queue was full.
    Full(String),
    /// Nobody reads the queue any more.
    Closed(String),
}

impl Offer {
    /// What the queue said.
    pub open spec fn answer(self) -> Answer {
        match self {
            Offer::Queued => Answer::Queued,
            Offer::Full(_) => Answer::Full,
            Offer::Closed(_) => Answer::Closed,
        }
    }

    /// Whether this can be the answer to an offer of `text`.
    pub open spec fn answers(self, text: Seq<char>) -> bool {
        match self {
            Offer::Queued => true,
            Offer::Full(back) => back@ == text,
            Offer::Closed(back) => back@ == text,
        }
    }
}

/// The queue of a connection, as its sending half sees it.
#[verifier::ext_equal]
pub struct QueueState {
    /// How many texts may wait in it.
    pub bound: nat,
    /// The receiving halves out of which its texts come.
    pub readers: Set<Receiver<String>>,
    /// The texts that went in, in order.
    pub taken: Seq<Seq<char>>,
    /// The texts that were offered and came back, in order, each with whether
    /// there was no room for it.
    pub refused: Seq<(Seq<char>, bool)>,
}

/// A text was offered to a queue, which answered.
pub open spec fn after_offer(queue: QueueState, text: Seq<char>, answer: Answer) -> QueueState {
    match answer {
        Answer::Queued => QueueState { taken: queue.taken.push(text), ..queue },
        Answer::Full => QueueState { refused: queue.refused.push((text, true)), ..queue },
        Answer::Closed => QueueState { refused: queue.refused.push((text, false)), ..queue },
    }
}

/// Whether a queue has refused a text for want of room only if as many texts as
/// it can hold had gone in.
pub open spec fn has_room_for_its_bound(queue: QueueState) -> bool {
    forall|i: int|
        0 <= i < queue.refused.len() && (#[trigger] queue.refused[i]).1 ==> queue.taken.len()
            >= queue.bound
}

/// Whether a queue is new, of the set size, and drained by a receiving half.
pub open spec fn is_fresh(queue: QueueState, rx: Receiver<String>) -> bool {
    &&& queue.bound == OUTBOUND_QUEUE_SIZE
    &&& queue.readers.contains(rx)
    &&& queue.taken == Seq::<Seq<char>>::empty()
    &&& queue.refused == Seq::<(Seq<char>, bool)>::empty()
}

/// Makes a queue with `tokio::sync::mpsc::channel`, which panics on a bound of
/// zero or above `usize::MAX >> 3`. Trusted: the two halves belong to one queue,
/// made with the bound that was asked for, and nothing went through it yet.
#[verifier::external_body]
fn open_queue(bound: usize) -> (halves: (Sender<String>, Receiver<String>))
    requires
        0 < bound <= usize::MAX / 8,
    ensures
        queue_bound(halves.0) == bound,
        feeds(halves.0, halves.1),
        put_in(halves.0) == Seq::<Seq<char>>::empty(),
        turned_down(halves.0) == Seq::<(Seq<char>, bool)>::empty(),
{
    tokio::sync::mpsc::channel(bound)
}

/// Offers a text to a queue with `tokio::sync::mpsc::Sender::try_send`, which
/// does not wait. Trusted: a text that the queue takes goes in after those
/// before it, a refused text does not go in and is handed back as it was given,
/// each call adds its text to the one history or the other, and the bound and the
/// receiving half of the queue stay. There is no room only where the queue, to
/// which nobody else has a sending half, was given as many texts as its bound.
/// Beyond that, which of the three answers comes depends on how fast the other
/// side reads, and is not stated.
#[verifier::external_body]
fn try_send(tx: &mut Sender<String>, text: String) -> (offer: Offer)
    ensures
        offer.answers(text@),
        put_in(*final(tx)) == (if offer is Queued {
            put_in(*old(tx)).push(text@)
        } else {
            put_in(*old(tx))
        }),
        turned_down(*final(tx)) == (if offer is Queued {
            turned_down(*old(tx))
        } else {
            turned_down(*old(tx)).push((text@, offer is Full))
        }),
        offer is Full ==> put_in(*old(tx)).len() >= queue_bound(*old(tx)),
        queue_bound(*final(tx)) == queue_bound(*old(tx)),
        forall|rx: Receiver<String>| #[trigger] feeds(*final(tx), rx) == feeds(*old(tx), rx),
{
    match tx.try_send(text) {
        Ok(()) => Offer::Queued,
        Err(tokio::sync::mpsc::error::TrySendError::Full(back)) => Offer::Full(back),
        Err(tokio::sync::mpsc::error::TrySendError::Closed(back)) => Offer::Closed(back),
    }
}

/// The write half of one authenticated connection. It alone holds the sending
/// half of the connection's queue.
pub struct ConnectionHandle {
    tx: Sender<String>,
}

impl View for ConnectionHandle {
    type V = QueueState;

    /// The queue of the connection.
    closed spec fn view(&self) -> QueueState {
        QueueState {
            bound: queue_bound(self.tx),
            readers: Set::new(|rx: Receiver<String>| feeds(self.tx, rx)),
            taken: put_in(self.tx),
            refused: turned_down(self.tx),
        }
    }
}

impl ConnectionHandle {
    /// The sending half of the queue.
    pub closed spec fn half(&self) -> Sender<String> {
        self.tx
    }

    /// What is said of a connection's queue is said of the queue itself: its
    /// bound, who reads it, and the texts that went in or came back, as they are.
    pub proof fn law_handle_shows_its_queue(&self, rx: Receiver<String>)
        ensures
            self@.bound == queue_bound(self.half()),
            self@.readers.contains(rx) <==> feeds(self.half(), rx),
            self@.taken == put_in(self.half()),
            self@.refused == turned_down(self.half()),
    {
    }

    /// A handle on a fresh queue, with the half that the socket's writer drains.
    pub fn open() -> (halves: (ConnectionHandle, Receiver<String>))
        ensures
            is_fresh(halves.0@, halves.1),
    {
        let (tx, rx) = open_queue(OUTBOUND_QUEUE_SIZE);
        (ConnectionHandle { tx }, rx)
    }

    /// Offers a text to the connection.
    pub fn offer(&mut self, text: &str) -> (offer: Offer)
        ensures
            offer.answers(text@),
            final(self)@ == after_offer(old(self)@, text@, offer.answer()),
            offer is Full ==> old(self)@.taken.len() >= old(self)@.bound,
    {
        let offer = try_send(&mut self.tx, text.to_owned());
        assert(self@.readers =~= old(self)@.readers);
        offer
    }
}

/// The queues of the connections that are gone. A handle that is put here is
/// closed: its queue takes nothing more, and ends for the reader after what it
/// took.
pub struct Departed {
    queues: Ghost<Map<Seq<char>, QueueState>>,
}

impl View for Departed {
    type V = Map<Seq<char>, QueueState>;

    /// The queue that last departed under each identifier, as it was left.
    closed spec fn view(&self) -> Map<Seq<char>, QueueState> {
        self.queues@
    }
}

impl Departed {
    /// No queue.
    pub fn new() -> (departed: Departed)
        ensures
            departed@ == Map::<Seq<char>, QueueState>::empty(),
    {
        Departed { queues: Ghost(Map::empty()) }
    }

    /// Closes the queue of a connection. All that is known here of the handle is
    /// what its queue is like, so nothing can be offered to it on the way.
    pub fn close<H: View<V = QueueState>>(&mut self, conn_id: &str, handle: H)
        ensures
            final(self)@ == old(self)@.insert(conn_id@, handle@),
    {
        proof {
            self.queues@ = self.queues@.insert(conn_id@, handle@);
        }
    }
}

} // verus!
