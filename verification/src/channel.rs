//! The bridge itself: its configuration, the connections that have proved
//! themselves, and the routes by which replies find them.

use crate::allow_list::permitted;
use crate::allow_list::AllowList;
use crate::error::BridgeError;
use crate::frames::draft_members;
use crate::frames::message_members;
use crate::frames::text_of;
use crate::frames::OutboundFrame;
use crate::ids::is_drawn;
use crate::ids::is_uuid_v4;
use crate::ids::FreshId;
use crate::json::object_text;
use crate::message::compose_message;
use crate::message::is_message_of;
use crate::message::ChannelMessage;
use crate::message::SendMessage;
use crate::message::StreamMode;
use crate::queue::after_offer;
use crate::queue::is_fresh;
use crate::queue::has_room_for_its_bound;
use crate::queue::Answer;
use crate::queue::ConnectionHandle;
use crate::queue::Departed;
use crate::queue::Offer;
use crate::queue::QueueState;
use crate::queue::OUTBOUND_QUEUE_SIZE;
use crate::security::is_loopback;
use crate::security::is_public_bind;
use crate::session::session_step;
use crate::session::Action;
use crate::session::Event;
use crate::session::Phase;
use crate::session::Session;
use crate::state::broadcast_outcome;
use crate::state::broadcasts;
use crate::state::finished;
use crate::state::has_free_slot;
use crate::state::listening;
use crate::state::offered;
use crate::state::offered_to_all;
use crate::state::refusing;
use crate::state::registered;
use crate::state::replied;
use crate::state::route_of;
use crate::state::routed;
use crate::state::send_outcome;
use crate::state::sends;
use crate::state::settled;
use crate::state::slot_taken;
use crate::state::unregistered;
use crate::state::without_connection;
use crate::state::without_connections;
use crate::state::BridgeState;
use crate::table::Table;
use crate::text::decimal;
use crate::text::join;
use crate::text::lists;
use crate::text::to_decimal;
use tokio::sync::mpsc::Receiver;
use vstd::prelude::*;

verus! {

/// A WebSocket server channel that bridges third-party systems to the agent.
pub struct BridgeChannel {
    host: String,
    port: u16,
    token: String,
    allowed: AllowList,
    stream_mode: StreamMode,
    max_connections: u16,
    allow_public_bind: bool,
    connections: Table<ConnectionHandle>,
    routing: Table<String>,
    departed: Departed,
    listeners: Vec<u16>,
}

impl View for BridgeChannel {
    type V = BridgeState;

    closed spec fn view(&self) -> BridgeState {
        BridgeState {
            host: self.host@,
            port: self.port,
            token: self.token@,
            allowed: self.allowed@,
            stream_mode: self.stream_mode,
            max_connections: self.max_connections,
            allow_public_bind: self.allow_public_bind,
            connections: self.connections@.map_values(|handle: ConnectionHandle| handle@),
            routing: self.routing.texts(),
            departed: self.departed@,
            listeners: self.listeners@.map_values(|taken: u16| taken as nat),
        }
    }
}

/// What the result of an operation says.
pub open spec fn result_of(result: Result<(), BridgeError>) -> Result<
    (),
    BridgeError<Seq<char>>,
> {
    match result {
        Ok(()) => Ok(()),
        Err(error) => Err(error@),
    }
}

/// The text of an identifier that is drawn here and now.
fn fresh_uuid() -> (id: String)
    ensures
        is_uuid_v4(id@),
        is_drawn(id@),
{
    let id = FreshId::draw();
    assert(is_drawn(id@));
    id.into_text()
}

/// Whether a queue has the set size, and room for as many texts.
pub open spec fn is_sound(queue: QueueState) -> bool {
    queue.bound == OUTBOUND_QUEUE_SIZE && has_room_for_its_bound(queue)
}

impl BridgeChannel {
    /// The tables hold no key twice, every queue has the set size and room for as
    /// many texts, and no listener serves more connections than it may.
    pub closed spec fn wf(&self) -> bool {
        &&& self.connections.wf()
        &&& self.routing.wf()
        &&& forall|conn_id: Seq<char>| #[trigger]
            self@.connections.contains_key(conn_id) ==> is_sound(self@.connections[conn_id])
        &&& forall|conn_id: Seq<char>| #[trigger]
            self@.departed.contains_key(conn_id) ==> is_sound(self@.departed[conn_id])
        &&& forall|i: int|
            0 <= i < self.listeners@.len() ==> #[trigger] self.listeners@[i] <= self.max_connections
    }

    /// A bridge without connections.
    pub fn new(
        host: String,
        port: u16,
        token: String,
        allowed_senders: &[String],
        stream_mode: StreamMode,
        max_connections: u16,
        allow_public_bind: bool,
    ) -> (channel: BridgeChannel)
        ensures
            channel.wf(),
            channel@ == (BridgeState {
                host: host@,
                port,
                token: token@,
                allowed: permitted(allowed_senders@),
                stream_mode,
                max_connections,
                allow_public_bind,
                connections: Map::empty(),
                routing: Map::empty(),
                departed: Map::empty(),
                listeners: Seq::empty(),
            }),
    {
        let channel = BridgeChannel {
            host,
            port,
            token,
            allowed: AllowList::parse(allowed_senders),
            stream_mode,
            max_connections,
            allow_public_bind,
            connections: Table::new(),
            routing: Table::new(),
            departed: Departed::new(),
            listeners: Vec::new(),
        };
        proof {
            assert(channel@.connections =~= Map::<Seq<char>, QueueState>::empty());
            assert(channel@.routing =~= Map::<Seq<char>, Seq<char>>::empty());
            assert(channel@.listeners =~= Seq::<nat>::empty());
        }
        channel
    }

    /// Forgets a connection and closes its queue, but keeps the routes to it.
    fn unregister(&mut self, conn_id: &str)
        requires
            old(self).wf(),
        ensures
            final(self).wf(),
            final(self)@ == unregistered(old(self)@, conn_id@),
    {
        match self.connections.remove(conn_id) {
            Some(handle) => {
                self.departed.close(conn_id, handle);
                assert(self@.connections =~= old(self)@.connections.remove(conn_id@));
            },
            None => {
                assert(self@.connections =~= old(self)@.connections);
            },
        }
    }

    /// Removes a connection and all routes to it.
    pub fn remove_connection(&mut self, conn_id: &str)
        requires
            old(self).wf(),
        ensures
            final(self).wf(),
            final(self)@ == without_connection(old(self)@, conn_id@),
    {
        self.unregister(conn_id);
        self.routing.remove_value(conn_id);
        proof {
            assert(self@.routing =~= without_connection(old(self)@, conn_id@).routing);
        }
    }

    /// The connection to which a text for a sender goes.
    pub fn resolve(&self, sender_id: &str) -> (route: Result<String, BridgeError>)
        requires
            self.wf(),
        ensures
            match route {
                Ok(conn_id) => route_of(self@, sender_id@) == Ok::<
                    Seq<char>,
                    BridgeError<Seq<char>>,
                >(conn_id@),
                Err(error) => route_of(self@, sender_id@) == Err::<
                    Seq<char>,
                    BridgeError<Seq<char>>,
                >(error@),
            },
    {
        match self.routing.get(sender_id) {
            None => Err(BridgeError::NoConnection),
            Some(conn_id) => {
                if self.connections.contains(conn_id.as_str()) {
                    Ok(conn_id.clone())
                } else {
                    Err(BridgeError::ConnectionNotFound { conn_id: conn_id.clone() })
                }
            },
        }
    }

    /// Offers a text to a connection that is known.
    fn offer(&mut self, conn_id: &str, text: &str) -> (offer: Offer)
        requires
            old(self).wf(),
            old(self)@.connections.contains_key(conn_id@),
        ensures
            final(self).wf(),
            offer.answers(text@),
            final(self)@ == offered(old(self)@, conn_id@, text@, offer.answer()),
    {
        let place = self.connections.find(conn_id).unwrap();
        let offer = self.connections.value_mut(place).offer(text);
        proof {
            assert(self@.connections =~= offered(
                old(self)@,
                conn_id@,
                text@,
                offer.answer(),
            ).connections);
        }
        offer
    }

    /// Draws the consequence of an offer to the connection of a sender: one that
    /// did not take the text is dropped.
    pub fn settle(&mut self, sender_id: &str, conn_id: &str, offer: &Offer) -> (result: Result<
        (),
        BridgeError,
    >)
        requires
            old(self).wf(),
        ensures
            final(self).wf(),
            (final(self)@, result_of(result)) == settled(
                old(self)@,
                sender_id@,
                conn_id@,
                (*offer).answer(),
            ),
    {
        match offer {
            Offer::Queued => Ok(()),
            _ => {
                self.remove_connection(conn_id);
                Err(BridgeError::ConnectionClosed { sender_id: sender_id.to_owned() })
            },
        }
    }

    /// Sends a text to the connection that last spoke for a sender, and drops
    /// the connection if its queue does not take it.
    pub fn send_to_sender(&mut self, sender_id: &str, json: &str) -> (result: Result<
        (),
        BridgeError,
    >)
        requires
            old(self).wf(),
        ensures
            final(self).wf(),
            sends(old(self)@, final(self)@, result_of(result), sender_id@, json@),
    {
        match self.resolve(sender_id) {
            Ok(conn_id) => {
                let offer = self.offer(conn_id.as_str(), json);
                let result = self.settle(sender_id, conn_id.as_str(), &offer);
                proof {
                    assert((self@, result_of(result)) == send_outcome(
                        old(self)@,
                        sender_id@,
                        json@,
                        offer.answer(),
                    ));
                }
                result
            },
            Err(error) => {
                proof {
                    assert((self@, Err::<(), BridgeError<Seq<char>>>(error@)) == send_outcome(
                        old(self)@,
                        sender_id@,
                        json@,
                        Answer::Queued,
                    ));
                }
                Err(error)
            },
        }
    }

    /// Sends a frame to a sender.
    pub fn send_frame(&mut self, sender_id: &str, frame: &OutboundFrame<'_>) -> (result: Result<
        (),
        BridgeError,
    >)
        requires
            old(self).wf(),
        ensures
            final(self).wf(),
            sends(old(self)@, final(self)@, result_of(result), sender_id@, frame.wire_text()),
    {
        let json = frame.to_json();
        self.send_to_sender(sender_id, json.as_str())
    }

    /// The name of the channel.
    pub fn name(&self) -> (name: &'static str)
        ensures
            name@ == "bridge"@,
    {
        "bridge"
    }

    /// Whether at least one connection has proved itself.
    pub fn health_check(&self) -> (healthy: bool)
        requires
            self.wf(),
        ensures
            healthy == exists|conn_id: Seq<char>| #[trigger]
                self@.connections.contains_key(conn_id),
    {
        proof {
            self.connections.lemma_keys();
            if self.connections.keys().len() > 0 {
                let conn_id = self.connections.keys()[0];
                assert(self@.connections.contains_key(conn_id));
            } else {
                assert forall|conn_id: Seq<char>| !#[trigger] self@.connections.contains_key(
                    conn_id,
                ) by {
                    assert(!self.connections@.contains_key(conn_id));
                }
            }
        }
        self.connections.len() > 0
    }

    /// Whether replies are shown while they are being written.
    pub fn supports_draft_updates(&self) -> (supported: bool)
        ensures
            supported == (self@.stream_mode == StreamMode::Partial),
    {
        self.stream_mode == StreamMode::Partial
    }

    /// Where to listen. A host that would expose the port to the network is
    /// refused unless that was asked for.
    pub fn bind_address(&self) -> (address: Result<String, BridgeError>)
        ensures
            match address {
                Ok(address) => {
                    &&& is_loopback(self@.host) || self@.allow_public_bind
                    &&& address@ == self@.host + ":"@ + decimal(self@.port as nat)
                },
                Err(error) => {
                    &&& !is_loopback(self@.host)
                    &&& !self@.allow_public_bind
                    &&& error@ == BridgeError::PublicBind { host: self@.host }
                },
            },
    {
        if is_public_bind(self.host.as_str()) && !self.allow_public_bind {
            Err(BridgeError::PublicBind { host: self.host.clone() })
        } else {
            let address = join(self.host.as_str(), ":");
            Ok(join(address.as_str(), to_decimal(self.port).as_str()))
        }
    }

    /// Sends a reply.
    pub fn send(&mut self, message: &SendMessage) -> (result: Result<(), BridgeError>)
        requires
            old(self).wf(),
        ensures
            final(self).wf(),
            sends(
                old(self)@,
                final(self)@,
                result_of(result),
                message.recipient@,
                object_text(
                    message_members(
                        message.content@,
                        message.recipient@,
                        text_of(message.thread_ts),
                    ),
                ),
            ),
    {
        let thread_ts = match &message.thread_ts {
            Some(thread_ts) => Some(thread_ts.as_str()),
            None => None,
        };
        let frame = OutboundFrame::Message {
            content: message.content.as_str(),
            sender_id: message.recipient.as_str(),
            thread_ts,
        };
        self.send_frame(message.recipient.as_str(), &frame)
    }

    /// Tells a user that the agent starts to type.
    pub fn start_typing(&mut self, recipient: &str) -> (result: Result<(), BridgeError>)
        requires
            old(self).wf(),
        ensures
            final(self).wf(),
            sends(
                old(self)@,
                final(self)@,
                result_of(result),
                recipient@,
                (OutboundFrame::TypingStart { sender_id: recipient }).wire_text(),
            ),
    {
        self.send_frame(recipient, &OutboundFrame::TypingStart { sender_id: recipient })
    }

    /// Tells a user that the agent stops typing.
    pub fn stop_typing(&mut self, recipient: &str) -> (result: Result<(), BridgeError>)
        requires
            old(self).wf(),
        ensures
            final(self).wf(),
            sends(
                old(self)@,
                final(self)@,
                result_of(result),
                recipient@,
                (OutboundFrame::TypingStop { sender_id: recipient }).wire_text(),
            ),
    {
        self.send_frame(recipient, &OutboundFrame::TypingStop { sender_id: recipient })
    }

    /// Shows a draft under a fresh identifier, and returns the identifier.
    pub fn send_draft(&mut self, message: &SendMessage) -> (result: Result<
        Option<String>,
        BridgeError,
    >)
        requires
            old(self).wf(),
        ensures
            final(self).wf(),
            exists|unique: Seq<char>| #[trigger]
                is_uuid_v4(unique) && is_drawn(unique) && draft_sent(
                    old(self)@,
                    final(self)@,
                    result,
                    *message,
                    unique,
                ),
    {
        let unique = fresh_uuid();
        self.send_draft_as(message, unique.as_str())
    }

    /// Shows a draft under an identifier made from a unique text, and returns the
    /// identifier.
    pub fn send_draft_as(&mut self, message: &SendMessage, unique: &str) -> (result: Result<
        Option<String>,
        BridgeError,
    >)
        requires
            old(self).wf(),
        ensures
            final(self).wf(),
            draft_sent(old(self)@, final(self)@, result, *message, unique@),
    {
        let draft_id = join("bridge_draft_", unique);
        let frame = OutboundFrame::DraftStart {
            draft_id: draft_id.as_str(),
            content: message.content.as_str(),
            sender_id: message.recipient.as_str(),
        };
        match self.send_frame(message.recipient.as_str(), &frame) {
            Ok(()) => Ok(Some(draft_id)),
            Err(error) => Err(error),
        }
    }

    /// Changes a draft.
    pub fn update_draft(&mut self, recipient: &str, message_id: &str, text: &str) -> (result:
        Result<Option<String>, BridgeError>)
        requires
            old(self).wf(),
        ensures
            final(self).wf(),
            result matches Ok(id) ==> id is None,
            sends(
                old(self)@,
                final(self)@,
                (match result {
                    Ok(_) => Ok(()),
                    Err(error) => Err(error@),
                }),
                recipient@,
                (OutboundFrame::DraftUpdate {
                    draft_id: message_id,
                    content: text,
                    sender_id: recipient,
                }).wire_text(),
            ),
    {
        let frame = OutboundFrame::DraftUpdate {
            draft_id: message_id,
            content: text,
            sender_id: recipient,
        };
        match self.send_frame(recipient, &frame) {
            Ok(()) => Ok(None),
            Err(error) => Err(error),
        }
    }

    /// Turns a draft into the reply.
    pub fn finalize_draft(&mut self, recipient: &str, message_id: &str, text: &str) -> (result:
        Result<(), BridgeError>)
        requires
            old(self).wf(),
        ensures
            final(self).wf(),
            sends(
                old(self)@,
                final(self)@,
                result_of(result),
                recipient@,
                (OutboundFrame::DraftFinalize {
                    draft_id: message_id,
                    content: text,
                    sender_id: recipient,
                }).wire_text(),
            ),
    {
        let frame = OutboundFrame::DraftFinalize {
            draft_id: message_id,
            content: text,
            sender_id: recipient,
        };
        self.send_frame(recipient, &frame)
    }

    /// Withdraws a draft.
    pub fn cancel_draft(&mut self, recipient: &str, message_id: &str) -> (result: Result<
        (),
        BridgeError,
    >)
        requires
            old(self).wf(),
        ensures
            final(self).wf(),
            sends(
                old(self)@,
                final(self)@,
                result_of(result),
                recipient@,
                (OutboundFrame::DraftCancel { draft_id: message_id, sender_id: recipient }).wire_text(),
            ),
    {
        let frame = OutboundFrame::DraftCancel { draft_id: message_id, sender_id: recipient };
        self.send_frame(recipient, &frame)
    }

    /// Asks a user whether the agent may use a tool.
    pub fn send_approval_prompt(
        &mut self,
        recipient: &str,
        request_id: &str,
        tool_name: &str,
        arguments: &serde_json::Value,
        _thread_ts: Option<String>,
    ) -> (result: Result<(), BridgeError>)
        requires
            old(self).wf(),
        ensures
            final(self).wf(),
            sends(
                old(self)@,
                final(self)@,
                result_of(result),
                recipient@,
                (OutboundFrame::ApprovalPrompt {
                    request_id,
                    tool_name,
                    arguments,
                    sender_id: recipient,
                }).wire_text(),
            ),
    {
        let frame = OutboundFrame::ApprovalPrompt {
            request_id,
            tool_name,
            arguments,
            sender_id: recipient,
        };
        self.send_frame(recipient, &frame)
    }

    /// Offers a text to every connection, and lists those that did not take it.
    fn offer_to_all(&mut self, text: &str) -> (refused: Vec<String>)
        requires
            old(self).wf(),
        ensures
            final(self).wf(),
            exists|answers: Map<Seq<char>, Answer>|
                {
                    &&& answers.dom() == old(self)@.connections.dom()
                    &&& final(self)@ == #[trigger] offered_to_all(old(self)@, text@, answers)
                    &&& forall|conn_id: Seq<char>| #[trigger]
                        lists(refused@, conn_id) <==> refusing(answers).contains(conn_id)
                },
    {
        let mut refused: Vec<String> = Vec::new();
        let mut i: usize = 0;
        let ghost keys = self.connections.keys();
        let ghost before = self@;
        let ghost mut answers: Map<Seq<char>, Answer> = Map::empty();
        proof {
            self.connections.lemma_keys();
        }
        while i < self.connections.len()
            invariant
                self.wf(),
                i <= keys.len(),
                keys == self.connections.keys(),
                keys.no_duplicates(),
                self@ == (BridgeState { connections: self@.connections, ..before }),
                forall|conn_id: Seq<char>| #[trigger]
                    before.departed.contains_key(conn_id) ==> is_sound(before.departed[conn_id]),
                self@.connections.dom() == before.connections.dom(),
                forall|j: int|
                    0 <= j < keys.len() ==> before.connections.contains_key(#[trigger] keys[j]),
                forall|conn_id: Seq<char>| #[trigger]
                    before.connections.contains_key(conn_id) ==> exists|j: int|
                        0 <= j < keys.len() && #[trigger] keys[j] == conn_id,
                forall|j: int|
                    0 <= j < keys.len() ==> (answers.contains_key(#[trigger] keys[j]) <==> j < i),
                forall|conn_id: Seq<char>| #[trigger]
                    answers.contains_key(conn_id) ==> before.connections.contains_key(conn_id),
                forall|j: int|
                    0 <= j < i ==> self@.connections[#[trigger] keys[j]] == after_offer(
                        before.connections[keys[j]],
                        text@,
                        answers[keys[j]],
                    ),
                forall|j: int|
                    i <= j < keys.len() ==> self@.connections[#[trigger] keys[j]]
                        == before.connections[keys[j]],
                forall|conn_id: Seq<char>| #[trigger]
                    lists(refused@, conn_id) <==> refusing(answers).contains(conn_id),
            decreases keys.len() - i,
        {
            let ghost middle = self@.connections;
            let ghost listed = refused@;
            let conn_id = self.connections.key_at(i).to_owned();
            let offer = self.connections.value_mut(i).offer(text);
            proof {
                assert(self@.connections =~= middle.insert(
                    conn_id@,
                    after_offer(middle[conn_id@], text@, offer.answer()),
                ));
                lemma_sound_after_offer(middle[conn_id@], text@, offer.answer());
                answers = answers.insert(conn_id@, offer.answer());
            }
            match offer {
                Offer::Queued => {},
                _ => {
                    refused.push(conn_id);
                },
            }
            proof {
                assert(offer is Queued || refused@.drop_last() =~= listed);
                lemma_listed_after_push(listed, refused@, keys[i as int], offer is Queued);
            }
            i += 1;
        }
        proof {
            let goal = offered_to_all(before, text@, answers);
            assert forall|conn_id: Seq<char>| #[trigger]
                goal.connections.contains_key(conn_id) implies self@.connections[conn_id]
                == goal.connections[conn_id] by {
                let j = choose|j: int| 0 <= j < keys.len() && #[trigger] keys[j] == conn_id;
                assert(keys[j] == conn_id);
            }
            assert(self@.connections =~= goal.connections);
            assert(answers.dom() =~= before.connections.dom()) by {
                assert forall|conn_id: Seq<char>| #[trigger]
                    before.connections.contains_key(conn_id) implies answers.contains_key(
                    conn_id,
                ) by {
                    let j = choose|j: int| 0 <= j < keys.len() && #[trigger] keys[j] == conn_id;
                    assert(answers.contains_key(keys[j]));
                }
            }
        }
        refused
    }

    /// Drops the listed connections and all routes to them.
    pub fn drop_connections(&mut self, gone: &Vec<String>)
        requires
            old(self).wf(),
        ensures
            final(self).wf(),
            final(self)@ == without_connections(
                old(self)@,
                Set::new(|conn_id: Seq<char>| lists(gone@, conn_id)),
            ),
    {
        let ghost before = self@;
        let mut i: usize = 0;
        proof {
            let none = Set::new(|conn_id: Seq<char>| lists(gone@.take(0), conn_id));
            assert(self@ =~= without_connections(before, none));
        }
        while i < gone.len()
            invariant
                self.wf(),
                i <= gone@.len(),
                self@ == without_connections(
                    before,
                    Set::new(|conn_id: Seq<char>| lists(gone@.take(i as int), conn_id)),
                ),
            decreases gone@.len() - i,
        {
            self.remove_connection(gone[i].as_str());
            proof {
                let (s, t) = (gone@.take(i as int), gone@.take(i + 1));
                assert(t.drop_last() =~= s);
                lemma_listed_after_push(s, t, gone@[i as int]@, false);
                let after = without_connections(
                    before,
                    Set::new(|conn_id: Seq<char>| lists(t, conn_id)),
                );
                assert(self@.connections =~= after.connections);
                assert(self@.routing =~= after.routing);
                assert(self@.departed =~= after.departed);
                assert(self@ =~= after);
            }
            i += 1;
        }
        proof {
            assert(gone@.take(i as int) =~= gone@);
        }
    }

    /// Sends a frame to every connection, and drops those whose queue does not
    /// take it.
    fn broadcast(&mut self, frame: &OutboundFrame<'_>)
        requires
            old(self).wf(),
        ensures
            final(self).wf(),
            broadcasts(old(self)@, final(self)@, frame.wire_text()),
    {
        let json = frame.to_json();
        let refused = self.offer_to_all(json.as_str());
        let ghost offered = self@;
        self.drop_connections(&refused);
        proof {
            let answers = choose|answers: Map<Seq<char>, Answer>|
                {
                    &&& answers.dom() == old(self)@.connections.dom()
                    &&& offered == #[trigger] offered_to_all(old(self)@, json@, answers)
                    &&& forall|conn_id: Seq<char>| #[trigger]
                        lists(refused@, conn_id) <==> refusing(answers).contains(conn_id)
                };
            let gone = Set::new(|conn_id: Seq<char>| lists(refused@, conn_id));
            assert(gone =~= refusing(answers));
            assert(self@ == broadcast_outcome(old(self)@, json@, answers));
        }
    }

    /// Shows a reaction on a message. Reactions go to all connections, since they
    /// belong to no sender.
    pub fn add_reaction(&mut self, channel_id: &str, message_id: &str, emoji: &str) -> (result:
        Result<(), BridgeError>)
        requires
            old(self).wf(),
        ensures
            final(self).wf(),
            result is Ok,
            broadcasts(
                old(self)@,
                final(self)@,
                (OutboundFrame::ReactionAdd { channel_id, message_id, emoji }).wire_text(),
            ),
    {
        self.broadcast(&OutboundFrame::ReactionAdd { channel_id, message_id, emoji });
        Ok(())
    }

    /// Takes a reaction off a message.
    pub fn remove_reaction(&mut self, channel_id: &str, message_id: &str, emoji: &str) -> (result:
        Result<(), BridgeError>)
        requires
            old(self).wf(),
        ensures
            final(self).wf(),
            result is Ok,
            broadcasts(
                old(self)@,
                final(self)@,
                (OutboundFrame::ReactionRemove { channel_id, message_id, emoji }).wire_text(),
            ),
    {
        self.broadcast(&OutboundFrame::ReactionRemove { channel_id, message_id, emoji });
        Ok(())
    }

    /// Opens a listener, which serves a limited number of connections at a time,
    /// and returns its number.
    pub fn open_listener(&mut self) -> (listener: usize)
        requires
            old(self).wf(),
        ensures
            final(self).wf(),
            listener == old(self)@.listeners.len(),
            final(self)@ == listening(old(self)@),
    {
        let listener = self.listeners.len();
        self.listeners.push(0);
        assert(self@.listeners =~= listening(old(self)@).listeners);
        listener
    }

    /// Takes a client on under a fresh identifier, if the listener has a free
    /// slot.
    pub fn accept(&mut self, listener: usize) -> (session: Option<Session>)
        requires
            old(self).wf(),
        ensures
            final(self).wf(),
            match session {
                Some(session) => {
                    &&& has_free_slot(old(self)@, listener as nat)
                    &&& final(self)@ == slot_taken(old(self)@, listener as nat)
                    &&& session.at() == Phase::Handshake
                    &&& session.origin() == listener
                    &&& is_uuid_v4(session.id())
                    &&& is_drawn(session.id())
                },
                None => {
                    &&& !has_free_slot(old(self)@, listener as nat)
                    &&& final(self)@ == old(self)@
                },
            },
    {
        if listener < self.listeners.len() && self.listeners[listener] < self.max_connections {
            self.accept_as(listener, fresh_uuid())
        } else {
            None
        }
    }

    /// Takes a client on under the given identifier, if the listener has a free
    /// slot.
    pub fn accept_as(&mut self, listener: usize, conn_id: String) -> (session: Option<Session>)
        requires
            old(self).wf(),
        ensures
            final(self).wf(),
            match session {
                Some(session) => {
                    &&& has_free_slot(old(self)@, listener as nat)
                    &&& final(self)@ == slot_taken(old(self)@, listener as nat)
                    &&& session.at() == Phase::Handshake
                    &&& session.origin() == listener
                    &&& session.id() == conn_id@
                },
                None => {
                    &&& !has_free_slot(old(self)@, listener as nat)
                    &&& final(self)@ == old(self)@
                },
            },
    {
        if listener < self.listeners.len() && self.listeners[listener] < self.max_connections {
            let taken: u16 = self.listeners[listener] + 1;
            self.listeners.set(listener, taken);
            assert(self@.listeners =~= slot_taken(old(self)@, listener as nat).listeners);
            Some(Session::new(conn_id, listener))
        } else {
            None
        }
    }

    /// Makes a connection known, and returns the half of its queue that the
    /// socket's writer drains.
    pub(crate) fn register(&mut self, conn_id: &str) -> (writer: Receiver<String>)
        requires
            old(self).wf(),
        ensures
            final(self).wf(),
            is_registered(old(self)@, final(self)@, conn_id@, writer),
    {
        self.unregister(conn_id);
        let ghost middle = self@.connections;
        let (handle, writer) = ConnectionHandle::open();
        let ghost queue = handle@;
        self.connections.insert(conn_id.to_owned(), handle);
        proof {
            assert(self@.connections =~= middle.insert(conn_id@, queue));
            assert(self@.connections =~= registered(old(self)@, conn_id@, queue).connections);
        }
        writer
    }

    /// Queues a text for a connection, if it is known. A text that its queue does
    /// not take is lost.
    fn reply(&mut self, conn_id: &str, text: &str)
        requires
            old(self).wf(),
        ensures
            final(self).wf(),
            exists|answer: Answer|
                final(self)@ == #[trigger] replied(old(self)@, conn_id@, text@, answer),
    {
        if self.connections.contains(conn_id) {
            let offer = self.offer(conn_id, text);
            assert(self@ == replied(old(self)@, conn_id@, text@, offer.answer()));
        } else {
            assert(self@ == replied(old(self)@, conn_id@, text@, Answer::Queued));
        }
    }

    /// Takes note of what happened to a connection, does what the bridge itself
    /// has to do about it, and says what is left to be done. `now` is the time in
    /// seconds since the Unix epoch.
    pub fn handle_event(&mut self, session: &mut Session, event: Event, now: u64) -> (directive:
        Directive)
        requires
            old(self).wf(),
        ensures
            final(self).wf(),
            final(session).id() == old(session).id(),
            final(session).origin() == old(session).origin(),
            ({
                let (phase, action) = session_step(
                    old(session).at(),
                    old(session).id(),
                    old(self)@.token,
                    old(self)@.allowed,
                    event@,
                );
                &&& final(session).at() == phase
                &&& carried_out(
                    old(self)@,
                    final(self)@,
                    old(session).id(),
                    action,
                    directive,
                    now,
                )
            }),
    {
        let action = session.step(self.token.as_str(), &self.allowed, event);
        self.carry_out(session.conn_id(), action, now)
    }

    /// Does what the bridge itself has to do about an action, and says what is
    /// left to be done.
    fn carry_out(&mut self, conn_id: &str, action: Action, now: u64) -> (directive: Directive)
        requires
            old(self).wf(),
        ensures
            final(self).wf(),
            carried_out(old(self)@, final(self)@, conn_id@, action@, directive, now),
    {
        match action {
            Action::Read => Directive::Read,
            Action::Write(text) => Directive::Write(text),
            Action::Register => Directive::StartWriter(self.register(conn_id)),
            Action::Queue(text) => {
                self.reply(conn_id, text.as_str());
                Directive::Read
            },
            Action::Forward(post) => {
                if post.routes {
                    self.routing.insert(post.sender_id.clone(), conn_id.to_owned());
                    proof {
                        assert(self@.routing =~= routed(old(self)@, post@, conn_id@).routing);
                    }
                }
                Directive::Forward(compose_message(post, fresh_uuid(), now))
            },
            Action::Close => {
                self.unregister(conn_id);
                Directive::Close
            },
            Action::Fail(error) => Directive::Fail(error),
            Action::Ignored => Directive::Ignored,
        }
    }

    /// Cleans up after a connection that is over: it and all routes to it are
    /// gone, and its slot is free again.
    pub fn finish(&mut self, session: Session)
        requires
            old(self).wf(),
        ensures
            final(self).wf(),
            final(self)@ == finished(old(self)@, session.id(), session.origin()),
    {
        self.remove_connection(session.conn_id());
        let listener = session.listener();
        if listener < self.listeners.len() && self.listeners[listener] > 0 {
            let taken: u16 = self.listeners[listener] - 1;
            self.listeners.set(listener, taken);
        }
        assert(self@.listeners =~= finished(old(self)@, session.id(), session.origin()).listeners);
    }

    /// Queues are bounded, and no tighter than that: every queue, of a connection
    /// that is known or gone, was made to hold the set number of texts, and has
    /// refused a text for want of room only if at least that many had gone in.
    pub proof fn law_queues_are_bounded(&self, conn_id: Seq<char>, i: int)
        requires
            self.wf(),
        ensures
            self@.connections.contains_key(conn_id) ==> {
                let queue = self@.connections[conn_id];
                &&& queue.bound == OUTBOUND_QUEUE_SIZE
                &&& 0 <= i < queue.refused.len() && queue.refused[i].1 ==> queue.taken.len()
                    >= OUTBOUND_QUEUE_SIZE
            },
            self@.departed.contains_key(conn_id) ==> {
                let queue = self@.departed[conn_id];
                &&& queue.bound == OUTBOUND_QUEUE_SIZE
                &&& 0 <= i < queue.refused.len() && queue.refused[i].1 ==> queue.taken.len()
                    >= OUTBOUND_QUEUE_SIZE
            },
    {
    }

    /// The handle of a known connection.
    pub closed spec fn handle(&self, conn_id: Seq<char>) -> ConnectionHandle {
        self.connections@[conn_id]
    }

    /// What is said of the connections is said of their handles.
    pub proof fn law_bridge_shows_its_handles(&self, conn_id: Seq<char>)
        requires
            self@.connections.contains_key(conn_id),
        ensures
            self@.connections[conn_id] == self.handle(conn_id)@,
    {
    }

    /// A listener serves no more connections at a time than it may.
    pub proof fn law_listeners_are_limited(&self, listener: int)
        requires
            self.wf(),
            0 <= listener < self@.listeners.len(),
        ensures
            self@.listeners[listener] <= self@.max_connections,
    {
        assert(self.listeners@[listener] <= self.max_connections);
    }
}

proof fn lemma_sound_after_offer(queue: QueueState, text: Seq<char>, answer: Answer)
    requires
        is_sound(queue),
        answer is Full ==> queue.taken.len() >= queue.bound,
    ensures
        is_sound(after_offer(queue, text, answer)),
{
    let after = after_offer(queue, text, answer);
    assert forall|i: int|
        0 <= i < after.refused.len() && (#[trigger] after.refused[i]).1 implies after.taken.len()
        >= after.bound by {
        if i < queue.refused.len() {
            assert(after.refused[i] == queue.refused[i]);
        }
    }
}

/// What is left to be done for a connection.
pub enum Directive {
    /// Read on.
    Read,
    /// Write a text to the socket, and tell how that went.
    Write(String),
    /// Start to write what comes out of a queue to the socket, and read on.
    StartWriter(Receiver<String>),
    /// Hand a message to the agent, and tell how that went.
    Forward(ChannelMessage),
    /// Let the writer finish, and end the connection.
    Close,
    /// End the connection with an error.
    Fail(BridgeError),
    /// Nothing.
    Ignored,
}

/// Whether a connection was made known with a fresh queue that a writer drains.
pub open spec fn is_registered(
    before: BridgeState,
    after: BridgeState,
    conn_id: Seq<char>,
    writer: Receiver<String>,
) -> bool {
    &&& after == registered(before, conn_id, after.connections[conn_id])
    &&& is_fresh(after.connections[conn_id], writer)
}

/// Whether the bridge did its part of an action, and the directive is the rest.
pub open spec fn carried_out(
    before: BridgeState,
    after: BridgeState,
    conn_id: Seq<char>,
    action: Action<Seq<char>>,
    directive: Directive,
    now: u64,
) -> bool {
    match action {
        Action::Read => directive is Read && after == before,
        Action::Write(text) => {
            &&& directive matches Directive::Write(written) && written@ == text
            &&& after == before
        },
        Action::Register => {
            directive matches Directive::StartWriter(writer) && is_registered(
                before,
                after,
                conn_id,
                writer,
            )
        },
        Action::Queue(text) => {
            &&& directive is Read
            &&& exists|answer: Answer| after == #[trigger] replied(before, conn_id, text, answer)
        },
        Action::Forward(post) => {
            &&& directive matches Directive::Forward(message) && is_uuid_v4(message.id@)
                && is_drawn(message.id@) && is_message_of(message, post, message.id@, now)
            &&& after == routed(before, post, conn_id)
        },
        Action::Close => directive is Close && after == unregistered(before, conn_id),
        Action::Fail(error) => {
            &&& directive matches Directive::Fail(failure) && failure@ == error
            &&& after == before
        },
        Action::Ignored => directive is Ignored && after == before,
    }
}

/// A list after one text was added to it, or left as it was.
proof fn lemma_listed_after_push(s: Seq<String>, t: Seq<String>, text: Seq<char>, same: bool)
    requires
        same ==> t == s,
        !same ==> t.len() == s.len() + 1 && t.drop_last() == s && t.last()@ == text,
    ensures
        forall|other: Seq<char>| #[trigger]
            lists(t, other) <==> lists(s, other) || (!same && other == text),
{
    assert forall|other: Seq<char>| #[trigger] lists(t, other) <==> lists(s, other) || (!same && other
        == text) by {
        if !same {
            if lists(t, other) {
                let j = choose|j: int| 0 <= j < t.len() && (#[trigger] t[j])@ == other;
                if j < s.len() {
                    assert(s[j]@ == other);
                }
            }
            if lists(s, other) {
                let j = choose|j: int| 0 <= j < s.len() && (#[trigger] s[j])@ == other;
                assert(t[j] == t.drop_last()[j]);
                assert(t[j]@ == other);
            }
            if other == text {
                assert(t[t.len() - 1]@ == other);
            }
        }
    }
}

/// Whether an operation showed the draft of a message under the identifier made
/// from a unique text, and returned that identifier if it could be sent.
pub open spec fn draft_sent(
    before: BridgeState,
    after: BridgeState,
    result: Result<Option<String>, BridgeError>,
    message: SendMessage,
    unique: Seq<char>,
) -> bool {
    let draft_id = "bridge_draft_"@ + unique;
    &&& result matches Ok(id) ==> text_of(id) == Some(draft_id)
    &&& sends(
        before,
        after,
        match result {
            Ok(_) => Ok(()),
            Err(error) => Err(error@),
        },
        message.recipient@,
        object_text(
            draft_members("draft_start"@, draft_id, message.content@, message.recipient@),
        ),
    )
}

} // verus!
