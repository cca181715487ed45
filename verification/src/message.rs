//! The messages that pass between the agent and the bridge.

use crate::frames::text_of;
use crate::text::join;
use vstd::prelude::*;

verus! {

/// Whether replies may be shown while they are being written.
#[derive(Clone, Copy, Debug, PartialEq, Eq, Structural)]
pub enum StreamMode {
    /// Replies are sent when they are complete.
    Off,
    /// Replies are shown as drafts that grow.
    Partial,
}

/// A message from an end-user to the agent.
#[derive(Debug)]
pub struct ChannelMessage {
    /// An identifier of the message.
    pub id: String,
    /// The key of the sender's conversation.
    pub sender: String,
    /// To whom a reply goes.
    pub reply_target: String,
    /// What was said.
    pub content: String,
    /// The channel that it came through.
    pub channel: String,
    /// When it came, in seconds since the Unix epoch.
    pub timestamp: u64,
    /// The thread that it belongs to.
    pub thread_ts: Option<String>,
}

/// A message from the agent to an end-user.
#[derive(Debug)]
pub struct SendMessage {
    /// What is said.
    pub content: String,
    /// To whom.
    pub recipient: String,
    /// The thread that it belongs to.
    pub thread_ts: Option<String>,
}

impl SendMessage {
    /// A message outside any thread.
    pub fn new(content: &str, recipient: &str) -> (message: SendMessage)
        ensures
            message.content@ == content@,
            message.recipient@ == recipient@,
            message.thread_ts is None,
    {
        SendMessage {
            content: content.to_owned(),
            recipient: recipient.to_owned(),
            thread_ts: None,
        }
    }
}

/// What an end-user has to say to the agent.
#[derive(Debug)]
pub struct Post<S = String> {
    /// Who says it.
    pub sender_id: S,
    /// What is said.
    pub content: S,
    /// The thread that it belongs to.
    pub thread_id: Option<S>,
    /// Whether replies to the sender go, from now on, to the connection that it
    /// came through.
    pub routes: bool,
}

impl View for Post<String> {
    type V = Post<Seq<char>>;

    open spec fn view(&self) -> Post<Seq<char>> {
        Post {
            sender_id: self.sender_id@,
            content: self.content@,
            thread_id: text_of(self.thread_id),
            routes: self.routes,
        }
    }
}

/// The key under which a sender's conversation is kept.
pub open spec fn history_key(sender_id: Seq<char>) -> Seq<char> {
    "bridge_"@ + sender_id
}

/// Whether a message is what a post becomes on its way to the agent.
pub open spec fn is_message_of(
    message: ChannelMessage,
    post: Post<Seq<char>>,
    id: Seq<char>,
    timestamp: u64,
) -> bool {
    &&& message.id@ == id
    &&& message.sender@ == history_key(post.sender_id)
    &&& message.reply_target@ == post.sender_id
    &&& message.content@ == post.content
    &&& message.channel@ == "bridge"@
    &&& message.timestamp == timestamp
    &&& text_of(message.thread_ts) == post.thread_id
}

/// Makes the message that carries a post to the agent.
pub fn compose_message(post: Post, id: String, timestamp: u64) -> (message: ChannelMessage)
    ensures
        is_message_of(message, post@, id@, timestamp),
{
    ChannelMessage {
        id,
        sender: join("bridge_", post.sender_id.as_str()),
        reply_target: post.sender_id,
        content: post.content,
        channel: "bridge".to_owned(),
        timestamp,
        thread_ts: post.thread_id,
    }
}

/// Conversations are kept apart: different senders have different keys.
pub proof fn law_history_is_per_sender(a: Seq<char>, b: Seq<char>)
    requires
        history_key(a) == history_key(b),
    ensures
        a == b,
{
    let n = "bridge_"@.len() as int;
    assert(a =~= history_key(a).skip(n));
    assert(b =~= history_key(b).skip(n));
}

} // verus!
