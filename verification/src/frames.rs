//! The frames of the bridge protocol. All frames are JSON text, and the `type`
//! member tells their kind.

use crate::json::bool_text;
use crate::json::comparable;
use crate::json::is_scalar_text;
use crate::json::law_object_text_injective;
use crate::json::lemma_first_member;
use crate::json::lemma_quoted_injective;
use crate::json::object_text;
use crate::json::quoted;
use crate::json::value_text;
use crate::json::write_bool;
use crate::json::write_value;
use crate::json::Member;
use crate::json::ObjectWriter;
use vstd::prelude::*;

verus! {

/// What a client sends.
#[derive(Debug)]
pub enum InboundFrame<S = String> {
    /// The handshake.
    Auth { token: S },
    /// A message of an end-user.
    Message { content: S, sender_id: S, thread_id: Option<S> },
    /// An end-user's answer to an approval prompt.
    ApprovalResponse { request_id: S, approved: bool, sender_id: S },
    /// A heartbeat.
    Ping,
}

/// The text of an optional string.
pub open spec fn text_of(s: Option<String>) -> Option<Seq<char>> {
    match s {
        Some(s) => Some(s@),
        None => None,
    }
}

/// The text of an optional string slice.
pub open spec fn str_of(s: Option<&str>) -> Option<Seq<char>> {
    match s {
        Some(s) => Some(s@),
        None => None,
    }
}

impl View for InboundFrame<String> {
    type V = InboundFrame<Seq<char>>;

    open spec fn view(&self) -> InboundFrame<Seq<char>> {
        match *self {
            InboundFrame::Auth { token } => InboundFrame::Auth { token: token@ },
            InboundFrame::Message { content, sender_id, thread_id } => InboundFrame::Message {
                content: content@,
                sender_id: sender_id@,
                thread_id: text_of(thread_id),
            },
            InboundFrame::ApprovalResponse { request_id, approved, sender_id } => {
                InboundFrame::ApprovalResponse {
                    request_id: request_id@,
                    approved,
                    sender_id: sender_id@,
                }
            },
            InboundFrame::Ping => InboundFrame::Ping,
        }
    }
}

/// What the bridge sends.
#[derive(Debug)]
pub enum OutboundFrame<'a> {
    /// How the handshake went.
    AuthResult { success: bool, error: Option<&'a str> },
    /// A reply to an end-user.
    Message { content: &'a str, sender_id: &'a str, thread_ts: Option<&'a str> },
    /// The agent starts to type.
    TypingStart { sender_id: &'a str },
    /// The agent stops typing.
    TypingStop { sender_id: &'a str },
    /// A draft appears.
    DraftStart { draft_id: &'a str, content: &'a str, sender_id: &'a str },
    /// A draft changes.
    DraftUpdate { draft_id: &'a str, content: &'a str, sender_id: &'a str },
    /// A draft becomes the reply.
    DraftFinalize { draft_id: &'a str, content: &'a str, sender_id: &'a str },
    /// A draft is withdrawn.
    DraftCancel { draft_id: &'a str, sender_id: &'a str },
    /// The agent asks whether it may use a tool.
    ApprovalPrompt {
        request_id: &'a str,
        tool_name: &'a str,
        arguments: &'a serde_json::Value,
        sender_id: &'a str,
    },
    /// A reaction appears on a message.
    ReactionAdd { channel_id: &'a str, message_id: &'a str, emoji: &'a str },
    /// A reaction disappears from a message.
    ReactionRemove { channel_id: &'a str, message_id: &'a str, emoji: &'a str },
    /// Something was wrong with what the client sent.
    Error { message: &'a str },
    /// The answer to a heartbeat.
    Pong,
}

/// A member that holds a string.
pub open spec fn string_member(name: Seq<char>, value: Seq<char>) -> Member {
    (name, quoted(value))
}

/// The member that tells the kind of a frame.
pub open spec fn type_member(tag: Seq<char>) -> Member {
    string_member("type"@, tag)
}

/// A member that is left out when there is nothing to put in it.
pub open spec fn optional_member(name: Seq<char>, value: Option<Seq<char>>) -> Seq<Member> {
    match value {
        Some(value) => seq![string_member(name, value)],
        None => seq![],
    }
}

/// The members of a reply.
pub open spec fn message_members(
    content: Seq<char>,
    sender_id: Seq<char>,
    thread_ts: Option<Seq<char>>,
) -> Seq<Member> {
    seq![
        type_member("message"@),
        string_member("content"@, content),
        string_member("sender_id"@, sender_id),
    ] + optional_member("thread_ts"@, thread_ts)
}

/// The members of the three frames that carry the content of a draft.
pub open spec fn draft_members(
    tag: Seq<char>,
    draft_id: Seq<char>,
    content: Seq<char>,
    sender_id: Seq<char>,
) -> Seq<Member> {
    seq![
        type_member(tag),
        string_member("draft_id"@, draft_id),
        string_member("content"@, content),
        string_member("sender_id"@, sender_id),
    ]
}

/// The members of the two reaction frames.
pub open spec fn reaction_members(
    tag: Seq<char>,
    channel_id: Seq<char>,
    message_id: Seq<char>,
    emoji: Seq<char>,
) -> Seq<Member> {
    seq![
        type_member(tag),
        string_member("channel_id"@, channel_id),
        string_member("message_id"@, message_id),
        string_member("emoji"@, emoji),
    ]
}

/// The members of an approval prompt, the arguments given as JSON text.
pub open spec fn approval_members(
    request_id: Seq<char>,
    tool_name: Seq<char>,
    arguments: Seq<char>,
    sender_id: Seq<char>,
) -> Seq<Member> {
    seq![
        type_member("approval_prompt"@),
        string_member("request_id"@, request_id),
        string_member("tool_name"@, tool_name),
        ("arguments"@, arguments),
        string_member("sender_id"@, sender_id),
    ]
}

impl<'a> OutboundFrame<'a> {
    /// The kind of the frame, as its `type` member gives it.
    pub open spec fn tag(self) -> Seq<char> {
        match self {
            OutboundFrame::AuthResult { .. } => "auth_result"@,
            OutboundFrame::Message { .. } => "message"@,
            OutboundFrame::TypingStart { .. } => "typing_start"@,
            OutboundFrame::TypingStop { .. } => "typing_stop"@,
            OutboundFrame::DraftStart { .. } => "draft_start"@,
            OutboundFrame::DraftUpdate { .. } => "draft_update"@,
            OutboundFrame::DraftFinalize { .. } => "draft_finalize"@,
            OutboundFrame::DraftCancel { .. } => "draft_cancel"@,
            OutboundFrame::ApprovalPrompt { .. } => "approval_prompt"@,
            OutboundFrame::ReactionAdd { .. } => "reaction_add"@,
            OutboundFrame::ReactionRemove { .. } => "reaction_remove"@,
            OutboundFrame::Error { .. } => "error"@,
            OutboundFrame::Pong => "pong"@,
        }
    }

    /// The members of the frame's object, in order.
    pub open spec fn members(self) -> Seq<Member> {
        match self {
            OutboundFrame::AuthResult { success, error } => {
                seq![type_member("auth_result"@), ("success"@, bool_text(success))]
                    + optional_member("error"@, str_of(error))
            },
            OutboundFrame::Message { content, sender_id, thread_ts } => {
                message_members(content@, sender_id@, str_of(thread_ts))
            },
            OutboundFrame::TypingStart { sender_id } => {
                seq![type_member("typing_start"@), string_member("sender_id"@, sender_id@)]
            },
            OutboundFrame::TypingStop { sender_id } => {
                seq![type_member("typing_stop"@), string_member("sender_id"@, sender_id@)]
            },
            OutboundFrame::DraftStart { draft_id, content, sender_id } => {
                draft_members("draft_start"@, draft_id@, content@, sender_id@)
            },
            OutboundFrame::DraftUpdate { draft_id, content, sender_id } => {
                draft_members("draft_update"@, draft_id@, content@, sender_id@)
            },
            OutboundFrame::DraftFinalize { draft_id, content, sender_id } => {
                draft_members("draft_finalize"@, draft_id@, content@, sender_id@)
            },
            OutboundFrame::DraftCancel { draft_id, sender_id } => {
                seq![
                    type_member("draft_cancel"@),
                    string_member("draft_id"@, draft_id@),
                    string_member("sender_id"@, sender_id@),
                ]
            },
            OutboundFrame::ApprovalPrompt { request_id, tool_name, arguments, sender_id } => {
                approval_members(request_id@, tool_name@, value_text(*arguments), sender_id@)
            },
            OutboundFrame::ReactionAdd { channel_id, message_id, emoji } => {
                reaction_members("reaction_add"@, channel_id@, message_id@, emoji@)
            },
            OutboundFrame::ReactionRemove { channel_id, message_id, emoji } => {
                reaction_members("reaction_remove"@, channel_id@, message_id@, emoji@)
            },
            OutboundFrame::Error { message } => {
                seq![type_member("error"@), string_member("message"@, message@)]
            },
            OutboundFrame::Pong => seq![type_member("pong"@)],
        }
    }

    /// The frame as it goes on the wire.
    pub open spec fn wire_text(self) -> Seq<char> {
        object_text(self.members())
    }

    /// Writes the frame as it goes on the wire.
    pub fn to_json(&self) -> (text: String)
        ensures
            text@ == self.wire_text(),
    {
        match self {
            OutboundFrame::AuthResult { success, error } => {
                let mut object = ObjectWriter::start("type", "auth_result");
                object.raw("success", write_bool(*success));
                if let Some(error) = error {
                    object.string("error", error);
                }
                assert(object@ =~= self.members());
                object.finish()
            },
            OutboundFrame::Message { content, sender_id, thread_ts } => {
                let mut object = ObjectWriter::start("type", "message");
                object.string("content", content);
                object.string("sender_id", sender_id);
                if let Some(thread_ts) = thread_ts {
                    object.string("thread_ts", thread_ts);
                }
                assert(object@ =~= self.members());
                object.finish()
            },
            OutboundFrame::TypingStart { sender_id } => typing_text("typing_start", sender_id),
            OutboundFrame::TypingStop { sender_id } => typing_text("typing_stop", sender_id),
            OutboundFrame::DraftStart { draft_id, content, sender_id } => {
                draft_text("draft_start", draft_id, content, sender_id)
            },
            OutboundFrame::DraftUpdate { draft_id, content, sender_id } => {
                draft_text("draft_update", draft_id, content, sender_id)
            },
            OutboundFrame::DraftFinalize { draft_id, content, sender_id } => {
                draft_text("draft_finalize", draft_id, content, sender_id)
            },
            OutboundFrame::DraftCancel { draft_id, sender_id } => {
                let mut object = ObjectWriter::start("type", "draft_cancel");
                object.string("draft_id", draft_id);
                object.string("sender_id", sender_id);
                assert(object@ =~= self.members());
                object.finish()
            },
            OutboundFrame::ApprovalPrompt { request_id, tool_name, arguments, sender_id } => {
                let arguments = write_value(arguments);
                approval_prompt_text(request_id, tool_name, arguments.as_str(), sender_id)
            },
            OutboundFrame::ReactionAdd { channel_id, message_id, emoji } => {
                reaction_text("reaction_add", channel_id, message_id, emoji)
            },
            OutboundFrame::ReactionRemove { channel_id, message_id, emoji } => {
                reaction_text("reaction_remove", channel_id, message_id, emoji)
            },
            OutboundFrame::Error { message } => {
                let mut object = ObjectWriter::start("type", "error");
                object.string("message", message);
                assert(object@ =~= self.members());
                object.finish()
            },
            OutboundFrame::Pong => ObjectWriter::start("type", "pong").finish(),
        }
    }
}

fn typing_text(tag: &str, sender_id: &str) -> (text: String)
    ensures
        text@ == object_text(seq![type_member(tag@), string_member("sender_id"@, sender_id@)]),
{
    let mut object = ObjectWriter::start("type", tag);
    object.string("sender_id", sender_id);
    assert(object@ =~= seq![type_member(tag@), string_member("sender_id"@, sender_id@)]);
    object.finish()
}

fn draft_text(tag: &str, draft_id: &str, content: &str, sender_id: &str) -> (text: String)
    ensures
        text@ == object_text(draft_members(tag@, draft_id@, content@, sender_id@)),
{
    let mut object = ObjectWriter::start("type", tag);
    object.string("draft_id", draft_id);
    object.string("content", content);
    object.string("sender_id", sender_id);
    assert(object@ =~= draft_members(tag@, draft_id@, content@, sender_id@));
    object.finish()
}

fn reaction_text(tag: &str, channel_id: &str, message_id: &str, emoji: &str) -> (text: String)
    ensures
        text@ == object_text(reaction_members(tag@, channel_id@, message_id@, emoji@)),
{
    let mut object = ObjectWriter::start("type", tag);
    object.string("channel_id", channel_id);
    object.string("message_id", message_id);
    object.string("emoji", emoji);
    assert(object@ =~= reaction_members(tag@, channel_id@, message_id@, emoji@));
    object.finish()
}

/// Writes an approval prompt around arguments that are already JSON text.
pub fn approval_prompt_text(
    request_id: &str,
    tool_name: &str,
    arguments: &str,
    sender_id: &str,
) -> (text: String)
    ensures
        text@ == object_text(approval_members(request_id@, tool_name@, arguments@, sender_id@)),
{
    let mut object = ObjectWriter::start("type", "approval_prompt");
    object.string("request_id", request_id);
    object.string("tool_name", tool_name);
    object.raw("arguments", arguments);
    object.string("sender_id", sender_id);
    assert(object@ =~= approval_members(request_id@, tool_name@, arguments@, sender_id@));
    object.finish()
}

/// Two frames are of the same kind and say the same.
pub open spec fn same_frame(a: OutboundFrame<'_>, b: OutboundFrame<'_>) -> bool {
    match (a, b) {
        (
            OutboundFrame::AuthResult { success: s, error: e },
            OutboundFrame::AuthResult { success: t, error: f },
        ) => s == t && str_of(e) == str_of(f),
        (
            OutboundFrame::Message { content: c, sender_id: s, thread_ts: h },
            OutboundFrame::Message { content: d, sender_id: t, thread_ts: i },
        ) => c@ == d@ && s@ == t@ && str_of(h) == str_of(i),
        (
            OutboundFrame::TypingStart { sender_id: s },
            OutboundFrame::TypingStart { sender_id: t },
        ) => s@ == t@,
        (OutboundFrame::TypingStop { sender_id: s }, OutboundFrame::TypingStop { sender_id: t }) => {
            s@ == t@
        },
        (
            OutboundFrame::DraftStart { draft_id: i, content: c, sender_id: s },
            OutboundFrame::DraftStart { draft_id: j, content: d, sender_id: t },
        ) => i@ == j@ && c@ == d@ && s@ == t@,
        (
            OutboundFrame::DraftUpdate { draft_id: i, content: c, sender_id: s },
            OutboundFrame::DraftUpdate { draft_id: j, content: d, sender_id: t },
        ) => i@ == j@ && c@ == d@ && s@ == t@,
        (
            OutboundFrame::DraftFinalize { draft_id: i, content: c, sender_id: s },
            OutboundFrame::DraftFinalize { draft_id: j, content: d, sender_id: t },
        ) => i@ == j@ && c@ == d@ && s@ == t@,
        (
            OutboundFrame::DraftCancel { draft_id: i, sender_id: s },
            OutboundFrame::DraftCancel { draft_id: j, sender_id: t },
        ) => i@ == j@ && s@ == t@,
        (
            OutboundFrame::ApprovalPrompt { request_id: r, tool_name: n, arguments: x, sender_id: s },
            OutboundFrame::ApprovalPrompt { request_id: q, tool_name: m, arguments: y, sender_id: t },
        ) => r@ == q@ && n@ == m@ && value_text(*x) == value_text(*y) && s@ == t@,
        (
            OutboundFrame::ReactionAdd { channel_id: c, message_id: m, emoji: e },
            OutboundFrame::ReactionAdd { channel_id: d, message_id: n, emoji: f },
        ) => c@ == d@ && m@ == n@ && e@ == f@,
        (
            OutboundFrame::ReactionRemove { channel_id: c, message_id: m, emoji: e },
            OutboundFrame::ReactionRemove { channel_id: d, message_id: n, emoji: f },
        ) => c@ == d@ && m@ == n@ && e@ == f@,
        (OutboundFrame::Error { message: m }, OutboundFrame::Error { message: n }) => m@ == n@,
        (OutboundFrame::Pong, OutboundFrame::Pong) => true,
        _ => false,
    }
}

/// The kinds of frames have different tags.
proof fn lemma_tags_distinct(a: OutboundFrame<'_>, b: OutboundFrame<'_>)
    requires
        a.tag() == b.tag(),
    ensures
        a is AuthResult <==> b is AuthResult,
        a is Message <==> b is Message,
        a is TypingStart <==> b is TypingStart,
        a is TypingStop <==> b is TypingStop,
        a is DraftStart <==> b is DraftStart,
        a is DraftUpdate <==> b is DraftUpdate,
        a is DraftFinalize <==> b is DraftFinalize,
        a is DraftCancel <==> b is DraftCancel,
        a is ApprovalPrompt <==> b is ApprovalPrompt,
        a is ReactionAdd <==> b is ReactionAdd,
        a is ReactionRemove <==> b is ReactionRemove,
        a is Error <==> b is Error,
        a is Pong <==> b is Pong,
{
    reveal_strlit("auth_result");
    reveal_strlit("message");
    reveal_strlit("typing_start");
    reveal_strlit("typing_stop");
    reveal_strlit("draft_start");
    reveal_strlit("draft_update");
    reveal_strlit("draft_finalize");
    reveal_strlit("draft_cancel");
    reveal_strlit("approval_prompt");
    reveal_strlit("reaction_add");
    reveal_strlit("reaction_remove");
    reveal_strlit("error");
    reveal_strlit("pong");
    // Length, first and seventh character tell the tags apart.
    assert("auth_result"@.len() == 11 && "auth_result"@[0] == 'a' && "auth_result"@[6] == 'e');
    assert("message"@.len() == 7 && "message"@[0] == 'm' && "message"@[6] == 'e');
    assert("typing_start"@.len() == 12 && "typing_start"@[0] == 't' && "typing_start"@[6] == '_');
    assert("typing_stop"@.len() == 11 && "typing_stop"@[0] == 't' && "typing_stop"@[6] == '_');
    assert("draft_start"@.len() == 11 && "draft_start"@[0] == 'd' && "draft_start"@[6] == 's');
    assert("draft_update"@.len() == 12 && "draft_update"@[0] == 'd' && "draft_update"@[6] == 'u');
    assert("draft_finalize"@.len() == 14 && "draft_finalize"@[0] == 'd' && "draft_finalize"@[6] == 'f');
    assert("draft_cancel"@.len() == 12 && "draft_cancel"@[0] == 'd' && "draft_cancel"@[6] == 'c');
    assert("approval_prompt"@.len() == 15 && "approval_prompt"@[0] == 'a' && "approval_prompt"@[6] == 'a');
    assert("reaction_add"@.len() == 12 && "reaction_add"@[0] == 'r' && "reaction_add"@[6] == 'o');
    assert("reaction_remove"@.len() == 15 && "reaction_remove"@[0] == 'r' && "reaction_remove"@[6] == 'o');
    assert("error"@.len() == 5 && "error"@[0] == 'e');
    assert("pong"@.len() == 4 && "pong"@[0] == 'p');
}

proof fn lemma_first_is_type(a: OutboundFrame<'_>)
    ensures
        a.members().len() > 0,
        a.members()[0] == type_member(a.tag()),
        is_scalar_text(a.members()[0].1),
{
    assert(is_scalar_text(quoted(a.tag())));
}

/// The `type` member tells the kind of a frame: frames of different kinds never
/// have the same text.
pub proof fn law_type_discriminates(a: OutboundFrame<'_>, b: OutboundFrame<'_>)
    requires
        a.wire_text() == b.wire_text(),
    ensures
        a.tag() == b.tag(),
        a is ApprovalPrompt <==> b is ApprovalPrompt,
{
    lemma_first_is_type(a);
    lemma_first_is_type(b);
    lemma_first_member(a.members(), b.members());
    lemma_quoted_injective(a.tag(), b.tag());
    lemma_tags_distinct(a, b);
}

/// Every member but the arguments of an approval prompt is a string or a truth
/// value.
proof fn lemma_members_scalar(a: OutboundFrame<'_>)
    ensures
        forall|i: int|
            0 <= i < a.members().len() && !(a is ApprovalPrompt && i == 3) ==> is_scalar_text(
                #[trigger] a.members()[i].1,
            ),
        a matches OutboundFrame::ApprovalPrompt { arguments, .. } ==> a.members()[3].1 == value_text(
            *arguments,
        ),
{
    assert(forall|s: Seq<char>| is_scalar_text(#[trigger] quoted(s)));
    assert(forall|b: bool| is_scalar_text(#[trigger] bool_text(b)));
}

/// The values of the string members at a position of two equal member lists are
/// the same.
proof fn lemma_same_string(a: Seq<Member>, b: Seq<Member>, i: int, s: Seq<char>, t: Seq<char>)
    requires
        a == b,
        a[i].1 == quoted(s),
        b[i].1 == quoted(t),
    ensures
        s == t,
{
    lemma_quoted_injective(s, t);
}

proof fn lemma_same_optional_member(
    a: Seq<Member>,
    b: Seq<Member>,
    n: int,
    name: Seq<char>,
    x: Option<Seq<char>>,
    y: Option<Seq<char>>,
)
    requires
        a == b,
        0 <= n <= a.len(),
        a.skip(n) == optional_member(name, x),
        b.skip(n) == optional_member(name, y),
    ensures
        x == y,
{
    if x is Some && y is Some {
        assert(a.skip(n)[0] == b.skip(n)[0]);
        lemma_quoted_injective(x->0, y->0);
    } else if x is Some {
        assert(a.skip(n).len() == 1);
    } else if y is Some {
        assert(b.skip(n).len() == 1);
    }
}

/// Frames with the same members are the same.
proof fn lemma_members_determine_frame(a: OutboundFrame<'_>, b: OutboundFrame<'_>)
    requires
        a.tag() == b.tag(),
        a.members() == b.members(),
    ensures
        same_frame(a, b),
{
    lemma_tags_distinct(a, b);
    let (m, n) = (a.members(), b.members());
    match (a, b) {
        (
            OutboundFrame::AuthResult { success: s, error: e },
            OutboundFrame::AuthResult { success: t, error: f },
        ) => {
            reveal_strlit("true");
            reveal_strlit("false");
            assert(m[1] == n[1]);
            assert(bool_text(s).len() == bool_text(t).len());
            assert(m.skip(2) =~= optional_member("error"@, str_of(e)));
            assert(n.skip(2) =~= optional_member("error"@, str_of(f)));
            lemma_same_optional_member(m, n, 2, "error"@, str_of(e), str_of(f));
        },
        (
            OutboundFrame::Message { content: c, sender_id: s, thread_ts: h },
            OutboundFrame::Message { content: d, sender_id: t, thread_ts: i },
        ) => {
            lemma_same_string(m, n, 1, c@, d@);
            lemma_same_string(m, n, 2, s@, t@);
            assert(m.skip(3) =~= optional_member("thread_ts"@, str_of(h)));
            assert(n.skip(3) =~= optional_member("thread_ts"@, str_of(i)));
            lemma_same_optional_member(m, n, 3, "thread_ts"@, str_of(h), str_of(i));
        },
        (
            OutboundFrame::TypingStart { sender_id: s },
            OutboundFrame::TypingStart { sender_id: t },
        ) => {
            lemma_same_string(m, n, 1, s@, t@);
        },
        (OutboundFrame::TypingStop { sender_id: s }, OutboundFrame::TypingStop { sender_id: t }) => {
            lemma_same_string(m, n, 1, s@, t@);
        },
        (
            OutboundFrame::DraftStart { draft_id: i, content: c, sender_id: s },
            OutboundFrame::DraftStart { draft_id: j, content: d, sender_id: t },
        ) => {
            lemma_same_string(m, n, 1, i@, j@);
            lemma_same_string(m, n, 2, c@, d@);
            lemma_same_string(m, n, 3, s@, t@);
        },
        (
            OutboundFrame::DraftUpdate { draft_id: i, content: c, sender_id: s },
            OutboundFrame::DraftUpdate { draft_id: j, content: d, sender_id: t },
        ) => {
            lemma_same_string(m, n, 1, i@, j@);
            lemma_same_string(m, n, 2, c@, d@);
            lemma_same_string(m, n, 3, s@, t@);
        },
        (
            OutboundFrame::DraftFinalize { draft_id: i, content: c, sender_id: s },
            OutboundFrame::DraftFinalize { draft_id: j, content: d, sender_id: t },
        ) => {
            lemma_same_string(m, n, 1, i@, j@);
            lemma_same_string(m, n, 2, c@, d@);
            lemma_same_string(m, n, 3, s@, t@);
        },
        (
            OutboundFrame::DraftCancel { draft_id: i, sender_id: s },
            OutboundFrame::DraftCancel { draft_id: j, sender_id: t },
        ) => {
            lemma_same_string(m, n, 1, i@, j@);
            lemma_same_string(m, n, 2, s@, t@);
        },
        (
            OutboundFrame::ApprovalPrompt { request_id: r, tool_name: x, sender_id: s, .. },
            OutboundFrame::ApprovalPrompt { request_id: q, tool_name: y, sender_id: t, .. },
        ) => {
            lemma_same_string(m, n, 1, r@, q@);
            lemma_same_string(m, n, 2, x@, y@);
            lemma_same_string(m, n, 4, s@, t@);
        },
        (
            OutboundFrame::ReactionAdd { channel_id: c, message_id: x, emoji: e },
            OutboundFrame::ReactionAdd { channel_id: d, message_id: y, emoji: f },
        ) => {
            lemma_same_string(m, n, 1, c@, d@);
            lemma_same_string(m, n, 2, x@, y@);
            lemma_same_string(m, n, 3, e@, f@);
        },
        (
            OutboundFrame::ReactionRemove { channel_id: c, message_id: x, emoji: e },
            OutboundFrame::ReactionRemove { channel_id: d, message_id: y, emoji: f },
        ) => {
            lemma_same_string(m, n, 1, c@, d@);
            lemma_same_string(m, n, 2, x@, y@);
            lemma_same_string(m, n, 3, e@, f@);
        },
        (OutboundFrame::Error { message: x }, OutboundFrame::Error { message: y }) => {
            lemma_same_string(m, n, 1, x@, y@);
        },
        _ => {},
    }
}

proof fn lemma_frames_comparable(a: OutboundFrame<'_>, b: OutboundFrame<'_>)
    requires
        a is ApprovalPrompt <==> b is ApprovalPrompt,
        (a is ApprovalPrompt && b is ApprovalPrompt) ==> value_text(*a->ApprovalPrompt_arguments)
            == value_text(*b->ApprovalPrompt_arguments),
    ensures
        comparable(a.members(), b.members()),
{
    lemma_members_scalar(a);
    lemma_members_scalar(b);
}

/// The text of a frame determines the frame: whoever reads it can tell its kind
/// and everything in it. Of two approval prompts this is stated for prompts
/// whose arguments have the same text.
pub proof fn law_wire_text_determines_frame(a: OutboundFrame<'_>, b: OutboundFrame<'_>)
    requires
        a.wire_text() == b.wire_text(),
        (a is ApprovalPrompt && b is ApprovalPrompt) ==> value_text(*a->ApprovalPrompt_arguments)
            == value_text(*b->ApprovalPrompt_arguments),
    ensures
        same_frame(a, b),
{
    law_type_discriminates(a, b);
    lemma_first_is_type(a);
    lemma_first_is_type(b);
    lemma_frames_comparable(a, b);
    law_object_text_injective(a.members(), b.members());
    lemma_members_determine_frame(a, b);
}

} // verus!
