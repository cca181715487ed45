//! What the frames look like on the wire.

use crate::frames::approval_members;
use crate::frames::draft_members;
use crate::frames::message_members;
use crate::frames::reaction_members;
use crate::frames::OutboundFrame;
use crate::json::escaped_text;
use crate::json::lemma_more_members_push;
use crate::json::member_text;
use crate::json::more_members_text;
use crate::json::object_text;
use crate::json::quoted;
use crate::json::value_text;
use crate::json::Member;
use vstd::prelude::*;

verus! {

/// The text of a joined text is the texts of its parts, joined between the same
/// quotes.
pub proof fn law_quoting_joins(a: Seq<char>, b: Seq<char>)
    ensures
        quoted(a).len() >= 2,
        quoted(b).len() >= 2,
        quoted(a + b) == quoted(a).drop_last() + quoted(b).drop_first(),
{
    lemma_escaping_joins(a, b);
    assert(quoted(a + b) =~= quoted(a).drop_last() + quoted(b).drop_first());
}

proof fn lemma_escaping_joins(a: Seq<char>, b: Seq<char>)
    ensures
        escaped_text(a + b) == escaped_text(a) + escaped_text(b),
    decreases a.len(),
{
    if a.len() == 0 {
        assert(a + b =~= b);
        assert(escaped_text(a + b) =~= escaped_text(a) + escaped_text(b));
    } else {
        assert((a + b).drop_first() =~= a.drop_first() + b);
        lemma_escaping_joins(a.drop_first(), b);
        assert(escaped_text(a + b) =~= escaped_text(a) + escaped_text(b));
    }
}

/// Ordinary text stands between its quotes as it is: whatever holds neither a
/// quote nor a backslash nor a control character.
pub proof fn law_ordinary_text_is_kept(s: Seq<char>)
    requires
        forall|i: int|
            0 <= i < s.len() ==> {
                &&& #[trigger] s[i] != '"'
                &&& s[i] != '\\'
                &&& s[i] as u32 >= 0x20
            },
    ensures
        quoted(s) == seq!['"'] + s + seq!['"'],
{
    lemma_ordinary_text_is_kept(s);
}

proof fn lemma_ordinary_text_is_kept(s: Seq<char>)
    requires
        forall|i: int|
            0 <= i < s.len() ==> {
                &&& #[trigger] s[i] != '"'
                &&& s[i] != '\\'
                &&& s[i] as u32 >= 0x20
            },
    ensures
        escaped_text(s) == s,
    decreases s.len(),
{
    if s.len() > 0 {
        let rest = s.drop_first();
        assert forall|i: int| 0 <= i < rest.len() implies {
            &&& #[trigger] rest[i] != '"'
            &&& rest[i] != '\\'
            &&& rest[i] as u32 >= 0x20
        } by {
            assert(rest[i] == s[i + 1]);
        }
        lemma_ordinary_text_is_kept(rest);
        assert(s[0] != '"');
        assert(escaped_text(s) =~= s);
    } else {
        assert(escaped_text(s) =~= s);
    }
}

/// A quote, a backslash and the control characters are escaped, each in its own
/// way: some by a letter, the others by two hexadecimal digits.
pub proof fn law_special_characters_are_escaped(c: char)
    ensures
        quoted(seq!['"']) == seq!['"', '\\', '"', '"'],
        quoted(seq!['\\']) == seq!['"', '\\', '\\', '"'],
        quoted(seq!['\u{8}']) == seq!['"', '\\', 'b', '"'],
        quoted(seq!['\t']) == seq!['"', '\\', 't', '"'],
        quoted(seq!['\n']) == seq!['"', '\\', 'n', '"'],
        quoted(seq!['\u{c}']) == seq!['"', '\\', 'f', '"'],
        quoted(seq!['\r']) == seq!['"', '\\', 'r', '"'],
        (c as u32) < 0x20 && c != '\u{8}' && c != '\t' && c != '\n' && c != '\u{c}' && c != '\r' ==> {
            let (high, low) = (c as u32 / 16, c as u32 % 16);
            quoted(seq![c]) == seq![
                '"',
                '\\',
                'u',
                '0',
                '0',
                ('0' as u32 + high) as char,
                if low < 10 {
                    ('0' as u32 + low) as char
                } else {
                    ('a' as u32 + (low - 10)) as char
                },
                '"',
            ]
        },
{
    reveal_with_fuel(escaped_text, 2);
    assert(seq![c].drop_first() =~= Seq::<char>::empty());
    assert(seq!['"'].drop_first() =~= Seq::<char>::empty());
    assert(seq!['\\'].drop_first() =~= Seq::<char>::empty());
    assert(seq!['\u{8}'].drop_first() =~= Seq::<char>::empty());
    assert(seq!['\t'].drop_first() =~= Seq::<char>::empty());
    assert(seq!['\n'].drop_first() =~= Seq::<char>::empty());
    assert(seq!['\u{c}'].drop_first() =~= Seq::<char>::empty());
    assert(seq!['\r'].drop_first() =~= Seq::<char>::empty());
    assert(quoted(seq!['"']) =~= seq!['"', '\\', '"', '"']);
    assert(quoted(seq!['\\']) =~= seq!['"', '\\', '\\', '"']);
    assert(quoted(seq!['\u{8}']) =~= seq!['"', '\\', 'b', '"']);
    assert(quoted(seq!['\t']) =~= seq!['"', '\\', 't', '"']);
    assert(quoted(seq!['\n']) =~= seq!['"', '\\', 'n', '"']);
    assert(quoted(seq!['\u{c}']) =~= seq!['"', '\\', 'f', '"']);
    assert(quoted(seq!['\r']) =~= seq!['"', '\\', 'r', '"']);
}

/// Whether a text holds neither a quote nor a backslash nor a control character.
spec fn is_ordinary(s: Seq<char>) -> bool {
    forall|i: int|
        0 <= i < s.len() ==> {
            &&& #[trigger] s[i] != '"'
            &&& s[i] != '\\'
            &&& s[i] as u32 >= 0x20
        }
}

/// An object that holds its kind only.
proof fn lemma_opened(tag: Seq<char>, opening: Seq<char>)
    requires
        is_ordinary(tag),
        opening == "{\"type\":\""@ + tag + "\""@,
    ensures
        object_text(seq![("type"@, quoted(tag))]) == opening + "}"@,
{
    reveal_strlit("type");
    reveal_strlit("{");
    reveal_strlit(":");
    reveal_strlit("\"");
    reveal_strlit("{\"type\":\"");
    law_ordinary_text_is_kept("type"@);
    law_ordinary_text_is_kept(tag);
    let members: Seq<Member> = seq![("type"@, quoted(tag))];
    assert(members.drop_first() =~= Seq::<Member>::empty());
    assert(object_text(members) =~= opening + "}"@);
}

/// An object with one more member.
proof fn lemma_member_added(
    members: Seq<Member>,
    text: Seq<char>,
    name: Seq<char>,
    value: Seq<char>,
    piece: Seq<char>,
)
    requires
        members.len() > 0,
        object_text(members) == text + "}"@,
        is_ordinary(name),
        piece == ",\""@ + name + "\":"@,
    ensures
        object_text(members.push((name, value))) == text + piece + value + "}"@,
{
    reveal_strlit(",");
    reveal_strlit(":");
    reveal_strlit("}");
    reveal_strlit(",\"");
    reveal_strlit("\":");
    let m: Member = (name, value);
    let rest = members.drop_first();
    law_ordinary_text_is_kept(name);
    lemma_more_members_push(rest, m);
    assert(members.push(m).drop_first() =~= rest.push(m));
    assert(","@ + member_text(m) =~= piece + value);
    let head = "{"@ + member_text(members[0]) + more_members_text(rest);
    assert(head =~= object_text(members).drop_last());
    assert(text =~= (text + "}"@).drop_last());
    assert(object_text(members.push(m)) =~= text + piece + value + "}"@);
}

/// How the handshake went is told by a truth value.
pub proof fn law_auth_result_text(success: bool)
    ensures
        (OutboundFrame::AuthResult { success, error: None }).wire_text() == "{\"type\":\"auth_result\""@
            + ",\"success\":"@ + (if success {
                "true"@
            } else {
                "false"@
            }) + "}"@,
{
    let told = if success {
        "true"@
    } else {
        "false"@
    };
    reveal_strlit("\"");
    reveal_strlit("{\"type\":\"");
    reveal_strlit(",\"");
    reveal_strlit("\":");
    reveal_strlit("auth_result");
    reveal_strlit("{\"type\":\"auth_result\"");
    reveal_strlit("success");
    reveal_strlit(",\"success\":");
    let (tag, opening) = ("auth_result"@, "{\"type\":\"auth_result\""@);
    assert(opening =~= "{\"type\":\""@ + tag + "\""@);
    lemma_opened(tag, opening);
    let m0: Seq<Member> = seq![("type"@, quoted(tag))];
    let t0 = opening;
    assert(",\"success\":"@ =~= ",\""@ + "success"@ + "\":"@);
    lemma_member_added(m0, t0, "success"@, told, ",\"success\":"@);
    let m1 = m0.push(("success"@, told));
    let t1 = t0 + ",\"success\":"@ + told;
    assert((OutboundFrame::AuthResult { success, error: None }).members() =~= m1);
}

/// How the handshake went is told by a truth value, with a reason where there is
/// one.
pub proof fn law_auth_result_text_with_reason(success: bool, reason: &str)
    ensures
        (OutboundFrame::AuthResult { success, error: Some(reason) }).wire_text() == "{\"type\":\"auth_result\""@
            + ",\"success\":"@ + (if success {
                "true"@
            } else {
                "false"@
            })
            + ",\"error\":"@ + quoted(reason@) + "}"@,
{
    let told = if success {
        "true"@
    } else {
        "false"@
    };
    reveal_strlit("\"");
    reveal_strlit("{\"type\":\"");
    reveal_strlit(",\"");
    reveal_strlit("\":");
    reveal_strlit("auth_result");
    reveal_strlit("{\"type\":\"auth_result\"");
    reveal_strlit("success");
    reveal_strlit(",\"success\":");
    reveal_strlit("error");
    reveal_strlit(",\"error\":");
    let (tag, opening) = ("auth_result"@, "{\"type\":\"auth_result\""@);
    assert(opening =~= "{\"type\":\""@ + tag + "\""@);
    lemma_opened(tag, opening);
    let m0: Seq<Member> = seq![("type"@, quoted(tag))];
    let t0 = opening;
    assert(",\"success\":"@ =~= ",\""@ + "success"@ + "\":"@);
    lemma_member_added(m0, t0, "success"@, told, ",\"success\":"@);
    let m1 = m0.push(("success"@, told));
    let t1 = t0 + ",\"success\":"@ + told;
    assert(",\"error\":"@ =~= ",\""@ + "error"@ + "\":"@);
    lemma_member_added(m1, t1, "error"@, quoted(reason@), ",\"error\":"@);
    let m2 = m1.push(("error"@, quoted(reason@)));
    let t2 = t1 + ",\"error\":"@ + quoted(reason@);
    assert((OutboundFrame::AuthResult { success, error: Some(reason) }).members() =~= m2);
}

/// A reply outside any thread carries what is said and to whom.
pub proof fn law_message_text(content: &str, sender_id: &str)
    ensures
        (OutboundFrame::Message { content, sender_id, thread_ts: None }).wire_text() == "{\"type\":\"message\""@
            + ",\"content\":"@ + quoted(content@)
            + ",\"sender_id\":"@ + quoted(sender_id@) + "}"@,
        object_text(message_members(content@, sender_id@, None)) == "{\"type\":\"message\""@
            + ",\"content\":"@ + quoted(content@)
            + ",\"sender_id\":"@ + quoted(sender_id@) + "}"@,
{
    lemma_message_text(content@, sender_id@);
    assert((OutboundFrame::Message { content, sender_id, thread_ts: None }).members() =~= message_members(content@, sender_id@, None));
}

/// A reply in a thread names the thread too.
pub proof fn law_threaded_message_text(content: &str, sender_id: &str, thread_ts: &str)
    ensures
        (OutboundFrame::Message { content, sender_id, thread_ts: Some(thread_ts) }).wire_text() == "{\"type\":\"message\""@
            + ",\"content\":"@ + quoted(content@)
            + ",\"sender_id\":"@ + quoted(sender_id@)
            + ",\"thread_ts\":"@ + quoted(thread_ts@) + "}"@,
        object_text(message_members(content@, sender_id@, Some(thread_ts@))) == "{\"type\":\"message\""@
            + ",\"content\":"@ + quoted(content@)
            + ",\"sender_id\":"@ + quoted(sender_id@)
            + ",\"thread_ts\":"@ + quoted(thread_ts@) + "}"@,
{
    lemma_threaded_message_text(content@, sender_id@, thread_ts@);
    assert((OutboundFrame::Message { content, sender_id, thread_ts: Some(thread_ts) }).members() =~= message_members(content@, sender_id@, Some(thread_ts@)));
}

/// Who is told that the agent starts to type is named.
pub proof fn law_typing_start_text(sender_id: &str)
    ensures
        (OutboundFrame::TypingStart { sender_id }).wire_text() == "{\"type\":\"typing_start\""@
            + ",\"sender_id\":"@ + quoted(sender_id@) + "}"@,
{
    reveal_strlit("\"");
    reveal_strlit("{\"type\":\"");
    reveal_strlit(",\"");
    reveal_strlit("\":");
    reveal_strlit("typing_start");
    reveal_strlit("{\"type\":\"typing_start\"");
    reveal_strlit("sender_id");
    reveal_strlit(",\"sender_id\":");
    let (tag, opening) = ("typing_start"@, "{\"type\":\"typing_start\""@);
    assert(opening =~= "{\"type\":\""@ + tag + "\""@);
    lemma_opened(tag, opening);
    let m0: Seq<Member> = seq![("type"@, quoted(tag))];
    let t0 = opening;
    assert(",\"sender_id\":"@ =~= ",\""@ + "sender_id"@ + "\":"@);
    lemma_member_added(m0, t0, "sender_id"@, quoted(sender_id@), ",\"sender_id\":"@);
    let m1 = m0.push(("sender_id"@, quoted(sender_id@)));
    let t1 = t0 + ",\"sender_id\":"@ + quoted(sender_id@);
    assert((OutboundFrame::TypingStart { sender_id }).members() =~= m1);
}

/// Who is told that the agent stops typing is named.
pub proof fn law_typing_stop_text(sender_id: &str)
    ensures
        (OutboundFrame::TypingStop { sender_id }).wire_text() == "{\"type\":\"typing_stop\""@
            + ",\"sender_id\":"@ + quoted(sender_id@) + "}"@,
{
    reveal_strlit("\"");
    reveal_strlit("{\"type\":\"");
    reveal_strlit(",\"");
    reveal_strlit("\":");
    reveal_strlit("typing_stop");
    reveal_strlit("{\"type\":\"typing_stop\"");
    reveal_strlit("sender_id");
    reveal_strlit(",\"sender_id\":");
    let (tag, opening) = ("typing_stop"@, "{\"type\":\"typing_stop\""@);
    assert(opening =~= "{\"type\":\""@ + tag + "\""@);
    lemma_opened(tag, opening);
    let m0: Seq<Member> = seq![("type"@, quoted(tag))];
    let t0 = opening;
    assert(",\"sender_id\":"@ =~= ",\""@ + "sender_id"@ + "\":"@);
    lemma_member_added(m0, t0, "sender_id"@, quoted(sender_id@), ",\"sender_id\":"@);
    let m1 = m0.push(("sender_id"@, quoted(sender_id@)));
    let t1 = t0 + ",\"sender_id\":"@ + quoted(sender_id@);
    assert((OutboundFrame::TypingStop { sender_id }).members() =~= m1);
}

/// A draft that appears carries its identifier, what it says and
/// to whom.
pub proof fn law_draft_start_text(draft_id: &str, content: &str, sender_id: &str)
    ensures
        (OutboundFrame::DraftStart { draft_id, content, sender_id }).wire_text() == "{\"type\":\"draft_start\""@
            + ",\"draft_id\":"@ + quoted(draft_id@)
            + ",\"content\":"@ + quoted(content@)
            + ",\"sender_id\":"@ + quoted(sender_id@) + "}"@,
        object_text(draft_members("draft_start"@, draft_id@, content@, sender_id@)) == "{\"type\":\"draft_start\""@
            + ",\"draft_id\":"@ + quoted(draft_id@)
            + ",\"content\":"@ + quoted(content@)
            + ",\"sender_id\":"@ + quoted(sender_id@) + "}"@,
{
    lemma_draft_start_text(draft_id@, content@, sender_id@);
    assert((OutboundFrame::DraftStart { draft_id, content, sender_id }).members() =~= draft_members("draft_start"@, draft_id@, content@, sender_id@));
}

/// A draft that changes carries its identifier, what it says and
/// to whom.
pub proof fn law_draft_update_text(draft_id: &str, content: &str, sender_id: &str)
    ensures
        (OutboundFrame::DraftUpdate { draft_id, content, sender_id }).wire_text() == "{\"type\":\"draft_update\""@
            + ",\"draft_id\":"@ + quoted(draft_id@)
            + ",\"content\":"@ + quoted(content@)
            + ",\"sender_id\":"@ + quoted(sender_id@) + "}"@,
        object_text(draft_members("draft_update"@, draft_id@, content@, sender_id@)) == "{\"type\":\"draft_update\""@
            + ",\"draft_id\":"@ + quoted(draft_id@)
            + ",\"content\":"@ + quoted(content@)
            + ",\"sender_id\":"@ + quoted(sender_id@) + "}"@,
{
    reveal_strlit("\"");
    reveal_strlit("{\"type\":\"");
    reveal_strlit(",\"");
    reveal_strlit("\":");
    reveal_strlit("draft_update");
    reveal_strlit("{\"type\":\"draft_update\"");
    reveal_strlit("draft_id");
    reveal_strlit(",\"draft_id\":");
    reveal_strlit("content");
    reveal_strlit(",\"content\":");
    reveal_strlit("sender_id");
    reveal_strlit(",\"sender_id\":");
    let (tag, opening) = ("draft_update"@, "{\"type\":\"draft_update\""@);
    assert(opening =~= "{\"type\":\""@ + tag + "\""@);
    lemma_opened(tag, opening);
    let m0: Seq<Member> = seq![("type"@, quoted(tag))];
    let t0 = opening;
    assert(",\"draft_id\":"@ =~= ",\""@ + "draft_id"@ + "\":"@);
    lemma_member_added(m0, t0, "draft_id"@, quoted(draft_id@), ",\"draft_id\":"@);
    let m1 = m0.push(("draft_id"@, quoted(draft_id@)));
    let t1 = t0 + ",\"draft_id\":"@ + quoted(draft_id@);
    assert(",\"content\":"@ =~= ",\""@ + "content"@ + "\":"@);
    lemma_member_added(m1, t1, "content"@, quoted(content@), ",\"content\":"@);
    let m2 = m1.push(("content"@, quoted(content@)));
    let t2 = t1 + ",\"content\":"@ + quoted(content@);
    assert(",\"sender_id\":"@ =~= ",\""@ + "sender_id"@ + "\":"@);
    lemma_member_added(m2, t2, "sender_id"@, quoted(sender_id@), ",\"sender_id\":"@);
    let m3 = m2.push(("sender_id"@, quoted(sender_id@)));
    let t3 = t2 + ",\"sender_id\":"@ + quoted(sender_id@);
    assert((OutboundFrame::DraftUpdate { draft_id, content, sender_id }).members() =~= m3);
    assert(draft_members("draft_update"@, draft_id@, content@, sender_id@) =~= m3);
}

/// A draft that becomes the reply carries its identifier, what it says and
/// to whom.
pub proof fn law_draft_finalize_text(draft_id: &str, content: &str, sender_id: &str)
    ensures
        (OutboundFrame::DraftFinalize { draft_id, content, sender_id }).wire_text() == "{\"type\":\"draft_finalize\""@
            + ",\"draft_id\":"@ + quoted(draft_id@)
            + ",\"content\":"@ + quoted(content@)
            + ",\"sender_id\":"@ + quoted(sender_id@) + "}"@,
        object_text(draft_members("draft_finalize"@, draft_id@, content@, sender_id@)) == "{\"type\":\"draft_finalize\""@
            + ",\"draft_id\":"@ + quoted(draft_id@)
            + ",\"content\":"@ + quoted(content@)
            + ",\"sender_id\":"@ + quoted(sender_id@) + "}"@,
{
    reveal_strlit("\"");
    reveal_strlit("{\"type\":\"");
    reveal_strlit(",\"");
    reveal_strlit("\":");
    reveal_strlit("draft_finalize");
    reveal_strlit("{\"type\":\"draft_finalize\"");
    reveal_strlit("draft_id");
    reveal_strlit(",\"draft_id\":");
    reveal_strlit("content");
    reveal_strlit(",\"content\":");
    reveal_strlit("sender_id");
    reveal_strlit(",\"sender_id\":");
    let (tag, opening) = ("draft_finalize"@, "{\"type\":\"draft_finalize\""@);
    assert(opening =~= "{\"type\":\""@ + tag + "\""@);
    lemma_opened(tag, opening);
    let m0: Seq<Member> = seq![("type"@, quoted(tag))];
    let t0 = opening;
    assert(",\"draft_id\":"@ =~= ",\""@ + "draft_id"@ + "\":"@);
    lemma_member_added(m0, t0, "draft_id"@, quoted(draft_id@), ",\"draft_id\":"@);
    let m1 = m0.push(("draft_id"@, quoted(draft_id@)));
    let t1 = t0 + ",\"draft_id\":"@ + quoted(draft_id@);
    assert(",\"content\":"@ =~= ",\""@ + "content"@ + "\":"@);
    lemma_member_added(m1, t1, "content"@, quoted(content@), ",\"content\":"@);
    let m2 = m1.push(("content"@, quoted(content@)));
    let t2 = t1 + ",\"content\":"@ + quoted(content@);
    assert(",\"sender_id\":"@ =~= ",\""@ + "sender_id"@ + "\":"@);
    lemma_member_added(m2, t2, "sender_id"@, quoted(sender_id@), ",\"sender_id\":"@);
    let m3 = m2.push(("sender_id"@, quoted(sender_id@)));
    let t3 = t2 + ",\"sender_id\":"@ + quoted(sender_id@);
    assert((OutboundFrame::DraftFinalize { draft_id, content, sender_id }).members() =~= m3);
    assert(draft_members("draft_finalize"@, draft_id@, content@, sender_id@) =~= m3);
}

/// A draft that is withdrawn carries its identifier and whose it was.
pub proof fn law_draft_cancel_text(draft_id: &str, sender_id: &str)
    ensures
        (OutboundFrame::DraftCancel { draft_id, sender_id }).wire_text() == "{\"type\":\"draft_cancel\""@
            + ",\"draft_id\":"@ + quoted(draft_id@)
            + ",\"sender_id\":"@ + quoted(sender_id@) + "}"@,
{
    reveal_strlit("\"");
    reveal_strlit("{\"type\":\"");
    reveal_strlit(",\"");
    reveal_strlit("\":");
    reveal_strlit("draft_cancel");
    reveal_strlit("{\"type\":\"draft_cancel\"");
    reveal_strlit("draft_id");
    reveal_strlit(",\"draft_id\":");
    reveal_strlit("sender_id");
    reveal_strlit(",\"sender_id\":");
    let (tag, opening) = ("draft_cancel"@, "{\"type\":\"draft_cancel\""@);
    assert(opening =~= "{\"type\":\""@ + tag + "\""@);
    lemma_opened(tag, opening);
    let m0: Seq<Member> = seq![("type"@, quoted(tag))];
    let t0 = opening;
    assert(",\"draft_id\":"@ =~= ",\""@ + "draft_id"@ + "\":"@);
    lemma_member_added(m0, t0, "draft_id"@, quoted(draft_id@), ",\"draft_id\":"@);
    let m1 = m0.push(("draft_id"@, quoted(draft_id@)));
    let t1 = t0 + ",\"draft_id\":"@ + quoted(draft_id@);
    assert(",\"sender_id\":"@ =~= ",\""@ + "sender_id"@ + "\":"@);
    lemma_member_added(m1, t1, "sender_id"@, quoted(sender_id@), ",\"sender_id\":"@);
    let m2 = m1.push(("sender_id"@, quoted(sender_id@)));
    let t2 = t1 + ",\"sender_id\":"@ + quoted(sender_id@);
    assert((OutboundFrame::DraftCancel { draft_id, sender_id }).members() =~= m2);
}

/// A question to a user carries its identifier, the tool, and the arguments as
/// they are.
pub proof fn law_approval_prompt_text(request_id: &str, tool_name: &str, arguments: &serde_json::Value, sender_id: &str)
    ensures
        (OutboundFrame::ApprovalPrompt { request_id, tool_name, arguments, sender_id }).wire_text() == "{\"type\":\"approval_prompt\""@
            + ",\"request_id\":"@ + quoted(request_id@)
            + ",\"tool_name\":"@ + quoted(tool_name@)
            + ",\"arguments\":"@ + value_text(*arguments)
            + ",\"sender_id\":"@ + quoted(sender_id@) + "}"@,
{
    reveal_strlit("\"");
    reveal_strlit("{\"type\":\"");
    reveal_strlit(",\"");
    reveal_strlit("\":");
    reveal_strlit("approval_prompt");
    reveal_strlit("{\"type\":\"approval_prompt\"");
    reveal_strlit("request_id");
    reveal_strlit(",\"request_id\":");
    reveal_strlit("tool_name");
    reveal_strlit(",\"tool_name\":");
    reveal_strlit("arguments");
    reveal_strlit(",\"arguments\":");
    reveal_strlit("sender_id");
    reveal_strlit(",\"sender_id\":");
    let (tag, opening) = ("approval_prompt"@, "{\"type\":\"approval_prompt\""@);
    assert(opening =~= "{\"type\":\""@ + tag + "\""@);
    lemma_opened(tag, opening);
    let m0: Seq<Member> = seq![("type"@, quoted(tag))];
    let t0 = opening;
    assert(",\"request_id\":"@ =~= ",\""@ + "request_id"@ + "\":"@);
    lemma_member_added(m0, t0, "request_id"@, quoted(request_id@), ",\"request_id\":"@);
    let m1 = m0.push(("request_id"@, quoted(request_id@)));
    let t1 = t0 + ",\"request_id\":"@ + quoted(request_id@);
    assert(",\"tool_name\":"@ =~= ",\""@ + "tool_name"@ + "\":"@);
    lemma_member_added(m1, t1, "tool_name"@, quoted(tool_name@), ",\"tool_name\":"@);
    let m2 = m1.push(("tool_name"@, quoted(tool_name@)));
    let t2 = t1 + ",\"tool_name\":"@ + quoted(tool_name@);
    assert(",\"arguments\":"@ =~= ",\""@ + "arguments"@ + "\":"@);
    lemma_member_added(m2, t2, "arguments"@, value_text(*arguments), ",\"arguments\":"@);
    let m3 = m2.push(("arguments"@, value_text(*arguments)));
    let t3 = t2 + ",\"arguments\":"@ + value_text(*arguments);
    assert(",\"sender_id\":"@ =~= ",\""@ + "sender_id"@ + "\":"@);
    lemma_member_added(m3, t3, "sender_id"@, quoted(sender_id@), ",\"sender_id\":"@);
    let m4 = m3.push(("sender_id"@, quoted(sender_id@)));
    let t4 = t3 + ",\"sender_id\":"@ + quoted(sender_id@);
    assert((OutboundFrame::ApprovalPrompt { request_id, tool_name, arguments, sender_id }).members() =~= m4);
}

/// The arguments of a question to a user, given as text, stand in it as they are.
pub proof fn law_approval_prompt_text_around_arguments(request_id: Seq<char>, tool_name: Seq<char>, arguments: Seq<char>, sender_id: Seq<char>)
    ensures
        object_text(approval_members(request_id, tool_name, arguments, sender_id)) == "{\"type\":\"approval_prompt\""@
            + ",\"request_id\":"@ + quoted(request_id)
            + ",\"tool_name\":"@ + quoted(tool_name)
            + ",\"arguments\":"@ + arguments
            + ",\"sender_id\":"@ + quoted(sender_id) + "}"@,
{
    reveal_strlit("\"");
    reveal_strlit("{\"type\":\"");
    reveal_strlit(",\"");
    reveal_strlit("\":");
    reveal_strlit("approval_prompt");
    reveal_strlit("{\"type\":\"approval_prompt\"");
    reveal_strlit("request_id");
    reveal_strlit(",\"request_id\":");
    reveal_strlit("tool_name");
    reveal_strlit(",\"tool_name\":");
    reveal_strlit("arguments");
    reveal_strlit(",\"arguments\":");
    reveal_strlit("sender_id");
    reveal_strlit(",\"sender_id\":");
    let (tag, opening) = ("approval_prompt"@, "{\"type\":\"approval_prompt\""@);
    assert(opening =~= "{\"type\":\""@ + tag + "\""@);
    lemma_opened(tag, opening);
    let m0: Seq<Member> = seq![("type"@, quoted(tag))];
    let t0 = opening;
    assert(",\"request_id\":"@ =~= ",\""@ + "request_id"@ + "\":"@);
    lemma_member_added(m0, t0, "request_id"@, quoted(request_id), ",\"request_id\":"@);
    let m1 = m0.push(("request_id"@, quoted(request_id)));
    let t1 = t0 + ",\"request_id\":"@ + quoted(request_id);
    assert(",\"tool_name\":"@ =~= ",\""@ + "tool_name"@ + "\":"@);
    lemma_member_added(m1, t1, "tool_name"@, quoted(tool_name), ",\"tool_name\":"@);
    let m2 = m1.push(("tool_name"@, quoted(tool_name)));
    let t2 = t1 + ",\"tool_name\":"@ + quoted(tool_name);
    assert(",\"arguments\":"@ =~= ",\""@ + "arguments"@ + "\":"@);
    lemma_member_added(m2, t2, "arguments"@, arguments, ",\"arguments\":"@);
    let m3 = m2.push(("arguments"@, arguments));
    let t3 = t2 + ",\"arguments\":"@ + arguments;
    assert(",\"sender_id\":"@ =~= ",\""@ + "sender_id"@ + "\":"@);
    lemma_member_added(m3, t3, "sender_id"@, quoted(sender_id), ",\"sender_id\":"@);
    let m4 = m3.push(("sender_id"@, quoted(sender_id)));
    let t4 = t3 + ",\"sender_id\":"@ + quoted(sender_id);
    assert(approval_members(request_id, tool_name, arguments, sender_id) =~= m4);
}

/// A reaction that appears on a message says which, where and what.
pub proof fn law_reaction_add_text(channel_id: &str, message_id: &str, emoji: &str)
    ensures
        (OutboundFrame::ReactionAdd { channel_id, message_id, emoji }).wire_text() == "{\"type\":\"reaction_add\""@
            + ",\"channel_id\":"@ + quoted(channel_id@)
            + ",\"message_id\":"@ + quoted(message_id@)
            + ",\"emoji\":"@ + quoted(emoji@) + "}"@,
        object_text(reaction_members("reaction_add"@, channel_id@, message_id@, emoji@)) == "{\"type\":\"reaction_add\""@
            + ",\"channel_id\":"@ + quoted(channel_id@)
            + ",\"message_id\":"@ + quoted(message_id@)
            + ",\"emoji\":"@ + quoted(emoji@) + "}"@,
{
    reveal_strlit("\"");
    reveal_strlit("{\"type\":\"");
    reveal_strlit(",\"");
    reveal_strlit("\":");
    reveal_strlit("reaction_add");
    reveal_strlit("{\"type\":\"reaction_add\"");
    reveal_strlit("channel_id");
    reveal_strlit(",\"channel_id\":");
    reveal_strlit("message_id");
    reveal_strlit(",\"message_id\":");
    reveal_strlit("emoji");
    reveal_strlit(",\"emoji\":");
    let (tag, opening) = ("reaction_add"@, "{\"type\":\"reaction_add\""@);
    assert(opening =~= "{\"type\":\""@ + tag + "\""@);
    lemma_opened(tag, opening);
    let m0: Seq<Member> = seq![("type"@, quoted(tag))];
    let t0 = opening;
    assert(",\"channel_id\":"@ =~= ",\""@ + "channel_id"@ + "\":"@);
    lemma_member_added(m0, t0, "channel_id"@, quoted(channel_id@), ",\"channel_id\":"@);
    let m1 = m0.push(("channel_id"@, quoted(channel_id@)));
    let t1 = t0 + ",\"channel_id\":"@ + quoted(channel_id@);
    assert(",\"message_id\":"@ =~= ",\""@ + "message_id"@ + "\":"@);
    lemma_member_added(m1, t1, "message_id"@, quoted(message_id@), ",\"message_id\":"@);
    let m2 = m1.push(("message_id"@, quoted(message_id@)));
    let t2 = t1 + ",\"message_id\":"@ + quoted(message_id@);
    assert(",\"emoji\":"@ =~= ",\""@ + "emoji"@ + "\":"@);
    lemma_member_added(m2, t2, "emoji"@, quoted(emoji@), ",\"emoji\":"@);
    let m3 = m2.push(("emoji"@, quoted(emoji@)));
    let t3 = t2 + ",\"emoji\":"@ + quoted(emoji@);
    assert((OutboundFrame::ReactionAdd { channel_id, message_id, emoji }).members() =~= m3);
    assert(reaction_members("reaction_add"@, channel_id@, message_id@, emoji@) =~= m3);
}

/// A reaction that disappears from a message says which, where and what.
pub proof fn law_reaction_remove_text(channel_id: &str, message_id: &str, emoji: &str)
    ensures
        (OutboundFrame::ReactionRemove { channel_id, message_id, emoji }).wire_text() == "{\"type\":\"reaction_remove\""@
            + ",\"channel_id\":"@ + quoted(channel_id@)
            + ",\"message_id\":"@ + quoted(message_id@)
            + ",\"emoji\":"@ + quoted(emoji@) + "}"@,
        object_text(reaction_members("reaction_remove"@, channel_id@, message_id@, emoji@)) == "{\"type\":\"reaction_remove\""@
            + ",\"channel_id\":"@ + quoted(channel_id@)
            + ",\"message_id\":"@ + quoted(message_id@)
            + ",\"emoji\":"@ + quoted(emoji@) + "}"@,
{
    reveal_strlit("\"");
    reveal_strlit("{\"type\":\"");
    reveal_strlit(",\"");
    reveal_strlit("\":");
    reveal_strlit("reaction_remove");
    reveal_strlit("{\"type\":\"reaction_remove\"");
    reveal_strlit("channel_id");
    reveal_strlit(",\"channel_id\":");
    reveal_strlit("message_id");
    reveal_strlit(",\"message_id\":");
    reveal_strlit("emoji");
    reveal_strlit(",\"emoji\":");
    let (tag, opening) = ("reaction_remove"@, "{\"type\":\"reaction_remove\""@);
    assert(opening =~= "{\"type\":\""@ + tag + "\""@);
    lemma_opened(tag, opening);
    let m0: Seq<Member> = seq![("type"@, quoted(tag))];
    let t0 = opening;
    assert(",\"channel_id\":"@ =~= ",\""@ + "channel_id"@ + "\":"@);
    lemma_member_added(m0, t0, "channel_id"@, quoted(channel_id@), ",\"channel_id\":"@);
    let m1 = m0.push(("channel_id"@, quoted(channel_id@)));
    let t1 = t0 + ",\"channel_id\":"@ + quoted(channel_id@);
    assert(",\"message_id\":"@ =~= ",\""@ + "message_id"@ + "\":"@);
    lemma_member_added(m1, t1, "message_id"@, quoted(message_id@), ",\"message_id\":"@);
    let m2 = m1.push(("message_id"@, quoted(message_id@)));
    let t2 = t1 + ",\"message_id\":"@ + quoted(message_id@);
    assert(",\"emoji\":"@ =~= ",\""@ + "emoji"@ + "\":"@);
    lemma_member_added(m2, t2, "emoji"@, quoted(emoji@), ",\"emoji\":"@);
    let m3 = m2.push(("emoji"@, quoted(emoji@)));
    let t3 = t2 + ",\"emoji\":"@ + quoted(emoji@);
    assert((OutboundFrame::ReactionRemove { channel_id, message_id, emoji }).members() =~= m3);
    assert(reaction_members("reaction_remove"@, channel_id@, message_id@, emoji@) =~= m3);
}

/// A client is told in words what was wrong.
pub proof fn law_error_text(message: &str)
    ensures
        (OutboundFrame::Error { message }).wire_text() == "{\"type\":\"error\""@
            + ",\"message\":"@ + quoted(message@) + "}"@,
{
    reveal_strlit("\"");
    reveal_strlit("{\"type\":\"");
    reveal_strlit(",\"");
    reveal_strlit("\":");
    reveal_strlit("error");
    reveal_strlit("{\"type\":\"error\"");
    reveal_strlit("message");
    reveal_strlit(",\"message\":");
    let (tag, opening) = ("error"@, "{\"type\":\"error\""@);
    assert(opening =~= "{\"type\":\""@ + tag + "\""@);
    lemma_opened(tag, opening);
    let m0: Seq<Member> = seq![("type"@, quoted(tag))];
    let t0 = opening;
    assert(",\"message\":"@ =~= ",\""@ + "message"@ + "\":"@);
    lemma_member_added(m0, t0, "message"@, quoted(message@), ",\"message\":"@);
    let m1 = m0.push(("message"@, quoted(message@)));
    let t1 = t0 + ",\"message\":"@ + quoted(message@);
    assert((OutboundFrame::Error { message }).members() =~= m1);
}

/// A heartbeat is answered with its kind alone.
pub proof fn law_pong_text()
    ensures
        OutboundFrame::Pong.wire_text() == "{\"type\":\"pong\""@ + "}"@,
{
    reveal_strlit("\"");
    reveal_strlit("{\"type\":\"");
    reveal_strlit(",\"");
    reveal_strlit("\":");
    reveal_strlit("pong");
    reveal_strlit("{\"type\":\"pong\"");
    let (tag, opening) = ("pong"@, "{\"type\":\"pong\""@);
    assert(opening =~= "{\"type\":\""@ + tag + "\""@);
    lemma_opened(tag, opening);
    let m0: Seq<Member> = seq![("type"@, quoted(tag))];
    let t0 = opening;
    assert(OutboundFrame::Pong.members() =~= m0);
}

pub(crate) proof fn lemma_message_text(content: Seq<char>, sender_id: Seq<char>)
    ensures
        object_text(message_members(content, sender_id, None)) == "{\"type\":\"message\""@
            + ",\"content\":"@ + quoted(content)
            + ",\"sender_id\":"@ + quoted(sender_id) + "}"@,
{
    reveal_strlit("\"");
    reveal_strlit("{\"type\":\"");
    reveal_strlit(",\"");
    reveal_strlit("\":");
    reveal_strlit("message");
    reveal_strlit("{\"type\":\"message\"");
    reveal_strlit("content");
    reveal_strlit(",\"content\":");
    reveal_strlit("sender_id");
    reveal_strlit(",\"sender_id\":");
    let (tag, opening) = ("message"@, "{\"type\":\"message\""@);
    assert(opening =~= "{\"type\":\""@ + tag + "\""@);
    lemma_opened(tag, opening);
    let m0: Seq<Member> = seq![("type"@, quoted(tag))];
    let t0 = opening;
    assert(",\"content\":"@ =~= ",\""@ + "content"@ + "\":"@);
    lemma_member_added(m0, t0, "content"@, quoted(content), ",\"content\":"@);
    let m1 = m0.push(("content"@, quoted(content)));
    let t1 = t0 + ",\"content\":"@ + quoted(content);
    assert(",\"sender_id\":"@ =~= ",\""@ + "sender_id"@ + "\":"@);
    lemma_member_added(m1, t1, "sender_id"@, quoted(sender_id), ",\"sender_id\":"@);
    let m2 = m1.push(("sender_id"@, quoted(sender_id)));
    let t2 = t1 + ",\"sender_id\":"@ + quoted(sender_id);
    assert(message_members(content, sender_id, None) =~= m2);
}

pub(crate) proof fn lemma_threaded_message_text(content: Seq<char>, sender_id: Seq<char>, thread_ts: Seq<char>)
    ensures
        object_text(message_members(content, sender_id, Some(thread_ts))) == "{\"type\":\"message\""@
            + ",\"content\":"@ + quoted(content)
            + ",\"sender_id\":"@ + quoted(sender_id)
            + ",\"thread_ts\":"@ + quoted(thread_ts) + "}"@,
{
    reveal_strlit("\"");
    reveal_strlit("{\"type\":\"");
    reveal_strlit(",\"");
    reveal_strlit("\":");
    reveal_strlit("message");
    reveal_strlit("{\"type\":\"message\"");
    reveal_strlit("content");
    reveal_strlit(",\"content\":");
    reveal_strlit("sender_id");
    reveal_strlit(",\"sender_id\":");
    reveal_strlit("thread_ts");
    reveal_strlit(",\"thread_ts\":");
    let (tag, opening) = ("message"@, "{\"type\":\"message\""@);
    assert(opening =~= "{\"type\":\""@ + tag + "\""@);
    lemma_opened(tag, opening);
    let m0: Seq<Member> = seq![("type"@, quoted(tag))];
    let t0 = opening;
    assert(",\"content\":"@ =~= ",\""@ + "content"@ + "\":"@);
    lemma_member_added(m0, t0, "content"@, quoted(content), ",\"content\":"@);
    let m1 = m0.push(("content"@, quoted(content)));
    let t1 = t0 + ",\"content\":"@ + quoted(content);
    assert(",\"sender_id\":"@ =~= ",\""@ + "sender_id"@ + "\":"@);
    lemma_member_added(m1, t1, "sender_id"@, quoted(sender_id), ",\"sender_id\":"@);
    let m2 = m1.push(("sender_id"@, quoted(sender_id)));
    let t2 = t1 + ",\"sender_id\":"@ + quoted(sender_id);
    assert(",\"thread_ts\":"@ =~= ",\""@ + "thread_ts"@ + "\":"@);
    lemma_member_added(m2, t2, "thread_ts"@, quoted(thread_ts), ",\"thread_ts\":"@);
    let m3 = m2.push(("thread_ts"@, quoted(thread_ts)));
    let t3 = t2 + ",\"thread_ts\":"@ + quoted(thread_ts);
    assert(message_members(content, sender_id, Some(thread_ts)) =~= m3);
}

pub(crate) proof fn lemma_draft_start_text(draft_id: Seq<char>, content: Seq<char>, sender_id: Seq<char>)
    ensures
        object_text(draft_members("draft_start"@, draft_id, content, sender_id)) == "{\"type\":\"draft_start\""@
            + ",\"draft_id\":"@ + quoted(draft_id)
            + ",\"content\":"@ + quoted(content)
            + ",\"sender_id\":"@ + quoted(sender_id) + "}"@,
{
    reveal_strlit("\"");
    reveal_strlit("{\"type\":\"");
    reveal_strlit(",\"");
    reveal_strlit("\":");
    reveal_strlit("draft_start");
    reveal_strlit("{\"type\":\"draft_start\"");
    reveal_strlit("draft_id");
    reveal_strlit(",\"draft_id\":");
    reveal_strlit("content");
    reveal_strlit(",\"content\":");
    reveal_strlit("sender_id");
    reveal_strlit(",\"sender_id\":");
    let (tag, opening) = ("draft_start"@, "{\"type\":\"draft_start\""@);
    assert(opening =~= "{\"type\":\""@ + tag + "\""@);
    lemma_opened(tag, opening);
    let m0: Seq<Member> = seq![("type"@, quoted(tag))];
    let t0 = opening;
    assert(",\"draft_id\":"@ =~= ",\""@ + "draft_id"@ + "\":"@);
    lemma_member_added(m0, t0, "draft_id"@, quoted(draft_id), ",\"draft_id\":"@);
    let m1 = m0.push(("draft_id"@, quoted(draft_id)));
    let t1 = t0 + ",\"draft_id\":"@ + quoted(draft_id);
    assert(",\"content\":"@ =~= ",\""@ + "content"@ + "\":"@);
    lemma_member_added(m1, t1, "content"@, quoted(content), ",\"content\":"@);
    let m2 = m1.push(("content"@, quoted(content)));
    let t2 = t1 + ",\"content\":"@ + quoted(content);
    assert(",\"sender_id\":"@ =~= ",\""@ + "sender_id"@ + "\":"@);
    lemma_member_added(m2, t2, "sender_id"@, quoted(sender_id), ",\"sender_id\":"@);
    let m3 = m2.push(("sender_id"@, quoted(sender_id)));
    let t3 = t2 + ",\"sender_id\":"@ + quoted(sender_id);
    assert(draft_members("draft_start"@, draft_id, content, sender_id) =~= m3);
}

} // verus!
