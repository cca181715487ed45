//! JSON text: strings, values and objects.

use vstd::prelude::*;

verus! {

/// A hexadecimal digit, in lower case.
pub open spec fn hex_digit(n: u32) -> char {
    if n < 10 {
        ('0' as u32 + n) as char
    } else {
        ('a' as u32 + (n - 10)) as char
    }
}

/// A character as it stands between the quotes of a JSON string.
pub open spec fn escaped(c: char) -> Seq<char> {
    if c == '"' {
        seq!['\\', '"']
    } else if c == '\\' {
        seq!['\\', '\\']
    } else if c == '\u{8}' {
        seq!['\\', 'b']
    } else if c == '\t' {
        seq!['\\', 't']
    } else if c == '\n' {
        seq!['\\', 'n']
    } else if c == '\u{c}' {
        seq!['\\', 'f']
    } else if c == '\r' {
        seq!['\\', 'r']
    } else if (c as u32) < 0x20 {
        seq!['\\', 'u', '0', '0', hex_digit(c as u32 / 16), hex_digit(c as u32 % 16)]
    } else {
        seq![c]
    }
}

/// A text as it stands between the quotes of a JSON string.
pub open spec fn escaped_text(s: Seq<char>) -> Seq<char>
    decreases s.len(),
{
    if s.len() == 0 {
        seq![]
    } else {
        escaped(s[0]) + escaped_text(s.drop_first())
    }
}

/// The JSON string for a text.
pub open spec fn quoted(s: Seq<char>) -> Seq<char> {
    seq!['"'] + escaped_text(s) + seq!['"']
}

/// A JSON value, carried as it is.
#[verifier::external_type_specification]
#[verifier::external_body]
pub struct ExValue(serde_json::Value);

/// The compact text of a JSON value.
pub uninterp spec fn value_text(value: serde_json::Value) -> Seq<char>;

/// Writes a string with `serde_json::to_string`. Trusted: the call succeeds, as
/// writing a string to memory cannot fail, and gives the text between quotes
/// with exactly the quote, the backslash and the control characters escaped.
#[verifier::external_body]
fn string_to_json(s: &str) -> (text: Option<String>)
    ensures
        text is Some,
        text->0@ == quoted(s@),
{
    serde_json::to_string(s).ok()
}

/// Writes a JSON value with `serde_json::to_string`. Trusted: the call succeeds,
/// as a value holds nothing that has no JSON form, and its text depends on the
/// value alone. What the text looks like is not stated. A value nested deeper
/// than the stack can follow is beyond the claim.
#[verifier::external_body]
fn value_to_json(value: &serde_json::Value) -> (text: Option<String>)
    ensures
        text is Some,
        text->0@ == value_text(*value),
{
    serde_json::to_string(value).ok()
}

/// The JSON string for a text.
pub fn write_string(s: &str) -> (text: String)
    ensures
        text@ == quoted(s@),
{
    string_to_json(s).unwrap()
}

/// The compact text of a JSON value.
pub fn write_value(value: &serde_json::Value) -> (text: String)
    ensures
        text@ == value_text(*value),
{
    value_to_json(value).unwrap()
}

/// The JSON text of a truth value.
pub open spec fn bool_text(b: bool) -> Seq<char> {
    if b {
        "true"@
    } else {
        "false"@
    }
}

/// The JSON text of a truth value.
pub fn write_bool(b: bool) -> (text: &'static str)
    ensures
        text@ == bool_text(b),
{
    if b {
        "true"
    } else {
        "false"
    }
}

/// A member of an object: its name, and the JSON text of its value.
pub type Member = (Seq<char>, Seq<char>);

/// One member as it stands in an object.
pub open spec fn member_text(m: Member) -> Seq<char> {
    quoted(m.0) + ":"@ + m.1
}

/// Members as they stand in an object, each after a comma.
pub open spec fn more_members_text(members: Seq<Member>) -> Seq<char>
    decreases members.len(),
{
    if members.len() == 0 {
        seq![]
    } else {
        ","@ + member_text(members[0]) + more_members_text(members.drop_first())
    }
}

/// An object with the given members, at least one, in order.
pub open spec fn object_text(members: Seq<Member>) -> Seq<char>
    recommends
        members.len() > 0,
{
    "{"@ + member_text(members[0]) + more_members_text(members.drop_first()) + "}"@
}

/// One more member comes after those before it.
pub proof fn lemma_more_members_push(members: Seq<Member>, m: Member)
    ensures
        more_members_text(members.push(m)) == more_members_text(members) + (","@ + member_text(m)),
    decreases members.len(),
{
    reveal_with_fuel(more_members_text, 2);
    if members.len() == 0 {
        assert(members.push(m).drop_first() =~= Seq::<Member>::empty());
        assert(more_members_text(members.push(m)) =~= more_members_text(members) + (","@
            + member_text(m)));
    } else {
        assert(members.push(m).drop_first() =~= members.drop_first().push(m));
        lemma_more_members_push(members.drop_first(), m);
        assert(more_members_text(members.push(m)) =~= more_members_text(members) + (","@
            + member_text(m)));
    }
}

/// An object being written, one member after another.
pub struct ObjectWriter {
    text: String,
    members: Ghost<Seq<Member>>,
}

impl View for ObjectWriter {
    type V = Seq<Member>;

    /// The members written so far.
    closed spec fn view(&self) -> Seq<Member> {
        self.members@
    }
}

impl ObjectWriter {
    /// The text so far is that of the members so far, with the object left open.
    pub closed spec fn wf(&self) -> bool {
        &&& self.members@.len() > 0
        &&& self.text@ + "}"@ == object_text(self.members@)
    }

    /// An object that starts with one string member.
    pub fn start(name: &str, value: &str) -> (writer: ObjectWriter)
        ensures
            writer.wf(),
            writer@ == seq![(name@, quoted(value@))],
    {
        let mut text = "{".to_owned();
        text.append(write_string(name).as_str());
        text.append(":");
        text.append(write_string(value).as_str());
        let ghost members = seq![(name@, quoted(value@))];
        proof {
            assert(members.drop_first() =~= Seq::<Member>::empty());
            assert(text@ + "}"@ =~= object_text(members));
        }
        ObjectWriter { text, members: Ghost(members) }
    }

    /// Adds a member whose value is already JSON text.
    pub fn raw(&mut self, name: &str, value: &str)
        requires
            old(self).wf(),
        ensures
            final(self).wf(),
            final(self)@ == old(self)@.push((name@, value@)),
    {
        let ghost before = self.text@;
        let ghost members = self.members@;
        let ghost m: Member = (name@, value@);
        self.text.append(",");
        self.text.append(write_string(name).as_str());
        self.text.append(":");
        self.text.append(value);
        proof {
            reveal_strlit("}");
            let rest = members.drop_first();
            assert(members.push(m).drop_first() =~= rest.push(m));
            lemma_more_members_push(rest, m);
            assert(before =~= (before + "}"@).drop_last());
            assert(before =~= "{"@ + member_text(members[0]) + more_members_text(rest));
            assert(self.text@ =~= before + (","@ + member_text(m)));
            assert(self.text@ + "}"@ =~= object_text(members.push(m)));
        }
        self.members = Ghost(members.push(m));
    }

    /// Adds a string member.
    pub fn string(&mut self, name: &str, value: &str)
        requires
            old(self).wf(),
        ensures
            final(self).wf(),
            final(self)@ == old(self)@.push((name@, quoted(value@))),
    {
        let value = write_string(value);
        self.raw(name, value.as_str());
    }

    /// Closes the object.
    pub fn finish(self) -> (text: String)
        requires
            self.wf(),
        ensures
            text@ == object_text(self@),
    {
        let mut text = self.text;
        text.append("}");
        text
    }
}

/// An escaped character is never a bare quote, and ends where it ends: two
/// texts that start with escaped characters and are equal start with the same
/// character.
proof fn lemma_escaped_prefix_free(c: char, d: char, r: Seq<char>, q: Seq<char>)
    requires
        escaped(c) + r == escaped(d) + q,
    ensures
        c == d,
        r == q,
{
    let e = escaped(c) + r;
    let f = escaped(d) + q;
    assert(e[0] == escaped(c)[0] && f[0] == escaped(d)[0]);
    if escaped(c).len() > 1 && escaped(d).len() > 1 {
        assert(e[1] == escaped(c)[1] && f[1] == escaped(d)[1]);
        if escaped(c).len() == 6 && escaped(d).len() == 6 {
            assert(e[4] == escaped(c)[4] && f[4] == escaped(d)[4]);
            assert(e[5] == escaped(c)[5] && f[5] == escaped(d)[5]);
        }
    }
    assert(c == d);
    assert(r =~= e.skip(escaped(c).len() as int));
    assert(q =~= f.skip(escaped(d).len() as int));
}

proof fn lemma_escaped_text_prefix_free(a: Seq<char>, b: Seq<char>, r: Seq<char>, q: Seq<char>)
    requires
        escaped_text(a) + (seq!['"'] + r) == escaped_text(b) + (seq!['"'] + q),
    ensures
        a == b,
        r == q,
    decreases a.len(),
{
    let e = escaped_text(a) + (seq!['"'] + r);
    let f = escaped_text(b) + (seq!['"'] + q);
    if a.len() == 0 {
        assert(e[0] == '"');
        if b.len() > 0 {
            assert(f[0] == escaped(b[0])[0]);
            assert(false);
        }
        assert(a =~= b);
        assert(r =~= e.skip(1));
        assert(q =~= f.skip(1));
    } else if b.len() == 0 {
        assert(f[0] == '"');
        assert(e[0] == escaped(a[0])[0]);
        assert(false);
    } else {
        let er = escaped_text(a.drop_first()) + (seq!['"'] + r);
        let fq = escaped_text(b.drop_first()) + (seq!['"'] + q);
        assert(e =~= escaped(a[0]) + er);
        assert(f =~= escaped(b[0]) + fq);
        lemma_escaped_prefix_free(a[0], b[0], er, fq);
        lemma_escaped_text_prefix_free(a.drop_first(), b.drop_first(), r, q);
        assert(a =~= seq![a[0]] + a.drop_first());
        assert(b =~= seq![b[0]] + b.drop_first());
    }
}

/// A JSON string ends where it ends: of two equal texts that start with JSON
/// strings, the strings stand for the same text and what follows is the same.
pub proof fn law_quoted_prefix_free(a: Seq<char>, b: Seq<char>, r: Seq<char>, q: Seq<char>)
    requires
        quoted(a) + r == quoted(b) + q,
    ensures
        a == b,
        r == q,
{
    let e = escaped_text(a) + (seq!['"'] + r);
    let f = escaped_text(b) + (seq!['"'] + q);
    assert(e =~= (quoted(a) + r).skip(1));
    assert(f =~= (quoted(b) + q).skip(1));
    lemma_escaped_text_prefix_free(a, b, r, q);
}

/// A text whose JSON form marks its own end: a string or a truth value.
pub open spec fn is_scalar_text(v: Seq<char>) -> bool {
    (exists|s: Seq<char>| v == #[trigger] quoted(s)) || v == "true"@ || v == "false"@
}

proof fn lemma_scalar_prefix_free(v: Seq<char>, w: Seq<char>, r: Seq<char>, q: Seq<char>)
    requires
        is_scalar_text(v),
        is_scalar_text(w),
        v + r == w + q,
    ensures
        v == w,
        r == q,
{
    reveal_strlit("true");
    reveal_strlit("false");
    assert((v + r)[0] == v[0]);
    assert((w + q)[0] == w[0]);
    if exists|s: Seq<char>| v == #[trigger] quoted(s) {
        let s = choose|s: Seq<char>| v == #[trigger] quoted(s);
        assert(v[0] == '"');
        assert(exists|t: Seq<char>| w == #[trigger] quoted(t));
        let t = choose|t: Seq<char>| w == #[trigger] quoted(t);
        law_quoted_prefix_free(s, t, r, q);
    } else {
        if exists|t: Seq<char>| w == #[trigger] quoted(t) {
            assert(w[0] == '"');
        }
        assert(v == w);
        assert(r =~= (v + r).skip(v.len() as int));
        assert(q =~= (w + q).skip(w.len() as int));
    }
}

/// Whether the values of two member lists can be told apart in their text:
/// at every position both mark their own end, or both are the same text.
pub open spec fn comparable(a: Seq<Member>, b: Seq<Member>) -> bool {
    forall|i: int|
        0 <= i < a.len() && i < b.len() ==> {
            ||| is_scalar_text(#[trigger] a[i].1) && is_scalar_text(#[trigger] b[i].1)
            ||| a[i].1 == b[i].1
        }
}

proof fn lemma_comparable_tails(a: Seq<Member>, b: Seq<Member>)
    requires
        a.len() > 0,
        b.len() > 0,
        comparable(a, b),
    ensures
        comparable(a.drop_first(), b.drop_first()),
{
    let (s, t) = (a.drop_first(), b.drop_first());
    assert forall|i: int| 0 <= i < s.len() && i < t.len() implies {
        ||| is_scalar_text(#[trigger] s[i].1) && is_scalar_text(#[trigger] t[i].1)
        ||| s[i].1 == t[i].1
    } by {
        assert(s[i] == a[i + 1] && t[i] == b[i + 1]);
    }
}

proof fn lemma_member_prefix_free(m: Member, n: Member, r: Seq<char>, q: Seq<char>)
    requires
        (is_scalar_text(m.1) && is_scalar_text(n.1)) || m.1 == n.1,
        member_text(m) + r == member_text(n) + q,
    ensures
        m == n,
        r == q,
{
    let e = ":"@ + (m.1 + r);
    let f = ":"@ + (n.1 + q);
    assert(member_text(m) + r =~= quoted(m.0) + e);
    assert(member_text(n) + q =~= quoted(n.0) + f);
    law_quoted_prefix_free(m.0, n.0, e, f);
    reveal_strlit(":");
    assert(m.1 + r =~= e.skip(1));
    assert(n.1 + q =~= f.skip(1));
    if m.1 == n.1 {
        assert(r =~= (m.1 + r).skip(m.1.len() as int));
        assert(q =~= (n.1 + q).skip(n.1.len() as int));
    } else {
        lemma_scalar_prefix_free(m.1, n.1, r, q);
    }
}

proof fn lemma_more_members_injective(a: Seq<Member>, b: Seq<Member>)
    requires
        comparable(a, b),
        more_members_text(a) + "}"@ == more_members_text(b) + "}"@,
    ensures
        a == b,
    decreases a.len(),
{
    reveal_strlit("}");
    reveal_strlit(",");
    let e = more_members_text(a) + "}"@;
    let f = more_members_text(b) + "}"@;
    if a.len() == 0 {
        assert(e[0] == '}');
        if b.len() > 0 {
            assert(f[0] == ',');
        }
        assert(a =~= b);
    } else if b.len() == 0 {
        assert(f[0] == '}');
        assert(e[0] == ',');
    } else {
        let ar = more_members_text(a.drop_first()) + "}"@;
        let br = more_members_text(b.drop_first()) + "}"@;
        assert(member_text(a[0]) + ar =~= e.skip(1));
        assert(member_text(b[0]) + br =~= f.skip(1));
        assert(is_scalar_text(a[0].1) && is_scalar_text(b[0].1) || a[0].1 == b[0].1);
        lemma_member_prefix_free(a[0], b[0], ar, br);
        lemma_comparable_tails(a, b);
        lemma_more_members_injective(a.drop_first(), b.drop_first());
        assert(a =~= seq![a[0]] + a.drop_first());
        assert(b =~= seq![b[0]] + b.drop_first());
    }
}

/// Objects with the same text that both start with a string or a truth value
/// start with the same member, and go on the same way.
pub proof fn lemma_first_member(a: Seq<Member>, b: Seq<Member>)
    requires
        a.len() > 0,
        b.len() > 0,
        (is_scalar_text(a[0].1) && is_scalar_text(b[0].1)) || a[0].1 == b[0].1,
        object_text(a) == object_text(b),
    ensures
        a[0] == b[0],
        more_members_text(a.drop_first()) + "}"@ == more_members_text(b.drop_first()) + "}"@,
{
    let ar = more_members_text(a.drop_first()) + "}"@;
    let br = more_members_text(b.drop_first()) + "}"@;
    reveal_strlit("{");
    assert(member_text(a[0]) + ar =~= object_text(a).skip(1));
    assert(member_text(b[0]) + br =~= object_text(b).skip(1));
    lemma_member_prefix_free(a[0], b[0], ar, br);
}

/// The text of an object determines its members: whoever reads it can tell
/// every name and every value.
pub proof fn law_object_text_injective(a: Seq<Member>, b: Seq<Member>)
    requires
        a.len() > 0,
        b.len() > 0,
        comparable(a, b),
        object_text(a) == object_text(b),
    ensures
        a == b,
{
    assert(is_scalar_text(a[0].1) && is_scalar_text(b[0].1) || a[0].1 == b[0].1);
    lemma_first_member(a, b);
    lemma_comparable_tails(a, b);
    lemma_more_members_injective(a.drop_first(), b.drop_first());
    assert(a =~= seq![a[0]] + a.drop_first());
    assert(b =~= seq![b[0]] + b.drop_first());
}

/// Texts with the same JSON string are the same text.
pub proof fn lemma_quoted_injective(a: Seq<char>, b: Seq<char>)
    requires
        quoted(a) == quoted(b),
    ensures
        a == b,
{
    assert(quoted(a) + seq![] =~= quoted(a));
    assert(quoted(b) + seq![] =~= quoted(b));
    law_quoted_prefix_free(a, b, seq![], seq![]);
}

} // verus!
