//! Fresh identifiers.

use vstd::prelude::*;

verus! {

/// A lower-case hexadecimal digit.
pub open spec fn is_lower_hex(c: char) -> bool {
    ('0' <= c && c <= '9') || ('a' <= c && c <= 'f')
}

/// The canonical text of a random (version 4) UUID: 36 characters, in groups of
/// 8, 4, 4, 4 and 12 hexadecimal digits, with the version and the variant in
/// their places.
pub open spec fn is_uuid_v4(id: Seq<char>) -> bool {
    &&& id.len() == 36
    &&& forall|i: int|
        0 <= i < 36 ==> if i == 8 || i == 13 || i == 18 || i == 23 {
            #[trigger] id[i] == '-'
        } else {
            is_lower_hex(id[i])
        }
    &&& id[14] == '4'
    &&& id[19] == '8' || id[19] == '9' || id[19] == 'a' || id[19] == 'b'
}

/// Draws a UUID with `uuid::Uuid::new_v4` and writes it out with its `Display`.
/// Trusted: the text has the canonical form of a version 4 UUID. Which one it is
/// depends on the random source of the operating system, without which the
/// call panics; that it differs from those before it is likely and not stated.
#[verifier::external_body]
fn fresh_uuid() -> (id: String)
    ensures
        is_uuid_v4(id@),
{
    uuid::Uuid::new_v4().to_string()
}

/// An identifier that was drawn. There is no other way to one than to draw it.
pub struct FreshId {
    text: String,
}

impl View for FreshId {
    type V = Seq<char>;

    /// The identifier.
    closed spec fn view(&self) -> Seq<char> {
        self.text@
    }
}

impl FreshId {
    /// Draws an identifier.
    pub(crate) fn draw() -> (id: FreshId)
        ensures
            is_uuid_v4(id@),
    {
        FreshId { text: fresh_uuid() }
    }

    /// The identifier.
    pub(crate) fn into_text(self) -> (text: String)
        ensures
            text@ == self@,
    {
        self.text
    }
}

/// Whether a text is an identifier that was drawn.
pub open spec fn is_drawn(text: Seq<char>) -> bool {
    exists|id: FreshId| #[trigger] id@ == text
}

/// An identifier that was drawn has the canonical form: 36 characters, with
/// dashes in four places, hexadecimal digits in the others, and the version and
/// the variant of a random UUID; and it comes out of a draw.
pub proof fn law_identifiers_have_their_form(text: Seq<char>, i: int)
    requires
        is_uuid_v4(text),
        is_drawn(text),
        0 <= i < 36,
    ensures
        text.len() == 36,
        i == 8 || i == 13 || i == 18 || i == 23 ==> text[i] == '-',
        i != 8 && i != 13 && i != 18 && i != 23 ==> ('0' <= text[i] && text[i] <= '9') || ('a'
            <= text[i] && text[i] <= 'f'),
        text[14] == '4',
        text[19] == '8' || text[19] == '9' || text[19] == 'a' || text[19] == 'b',
        exists|id: FreshId| #[trigger] id@ == text,
{
}

} // verus!
