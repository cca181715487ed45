//! Small operations on text.

use vstd::prelude::*;
use vstd::utf8::encode_utf8;

verus! {

/// Two texts with the same UTF-8 bytes are the same text.
pub proof fn lemma_utf8_injective(a: Seq<char>, b: Seq<char>)
    requires
        encode_utf8(a) == encode_utf8(b),
    ensures
        a == b,
{
    vstd::utf8::encode_utf8_decode_utf8(a);
    vstd::utf8::encode_utf8_decode_utf8(b);
}

/// Whether two texts are equal.
pub fn same_text(a: &str, b: &str) -> (same: bool)
    ensures
        same == (a@ == b@),
{
    let x = a.as_bytes();
    let y = b.as_bytes();
    if x.len() != y.len() {
        return false;
    }
    let mut i: usize = 0;
    while i < x.len()
        invariant
            i <= x@.len(),
            x@.len() == y@.len(),
            x@ == encode_utf8(a@),
            y@ == encode_utf8(b@),
            forall|j: int| 0 <= j < i ==> x@[j] == y@[j],
        decreases x@.len() - i,
    {
        if x[i] != y[i] {
            return false;
        }
        i += 1;
    }
    proof {
        assert(x@ =~= y@);
        lemma_utf8_injective(a@, b@);
    }
    true
}

/// Whether a list holds a text.
pub open spec fn lists(list: Seq<String>, text: Seq<char>) -> bool {
    exists|i: int| 0 <= i < list.len() && (#[trigger] list[i])@ == text
}

/// Whether a list holds a text.
pub fn list_contains(list: &[String], text: &str) -> (found: bool)
    ensures
        found == lists(list@, text@),
{
    let mut i: usize = 0;
    while i < list.len()
        invariant
            i <= list@.len(),
            forall|j: int| 0 <= j < i ==> (#[trigger] list@[j])@ != text@,
        decreases list@.len() - i,
    {
        if same_text(list[i].as_str(), text) {
            return true;
        }
        i += 1;
    }
    false
}

/// `a` followed by `b`.
pub fn join(a: &str, b: &str) -> (joined: String)
    ensures
        joined@ == a@ + b@,
{
    let mut joined = a.to_owned();
    joined.append(b);
    joined
}

/// The decimal digit for a number below ten.
pub open spec fn digit(n: nat) -> char {
    ('0' as u32 + n) as char
}

/// A number in decimal, without leading zeros.
pub open spec fn decimal(n: nat) -> Seq<char>
    decreases n,
{
    if n < 10 {
        seq![digit(n)]
    } else {
        decimal(n / 10).push(digit(n % 10))
    }
}

/// The ten digits, one text each.
fn digit_text(n: u16) -> (d: &'static str)
    requires
        n < 10,
    ensures
        d@ == seq![digit(n as nat)],
{
    proof {
        reveal_strlit("0");
        reveal_strlit("1");
        reveal_strlit("2");
        reveal_strlit("3");
        reveal_strlit("4");
        reveal_strlit("5");
        reveal_strlit("6");
        reveal_strlit("7");
        reveal_strlit("8");
        reveal_strlit("9");
    }
    if n == 0 {
        "0"
    } else if n == 1 {
        "1"
    } else if n == 2 {
        "2"
    } else if n == 3 {
        "3"
    } else if n == 4 {
        "4"
    } else if n == 5 {
        "5"
    } else if n == 6 {
        "6"
    } else if n == 7 {
        "7"
    } else if n == 8 {
        "8"
    } else {
        "9"
    }
}

/// Writes a number in decimal.
pub fn to_decimal(n: u16) -> (text: String)
    ensures
        text@ == decimal(n as nat),
    decreases n,
{
    if n < 10 {
        digit_text(n).to_owned()
    } else {
        let mut text = to_decimal(n / 10);
        text.append(digit_text(n % 10));
        proof {
            assert(text@ =~= decimal((n / 10) as nat).push(digit((n % 10) as nat)));
        }
        text
    }
}

} // verus!
