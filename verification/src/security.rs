//! The two safety checks of the bridge: comparing tokens without leaking
//! timing, and telling loopback addresses from reachable ones.

use crate::text::lemma_utf8_injective;
use crate::text::same_text;
use vstd::prelude::*;

verus! {

/// The byte at a position, zero past the end.
fn byte_or_zero(bytes: &[u8], i: usize) -> (byte: u8)
    ensures
        byte == (if i < bytes@.len() { bytes@[i as int] } else { 0u8 }),
{
    if i < bytes.len() {
        bytes[i]
    } else {
        0
    }
}

/// Compares two texts by looking at every byte of the longer one, so that the
/// time taken does not tell where they differ.
pub fn constant_time_eq(a: &str, b: &str) -> (equal: bool)
    ensures
        equal == (a@ == b@),
{
    let x = a.as_bytes();
    let y = b.as_bytes();
    let longest: usize = if x.len() < y.len() {
        y.len()
    } else {
        x.len()
    };
    let mut difference: u8 = if x.len() == y.len() {
        0
    } else {
        1
    };
    let mut i: usize = 0;
    while i < longest
        invariant
            i <= longest,
            longest == (if x@.len() < y@.len() { y@.len() } else { x@.len() }),
            difference == 0 ==> x@.len() == y@.len() && forall|j: int| 0 <= j < i ==> x@[j] == y@[j],
            x@ == y@ ==> difference == 0,
        decreases longest - i,
    {
        let p: u8 = byte_or_zero(x, i);
        let q: u8 = byte_or_zero(y, i);
        let before: u8 = difference;
        assert((before | (p ^ q)) == 0 <==> (before == 0 && p == q)) by (bit_vector);
        difference = before | (p ^ q);
        i += 1;
    }
    proof {
        if difference == 0 {
            assert(x@ =~= y@);
            lemma_utf8_injective(a@, b@);
        }
    }
    difference == 0
}

/// Whether a host names this machine's loopback interface.
pub open spec fn is_loopback(host: Seq<char>) -> bool {
    ||| host == "127.0.0.1"@
    ||| host == "localhost"@
    ||| host == "::1"@
    ||| host == "[::1]"@
    ||| host == "0:0:0:0:0:0:0:1"@
}

/// Whether binding to a host would expose the port beyond this machine.
pub fn is_public_bind(host: &str) -> (public: bool)
    ensures
        public == !is_loopback(host@),
{
    !(same_text(host, "127.0.0.1") || same_text(host, "localhost") || same_text(host, "::1")
        || same_text(host, "[::1]") || same_text(host, "0:0:0:0:0:0:0:1"))
}

} // verus!
