//! ASCII text as bytes.
//!
//! Reject messages and protocol prefixes travel as bytes on the wire but
//! are written as ASCII string literals in the source.  This module turns
//! the one into the other, byte for byte.

use vstd::prelude::*;
use vstd::string::is_ascii;
use vstd::utf8::is_ascii_chars_encode_utf8;

verus! {

/// One byte per character of an ASCII string.
pub open spec fn spec_ascii_bytes(s: Seq<char>) -> Seq<u8> {
    Seq::new(s.len(), |i: int| s[i] as u8)
}

/// The bytes of an ASCII string, one per character.
pub fn str_bytes(s: &str) -> (r: Vec<u8>)
    requires
        is_ascii(s),
    ensures
        r@ == spec_ascii_bytes(s@),
{
    proof {
        is_ascii_chars_encode_utf8(s@);
    }
    let b = s.as_bytes();
    assert(b@ =~= spec_ascii_bytes(s@));
    let n = b.len();
    let mut r: Vec<u8> = Vec::new();
    let mut i: usize = 0;
    while i < n
        invariant
            i <= n,
            n == b@.len(),
            b@ == spec_ascii_bytes(s@),
            r@ == b@.subrange(0, i as int),
        decreases n - i,
    {
        r.push(b[i]);
        i = i + 1;
        assert(r@ =~= b@.subrange(0, i as int));
    }
    assert(r@ =~= spec_ascii_bytes(s@));
    r
}

} // verus!
