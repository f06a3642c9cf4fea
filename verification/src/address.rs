//! ILP addresses.
//!
//! An ILP address is a string of dot-separated segments used as an opaque
//! routing key; the core only ever compares addresses and their prefixes.
//! The wire format bounds an address to 1023 bytes, and a routable address
//! is never empty.

use vstd::prelude::*;
use crate::oer::clone_bytes;

verus! {

/// True of a byte sequence that can be an ILP address.
pub open spec fn addr_wf(s: Seq<u8>) -> bool {
    1 <= s.len() <= 1023
}

/// An ILP address: a non-empty routing key of at most 1023 bytes.
#[derive(Debug)]
pub struct Address {
    bytes: Vec<u8>,
}

impl View for Address {
    type V = Seq<u8>;

    closed spec fn view(&self) -> Seq<u8> {
        self.bytes@
    }
}

impl Address {
    /// Every address is non-empty and at most 1023 bytes.
    #[verifier::type_invariant]
    pub open spec fn inv(self) -> bool {
        addr_wf(self@)
    }

    /// Builds an address from raw bytes; rejects the empty string and
    /// anything longer than the wire format can carry.
    pub fn new(bytes: Vec<u8>) -> (r: Option<Address>)
        ensures
            match r {
                Some(a) => addr_wf(bytes@) && a@ == bytes@,
                None => !addr_wf(bytes@),
            },
    {
        if bytes.len() < 1 || bytes.len() > 1023 {
            None
        } else {
            Some(Address { bytes })
        }
    }

    /// The bytes of the address.
    pub fn as_bytes(&self) -> (r: &Vec<u8>)
        ensures
            r@ == self@,
    {
        &self.bytes
    }

    /// Consumes the address, handing its bytes out.
    pub fn into_bytes(self) -> (r: Vec<u8>)
        ensures
            r@ == self@,
            addr_wf(r@),
    {
        proof {
            use_type_invariant(&self);
        }
        self.bytes
    }

    /// A copy of this address.
    pub fn duplicate(&self) -> (r: Address)
        ensures
            r@ == self@,
    {
        proof {
            use_type_invariant(self);
        }
        Address { bytes: clone_bytes(&self.bytes) }
    }

    /// True when the two addresses are the same key.
    pub fn same_as(&self, other: &Address) -> (r: bool)
        ensures
            r == (self@ == other@),
    {
        bytes_eq(&self.bytes, &other.bytes)
    }
}

/// True when the two byte vectors hold the same bytes.
pub fn bytes_eq(a: &Vec<u8>, b: &Vec<u8>) -> (r: bool)
    ensures
        r == (a@ == b@),
{
    if a.len() != b.len() {
        assert(a@ != b@);
        return false;
    }
    let mut i: usize = 0;
    while i < a.len()
        invariant
            i <= a@.len(),
            a@.len() == b@.len(),
            forall|k: int| 0 <= k < i ==> a@[k] == b@[k],
        decreases a@.len() - i,
    {
        if a[i] != b[i] {
            assert(a@[i as int] != b@[i as int]);
            return false;
        }
        i = i + 1;
    }
    proof {
        assert(a@ =~= b@);
    }
    true
}

} // verus!
