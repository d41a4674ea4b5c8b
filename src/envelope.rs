//! The signed unit of transport.
use vstd::prelude::*;

use crate::Did;

verus! {

/// A payload with its signer, its destination and the signer's signature
/// over the payload. Relays forward it unchanged.
#[derive(Clone, Debug, PartialEq, Eq)]
pub struct Envelope {
    pub payload: Vec<u8>,
    pub signer: Did,
    pub destination: Did,
    pub signature: Vec<u8>,
}

/// Byte strings compared in time that depends on their lengths alone, not
/// on where they first differ.
pub fn ct_eq(a: &Vec<u8>, b: &Vec<u8>) -> (r: bool)
    ensures
        r == (a@ == b@),
{
    if a.len() != b.len() {
        return false;
    }
    let mut diff: u8 = 0;
    let mut i: usize = 0;
    assert(a@.subrange(0, 0) =~= b@.subrange(0, 0));
    while i < a.len()
        invariant
            a@.len() == b@.len(),
            i <= a@.len(),
            (diff == 0) == (a@.subrange(0, i as int) == b@.subrange(0, i as int)),
        decreases a@.len() - i,
    {
        let x = a[i];
        let y = b[i];
        let d = diff | (x ^ y);
        proof {
            assert((diff | (x ^ y)) == 0u8 <==> (diff == 0u8 && x == y)) by (bit_vector);
            assert(a@.subrange(0, i + 1) == a@.subrange(0, i as int).push(a@[i as int]));
            assert(b@.subrange(0, i + 1) == b@.subrange(0, i as int).push(b@[i as int]));
            if a@.subrange(0, i as int) != b@.subrange(0, i as int) {
                assert(a@.subrange(0, i + 1).subrange(0, i as int) == a@.subrange(0, i as int));
                assert(b@.subrange(0, i + 1).subrange(0, i as int) == b@.subrange(0, i as int));
            }
            if a@[i as int] != b@[i as int] {
                assert(a@.subrange(0, i + 1)[i as int] == a@[i as int]);
                assert(b@.subrange(0, i + 1)[i as int] == b@[i as int]);
            }
        }
        diff = d;
        i = i + 1;
    }
    assert(a@.subrange(0, a@.len() as int) == a@);
    assert(b@.subrange(0, b@.len() as int) == b@);
    diff == 0
}

impl Envelope {
    /// The signature carried matches `expected`, compared in constant time.
    pub fn signature_matches(&self, expected: &Vec<u8>) -> (r: bool)
        ensures
            r == (self.signature@ == expected@),
    {
        ct_eq(&self.signature, expected)
    }
}

} // verus!
