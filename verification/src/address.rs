//! Opaque ledger identities.

use vstd::prelude::*;

verus! {

/// An opaque 32-byte identity: a token, an account, or an owner on the
/// ledger. The engine only carries these through; it never derives or
/// inspects them.
#[derive(Debug, Clone, Copy)]
pub struct Address {
    pub bytes: [u8; 32],
}

impl Address {
    /// Wraps raw identity bytes.
    pub fn new(bytes: [u8; 32]) -> (r: Address)
        ensures
            r.bytes == bytes,
    {
        Address { bytes }
    }

    /// Whether every byte is zero, as the cleared records leave them.
    pub open spec fn is_zero_spec(self) -> bool {
        forall|i: int| 0 <= i < 32 ==> self.bytes[i] == 0
    }
}

impl Default for Address {
    /// The all-zero identity.
    fn default() -> (r: Self)
        ensures
            r.is_zero_spec(),
    {
        Address { bytes: [0u8; 32] }
    }
}

} // verus!
