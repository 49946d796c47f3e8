//! The singleton program state record.

use vstd::prelude::*;

use crate::address::Address;

verus! {

/// Global state shared by every sale: the administrator, the signing
/// authority handed out by the ledger collaborator, and a counter for
/// numbering sales.
#[derive(Debug, Clone, Copy)]
pub struct State {
    pub admin: Address,
    pub authority: Address,
    pub next_bond_sale: u128,
    pub nonce: u8,
    pub bump: u8,
}

impl State {
    /// A fresh state record with the sale counter at zero.
    pub fn new(admin: Address, authority: Address, nonce: u8, bump: u8) -> (r: State)
        ensures
            r.admin == admin,
            r.authority == authority,
            r.next_bond_sale == 0,
            r.nonce == nonce,
            r.bump == bump,
    {
        State { admin, authority, next_bond_sale: 0, nonce, bump }
    }
}

} // verus!
