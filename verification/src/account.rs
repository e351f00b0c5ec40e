use vstd::prelude::*;

verus! {

/// An opaque account identifier, supplied by the hosting environment.
///
/// The ledger never interprets its structure; it serves only as an
/// equality-comparable lookup key for balances and allowances.
#[derive(Clone, Copy, PartialEq, Eq, Structural, Debug)]
pub struct AccountId {
    pub id: u128,
}

impl AccountId {
    pub fn new(id: u128) -> (r: AccountId)
        ensures
            r == (AccountId { id }),
    {
        AccountId { id }
    }
}

} // verus!
