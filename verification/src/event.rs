use vstd::prelude::*;

use crate::account::AccountId;

verus! {

/// Notification of a balance movement.
///
/// `from == None` marks the minting transfer emitted at construction, when the
/// whole supply is credited to the constructing caller.
#[derive(Clone, Copy, PartialEq, Eq, Debug)]
pub struct Transfer {
    pub from: Option<AccountId>,
    pub to: Option<AccountId>,
    pub value: u128,
}

/// Notification that `owner` set the allowance of `spender` to `value`.
///
/// Emitted on every approval, whatever the prior value was.
#[derive(Clone, Copy, PartialEq, Eq, Debug)]
pub struct Approval {
    pub owner: AccountId,
    pub spender: AccountId,
    pub value: u128,
}

/// One record of the ledger's notification channel, in emission order.
#[derive(Clone, Copy, PartialEq, Eq, Debug)]
pub enum Event {
    Transfer(Transfer),
    Approval(Approval),
}

} // verus!
