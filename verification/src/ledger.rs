use vstd::prelude::*;

use crate::account::AccountId;
use crate::event::Approval;
use crate::event::Event;
use crate::event::Transfer;
use crate::store;
use crate::store::AllowanceEntry;
use crate::store::BalanceEntry;

verus! {

/// The fungible-token ledger: a fixed total supply, the balance of every
/// account, the allowance of every `(owner, spender)` pair, and the log of
/// notifications emitted so far.
///
/// The hosting environment supplies the caller's identity as an explicit
/// argument of every mutating operation and drains the event log.
pub struct Elecrypto {
    /// The total supply of the token, fixed at construction.
    pub total_supply: u128,
    /// The balance records, one account per record.
    pub balances: Vec<BalanceEntry>,
    /// The allowance records, one `(owner, spender)` pair per record.
    pub allowances: Vec<AllowanceEntry>,
    /// Notifications emitted so far, oldest first.
    pub events: Vec<Event>,
}

impl Elecrypto {
    /// The balance of `a`; an account without a record reads as zero.
    pub open spec fn spec_balance(self, a: AccountId) -> u128 {
        store::balance_in(self.balances@, a)
    }

    /// The allowance of the exact `(owner, spender)` pair; an absent pair
    /// reads as zero.
    pub open spec fn spec_allowance(self, owner: AccountId, spender: AccountId) -> u128 {
        store::allowance_in(self.allowances@, owner, spender)
    }

    /// Well-formedness: each account and each `(owner, spender)` pair has at
    /// most one record, and the balances sum to the total supply
    /// (conservation of supply).
    pub open spec fn wf(self) -> bool {
        &&& store::unique_accounts(self.balances@)
        &&& store::unique_pairs(self.allowances@)
        &&& store::balance_total(self.balances@) == self.total_supply
    }

    /// `post` is `pre` after a successful transfer of `value` from `from` to
    /// `to`: exactly `value` moved between the two balances (a self-transfer
    /// leaves every balance as it was), nothing else changed, and one
    /// transfer notification was emitted.
    pub open spec fn transferred(
        pre: Elecrypto,
        post: Elecrypto,
        from: AccountId,
        to: AccountId,
        value: u128,
    ) -> bool {
        &&& forall|a: AccountId|
            #[trigger] post.spec_balance(a) as int == pre.spec_balance(a) - (if a == from {
                value as int
            } else {
                0
            }) + (if a == to {
                value as int
            } else {
                0
            })
        &&& forall|o: AccountId, sp: AccountId|
            #[trigger] post.spec_allowance(o, sp) == pre.spec_allowance(o, sp)
        &&& post.total_supply == pre.total_supply
        &&& post.events@ == pre.events@.push(
            Event::Transfer(Transfer { from: Some(from), to: Some(to), value }),
        )
    }

    /// `post` is `pre` after `owner` approved `spender` for `value`: the
    /// allowance of that exact pair now reads `value` — whatever it read
    /// before — nothing else changed, and one approval notification was
    /// emitted.
    pub open spec fn approved(
        pre: Elecrypto,
        post: Elecrypto,
        owner: AccountId,
        spender: AccountId,
        value: u128,
    ) -> bool {
        &&& post.spec_allowance(owner, spender) == value
        &&& forall|o: AccountId, sp: AccountId|
            !(o == owner && sp == spender) ==> #[trigger] post.spec_allowance(o, sp)
                == pre.spec_allowance(o, sp)
        &&& forall|a: AccountId| #[trigger] post.spec_balance(a) == pre.spec_balance(a)
        &&& post.total_supply == pre.total_supply
        &&& post.events@ == pre.events@.push(
            Event::Approval(Approval { owner, spender, value }),
        )
    }

    /// `post` is `pre` after `spender` successfully moved `value` from `from`
    /// to `to` against `from`'s allowance: the balances moved as in a direct
    /// transfer, the allowance of `(from, spender)` went down by exactly
    /// `value`, every other allowance is as it was, and one transfer
    /// notification was emitted.
    pub open spec fn delegated(
        pre: Elecrypto,
        post: Elecrypto,
        spender: AccountId,
        from: AccountId,
        to: AccountId,
        value: u128,
    ) -> bool {
        &&& forall|a: AccountId|
            #[trigger] post.spec_balance(a) as int == pre.spec_balance(a) - (if a == from {
                value as int
            } else {
                0
            }) + (if a == to {
                value as int
            } else {
                0
            })
        &&& post.spec_allowance(from, spender) as int == pre.spec_allowance(from, spender) - value
        &&& forall|o: AccountId, sp: AccountId|
            !(o == from && sp == spender) ==> #[trigger] post.spec_allowance(o, sp)
                == pre.spec_allowance(o, sp)
        &&& post.total_supply == pre.total_supply
        &&& post.events@ == pre.events@.push(
            Event::Transfer(Transfer { from: Some(from), to: Some(to), value }),
        )
    }

    /// Creates the ledger with `initial_supply` credited in full to the
    /// constructing caller, and emits the minting transfer notification.
    /// Construction always succeeds, for any supply including zero.
    pub fn new(caller: AccountId, initial_supply: u128) -> (r: Elecrypto)
        ensures
            r.wf(),
            r.total_supply == initial_supply,
            r.spec_balance(caller) == initial_supply,
            forall|a: AccountId| a != caller ==> r.spec_balance(a) == 0,
            forall|o: AccountId, sp: AccountId| r.spec_allowance(o, sp) == 0,
            r.events@ == seq![
                Event::Transfer(Transfer { from: None, to: Some(caller), value: initial_supply }),
            ],
    {
        let mut balances: Vec<BalanceEntry> = Vec::new();
        balances.push(BalanceEntry { account: caller, amount: initial_supply });
        let allowances: Vec<AllowanceEntry> = Vec::new();
        let mut events: Vec<Event> = Vec::new();
        events.push(
            Event::Transfer(Transfer { from: None, to: Some(caller), value: initial_supply }),
        );
        let r = Elecrypto { total_supply: initial_supply, balances, allowances, events };
        proof {
            let s = r.balances@;
            assert(s.drop_last() =~= Seq::<BalanceEntry>::empty());
            assert(store::balance_total(s.drop_last()) == 0);
            assert(store::balance_total(s) == initial_supply);
            assert forall|a: AccountId| a != caller implies r.spec_balance(a) == 0 by {
                assert(store::balance_in(s.drop_last(), a) == 0);
            }
            assert forall|o: AccountId, sp: AccountId| r.spec_allowance(o, sp) == 0 by {
                assert(r.allowances@.len() == 0);
            }
            assert(r.events@ =~= seq![
                Event::Transfer(Transfer { from: None, to: Some(caller), value: initial_supply }),
            ]);
        }
        r
    }

    /// The fixed total supply.
    pub fn total_supply(&self) -> (r: u128)
        ensures
            r == self.total_supply,
    {
        self.total_supply
    }

    /// The balance of `owner`, zero when `owner` has never held tokens.
    pub fn balance_of(&self, owner: AccountId) -> (r: u128)
        requires
            self.wf(),
        ensures
            r == self.spec_balance(owner),
    {
        store::balance_lookup(&self.balances, owner)
    }

    /// The allowance `owner` has granted `spender`, zero when none was ever
    /// approved.
    pub fn allowancetoken(&self, owner: AccountId, spender: AccountId) -> (r: u128)
        requires
            self.wf(),
        ensures
            r == self.spec_allowance(owner, spender),
    {
        self.allowance_of_or_zero(owner, spender)
    }

    /// Sets the allowance of `(caller, spender)` to `value`, overwriting —
    /// not adding to — any prior value. Never fails: no arithmetic is
    /// involved and the caller need not hold `value`.
    pub fn approve(&mut self, caller: AccountId, spender: AccountId, value: u128) -> (r: bool)
        requires
            old(self).wf(),
        ensures
            final(self).wf(),
            r,
            Self::approved(*old(self), *final(self), caller, spender, value),
    {
        store::allowance_store(&mut self.allowances, caller, spender, value);
        self.events.push(Event::Approval(Approval { owner: caller, spender, value }));
        true
    }

    /// Moves `value` from the caller's balance to `to`. Returns true and
    /// performs the transfer exactly when the caller's balance covers
    /// `value`; otherwise returns false and changes nothing.
    pub fn transfer(&mut self, caller: AccountId, to: AccountId, value: u128) -> (r: bool)
        requires
            old(self).wf(),
        ensures
            final(self).wf(),
            r == (value <= old(self).spec_balance(caller)),
            r ==> Self::transferred(*old(self), *final(self), caller, to, value),
            !r ==> *final(self) == *old(self),
    {
        self.transfer_from_to(caller, to, value)
    }

    /// Moves `value` from `from` to `to` on behalf of the caller, against the
    /// allowance `from` granted the caller. Succeeds exactly when both the
    /// allowance and `from`'s balance cover `value`; the allowance is
    /// decremented if and only if the balances actually moved, and on failure
    /// nothing changes at all.
    pub fn transfer_from(
        &mut self,
        caller: AccountId,
        from: AccountId,
        to: AccountId,
        value: u128,
    ) -> (r: bool)
        requires
            old(self).wf(),
        ensures
            final(self).wf(),
            r == (value <= old(self).spec_allowance(from, caller) && value <= old(
                self,
            ).spec_balance(from)),
            r ==> Self::delegated(*old(self), *final(self), caller, from, to, value),
            !r ==> *final(self) == *old(self),
    {
        let allowance = self.allowance_of_or_zero(from, caller);
        if allowance < value {
            return false;
        }
        if !self.transfer_from_to(from, to, value) {
            return false;
        }
        let ghost mid = *self;
        store::allowance_store(&mut self.allowances, from, caller, allowance - value);
        proof {
            assert forall|a: AccountId| #[trigger] self.spec_balance(a) == mid.spec_balance(
                a,
            ) by {}
            assert forall|o: AccountId, sp: AccountId| !(o == from && sp == caller) implies
                #[trigger] self.spec_allowance(o, sp) == mid.spec_allowance(o, sp) by {}
        }
        true
    }

    /// The shared transfer primitive: checks `from`'s balance, then debits
    /// `from` and credits `to`. The credit cannot overflow: conservation
    /// bounds every balance by the total supply.
    fn transfer_from_to(&mut self, from: AccountId, to: AccountId, value: u128) -> (r: bool)
        requires
            old(self).wf(),
        ensures
            final(self).wf(),
            r == (value <= old(self).spec_balance(from)),
            r ==> Self::transferred(*old(self), *final(self), from, to, value),
            !r ==> *final(self) == *old(self),
    {
        let from_balance = self.balance_of(from);
        if from_balance < value {
            return false;
        }
        store::balance_store(&mut self.balances, from, from_balance - value);
        let to_balance = store::balance_lookup(&self.balances, to);
        proof {
            store::lemma_balance_le_total(self.balances@, to);
        }
        store::balance_store(&mut self.balances, to, to_balance + value);
        self.events.push(Event::Transfer(Transfer { from: Some(from), to: Some(to), value }));
        true
    }

    fn allowance_of_or_zero(&self, owner: AccountId, spender: AccountId) -> (r: u128)
        requires
            self.wf(),
        ensures
            r == self.spec_allowance(owner, spender),
    {
        store::allowance_lookup(&self.allowances, owner, spender)
    }
}

/// Conservation of supply: in every well-formed ledger the balances sum to
/// the total supply. `new` establishes well-formedness and every operation
/// preserves it, so the equality holds after every call of any sequence of
/// transfers, delegated transfers and approvals.
pub proof fn lemma_conservation(l: Elecrypto)
    requires
        l.wf(),
    ensures
        store::balance_total(l.balances@) == l.total_supply,
{
}

/// Approvals overwrite, they do not accumulate: approving `first` and then
/// `second` for the same `(owner, spender)` pair leaves the allowance at
/// exactly `second`, whatever `first` was.
pub proof fn lemma_approve_overwrites(
    l0: Elecrypto,
    l1: Elecrypto,
    l2: Elecrypto,
    owner: AccountId,
    spender: AccountId,
    first: u128,
    second: u128,
)
    requires
        Elecrypto::approved(l0, l1, owner, spender, first),
        Elecrypto::approved(l1, l2, owner, spender, second),
    ensures
        l2.spec_allowance(owner, spender) == second,
{
}

} // verus!
