use vstd::prelude::*;

use crate::account::AccountId;

verus! {

/// One balance record: `account` currently holds `amount` tokens.
#[derive(Clone, Copy)]
pub struct BalanceEntry {
    pub account: AccountId,
    pub amount: u128,
}

/// One allowance record: `spender` may still move up to `amount` tokens out
/// of `owner`'s balance.
#[derive(Clone, Copy)]
pub struct AllowanceEntry {
    pub owner: AccountId,
    pub spender: AccountId,
    pub amount: u128,
}

/// Every account appears at most once among the balance records, so the
/// records denote a map from accounts to amounts.
pub open spec fn unique_accounts(s: Seq<BalanceEntry>) -> bool {
    forall|i: int, j: int| 0 <= i < j < s.len() ==> s[i].account != s[j].account
}

/// Every `(owner, spender)` pair appears at most once among the allowance
/// records.
pub open spec fn unique_pairs(s: Seq<AllowanceEntry>) -> bool {
    forall|i: int, j: int|
        0 <= i < j < s.len() ==> !(s[i].owner == s[j].owner && s[i].spender == s[j].spender)
}

/// The balance recorded for `a`, or zero when `a` has no record: a record
/// holding zero and an absent record read alike.
pub open spec fn balance_in(s: Seq<BalanceEntry>, a: AccountId) -> u128
    decreases s.len(),
{
    if s.len() == 0 {
        0
    } else if s.last().account == a {
        s.last().amount
    } else {
        balance_in(s.drop_last(), a)
    }
}

/// The allowance recorded for `(owner, spender)`, or zero when absent.
pub open spec fn allowance_in(s: Seq<AllowanceEntry>, owner: AccountId, spender: AccountId) -> u128
    decreases s.len(),
{
    if s.len() == 0 {
        0
    } else if s.last().owner == owner && s.last().spender == spender {
        s.last().amount
    } else {
        allowance_in(s.drop_last(), owner, spender)
    }
}

/// The sum of all recorded balances, as an unbounded integer.
pub open spec fn balance_total(s: Seq<BalanceEntry>) -> int
    decreases s.len(),
{
    if s.len() == 0 {
        0
    } else {
        balance_total(s.drop_last()) + s.last().amount
    }
}

proof fn lemma_total_nonneg(s: Seq<BalanceEntry>)
    ensures
        balance_total(s) >= 0,
    decreases s.len(),
{
    if s.len() > 0 {
        lemma_total_nonneg(s.drop_last());
    }
}

/// Any single recorded balance is at most the sum of all of them.
pub proof fn lemma_balance_le_total(s: Seq<BalanceEntry>, a: AccountId)
    ensures
        balance_in(s, a) <= balance_total(s),
    decreases s.len(),
{
    if s.len() == 0 {
    } else if s.last().account == a {
        lemma_total_nonneg(s.drop_last());
    } else {
        lemma_balance_le_total(s.drop_last(), a);
    }
}

proof fn lemma_balance_at(s: Seq<BalanceEntry>, i: int)
    requires
        unique_accounts(s),
        0 <= i < s.len(),
    ensures
        balance_in(s, s[i].account) == s[i].amount,
    decreases s.len(),
{
    if i < s.len() - 1 {
        assert(s.last().account != s[i].account);
        assert(unique_accounts(s.drop_last()));
        lemma_balance_at(s.drop_last(), i);
    }
}

proof fn lemma_balance_absent(s: Seq<BalanceEntry>, a: AccountId)
    requires
        forall|i: int| 0 <= i < s.len() ==> s[i].account != a,
    ensures
        balance_in(s, a) == 0,
    decreases s.len(),
{
    if s.len() > 0 {
        lemma_balance_absent(s.drop_last(), a);
    }
}

proof fn lemma_balance_update_other(s: Seq<BalanceEntry>, i: int, e: BalanceEntry, b: AccountId)
    requires
        0 <= i < s.len(),
        e.account != b,
        s[i].account != b,
    ensures
        balance_in(s.update(i, e), b) == balance_in(s, b),
    decreases s.len(),
{
    let t = s.update(i, e);
    if i == s.len() - 1 {
        assert(t.drop_last() =~= s.drop_last());
    } else {
        assert(t.drop_last() =~= s.drop_last().update(i, e));
        assert(t.last() == s.last());
        if s.last().account != b {
            lemma_balance_update_other(s.drop_last(), i, e, b);
        }
    }
}

proof fn lemma_total_update(s: Seq<BalanceEntry>, i: int, e: BalanceEntry)
    requires
        0 <= i < s.len(),
    ensures
        balance_total(s.update(i, e)) == balance_total(s) + e.amount - s[i].amount,
    decreases s.len(),
{
    let t = s.update(i, e);
    if i == s.len() - 1 {
        assert(t.drop_last() =~= s.drop_last());
    } else {
        assert(t.drop_last() =~= s.drop_last().update(i, e));
        assert(t.last() == s.last());
        lemma_total_update(s.drop_last(), i, e);
    }
}

proof fn lemma_balance_push(s: Seq<BalanceEntry>, e: BalanceEntry, b: AccountId)
    ensures
        balance_in(s.push(e), b) == (if b == e.account {
            e.amount
        } else {
            balance_in(s, b)
        }),
{
    assert(s.push(e).drop_last() =~= s);
    assert(s.push(e).last() == e);
}

proof fn lemma_total_push(s: Seq<BalanceEntry>, e: BalanceEntry)
    ensures
        balance_total(s.push(e)) == balance_total(s) + e.amount,
{
    assert(s.push(e).drop_last() =~= s);
    assert(s.push(e).last() == e);
}

proof fn lemma_allowance_at(s: Seq<AllowanceEntry>, i: int)
    requires
        unique_pairs(s),
        0 <= i < s.len(),
    ensures
        allowance_in(s, s[i].owner, s[i].spender) == s[i].amount,
    decreases s.len(),
{
    if i < s.len() - 1 {
        assert(!(s.last().owner == s[i].owner && s.last().spender == s[i].spender));
        assert(unique_pairs(s.drop_last()));
        lemma_allowance_at(s.drop_last(), i);
    }
}

proof fn lemma_allowance_absent(s: Seq<AllowanceEntry>, owner: AccountId, spender: AccountId)
    requires
        forall|i: int| 0 <= i < s.len() ==> !(s[i].owner == owner && s[i].spender == spender),
    ensures
        allowance_in(s, owner, spender) == 0,
    decreases s.len(),
{
    if s.len() > 0 {
        lemma_allowance_absent(s.drop_last(), owner, spender);
    }
}

proof fn lemma_allowance_update_other(
    s: Seq<AllowanceEntry>,
    i: int,
    e: AllowanceEntry,
    o: AccountId,
    sp: AccountId,
)
    requires
        0 <= i < s.len(),
        !(e.owner == o && e.spender == sp),
        !(s[i].owner == o && s[i].spender == sp),
    ensures
        allowance_in(s.update(i, e), o, sp) == allowance_in(s, o, sp),
    decreases s.len(),
{
    let t = s.update(i, e);
    if i == s.len() - 1 {
        assert(t.drop_last() =~= s.drop_last());
    } else {
        assert(t.drop_last() =~= s.drop_last().update(i, e));
        assert(t.last() == s.last());
        if !(s.last().owner == o && s.last().spender == sp) {
            lemma_allowance_update_other(s.drop_last(), i, e, o, sp);
        }
    }
}

proof fn lemma_allowance_push(
    s: Seq<AllowanceEntry>,
    e: AllowanceEntry,
    o: AccountId,
    sp: AccountId,
)
    ensures
        allowance_in(s.push(e), o, sp) == (if o == e.owner && sp == e.spender {
            e.amount
        } else {
            allowance_in(s, o, sp)
        }),
{
    assert(s.push(e).drop_last() =~= s);
    assert(s.push(e).last() == e);
}

/// Reads the balance recorded for `a`, or zero when `a` has no record.
pub fn balance_lookup(v: &Vec<BalanceEntry>, a: AccountId) -> (r: u128)
    requires
        unique_accounts(v@),
    ensures
        r == balance_in(v@, a),
{
    let n: usize = v.len();
    let mut i: usize = 0;
    while i < n
        invariant
            n == v@.len(),
            unique_accounts(v@),
            i <= n,
            forall|j: int| 0 <= j < i ==> v@[j].account != a,
        decreases n - i,
    {
        if v[i].account == a {
            proof {
                lemma_balance_at(v@, i as int);
            }
            return v[i].amount;
        }
        i = i + 1;
    }
    proof {
        lemma_balance_absent(v@, a);
    }
    0
}

/// Reads the allowance recorded for `(owner, spender)`, or zero when absent.
pub fn allowance_lookup(v: &Vec<AllowanceEntry>, owner: AccountId, spender: AccountId) -> (r: u128)
    requires
        unique_pairs(v@),
    ensures
        r == allowance_in(v@, owner, spender),
{
    let n: usize = v.len();
    let mut i: usize = 0;
    while i < n
        invariant
            n == v@.len(),
            unique_pairs(v@),
            i <= n,
            forall|j: int| 0 <= j < i ==> !(v@[j].owner == owner && v@[j].spender == spender),
        decreases n - i,
    {
        if v[i].owner == owner && v[i].spender == spender {
            proof {
                lemma_allowance_at(v@, i as int);
            }
            return v[i].amount;
        }
        i = i + 1;
    }
    proof {
        lemma_allowance_absent(v@, owner, spender);
    }
    0
}

/// Records `x` as the balance of `a`, overwriting any prior record: afterwards
/// `a` reads as `x`, every other account reads as before, and the sum of all
/// balances has changed by exactly `x` minus the prior reading of `a`.
pub fn balance_store(v: &mut Vec<BalanceEntry>, a: AccountId, x: u128)
    requires
        unique_accounts(old(v)@),
    ensures
        unique_accounts(final(v)@),
        balance_in(final(v)@, a) == x,
        forall|b: AccountId| b != a ==> balance_in(final(v)@, b) == balance_in(old(v)@, b),
        balance_total(final(v)@) == balance_total(old(v)@) + x - balance_in(old(v)@, a),
{
    let ghost s = old(v)@;
    let e = BalanceEntry { account: a, amount: x };
    let n: usize = v.len();
    let mut i: usize = 0;
    while i < n
        invariant
            v@ == s,
            s == old(v)@,
            n == s.len(),
            unique_accounts(s),
            i <= n,
            forall|j: int| 0 <= j < i ==> s[j].account != a,
            e == (BalanceEntry { account: a, amount: x }),
        decreases n - i,
    {
        if v[i].account == a {
            v[i] = e;
            proof {
                let t = s.update(i as int, e);
                assert(v@ == t);
                assert forall|p: int| 0 <= p < t.len() implies t[p].account == s[p].account by {}
                assert(unique_accounts(t));
                lemma_balance_at(t, i as int);
                lemma_balance_at(s, i as int);
                lemma_total_update(s, i as int, e);
                assert forall|b: AccountId| b != a implies balance_in(t, b) == balance_in(
                    s,
                    b,
                ) by {
                    lemma_balance_update_other(s, i as int, e, b);
                }
            }
            return ;
        }
        i = i + 1;
    }
    v.push(e);
    proof {
        let t = s.push(e);
        assert(v@ == t);
        assert forall|p: int, q: int| 0 <= p < q < t.len() implies t[p].account
            != t[q].account by {
            if q < s.len() {
                assert(t[p] == s[p] && t[q] == s[q]);
            } else {
                assert(t[q] == e && t[p] == s[p]);
            }
        }
        assert(unique_accounts(t));
        lemma_balance_absent(s, a);
        lemma_total_push(s, e);
        assert forall|b: AccountId| balance_in(t, b) == (if b == a {
            x
        } else {
            balance_in(s, b)
        }) by {
            lemma_balance_push(s, e, b);
        }
    }
}

/// Records `x` as the allowance of `(owner, spender)`, overwriting any prior
/// record: afterwards that pair reads as `x` and every other pair reads as
/// before.
pub fn allowance_store(v: &mut Vec<AllowanceEntry>, owner: AccountId, spender: AccountId, x: u128)
    requires
        unique_pairs(old(v)@),
    ensures
        unique_pairs(final(v)@),
        allowance_in(final(v)@, owner, spender) == x,
        forall|o: AccountId, sp: AccountId|
            !(o == owner && sp == spender) ==> allowance_in(final(v)@, o, sp) == allowance_in(
                old(v)@,
                o,
                sp,
            ),
{
    let ghost s = old(v)@;
    let e = AllowanceEntry { owner, spender, amount: x };
    let n: usize = v.len();
    let mut i: usize = 0;
    while i < n
        invariant
            v@ == s,
            s == old(v)@,
            n == s.len(),
            unique_pairs(s),
            i <= n,
            forall|j: int| 0 <= j < i ==> !(s[j].owner == owner && s[j].spender == spender),
            e == (AllowanceEntry { owner, spender, amount: x }),
        decreases n - i,
    {
        if v[i].owner == owner && v[i].spender == spender {
            v[i] = e;
            proof {
                let t = s.update(i as int, e);
                assert(v@ == t);
                assert forall|p: int| 0 <= p < t.len() implies t[p].owner == s[p].owner
                    && t[p].spender == s[p].spender by {}
                assert(unique_pairs(t));
                lemma_allowance_at(t, i as int);
                assert forall|o: AccountId, sp: AccountId| !(o == owner && sp == spender) implies
                    allowance_in(t, o, sp) == allowance_in(s, o, sp) by {
                    lemma_allowance_update_other(s, i as int, e, o, sp);
                }
            }
            return ;
        }
        i = i + 1;
    }
    v.push(e);
    proof {
        let t = s.push(e);
        assert(v@ == t);
        assert forall|p: int, q: int| 0 <= p < q < t.len() implies !(t[p].owner == t[q].owner
            && t[p].spender == t[q].spender) by {
            if q < s.len() {
                assert(t[p] == s[p] && t[q] == s[q]);
            } else {
                assert(t[q] == e && t[p] == s[p]);
            }
        }
        assert(unique_pairs(t));
        assert forall|o: AccountId, sp: AccountId| allowance_in(t, o, sp) == (if o == owner && sp
            == spender {
            x
        } else {
            allowance_in(s, o, sp)
        }) by {
            lemma_allowance_push(s, e, o, sp);
        }
    }
}

} // verus!
