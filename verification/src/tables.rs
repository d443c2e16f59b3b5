//! Key-value tables stored as vectors of entries, together with the
//! spec-level lookup functions and the lemmas that relate updates of a
//! table to its lookups.
//!
//! Every ledger map (balances, allowances, authorized-minter flags) is a
//! vector with pairwise-distinct keys; a lookup of an absent key yields the
//! map's default value (zero, or `false`).

use vstd::prelude::*;

verus! {

/// One account's balance.
pub struct BalanceEntry {
    pub account: u64,
    pub amount: i128,
}

/// The balance of account `a`: the amount of the unique entry for `a`,
/// or zero when no entry exists.
pub open spec fn bal_of(s: Seq<BalanceEntry>, a: u64) -> int
    decreases s.len(),
{
    if s.len() == 0 {
        0
    } else if s.last().account == a {
        s.last().amount as int
    } else {
        bal_of(s.drop_last(), a)
    }
}

/// The sum of all amounts in the table.
pub open spec fn sum_of(s: Seq<BalanceEntry>) -> int
    decreases s.len(),
{
    if s.len() == 0 {
        0
    } else {
        sum_of(s.drop_last()) + s.last().amount
    }
}

/// No two entries hold the same account.
pub open spec fn unique_accounts(s: Seq<BalanceEntry>) -> bool {
    forall|i: int, j: int|
        0 <= i < j < s.len() ==> #[trigger] s[i].account != #[trigger] s[j].account
}

/// Every amount is non-negative.
pub open spec fn nonneg_amounts(s: Seq<BalanceEntry>) -> bool {
    forall|i: int| 0 <= i < s.len() ==> #[trigger] s[i].amount >= 0
}

/// A found entry holds exactly the looked-up balance.
proof fn lemma_bal_at_index(s: Seq<BalanceEntry>, i: int)
    requires
        unique_accounts(s),
        0 <= i < s.len(),
    ensures
        bal_of(s, s[i].account) == s[i].amount,
    decreases s.len(),
{
    if i == s.len() - 1 {
    } else {
        lemma_bal_at_index(s.drop_last(), i);
    }
}

/// An account with no entry has balance zero.
proof fn lemma_bal_absent(s: Seq<BalanceEntry>, a: u64)
    requires
        forall|j: int| 0 <= j < s.len() ==> #[trigger] s[j].account != a,
    ensures
        bal_of(s, a) == 0,
    decreases s.len(),
{
    if s.len() > 0 {
        lemma_bal_absent(s.drop_last(), a);
    }
}

/// Overwriting the entry at `i` moves that account's balance to the new
/// amount and leaves every other balance alone.
proof fn lemma_bal_update(s: Seq<BalanceEntry>, i: int, e: BalanceEntry, x: u64)
    requires
        unique_accounts(s),
        0 <= i < s.len(),
        s[i].account == e.account,
    ensures
        bal_of(s.update(i, e), x) == if x == e.account {
            e.amount as int
        } else {
            bal_of(s, x)
        },
    decreases s.len(),
{
    let t = s.update(i, e);
    if i == s.len() - 1 {
        assert(t.drop_last() =~= s.drop_last());
    } else {
        assert(t.drop_last() =~= s.drop_last().update(i, e));
        lemma_bal_update(s.drop_last(), i, e, x);
    }
}

/// Appending an entry for a fresh account gives that account its amount
/// and leaves every other balance alone.
proof fn lemma_bal_push(s: Seq<BalanceEntry>, e: BalanceEntry, x: u64)
    requires
        forall|j: int| 0 <= j < s.len() ==> #[trigger] s[j].account != e.account,
    ensures
        bal_of(s.push(e), x) == if x == e.account {
            e.amount as int
        } else {
            bal_of(s, x)
        },
{
    assert(s.push(e).drop_last() =~= s);
}

/// Overwriting one entry shifts the sum by the difference of the amounts.
proof fn lemma_sum_update(s: Seq<BalanceEntry>, i: int, e: BalanceEntry)
    requires
        0 <= i < s.len(),
    ensures
        sum_of(s.update(i, e)) == sum_of(s) - s[i].amount + e.amount,
    decreases s.len(),
{
    let t = s.update(i, e);
    if i == s.len() - 1 {
        assert(t.drop_last() =~= s.drop_last());
    } else {
        assert(t.drop_last() =~= s.drop_last().update(i, e));
        lemma_sum_update(s.drop_last(), i, e);
    }
}

/// Appending an entry adds its amount to the sum.
proof fn lemma_sum_push(s: Seq<BalanceEntry>, e: BalanceEntry)
    ensures
        sum_of(s.push(e)) == sum_of(s) + e.amount,
{
    assert(s.push(e).drop_last() =~= s);
}

/// With non-negative amounts the sum is non-negative.
pub(crate) proof fn lemma_sum_nonneg(s: Seq<BalanceEntry>)
    requires
        nonneg_amounts(s),
    ensures
        sum_of(s) >= 0,
    decreases s.len(),
{
    if s.len() > 0 {
        lemma_sum_nonneg(s.drop_last());
    }
}

/// With non-negative amounts, no single balance exceeds the sum.
pub(crate) proof fn lemma_bal_le_sum(s: Seq<BalanceEntry>, a: u64)
    requires
        nonneg_amounts(s),
    ensures
        0 <= bal_of(s, a),
        bal_of(s, a) <= sum_of(s),
    decreases s.len(),
{
    if s.len() > 0 {
        lemma_bal_le_sum(s.drop_last(), a);
        lemma_sum_nonneg(s.drop_last());
    }
}

/// The index of the entry for `a`, when one exists.
fn find_balance(v: &Vec<BalanceEntry>, a: u64) -> (r: Option<usize>)
    ensures
        match r {
            Some(i) => i < v@.len() && v@[i as int].account == a,
            None => forall|j: int| 0 <= j < v@.len() ==> #[trigger] v@[j].account != a,
        },
{
    let mut k: usize = 0;
    while k < v.len()
        invariant
            k <= v@.len(),
            forall|j: int| 0 <= j < k ==> #[trigger] v@[j].account != a,
        decreases v@.len() - k,
    {
        if v[k].account == a {
            return Some(k);
        }
        k = k + 1;
    }
    None
}

/// The balance of `a` in the table.
pub(crate) fn read_balance(v: &Vec<BalanceEntry>, a: u64) -> (r: i128)
    requires
        unique_accounts(v@),
    ensures
        r as int == bal_of(v@, a),
{
    match find_balance(v, a) {
        Some(i) => {
            proof {
                lemma_bal_at_index(v@, i as int);
            }
            v[i].amount
        },
        None => {
            proof {
                lemma_bal_absent(v@, a);
            }
            0
        },
    }
}

/// Sets the balance of `a` to `amount`, overwriting the entry for `a` or
/// appending one.
pub(crate) fn write_balance(v: &mut Vec<BalanceEntry>, a: u64, amount: i128)
    requires
        unique_accounts(old(v)@),
    ensures
        unique_accounts(final(v)@),
        nonneg_amounts(old(v)@) && amount >= 0 ==> nonneg_amounts(final(v)@),
        forall|x: u64| bal_of(final(v)@, x) == if x == a {
            amount as int
        } else {
            bal_of(old(v)@, x)
        },
        sum_of(final(v)@) == sum_of(old(v)@) - bal_of(old(v)@, a) + amount,
{
    let entry = BalanceEntry { account: a, amount };
    match find_balance(v, a) {
        Some(i) => {
            proof {
                lemma_bal_at_index(v@, i as int);
                lemma_sum_update(v@, i as int, entry);
                assert forall|x: u64|
                    bal_of(v@.update(i as int, entry), x) == if x == a {
                        amount as int
                    } else {
                        bal_of(v@, x)
                    } by {
                    lemma_bal_update(v@, i as int, entry, x);
                }
            }
            v[i] = entry;
        },
        None => {
            proof {
                lemma_bal_absent(v@, a);
                lemma_sum_push(v@, entry);
                assert forall|x: u64|
                    bal_of(v@.push(entry), x) == if x == a {
                        amount as int
                    } else {
                        bal_of(v@, x)
                    } by {
                    lemma_bal_push(v@, entry, x);
                }
            }
            v.push(entry);
        },
    }
}

/// One owner-to-spender allowance.
pub struct AllowanceEntry {
    pub owner: u64,
    pub spender: u64,
    pub amount: i128,
}

/// The allowance granted by `o` to `sp`: the amount of the unique entry
/// for the pair, or zero when no entry exists.
pub open spec fn allow_of(s: Seq<AllowanceEntry>, o: u64, sp: u64) -> int
    decreases s.len(),
{
    if s.len() == 0 {
        0
    } else if s.last().owner == o && s.last().spender == sp {
        s.last().amount as int
    } else {
        allow_of(s.drop_last(), o, sp)
    }
}

/// No two entries hold the same (owner, spender) pair.
pub open spec fn unique_allowances(s: Seq<AllowanceEntry>) -> bool {
    forall|i: int, j: int|
        0 <= i < j < s.len() ==> !(#[trigger] s[i].owner == #[trigger] s[j].owner && s[i].spender
            == s[j].spender)
}

/// Every allowance amount is non-negative.
pub open spec fn nonneg_allowances(s: Seq<AllowanceEntry>) -> bool {
    forall|i: int| 0 <= i < s.len() ==> #[trigger] s[i].amount >= 0
}

/// A found entry holds exactly the looked-up allowance.
proof fn lemma_allow_at_index(s: Seq<AllowanceEntry>, i: int)
    requires
        unique_allowances(s),
        0 <= i < s.len(),
    ensures
        allow_of(s, s[i].owner, s[i].spender) == s[i].amount,
    decreases s.len(),
{
    if i == s.len() - 1 {
    } else {
        lemma_allow_at_index(s.drop_last(), i);
    }
}

/// A pair with no entry has allowance zero.
proof fn lemma_allow_absent(s: Seq<AllowanceEntry>, o: u64, sp: u64)
    requires
        forall|j: int| 0 <= j < s.len() ==> !(#[trigger] s[j].owner == o && s[j].spender == sp),
    ensures
        allow_of(s, o, sp) == 0,
    decreases s.len(),
{
    if s.len() > 0 {
        lemma_allow_absent(s.drop_last(), o, sp);
    }
}

/// Overwriting the entry at `i` moves that pair's allowance to the new
/// amount and leaves every other allowance alone.
proof fn lemma_allow_update(s: Seq<AllowanceEntry>, i: int, e: AllowanceEntry, o: u64, sp: u64)
    requires
        unique_allowances(s),
        0 <= i < s.len(),
        s[i].owner == e.owner,
        s[i].spender == e.spender,
    ensures
        allow_of(s.update(i, e), o, sp) == if o == e.owner && sp == e.spender {
            e.amount as int
        } else {
            allow_of(s, o, sp)
        },
    decreases s.len(),
{
    let t = s.update(i, e);
    if i == s.len() - 1 {
        assert(t.drop_last() =~= s.drop_last());
    } else {
        assert(t.drop_last() =~= s.drop_last().update(i, e));
        lemma_allow_update(s.drop_last(), i, e, o, sp);
    }
}

/// Appending an entry for a fresh pair gives that pair its amount and
/// leaves every other allowance alone.
proof fn lemma_allow_push(s: Seq<AllowanceEntry>, e: AllowanceEntry, o: u64, sp: u64)
    requires
        forall|j: int|
            0 <= j < s.len() ==> !(#[trigger] s[j].owner == e.owner && s[j].spender == e.spender),
    ensures
        allow_of(s.push(e), o, sp) == if o == e.owner && sp == e.spender {
            e.amount as int
        } else {
            allow_of(s, o, sp)
        },
{
    assert(s.push(e).drop_last() =~= s);
}

/// The index of the entry for the pair `(o, sp)`, when one exists.
fn find_allowance(v: &Vec<AllowanceEntry>, o: u64, sp: u64) -> (r: Option<usize>)
    ensures
        match r {
            Some(i) => i < v@.len() && v@[i as int].owner == o && v@[i as int].spender == sp,
            None => forall|j: int|
                0 <= j < v@.len() ==> !(#[trigger] v@[j].owner == o && v@[j].spender == sp),
        },
{
    let mut k: usize = 0;
    while k < v.len()
        invariant
            k <= v@.len(),
            forall|j: int| 0 <= j < k ==> !(#[trigger] v@[j].owner == o && v@[j].spender == sp),
        decreases v@.len() - k,
    {
        if v[k].owner == o && v[k].spender == sp {
            return Some(k);
        }
        k = k + 1;
    }
    None
}

/// The allowance of the pair `(o, sp)` in the table.
pub(crate) fn read_allowance(v: &Vec<AllowanceEntry>, o: u64, sp: u64) -> (r: i128)
    requires
        unique_allowances(v@),
    ensures
        r as int == allow_of(v@, o, sp),
{
    match find_allowance(v, o, sp) {
        Some(i) => {
            proof {
                lemma_allow_at_index(v@, i as int);
            }
            v[i].amount
        },
        None => {
            proof {
                lemma_allow_absent(v@, o, sp);
            }
            0
        },
    }
}

/// Sets the allowance of the pair `(o, sp)` to `amount`, overwriting the
/// entry for the pair or appending one.
pub(crate) fn write_allowance(v: &mut Vec<AllowanceEntry>, o: u64, sp: u64, amount: i128)
    requires
        unique_allowances(old(v)@),
    ensures
        unique_allowances(final(v)@),
        nonneg_allowances(old(v)@) && amount >= 0 ==> nonneg_allowances(final(v)@),
        forall|x: u64, y: u64| allow_of(final(v)@, x, y) == if x == o && y == sp {
            amount as int
        } else {
            allow_of(old(v)@, x, y)
        },
{
    let entry = AllowanceEntry { owner: o, spender: sp, amount };
    match find_allowance(v, o, sp) {
        Some(i) => {
            proof {
                assert forall|x: u64, y: u64|
                    allow_of(v@.update(i as int, entry), x, y) == if x == o && y == sp {
                        amount as int
                    } else {
                        allow_of(v@, x, y)
                    } by {
                    lemma_allow_update(v@, i as int, entry, x, y);
                }
            }
            v[i] = entry;
        },
        None => {
            proof {
                assert forall|x: u64, y: u64|
                    allow_of(v@.push(entry), x, y) == if x == o && y == sp {
                        amount as int
                    } else {
                        allow_of(v@, x, y)
                    } by {
                    lemma_allow_push(v@, entry, x, y);
                }
            }
            v.push(entry);
        },
    }
}

/// One authorized-minter flag.
pub struct MinterEntry {
    pub minter: u64,
    pub authorized: bool,
}

/// Whether `m` is flagged as an authorized minter: the flag of the unique
/// entry for `m`, or `false` when no entry exists.
pub open spec fn minter_of(s: Seq<MinterEntry>, m: u64) -> bool
    decreases s.len(),
{
    if s.len() == 0 {
        false
    } else if s.last().minter == m {
        s.last().authorized
    } else {
        minter_of(s.drop_last(), m)
    }
}

/// No two entries hold the same minter.
pub open spec fn unique_minters(s: Seq<MinterEntry>) -> bool {
    forall|i: int, j: int|
        0 <= i < j < s.len() ==> #[trigger] s[i].minter != #[trigger] s[j].minter
}

/// A found entry holds exactly the looked-up flag.
proof fn lemma_minter_at_index(s: Seq<MinterEntry>, i: int)
    requires
        unique_minters(s),
        0 <= i < s.len(),
    ensures
        minter_of(s, s[i].minter) == s[i].authorized,
    decreases s.len(),
{
    if i == s.len() - 1 {
    } else {
        lemma_minter_at_index(s.drop_last(), i);
    }
}

/// A minter with no entry is not authorized.
proof fn lemma_minter_absent(s: Seq<MinterEntry>, m: u64)
    requires
        forall|j: int| 0 <= j < s.len() ==> #[trigger] s[j].minter != m,
    ensures
        !minter_of(s, m),
    decreases s.len(),
{
    if s.len() > 0 {
        lemma_minter_absent(s.drop_last(), m);
    }
}

/// Overwriting the entry at `i` moves that minter's flag to the new value
/// and leaves every other flag alone.
proof fn lemma_minter_update(s: Seq<MinterEntry>, i: int, e: MinterEntry, x: u64)
    requires
        unique_minters(s),
        0 <= i < s.len(),
        s[i].minter == e.minter,
    ensures
        minter_of(s.update(i, e), x) == if x == e.minter {
            e.authorized
        } else {
            minter_of(s, x)
        },
    decreases s.len(),
{
    let t = s.update(i, e);
    if i == s.len() - 1 {
        assert(t.drop_last() =~= s.drop_last());
    } else {
        assert(t.drop_last() =~= s.drop_last().update(i, e));
        lemma_minter_update(s.drop_last(), i, e, x);
    }
}

/// Appending an entry for a fresh minter gives that minter its flag and
/// leaves every other flag alone.
proof fn lemma_minter_push(s: Seq<MinterEntry>, e: MinterEntry, x: u64)
    requires
        forall|j: int| 0 <= j < s.len() ==> #[trigger] s[j].minter != e.minter,
    ensures
        minter_of(s.push(e), x) == if x == e.minter {
            e.authorized
        } else {
            minter_of(s, x)
        },
{
    assert(s.push(e).drop_last() =~= s);
}

/// The index of the entry for `m`, when one exists.
fn find_minter(v: &Vec<MinterEntry>, m: u64) -> (r: Option<usize>)
    ensures
        match r {
            Some(i) => i < v@.len() && v@[i as int].minter == m,
            None => forall|j: int| 0 <= j < v@.len() ==> #[trigger] v@[j].minter != m,
        },
{
    let mut k: usize = 0;
    while k < v.len()
        invariant
            k <= v@.len(),
            forall|j: int| 0 <= j < k ==> #[trigger] v@[j].minter != m,
        decreases v@.len() - k,
    {
        if v[k].minter == m {
            return Some(k);
        }
        k = k + 1;
    }
    None
}

/// Whether `m` is flagged as an authorized minter in the table.
pub(crate) fn read_minter(v: &Vec<MinterEntry>, m: u64) -> (r: bool)
    requires
        unique_minters(v@),
    ensures
        r == minter_of(v@, m),
{
    match find_minter(v, m) {
        Some(i) => {
            proof {
                lemma_minter_at_index(v@, i as int);
            }
            v[i].authorized
        },
        None => {
            proof {
                lemma_minter_absent(v@, m);
            }
            false
        },
    }
}

/// Sets the flag of `m` to `authorized`, overwriting the entry for `m` or
/// appending one.
pub(crate) fn write_minter(v: &mut Vec<MinterEntry>, m: u64, authorized: bool)
    requires
        unique_minters(old(v)@),
    ensures
        unique_minters(final(v)@),
        forall|x: u64| minter_of(final(v)@, x) == if x == m {
            authorized
        } else {
            minter_of(old(v)@, x)
        },
{
    let entry = MinterEntry { minter: m, authorized };
    match find_minter(v, m) {
        Some(i) => {
            proof {
                assert forall|x: u64|
                    minter_of(v@.update(i as int, entry), x) == if x == m {
                        authorized
                    } else {
                        minter_of(v@, x)
                    } by {
                    lemma_minter_update(v@, i as int, entry, x);
                }
            }
            v[i] = entry;
        },
        None => {
            proof {
                assert forall|x: u64|
                    minter_of(v@.push(entry), x) == if x == m {
                        authorized
                    } else {
                        minter_of(v@, x)
                    } by {
                    lemma_minter_push(v@, entry, x);
                }
            }
            v.push(entry);
        },
    }
}

} // verus!
