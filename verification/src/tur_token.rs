//! The fungible reward-token ledger: balances, allowances, total supply,
//! minting (by the admin or by an authorized minter), burning, and
//! delegated burning through allowances.
//!
//! The ledger is an explicit state value. Every mutating operation takes
//! the authenticated caller identity as an explicit argument and returns
//! an ordinary error when the caller does not hold the required
//! authorization; it either completes in full or leaves the ledger
//! untouched.
//!
//! The central invariant, part of [`TurToken::wf`], is conservation: the
//! sum of all balances always equals the recorded total supply.

use vstd::prelude::*;

use crate::tables::BalanceEntry;
use crate::tables::bal_of;
use crate::tables::sum_of;
use crate::tables::unique_accounts;
use crate::tables::nonneg_amounts;
use crate::tables::lemma_bal_le_sum;
use crate::tables::read_balance;
use crate::tables::write_balance;
use crate::tables::AllowanceEntry;
use crate::tables::allow_of;
use crate::tables::unique_allowances;
use crate::tables::nonneg_allowances;
use crate::tables::read_allowance;
use crate::tables::write_allowance;
use crate::tables::MinterEntry;
use crate::tables::minter_of;
use crate::tables::unique_minters;
use crate::tables::read_minter;
use crate::tables::write_minter;

verus! {

/// Errors returned by the token ledger.
#[derive(Clone, Copy, Debug, PartialEq, Eq)]
pub enum Error {
    /// An amount was negative, a balance or allowance was too small, or
    /// checked arithmetic would wrap.
    InsufficientBalance,
    /// A burn was attempted by a caller who is neither the owner nor an
    /// approved spender.
    UnauthorizedBurn,
    /// The caller does not hold the required authorization.
    Unauthorized,
}

/// The fungible-token ledger state.
pub struct TurToken {
    /// The admin identity fixed at initialization.
    pub admin: u64,
    /// Token name.
    pub name: String,
    /// Token symbol.
    pub symbol: String,
    /// Number of decimal places of the token's display unit.
    pub decimals: u32,
    /// The total number of tokens in existence.
    pub total_supply: i128,
    /// Per-account balances; accounts without an entry hold zero.
    pub balances: Vec<BalanceEntry>,
    /// Owner-to-spender burn allowances; pairs without an entry hold zero.
    pub allowances: Vec<AllowanceEntry>,
    /// Identities the admin has flagged as authorized minters.
    pub minters: Vec<MinterEntry>,
}

impl TurToken {
    /// The balance of account `a`.
    pub open spec fn spec_balance(&self, a: u64) -> int {
        bal_of(self.balances@, a)
    }

    /// The allowance granted by `owner` to `spender`.
    pub open spec fn spec_allowance(&self, owner: u64, spender: u64) -> int {
        allow_of(self.allowances@, owner, spender)
    }

    /// Whether `m` is flagged as an authorized minter.
    pub open spec fn spec_is_minter(&self, m: u64) -> bool {
        minter_of(self.minters@, m)
    }

    /// The metadata and configuration of the ledger never change after
    /// initialization; every operation preserves them.
    pub open spec fn same_config(&self, other: &TurToken) -> bool {
        &&& self.admin == other.admin
        &&& self.name@ == other.name@
        &&& self.symbol@ == other.symbol@
        &&& self.decimals == other.decimals
    }

    /// Well-formedness: each table has distinct keys and non-negative
    /// amounts, and the sum of all balances equals the recorded total
    /// supply (conservation).
    pub open spec fn wf(&self) -> bool {
        &&& unique_accounts(self.balances@)
        &&& nonneg_amounts(self.balances@)
        &&& sum_of(self.balances@) == self.total_supply as int
        &&& 0 <= self.total_supply
        &&& unique_allowances(self.allowances@)
        &&& nonneg_allowances(self.allowances@)
        &&& unique_minters(self.minters@)
    }

    /// Creates the ledger, minting the initial supply to the admin.
    pub fn initialize(
        admin: u64,
        name: String,
        symbol: String,
        decimals: u32,
        initial_supply: i128,
    ) -> (t: TurToken)
        requires
            0 <= initial_supply,
        ensures
            t.wf(),
            t.admin == admin,
            t.name@ == name@,
            t.symbol@ == symbol@,
            t.decimals == decimals,
            t.total_supply == initial_supply,
            forall|a: u64| t.spec_balance(a) == if a == admin {
                initial_supply as int
            } else {
                0
            },
            forall|o: u64, s: u64| t.spec_allowance(o, s) == 0,
            forall|m: u64| !t.spec_is_minter(m),
    {
        let mut balances: Vec<BalanceEntry> = Vec::new();
        write_balance(&mut balances, admin, initial_supply);
        TurToken {
            admin,
            name,
            symbol,
            decimals,
            total_supply: initial_supply,
            balances,
            allowances: Vec::new(),
            minters: Vec::new(),
        }
    }

    /// The token name.
    pub fn name(&self) -> (r: String)
        ensures
            r@ == self.name@,
    {
        self.name.clone()
    }

    /// The token symbol.
    pub fn symbol(&self) -> (r: String)
        ensures
            r@ == self.symbol@,
    {
        self.symbol.clone()
    }

    /// The token's number of decimal places.
    pub fn decimals(&self) -> (r: u32)
        ensures
            r == self.decimals,
    {
        self.decimals
    }

    /// The total number of tokens in existence.
    pub fn total_supply(&self) -> (r: i128)
        ensures
            r == self.total_supply,
    {
        self.total_supply
    }

    /// The balance of account `id`; zero for accounts never seen.
    pub fn balance(&self, id: u64) -> (r: i128)
        requires
            self.wf(),
        ensures
            r as int == self.spec_balance(id),
    {
        read_balance(&self.balances, id)
    }

    /// The allowance granted by `owner` to `spender`; zero when none was
    /// ever approved.
    pub fn allowance(&self, owner: u64, spender: u64) -> (r: i128)
        requires
            self.wf(),
        ensures
            r as int == self.spec_allowance(owner, spender),
    {
        read_allowance(&self.allowances, owner, spender)
    }

    /// Moves `amount` tokens from `from` to `to`.
    ///
    /// The caller must be `from`; the amount must be non-negative and
    /// covered by `from`'s balance. A transfer of an account to itself
    /// leaves every balance unchanged. The total supply never changes.
    pub fn transfer(&mut self, caller: u64, from: u64, to: u64, amount: i128) -> (r: Result<
        (),
        Error,
    >)
        requires
            old(self).wf(),
        ensures
            final(self).wf(),
            final(self).same_config(old(self)),
            final(self).total_supply == old(self).total_supply,
            final(self).allowances@ == old(self).allowances@,
            final(self).minters@ == old(self).minters@,
            r == Err::<(), Error>(Error::Unauthorized) <==> caller != from,
            r == Err::<(), Error>(Error::InsufficientBalance) <==> caller == from && !(0 <= amount
                <= old(self).spec_balance(from)),
            r is Ok <==> caller == from && 0 <= amount <= old(self).spec_balance(from),
            r is Ok ==> forall|a: u64|
                final(self).spec_balance(a) == old(self).spec_balance(a) + (if a == to {
                    amount as int
                } else {
                    0
                }) - (if a == from {
                    amount as int
                } else {
                    0
                }),
            r is Err ==> *final(self) == *old(self),
    {
        if caller != from {
            return Err(Error::Unauthorized);
        }
        if amount < 0 {
            return Err(Error::InsufficientBalance);
        }
        let from_balance = self.balance(from);
        if from_balance < amount {
            return Err(Error::InsufficientBalance);
        }
        let new_from_balance = match from_balance.checked_sub(amount) {
            Some(v) => v,
            None => {
                return Err(Error::InsufficientBalance);
            },
        };
        write_balance(&mut self.balances, from, new_from_balance);
        proof {
            lemma_bal_le_sum(self.balances@, to);
        }
        let to_balance = read_balance(&self.balances, to);
        let new_to_balance = match to_balance.checked_add(amount) {
            Some(v) => v,
            None => {
                return Err(Error::InsufficientBalance);
            },
        };
        write_balance(&mut self.balances, to, new_to_balance);
        Ok(())
    }

    /// Destroys `amount` tokens held by `from`.
    ///
    /// The caller must be `from`; the amount must be non-negative and
    /// covered by `from`'s balance. The total supply shrinks by the burnt
    /// amount.
    pub fn burn(&mut self, caller: u64, from: u64, amount: i128) -> (r: Result<(), Error>)
        requires
            old(self).wf(),
        ensures
            final(self).wf(),
            final(self).same_config(old(self)),
            final(self).allowances@ == old(self).allowances@,
            final(self).minters@ == old(self).minters@,
            r == Err::<(), Error>(Error::Unauthorized) <==> caller != from,
            r == Err::<(), Error>(Error::InsufficientBalance) <==> caller == from && !(0 <= amount
                <= old(self).spec_balance(from)),
            r is Ok <==> caller == from && 0 <= amount <= old(self).spec_balance(from),
            r is Ok ==> forall|a: u64|
                final(self).spec_balance(a) == old(self).spec_balance(a) - (if a == from {
                    amount as int
                } else {
                    0
                }),
            r is Ok ==> final(self).total_supply == old(self).total_supply - amount,
            r is Err ==> *final(self) == *old(self),
    {
        if caller != from {
            return Err(Error::Unauthorized);
        }
        if amount < 0 {
            return Err(Error::InsufficientBalance);
        }
        let from_balance = self.balance(from);
        if from_balance < amount {
            return Err(Error::InsufficientBalance);
        }
        proof {
            lemma_bal_le_sum(self.balances@, from);
        }
        let new_balance = match from_balance.checked_sub(amount) {
            Some(v) => v,
            None => {
                return Err(Error::InsufficientBalance);
            },
        };
        write_balance(&mut self.balances, from, new_balance);
        let new_total_supply = match self.total_supply.checked_sub(amount) {
            Some(v) => v,
            None => {
                return Err(Error::InsufficientBalance);
            },
        };
        self.total_supply = new_total_supply;
        Ok(())
    }

    /// Creates `amount` tokens for `to` without an authorization check;
    /// the public entry points check authorization first.
    fn internal_mint(&mut self, to: u64, amount: i128) -> (r: Result<(), Error>)
        requires
            old(self).wf(),
        ensures
            final(self).wf(),
            final(self).same_config(old(self)),
            final(self).allowances@ == old(self).allowances@,
            final(self).minters@ == old(self).minters@,
            r is Ok <==> 0 <= amount && old(self).total_supply + amount <= i128::MAX,
            r == Err::<(), Error>(Error::InsufficientBalance) <==> !(0 <= amount && old(
                self,
            ).total_supply + amount <= i128::MAX),
            r is Ok ==> forall|a: u64|
                final(self).spec_balance(a) == old(self).spec_balance(a) + (if a == to {
                    amount as int
                } else {
                    0
                }),
            r is Ok ==> final(self).total_supply == old(self).total_supply + amount,
            r is Err ==> *final(self) == *old(self),
    {
        if amount < 0 {
            return Err(Error::InsufficientBalance);
        }
        let new_total_supply = match self.total_supply.checked_add(amount) {
            Some(v) => v,
            None => {
                return Err(Error::InsufficientBalance);
            },
        };
        proof {
            lemma_bal_le_sum(self.balances@, to);
        }
        let to_balance = self.balance(to);
        let new_balance = match to_balance.checked_add(amount) {
            Some(v) => v,
            None => {
                return Err(Error::InsufficientBalance);
            },
        };
        write_balance(&mut self.balances, to, new_balance);
        self.total_supply = new_total_supply;
        Ok(())
    }

    /// Creates `amount` tokens for `to`.
    ///
    /// The caller must be the admin; the amount must be non-negative and
    /// the new total supply must still be representable.
    pub fn mint(&mut self, caller: u64, to: u64, amount: i128) -> (r: Result<(), Error>)
        requires
            old(self).wf(),
        ensures
            final(self).wf(),
            final(self).same_config(old(self)),
            final(self).allowances@ == old(self).allowances@,
            final(self).minters@ == old(self).minters@,
            r == Err::<(), Error>(Error::Unauthorized) <==> caller != old(self).admin,
            r == Err::<(), Error>(Error::InsufficientBalance) <==> caller == old(self).admin && !(0
                <= amount && old(self).total_supply + amount <= i128::MAX),
            r is Ok <==> caller == old(self).admin && 0 <= amount && old(self).total_supply + amount
                <= i128::MAX,
            r is Ok ==> forall|a: u64|
                final(self).spec_balance(a) == old(self).spec_balance(a) + (if a == to {
                    amount as int
                } else {
                    0
                }),
            r is Ok ==> final(self).total_supply == old(self).total_supply + amount,
            r is Err ==> *final(self) == *old(self),
    {
        if caller != self.admin {
            return Err(Error::Unauthorized);
        }
        self.internal_mint(to, amount)
    }

    /// Creates `amount` tokens for `to` on behalf of `minter`, an identity
    /// the admin has flagged as an authorized minter.
    ///
    /// `minter` is the authenticated caller; the flag check is the
    /// authorization.
    pub fn mint_by_authorized(&mut self, minter: u64, to: u64, amount: i128) -> (r: Result<
        (),
        Error,
    >)
        requires
            old(self).wf(),
        ensures
            final(self).wf(),
            final(self).same_config(old(self)),
            final(self).allowances@ == old(self).allowances@,
            final(self).minters@ == old(self).minters@,
            r == Err::<(), Error>(Error::Unauthorized) <==> !old(self).spec_is_minter(minter),
            r == Err::<(), Error>(Error::InsufficientBalance) <==> old(self).spec_is_minter(minter)
                && !(0 <= amount && old(self).total_supply + amount <= i128::MAX),
            r is Ok <==> old(self).spec_is_minter(minter) && 0 <= amount && old(self).total_supply
                + amount <= i128::MAX,
            r is Ok ==> forall|a: u64|
                final(self).spec_balance(a) == old(self).spec_balance(a) + (if a == to {
                    amount as int
                } else {
                    0
                }),
            r is Ok ==> final(self).total_supply == old(self).total_supply + amount,
            r is Err ==> *final(self) == *old(self),
    {
        let is_authorized = read_minter(&self.minters, minter);
        if !is_authorized {
            return Err(Error::Unauthorized);
        }
        self.internal_mint(to, amount)
    }

    /// Flags or unflags `minter` as an authorized minter.
    ///
    /// The caller must be the admin.
    pub fn set_authorized_minter(&mut self, caller: u64, minter: u64, authorized: bool) -> (r:
        Result<(), Error>)
        requires
            old(self).wf(),
        ensures
            final(self).wf(),
            final(self).same_config(old(self)),
            final(self).total_supply == old(self).total_supply,
            final(self).balances@ == old(self).balances@,
            final(self).allowances@ == old(self).allowances@,
            r == Err::<(), Error>(Error::Unauthorized) <==> caller != old(self).admin,
            r is Ok <==> caller == old(self).admin,
            r is Ok ==> forall|m: u64| final(self).spec_is_minter(m) == if m == minter {
                authorized
            } else {
                old(self).spec_is_minter(m)
            },
            r is Err ==> *final(self) == *old(self),
    {
        if caller != self.admin {
            return Err(Error::Unauthorized);
        }
        write_minter(&mut self.minters, minter, authorized);
        Ok(())
    }

    /// Sets (overwrites, not adds to) the allowance `owner` grants to
    /// `spender`.
    ///
    /// The caller must be `owner`; the amount must be non-negative.
    pub fn approve(&mut self, caller: u64, owner: u64, spender: u64, amount: i128) -> (r: Result<
        (),
        Error,
    >)
        requires
            old(self).wf(),
        ensures
            final(self).wf(),
            final(self).same_config(old(self)),
            final(self).total_supply == old(self).total_supply,
            final(self).balances@ == old(self).balances@,
            final(self).minters@ == old(self).minters@,
            r == Err::<(), Error>(Error::Unauthorized) <==> caller != owner,
            r == Err::<(), Error>(Error::InsufficientBalance) <==> caller == owner && amount < 0,
            r is Ok <==> caller == owner && 0 <= amount,
            r is Ok ==> forall|o: u64, s: u64|
                final(self).spec_allowance(o, s) == if o == owner && s == spender {
                    amount as int
                } else {
                    old(self).spec_allowance(o, s)
                },
            r is Err ==> *final(self) == *old(self),
    {
        if caller != owner {
            return Err(Error::Unauthorized);
        }
        if amount < 0 {
            return Err(Error::InsufficientBalance);
        }
        write_allowance(&mut self.allowances, owner, spender, amount);
        Ok(())
    }

    /// Destroys `amount` tokens held by `from`, spending the allowance
    /// `from` granted to `spender`.
    ///
    /// The caller must be `spender`; the amount must be non-negative and
    /// covered both by the allowance and by `from`'s balance. The
    /// allowance and the total supply shrink by the burnt amount.
    pub fn burn_from(&mut self, caller: u64, spender: u64, from: u64, amount: i128) -> (r: Result<
        (),
        Error,
    >)
        requires
            old(self).wf(),
        ensures
            final(self).wf(),
            final(self).same_config(old(self)),
            final(self).minters@ == old(self).minters@,
            r == Err::<(), Error>(Error::Unauthorized) <==> caller != spender,
            r == Err::<(), Error>(Error::InsufficientBalance) <==> caller == spender && !(0
                <= amount <= old(self).spec_allowance(from, spender) && amount <= old(
                self,
            ).spec_balance(from)),
            r is Ok <==> caller == spender && 0 <= amount <= old(self).spec_allowance(from, spender)
                && amount <= old(self).spec_balance(from),
            r is Ok ==> forall|a: u64|
                final(self).spec_balance(a) == old(self).spec_balance(a) - (if a == from {
                    amount as int
                } else {
                    0
                }),
            r is Ok ==> final(self).total_supply == old(self).total_supply - amount,
            r is Ok ==> forall|o: u64, s: u64|
                final(self).spec_allowance(o, s) == old(self).spec_allowance(o, s) - (if o == from
                    && s == spender {
                    amount as int
                } else {
                    0
                }),
            r is Err ==> *final(self) == *old(self),
    {
        if caller != spender {
            return Err(Error::Unauthorized);
        }
        if amount < 0 {
            return Err(Error::InsufficientBalance);
        }
        let granted = self.allowance(from, spender);
        if granted < amount {
            return Err(Error::InsufficientBalance);
        }
        let from_balance = self.balance(from);
        if from_balance < amount {
            return Err(Error::InsufficientBalance);
        }
        proof {
            lemma_bal_le_sum(self.balances@, from);
        }
        let new_balance = match from_balance.checked_sub(amount) {
            Some(v) => v,
            None => {
                return Err(Error::InsufficientBalance);
            },
        };
        write_balance(&mut self.balances, from, new_balance);
        let new_total_supply = match self.total_supply.checked_sub(amount) {
            Some(v) => v,
            None => {
                return Err(Error::InsufficientBalance);
            },
        };
        self.total_supply = new_total_supply;
        let new_allowance = match granted.checked_sub(amount) {
            Some(v) => v,
            None => {
                return Err(Error::InsufficientBalance);
            },
        };
        write_allowance(&mut self.allowances, from, spender, new_allowance);
        Ok(())
    }
}

/// Conservation: in every well-formed ledger the balances sum to exactly
/// the recorded total supply. Each operation above returns a well-formed
/// ledger, so the equality holds after every operation.
pub proof fn lemma_conservation(t: &TurToken)
    requires
        t.wf(),
    ensures
        sum_of(t.balances@) == t.total_supply as int,
{
}

} // verus!
