//! Purchase settlement: a payment is split into a one-percent platform
//! fee (rounded down) and a merchant payout, moved from the buyer through
//! the payment-token ledger; a discounted purchase additionally burns
//! reward tokens from the buyer through an allowance the buyer granted to
//! the marketplace beforehand.
//!
//! A settlement is atomic: the needed balances and allowance are checked
//! before any ledger is touched, so a settlement either completes in full
//! or leaves every ledger untouched.

use vstd::prelude::*;

use vstd::arithmetic::div_mod::lemma_div_basics_4;
use vstd::arithmetic::div_mod::lemma_div_basics_5;

use crate::tur_token::TurToken;

verus! {

/// Errors returned by the marketplace.
#[derive(Clone, Copy, Debug, PartialEq, Eq)]
pub enum Error {
    /// A payment or discount amount was zero or negative.
    InsufficientFunds,
    /// Settlement-specific merchant validation failed.
    InvalidMerchant,
    /// A nested ledger operation was refused: the buyer's balance or
    /// pre-granted allowance does not cover the settlement.
    TransferFailed,
    /// The caller does not hold the required authorization.
    Unauthorized,
    /// Checked arithmetic would wrap.
    Overflow,
}

/// The platform's share of a payment: one percent, rounded down.
pub open spec fn platform_fee_of(total: int) -> int {
    total / 100
}

/// The merchant's share of a payment: the remainder after the fee.
pub open spec fn merchant_amount_of(total: int) -> int {
    total - total / 100
}

/// Fee-split exactness: the fee and the merchant amount partition the
/// payment, and each share stays within it.
pub proof fn lemma_fee_split(total: int)
    requires
        total > 0,
    ensures
        platform_fee_of(total) + merchant_amount_of(total) == total,
        0 <= platform_fee_of(total) <= total,
        0 <= merchant_amount_of(total) <= total,
{
    lemma_div_basics_4(total, 100);
    lemma_div_basics_5(total, 100);
}

/// The marketplace settlement state.
pub struct Marketplace {
    /// This marketplace's own identity: the spender identity it presents
    /// to the reward-token ledger when burning a discount.
    pub marketplace: u64,
    /// The admin identity fixed at initialization.
    pub admin: u64,
    /// The address receiving the platform fee.
    pub platform_address: u64,
    /// The identity of the reward-token ledger contract (configuration;
    /// the ledger itself is passed into the purchase operations).
    pub tur_token_contract: u64,
    /// The identity of the payment-token ledger contract (configuration).
    pub xlm_token_contract: u64,
}

impl Marketplace {
    /// Creates the marketplace.
    ///
    /// `marketplace` is this marketplace's own identity: the identity a
    /// buyer must approve on the reward-token ledger before a discounted
    /// purchase.
    pub fn initialize(
        marketplace: u64,
        admin: u64,
        platform_address: u64,
        tur_token_contract: u64,
        xlm_token_contract: u64,
    ) -> (m: Marketplace)
        ensures
            m.marketplace == marketplace,
            m.admin == admin,
            m.platform_address == platform_address,
            m.tur_token_contract == tur_token_contract,
            m.xlm_token_contract == xlm_token_contract,
    {
        Marketplace { marketplace, admin, platform_address, tur_token_contract, xlm_token_contract }
    }

    /// Settles a purchase paid entirely in the payment token: moves the
    /// one-percent platform fee from `buyer` to the platform address,
    /// then the remainder to `merchant`.
    ///
    /// The caller must be `buyer`; the amount must be positive and
    /// covered by the buyer's balance. On any failure the ledger is left
    /// untouched.
    pub fn purchase_with_xlm(
        &self,
        xlm: &mut TurToken,
        caller: u64,
        buyer: u64,
        merchant: u64,
        total_amount_xlm: i128,
    ) -> (r: Result<(), Error>)
        requires
            old(xlm).wf(),
        ensures
            final(xlm).wf(),
            final(xlm).same_config(old(xlm)),
            final(xlm).total_supply == old(xlm).total_supply,
            final(xlm).allowances@ == old(xlm).allowances@,
            final(xlm).minters@ == old(xlm).minters@,
            r == Err::<(), Error>(Error::Unauthorized) <==> caller != buyer,
            r == Err::<(), Error>(Error::InsufficientFunds) <==> caller == buyer
                && total_amount_xlm <= 0,
            r == Err::<(), Error>(Error::TransferFailed) <==> caller == buyer && total_amount_xlm
                > 0 && old(xlm).spec_balance(buyer) < total_amount_xlm,
            r is Ok <==> caller == buyer && total_amount_xlm > 0 && old(xlm).spec_balance(buyer)
                >= total_amount_xlm,
            r is Ok ==> forall|a: u64|
                final(xlm).spec_balance(a) == old(xlm).spec_balance(a) - (if a == buyer {
                    total_amount_xlm as int
                } else {
                    0
                }) + (if a == self.platform_address {
                    platform_fee_of(total_amount_xlm as int)
                } else {
                    0
                }) + (if a == merchant {
                    merchant_amount_of(total_amount_xlm as int)
                } else {
                    0
                }),
            r is Err ==> *final(xlm) == *old(xlm),
    {
        if caller != buyer {
            return Err(Error::Unauthorized);
        }
        if total_amount_xlm <= 0 {
            return Err(Error::InsufficientFunds);
        }
        proof {
            lemma_fee_split(total_amount_xlm as int);
        }
        let platform_fee = match total_amount_xlm.checked_div(100) {
            Some(v) => v,
            None => {
                return Err(Error::Overflow);
            },
        };
        let merchant_amount = match total_amount_xlm.checked_sub(platform_fee) {
            Some(v) => v,
            None => {
                return Err(Error::Overflow);
            },
        };
        let buyer_balance = xlm.balance(buyer);
        if buyer_balance < total_amount_xlm {
            return Err(Error::TransferFailed);
        }
        match xlm.transfer(buyer, buyer, self.platform_address, platform_fee) {
            Ok(()) => {},
            Err(_) => {
                return Err(Error::TransferFailed);
            },
        }
        let ghost after_fee = *xlm;
        match xlm.transfer(buyer, buyer, merchant, merchant_amount) {
            Ok(()) => {},
            Err(_) => {
                return Err(Error::TransferFailed);
            },
        }
        proof {
            assert forall|a: u64|
                xlm.spec_balance(a) == old(xlm).spec_balance(a) - (if a == buyer {
                    total_amount_xlm as int
                } else {
                    0
                }) + (if a == self.platform_address {
                    platform_fee_of(total_amount_xlm as int)
                } else {
                    0
                }) + (if a == merchant {
                    merchant_amount_of(total_amount_xlm as int)
                } else {
                    0
                }) by {
                assert(after_fee.spec_balance(a) == old(xlm).spec_balance(a) + (if a
                    == self.platform_address {
                    platform_fee as int
                } else {
                    0
                }) - (if a == buyer {
                    platform_fee as int
                } else {
                    0
                }));
                assert(xlm.spec_balance(a) == after_fee.spec_balance(a) + (if a == merchant {
                    merchant_amount as int
                } else {
                    0
                }) - (if a == buyer {
                    merchant_amount as int
                } else {
                    0
                }));
            }
        }
        Ok(())
    }

    /// Settles a purchase paid in the payment token with a reward-token
    /// discount: moves the fee and the merchant payout as
    /// [`Self::purchase_with_xlm`] does, then burns `amount_tur` reward
    /// tokens from `buyer` through the allowance the buyer granted to
    /// this marketplace.
    ///
    /// The caller must be `buyer`; both amounts must be positive; the
    /// payment must be covered by the buyer's payment-token balance, and
    /// the discount both by the buyer's pre-granted allowance and by the
    /// buyer's reward-token balance. On any failure neither ledger
    /// changes.
    pub fn purchase_with_discount(
        &self,
        xlm: &mut TurToken,
        tur: &mut TurToken,
        caller: u64,
        buyer: u64,
        merchant: u64,
        total_amount_xlm: i128,
        amount_tur: i128,
    ) -> (r: Result<(), Error>)
        requires
            old(xlm).wf(),
            old(tur).wf(),
        ensures
            final(xlm).wf(),
            final(tur).wf(),
            final(xlm).same_config(old(xlm)),
            final(xlm).total_supply == old(xlm).total_supply,
            final(xlm).allowances@ == old(xlm).allowances@,
            final(xlm).minters@ == old(xlm).minters@,
            final(tur).same_config(old(tur)),
            final(tur).minters@ == old(tur).minters@,
            r == Err::<(), Error>(Error::Unauthorized) <==> caller != buyer,
            r == Err::<(), Error>(Error::InsufficientFunds) <==> caller == buyer && (
            total_amount_xlm <= 0 || amount_tur <= 0),
            r == Err::<(), Error>(Error::TransferFailed) <==> caller == buyer && total_amount_xlm
                > 0 && amount_tur > 0 && (old(xlm).spec_balance(buyer) < total_amount_xlm || old(
                tur,
            ).spec_allowance(buyer, self.marketplace) < amount_tur || old(tur).spec_balance(buyer)
                < amount_tur),
            r is Ok <==> caller == buyer && total_amount_xlm > 0 && amount_tur > 0 && old(
                xlm,
            ).spec_balance(buyer) >= total_amount_xlm && old(tur).spec_allowance(
                buyer,
                self.marketplace,
            ) >= amount_tur && old(tur).spec_balance(buyer) >= amount_tur,
            r is Ok ==> forall|a: u64|
                final(xlm).spec_balance(a) == old(xlm).spec_balance(a) - (if a == buyer {
                    total_amount_xlm as int
                } else {
                    0
                }) + (if a == self.platform_address {
                    platform_fee_of(total_amount_xlm as int)
                } else {
                    0
                }) + (if a == merchant {
                    merchant_amount_of(total_amount_xlm as int)
                } else {
                    0
                }),
            r is Ok ==> forall|a: u64|
                final(tur).spec_balance(a) == old(tur).spec_balance(a) - (if a == buyer {
                    amount_tur as int
                } else {
                    0
                }),
            r is Ok ==> final(tur).total_supply == old(tur).total_supply - amount_tur,
            r is Ok ==> forall|o: u64, s: u64|
                final(tur).spec_allowance(o, s) == old(tur).spec_allowance(o, s) - (if o == buyer
                    && s == self.marketplace {
                    amount_tur as int
                } else {
                    0
                }),
            r is Err ==> *final(xlm) == *old(xlm) && *final(tur) == *old(tur),
    {
        if caller != buyer {
            return Err(Error::Unauthorized);
        }
        if total_amount_xlm <= 0 || amount_tur <= 0 {
            return Err(Error::InsufficientFunds);
        }
        proof {
            lemma_fee_split(total_amount_xlm as int);
        }
        let platform_fee = match total_amount_xlm.checked_div(100) {
            Some(v) => v,
            None => {
                return Err(Error::Overflow);
            },
        };
        let merchant_amount = match total_amount_xlm.checked_sub(platform_fee) {
            Some(v) => v,
            None => {
                return Err(Error::Overflow);
            },
        };
        let buyer_balance = xlm.balance(buyer);
        if buyer_balance < total_amount_xlm {
            return Err(Error::TransferFailed);
        }
        let granted = tur.allowance(buyer, self.marketplace);
        if granted < amount_tur {
            return Err(Error::TransferFailed);
        }
        let buyer_tur_balance = tur.balance(buyer);
        if buyer_tur_balance < amount_tur {
            return Err(Error::TransferFailed);
        }
        match xlm.transfer(buyer, buyer, self.platform_address, platform_fee) {
            Ok(()) => {},
            Err(_) => {
                return Err(Error::TransferFailed);
            },
        }
        let ghost after_fee = *xlm;
        match xlm.transfer(buyer, buyer, merchant, merchant_amount) {
            Ok(()) => {},
            Err(_) => {
                return Err(Error::TransferFailed);
            },
        }
        match tur.burn_from(self.marketplace, self.marketplace, buyer, amount_tur) {
            Ok(()) => {},
            Err(_) => {
                return Err(Error::TransferFailed);
            },
        }
        proof {
            assert forall|a: u64|
                xlm.spec_balance(a) == old(xlm).spec_balance(a) - (if a == buyer {
                    total_amount_xlm as int
                } else {
                    0
                }) + (if a == self.platform_address {
                    platform_fee_of(total_amount_xlm as int)
                } else {
                    0
                }) + (if a == merchant {
                    merchant_amount_of(total_amount_xlm as int)
                } else {
                    0
                }) by {
                assert(after_fee.spec_balance(a) == old(xlm).spec_balance(a) + (if a
                    == self.platform_address {
                    platform_fee as int
                } else {
                    0
                }) - (if a == buyer {
                    platform_fee as int
                } else {
                    0
                }));
                assert(xlm.spec_balance(a) == after_fee.spec_balance(a) + (if a == merchant {
                    merchant_amount as int
                } else {
                    0
                }) - (if a == buyer {
                    merchant_amount as int
                } else {
                    0
                }));
            }
        }
        Ok(())
    }

    /// The number of settled purchases. No counter is maintained in this
    /// state; the statistic is always zero.
    pub fn get_purchase_count(&self) -> (r: u64)
        ensures
            r == 0,
    {
        0
    }
}

} // verus!
