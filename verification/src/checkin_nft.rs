//! The soulbound check-in registry: at most one record is ever minted per
//! (user, place) pair, records are immutable once created, every transfer
//! attempt is rejected, and a successful mint pays a fixed reward to the
//! user through the token ledger.
//!
//! The registry is an explicit state value. Record ids are assigned from
//! a strictly increasing counter starting at 1, so the record with id `n`
//! is the `n`-th record ever minted and the records form a dense vector.

use vstd::prelude::*;

use crate::tur_token::TurToken;

verus! {

/// The fixed reward, in base token units, paid out for each successful
/// check-in (1000 tokens at 7 decimal places).
pub const CHECKIN_REWARD: i128 = 1000_0000000;

/// Errors returned by the check-in registry.
#[derive(Clone, Copy, Debug, PartialEq, Eq)]
pub enum Error {
    /// A record for this (user, place) pair already exists.
    AlreadyCheckedIn,
    /// The place identifier is the reserved zero value.
    InvalidPlaceId,
    /// Records are soulbound; every transfer attempt fails with this.
    NFTNotTransferable,
    /// No record exists under the looked-up id.
    TokenNotFound,
    /// The caller does not hold the required authorization, or the
    /// reward payout was refused by the token ledger.
    Unauthorized,
}

/// One check-in record: a proof of visit permanently bound to its owner.
#[derive(Debug)]
pub struct CheckinNFT {
    /// The record's id; ids start at 1 and are assigned in order.
    pub token_id: u64,
    /// The visited place; zero is reserved and never recorded.
    pub place_id: u32,
    /// Human-readable place name.
    pub place_name: String,
    /// Latitude scaled by one million, to avoid fractional values.
    pub latitude: i64,
    /// Longitude scaled by one million, to avoid fractional values.
    pub longitude: i64,
    /// The host-supplied time of the check-in.
    pub check_in_timestamp: u64,
    /// The user the record is bound to; fixed at mint time.
    pub owner: u64,
    /// Reference to the record's image.
    pub image_url: String,
}

/// The mathematical value of a [`CheckinNFT`]: the same fields with the
/// strings abstracted to character sequences.
pub ghost struct CheckinNFTView {
    pub token_id: u64,
    pub place_id: u32,
    pub place_name: Seq<char>,
    pub latitude: i64,
    pub longitude: i64,
    pub check_in_timestamp: u64,
    pub owner: u64,
    pub image_url: Seq<char>,
}

impl View for CheckinNFT {
    type V = CheckinNFTView;

    open spec fn view(&self) -> CheckinNFTView {
        CheckinNFTView {
            token_id: self.token_id,
            place_id: self.place_id,
            place_name: self.place_name@,
            latitude: self.latitude,
            longitude: self.longitude,
            check_in_timestamp: self.check_in_timestamp,
            owner: self.owner,
            image_url: self.image_url@,
        }
    }
}

impl CheckinNFT {
    /// A field-for-field copy of the record.
    fn duplicate(&self) -> (r: CheckinNFT)
        ensures
            r@ == self@,
    {
        CheckinNFT {
            token_id: self.token_id,
            place_id: self.place_id,
            place_name: self.place_name.clone(),
            latitude: self.latitude,
            longitude: self.longitude,
            check_in_timestamp: self.check_in_timestamp,
            owner: self.owner,
            image_url: self.image_url.clone(),
        }
    }
}

/// The views of the records in `s` owned by `owner`, in mint order.
pub open spec fn owned_views(s: Seq<CheckinNFT>, owner: u64) -> Seq<CheckinNFTView>
    decreases s.len(),
{
    if s.len() == 0 {
        Seq::empty()
    } else if s.last().owner == owner {
        owned_views(s.drop_last(), owner).push(s.last()@)
    } else {
        owned_views(s.drop_last(), owner)
    }
}

/// The check-in registry state.
pub struct CheckinNFTContract {
    /// This registry's own identity: the minter identity it presents to
    /// the token ledger when paying out rewards.
    pub registry: u64,
    /// The admin identity fixed at initialization.
    pub admin: u64,
    /// The identity of the reward-token ledger contract (configuration;
    /// the ledger itself is passed into [`Self::mint`]).
    pub tur_token_contract: u64,
    /// The id the next minted record will receive; always one more than
    /// the number of records minted so far.
    pub next_token_id: u64,
    /// All records ever minted, in mint order; the record with id `n`
    /// sits at index `n - 1`.
    pub nfts: Vec<CheckinNFT>,
}

impl CheckinNFTContract {
    /// Whether a record exists for the pair (`user`, `place_id`).
    pub open spec fn spec_has_checked_in(&self, user: u64, place_id: u32) -> bool {
        exists|i: int|
            0 <= i < self.nfts@.len() && (#[trigger] self.nfts@[i]).owner == user
                && self.nfts@[i].place_id == place_id
    }

    /// Well-formedness: ids are dense starting at 1, the counter sits one
    /// past the last id, no place id is zero, and no two records share a
    /// (user, place) pair.
    pub open spec fn wf(&self) -> bool {
        &&& self.next_token_id == self.nfts@.len() + 1
        &&& forall|i: int|
            0 <= i < self.nfts@.len() ==> (#[trigger] self.nfts@[i]).token_id == i + 1
        &&& forall|i: int| 0 <= i < self.nfts@.len() ==> (#[trigger] self.nfts@[i]).place_id != 0
        &&& forall|i: int, j: int|
            0 <= i < j < self.nfts@.len() ==> !((#[trigger] self.nfts@[i]).owner == (
            #[trigger] self.nfts@[j]).owner && self.nfts@[i].place_id == self.nfts@[j].place_id)
    }

    /// Creates an empty registry.
    ///
    /// `registry` is this registry's own identity; the admin is expected
    /// to flag it as an authorized minter on the reward-token ledger so
    /// that check-ins can pay out.
    pub fn initialize(registry: u64, admin: u64, tur_token_contract: u64) -> (c:
        CheckinNFTContract)
        ensures
            c.wf(),
            c.registry == registry,
            c.admin == admin,
            c.tur_token_contract == tur_token_contract,
            c.next_token_id == 1,
            c.nfts@.len() == 0,
    {
        CheckinNFTContract { registry, admin, tur_token_contract, next_token_id: 1, nfts: Vec::new() }
    }

    /// Mints a check-in record for `to` at `place_id` and pays the fixed
    /// reward to `to` through `token`.
    ///
    /// The caller must be `to`; the place id must not be zero; the pair
    /// (`to`, `place_id`) must not have been recorded before; and the
    /// registry must be an authorized minter on `token`, else the refused
    /// payout surfaces as `Unauthorized`. On any failure neither the
    /// registry nor the token ledger changes.
    pub fn mint(
        &mut self,
        token: &mut TurToken,
        caller: u64,
        to: u64,
        place_id: u32,
        place_name: String,
        latitude: i64,
        longitude: i64,
        image_url: String,
        timestamp: u64,
    ) -> (r: Result<u64, Error>)
        requires
            old(self).wf(),
            old(token).wf(),
            old(self).next_token_id < u64::MAX,
            old(token).total_supply + CHECKIN_REWARD <= i128::MAX,
        ensures
            final(self).wf(),
            final(token).wf(),
            r == Err::<u64, Error>(Error::InvalidPlaceId) <==> caller == to && place_id == 0,
            r == Err::<u64, Error>(Error::AlreadyCheckedIn) <==> caller == to && place_id != 0
                && old(self).spec_has_checked_in(to, place_id),
            r == Err::<u64, Error>(Error::Unauthorized) <==> caller != to || (place_id != 0 && !old(
                self,
            ).spec_has_checked_in(to, place_id) && !old(token).spec_is_minter(old(self).registry)),
            r is Ok <==> caller == to && place_id != 0 && !old(self).spec_has_checked_in(
                to,
                place_id,
            ) && old(token).spec_is_minter(old(self).registry),
            r is Ok ==> r == Ok::<u64, Error>(old(self).next_token_id),
            r is Ok ==> final(self).next_token_id == old(self).next_token_id + 1,
            r is Ok ==> final(self).nfts@.len() == old(self).nfts@.len() + 1,
            r is Ok ==> forall|i: int|
                0 <= i < old(self).nfts@.len() ==> final(self).nfts@[i] == old(self).nfts@[i],
            r is Ok ==> final(self).nfts@.last()@ == (CheckinNFTView {
                token_id: old(self).next_token_id,
                place_id,
                place_name: place_name@,
                latitude,
                longitude,
                check_in_timestamp: timestamp,
                owner: to,
                image_url: image_url@,
            }),
            r is Ok ==> forall|u: u64, p: u32|
                final(self).spec_has_checked_in(u, p) <==> (old(self).spec_has_checked_in(u, p) || (
                u == to && p == place_id)),
            r is Ok ==> forall|a: u64|
                final(token).spec_balance(a) == old(token).spec_balance(a) + (if a == to {
                    CHECKIN_REWARD as int
                } else {
                    0
                }),
            r is Ok ==> final(token).total_supply == old(token).total_supply + CHECKIN_REWARD,
            final(token).same_config(old(token)),
            final(token).allowances@ == old(token).allowances@,
            final(token).minters@ == old(token).minters@,
            final(self).registry == old(self).registry,
            final(self).admin == old(self).admin,
            final(self).tur_token_contract == old(self).tur_token_contract,
            r is Err ==> *final(self) == *old(self) && *final(token) == *old(token),
    {
        if caller != to {
            return Err(Error::Unauthorized);
        }
        if place_id == 0 {
            return Err(Error::InvalidPlaceId);
        }
        if self.has_checked_in(to, place_id) {
            return Err(Error::AlreadyCheckedIn);
        }
        match token.mint_by_authorized(self.registry, to, CHECKIN_REWARD) {
            Ok(()) => {},
            Err(_) => {
                return Err(Error::Unauthorized);
            },
        }
        let token_id: u64 = self.next_token_id;
        let nft = CheckinNFT {
            token_id,
            place_id,
            place_name,
            latitude,
            longitude,
            check_in_timestamp: timestamp,
            owner: to,
            image_url,
        };
        self.nfts.push(nft);
        self.next_token_id = token_id + 1;
        proof {
            let new_nfts = self.nfts@;
            let old_nfts = old(self).nfts@;
            assert forall|u: u64, p: u32|
                self.spec_has_checked_in(u, p) <==> (old(self).spec_has_checked_in(u, p) || (u == to
                    && p == place_id)) by {
                if self.spec_has_checked_in(u, p) {
                    let i = choose|i: int|
                        0 <= i < new_nfts.len() && (#[trigger] new_nfts[i]).owner == u
                            && new_nfts[i].place_id == p;
                    if i < old_nfts.len() {
                        assert(old_nfts[i] == new_nfts[i]);
                    }
                }
                if old(self).spec_has_checked_in(u, p) {
                    let i = choose|i: int|
                        0 <= i < old_nfts.len() && (#[trigger] old_nfts[i]).owner == u
                            && old_nfts[i].place_id == p;
                    assert(new_nfts[i] == old_nfts[i]);
                }
                if u == to && p == place_id {
                    assert(new_nfts[old_nfts.len() as int].owner == to);
                }
            }
        }
        Ok(token_id)
    }

    /// The record stored under `token_id`.
    pub fn get_nft(&self, token_id: u64) -> (r: Result<CheckinNFT, Error>)
        requires
            self.wf(),
        ensures
            1 <= token_id <= self.nfts@.len() ==> r is Ok && r->Ok_0@ == self.nfts@[token_id
                - 1]@,
            !(1 <= token_id <= self.nfts@.len()) ==> r == Err::<CheckinNFT, Error>(
                Error::TokenNotFound,
            ),
    {
        if token_id >= 1 && token_id <= self.nfts.len() as u64 {
            let i: usize = (token_id - 1) as usize;
            Ok(self.nfts[i].duplicate())
        } else {
            Err(Error::TokenNotFound)
        }
    }

    /// All records owned by `owner`, in mint order.
    pub fn get_user_nfts(&self, owner: u64) -> (r: Vec<CheckinNFT>)
        ensures
            r@.len() == owned_views(self.nfts@, owner).len(),
            forall|j: int|
                0 <= j < r@.len() ==> (#[trigger] r@[j])@ == owned_views(self.nfts@, owner)[j],
    {
        let mut result: Vec<CheckinNFT> = Vec::new();
        let n: usize = self.nfts.len();
        let mut k: usize = 0;
        while k < n
            invariant
                k <= n,
                n == self.nfts@.len(),
                result@.len() == owned_views(self.nfts@.subrange(0, k as int), owner).len(),
                forall|j: int|
                    0 <= j < result@.len() ==> (#[trigger] result@[j])@ == owned_views(
                        self.nfts@.subrange(0, k as int),
                        owner,
                    )[j],
            decreases n - k,
        {
            if self.nfts[k].owner == owner {
                result.push(self.nfts[k].duplicate());
            }
            proof {
                assert(self.nfts@.subrange(0, k + 1).drop_last() =~= self.nfts@.subrange(
                    0,
                    k as int,
                ));
                assert(self.nfts@.subrange(0, k + 1).last() == self.nfts@[k as int]);
            }
            k = k + 1;
        }
        proof {
            assert(self.nfts@.subrange(0, n as int) =~= self.nfts@);
        }
        result
    }

    /// Whether `user` has checked in at `place_id`.
    pub fn has_checked_in(&self, user: u64, place_id: u32) -> (r: bool)
        ensures
            r == self.spec_has_checked_in(user, place_id),
    {
        let n: usize = self.nfts.len();
        let mut k: usize = 0;
        while k < n
            invariant
                k <= n,
                n == self.nfts@.len(),
                forall|j: int|
                    0 <= j < k ==> !((#[trigger] self.nfts@[j]).owner == user
                        && self.nfts@[j].place_id == place_id),
            decreases n - k,
        {
            if self.nfts[k].owner == user && self.nfts[k].place_id == place_id {
                return true;
            }
            k = k + 1;
        }
        false
    }

    /// The id of the record `user` minted at `place_id`, when one exists.
    pub fn get_checkin_token_id(&self, user: u64, place_id: u32) -> (r: Option<u64>)
        requires
            self.wf(),
        ensures
            match r {
                Some(id) => 1 <= id <= self.nfts@.len() && self.nfts@[id - 1].owner == user
                    && self.nfts@[id - 1].place_id == place_id,
                None => !self.spec_has_checked_in(user, place_id),
            },
    {
        let n: usize = self.nfts.len();
        let mut k: usize = 0;
        while k < n
            invariant
                k <= n,
                n == self.nfts@.len(),
                self.wf(),
                forall|j: int|
                    0 <= j < k ==> !((#[trigger] self.nfts@[j]).owner == user
                        && self.nfts@[j].place_id == place_id),
            decreases n - k,
        {
            if self.nfts[k].owner == user && self.nfts[k].place_id == place_id {
                return Some(self.nfts[k].token_id);
            }
            k = k + 1;
        }
        None
    }

    /// Transfers are rejected unconditionally: records are soulbound, and
    /// no caller — the owner included — can move one.
    pub fn transfer(&self, _from: u64, _to: u64, _token_id: u64) -> (r: Result<(), Error>)
        ensures
            r == Err::<(), Error>(Error::NFTNotTransferable),
    {
        Err(Error::NFTNotTransferable)
    }

    /// The number of records minted so far.
    pub fn total_supply(&self) -> (r: u64)
        requires
            self.wf(),
        ensures
            r == self.nfts@.len(),
    {
        self.next_token_id - 1
    }
}

} // verus!
