//! The system pallet: the block counter and the per-account nonces.

use crate::numeric::Counter;
use crate::storage::{Key, StorageMap};
use crate::support::stored_or_zero;
use vstd::prelude::*;

verus! {

/// The types that every pallet of a runtime agrees on.
pub trait Config {
    /// Who owns state and authors extrinsics.
    type AccountId: Key;

    /// Counts the extrinsics that an account has authored.
    type Nonce: Counter;

    /// Counts the blocks that were executed.
    type BlockNumber: Counter;
}

/// The identity of an account: the view of its `AccountId`.
pub type Account<T> = <<T as Config>::AccountId as View>::V;

/// The nonces after `who` has authored one more extrinsic.
pub open spec fn inc_nonce_spec<Id>(nonces: Map<Id, nat>, who: Id) -> Map<Id, nat> {
    nonces.insert(who, stored_or_zero(nonces, who) + 1)
}

/// The nonces after `who` has authored `times` more extrinsics.
pub open spec fn inc_nonce_times<Id>(nonces: Map<Id, nat>, who: Id, times: nat) -> Map<Id, nat>
    decreases times,
{
    if times == 0 {
        nonces
    } else {
        inc_nonce_spec(inc_nonce_times(nonces, who, (times - 1) as nat), who)
    }
}

/// A nonce counts increments: after `times` of them the nonce of `who` is
/// what it was plus `times`, from zero for an account never seen before,
/// and the nonce of any `other` account is what it was.
pub proof fn lemma_nonce_counts_increments<Id>(
    nonces: Map<Id, nat>,
    who: Id,
    times: nat,
    other: Id,
)
    ensures
        stored_or_zero(inc_nonce_times(nonces, who, times), who) == stored_or_zero(nonces, who)
            + times,
        !nonces.contains_key(who) ==> stored_or_zero(inc_nonce_times(nonces, who, times), who)
            == times,
        other != who ==> stored_or_zero(inc_nonce_times(nonces, who, times), other)
            == stored_or_zero(nonces, other),
    decreases times,
{
    if times > 0 {
        lemma_nonce_counts_increments(nonces, who, (times - 1) as nat, other);
    }
}

/// The block counter and the nonces.
#[derive(Debug)]
pub struct Pallet<T: Config> {
    block_number: T::BlockNumber,
    nonce: StorageMap<T::AccountId, T::Nonce>,
}

impl<T: Config> Pallet<T> {
    /// The number of blocks executed so far.
    pub closed spec fn height(&self) -> nat {
        self.block_number.value()
    }

    /// The nonce of each account that has one.
    pub closed spec fn nonces(&self) -> Map<Account<T>, nat> {
        self.nonce@.map_values(|n: T::Nonce| n.value())
    }

    /// The nonce of `who`: zero until its first extrinsic.
    pub open spec fn nonce_of(&self, who: Account<T>) -> nat {
        stored_or_zero(self.nonces(), who)
    }

    /// No counter of the pallet lies above the limit of its type.
    pub proof fn lemma_within_limits(&self)
        ensures
            self.height() <= T::BlockNumber::limit(),
            forall|who: Account<T>| #[trigger] self.nonce_of(who) <= T::Nonce::limit(),
    {
        self.block_number.lemma_within_limit();
        assert forall|who: Account<T>| #[trigger] self.nonce_of(who) <= T::Nonce::limit() by {
            if self.nonce@.contains_key(who) {
                self.nonce@[who].lemma_within_limit();
            }
        }
    }

    /// A pallet at block zero, with no nonce stored.
    pub fn new() -> (r: Self)
        ensures
            r.height() == 0,
            r.nonces() == Map::<Account<T>, nat>::empty(),
            forall|who: Account<T>| r.nonce_of(who) == 0,
    {
        let r = Pallet { block_number: T::BlockNumber::zero(), nonce: StorageMap::new() };
        assert(r.nonces() =~= Map::<Account<T>, nat>::empty());
        r
    }

    /// The current block number.
    pub fn block_number(&self) -> (r: T::BlockNumber)
        ensures
            r.value() == self.height(),
    {
        self.block_number
    }

    /// The nonce stored for `who`, if one is.
    pub fn get_nonce(&self, who: &T::AccountId) -> (r: Option<T::Nonce>)
        ensures
            match r {
                Some(n) => self.nonces().contains_key(who@) && n.value() == self.nonces()[who@],
                None => !self.nonces().contains_key(who@),
            },
    {
        match self.nonce.get(who) {
            Some(n) => Some(*n),
            None => None,
        }
    }

    /// The nonce of `who`, zero where none is stored.
    pub fn nonce(&self, who: &T::AccountId) -> (r: T::Nonce)
        ensures
            r.value() == self.nonce_of(who@),
    {
        match self.nonce.get(who) {
            Some(n) => *n,
            None => T::Nonce::zero(),
        }
    }

    /// Advances the block counter by one.
    pub fn inc_block_number(&mut self)
        requires
            old(self).height() < T::BlockNumber::limit(),
        ensures
            final(self).height() == old(self).height() + 1,
            final(self).nonces() == old(self).nonces(),
    {
        self.block_number = self.block_number.plus(T::BlockNumber::one());
    }

    /// Advances the nonce of `who` by one, from zero where none is stored.
    pub fn inc_nonce(&mut self, who: T::AccountId)
        requires
            old(self).nonce_of(who@) < T::Nonce::limit(),
        ensures
            final(self).nonces() == inc_nonce_spec(old(self).nonces(), who@),
            final(self).nonce_of(who@) == old(self).nonce_of(who@) + 1,
            final(self).height() == old(self).height(),
    {
        let nonce: T::Nonce = self.nonce(&who);
        let new_nonce: T::Nonce = nonce.plus(T::Nonce::one());
        self.nonce.insert(who, new_nonce);
        assert(self.nonces() =~= inc_nonce_spec(old(self).nonces(), who@));
    }
}

} // verus!
