//! The proof-of-existence pallet: a registry of who claimed which content.
//!
//! A piece of content has at most one owner. Whoever claims it first owns
//! it until they revoke the claim.

use crate::storage::{Key, StorageMap};
use crate::support::{outcome, Dispatch, DispatchResult};
use crate::system::Account;
use vstd::prelude::*;

verus! {

/// The reason given where the content already has an owner.
pub const ALREADY_CLAIMED: &'static str = "this content is already claimed";

/// The reason given where nobody has claimed the content.
pub const NOT_FOUND: &'static str = "claim does not exist";

/// The reason given where the content belongs to another account.
pub const NOT_OWNER: &'static str = "this content is owned by someone else";

/// What the pallet needs beyond the system's types.
pub trait Config: crate::system::Config {
    /// What can be claimed.
    type Content: Key;
}

/// The identity of a piece of content: the view of its `Content`.
pub type ContentId<T> = <<T as Config>::Content as View>::V;

/// The registry after `caller` claims `claim`, or the reason for which the
/// claim is refused.
pub open spec fn create_claim_spec<C, Id>(claims: Map<C, Id>, caller: Id, claim: C) -> Result<
    Map<C, Id>,
    Seq<char>,
> {
    if claims.contains_key(claim) {
        Err(ALREADY_CLAIMED@)
    } else {
        Ok(claims.insert(claim, caller))
    }
}

/// The registry after `caller` revokes `claim`, or the reason for which the
/// revocation is refused.
pub open spec fn revoke_claim_spec<C, Id>(claims: Map<C, Id>, caller: Id, claim: C) -> Result<
    Map<C, Id>,
    Seq<char>,
> {
    if !claims.contains_key(claim) {
        Err(NOT_FOUND@)
    } else if claims[claim] != caller {
        Err(NOT_OWNER@)
    } else {
        Ok(claims.remove(claim))
    }
}

/// The three reasons are three different texts.
pub proof fn lemma_reasons_differ()
    ensures
        ALREADY_CLAIMED@ != NOT_FOUND@,
        ALREADY_CLAIMED@ != NOT_OWNER@,
        NOT_FOUND@ != NOT_OWNER@,
{
    reveal_strlit("this content is already claimed");
    reveal_strlit("claim does not exist");
    reveal_strlit("this content is owned by someone else");
    assert(ALREADY_CLAIMED@.len() == 31);
    assert(NOT_FOUND@.len() == 20);
    assert(NOT_OWNER@.len() == 37);
}

/// Content that `first` has claimed cannot be claimed again, by anyone: the
/// second claim is refused as already claimed, and `first` stays the owner.
pub proof fn lemma_claim_is_exclusive<C, Id>(claims: Map<C, Id>, first: Id, second: Id, claim: C)
    requires
        create_claim_spec(claims, first, claim) is Ok,
    ensures
        ({
            let claimed = create_claim_spec(claims, first, claim)->Ok_0;
            &&& claimed.contains_key(claim)
            &&& claimed[claim] == first
            &&& create_claim_spec(claimed, second, claim) == Err::<Map<C, Id>, Seq<char>>(
                ALREADY_CLAIMED@,
            )
        }),
{
}

/// Only the owner can revoke: anyone else is refused as not the owner, and
/// after the owner's revocation the content is unclaimed.
pub proof fn lemma_revoke_is_gated<C, Id>(claims: Map<C, Id>, owner: Id, other: Id, claim: C)
    requires
        claims.contains_key(claim),
        claims[claim] == owner,
        other != owner,
    ensures
        revoke_claim_spec(claims, other, claim) == Err::<Map<C, Id>, Seq<char>>(NOT_OWNER@),
        revoke_claim_spec(claims, owner, claim) is Ok,
        !revoke_claim_spec(claims, owner, claim)->Ok_0.contains_key(claim),
        forall|c: C|
            c != claim ==> (revoke_claim_spec(claims, owner, claim)->Ok_0.contains_key(c)
                <==> claims.contains_key(c)),
{
}

/// The registry.
#[derive(Debug)]
pub struct Pallet<T: Config> {
    claims: StorageMap<T::Content, T::AccountId>,
}

impl<T: Config> View for Pallet<T> {
    type V = Map<ContentId<T>, Account<T>>;

    closed spec fn view(&self) -> Map<ContentId<T>, Account<T>> {
        self.claims@.map_values(|owner: T::AccountId| owner@)
    }
}

impl<T: Config> Pallet<T> {
    /// The empty registry.
    pub fn new() -> (r: Self)
        ensures
            r@ == Map::<ContentId<T>, Account<T>>::empty(),
    {
        let r = Pallet { claims: StorageMap::new() };
        assert(r@ =~= Map::<ContentId<T>, Account<T>>::empty());
        r
    }

    /// The owner of `claim`, if it has one.
    pub fn get_claim(&self, claim: &T::Content) -> (r: Option<&T::AccountId>)
        ensures
            match r {
                Some(owner) => self@.contains_key(claim@) && owner@ == self@[claim@],
                None => !self@.contains_key(claim@),
            },
    {
        self.claims.get(claim)
    }

    /// Makes `caller` the owner of `claim`, unless it has an owner.
    pub fn create_claim(&mut self, caller: T::AccountId, claim: T::Content) -> (result:
        DispatchResult)
        ensures
            match create_claim_spec(old(self)@, caller@, claim@) {
                Ok(claims) => result is Ok && final(self)@ == claims,
                Err(reason) => outcome(result) == Err::<(), Seq<char>>(reason) && final(self)@ == old(
                    self,
                )@,
            },
    {
        if self.claims.contains_key(&claim) {
            return Err(ALREADY_CLAIMED);
        }
        self.claims.insert(claim, caller);
        assert(self@ =~= old(self)@.insert(claim@, caller@));
        Ok(())
    }

    /// Takes `claim` out of the registry, if `caller` owns it.
    pub fn revoke_claim(&mut self, caller: T::AccountId, claim: T::Content) -> (result:
        DispatchResult)
        ensures
            match revoke_claim_spec(old(self)@, caller@, claim@) {
                Ok(claims) => result is Ok && final(self)@ == claims,
                Err(reason) => outcome(result) == Err::<(), Seq<char>>(reason) && final(self)@ == old(
                    self,
                )@,
            },
    {
        let owner = match self.get_claim(&claim) {
            Some(owner) => owner,
            None => {
                return Err(NOT_FOUND);
            },
        };
        if !caller.same(owner) {
            return Err(NOT_OWNER);
        }
        self.claims.remove(&claim);
        assert(self@ =~= old(self)@.remove(claim@));
        Ok(())
    }
}

/// The calls that the pallet answers.
#[allow(non_camel_case_types)]
pub enum Call<T: Config> {
    /// Claim `claim` for the caller.
    create_claim { claim: T::Content },
    /// Give up the caller's claim on `claim`.
    revoke_claim { claim: T::Content },
}

impl<T: Config> Dispatch for Pallet<T> {
    type Caller = T::AccountId;

    type Call = Call<T>;

    open spec fn dispatched(
        &self,
        caller: Self::Caller,
        call: Self::Call,
        after: &Self,
        result: DispatchResult,
    ) -> bool {
        let expected = match call {
            Call::create_claim { claim } => create_claim_spec(self@, caller@, claim@),
            Call::revoke_claim { claim } => revoke_claim_spec(self@, caller@, claim@),
        };
        match expected {
            Ok(claims) => result is Ok && after@ == claims,
            Err(reason) => outcome(result) == Err::<(), Seq<char>>(reason) && after@ == self@,
        }
    }

    fn dispatch(&mut self, caller: Self::Caller, call: Self::Call) -> (result: DispatchResult) {
        match call {
            Call::create_claim { claim } => {
                self.create_claim(caller, claim)?;
            },
            Call::revoke_claim { claim } => {
                self.revoke_claim(caller, claim)?;
            },
        }
        Ok(())
    }
}

} // verus!
