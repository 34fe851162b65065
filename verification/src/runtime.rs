//! The runtime: one instance of each pallet, the union of their calls, and
//! the block executor.

use crate::balances;
use crate::balances::transfer_spec;
use crate::proof_of_existence;
use crate::proof_of_existence::{create_claim_spec, revoke_claim_spec};
use crate::support;
use crate::support::{outcome, stored_or_zero, Dispatch, DispatchResult};
use crate::system;
use crate::system::inc_nonce_spec;
use crate::types;
use vstd::prelude::*;

verus! {

/// The reason given where a block does not carry the next block number.
pub const BLOCK_NUMBER_MISMATCH: &'static str = "block number does not match what is expected";

/// The runtime's choice of types, handed to each pallet as its parameter.
#[derive(Debug)]
pub struct RuntimeConfig;

impl system::Config for RuntimeConfig {
    type AccountId = types::AccountId;

    type BlockNumber = types::BlockNumber;

    type Nonce = types::Nonce;
}

impl balances::Config for RuntimeConfig {
    type Balance = types::Balance;
}

impl proof_of_existence::Config for RuntimeConfig {
    type Content = types::Content;
}

/// A call to one of the runtime's pallets.
pub enum RuntimeCall {
    Balances(balances::Call<RuntimeConfig>),
    ProofOfExistence(proof_of_existence::Call<RuntimeConfig>),
}

/// The pallets of the runtime.
#[derive(Debug)]
pub struct Runtime {
    pub system: system::Pallet<RuntimeConfig>,
    pub balances: balances::Pallet<RuntimeConfig>,
    pub proof_of_existence: proof_of_existence::Pallet<RuntimeConfig>,
}

/// The state of a runtime, with accounts and content named by their text.
pub struct State {
    /// The number of blocks executed.
    pub block_number: nat,
    /// The nonce of each account that has one.
    pub nonces: Map<Seq<char>, nat>,
    /// The balance of each account that has one.
    pub balances: Map<Seq<char>, nat>,
    /// The owner of each piece of content that has one.
    pub claims: Map<Seq<char>, Seq<char>>,
}

/// An extrinsic that was refused while its block was executed.
#[derive(Debug)]
pub struct ExtrinsicFailure {
    /// The number of the block.
    pub block_number: types::BlockNumber,
    /// The place of the extrinsic in the block, counted from zero.
    pub index: usize,
    /// Why it was refused.
    pub reason: &'static str,
}

/// An [`ExtrinsicFailure`] with its reason read as text.
pub struct Failure {
    pub block_number: nat,
    pub index: nat,
    pub reason: Seq<char>,
}

impl View for ExtrinsicFailure {
    type V = Failure;

    open spec fn view(&self) -> Failure {
        Failure {
            block_number: self.block_number as nat,
            index: self.index as nat,
            reason: self.reason@,
        }
    }
}

/// The state after `call` is dispatched for `caller`, and the outcome. A
/// refused call leaves the state as it was.
pub open spec fn dispatch_spec(state: State, caller: Seq<char>, call: RuntimeCall) -> (
    State,
    Result<(), Seq<char>>,
) {
    match call {
        RuntimeCall::Balances(balances::Call::transfer { to, amount }) => match transfer_spec(
            state.balances,
            caller,
            to@,
            amount as nat,
            u128::MAX as nat,
        ) {
            Ok(balances) => (State { balances, ..state }, Ok(())),
            Err(reason) => (state, Err(reason)),
        },
        RuntimeCall::ProofOfExistence(call) => {
            let expected = match call {
                proof_of_existence::Call::create_claim { claim } => create_claim_spec(
                    state.claims,
                    caller,
                    claim@,
                ),
                proof_of_existence::Call::revoke_claim { claim } => revoke_claim_spec(
                    state.claims,
                    caller,
                    claim@,
                ),
            };
            match expected {
                Ok(claims) => (State { claims, ..state }, Ok(())),
                Err(reason) => (state, Err(reason)),
            }
        },
    }
}

/// The state with the nonce of `who` advanced by one.
pub open spec fn bump_nonce(state: State, who: Seq<char>) -> State {
    State { nonces: inc_nonce_spec(state.nonces, who), ..state }
}

/// The state after one extrinsic: the caller's nonce advances, then the
/// call is dispatched, whether or not it is refused.
pub open spec fn apply_extrinsic(state: State, extrinsic: types::Extrinsic) -> State {
    dispatch_spec(bump_nonce(state, extrinsic.caller@), extrinsic.caller@, extrinsic.call).0
}

/// The state after the extrinsics were applied in order.
pub open spec fn apply_extrinsics(state: State, extrinsics: Seq<types::Extrinsic>) -> State
    decreases extrinsics.len(),
{
    if extrinsics.len() == 0 {
        state
    } else {
        apply_extrinsic(apply_extrinsics(state, extrinsics.drop_last()), extrinsics.last())
    }
}

/// The extrinsics that are refused when applied in order from `state`, each
/// with its place and the reason.
pub open spec fn failures(state: State, extrinsics: Seq<types::Extrinsic>) -> Seq<Failure>
    decreases extrinsics.len(),
{
    if extrinsics.len() == 0 {
        Seq::empty()
    } else {
        let front = extrinsics.drop_last();
        let last = extrinsics.last();
        let earlier = failures(state, front);
        let before = bump_nonce(apply_extrinsics(state, front), last.caller@);
        match dispatch_spec(before, last.caller@, last.call).1 {
            Ok(_) => earlier,
            Err(reason) => earlier.push(
                Failure { block_number: state.block_number, index: front.len(), reason },
            ),
        }
    }
}

/// How many of the extrinsics `who` authored.
pub open spec fn authored(extrinsics: Seq<types::Extrinsic>, who: Seq<char>) -> nat
    decreases extrinsics.len(),
{
    if extrinsics.len() == 0 {
        0
    } else {
        authored(extrinsics.drop_last(), who) + if extrinsics.last().caller@ == who {
            1nat
        } else {
            0nat
        }
    }
}

/// Whether every nonce stays within its type while the extrinsics are
/// applied.
pub open spec fn nonces_have_room(state: State, extrinsics: Seq<types::Extrinsic>) -> bool {
    forall|who: Seq<char>|
        stored_or_zero(state.nonces, who) + #[trigger] authored(extrinsics, who) <= u32::MAX
}

/// Dispatching a call changes neither the block number nor any nonce.
pub proof fn lemma_dispatch_keeps_counters(state: State, caller: Seq<char>, call: RuntimeCall)
    ensures
        dispatch_spec(state, caller, call).0.block_number == state.block_number,
        dispatch_spec(state, caller, call).0.nonces == state.nonces,
{
}

/// Applying extrinsics leaves the block number alone and advances the nonce
/// of `who` by the number of extrinsics that `who` authored, refused or not.
pub proof fn lemma_nonces_count_extrinsics(
    state: State,
    extrinsics: Seq<types::Extrinsic>,
    who: Seq<char>,
)
    ensures
        apply_extrinsics(state, extrinsics).block_number == state.block_number,
        stored_or_zero(apply_extrinsics(state, extrinsics).nonces, who) == stored_or_zero(
            state.nonces,
            who,
        ) + authored(extrinsics, who),
    decreases extrinsics.len(),
{
    if extrinsics.len() > 0 {
        let last = extrinsics.last();
        let earlier = apply_extrinsics(state, extrinsics.drop_last());
        lemma_nonces_count_extrinsics(state, extrinsics.drop_last(), who);
        lemma_dispatch_keeps_counters(bump_nonce(earlier, last.caller@), last.caller@, last.call);
    }
}

impl View for Runtime {
    type V = State;

    open spec fn view(&self) -> State {
        State {
            block_number: self.system.height(),
            nonces: self.system.nonces(),
            balances: self.balances@,
            claims: self.proof_of_existence@,
        }
    }
}

impl Runtime {
    /// A runtime at block zero, with empty pallets.
    pub fn new() -> (r: Self)
        ensures
            r@ == (State {
                block_number: 0,
                nonces: Map::empty(),
                balances: Map::empty(),
                claims: Map::empty(),
            }),
    {
        Self {
            system: system::Pallet::new(),
            balances: balances::Pallet::new(),
            proof_of_existence: proof_of_existence::Pallet::new(),
        }
    }

    /// Whether every nonce stays within its type while the extrinsics of
    /// `block` are applied.
    pub fn has_room_for(&self, block: &types::Block) -> (r: bool)
        ensures
            r == nonces_have_room(self@, block.extrinsics@),
    {
        let ghost all = block.extrinsics@;
        let count: usize = block.extrinsics.len();
        let mut i: usize = 0;
        while i < count
            invariant
                i <= count,
                count == all.len(),
                all == block.extrinsics@,
                forall|k: int|
                    0 <= k < i ==> stored_or_zero(self@.nonces, (#[trigger] all[k]).caller@)
                        + authored(all, all[k].caller@) <= u32::MAX,
            decreases count - i,
        {
            let who = &block.extrinsics[i].caller;
            let mut times: usize = 0;
            let mut j: usize = 0;
            while j < count
                invariant
                    j <= count,
                    count == all.len(),
                    all == block.extrinsics@,
                    times == authored(all.take(j as int), who@),
                    times <= j,
                decreases count - j,
            {
                proof {
                    assert(all.take(j + 1).drop_last() =~= all.take(j as int));
                }
                if block.extrinsics[j].caller == *who {
                    times += 1;
                }
                j += 1;
            }
            proof {
                assert(all.take(count as int) =~= all);
            }
            let nonce: u32 = self.system.nonce(who);
            if times > (u32::MAX - nonce) as usize {
                proof {
                    assert(stored_or_zero(self@.nonces, who@) + authored(all, who@) > u32::MAX);
                }
                return false;
            }
            i += 1;
        }
        proof {
            self.system.lemma_within_limits();
            assert forall|who: Seq<char>|
                stored_or_zero(self@.nonces, who) + #[trigger] authored(all, who)
                    <= u32::MAX by {
                assert(self.system.nonce_of(who) <= u32::MAX);
                if authored(all, who) > 0 {
                    let k = lemma_author_occurs(all, who);
                    assert(all[k].caller@ == who);
                }
            }
        }
        true
    }

    /// Executes `block` as the next block.
    ///
    /// The block counter advances first, whatever follows. A block that does
    /// not carry the new number is refused as a whole and nothing else
    /// changes. Otherwise the extrinsics are applied in order; one that is
    /// refused is reported and the rest go on.
    pub fn execute_block(&mut self, block: types::Block) -> (result: Result<
        Vec<ExtrinsicFailure>,
        &'static str,
    >)
        requires
            old(self)@.block_number < u32::MAX,
            block.header.block_number == old(self)@.block_number + 1 ==> nonces_have_room(
                old(self)@,
                block.extrinsics@,
            ),
        ensures
            final(self)@.block_number == old(self)@.block_number + 1,
            match result {
                Ok(report) => {
                    let started = State { block_number: old(self)@.block_number + 1, ..old(self)@ };
                    &&& block.header.block_number == old(self)@.block_number + 1
                    &&& final(self)@ == apply_extrinsics(started, block.extrinsics@)
                    &&& report@.map_values(|f: ExtrinsicFailure| f@) == failures(
                        started,
                        block.extrinsics@,
                    )
                },
                Err(reason) => {
                    &&& block.header.block_number != old(self)@.block_number + 1
                    &&& reason@ == BLOCK_NUMBER_MISMATCH@
                    &&& final(self)@ == (State {
                        block_number: old(self)@.block_number + 1,
                        ..old(self)@
                    })
                },
            },
    {
        self.system.inc_block_number();
        if block.header.block_number != self.system.block_number() {
            return Err(BLOCK_NUMBER_MISMATCH);
        }
        let ghost started = self@;
        let ghost all = block.extrinsics@;
        let block_number: u32 = block.header.block_number;
        let count: usize = block.extrinsics.len();
        let mut report: Vec<ExtrinsicFailure> = Vec::new();
        let mut i: usize = 0;
        for extrinsic in it: block.extrinsics
            invariant
                it.seq() == all,
                i == it.index(),
                count == all.len(),
                block_number == started.block_number,
                nonces_have_room(started, all),
                self@ == apply_extrinsics(started, all.take(i as int)),
                report@.map_values(|f: ExtrinsicFailure| f@) == failures(
                    started,
                    all.take(i as int),
                ),
        {
            let support::Extrinsic { caller, call } = extrinsic;
            proof {
                let done = all.take(i as int);
                let next = all.take(i + 1);
                assert(next.drop_last() =~= done);
                assert(next.last() == all[i as int]);
                lemma_nonces_count_extrinsics(started, done, caller@);
                lemma_authored_grows(all, i as int);
                assert(stored_or_zero(started.nonces, caller@) + authored(all, caller@)
                    <= u32::MAX);
            }
            self.system.inc_nonce(caller.clone());
            let ghost before = self@;
            match self.dispatch(caller, call) {
                Ok(_) => {},
                Err(reason) => {
                    report.push(ExtrinsicFailure { block_number, index: i, reason });
                },
            }
            proof {
                assert(report@.map_values(|f: ExtrinsicFailure| f@) =~= failures(
                    started,
                    all.take(i + 1),
                ));
            }
            i += 1;
        }
        proof {
            assert(all.take(i as int) =~= all);
            lemma_nonces_count_extrinsics(started, all, Seq::empty());
        }
        Ok(report)
    }
}

/// Whoever authored some of the extrinsics is the caller of one of them.
proof fn lemma_author_occurs(extrinsics: Seq<types::Extrinsic>, who: Seq<char>) -> (k: int)
    requires
        authored(extrinsics, who) > 0,
    ensures
        0 <= k < extrinsics.len(),
        extrinsics[k].caller@ == who,
    decreases extrinsics.len(),
{
    if extrinsics.last().caller@ == who {
        extrinsics.len() - 1
    } else {
        lemma_author_occurs(extrinsics.drop_last(), who)
    }
}

/// The extrinsics up to and including place `i` hold no more of its
/// caller's than the whole block does.
proof fn lemma_authored_grows(extrinsics: Seq<types::Extrinsic>, i: int)
    requires
        0 <= i < extrinsics.len(),
    ensures
        authored(extrinsics.take(i), extrinsics[i].caller@) + 1 <= authored(
            extrinsics,
            extrinsics[i].caller@,
        ),
    decreases extrinsics.len(),
{
    let who = extrinsics[i].caller@;
    let front = extrinsics.drop_last();
    if i == extrinsics.len() - 1 {
        assert(extrinsics.take(i) =~= front);
    } else {
        lemma_authored_grows(front, i);
        assert(front.take(i) =~= extrinsics.take(i));
    }
}

impl Dispatch for Runtime {
    type Caller = types::AccountId;

    type Call = RuntimeCall;

    open spec fn dispatched(
        &self,
        caller: Self::Caller,
        call: Self::Call,
        after: &Self,
        result: DispatchResult,
    ) -> bool {
        (after@, outcome(result)) == dispatch_spec(self@, caller@, call)
    }

    fn dispatch(&mut self, caller: Self::Caller, runtime_call: Self::Call) -> (result:
        DispatchResult) {
        match runtime_call {
            RuntimeCall::Balances(call) => {
                self.balances.dispatch(caller, call)?;
            },
            RuntimeCall::ProofOfExistence(call) => {
                self.proof_of_existence.dispatch(caller, call)?;
            },
        }
        Ok(())
    }
}

} // verus!
