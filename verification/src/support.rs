//! What every pallet and the runtime share: the shape of a block and the
//! dispatch capability.

use vstd::prelude::*;

verus! {

/// A header and the extrinsics to execute, in order.
pub struct Block<Header, Extrinsic> {
    pub header: Header,
    pub extrinsics: Vec<Extrinsic>,
}

/// What a block says of itself: the number it expects to be executed as.
pub struct Header<BlockNumber> {
    pub block_number: BlockNumber,
}

/// One requested state change: who asks, and for what.
pub struct Extrinsic<Caller, Call> {
    pub caller: Caller,
    pub call: Call,
}

/// Success, or the reason for which a call was refused.
pub type DispatchResult = Result<(), &'static str>;

/// A dispatch result with the reason read as text.
pub open spec fn outcome(result: DispatchResult) -> Result<(), Seq<char>> {
    match result {
        Ok(_) => Ok(()),
        Err(reason) => Err(reason@),
    }
}

/// Zero for a key without an entry, else the number stored under it.
pub open spec fn stored_or_zero<K>(numbers: Map<K, nat>, key: K) -> nat {
    if numbers.contains_key(key) {
        numbers[key]
    } else {
        0
    }
}

/// The capability to execute a call on behalf of a caller.
///
/// `dispatched` is the implementer's statement of what a dispatch does;
/// `dispatch` is held to it.
pub trait Dispatch: Sized {
    /// Who may ask for a call.
    type Caller;

    /// What can be asked for.
    type Call;

    /// Whether executing `call` for `caller` in state `self` may leave the
    /// state `after` and return `result`.
    spec fn dispatched(
        &self,
        caller: Self::Caller,
        call: Self::Call,
        after: &Self,
        result: DispatchResult,
    ) -> bool;

    /// Executes `call` for `caller`.
    fn dispatch(&mut self, caller: Self::Caller, call: Self::Call) -> (result: DispatchResult)
        ensures
            old(self).dispatched(caller, call, final(self), result),
    ;
}

} // verus!
