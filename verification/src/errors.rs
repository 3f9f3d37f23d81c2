use vstd::prelude::*;

verus! {

/// Everything that a call into the vesting engine can fail with.
/// A failed call commits no state change.
#[derive(Clone, Copy, PartialEq, Eq, Structural, Debug)]
pub enum Error {
    /// `vest` or `vest_other` was invoked on an account with no schedule.
    NotVesting,
    /// A new schedule's `locked` is below the configured minimum.
    AmountLow,
    /// A new schedule would never unlock (`per_block` is zero) or locks
    /// nothing (`locked` is zero).
    ZeroVestingPeriod,
    /// The source account cannot cover the transfer.
    InsufficientBalance,
    /// A privileged operation was invoked by a non-privileged caller, or a
    /// signed operation by an unsigned one.
    BadOrigin,
}

/// Who asked for an operation: the privileged root origin, or an account
/// that signed the request.
#[derive(Clone, Copy, PartialEq, Eq, Structural, Debug)]
pub enum Origin {
    Root,
    Signed(usize),
}

} // verus!
