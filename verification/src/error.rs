use vstd::prelude::*;

verus! {

/// The three terminal failures a trade can hit. Every check is local and
/// immediate: the first failing check aborts the whole swap before any
/// transfer is issued.
#[derive(Clone, Copy, Debug, PartialEq, Eq, Structural)]
pub enum DexError {
    /// The trade amount is zero, or a reserve read at quote time is zero.
    InvalidAmount,
    /// The computed output falls short of the caller's minimum.
    SlippageExceeded,
    /// A vault's asset type does not match the pool's recorded mint, or the
    /// destination account does not hold the output mint.
    InvalidAccount,
}

} // verus!
