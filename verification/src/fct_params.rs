//! The parameters of FCT minting.
//!
//! They are set once, at node startup, and stay as they are. The slot that
//! holds them belongs to the caller.
use vstd::prelude::*;

verus! {

/// FCT parameters that control the minting behavior.
#[derive(Debug, Clone, Copy)]
pub struct FctParams {
    /// Maximum FCT supply in wei.
    pub max_supply: u128,
    /// Target mint per period in wei (before halving adjustments).
    pub target_per_period: u128,
}

impl FctParams {
    /// Sets the parameters, unless they are set already.
    ///
    /// Returns whether they were set by this call.
    pub fn init(slot: &mut Option<FctParams>, max_supply: u128, target_per_period: u128) -> (r:
        bool)
        ensures
            r == (*old(slot) is None),
            r ==> *final(slot) == Some(FctParams { max_supply, target_per_period }),
            !r ==> *final(slot) == *old(slot),
    {
        if FctParams::is_initialized(slot) {
            return false;
        }
        *slot = Some(FctParams { max_supply, target_per_period });
        true
    }

    /// The parameters, if they are set.
    pub fn get(slot: &Option<FctParams>) -> (r: Option<&FctParams>)
        ensures
            r is Some <==> *slot is Some,
            r matches Some(params) ==> *slot == Some(*params),
    {
        match slot {
            Some(params) => Some(params),
            None => None,
        }
    }

    /// Whether the parameters are set.
    pub fn is_initialized(slot: &Option<FctParams>) -> (r: bool)
        ensures
            r == (*slot is Some),
    {
        match slot {
            Some(_) => true,
            None => false,
        }
    }

    /// Sets the parameters, whether or not they are set already.
    ///
    /// This is for tests that need other parameters than those before them; a node
    /// sets its parameters once, with [`FctParams::init`].
    pub fn force_init(slot: &mut Option<FctParams>, max_supply: u128, target_per_period: u128)
        ensures
            *final(slot) == Some(FctParams { max_supply, target_per_period }),
    {
        *slot = Some(FctParams { max_supply, target_per_period });
    }
}

} // verus!
