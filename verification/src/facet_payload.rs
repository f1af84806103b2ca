//! The payload of a Facet transaction.
use vstd::prelude::*;

verus! {

/// A Facet transaction, as it was found on L1.
#[derive(Debug, PartialEq, Eq)]
pub struct FacetPayload {
    /// The recipient; none creates a contract.
    pub to: Option<[u8; 20]>,
    /// The value, as four words of 64 bits, the lowest first.
    pub value: [u64; 4],
    /// The gas limit.
    pub gas_limit: u64,
    /// The input data.
    pub data: Vec<u8>,
    /// The L1 gas that the input data costs.
    pub l1_data_gas_used: u64,
    /// The FCT minted for the transaction.
    pub mint: u128,
}

/// The wei that each transaction burns at an L1 base fee.
pub open spec fn burns(txs: Seq<FacetPayload>, l1_base_fee: u64) -> Seq<int> {
    Seq::new(txs.len(), |i: int| txs[i].l1_data_gas_used * l1_base_fee)
}

/// `after` is `before` with the FCT in `mints`, and nothing else changed.
pub open spec fn credited(
    before: Seq<FacetPayload>,
    mints: Seq<u128>,
    after: Seq<FacetPayload>,
) -> bool {
    &&& after.len() == before.len() == mints.len()
    &&& forall|i: int|
        #![trigger after[i]]
        0 <= i < after.len() ==> after[i] == (FacetPayload { mint: mints[i], ..before[i] })
}

/// Sets the FCT of each transaction.
pub(crate) fn credit(txs: &mut [FacetPayload], mints: &Vec<u128>)
    requires
        old(txs)@.len() == mints@.len(),
    ensures
        credited(old(txs)@, mints@, final(txs)@),
{
    let mut i: usize = 0;
    while i < mints.len()
        invariant
            i <= mints@.len(),
            txs@.len() == old(txs)@.len() == mints@.len(),
            forall|j: int|
                #![trigger txs@[j]]
                0 <= j < i ==> txs@[j] == (FacetPayload { mint: mints@[j], ..old(txs)@[j] }),
            forall|j: int| #![trigger txs@[j]] i <= j < txs@.len() ==> txs@[j] == old(txs)@[j],
        decreases mints@.len() - i,
    {
        txs[i].mint = mints[i];
        i = i + 1;
    }
}

} // verus!
