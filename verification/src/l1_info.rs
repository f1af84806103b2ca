//! The L1 block info that a Facet block carries in its first transaction.
use vstd::arithmetic::power2::*;
use vstd::prelude::*;
use vstd::slice::slice_subrange;

use crate::big_endian::{
    address_from_slice, address_word, be_bytes, be_value, hash_from_slice, lemma_be_bytes_len,
    lemma_be_bytes_padded, lemma_be_value_of_parts, lemma_byte_bounds, lemma_bytes_of_value,
    lemma_value_of_bytes, push_be,
    read_be, u256_word, zeros,
};

verus! {

/// Represents the fields within a Facet L1 block info transaction.
///
/// Facet binary format (extends Ecotone):
///
/// | Bytes | Field                                |
/// |-------|--------------------------------------|
/// | 4     | Function signature                   |
/// | 4     | BaseFeeScalar                        |
/// | 4     | BlobBaseFeeScalar                    |
/// | 8     | SequenceNumber                       |
/// | 8     | Timestamp                            |
/// | 8     | L1BlockNumber                        |
/// | 32    | BaseFee                              |
/// | 32    | BlobBaseFee                          |
/// | 32    | BlockHash                            |
/// | 32    | BatcherHash                          |
/// | 16    | FctMintPeriodL1DataGas (deprecated)  |
/// | 16    | FctMintRate                          |
/// | 16    | FctPeriodStartBlock                  |
/// | 16    | FctTotalMinted                       |
/// | 16    | FctMaxSupply                         |
/// | 16    | FctPeriodMinted                      |
/// | 32    | FctInitialTargetPerPeriod            |
#[derive(Debug, Clone, Copy, PartialEq, Eq, Hash, Default)]
pub struct L1BlockInfoFacet {
    /// The current L1 origin block number.
    pub number: u64,
    /// The current L1 origin block's timestamp.
    pub time: u64,
    /// The current L1 origin block's basefee.
    pub base_fee: u64,
    /// The current L1 origin block's hash.
    pub block_hash: [u8; 32],
    /// The current sequence number.
    pub sequence_number: u64,
    /// The address of the batch submitter.
    pub batcher_address: [u8; 20],
    /// The current blob base fee on L1.
    pub blob_base_fee: u128,
    /// The fee scalar for L1 blobspace data.
    pub blob_base_fee_scalar: u32,
    /// The fee scalar for L1 data.
    pub base_fee_scalar: u32,
    /// Indicates that the scalars are empty.
    /// This is an edge case where the first block in ecotone has no scalars,
    /// so the bedrock tx l1 cost function needs to be used.
    pub empty_scalars: bool,
    /// The l1 fee overhead used along with the `empty_scalars` field for the
    /// bedrock tx l1 cost function, as four words of 64 bits, the lowest first.
    ///
    /// This field is deprecated in the Ecotone Hardfork.
    pub l1_fee_overhead: [u64; 4],
    /// The facet mint rate (FCT per wei burned).
    pub fct_mint_rate: u128,
    /// Total FCT minted across all periods.
    pub fct_total_minted: u128,
    /// Block number when the current period started.
    pub fct_period_start_block: u128,
    /// FCT minted in the current period.
    pub fct_period_minted: u128,
    /// Maximum supply of FCT tokens.
    pub fct_max_supply: u128,
    /// Initial target FCT to mint per period.
    pub fct_initial_target_per_period: u128,
}

/// Why calldata holds no L1 block info.
#[derive(Debug, Clone, Copy, PartialEq, Eq, Structural)]
pub enum DecodeError {
    /// The calldata has the wrong length: the expected one and its own.
    InvalidEcotoneLength(usize, usize),
}

/// The calldata of an L1 info transaction.
pub open spec fn calldata(info: L1BlockInfoFacet) -> Seq<u8> {
    L1BlockInfoFacet::L1_INFO_TX_SELECTOR@
        + be_bytes(info.base_fee_scalar as nat, 4)
        + be_bytes(info.blob_base_fee_scalar as nat, 4)
        + be_bytes(info.sequence_number as nat, 8)
        + be_bytes(info.time as nat, 8)
        + be_bytes(info.number as nat, 8)
        + be_bytes(info.base_fee as nat, 32)
        + be_bytes(info.blob_base_fee as nat, 32)
        + info.block_hash@
        + zeros(12)
        + info.batcher_address@
        + zeros(16)
        + be_bytes(info.fct_mint_rate as nat, 16)
        + be_bytes(info.fct_period_start_block as nat, 16)
        + be_bytes(info.fct_total_minted as nat, 16)
        + be_bytes(info.fct_max_supply as nat, 16)
        + be_bytes(info.fct_period_minted as nat, 16)
        + be_bytes(info.fct_initial_target_per_period as nat, 32)
}

/// `info` is what the calldata `r` says.
pub open spec fn reads(info: L1BlockInfoFacet, r: Seq<u8>) -> bool {
    &&& info.base_fee_scalar == be_value(r.subrange(4, 8))
    &&& info.blob_base_fee_scalar == be_value(r.subrange(8, 12))
    &&& info.sequence_number == be_value(r.subrange(12, 20))
    &&& info.time == be_value(r.subrange(20, 28))
    &&& info.number == be_value(r.subrange(28, 36))
    &&& info.base_fee == be_value(r.subrange(60, 68))
    &&& info.blob_base_fee == be_value(r.subrange(84, 100))
    &&& info.block_hash@ == r.subrange(100, 132)
    &&& info.batcher_address@ == r.subrange(144, 164)
    &&& info.fct_mint_rate == be_value(r.subrange(180, 196))
    &&& info.fct_period_start_block == be_value(r.subrange(196, 212))
    &&& info.fct_total_minted == be_value(r.subrange(212, 228))
    &&& info.fct_max_supply == be_value(r.subrange(228, 244))
    &&& info.fct_period_minted == be_value(r.subrange(244, 260))
    &&& info.fct_initial_target_per_period == be_value(r.subrange(276, 292))
    // Neither is part of the calldata.
    &&& !info.empty_scalars
    &&& info.l1_fee_overhead@ == seq![0u64, 0u64, 0u64, 0u64]
}

/// Calldata of the right length, with the selector in front and nothing in the
/// bytes that no field uses.
pub open spec fn is_canonical(r: Seq<u8>) -> bool {
    &&& r.len() == L1BlockInfoFacet::L1_INFO_TX_LEN
    &&& r.subrange(0, 4) == L1BlockInfoFacet::L1_INFO_TX_SELECTOR@
    &&& r.subrange(36, 60) == zeros(24)
    &&& r.subrange(68, 84) == zeros(16)
    &&& r.subrange(132, 144) == zeros(12)
    &&& r.subrange(164, 180) == zeros(16)
    &&& r.subrange(260, 276) == zeros(16)
}

impl L1BlockInfoFacet {
    /// The type byte identifier for the L1 scalar format in Facet.
    pub const L1_SCALAR: u8 = 1;

    /// The length of an L1 info transaction in Facet:
    /// 4 (selector) + 32*5 (base fields) + 32*4 (FCT words) bytes.
    pub const L1_INFO_TX_LEN: usize = 292;

    /// The 4 byte selector of "setL1BlockValuesEcotone()".
    pub const L1_INFO_TX_SELECTOR: [u8; 4] = [0x44, 0x0a, 0x5e, 0x20];

    /// Encodes the info into Ethereum transaction calldata.
    pub fn encode_calldata(&self) -> (r: Vec<u8>)
        ensures
            r@ == calldata(*self),
    {
        let mut buf: Vec<u8> = Vec::with_capacity(Self::L1_INFO_TX_LEN);
        buf.extend_from_slice(&Self::L1_INFO_TX_SELECTOR);
        // First 36 bytes: scalars and numbers
        push_be(&mut buf, self.base_fee_scalar as u128, 4);
        push_be(&mut buf, self.blob_base_fee_scalar as u128, 4);
        push_be(&mut buf, self.sequence_number as u128, 8);
        push_be(&mut buf, self.time as u128, 8);
        push_be(&mut buf, self.number as u128, 8);
        push_bytes(&mut buf, &u256_word(self.base_fee as u128));
        push_bytes(&mut buf, &u256_word(self.blob_base_fee));
        push_bytes(&mut buf, &self.block_hash);
        let ghost up_to_hash = buf@;
        push_bytes(&mut buf, &address_word(self.batcher_address));
        assert(buf@ =~= up_to_hash + zeros(12) + self.batcher_address@);

        // [fct_mint_period_l1_data_gas | fct_mint_rate], the former always 0
        proof {
            lemma2_to64();
            lemma_be_bytes_padded(0, 0, 16);
            assert(be_bytes(0, 16) =~= zeros(16));
        }
        push_be(&mut buf, 0, 16);
        push_be(&mut buf, self.fct_mint_rate, 16);

        // [fct_period_start_block | fct_total_minted]
        push_be(&mut buf, self.fct_period_start_block, 16);
        push_be(&mut buf, self.fct_total_minted, 16);

        // [fct_max_supply | fct_period_minted]
        push_be(&mut buf, self.fct_max_supply, 16);
        push_be(&mut buf, self.fct_period_minted, 16);

        // fct_initial_target_per_period padded to 32 bytes
        push_bytes(&mut buf, &u256_word(self.fct_initial_target_per_period));

        // Neither `empty_scalars` nor `l1_fee_overhead` is part of the calldata.
        buf
    }

    /// Decodes the info from Ethereum transaction calldata.
    pub fn decode_calldata(r: &[u8]) -> (res: Result<Self, DecodeError>)
        ensures
            match res {
                Ok(info) => r@.len() == Self::L1_INFO_TX_LEN && reads(info, r@),
                Err(DecodeError::InvalidEcotoneLength(expected, actual)) => {
                    &&& r@.len() != Self::L1_INFO_TX_LEN
                    &&& expected == Self::L1_INFO_TX_LEN
                    &&& actual == r@.len()
                },
            },
    {
        if r.len() != Self::L1_INFO_TX_LEN {
            return Err(DecodeError::InvalidEcotoneLength(Self::L1_INFO_TX_LEN, r.len()));
        }
        proof {
            lemma_byte_bounds();
        }
        let base_fee_scalar: u32 = read_be(r, 4, 4) as u32;
        let blob_base_fee_scalar: u32 = read_be(r, 8, 4) as u32;
        let sequence_number: u64 = read_be(r, 12, 8) as u64;
        let time: u64 = read_be(r, 20, 8) as u64;
        let number: u64 = read_be(r, 28, 8) as u64;
        let base_fee: u64 = read_be(r, 60, 8) as u64;
        let blob_base_fee: u128 = read_be(r, 84, 16);
        let block_hash = hash_from_slice(slice_subrange(r, 100, 132));
        // The batcher address is padded to 32 bytes, with the address in the last 20 bytes
        let batcher_address = address_from_slice(slice_subrange(r, 144, 164));

        // fct_mint_period_l1_data_gas at 164 is deprecated, and skipped
        let fct_mint_rate: u128 = read_be(r, 180, 16);
        let fct_period_start_block: u128 = read_be(r, 196, 16);
        let fct_total_minted: u128 = read_be(r, 212, 16);
        let fct_max_supply: u128 = read_be(r, 228, 16);
        let fct_period_minted: u128 = read_be(r, 244, 16);
        // In the lower half of the last word
        let fct_initial_target_per_period: u128 = read_be(r, 276, 16);

        let info = L1BlockInfoFacet {
            number,
            time,
            base_fee,
            block_hash,
            sequence_number,
            batcher_address,
            blob_base_fee,
            blob_base_fee_scalar,
            base_fee_scalar,
            empty_scalars: false,
            l1_fee_overhead: [0, 0, 0, 0],
            fct_mint_rate,
            fct_total_minted,
            fct_period_start_block,
            fct_period_minted,
            fct_max_supply,
            fct_initial_target_per_period,
        };
        assert(info.l1_fee_overhead@ =~= seq![0u64, 0u64, 0u64, 0u64]);
        Ok(info)
    }
}

/// Appends `bytes`.
fn push_bytes(buf: &mut Vec<u8>, bytes: &[u8])
    ensures
        final(buf)@ == old(buf)@ + bytes@,
{
    buf.extend_from_slice(bytes);
    assert(buf@ =~= old(buf)@ + bytes@);
}

/// Where each field stands in calldata, and what stands between them.
proof fn lemma_calldata_layout(info: L1BlockInfoFacet)
    ensures
        ({
            let r = calldata(info);
            &&& r.len() == L1BlockInfoFacet::L1_INFO_TX_LEN
            &&& r.subrange(0, 4) == L1BlockInfoFacet::L1_INFO_TX_SELECTOR@
            &&& r.subrange(4, 8) == be_bytes(info.base_fee_scalar as nat, 4)
            &&& r.subrange(8, 12) == be_bytes(info.blob_base_fee_scalar as nat, 4)
            &&& r.subrange(12, 20) == be_bytes(info.sequence_number as nat, 8)
            &&& r.subrange(20, 28) == be_bytes(info.time as nat, 8)
            &&& r.subrange(28, 36) == be_bytes(info.number as nat, 8)
            &&& r.subrange(36, 60) == zeros(24)
            &&& r.subrange(60, 68) == be_bytes(info.base_fee as nat, 8)
            &&& r.subrange(68, 84) == zeros(16)
            &&& r.subrange(84, 100) == be_bytes(info.blob_base_fee as nat, 16)
            &&& r.subrange(100, 132) == info.block_hash@
            &&& r.subrange(132, 144) == zeros(12)
            &&& r.subrange(144, 164) == info.batcher_address@
            &&& r.subrange(164, 180) == zeros(16)
            &&& r.subrange(180, 196) == be_bytes(info.fct_mint_rate as nat, 16)
            &&& r.subrange(196, 212) == be_bytes(info.fct_period_start_block as nat, 16)
            &&& r.subrange(212, 228) == be_bytes(info.fct_total_minted as nat, 16)
            &&& r.subrange(228, 244) == be_bytes(info.fct_max_supply as nat, 16)
            &&& r.subrange(244, 260) == be_bytes(info.fct_period_minted as nat, 16)
            &&& r.subrange(260, 276) == zeros(16)
            &&& r.subrange(276, 292) == be_bytes(info.fct_initial_target_per_period as nat, 16)
        }),
{
    lemma_byte_bounds();
    lemma_be_bytes_len(info.base_fee_scalar as nat, 4);
    lemma_be_bytes_len(info.blob_base_fee_scalar as nat, 4);
    lemma_be_bytes_len(info.sequence_number as nat, 8);
    lemma_be_bytes_len(info.time as nat, 8);
    lemma_be_bytes_len(info.number as nat, 8);
    lemma_be_bytes_len(info.base_fee as nat, 8);
    lemma_be_bytes_len(info.blob_base_fee as nat, 16);
    lemma_be_bytes_len(info.fct_mint_rate as nat, 16);
    lemma_be_bytes_len(info.fct_period_start_block as nat, 16);
    lemma_be_bytes_len(info.fct_total_minted as nat, 16);
    lemma_be_bytes_len(info.fct_max_supply as nat, 16);
    lemma_be_bytes_len(info.fct_period_minted as nat, 16);
    lemma_be_bytes_len(info.fct_initial_target_per_period as nat, 16);
    lemma_be_bytes_padded(info.base_fee as nat, 8, 24);
    lemma_be_bytes_padded(info.blob_base_fee as nat, 16, 16);
    lemma_be_bytes_padded(info.fct_initial_target_per_period as nat, 16, 16);
}

/// What is encoded is read back, but for the two fields that calldata does not
/// hold.
pub proof fn lemma_encoded_info_reads_back(info: L1BlockInfoFacet, read: L1BlockInfoFacet)
    requires
        reads(read, calldata(info)),
    ensures
        calldata(info).len() == L1BlockInfoFacet::L1_INFO_TX_LEN,
        read.block_hash@ == info.block_hash@,
        read.batcher_address@ == info.batcher_address@,
        read == (L1BlockInfoFacet {
            block_hash: read.block_hash,
            batcher_address: read.batcher_address,
            empty_scalars: false,
            l1_fee_overhead: read.l1_fee_overhead,
            ..info
        }),
        read.l1_fee_overhead@ == seq![0u64, 0u64, 0u64, 0u64],
{
    let r = calldata(info);
    lemma_byte_bounds();
    lemma_calldata_layout(info);
    lemma_value_of_bytes(info.base_fee_scalar as nat, 4);
    lemma_value_of_bytes(info.blob_base_fee_scalar as nat, 4);
    lemma_value_of_bytes(info.sequence_number as nat, 8);
    lemma_value_of_bytes(info.time as nat, 8);
    lemma_value_of_bytes(info.number as nat, 8);
    lemma_value_of_bytes(info.base_fee as nat, 8);
    lemma_value_of_bytes(info.blob_base_fee as nat, 16);
    lemma_value_of_bytes(info.fct_mint_rate as nat, 16);
    lemma_value_of_bytes(info.fct_period_start_block as nat, 16);
    lemma_value_of_bytes(info.fct_total_minted as nat, 16);
    lemma_value_of_bytes(info.fct_max_supply as nat, 16);
    lemma_value_of_bytes(info.fct_period_minted as nat, 16);
    lemma_value_of_bytes(info.fct_initial_target_per_period as nat, 16);
}

/// What is encoded is canonical calldata.
pub proof fn lemma_encoding_is_canonical(info: L1BlockInfoFacet)
    ensures
        is_canonical(calldata(info)),
{
    lemma_calldata_layout(info);
}

/// Canonical calldata is encoded again from what was read of it.
pub proof fn lemma_read_info_encodes_back(info: L1BlockInfoFacet, r: Seq<u8>)
    requires
        reads(info, r),
        is_canonical(r),
    ensures
        calldata(info) == r,
{
    lemma_byte_bounds();
    lemma_bytes_of_value(r.subrange(4, 8));
    lemma_bytes_of_value(r.subrange(8, 12));
    lemma_bytes_of_value(r.subrange(12, 20));
    lemma_bytes_of_value(r.subrange(20, 28));
    lemma_bytes_of_value(r.subrange(28, 36));
    lemma_bytes_of_value(r.subrange(60, 68));
    lemma_bytes_of_value(r.subrange(84, 100));
    lemma_bytes_of_value(r.subrange(180, 196));
    lemma_bytes_of_value(r.subrange(196, 212));
    lemma_bytes_of_value(r.subrange(212, 228));
    lemma_bytes_of_value(r.subrange(228, 244));
    lemma_bytes_of_value(r.subrange(244, 260));
    lemma_bytes_of_value(r.subrange(276, 292));
    lemma_be_bytes_padded(info.base_fee as nat, 8, 24);
    lemma_be_bytes_padded(info.blob_base_fee as nat, 16, 16);
    lemma_be_bytes_padded(info.fct_initial_target_per_period as nat, 16, 16);
    assert(calldata(info) =~= r.subrange(0, 4) + r.subrange(4, 8) + r.subrange(8, 12) + r.subrange(
        12,
        20,
    ) + r.subrange(20, 28) + r.subrange(28, 36) + (r.subrange(36, 60) + r.subrange(60, 68)) + (
    r.subrange(68, 84) + r.subrange(84, 100)) + r.subrange(100, 132) + r.subrange(132, 144)
        + r.subrange(144, 164) + r.subrange(164, 180) + r.subrange(180, 196) + r.subrange(196, 212)
        + r.subrange(212, 228) + r.subrange(228, 244) + r.subrange(244, 260) + (r.subrange(260, 276)
        + r.subrange(276, 292)));
    assert(calldata(info) =~= r);
}

/// Bytes that hold a number, behind bytes of zero, hold the same number.
proof fn lemma_padded_value(r: Seq<u8>, start: int, middle: int, end: int)
    requires
        0 <= start <= middle <= end <= r.len(),
        r.subrange(start, middle) == zeros((middle - start) as nat),
    ensures
        be_value(r.subrange(start, end)) == be_value(r.subrange(middle, end)),
{
    let pad = r.subrange(start, middle);
    let rest = r.subrange(middle, end);
    assert(pad + rest =~= r.subrange(start, end));
    lemma_be_value_of_parts(pad, rest);
    lemma_zeros_stand_for_zero((middle - start) as nat);
    let p = pow2(8 * rest.len()) as int;
    assert(0 * p == 0);
}

/// Bytes of zero stand for zero.
proof fn lemma_zeros_stand_for_zero(n: nat)
    ensures
        be_value(zeros(n)) == 0,
    decreases n,
{
    if n > 0 {
        lemma_zeros_stand_for_zero((n - 1) as nat);
        assert(zeros(n).drop_last() =~= zeros((n - 1) as nat));
    }
}

/// What stands where in the calldata of an L1 info: 292 bytes, which begin with
/// the selector `0x440a5e20`, go on with the scalars, the numbers and the base
/// fees, the hash and the address, and end with the FCT fields. Each number is
/// written with its most significant byte first, in the width of its field.
pub proof fn lemma_calldata_holds(info: L1BlockInfoFacet)
    ensures
        ({
            let r = calldata(info);
            &&& r.len() == 292
            &&& r.subrange(0, 4) == seq![0x44u8, 0x0au8, 0x5eu8, 0x20u8]
            &&& be_value(r.subrange(4, 8)) == info.base_fee_scalar
            &&& be_value(r.subrange(8, 12)) == info.blob_base_fee_scalar
            &&& be_value(r.subrange(12, 20)) == info.sequence_number
            &&& be_value(r.subrange(20, 28)) == info.time
            &&& be_value(r.subrange(28, 36)) == info.number
            &&& be_value(r.subrange(36, 68)) == info.base_fee
            &&& be_value(r.subrange(68, 100)) == info.blob_base_fee
            &&& r.subrange(100, 132) == info.block_hash@
            &&& forall|i: int| 132 <= i < 144 ==> r[i] == 0
            &&& r.subrange(144, 164) == info.batcher_address@
            &&& forall|i: int| 164 <= i < 180 ==> r[i] == 0
            &&& be_value(r.subrange(180, 196)) == info.fct_mint_rate
            &&& be_value(r.subrange(196, 212)) == info.fct_period_start_block
            &&& be_value(r.subrange(212, 228)) == info.fct_total_minted
            &&& be_value(r.subrange(228, 244)) == info.fct_max_supply
            &&& be_value(r.subrange(244, 260)) == info.fct_period_minted
            &&& be_value(r.subrange(260, 292)) == info.fct_initial_target_per_period
        }),
{
    let r = calldata(info);
    lemma_byte_bounds();
    lemma_calldata_layout(info);
    lemma_value_of_bytes(info.base_fee_scalar as nat, 4);
    lemma_value_of_bytes(info.blob_base_fee_scalar as nat, 4);
    lemma_value_of_bytes(info.sequence_number as nat, 8);
    lemma_value_of_bytes(info.time as nat, 8);
    lemma_value_of_bytes(info.number as nat, 8);
    lemma_value_of_bytes(info.base_fee as nat, 8);
    lemma_value_of_bytes(info.blob_base_fee as nat, 16);
    lemma_value_of_bytes(info.fct_mint_rate as nat, 16);
    lemma_value_of_bytes(info.fct_period_start_block as nat, 16);
    lemma_value_of_bytes(info.fct_total_minted as nat, 16);
    lemma_value_of_bytes(info.fct_max_supply as nat, 16);
    lemma_value_of_bytes(info.fct_period_minted as nat, 16);
    lemma_value_of_bytes(info.fct_initial_target_per_period as nat, 16);
    lemma_padded_value(r, 36, 60, 68);
    lemma_padded_value(r, 68, 84, 100);
    lemma_padded_value(r, 260, 276, 292);
    assert(L1BlockInfoFacet::L1_INFO_TX_SELECTOR@ =~= seq![0x44u8, 0x0au8, 0x5eu8, 0x20u8]);
    assert forall|i: int| 132 <= i < 144 implies r[i] == 0 by {
        assert(r.subrange(132, 144)[i - 132] == r[i]);
    }
    assert forall|i: int| 164 <= i < 180 implies r[i] == 0 by {
        assert(r.subrange(164, 180)[i - 164] == r[i]);
    }
}

/// What is read of calldata: each field from its bytes, the most significant
/// first. Where the bytes in front of a number are zero, the whole word is that
/// number. The two fields that calldata does not hold are empty.
pub proof fn lemma_calldata_is_read(info: L1BlockInfoFacet, r: Seq<u8>)
    requires
        reads(info, r),
    ensures
        info.base_fee_scalar == be_value(r.subrange(4, 8)),
        info.blob_base_fee_scalar == be_value(r.subrange(8, 12)),
        info.sequence_number == be_value(r.subrange(12, 20)),
        info.time == be_value(r.subrange(20, 28)),
        info.number == be_value(r.subrange(28, 36)),
        info.base_fee == be_value(r.subrange(60, 68)),
        info.blob_base_fee == be_value(r.subrange(84, 100)),
        info.block_hash@ == r.subrange(100, 132),
        info.batcher_address@ == r.subrange(144, 164),
        info.fct_mint_rate == be_value(r.subrange(180, 196)),
        info.fct_period_start_block == be_value(r.subrange(196, 212)),
        info.fct_total_minted == be_value(r.subrange(212, 228)),
        info.fct_max_supply == be_value(r.subrange(228, 244)),
        info.fct_period_minted == be_value(r.subrange(244, 260)),
        info.fct_initial_target_per_period == be_value(r.subrange(276, 292)),
        !info.empty_scalars,
        info.l1_fee_overhead@ == seq![0u64, 0u64, 0u64, 0u64],
{
}

} // verus!
