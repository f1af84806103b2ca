//! What goes into the attributes of a payload, and what comes out.
use vstd::prelude::*;

use crate::l1_info::L1BlockInfoFacet;

verus! {

/// The sender of the L1 info transaction.
pub const L1_INFO_DEPOSITOR_ADDRESS: [u8; 20] = [
    0xde, 0xad, 0xde, 0xad, 0xde, 0xad, 0xde, 0xad, 0xde, 0xad, 0xde, 0xad, 0xde, 0xad, 0xde, 0xad,
    0xde, 0xad, 0x00, 0x01,
];

/// The gas limit of the L1 info transaction.
pub const REGOLITH_SYSTEM_TX_GAS: u64 = 1_000_000;

/// The contract that gets the fees of L2 blocks.
pub const SEQUENCER_FEE_VAULT: [u8; 20] = [
    0x42, 0x00, 0x00, 0x00, 0x00, 0x00, 0x00, 0x00, 0x00, 0x00, 0x00, 0x00, 0x00, 0x00, 0x00, 0x00,
    0x00, 0x00, 0x00, 0x11,
];

/// The contract that keeps the L1 block info.
pub const L1_BLOCK_INFO: [u8; 20] = [
    0x42, 0x00, 0x00, 0x00, 0x00, 0x00, 0x00, 0x00, 0x00, 0x00, 0x00, 0x00, 0x00, 0x00, 0x00, 0x00,
    0x00, 0x00, 0x00, 0x15,
];

/// A block, by number and hash.
#[derive(Debug, Clone, Copy, PartialEq, Eq)]
pub struct BlockNumHash {
    /// The block's number.
    pub number: u64,
    /// The block's hash.
    pub hash: [u8; 32],
}

/// What a block's header says of its place in the chain.
#[derive(Debug, Clone, Copy, PartialEq, Eq)]
pub struct BlockInfo {
    /// The block's hash.
    pub hash: [u8; 32],
    /// The block's number.
    pub number: u64,
    /// The parent's hash.
    pub parent_hash: [u8; 32],
    /// The block's timestamp.
    pub timestamp: u64,
}

/// An L2 block and the L1 block that it was derived from.
#[derive(Debug, Clone, Copy, PartialEq, Eq)]
pub struct L2BlockInfo {
    /// The block itself.
    pub block_info: BlockInfo,
    /// The L1 block that it was derived from.
    pub l1_origin: BlockNumHash,
    /// How many L2 blocks of the same origin come before it.
    pub seq_num: u64,
}

/// An L1 header, field by field.
#[derive(Debug, PartialEq, Eq)]
pub struct HeaderFields {
    /// The parent's hash.
    pub parent_hash: [u8; 32],
    /// The hash of the list of ommers.
    pub ommers_hash: [u8; 32],
    /// Who gets the fees.
    pub beneficiary: [u8; 20],
    /// The root of the state.
    pub state_root: [u8; 32],
    /// The root of the transactions.
    pub transactions_root: [u8; 32],
    /// The root of the receipts.
    pub receipts_root: [u8; 32],
    /// The filter of the logs.
    pub logs_bloom: [u8; 256],
    /// The difficulty, as four words of 64 bits, the lowest first.
    pub difficulty: [u64; 4],
    /// The block's number.
    pub number: u64,
    /// The gas limit.
    pub gas_limit: u64,
    /// The gas used.
    pub gas_used: u64,
    /// The block's timestamp.
    pub timestamp: u64,
    /// What the block's producer adds.
    pub extra_data: Vec<u8>,
    /// The block's randomness.
    pub mix_hash: [u8; 32],
    /// The nonce.
    pub nonce: [u8; 8],
    /// The base fee, if the block has one.
    pub base_fee_per_gas: Option<u64>,
    /// The root of the withdrawals, if the block has one.
    pub withdrawals_root: Option<[u8; 32]>,
    /// The blob gas used, if the block counts it.
    pub blob_gas_used: Option<u64>,
    /// The excess blob gas, if the block counts it.
    pub excess_blob_gas: Option<u64>,
    /// The parent's beacon block root, if the block has one.
    pub parent_beacon_block_root: Option<[u8; 32]>,
    /// The hash of the requests, if the block has one.
    pub requests_hash: Option<[u8; 32]>,
}

impl View for HeaderFields {
    type V = HeaderView;

    open spec fn view(&self) -> HeaderView {
        HeaderView {
            parent_hash: self.parent_hash@,
            ommers_hash: self.ommers_hash@,
            beneficiary: self.beneficiary@,
            state_root: self.state_root@,
            transactions_root: self.transactions_root@,
            receipts_root: self.receipts_root@,
            logs_bloom: self.logs_bloom@,
            difficulty: self.difficulty@,
            number: self.number,
            gas_limit: self.gas_limit,
            gas_used: self.gas_used,
            timestamp: self.timestamp,
            extra_data: self.extra_data@,
            mix_hash: self.mix_hash@,
            nonce: self.nonce@,
            base_fee_per_gas: self.base_fee_per_gas,
            withdrawals_root: bytes_of(self.withdrawals_root),
            blob_gas_used: self.blob_gas_used,
            excess_blob_gas: self.excess_blob_gas,
            parent_beacon_block_root: bytes_of(self.parent_beacon_block_root),
            requests_hash: bytes_of(self.requests_hash),
        }
    }
}

/// The bytes of a hash, if there is one.
pub open spec fn bytes_of(hash: Option<[u8; 32]>) -> Option<Seq<u8>> {
    match hash {
        Some(hash) => Some(hash@),
        None => None,
    }
}

/// What the fields of an L1 header hold.
pub struct HeaderView {
    /// The parent's hash.
    pub parent_hash: Seq<u8>,
    /// The hash of the list of ommers.
    pub ommers_hash: Seq<u8>,
    /// Who gets the fees.
    pub beneficiary: Seq<u8>,
    /// The root of the state.
    pub state_root: Seq<u8>,
    /// The root of the transactions.
    pub transactions_root: Seq<u8>,
    /// The root of the receipts.
    pub receipts_root: Seq<u8>,
    /// The filter of the logs.
    pub logs_bloom: Seq<u8>,
    /// The difficulty, the lowest word first.
    pub difficulty: Seq<u64>,
    /// The block's number.
    pub number: u64,
    /// The gas limit.
    pub gas_limit: u64,
    /// The gas used.
    pub gas_used: u64,
    /// The block's timestamp.
    pub timestamp: u64,
    /// What the block's producer adds.
    pub extra_data: Seq<u8>,
    /// The block's randomness.
    pub mix_hash: Seq<u8>,
    /// The nonce.
    pub nonce: Seq<u8>,
    /// The base fee.
    pub base_fee_per_gas: Option<u64>,
    /// The root of the withdrawals.
    pub withdrawals_root: Option<Seq<u8>>,
    /// The blob gas used.
    pub blob_gas_used: Option<u64>,
    /// The excess blob gas.
    pub excess_blob_gas: Option<u64>,
    /// The parent's beacon block root.
    pub parent_beacon_block_root: Option<Seq<u8>>,
    /// The hash of the requests.
    pub requests_hash: Option<Seq<u8>>,
}

/// What is read of an L1 header.
#[derive(Debug, Clone, Copy, PartialEq, Eq)]
pub struct L1Header {
    /// The block's number.
    pub number: u64,
    /// The block's hash.
    pub hash: [u8; 32],
    /// The parent's hash.
    pub parent_hash: [u8; 32],
    /// The block's timestamp.
    pub timestamp: u64,
    /// The base fee, if the block has one.
    pub base_fee_per_gas: Option<u64>,
    /// The block's randomness.
    pub mix_hash: [u8; 32],
    /// The parent's beacon block root, if the block has one.
    pub parent_beacon_block_root: Option<[u8; 32]>,
}

/// What is read of the rollup's configuration. An amount is four words of 64
/// bits, the lowest first.
#[derive(Debug, Clone, Copy, PartialEq, Eq)]
pub struct RollupConfig {
    /// The seconds between two L2 blocks.
    pub block_time: u64,
    /// The chain id of the L2.
    pub l2_chain_id: u64,
    /// The mint rate at genesis.
    pub fct_initial_rate: Option<[u64; 4]>,
    /// The maximum supply of FCT.
    pub fct_max_supply: Option<[u64; 4]>,
    /// The FCT to mint per period, before any halving.
    pub fct_initial_target_per_period: Option<[u64; 4]>,
}

/// How far minting has got.
#[derive(Debug, Clone, Copy, PartialEq, Eq)]
pub struct FctState {
    /// The mint rate.
    pub mint_rate: u128,
    /// The FCT minted over all periods.
    pub total_minted: u128,
    /// The block at which the current period started.
    pub period_start_block: u128,
    /// The FCT minted in the current period.
    pub period_minted: u128,
}

/// Which hardforks are active at some time.
#[derive(Debug, Clone, Copy, PartialEq, Eq)]
pub struct ActiveForks {
    /// Canyon.
    pub canyon: bool,
    /// Ecotone.
    pub ecotone: bool,
    /// Fjord.
    pub fjord: bool,
    /// Isthmus.
    pub isthmus: bool,
    /// Interop.
    pub interop: bool,
}

/// A hardfork that comes with transactions of its own.
#[derive(Debug, Clone, Copy, PartialEq, Eq, Structural)]
pub enum Hardfork {
    /// Ecotone.
    Ecotone,
    /// Fjord.
    Fjord,
    /// Isthmus.
    Isthmus,
    /// Interop.
    Interop,
}

/// A transaction of the parent block.
#[derive(Debug, PartialEq, Eq)]
pub enum BlockTransaction {
    /// A deposit, with its input.
    Deposit(Vec<u8>),
    /// Any other transaction.
    Other,
}

/// The L1 info in the parent block.
#[derive(Debug, Clone, Copy, PartialEq, Eq)]
pub enum ParentL1Info {
    /// In the Facet format.
    Facet(L1BlockInfoFacet),
    /// In any other format.
    Other,
}

/// The L1 info for the block to build.
#[derive(Debug, PartialEq, Eq)]
pub enum NewL1Info {
    /// In the Facet format.
    Facet(L1BlockInfoFacet),
    /// In any other format: the L1 block's hash and the calldata.
    Other([u8; 32], Vec<u8>),
}

/// What is asked of the derivation of deposits.
#[derive(Debug, Clone, Copy, PartialEq, Eq)]
pub struct DepositRequest {
    /// The chain id of the L2.
    pub l2_chain_id: u64,
    /// The number of the block to build.
    pub l2_block_number: u64,
    /// The L1 base fee.
    pub l1_base_fee: u64,
    /// The L1 info that minting goes on from.
    pub parent_l1_info: L1BlockInfoFacet,
}

/// A deposit transaction.
#[derive(Debug, PartialEq, Eq)]
pub struct DepositTransaction {
    /// The hash that identifies where the deposit comes from.
    pub source_hash: [u8; 32],
    /// The sender.
    pub from: [u8; 20],
    /// The contract called.
    pub to: [u8; 20],
    /// The ether minted.
    pub mint: Option<u128>,
    /// The value sent.
    pub value: [u64; 4],
    /// The gas limit.
    pub gas_limit: u64,
    /// Whether the transaction is exempt from the gas limit.
    pub is_system_transaction: bool,
    /// The input.
    pub input: Vec<u8>,
}

/// The attributes of a payload.
#[derive(Debug, PartialEq, Eq)]
pub struct PayloadAttributes {
    /// The block's timestamp.
    pub timestamp: u64,
    /// The block's randomness.
    pub prev_randao: [u8; 32],
    /// Who gets the fees.
    pub suggested_fee_recipient: [u8; 20],
    /// The parent's beacon block root.
    pub parent_beacon_block_root: Option<[u8; 32]>,
    /// Whether the block has a list of withdrawals, which is empty.
    pub empty_withdrawals: bool,
    /// The encoded transactions.
    pub transactions: Vec<Vec<u8>>,
    /// Whether the block holds these transactions alone.
    pub no_tx_pool: bool,
    /// The gas limit.
    pub gas_limit: u64,
    /// The EIP-1559 parameters.
    pub eip_1559_params: Option<[u8; 8]>,
}

/// Why a payload cannot be built.
#[derive(Debug, PartialEq, Eq)]
pub enum BuilderError {
    /// The L1 origin's hash differs: the epoch and the parent's origin.
    BlockMismatch(BlockNumHash, BlockNumHash),
    /// The new epoch does not follow the parent's origin: the epoch, the
    /// parent's origin and the hash that the epoch names as its parent.
    BlockMismatchEpochReset(BlockNumHash, BlockNumHash, [u8; 32]),
    /// The block would come before its L1 origin: the parent's origin, the
    /// block's time, the L1 block and its time.
    BrokenTimeInvariant(BlockNumHash, u64, BlockNumHash, u64),
    /// Anything else.
    Custom(String),
}

/// What went wrong, for the pipeline.
#[derive(Debug, PartialEq, Eq)]
pub enum PipelineError {
    /// In building the attributes.
    AttributesBuilder(BuilderError),
    /// In decoding deposits.
    BadEncoding(String),
    /// In updating the system config.
    SystemConfigUpdate(String),
}

/// What the pipeline has to do about it.
#[derive(Debug, PartialEq, Eq)]
pub enum PipelineErrorKind {
    /// Start over from another L1 origin.
    Reset(BuilderError),
    /// Stop.
    Critical(PipelineError),
    /// Stop: a block number or a time does not fit its type.
    Overflow,
}

} // verus!
