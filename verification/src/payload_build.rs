//! Building the attributes of the next L2 payload.
//!
//! Preparing a payload alternates between decisions and work that only the
//! outside can do: fetching blocks, deriving deposits, encoding transactions. A
//! [`PayloadBuild`] makes the decisions. Its stage says what it waits for;
//! [`PayloadBuild::advance`] takes the answer and moves on to the next stage.
use alloy_consensus::Header;
use alloy_primitives::{B256, U256};
use op_alloy_consensus::{DepositSourceDomain, L1InfoDepositSource};
use vstd::prelude::*;
use vstd::string::*;

use crate::attributes::{
    ActiveForks, BlockNumHash, BlockTransaction, BuilderError, DepositRequest, DepositTransaction,
    FctState, Hardfork, HeaderFields, HeaderView, L1Header, L2BlockInfo, NewL1Info, ParentL1Info,
    PayloadAttributes, PipelineError, PipelineErrorKind, RollupConfig, L1_BLOCK_INFO,
    L1_INFO_DEPOSITOR_ADDRESS, REGOLITH_SYSTEM_TX_GAS, SEQUENCER_FEE_VAULT,
};
use crate::big_endian::zeros;
use crate::l1_info::{calldata, L1BlockInfoFacet};

verus! {

/// The block so far.
#[derive(Debug, PartialEq, Eq)]
pub struct Draft {
    /// The header of the block's L1 origin.
    pub header: L1Header,
    /// How many L2 blocks of the same origin come before the block.
    pub sequence_number: u64,
    /// The encoded deposits.
    pub deposits: Vec<Vec<u8>>,
    /// How far minting has got.
    pub fct: FctState,
    /// The block's time.
    pub next_l2_time: u64,
}

/// What a build waits for.
#[derive(Debug, PartialEq, Eq)]
pub enum Stage {
    /// The system config at an L2 block.
    SystemConfig {
        /// The block's number.
        number: u64,
    },
    /// The parent block.
    ParentBlock {
        /// The block's number.
        number: u64,
    },
    /// The L1 info in the parent block.
    ParentInfo {
        /// The input of the block's first transaction.
        calldata: Vec<u8>,
    },
    /// The header of the L1 origin.
    Header {
        /// The header's hash.
        hash: [u8; 32],
        /// The L1 info in the parent block, if there is one.
        parent_info: Option<L1BlockInfoFacet>,
        /// Whether the origin is another than the parent's.
        new_epoch: bool,
    },
    /// The receipts of the L1 origin.
    Receipts {
        /// The L1 block's hash.
        hash: [u8; 32],
        /// The L1 info in the parent block, if there is one.
        parent_info: Option<L1BlockInfoFacet>,
        /// The L1 block's header.
        header: L1Header,
    },
    /// The transactions of the L1 origin.
    Transactions {
        /// The L1 block's hash.
        hash: [u8; 32],
        /// The L1 info in the parent block, if there is one.
        parent_info: Option<L1BlockInfoFacet>,
        /// The L1 block's header.
        header: L1Header,
    },
    /// The deposits in the L1 origin.
    Deposits {
        /// What is asked for.
        request: DepositRequest,
        /// The L1 block's header.
        header: L1Header,
    },
    /// The system config, updated with the L1 origin's receipts.
    ConfigUpdate {
        /// The L1 block's header. Ecotone's rules apply if it is active at the
        /// header's time.
        header: L1Header,
        /// The encoded deposits.
        deposits: Vec<Vec<u8>>,
        /// How far minting has got.
        fct: FctState,
    },
    /// The hardforks active at the parent's time and at the block's.
    Forks {
        /// The parent's time.
        parent_time: u64,
        /// The block so far, with its time.
        draft: Draft,
    },
    /// The transactions of hardforks.
    Upgrades {
        /// The hardforks, in order.
        wanted: Vec<Hardfork>,
        /// The block so far.
        draft: Draft,
        /// The hardforks active at the block's time.
        active: ActiveForks,
    },
    /// The L1 info for the block.
    NewInfo {
        /// The block so far, with its sequence number, its time and its origin.
        draft: Draft,
        /// The hardforks' transactions.
        upgrades: Vec<Vec<u8>>,
        /// The hardforks active at the block's time.
        active: ActiveForks,
    },
    /// The encoded L1 info transaction.
    Encoding {
        /// The transaction.
        transaction: DepositTransaction,
        /// The block so far.
        draft: Draft,
        /// The hardforks' transactions.
        upgrades: Vec<Vec<u8>>,
        /// The hardforks active at the block's time.
        active: ActiveForks,
    },
    /// The gas limit and the EIP-1559 parameters.
    GasSettings {
        /// The header of the block's L1 origin.
        header: L1Header,
        /// The parent's time.
        parent_time: u64,
        /// The block's time.
        next_l2_time: u64,
        /// The encoded transactions.
        transactions: Vec<Vec<u8>>,
        /// The hardforks active at the block's time.
        active: ActiveForks,
    },
    /// Nothing: the attributes are complete.
    Done(PayloadAttributes),
    /// Nothing: there is no payload.
    Failed(PipelineErrorKind),
}

/// An answer to what a build waits for. Where the outside could not do its
/// part, a string says why.
#[derive(Debug, PartialEq, Eq)]
pub enum Event {
    /// The system config is there.
    SystemConfig,
    /// The parent block's transactions.
    ParentBlock(Result<Vec<BlockTransaction>, String>),
    /// The L1 info in the parent block.
    ParentInfo(Result<ParentL1Info, String>),
    /// The header of the L1 origin.
    Header(HeaderFields),
    /// The receipts are there.
    Receipts,
    /// The transactions are there.
    Transactions,
    /// The encoded deposits, and how far minting has got with them.
    Deposits(Result<(Vec<Vec<u8>>, FctState), String>),
    /// The system config is updated.
    ConfigUpdate(Result<(), String>),
    /// The hardforks active at the parent's time and at the block's.
    Forks(ActiveForks, ActiveForks),
    /// The encoded transactions of each hardfork.
    Upgrades(Vec<Vec<Vec<u8>>>),
    /// The L1 info for the block.
    NewInfo(Result<NewL1Info, String>),
    /// The encoded L1 info transaction.
    Encoding(Vec<u8>),
    /// The gas limit and the EIP-1559 parameters.
    GasSettings(u64, Option<[u8; 8]>),
}

/// Where a payload is built: on top of an L2 block, from an L1 origin.
#[derive(Debug, Clone, Copy, PartialEq, Eq)]
pub struct BuildSite {
    /// The rollup's configuration.
    pub rollup_cfg: RollupConfig,
    /// The block to build on.
    pub l2_parent: L2BlockInfo,
    /// The L1 origin of the block to build.
    pub epoch: BlockNumHash,
}

/// A payload being built.
#[derive(Debug, PartialEq, Eq)]
pub struct PayloadBuild {
    /// Where it is built.
    pub site: BuildSite,
    /// What the build waits for.
    pub stage: Stage,
}

/// The hash that identifies the L1 info deposit of an L1 block.
pub uninterp spec fn l1_info_source_hash(l1_block_hash: Seq<u8>, seq_number: u64) -> Seq<u8>;

/// `DepositSourceDomain::source_hash` of an L1 info deposit: a digest of the L1
/// block's hash and the sequence number. Which digest is left unsaid here.
#[verifier::external_body]
fn source_hash(l1_block_hash: [u8; 32], seq_number: u64) -> (r: [u8; 32])
    ensures
        r@ == l1_info_source_hash(l1_block_hash@, seq_number),
{
    let l1_block_hash = B256::from(l1_block_hash);
    DepositSourceDomain::L1Info(L1InfoDepositSource { l1_block_hash, seq_number }).source_hash().0
}

/// The hash of an L1 header.
pub uninterp spec fn l1_header_hash(fields: HeaderView) -> [u8; 32];

/// `Header::hash_slow`: a digest of the header, in which every field counts.
/// Which digest is left unsaid here.
#[verifier::external_body]
fn header_hash(fields: HeaderFields) -> (r: [u8; 32])
    ensures
        r == l1_header_hash(fields@),
{
    let HeaderFields { parent_hash, ommers_hash, beneficiary, state_root, transactions_root,
        receipts_root, logs_bloom, difficulty, number, gas_limit, gas_used, timestamp, extra_data,
        mix_hash, nonce, base_fee_per_gas, withdrawals_root, blob_gas_used, excess_blob_gas,
        parent_beacon_block_root, requests_hash } = fields;
    Header { parent_hash: parent_hash.into(), ommers_hash: ommers_hash.into(),
        beneficiary: beneficiary.into(), state_root: state_root.into(),
        transactions_root: transactions_root.into(), receipts_root: receipts_root.into(),
        logs_bloom: logs_bloom.into(), difficulty: U256::from_limbs(difficulty), number, gas_limit,
        gas_used, timestamp, extra_data: extra_data.into(), mix_hash: mix_hash.into(),
        nonce: nonce.into(), base_fee_per_gas, withdrawals_root: withdrawals_root.map(B256::from),
        blob_gas_used, excess_blob_gas,
        parent_beacon_block_root: parent_beacon_block_root.map(B256::from),
        requests_hash: requests_hash.map(B256::from) }.hash_slow().0
}

/// What is read of an L1 header, with its hash.
pub open spec fn sealed(fields: HeaderFields) -> L1Header {
    L1Header {
        number: fields.number,
        hash: l1_header_hash(fields@),
        parent_hash: fields.parent_hash,
        timestamp: fields.timestamp,
        base_fee_per_gas: fields.base_fee_per_gas,
        mix_hash: fields.mix_hash,
        parent_beacon_block_root: fields.parent_beacon_block_root,
    }
}

/// Reads an L1 header, with its hash.
pub fn seal(fields: HeaderFields) -> (header: L1Header)
    ensures
        header == sealed(fields),
{
    let number: u64 = fields.number;
    let parent_hash = fields.parent_hash;
    let timestamp: u64 = fields.timestamp;
    let base_fee_per_gas = fields.base_fee_per_gas;
    let mix_hash = fields.mix_hash;
    let parent_beacon_block_root = fields.parent_beacon_block_root;
    L1Header {
        number,
        hash: header_hash(fields),
        parent_hash,
        timestamp,
        base_fee_per_gas,
        mix_hash,
        parent_beacon_block_root,
    }
}

/// The number that four words of 64 bits stand for, the lowest word first.
pub open spec fn u256_value(limbs: Seq<u64>) -> int {
    limbs[0] + limbs[1] * 0x1_0000_0000_0000_0000 + limbs[2]
        * 0x1_0000_0000_0000_0000_0000_0000_0000_0000 + limbs[3]
        * 0x1_0000_0000_0000_0000_0000_0000_0000_0000_0000_0000_0000_0000
}

/// `U256::from_limbs` takes the words, the lowest first, and `u128::try_from`
/// gives the number back where it fits.
#[verifier::external_body]
fn u256_to_u128(limbs: [u64; 4]) -> (r: Option<u128>)
    ensures
        r is Some <==> u256_value(limbs@) <= u128::MAX,
        r matches Some(n) ==> n == u256_value(limbs@),
{
    u128::try_from(U256::from_limbs(limbs)).ok()
}

/// A configured amount; zero where there is none, or it does not fit.
pub open spec fn amount_or_zero(amount: Option<[u64; 4]>) -> int {
    match amount {
        Some(limbs) => if u256_value(limbs@) <= u128::MAX {
            u256_value(limbs@)
        } else {
            0
        },
        None => 0,
    }
}

/// A configured amount; zero where there is none, or it does not fit.
fn configured(amount: Option<[u64; 4]>) -> (r: u128)
    ensures
        r == amount_or_zero(amount),
{
    match amount {
        Some(limbs) => match u256_to_u128(limbs) {
            Some(n) => n,
            None => 0,
        },
        None => 0,
    }
}

/// Whether two hashes are the same.
fn same_hash(a: &[u8; 32], b: &[u8; 32]) -> (r: bool)
    ensures
        r == (a@ == b@),
{
    let mut i: usize = 0;
    while i < 32
        invariant
            i <= 32,
            forall|j: int| 0 <= j < i ==> a@[j] == b@[j],
        decreases 32 - i,
    {
        if a[i] != b[i] {
            assert(a@[i as int] != b@[i as int]);
            return false;
        }
        i = i + 1;
    }
    assert(a@ =~= b@);
    true
}

/// How far minting has got, by an L1 info.
pub open spec fn fct_of(info: L1BlockInfoFacet) -> FctState {
    FctState {
        mint_rate: info.fct_mint_rate,
        total_minted: info.fct_total_minted,
        period_start_block: info.fct_period_start_block,
        period_minted: info.fct_period_minted,
    }
}

/// How far minting has got at genesis: nowhere, at the configured rate.
pub open spec fn genesis_fct(cfg: RollupConfig) -> FctState {
    FctState {
        mint_rate: amount_or_zero(cfg.fct_initial_rate) as u128,
        total_minted: 0,
        period_start_block: 0,
        period_minted: 0,
    }
}

/// `info` is what stands in for the L1 info that the genesis block lacks.
pub open spec fn is_genesis_info(cfg: RollupConfig, info: L1BlockInfoFacet) -> bool {
    &&& fct_of(info) == genesis_fct(cfg)
    &&& info.fct_max_supply == amount_or_zero(cfg.fct_max_supply)
    &&& info.fct_initial_target_per_period == amount_or_zero(cfg.fct_initial_target_per_period)
    &&& info.number == 0
    &&& info.time == 0
    &&& info.base_fee == 0
    &&& info.block_hash@ == zeros(32)
    &&& info.sequence_number == 0
    &&& info.batcher_address@ == zeros(20)
    &&& info.blob_base_fee == 0
    &&& info.blob_base_fee_scalar == 0
    &&& info.base_fee_scalar == 0
    &&& !info.empty_scalars
    &&& info.l1_fee_overhead@ == seq![0u64, 0u64, 0u64, 0u64]
}

/// The L1 info that stands in for the one that the genesis block lacks.
pub fn genesis_info(cfg: &RollupConfig) -> (info: L1BlockInfoFacet)
    ensures
        is_genesis_info(*cfg, info),
{
    let info = L1BlockInfoFacet {
        number: 0,
        time: 0,
        base_fee: 0,
        block_hash: [0u8; 32],
        sequence_number: 0,
        batcher_address: [0u8; 20],
        blob_base_fee: 0,
        blob_base_fee_scalar: 0,
        base_fee_scalar: 0,
        empty_scalars: false,
        l1_fee_overhead: [0u64; 4],
        fct_mint_rate: configured(cfg.fct_initial_rate),
        fct_total_minted: 0,
        fct_period_start_block: 0,
        fct_period_minted: 0,
        fct_max_supply: configured(cfg.fct_max_supply),
        fct_initial_target_per_period: configured(cfg.fct_initial_target_per_period),
    };
    assert(info.block_hash@ =~= zeros(32));
    assert(info.batcher_address@ =~= zeros(20));
    assert(info.l1_fee_overhead@ =~= seq![0u64, 0u64, 0u64, 0u64]);
    info
}

/// `info` with the rollup's FCT parameters where it has none, and with how far
/// minting has got.
pub open spec fn completed_info(
    cfg: RollupConfig,
    fct: FctState,
    info: L1BlockInfoFacet,
) -> L1BlockInfoFacet {
    L1BlockInfoFacet {
        fct_max_supply: if info.fct_max_supply == 0 {
            amount_or_zero(cfg.fct_max_supply) as u128
        } else {
            info.fct_max_supply
        },
        fct_initial_target_per_period: if info.fct_initial_target_per_period == 0 {
            amount_or_zero(cfg.fct_initial_target_per_period) as u128
        } else {
            info.fct_initial_target_per_period
        },
        fct_mint_rate: fct.mint_rate,
        fct_total_minted: fct.total_minted,
        fct_period_start_block: fct.period_start_block,
        fct_period_minted: fct.period_minted,
        ..info
    }
}

/// Fills in the rollup's FCT parameters where an L1 info has none, and sets how
/// far minting has got.
pub fn complete_info(cfg: &RollupConfig, fct: &FctState, info: L1BlockInfoFacet) -> (r:
    L1BlockInfoFacet)
    ensures
        r == completed_info(*cfg, *fct, info),
{
    let mut info = info;
    if info.fct_max_supply == 0 {
        info.fct_max_supply = configured(cfg.fct_max_supply);
    }
    if info.fct_initial_target_per_period == 0 {
        info.fct_initial_target_per_period = configured(cfg.fct_initial_target_per_period);
    }
    info.fct_mint_rate = fct.mint_rate;
    info.fct_total_minted = fct.total_minted;
    info.fct_period_start_block = fct.period_start_block;
    info.fct_period_minted = fct.period_minted;
    info
}

/// `tx` deposits an L1 info.
pub open spec fn is_l1_info_deposit(
    tx: DepositTransaction,
    source_hash: Seq<u8>,
    to: [u8; 20],
    input: Seq<u8>,
) -> bool {
    &&& tx.source_hash@ == source_hash
    &&& tx.from == L1_INFO_DEPOSITOR_ADDRESS
    &&& tx.to == to
    &&& tx.mint is None
    &&& tx.value@ == seq![0u64, 0u64, 0u64, 0u64]
    &&& tx.gas_limit == REGOLITH_SYSTEM_TX_GAS
    &&& !tx.is_system_transaction
    &&& tx.input@ == input
}

/// The transaction that deposits an L1 info.
pub fn l1_info_deposit(source_hash: [u8; 32], to: [u8; 20], input: Vec<u8>) -> (tx:
    DepositTransaction)
    ensures
        is_l1_info_deposit(tx, source_hash@, to, input@),
{
    let tx = DepositTransaction {
        source_hash,
        from: L1_INFO_DEPOSITOR_ADDRESS,
        to,
        mint: None,
        value: [0u64; 4],
        gas_limit: REGOLITH_SYSTEM_TX_GAS,
        is_system_transaction: false,
        input,
    };
    assert(tx.value@ =~= seq![0u64, 0u64, 0u64, 0u64]);
    tx
}

/// `fork`, if it is active at a block's time but not at its parent's.
pub open spec fn if_activated(fork: Hardfork, before: bool, now: bool) -> Seq<Hardfork> {
    if now && !before {
        seq![fork]
    } else {
        Seq::empty()
    }
}

/// The hardforks that bring their transactions into a block, in order.
pub open spec fn activated(before: ActiveForks, now: ActiveForks) -> Seq<Hardfork> {
    if_activated(Hardfork::Ecotone, before.ecotone, now.ecotone) + if_activated(
        Hardfork::Fjord,
        before.fjord,
        now.fjord,
    ) + if_activated(Hardfork::Isthmus, before.isthmus, now.isthmus) + if_activated(
        Hardfork::Interop,
        before.interop,
        now.interop,
    )
}

/// The hardforks that bring their transactions into a block, in order.
pub fn activated_forks(before: &ActiveForks, now: &ActiveForks) -> (r: Vec<Hardfork>)
    ensures
        r@ == activated(*before, *now),
{
    let mut forks: Vec<Hardfork> = Vec::new();
    if now.ecotone && !before.ecotone {
        forks.push(Hardfork::Ecotone);
    }
    if now.fjord && !before.fjord {
        forks.push(Hardfork::Fjord);
    }
    if now.isthmus && !before.isthmus {
        forks.push(Hardfork::Isthmus);
    }
    if now.interop && !before.interop {
        forks.push(Hardfork::Interop);
    }
    assert(forks@ =~= activated(*before, *now));
    forks
}

/// The items of all groups, group after group.
pub open spec fn joined(groups: Seq<Vec<Vec<u8>>>) -> Seq<Vec<u8>>
    decreases groups.len(),
{
    if groups.len() == 0 {
        Seq::empty()
    } else {
        groups.first()@ + joined(groups.drop_first())
    }
}

/// Puts the items of all groups into one, group after group.
fn join(groups: Vec<Vec<Vec<u8>>>) -> (r: Vec<Vec<u8>>)
    ensures
        r@ == joined(groups@),
{
    let mut groups = groups;
    let ghost all = groups@;
    let mut items: Vec<Vec<u8>> = Vec::new();
    assert(all.skip(all.len() as int) =~= Seq::empty());
    while groups.len() > 0
        invariant
            groups@.len() <= all.len(),
            groups@ == all.take(groups@.len() as int),
            items@ == joined(all.skip(groups@.len() as int)),
        decreases groups@.len(),
    {
        let ghost n = groups@.len() - 1;
        let mut group = groups.pop().unwrap();
        group.append(&mut items);
        items = group;
        proof {
            assert(all.skip(n).first() == all[n]);
            assert(all.skip(n).drop_first() =~= all.skip(n + 1));
            assert(groups@ =~= all.take(n));
        }
    }
    assert(all.skip(0) =~= all);
    items
}

impl BuildSite {
    /// `next` waits for the header of the L1 origin, or the origin does not fit
    /// the parent's.
    pub open spec fn origin_checked(
        self,
        parent_info: Option<L1BlockInfoFacet>,
        next: Stage,
    ) -> bool {
        let new_epoch = self.l2_parent.l1_origin.number != self.epoch.number;
        if !new_epoch && self.l2_parent.l1_origin.hash@ != self.epoch.hash@ {
            next == Stage::Failed(
                PipelineErrorKind::Reset(
                    BuilderError::BlockMismatch(self.epoch, self.l2_parent.l1_origin),
                ),
            )
        } else {
            next == (Stage::Header { hash: self.epoch.hash, parent_info, new_epoch })
        }
    }

    /// `next` waits for the hardforks, or the block's time does not fit its L1
    /// origin.
    pub open spec fn time_checked(
        self,
        header: L1Header,
        sequence_number: int,
        deposits: Seq<Vec<u8>>,
        fct: FctState,
        next: Stage,
    ) -> bool {
        let next_l2_time = self.l2_parent.block_info.timestamp + self.rollup_cfg.block_time;
        if sequence_number > u64::MAX || next_l2_time > u64::MAX {
            next == Stage::Failed(PipelineErrorKind::Overflow)
        } else if next_l2_time < header.timestamp {
            next == Stage::Failed(
                PipelineErrorKind::Reset(
                    BuilderError::BrokenTimeInvariant(
                        self.l2_parent.l1_origin,
                        next_l2_time as u64,
                        BlockNumHash { number: header.number, hash: header.hash },
                        header.timestamp,
                    ),
                ),
            )
        } else {
            &&& next matches Stage::Forks { parent_time, draft }
            &&& parent_time == self.l2_parent.block_info.timestamp
            &&& draft.header == header
            &&& draft.sequence_number == sequence_number
            &&& draft.deposits@ == deposits
            &&& draft.fct == fct
            &&& draft.next_l2_time == next_l2_time
        }
    }

    /// `next` waits for the L1 origin's receipts where the origin is new, and
    /// for the hardforks otherwise; or the origin's header does not fit.
    pub open spec fn header_checked(
        self,
        parent_info: Option<L1BlockInfoFacet>,
        new_epoch: bool,
        header: L1Header,
        next: Stage,
    ) -> bool {
        let origin = self.l2_parent.l1_origin;
        if !new_epoch {
            let fct = match parent_info {
                Some(info) => fct_of(info),
                None => genesis_fct(self.rollup_cfg),
            };
            self.time_checked(header, self.l2_parent.seq_num + 1, Seq::empty(), fct, next)
        } else if origin.hash@ != header.parent_hash@ {
            next == Stage::Failed(
                PipelineErrorKind::Reset(
                    BuilderError::BlockMismatchEpochReset(self.epoch, origin, header.parent_hash),
                ),
            )
        } else {
            next == (Stage::Receipts { hash: self.epoch.hash, parent_info, header })
        }
    }

    /// `next` waits for the deposits in the L1 origin.
    pub open spec fn deposits_requested(
        self,
        parent_info: Option<L1BlockInfoFacet>,
        header: L1Header,
        next: Stage,
    ) -> bool {
        if self.l2_parent.block_info.number == u64::MAX {
            next == Stage::Failed(PipelineErrorKind::Overflow)
        } else {
            &&& next matches Stage::Deposits { request, header: of_header }
            &&& of_header == header
            &&& request.l2_chain_id == self.rollup_cfg.l2_chain_id
            &&& request.l2_block_number == self.l2_parent.block_info.number + 1
            &&& request.l1_base_fee == match header.base_fee_per_gas {
                Some(fee) => fee,
                None => 0,
            }
            &&& match parent_info {
                Some(info) => request.parent_l1_info == info,
                None => is_genesis_info(self.rollup_cfg, request.parent_l1_info),
            }
        }
    }

    /// Holds the L1 origin against the parent's.
    pub fn check_origin(&self, parent_info: Option<L1BlockInfoFacet>) -> (next: Stage)
        ensures
            self.origin_checked(parent_info, next),
    {
        let origin = self.l2_parent.l1_origin;
        let new_epoch = origin.number != self.epoch.number;
        if !new_epoch && !same_hash(&origin.hash, &self.epoch.hash) {
            return Stage::Failed(
                PipelineErrorKind::Reset(BuilderError::BlockMismatch(self.epoch, origin)),
            );
        }
        Stage::Header { hash: self.epoch.hash, parent_info, new_epoch }
    }

    /// Holds the block's time against its L1 origin's. No sequence number stands
    /// for one that does not fit.
    pub fn check_time(
        &self,
        header: L1Header,
        sequence_number: Option<u64>,
        deposits: Vec<Vec<u8>>,
        fct: FctState,
    ) -> (next: Stage)
        ensures
            self.time_checked(
                header,
                match sequence_number {
                    Some(n) => n as int,
                    None => u64::MAX + 1,
                },
                deposits@,
                fct,
                next,
            ),
    {
        let parent_time: u64 = self.l2_parent.block_info.timestamp;
        match (sequence_number, parent_time.checked_add(self.rollup_cfg.block_time)) {
            (Some(sequence_number), Some(next_l2_time)) => {
                if next_l2_time < header.timestamp {
                    return Stage::Failed(
                        PipelineErrorKind::Reset(
                            BuilderError::BrokenTimeInvariant(
                                self.l2_parent.l1_origin,
                                next_l2_time,
                                BlockNumHash { number: header.number, hash: header.hash },
                                header.timestamp,
                            ),
                        ),
                    );
                }
                Stage::Forks {
                    parent_time,
                    draft: Draft { header, sequence_number, deposits, fct, next_l2_time },
                }
            },
            _ => Stage::Failed(PipelineErrorKind::Overflow),
        }
    }

    /// Takes the header of the L1 origin.
    pub fn origin_header(
        &self,
        parent_info: Option<L1BlockInfoFacet>,
        new_epoch: bool,
        header: L1Header,
    ) -> (next: Stage)
        ensures
            self.header_checked(parent_info, new_epoch, header, next),
    {
        let origin = self.l2_parent.l1_origin;
        if new_epoch {
            if !same_hash(&origin.hash, &header.parent_hash) {
                return Stage::Failed(
                    PipelineErrorKind::Reset(
                        BuilderError::BlockMismatchEpochReset(
                            self.epoch,
                            origin,
                            header.parent_hash,
                        ),
                    ),
                );
            }
            Stage::Receipts { hash: self.epoch.hash, parent_info, header }
        } else {
            // Preserve parent FCT values when not processing deposits
            let info = match parent_info {
                Some(info) => info,
                None => genesis_info(&self.rollup_cfg),
            };
            let fct = FctState {
                mint_rate: info.fct_mint_rate,
                total_minted: info.fct_total_minted,
                period_start_block: info.fct_period_start_block,
                period_minted: info.fct_period_minted,
            };
            self.check_time(header, self.l2_parent.seq_num.checked_add(1), Vec::new(), fct)
        }
    }

    /// Asks for the deposits in the L1 origin.
    pub fn request_deposits(&self, parent_info: Option<L1BlockInfoFacet>, header: L1Header) -> (next:
        Stage)
        ensures
            self.deposits_requested(parent_info, header, next),
    {
        match self.l2_parent.block_info.number.checked_add(1) {
            Some(l2_block_number) => {
                let l1_base_fee: u64 = match header.base_fee_per_gas {
                    Some(fee) => fee,
                    None => 0,
                };
                let parent_l1_info = match parent_info {
                    Some(info) => info,
                    None => genesis_info(&self.rollup_cfg),
                };
                Stage::Deposits {
                    request: DepositRequest {
                        l2_chain_id: self.rollup_cfg.l2_chain_id,
                        l2_block_number,
                        l1_base_fee,
                        parent_l1_info,
                    },
                    header,
                }
            },
            None => Stage::Failed(PipelineErrorKind::Overflow),
        }
    }
}

/// `root` is the parent beacon block root of a payload: the one in the header of
/// its L1 origin, or zero where that has none, if Ecotone is active; and none
/// before.
pub open spec fn is_beacon_root(root: Option<[u8; 32]>, header: L1Header, ecotone: bool) -> bool {
    match root {
        Some(root) => ecotone && root@ == match header.parent_beacon_block_root {
            Some(of_header) => of_header@,
            None => zeros(32),
        },
        None => !ecotone,
    }
}

/// `attributes` are those of a block at `next_l2_time`, from the L1 origin
/// `header`.
pub open spec fn are_attributes(
    attributes: PayloadAttributes,
    header: L1Header,
    next_l2_time: int,
    transactions: Seq<Vec<u8>>,
    active: ActiveForks,
    gas_limit: u64,
    eip_1559_params: Option<[u8; 8]>,
) -> bool {
    &&& attributes.timestamp == next_l2_time
    &&& attributes.prev_randao == header.mix_hash
    &&& attributes.suggested_fee_recipient@ == SEQUENCER_FEE_VAULT@
    &&& is_beacon_root(attributes.parent_beacon_block_root, header, active.ecotone)
    &&& attributes.empty_withdrawals == active.canyon
    &&& attributes.transactions@ == transactions
    &&& attributes.no_tx_pool
    &&& attributes.gas_limit == gas_limit
    &&& attributes.eip_1559_params == eip_1559_params
}

impl PayloadBuild {
    /// `next` is what the build waits for once it has the answer `event`. An
    /// answer to anything else than it waits for changes nothing.
    pub open spec fn follows(self, event: Event, next: Stage) -> bool {
        match (self.stage, event) {
            (Stage::SystemConfig { .. }, Event::SystemConfig) => {
                let number = self.site.l2_parent.block_info.number;
                if number > 0 {
                    next == (Stage::ParentBlock { number })
                } else {
                    self.site.origin_checked(None, next)
                }
            },
            (Stage::ParentBlock { .. }, Event::ParentBlock(Err(why))) => is_custom(next, why@),
            (Stage::ParentBlock { .. }, Event::ParentBlock(Ok(txs))) => if txs@.len() == 0 {
                is_custom(next, "Parent block has no transactions"@)
            } else {
                match txs@[0] {
                    BlockTransaction::Deposit(calldata) => next == (Stage::ParentInfo { calldata }),
                    BlockTransaction::Other => is_custom(
                        next,
                        "First transaction is not a deposit"@,
                    ),
                }
            },
            (Stage::ParentInfo { .. }, Event::ParentInfo(Err(why))) => is_custom(
                next,
                "Failed to decode L1 info: "@ + why@,
            ),
            (Stage::ParentInfo { .. }, Event::ParentInfo(Ok(ParentL1Info::Other))) => is_custom(
                next,
                "Parent block is not using Facet L1 info variant"@,
            ),
            (Stage::ParentInfo { .. }, Event::ParentInfo(Ok(ParentL1Info::Facet(info)))) => {
                self.site.origin_checked(Some(info), next)
            },
            (Stage::Header { parent_info, new_epoch, .. }, Event::Header(fields)) => {
                self.site.header_checked(parent_info, new_epoch, sealed(fields), next)
            },
            (Stage::Receipts { parent_info, header, .. }, Event::Receipts) => {
                next == (Stage::Transactions { hash: self.site.epoch.hash, parent_info, header })
            },
            (Stage::Transactions { parent_info, header, .. }, Event::Transactions) => {
                self.site.deposits_requested(parent_info, header, next)
            },
            (Stage::Deposits { .. }, Event::Deposits(Err(why))) => next == Stage::Failed(
                PipelineErrorKind::Critical(PipelineError::BadEncoding(why)),
            ),
            (Stage::Deposits { header, .. }, Event::Deposits(Ok((deposits, fct)))) => {
                next == (Stage::ConfigUpdate { header, deposits, fct })
            },
            (Stage::ConfigUpdate { .. }, Event::ConfigUpdate(Err(why))) => next == Stage::Failed(
                PipelineErrorKind::Critical(PipelineError::SystemConfigUpdate(why)),
            ),
            (
                Stage::ConfigUpdate { header, deposits, fct },
                Event::ConfigUpdate(Ok(_)),
            ) => self.site.time_checked(header, 0, deposits@, fct, next),
            (Stage::Forks { draft, .. }, Event::Forks(before, now)) => {
                &&& next matches Stage::Upgrades { wanted, draft: of_draft, active }
                &&& wanted@ == activated(before, now)
                &&& of_draft == draft
                &&& active == now
            },
            (Stage::Upgrades { wanted, draft, active }, Event::Upgrades(groups)) => {
                if groups@.len() != wanted@.len() {
                    next == self.stage
                } else {
                    &&& next matches Stage::NewInfo {
                        draft: of_draft,
                        upgrades,
                        active: of_active,
                    }
                    &&& of_draft == draft
                    &&& upgrades@ == joined(groups@)
                    &&& of_active == active
                }
            },
            (Stage::NewInfo { .. }, Event::NewInfo(Err(why))) => is_custom(next, why@),
            (Stage::NewInfo { draft, upgrades, active }, Event::NewInfo(Ok(info))) => {
                let (hash, input) = match info {
                    NewL1Info::Facet(info) => (
                        info.block_hash@,
                        calldata(completed_info(self.site.rollup_cfg, draft.fct, info)),
                    ),
                    NewL1Info::Other(hash, input) => (hash@, input@),
                };
                &&& next matches Stage::Encoding {
                    transaction,
                    draft: of_draft,
                    upgrades: of_upgrades,
                    active: of_active,
                }
                &&& is_l1_info_deposit(
                    transaction,
                    l1_info_source_hash(hash, draft.sequence_number),
                    L1_BLOCK_INFO,
                    input,
                )
                &&& of_draft == draft
                &&& of_upgrades == upgrades
                &&& of_active == active
            },
            (Stage::Encoding { draft, upgrades, active, .. }, Event::Encoding(encoded)) => {
                &&& next matches Stage::GasSettings {
                    header,
                    parent_time,
                    next_l2_time,
                    transactions,
                    active: of_active,
                }
                &&& header == draft.header
                &&& parent_time == self.site.l2_parent.block_info.timestamp
                &&& next_l2_time == draft.next_l2_time
                &&& transactions@ == seq![encoded] + draft.deposits@ + upgrades@
                &&& of_active == active
            },
            (
                Stage::GasSettings { header, next_l2_time, transactions, active, .. },
                Event::GasSettings(gas_limit, eip_1559_params),
            ) => {
                &&& next matches Stage::Done(attributes)
                &&& are_attributes(
                    attributes,
                    header,
                    next_l2_time as int,
                    transactions@,
                    active,
                    gas_limit,
                    eip_1559_params,
                )
            },
            _ => next == self.stage,
        }
    }

    /// Starts to build on `l2_parent`, from the L1 origin `epoch`.
    pub fn start(site: BuildSite) -> (r: Self)
        ensures
            r.site == site,
            r.stage == (Stage::SystemConfig { number: site.l2_parent.block_info.number }),
    {
        PayloadBuild {
            site,
            stage: Stage::SystemConfig { number: site.l2_parent.block_info.number },
        }
    }

    /// Takes the answer to what the build waits for.
    pub fn advance(self, event: Event) -> (r: Self)
        ensures
            r.site == self.site,
            self.follows(event, r.stage),
    {
        let PayloadBuild { site, stage } = self;
        let next = match (stage, event) {
            (Stage::SystemConfig { .. }, Event::SystemConfig) => {
                let number: u64 = site.l2_parent.block_info.number;
                if number > 0 {
                    Stage::ParentBlock { number }
                } else {
                    site.check_origin(None)
                }
            },
            (Stage::ParentBlock { .. }, Event::ParentBlock(block)) => parent_calldata(block),
            (Stage::ParentInfo { .. }, Event::ParentInfo(info)) => match info {
                Ok(ParentL1Info::Facet(info)) => site.check_origin(Some(info)),
                Ok(ParentL1Info::Other) => custom(
                    "Parent block is not using Facet L1 info variant".to_owned(),
                ),
                Err(why) => custom("Failed to decode L1 info: ".to_owned().concat(why.as_str())),
            },
            (Stage::Header { parent_info, new_epoch, .. }, Event::Header(fields)) => {
                site.origin_header(parent_info, new_epoch, seal(fields))
            },
            (Stage::Receipts { parent_info, header, .. }, Event::Receipts) => Stage::Transactions {
                hash: site.epoch.hash,
                parent_info,
                header,
            },
            (Stage::Transactions { parent_info, header, .. }, Event::Transactions) => {
                site.request_deposits(parent_info, header)
            },
            (Stage::Deposits { header, .. }, Event::Deposits(derived)) => match derived {
                Ok((deposits, fct)) => Stage::ConfigUpdate { header, deposits, fct },
                Err(why) => Stage::Failed(
                    PipelineErrorKind::Critical(PipelineError::BadEncoding(why)),
                ),
            },
            (Stage::ConfigUpdate { header, deposits, fct }, Event::ConfigUpdate(updated)) => {
                match updated {
                    Ok(_) => site.check_time(header, Some(0), deposits, fct),
                    Err(why) => Stage::Failed(
                        PipelineErrorKind::Critical(PipelineError::SystemConfigUpdate(why)),
                    ),
                }
            },
            (Stage::Forks { draft, .. }, Event::Forks(before, now)) => Stage::Upgrades {
                wanted: activated_forks(&before, &now),
                draft,
                active: now,
            },
            (Stage::Upgrades { wanted, draft, active }, Event::Upgrades(groups)) => {
                if groups.len() == wanted.len() {
                    Stage::NewInfo { draft, upgrades: join(groups), active }
                } else {
                    Stage::Upgrades { wanted, draft, active }
                }
            },
            (Stage::NewInfo { draft, upgrades, active }, Event::NewInfo(created)) => {
                match created {
                    Ok(info) => {
                        let (hash, input) = match info {
                            NewL1Info::Facet(info) => (
                                info.block_hash,
                                complete_info(&site.rollup_cfg, &draft.fct, info).encode_calldata(),
                            ),
                            NewL1Info::Other(hash, input) => (hash, input),
                        };
                        let transaction = l1_info_deposit(
                            source_hash(hash, draft.sequence_number),
                            L1_BLOCK_INFO,
                            input,
                        );
                        Stage::Encoding { transaction, draft, upgrades, active }
                    },
                    Err(why) => custom(why),
                }
            },
            (Stage::Encoding { draft, upgrades, active, .. }, Event::Encoding(encoded)) => {
                let Draft { header, deposits, next_l2_time, .. } = draft;
                Stage::GasSettings {
                    header,
                    parent_time: site.l2_parent.block_info.timestamp,
                    next_l2_time,
                    transactions: assemble(encoded, deposits, upgrades),
                    active,
                }
            },
            (
                Stage::GasSettings { header, next_l2_time, transactions, active, .. },
                Event::GasSettings(gas_limit, eip_1559_params),
            ) => Stage::Done(
                finish(&header, next_l2_time, transactions, &active, gas_limit, eip_1559_params),
            ),
            (stage, _) => stage,
        };
        PayloadBuild { site, stage: next }
    }
}

/// The build failed for the reason `why`, which is no fault of the L1 origin.
pub open spec fn is_custom(next: Stage, why: Seq<char>) -> bool {
    next matches Stage::Failed(
        PipelineErrorKind::Critical(PipelineError::AttributesBuilder(BuilderError::Custom(text))),
    ) && text@ == why
}

/// Fails for the reason `why`.
fn custom(why: String) -> (next: Stage)
    ensures
        is_custom(next, why@),
{
    Stage::Failed(
        PipelineErrorKind::Critical(PipelineError::AttributesBuilder(BuilderError::Custom(why))),
    )
}

/// Takes the parent block, and looks for the input of its first transaction.
fn parent_calldata(block: Result<Vec<BlockTransaction>, String>) -> (next: Stage)
    ensures
        match block {
            Ok(txs) => if txs@.len() == 0 {
                is_custom(next, "Parent block has no transactions"@)
            } else {
                match txs@[0] {
                    BlockTransaction::Deposit(calldata) => next == (Stage::ParentInfo { calldata }),
                    BlockTransaction::Other => is_custom(
                        next,
                        "First transaction is not a deposit"@,
                    ),
                }
            },
            Err(why) => is_custom(next, why@),
        },
{
    let mut txs = match block {
        Ok(txs) => txs,
        Err(why) => {
            return custom(why);
        },
    };
    if txs.len() == 0 {
        return custom("Parent block has no transactions".to_owned());
    }
    match txs.swap_remove(0) {
        BlockTransaction::Deposit(calldata) => Stage::ParentInfo { calldata },
        BlockTransaction::Other => custom("First transaction is not a deposit".to_owned()),
    }
}

/// Puts the block's transactions in order: the L1 info, the deposits, the
/// hardforks' transactions.
fn assemble(encoded: Vec<u8>, deposits: Vec<Vec<u8>>, upgrades: Vec<Vec<u8>>) -> (r: Vec<Vec<u8>>)
    ensures
        r@ == seq![encoded] + deposits@ + upgrades@,
{
    let mut deposits = deposits;
    let mut upgrades = upgrades;
    let ghost all = seq![encoded] + deposits@ + upgrades@;
    let mut txs: Vec<Vec<u8>> = Vec::new();
    txs.push(encoded);
    txs.append(&mut deposits);
    txs.append(&mut upgrades);
    assert(txs@ =~= all);
    txs
}

/// Puts the attributes together.
fn finish(
    header: &L1Header,
    next_l2_time: u64,
    transactions: Vec<Vec<u8>>,
    active: &ActiveForks,
    gas_limit: u64,
    eip_1559_params: Option<[u8; 8]>,
) -> (r: PayloadAttributes)
    ensures
        are_attributes(
            r,
            *header,
            next_l2_time as int,
            transactions@,
            *active,
            gas_limit,
            eip_1559_params,
        ),
{
    let no_root = [0u8; 32];
    assert(no_root@ =~= zeros(32));
    let parent_beacon_block_root = if active.ecotone {
        // If the parent beacon root is not available, default to zero hash
        match header.parent_beacon_block_root {
            Some(root) => Some(root),
            None => Some(no_root),
        }
    } else {
        None
    };
    PayloadAttributes {
        timestamp: next_l2_time,
        prev_randao: header.mix_hash,
        suggested_fee_recipient: SEQUENCER_FEE_VAULT,
        parent_beacon_block_root,
        empty_withdrawals: active.canyon,
        transactions,
        no_tx_pool: true,
        gas_limit,
        eip_1559_params,
    }
}

/// Builds payload attributes, with what it takes to fetch L1 and L2 data.
#[derive(Debug)]
pub struct StatefulAttributesBuilder<L1P, L2P> {
    /// The rollup config.
    pub rollup_cfg: RollupConfig,
    /// The system config fetcher.
    pub config_fetcher: L2P,
    /// The L1 receipts fetcher.
    pub receipts_fetcher: L1P,
}

impl<L1P, L2P> StatefulAttributesBuilder<L1P, L2P> {
    /// Creates a builder for a rollup.
    pub fn new(rcfg: RollupConfig, sys_cfg_fetcher: L2P, receipts: L1P) -> (r: Self)
        ensures
            r.rollup_cfg == rcfg,
            r.config_fetcher == sys_cfg_fetcher,
            r.receipts_fetcher == receipts,
    {
        StatefulAttributesBuilder {
            rollup_cfg: rcfg,
            config_fetcher: sys_cfg_fetcher,
            receipts_fetcher: receipts,
        }
    }

    /// Starts to build the payload on `l2_parent`, from the L1 origin `epoch`.
    pub fn prepare_payload_attributes(&self, l2_parent: L2BlockInfo, epoch: BlockNumHash) -> (r:
        PayloadBuild)
        ensures
            r.site == (BuildSite { rollup_cfg: self.rollup_cfg, l2_parent, epoch }),
            r.stage == (Stage::SystemConfig { number: l2_parent.block_info.number }),
    {
        PayloadBuild::start(BuildSite { rollup_cfg: self.rollup_cfg, l2_parent, epoch })
    }
}

} // verus!
