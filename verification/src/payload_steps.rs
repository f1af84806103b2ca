//! What each answer leads a payload build to, in terms of the answer, the parent
//! and the configuration alone.
use vstd::arithmetic::power2::*;
use vstd::prelude::*;
use vstd::string::*;

use crate::attributes::{
    ActiveForks, BlockNumHash, BlockTransaction, BuilderError, DepositTransaction, FctState,
    Hardfork, HeaderFields, L1Header, NewL1Info, ParentL1Info, PayloadAttributes, PipelineError,
    PipelineErrorKind, RollupConfig,
};
use crate::l1_info::{
    calldata, lemma_calldata_holds, lemma_encoded_info_reads_back, reads, L1BlockInfoFacet,
};
use crate::payload_build::{
    activated, amount_or_zero, are_attributes, completed_info, is_genesis_info,
    is_l1_info_deposit, joined, l1_header_hash, l1_info_source_hash, sealed, u256_value, Draft,
    Event, PayloadBuild, Stage,
};

verus! {

/// Four words of 64 bits stand for the sum of the words, each moved up by 64 bits
/// more than the one before it. A configured amount is that number where a `u128`
/// holds it, and zero otherwise.
pub proof fn lemma_amount_is_read(limbs: [u64; 4])
    ensures
        ({
            let n = limbs@[0] * pow2(0) + limbs@[1] * pow2(64) + limbs@[2] * pow2(128) + limbs@[3]
                * pow2(192);
            &&& u256_value(limbs@) == n
            &&& n <= u128::MAX ==> amount_or_zero(Some(limbs)) == n
            &&& n > u128::MAX ==> amount_or_zero(Some(limbs)) == 0
            &&& amount_or_zero(None) == 0
        }),
{
    lemma2_to64();
    lemma2_to64_rest();
    lemma_pow2_adds(64, 64);
    lemma_pow2_adds(128, 64);
    assert(pow2(128) == 0x1_0000_0000_0000_0000 * 0x1_0000_0000_0000_0000);
    assert(pow2(192) == 0x1_0000_0000_0000_0000_0000_0000_0000_0000 * 0x1_0000_0000_0000_0000);
}

/// A hardfork brings its transactions into a block exactly where it is active at
/// the block's time but not at its parent's, whatever the others are. Each does so
/// at most once; Ecotone comes first, then Fjord, Isthmus and Interop.
pub proof fn lemma_forks_that_activate(before: ActiveForks, now: ActiveForks)
    ensures
        ({
            let forks = activated(before, now);
            &&& forks.contains(Hardfork::Ecotone) <==> now.ecotone && !before.ecotone
            &&& forks.contains(Hardfork::Fjord) <==> now.fjord && !before.fjord
            &&& forks.contains(Hardfork::Isthmus) <==> now.isthmus && !before.isthmus
            &&& forks.contains(Hardfork::Interop) <==> now.interop && !before.interop
            &&& forall|i: int, j: int|
                0 <= i < j < forks.len() ==> {
                    &&& #[trigger] forks[i] != #[trigger] forks[j]
                    &&& forks[j] != Hardfork::Ecotone
                    &&& forks[i] != Hardfork::Interop
                    &&& forks[j] == Hardfork::Fjord ==> forks[i] == Hardfork::Ecotone
                    &&& forks[i] == Hardfork::Isthmus ==> forks[j] == Hardfork::Interop
                }
        }),
{
    let forks = activated(before, now);
    let a = now.ecotone && !before.ecotone;
    let b = now.fjord && !before.fjord;
    let c = now.isthmus && !before.isthmus;
    let d = now.interop && !before.interop;
    let first = if a {
        1int
    } else {
        0
    };
    let second = if b {
        first + 1
    } else {
        first
    };
    let third = if c {
        second + 1
    } else {
        second
    };
    if a {
        assert(forks[0] == Hardfork::Ecotone);
    }
    if b {
        assert(forks[first] == Hardfork::Fjord);
    }
    if c {
        assert(forks[second] == Hardfork::Isthmus);
    }
    if d {
        assert(forks[third] == Hardfork::Interop);
    }
}

/// Groups are joined by putting each behind those before it.
pub proof fn lemma_groups_are_joined(groups: Seq<Vec<Vec<u8>>>, group: Vec<Vec<u8>>)
    ensures
        joined(Seq::empty()) == Seq::<Vec<u8>>::empty(),
        joined(groups.push(group)) == joined(groups) + group@,
    decreases groups.len(),
{
    let all = groups.push(group);
    if groups.len() == 0 {
        assert(all.drop_first() =~= Seq::empty());
        assert(joined(all.drop_first()) == Seq::<Vec<u8>>::empty());
        assert(joined(all) =~= group@);
        assert(joined(groups) + group@ =~= group@);
    } else {
        assert(all.drop_first() =~= groups.drop_first().push(group));
        lemma_groups_are_joined(groups.drop_first(), group);
        assert(joined(all) =~= joined(groups) + group@);
    }
}

/// What is read of an L1 header: six of its fields as they are, and its hash.
pub proof fn lemma_header_is_read(fields: HeaderFields)
    ensures
        ({
            let header = sealed(fields);
            &&& header.number == fields.number
            &&& header.hash == l1_header_hash(fields@)
            &&& header.parent_hash == fields.parent_hash
            &&& header.timestamp == fields.timestamp
            &&& header.base_fee_per_gas == fields.base_fee_per_gas
            &&& header.mix_hash == fields.mix_hash
            &&& header.parent_beacon_block_root == fields.parent_beacon_block_root
        }),
{
}

/// The fields of an L1 header all count.
pub proof fn lemma_header_holds(fields: HeaderFields)
    ensures
        fields@.parent_hash == fields.parent_hash@,
        fields@.ommers_hash == fields.ommers_hash@,
        fields@.beneficiary == fields.beneficiary@,
        fields@.state_root == fields.state_root@,
        fields@.transactions_root == fields.transactions_root@,
        fields@.receipts_root == fields.receipts_root@,
        fields@.logs_bloom == fields.logs_bloom@,
        fields@.difficulty == fields.difficulty@,
        fields@.number == fields.number,
        fields@.gas_limit == fields.gas_limit,
        fields@.gas_used == fields.gas_used,
        fields@.timestamp == fields.timestamp,
        fields@.extra_data == fields.extra_data@,
        fields@.mix_hash == fields.mix_hash@,
        fields@.nonce == fields.nonce@,
        fields@.base_fee_per_gas == fields.base_fee_per_gas,
        fields@.blob_gas_used == fields.blob_gas_used,
        fields@.excess_blob_gas == fields.excess_blob_gas,
        fields@.withdrawals_root is Some <==> fields.withdrawals_root is Some,
        fields.withdrawals_root matches Some(hash) ==> fields@.withdrawals_root == Some(hash@),
        fields@.parent_beacon_block_root is Some <==> fields.parent_beacon_block_root is Some,
        fields.parent_beacon_block_root matches Some(hash) ==> fields@.parent_beacon_block_root
            == Some(hash@),
        fields@.requests_hash is Some <==> fields.requests_hash is Some,
        fields.requests_hash matches Some(hash) ==> fields@.requests_hash == Some(hash@),
{
}

/// What stands in for the L1 info of the genesis block: the configured rate,
/// supply and target, and nothing else.
pub proof fn lemma_genesis_info_is_empty(cfg: RollupConfig, info: L1BlockInfoFacet)
    requires
        is_genesis_info(cfg, info),
    ensures
        info.fct_mint_rate == amount_or_zero(cfg.fct_initial_rate),
        info.fct_max_supply == amount_or_zero(cfg.fct_max_supply),
        info.fct_initial_target_per_period == amount_or_zero(cfg.fct_initial_target_per_period),
        info.fct_total_minted == 0,
        info.fct_period_start_block == 0,
        info.fct_period_minted == 0,
        info.number == 0,
        info.time == 0,
        info.base_fee == 0,
        info.sequence_number == 0,
        info.blob_base_fee == 0,
        info.blob_base_fee_scalar == 0,
        info.base_fee_scalar == 0,
        !info.empty_scalars,
        forall|i: int| 0 <= i < 32 ==> info.block_hash@[i] == 0,
        forall|i: int| 0 <= i < 20 ==> info.batcher_address@[i] == 0,
        forall|i: int| 0 <= i < 4 ==> info.l1_fee_overhead@[i] == 0,
{
}

/// What the next block decodes from the L1 info that a block carries: how far
/// minting has got with the block; the supply and the target, which the
/// configuration gives where the info has none; and everything else as it was in
/// the info made for the block.
pub proof fn lemma_carried_info_is_decoded(
    cfg: RollupConfig,
    fct: FctState,
    info: L1BlockInfoFacet,
    read: L1BlockInfoFacet,
)
    requires
        reads(read, calldata(completed_info(cfg, fct, info))),
    ensures
        read.number == info.number,
        read.time == info.time,
        read.base_fee == info.base_fee,
        read.block_hash@ == info.block_hash@,
        read.sequence_number == info.sequence_number,
        read.batcher_address@ == info.batcher_address@,
        read.blob_base_fee == info.blob_base_fee,
        read.blob_base_fee_scalar == info.blob_base_fee_scalar,
        read.base_fee_scalar == info.base_fee_scalar,
        read.fct_mint_rate == fct.mint_rate,
        read.fct_total_minted == fct.total_minted,
        read.fct_period_start_block == fct.period_start_block,
        read.fct_period_minted == fct.period_minted,
        info.fct_max_supply != 0 ==> read.fct_max_supply == info.fct_max_supply,
        info.fct_max_supply == 0 ==> read.fct_max_supply == amount_or_zero(cfg.fct_max_supply),
        info.fct_initial_target_per_period != 0 ==> read.fct_initial_target_per_period
            == info.fct_initial_target_per_period,
        info.fct_initial_target_per_period == 0 ==> read.fct_initial_target_per_period
            == amount_or_zero(cfg.fct_initial_target_per_period),
{
    lemma_encoded_info_reads_back(completed_info(cfg, fct, info), read);
}

/// What is filled in of the L1 info made for a block, in the info itself: its two
/// fields that calldata does not hold stay as well.
pub proof fn lemma_rest_of_the_info_is_kept(
    cfg: RollupConfig,
    fct: FctState,
    info: L1BlockInfoFacet,
)
    ensures
        completed_info(cfg, fct, info).empty_scalars == info.empty_scalars,
        completed_info(cfg, fct, info).l1_fee_overhead == info.l1_fee_overhead,
{
}

/// The deposit of an L1 info goes from `0xdead..0001` to `0x4200..0015`, with a
/// million gas and neither value nor mint.
pub proof fn lemma_deposit_of_an_info(
    tx: DepositTransaction,
    source_hash: Seq<u8>,
    to: [u8; 20],
    input: Seq<u8>,
)
    requires
        is_l1_info_deposit(tx, source_hash, to, input),
    ensures
        tx.source_hash@ == source_hash,
        tx.from@ == seq![
            0xdeu8,
            0xadu8,
            0xdeu8,
            0xadu8,
            0xdeu8,
            0xadu8,
            0xdeu8,
            0xadu8,
            0xdeu8,
            0xadu8,
            0xdeu8,
            0xadu8,
            0xdeu8,
            0xadu8,
            0xdeu8,
            0xadu8,
            0xdeu8,
            0xadu8,
            0x00u8,
            0x01u8,
        ],
        tx.to == to,
        tx.mint is None,
        forall|i: int| 0 <= i < 4 ==> tx.value@[i] == 0,
        tx.gas_limit == 1_000_000,
        !tx.is_system_transaction,
        tx.input@ == input,
{
}

/// What the attributes of a block say.
pub proof fn lemma_attributes_say(
    attributes: PayloadAttributes,
    header: L1Header,
    time: int,
    transactions: Seq<Vec<u8>>,
    active: ActiveForks,
    gas_limit: u64,
    eip_1559_params: Option<[u8; 8]>,
)
    requires
        are_attributes(
            attributes,
            header,
            time,
            transactions,
            active,
            gas_limit,
            eip_1559_params,
        ),
    ensures
        attributes.timestamp == time,
        attributes.prev_randao == header.mix_hash,
        attributes.suggested_fee_recipient@[0] == 0x42,
        forall|i: int| 1 <= i < 19 ==> attributes.suggested_fee_recipient@[i] == 0,
        attributes.suggested_fee_recipient@[19] == 0x11,
        attributes.empty_withdrawals <==> active.canyon,
        attributes.transactions@ == transactions,
        attributes.no_tx_pool,
        attributes.gas_limit == gas_limit,
        attributes.eip_1559_params == eip_1559_params,
        attributes.parent_beacon_block_root is Some <==> active.ecotone,
        attributes.parent_beacon_block_root matches Some(root) ==> {
            &&& header.parent_beacon_block_root matches Some(of_header) ==> root@ == of_header@
            &&& header.parent_beacon_block_root is None ==> forall|i: int|
                0 <= i < 32 ==> root@[i] == 0
        },
{
}

/// With the system config there, a build asks for the parent block, unless the
/// parent is the genesis block.
pub proof fn lemma_parent_is_asked_for(build: PayloadBuild, next: Stage)
    requires
        build.stage is SystemConfig,
        build.follows(Event::SystemConfig, next),
        build.site.l2_parent.block_info.number > 0,
    ensures
        next == (Stage::ParentBlock { number: build.site.l2_parent.block_info.number }),
{
}

/// The first transaction of the parent block has to be a deposit; its input holds
/// the L1 info. Where there is no block, no transaction or no deposit, the build
/// stops for good and says so.
pub proof fn lemma_parent_block_is_searched(
    build: PayloadBuild,
    block: Result<Vec<BlockTransaction>, String>,
    next: Stage,
)
    requires
        build.stage is ParentBlock,
        build.follows(Event::ParentBlock(block), next),
    ensures
        block matches Ok(txs) ==> {
            &&& txs@.len() == 0 ==> stops_with(next, "Parent block has no transactions"@)
            &&& txs@.len() > 0 && txs@[0] is Other ==> stops_with(
                next,
                "First transaction is not a deposit"@,
            )
            &&& txs@.len() > 0 && txs@[0] is Deposit ==> {
                &&& next is ParentInfo
                &&& txs@[0] == BlockTransaction::Deposit(next->calldata)
            }
        },
        block matches Err(why) ==> stops_with(next, why@),
{
}

/// A build stopped for good in building the attributes, with this text.
pub open spec fn stops_with(next: Stage, text: Seq<char>) -> bool {
    next matches Stage::Failed(
        PipelineErrorKind::Critical(PipelineError::AttributesBuilder(BuilderError::Custom(why))),
    ) && why@ == text
}

/// An L1 info in the parent block that cannot be decoded, or is of another format
/// than Facet's, stops the build for good.
pub proof fn lemma_parent_info_has_to_be_facets(
    build: PayloadBuild,
    info: Result<ParentL1Info, String>,
    next: Stage,
)
    requires
        build.stage is ParentInfo,
        build.follows(Event::ParentInfo(info), next),
    ensures
        info matches Err(why) ==> stops_with(next, "Failed to decode L1 info: "@ + why@),
        info matches Ok(ParentL1Info::Other) ==> stops_with(
            next,
            "Parent block is not using Facet L1 info variant"@,
        ),
{
}

/// With the parent's L1 info there, or at once after the genesis block, the L1
/// origin is held against the parent's. One of the same number has to have the
/// same hash; otherwise the pipeline starts over. Then its header is asked for.
pub proof fn lemma_origin_is_held_against_the_parents(
    build: PayloadBuild,
    event: Event,
    parent_info: Option<L1BlockInfoFacet>,
    next: Stage,
)
    requires
        build.follows(event, next),
        match parent_info {
            Some(info) => build.stage is ParentInfo && event == Event::ParentInfo(
                Ok(ParentL1Info::Facet(info)),
            ),
            None => build.stage is SystemConfig && event == Event::SystemConfig
                && build.site.l2_parent.block_info.number == 0,
        },
    ensures
        ({
            let origin = build.site.l2_parent.l1_origin;
            let epoch = build.site.epoch;
            &&& origin.number == epoch.number && origin.hash@ != epoch.hash@ ==> next
                == Stage::Failed(
                PipelineErrorKind::Reset(BuilderError::BlockMismatch(epoch, origin)),
            )
            &&& origin.number == epoch.number && origin.hash@ == epoch.hash@ ==> next == (
            Stage::Header { hash: epoch.hash, parent_info, new_epoch: false })
            &&& origin.number != epoch.number ==> next == (Stage::Header {
                hash: epoch.hash,
                parent_info,
                new_epoch: true,
            })
        }),
{
}

/// In a block of the same L1 origin, the header settles the draft: it counts on
/// from the parent, takes no deposits and leaves minting where the parent's L1
/// info has it, or at its start after the genesis block. The pipeline starts over
/// where the block would come before its L1 origin.
pub proof fn lemma_same_origin_settles_the_draft(
    build: PayloadBuild,
    parent_info: Option<L1BlockInfoFacet>,
    fields: HeaderFields,
    next: Stage,
)
    requires
        build.stage matches Stage::Header { parent_info: info, new_epoch, .. } && info
            == parent_info && !new_epoch,
        build.follows(Event::Header(fields), next),
    ensures
        ({
            let site = build.site;
            let time = site.l2_parent.block_info.timestamp + site.rollup_cfg.block_time;
            let number = site.l2_parent.seq_num + 1;
            let fits = time <= u64::MAX && number <= u64::MAX;
            &&& !fits ==> next == Stage::Failed(PipelineErrorKind::Overflow)
            &&& fits && time < fields.timestamp ==> next == Stage::Failed(
                PipelineErrorKind::Reset(
                    BuilderError::BrokenTimeInvariant(
                        site.l2_parent.l1_origin,
                        time as u64,
                        BlockNumHash { number: fields.number, hash: l1_header_hash(fields@) },
                        fields.timestamp,
                    ),
                ),
            )
            &&& fits && time >= fields.timestamp ==> {
                &&& next matches Stage::Forks { parent_time, draft } && {
                    &&& parent_time == site.l2_parent.block_info.timestamp
                    &&& draft.header == sealed(fields)
                    &&& draft.sequence_number == number
                    &&& draft.next_l2_time == time
                    &&& draft.deposits@.len() == 0
                    &&& parent_info matches Some(info) ==> {
                        &&& draft.fct.mint_rate == info.fct_mint_rate
                        &&& draft.fct.total_minted == info.fct_total_minted
                        &&& draft.fct.period_start_block == info.fct_period_start_block
                        &&& draft.fct.period_minted == info.fct_period_minted
                    }
                    &&& parent_info is None ==> {
                        &&& draft.fct.mint_rate == amount_or_zero(site.rollup_cfg.fct_initial_rate)
                        &&& draft.fct.total_minted == 0
                        &&& draft.fct.period_start_block == 0
                        &&& draft.fct.period_minted == 0
                    }
                }
            }
        }),
{
}

/// The header of a new L1 origin has to name the parent's origin as its parent;
/// otherwise the pipeline starts over. Then the receipts and the transactions of
/// the origin are asked for.
pub proof fn lemma_new_origin_follows_the_parents(
    build: PayloadBuild,
    parent_info: Option<L1BlockInfoFacet>,
    fields: HeaderFields,
    next: Stage,
)
    requires
        build.stage matches Stage::Header { parent_info: info, new_epoch, .. } && info
            == parent_info && new_epoch,
        build.follows(Event::Header(fields), next),
    ensures
        ({
            let origin = build.site.l2_parent.l1_origin;
            let epoch = build.site.epoch;
            &&& origin.hash@ != fields.parent_hash@ ==> next == Stage::Failed(
                PipelineErrorKind::Reset(
                    BuilderError::BlockMismatchEpochReset(epoch, origin, fields.parent_hash),
                ),
            )
            &&& origin.hash@ == fields.parent_hash@ ==> next == (Stage::Receipts {
                hash: epoch.hash,
                parent_info,
                header: sealed(fields),
            })
        }),
{
}

/// After the receipts, the transactions of the L1 origin are asked for.
pub proof fn lemma_transactions_are_asked_for(build: PayloadBuild, next: Stage)
    requires
        build.stage is Receipts,
        build.follows(Event::Receipts, next),
    ensures
        build.stage matches Stage::Receipts { parent_info, header, .. } && next == (
        Stage::Transactions { hash: build.site.epoch.hash, parent_info, header }),
{
}

/// With the transactions of the L1 origin there, the deposits for the next block
/// are asked for, at the origin's base fee, from where the parent's L1 info has
/// minting, or from its start after the genesis block.
pub proof fn lemma_deposits_are_asked_for(
    build: PayloadBuild,
    parent_info: Option<L1BlockInfoFacet>,
    header: L1Header,
    next: Stage,
)
    requires
        build.stage matches Stage::Transactions { parent_info: info, header: of_header, .. }
            && info == parent_info && of_header == header,
        build.follows(Event::Transactions, next),
    ensures
        ({
            let site = build.site;
            let number = site.l2_parent.block_info.number;
            &&& number == u64::MAX ==> next == Stage::Failed(PipelineErrorKind::Overflow)
            &&& number < u64::MAX ==> {
                &&& next matches Stage::Deposits { request, header: of_header } && {
                    &&& of_header == header
                    &&& request.l2_chain_id == site.rollup_cfg.l2_chain_id
                    &&& request.l2_block_number == number + 1
                    &&& header.base_fee_per_gas matches Some(fee) ==> request.l1_base_fee == fee
                    &&& header.base_fee_per_gas is None ==> request.l1_base_fee == 0
                    &&& parent_info matches Some(info) ==> request.parent_l1_info == info
                    &&& parent_info is None ==> is_genesis_info(
                        site.rollup_cfg,
                        request.parent_l1_info,
                    )
                }
            }
        }),
{
}

/// Deposits that are derived are kept, with how far minting has got; those that
/// are not stop the build for good.
pub proof fn lemma_deposits_are_kept(
    build: PayloadBuild,
    derived: Result<(Vec<Vec<u8>>, FctState), String>,
    next: Stage,
)
    requires
        build.stage is Deposits,
        build.follows(Event::Deposits(derived), next),
    ensures
        build.stage matches Stage::Deposits { header, .. } && (derived matches Ok((deposits, fct))
            ==> next == (Stage::ConfigUpdate { header, deposits, fct })),
        derived matches Err(why) ==> next == Stage::Failed(
            PipelineErrorKind::Critical(PipelineError::BadEncoding(why)),
        ),
{
}

/// With the system config updated, the draft of the first block of an L1 origin
/// is settled: it counts from zero and takes the deposits and how far minting has
/// got with them. The pipeline starts over where the block would come before its
/// L1 origin; an update that fails stops the build for good.
pub proof fn lemma_new_origin_settles_the_draft(
    build: PayloadBuild,
    header: L1Header,
    deposits: Vec<Vec<u8>>,
    fct: FctState,
    updated: Result<(), String>,
    next: Stage,
)
    requires
        build.stage == (Stage::ConfigUpdate { header, deposits, fct }),
        build.follows(Event::ConfigUpdate(updated), next),
    ensures
        ({
            let site = build.site;
            let time = site.l2_parent.block_info.timestamp + site.rollup_cfg.block_time;
            &&& updated matches Err(why) ==> next == Stage::Failed(
                PipelineErrorKind::Critical(PipelineError::SystemConfigUpdate(why)),
            )
            &&& updated is Ok && time > u64::MAX ==> next == Stage::Failed(
                PipelineErrorKind::Overflow,
            )
            &&& updated is Ok && time <= u64::MAX && time < header.timestamp ==> next
                == Stage::Failed(
                PipelineErrorKind::Reset(
                    BuilderError::BrokenTimeInvariant(
                        site.l2_parent.l1_origin,
                        time as u64,
                        BlockNumHash { number: header.number, hash: header.hash },
                        header.timestamp,
                    ),
                ),
            )
            &&& updated is Ok && time <= u64::MAX && time >= header.timestamp ==> {
                &&& next matches Stage::Forks { parent_time, draft } && {
                    &&& parent_time == site.l2_parent.block_info.timestamp
                    &&& draft.header == header
                    &&& draft.sequence_number == 0
                    &&& draft.next_l2_time == time
                    &&& draft.deposits@ == deposits@
                    &&& draft.fct == fct
                }
            }
        }),
{
}

/// The transactions of a hardfork are asked for exactly where it becomes active
/// with the block.
pub proof fn lemma_upgrades_are_asked_for(
    build: PayloadBuild,
    draft: Draft,
    before: ActiveForks,
    now: ActiveForks,
    next: Stage,
)
    requires
        build.stage matches Stage::Forks { draft: of_draft, .. } && of_draft == draft,
        build.follows(Event::Forks(before, now), next),
    ensures
        next matches Stage::Upgrades { wanted, draft: of_draft, active } && {
            &&& of_draft == draft
            &&& active == now
            &&& wanted@ == activated(before, now)
            &&& wanted@.contains(Hardfork::Ecotone) <==> now.ecotone && !before.ecotone
            &&& wanted@.contains(Hardfork::Fjord) <==> now.fjord && !before.fjord
            &&& wanted@.contains(Hardfork::Isthmus) <==> now.isthmus && !before.isthmus
            &&& wanted@.contains(Hardfork::Interop) <==> now.interop && !before.interop
        },
{
    lemma_forks_that_activate(before, now);
}

/// One group of transactions per hardfork that was asked for is taken, group
/// after group; any other number of groups is no answer.
pub proof fn lemma_upgrades_are_taken(
    build: PayloadBuild,
    wanted: Vec<Hardfork>,
    draft: Draft,
    active: ActiveForks,
    groups: Vec<Vec<Vec<u8>>>,
    next: Stage,
)
    requires
        build.stage == (Stage::Upgrades { wanted, draft, active }),
        build.follows(Event::Upgrades(groups), next),
    ensures
        groups@.len() != wanted@.len() ==> next == build.stage,
        groups@.len() == wanted@.len() ==> {
            &&& next matches Stage::NewInfo {
                draft: of_draft,
                upgrades,
                active: of_active,
            } && of_draft == draft && of_active == active && upgrades@ == joined(groups@)
        },
{
}

/// The L1 info made for a block goes into a deposit from `0xdead..0001` to
/// `0x4200..0015`, which is identified by the L1 block's hash and the block's
/// sequence number. What is decoded from its input is the info in every field that
/// calldata holds, but for minting, which is where the draft has it, and the
/// supply and the target, which the configuration gives where the info has none.
/// An info that cannot be made stops the build for good.
pub proof fn lemma_info_goes_into_a_deposit(
    build: PayloadBuild,
    draft: Draft,
    upgrades: Vec<Vec<u8>>,
    active: ActiveForks,
    created: Result<NewL1Info, String>,
    read: L1BlockInfoFacet,
    next: Stage,
)
    requires
        build.stage == (Stage::NewInfo { draft, upgrades, active }),
        build.follows(Event::NewInfo(created), next),
    ensures
        created matches Err(why) ==> stops_with(next, why@),
        created is Ok ==> {
            &&& next matches Stage::Encoding {
                transaction,
                draft: of_draft,
                upgrades: of_upgrades,
                active: of_active,
            } && {
                &&& of_draft == draft
                &&& of_upgrades == upgrades
                &&& of_active == active
                &&& transaction.from@[0] == 0xde && transaction.from@[19] == 0x01
                &&& transaction.to@[0] == 0x42 && transaction.to@[19] == 0x15
                &&& forall|i: int| 1 <= i < 19 ==> transaction.to@[i] == 0
                &&& transaction.mint is None
                &&& transaction.gas_limit == 1_000_000
                &&& !transaction.is_system_transaction
                &&& forall|i: int| 0 <= i < 4 ==> transaction.value@[i] == 0
            }
        },
        created matches Ok(NewL1Info::Other(hash, input)) ==> {
            &&& next matches Stage::Encoding { transaction, .. } && {
                &&& transaction.input@ == input@
                &&& transaction.source_hash@ == l1_info_source_hash(hash@, draft.sequence_number)
            }
        },
        created matches Ok(NewL1Info::Facet(info)) ==> {
            &&& next matches Stage::Encoding { transaction, .. } && {
                &&& transaction.source_hash@ == l1_info_source_hash(
                    info.block_hash@,
                    draft.sequence_number,
                )
                &&& transaction.input@.len() == 292
                &&& reads(read, transaction.input@) ==> {
                    &&& read.number == info.number
                    &&& read.time == info.time
                    &&& read.base_fee == info.base_fee
                    &&& read.block_hash@ == info.block_hash@
                    &&& read.sequence_number == info.sequence_number
                    &&& read.batcher_address@ == info.batcher_address@
                    &&& read.blob_base_fee == info.blob_base_fee
                    &&& read.blob_base_fee_scalar == info.blob_base_fee_scalar
                    &&& read.base_fee_scalar == info.base_fee_scalar
                    &&& read.fct_mint_rate == draft.fct.mint_rate
                    &&& read.fct_total_minted == draft.fct.total_minted
                    &&& read.fct_period_start_block == draft.fct.period_start_block
                    &&& read.fct_period_minted == draft.fct.period_minted
                    &&& info.fct_max_supply != 0 ==> read.fct_max_supply == info.fct_max_supply
                    &&& info.fct_max_supply == 0 ==> read.fct_max_supply == amount_or_zero(
                        build.site.rollup_cfg.fct_max_supply,
                    )
                    &&& info.fct_initial_target_per_period != 0
                        ==> read.fct_initial_target_per_period == info.fct_initial_target_per_period
                    &&& info.fct_initial_target_per_period == 0
                        ==> read.fct_initial_target_per_period == amount_or_zero(
                        build.site.rollup_cfg.fct_initial_target_per_period,
                    )
                }
            }
        },
{
    if let Ok(NewL1Info::Facet(info)) = created {
        let cfg = build.site.rollup_cfg;
        lemma_calldata_holds(completed_info(cfg, draft.fct, info));
        if reads(read, calldata(completed_info(cfg, draft.fct, info))) {
            lemma_carried_info_is_decoded(cfg, draft.fct, info, read);
        }
    }
}

/// The block's transactions are the encoded L1 info, then the deposits, then the
/// hardforks' transactions.
pub proof fn lemma_transactions_are_put_in_order(
    build: PayloadBuild,
    transaction: DepositTransaction,
    draft: Draft,
    upgrades: Vec<Vec<u8>>,
    active: ActiveForks,
    encoded: Vec<u8>,
    next: Stage,
)
    requires
        build.stage == (Stage::Encoding { transaction, draft, upgrades, active }),
        build.follows(Event::Encoding(encoded), next),
    ensures
        next matches Stage::GasSettings {
            header,
            parent_time,
            next_l2_time,
            transactions,
            active: of_active,
        } && {
            let deposits = draft.deposits@;
            &&& header == draft.header
            &&& parent_time == build.site.l2_parent.block_info.timestamp
            &&& next_l2_time == draft.next_l2_time
            &&& of_active == active
            &&& transactions@.len() == 1 + deposits.len() + upgrades@.len()
            &&& transactions@[0] == encoded
            &&& forall|i: int| 0 <= i < deposits.len() ==> transactions@[1 + i] == #[trigger] deposits[i]
            &&& forall|i: int|
                0 <= i < upgrades@.len() ==> transactions@[1 + deposits.len() + i]
                    == #[trigger] upgrades@[i]
        },
{
}

/// The attributes of the block: the draft's time, the L1 origin's randomness, the
/// fee vault `0x4200..0011` as recipient, the transactions and no others, and an
/// empty list of withdrawals from Canyon on. From Ecotone on there is a parent
/// beacon block root, the L1 origin's or zero.
pub proof fn lemma_attributes_are_put_together(
    build: PayloadBuild,
    header: L1Header,
    parent_time: u64,
    next_l2_time: u64,
    transactions: Vec<Vec<u8>>,
    active: ActiveForks,
    gas_limit: u64,
    eip_1559_params: Option<[u8; 8]>,
    next: Stage,
)
    requires
        build.stage == (Stage::GasSettings {
            header,
            parent_time,
            next_l2_time,
            transactions,
            active,
        }),
        build.follows(Event::GasSettings(gas_limit, eip_1559_params), next),
    ensures
        next matches Stage::Done(attributes) && {
            &&& attributes.timestamp == next_l2_time
            &&& attributes.prev_randao == header.mix_hash
            &&& attributes.suggested_fee_recipient@[0] == 0x42
            &&& forall|i: int| 1 <= i < 19 ==> attributes.suggested_fee_recipient@[i] == 0
            &&& attributes.suggested_fee_recipient@[19] == 0x11
            &&& attributes.empty_withdrawals <==> active.canyon
            &&& attributes.transactions@ == transactions@
            &&& attributes.no_tx_pool
            &&& attributes.gas_limit == gas_limit
            &&& attributes.eip_1559_params == eip_1559_params
            &&& attributes.parent_beacon_block_root is Some <==> active.ecotone
            &&& attributes.parent_beacon_block_root matches Some(root) ==> {
                &&& header.parent_beacon_block_root matches Some(of_header) ==> root@ == of_header@
                &&& header.parent_beacon_block_root is None ==> forall|i: int|
                    0 <= i < 32 ==> root@[i] == 0
            }
        },
{
}

/// An answer to anything else than a build waits for changes nothing.
pub proof fn lemma_other_answers_change_nothing(build: PayloadBuild, event: Event, next: Stage)
    requires
        build.follows(event, next),
        ({
            let stage = build.stage;
            ||| stage is SystemConfig && event !is SystemConfig
            ||| stage is ParentBlock && event !is ParentBlock
            ||| stage is ParentInfo && event !is ParentInfo
            ||| stage is Header && event !is Header
            ||| stage is Receipts && event !is Receipts
            ||| stage is Transactions && event !is Transactions
            ||| stage is Deposits && event !is Deposits
            ||| stage is ConfigUpdate && event !is ConfigUpdate
            ||| stage is Forks && event !is Forks
            ||| stage is Upgrades && event !is Upgrades
            ||| stage is NewInfo && event !is NewInfo
            ||| stage is Encoding && event !is Encoding
            ||| stage is GasSettings && event !is GasSettings
        }),
    ensures
        next == build.stage,
{
}

/// Nothing is waited for once a build has ended.
pub proof fn lemma_an_end_stays(build: PayloadBuild, event: Event, next: Stage)
    requires
        build.stage is Done || build.stage is Failed,
        build.follows(event, next),
    ensures
        next == build.stage,
{
}

} // verus!
