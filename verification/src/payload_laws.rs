//! What holds of every payload build, whatever the outside answers.
use vstd::prelude::*;

use crate::attributes::{
    ActiveForks, BuilderError, FctState, HeaderFields, L1Header, NewL1Info, ParentL1Info,
    PipelineErrorKind, RollupConfig, L1_BLOCK_INFO, SEQUENCER_FEE_VAULT,
};
use crate::l1_info::{calldata, lemma_encoded_info_reads_back, reads, L1BlockInfoFacet};
use crate::payload_build::{
    activated, are_attributes, completed_info, fct_of, genesis_fct, is_genesis_info,
    is_l1_info_deposit, joined, l1_info_source_hash, sealed, BuildSite, Draft, Event, PayloadBuild, Stage,
};

verus! {

impl Stage {
    /// `event` answers what the stage waits for.
    pub open spec fn is_answered_by(self, event: Event) -> bool {
        match (self, event) {
            (Stage::SystemConfig { .. }, Event::SystemConfig) => true,
            (Stage::ParentBlock { .. }, Event::ParentBlock(_)) => true,
            (Stage::ParentInfo { .. }, Event::ParentInfo(_)) => true,
            (Stage::Header { .. }, Event::Header(_)) => true,
            (Stage::Receipts { .. }, Event::Receipts) => true,
            (Stage::Transactions { .. }, Event::Transactions) => true,
            (Stage::Deposits { .. }, Event::Deposits(_)) => true,
            (Stage::ConfigUpdate { .. }, Event::ConfigUpdate(_)) => true,
            (Stage::Forks { .. }, Event::Forks(_, _)) => true,
            (Stage::Upgrades { wanted, .. }, Event::Upgrades(groups)) => {
                groups@.len() == wanted@.len()
            },
            (Stage::NewInfo { .. }, Event::NewInfo(_)) => true,
            (Stage::Encoding { .. }, Event::Encoding(_)) => true,
            (Stage::GasSettings { .. }, Event::GasSettings(_, _)) => true,
            _ => false,
        }
    }

    /// The most answers that are still to come.
    pub open spec fn answers_left(self) -> nat {
        match self {
            Stage::SystemConfig { .. } => 13,
            Stage::ParentBlock { .. } => 12,
            Stage::ParentInfo { .. } => 11,
            Stage::Header { .. } => 10,
            Stage::Receipts { .. } => 9,
            Stage::Transactions { .. } => 8,
            Stage::Deposits { .. } => 7,
            Stage::ConfigUpdate { .. } => 6,
            Stage::Forks { .. } => 5,
            Stage::Upgrades { .. } => 4,
            Stage::NewInfo { .. } => 3,
            Stage::Encoding { .. } => 2,
            Stage::GasSettings { .. } => 1,
            Stage::Done(_) => 0,
            Stage::Failed(_) => 0,
        }
    }
}

impl BuildSite {
    /// The block to build is the first one of its L1 origin.
    pub open spec fn new_epoch(self) -> bool {
        self.l2_parent.l1_origin.number != self.epoch.number
    }

    /// The block's time.
    pub open spec fn next_l2_time(self) -> int {
        self.l2_parent.block_info.timestamp + self.rollup_cfg.block_time
    }

    /// The L1 origin is the parent's, or the L1 block after it.
    pub open spec fn origin_fits(self, header: L1Header) -> bool {
        if self.new_epoch() {
            header.parent_hash@ == self.l2_parent.l1_origin.hash@
        } else {
            self.epoch.hash@ == self.l2_parent.l1_origin.hash@
        }
    }

    /// The draft belongs here: it comes after its L1 origin, counts from zero
    /// where the origin is new and on from the parent otherwise, and only takes
    /// deposits from a new origin.
    pub open spec fn fits(self, draft: Draft) -> bool {
        &&& self.origin_fits(draft.header)
        &&& draft.next_l2_time == self.next_l2_time()
        &&& draft.header.timestamp <= draft.next_l2_time
        &&& draft.sequence_number == if self.new_epoch() {
            0
        } else {
            self.l2_parent.seq_num + 1
        }
        &&& !self.new_epoch() ==> draft.deposits@.len() == 0
    }
}

impl PayloadBuild {
    /// What the build has got so far belongs where it is built.
    pub open spec fn consistent(self) -> bool {
        let site = self.site;
        let genesis = site.l2_parent.block_info.number == 0;
        match self.stage {
            Stage::SystemConfig { number } => number == site.l2_parent.block_info.number,
            Stage::ParentBlock { number } => !genesis && number == site.l2_parent.block_info.number,
            Stage::ParentInfo { .. } => !genesis,
            Stage::Header { hash, parent_info, new_epoch } => {
                &&& hash == site.epoch.hash
                &&& new_epoch == site.new_epoch()
                &&& !new_epoch ==> site.epoch.hash@ == site.l2_parent.l1_origin.hash@
                &&& parent_info is None <==> genesis
            },
            Stage::Receipts { hash, parent_info, header } => {
                &&& hash == site.epoch.hash
                &&& site.new_epoch() && site.origin_fits(header)
                &&& parent_info is None <==> genesis
            },
            Stage::Transactions { hash, parent_info, header } => {
                &&& hash == site.epoch.hash
                &&& site.new_epoch() && site.origin_fits(header)
                &&& parent_info is None <==> genesis
            },
            Stage::Deposits { request, header } => {
                &&& site.new_epoch() && site.origin_fits(header)
                &&& request.l2_block_number == site.l2_parent.block_info.number + 1
                &&& genesis ==> is_genesis_info(site.rollup_cfg, request.parent_l1_info)
            },
            Stage::ConfigUpdate { header, .. } => site.new_epoch() && site.origin_fits(header),
            Stage::Forks { parent_time, draft } => {
                &&& parent_time == site.l2_parent.block_info.timestamp
                &&& site.fits(draft)
            },
            Stage::Upgrades { draft, .. } => site.fits(draft),
            Stage::NewInfo { draft, .. } => site.fits(draft),
            Stage::Encoding { draft, .. } => site.fits(draft),
            Stage::GasSettings { header, parent_time, next_l2_time, transactions, .. } => {
                &&& site.origin_fits(header)
                &&& parent_time == site.l2_parent.block_info.timestamp
                &&& next_l2_time == site.next_l2_time()
                &&& header.timestamp <= next_l2_time
                &&& transactions@.len() > 0
            },
            Stage::Done(attributes) => {
                &&& attributes.timestamp == site.next_l2_time()
                &&& attributes.transactions@.len() > 0
                &&& attributes.no_tx_pool
                &&& attributes.suggested_fee_recipient@ == SEQUENCER_FEE_VAULT@
            },
            Stage::Failed(PipelineErrorKind::Reset(error)) => site.is_at_odds(error),
            Stage::Failed(_) => true,
        }
    }
}

impl BuildSite {
    /// The error says how the L1 origin and the parent contradict each other.
    pub open spec fn is_at_odds(self, error: BuilderError) -> bool {
        let origin = self.l2_parent.l1_origin;
        match error {
            BuilderError::BlockMismatch(epoch, of_parent) => {
                &&& epoch == self.epoch
                &&& of_parent == origin
                &&& epoch.number == origin.number
                &&& epoch.hash@ != origin.hash@
            },
            BuilderError::BlockMismatchEpochReset(epoch, of_parent, parent_hash) => {
                &&& epoch == self.epoch
                &&& of_parent == origin
                &&& epoch.number != origin.number
                &&& parent_hash@ != origin.hash@
            },
            BuilderError::BrokenTimeInvariant(of_parent, next_l2_time, _, l1_time) => {
                &&& of_parent == origin
                &&& next_l2_time == self.next_l2_time()
                &&& next_l2_time < l1_time
            },
            BuilderError::Custom(_) => false,
        }
    }
}

/// A build is consistent when it starts.
pub proof fn lemma_start_is_consistent(build: PayloadBuild)
    requires
        build.stage == (Stage::SystemConfig { number: build.site.l2_parent.block_info.number }),
    ensures
        build.consistent(),
        build.stage.answers_left() == 13,
{
}

/// A build stays consistent, whatever the answers are. In particular: it only
/// resets the pipeline where the L1 origin and the parent contradict each other,
/// and it only completes a block that does not come before its L1 origin.
pub proof fn lemma_build_stays_consistent(before: PayloadBuild, event: Event, after: PayloadBuild)
    requires
        before.consistent(),
        after.site == before.site,
        before.follows(event, after.stage),
    ensures
        after.consistent(),
{
}

/// Every answer brings a build closer to its end; anything else leaves it where
/// it is.
pub proof fn lemma_answers_bring_an_end(build: PayloadBuild, event: Event, next: Stage)
    requires
        build.follows(event, next),
    ensures
        build.stage.is_answered_by(event) ==> next.answers_left() < build.stage.answers_left(),
        !build.stage.is_answered_by(event) ==> next == build.stage,
{
}

/// A block of the same L1 origin as its parent takes no deposits and leaves
/// minting where the parent left it; after the genesis block, at its start.
pub proof fn lemma_same_epoch_preserves_fct(
    build: PayloadBuild,
    parent_info: Option<L1BlockInfoFacet>,
    fields: HeaderFields,
    next: Stage,
)
    requires
        build.consistent(),
        build.stage matches Stage::Header { parent_info: info, .. } && info == parent_info,
        !build.site.new_epoch(),
        build.follows(Event::Header(fields), next),
        next !is Failed,
    ensures
        next matches Stage::Forks { draft, .. } && {
            &&& draft.fct == parent_fct(build.site.rollup_cfg, parent_info)
            &&& draft.deposits@ == Seq::<Vec<u8>>::empty()
        },
{
}

/// The L1 info that a block carries is read back with how far minting has got:
/// the next block goes on from there.
pub proof fn lemma_fct_reaches_the_next_block(
    cfg: RollupConfig,
    fct: FctState,
    info: L1BlockInfoFacet,
    read: L1BlockInfoFacet,
)
    requires
        reads(read, calldata(completed_info(cfg, fct, info))),
    ensures
        fct_of(read) == fct,
{
    lemma_encoded_info_reads_back(completed_info(cfg, fct, info), read);
}

/// `builds` are what a build goes through from its start, on the answers
/// `events`.
pub open spec fn is_run(builds: Seq<PayloadBuild>, events: Seq<Event>) -> bool {
    &&& builds.len() == events.len() + 1
    &&& builds[0].stage == (Stage::SystemConfig {
        number: builds[0].site.l2_parent.block_info.number,
    })
    &&& forall|i: int| 0 <= i < events.len() ==> #[trigger] is_step(builds, events, i)
}

/// The `i`-th answer leads from the `i`-th build to the next.
pub open spec fn is_step(builds: Seq<PayloadBuild>, events: Seq<Event>, i: int) -> bool {
    &&& builds[i + 1].site == builds[i].site
    &&& builds[i].follows(events[i], builds[i + 1].stage)
}

/// A build is consistent all the time, and stays where it was started.
pub proof fn lemma_run_is_consistent(builds: Seq<PayloadBuild>, events: Seq<Event>, n: int)
    requires
        is_run(builds, events),
        0 <= n <= events.len(),
    ensures
        builds[n].consistent(),
        builds[n].site == builds[0].site,
    decreases n,
{
    if n == 0 {
        lemma_start_is_consistent(builds[0]);
    } else {
        lemma_run_is_consistent(builds, events, n - 1);
        assert(is_step(builds, events, n - 1));
        lemma_build_stays_consistent(builds[n - 1], events[n - 1], builds[n]);
    }
}

/// A build ends after at most 13 answers.
pub proof fn lemma_run_ends(builds: Seq<PayloadBuild>, events: Seq<Event>, n: int)
    requires
        is_run(builds, events),
        0 <= n <= events.len(),
        forall|i: int| 0 <= i < n ==> (#[trigger] builds[i]).stage.is_answered_by(events[i]),
    ensures
        builds[n].stage.answers_left() + n <= 13,
    decreases n,
{
    if n > 0 {
        lemma_run_ends(builds, events, n - 1);
        assert(is_step(builds, events, n - 1));
        lemma_answers_bring_an_end(builds[n - 1], events[n - 1], builds[n].stage);
    }
}

/// The answers that come before the header of the L1 origin: more than one
/// where the parent carries an L1 info.
pub open spec fn first_answers(parent_info: Option<L1BlockInfoFacet>) -> int {
    match parent_info {
        Some(_) => 3,
        None => 1,
    }
}

/// The outside answers that the parent is a Facet block with this L1 info; it is
/// not asked where the parent is the genesis block, which has none.
pub open spec fn parent_answers(
    site: BuildSite,
    events: Seq<Event>,
    parent_info: Option<L1BlockInfoFacet>,
) -> bool {
    &&& events[0] == Event::SystemConfig
    &&& match parent_info {
        Some(info) => {
            &&& site.l2_parent.block_info.number > 0
            &&& events[1] matches Event::ParentBlock(Ok(txs)) && txs@.len() > 0 && txs@[0] is Deposit
            &&& events[2] == Event::ParentInfo(Ok(ParentL1Info::Facet(info)))
        },
        None => site.l2_parent.block_info.number == 0,
    }
}

/// Where the parent left minting.
pub open spec fn parent_fct(
    cfg: RollupConfig,
    parent_info: Option<L1BlockInfoFacet>,
) -> FctState {
    match parent_info {
        Some(info) => fct_of(info),
        None => genesis_fct(cfg),
    }
}

/// The first answers lead to the header of the L1 origin.
proof fn lemma_header_is_reached(
    builds: Seq<PayloadBuild>,
    events: Seq<Event>,
    parent_info: Option<L1BlockInfoFacet>,
)
    requires
        is_run(builds, events),
        events.len() > first_answers(parent_info),
        parent_answers(builds[0].site, events, parent_info),
        !builds[0].site.new_epoch() ==> builds[0].site.epoch.hash@
            == builds[0].site.l2_parent.l1_origin.hash@,
    ensures
        ({
            let build = builds[first_answers(parent_info)];
            &&& build.site == builds[0].site
            &&& build.stage == (Stage::Header {
                hash: build.site.epoch.hash,
                parent_info,
                new_epoch: build.site.new_epoch(),
            })
        }),
{
    assert(is_step(builds, events, 0));
    if parent_info is Some {
        assert(is_step(builds, events, 1));
        assert(is_step(builds, events, 2));
    }
}

/// From the hardforks on, the answers lead to the attributes.
proof fn lemma_payload_is_completed(
    builds: Seq<PayloadBuild>,
    events: Seq<Event>,
    n: int,
    draft: Draft,
    before: ActiveForks,
    now: ActiveForks,
    groups: Vec<Vec<Vec<u8>>>,
    new_info: L1BlockInfoFacet,
    encoded: Vec<u8>,
    gas_limit: u64,
    eip_1559_params: Option<[u8; 8]>,
)
    requires
        is_run(builds, events),
        0 <= n,
        events.len() == n + 5,
        builds[n].stage matches Stage::Forks { draft: of_draft, .. } && of_draft == draft,
        events[n] == Event::Forks(before, now),
        events[n + 1] == Event::Upgrades(groups),
        events[n + 2] == Event::NewInfo(Ok(NewL1Info::Facet(new_info))),
        events[n + 3] == Event::Encoding(encoded),
        events[n + 4] == Event::GasSettings(gas_limit, eip_1559_params),
        groups@.len() == activated(before, now).len(),
    ensures
        builds[n + 3].stage matches Stage::Encoding { transaction, .. } && is_l1_info_deposit(
            transaction,
            l1_info_source_hash(new_info.block_hash@, draft.sequence_number),
            L1_BLOCK_INFO,
            calldata(completed_info(builds[n].site.rollup_cfg, draft.fct, new_info)),
        ),
        builds[n + 5].stage matches Stage::Done(attributes) && are_attributes(
            attributes,
            draft.header,
            draft.next_l2_time as int,
            seq![encoded] + draft.deposits@ + joined(groups@),
            now,
            gas_limit,
            eip_1559_params,
        ),
{
    assert(is_step(builds, events, n));
    assert(is_step(builds, events, n + 1));
    assert(is_step(builds, events, n + 2));
    assert(is_step(builds, events, n + 3));
    assert(is_step(builds, events, n + 4));
}

/// A block of the same L1 origin as its parent: whatever the outside answers,
/// the payload holds the L1 info, with minting where the parent left it (after
/// the genesis block, at its start), and then the transactions of the hardforks
/// that become active.
pub proof fn lemma_same_epoch_payload(
    builds: Seq<PayloadBuild>,
    events: Seq<Event>,
    parent_info: Option<L1BlockInfoFacet>,
    fields: HeaderFields,
    before: ActiveForks,
    now: ActiveForks,
    groups: Vec<Vec<Vec<u8>>>,
    new_info: L1BlockInfoFacet,
    encoded: Vec<u8>,
    gas_limit: u64,
    eip_1559_params: Option<[u8; 8]>,
)
    requires
        is_run(builds, events),
        parent_answers(builds[0].site, events, parent_info),
        ({
            let n = first_answers(parent_info);
            &&& events.len() == n + 6
            &&& events[n] == Event::Header(fields)
            &&& events[n + 1] == Event::Forks(before, now)
            &&& events[n + 2] == Event::Upgrades(groups)
            &&& events[n + 3] == Event::NewInfo(Ok(NewL1Info::Facet(new_info)))
            &&& events[n + 4] == Event::Encoding(encoded)
            &&& events[n + 5] == Event::GasSettings(gas_limit, eip_1559_params)
        }),
        groups@.len() == activated(before, now).len(),
        ({
            let site = builds[0].site;
            &&& site.l2_parent.seq_num < u64::MAX
            &&& !site.new_epoch()
            &&& site.origin_fits(sealed(fields))
            &&& fields.timestamp <= site.next_l2_time() <= u64::MAX
        }),
    ensures
        ({
            let n = first_answers(parent_info);
            let site = builds[0].site;
            &&& builds[n + 4].stage matches Stage::Encoding { transaction, .. }
                && is_l1_info_deposit(
                transaction,
                l1_info_source_hash(new_info.block_hash@, (site.l2_parent.seq_num + 1) as u64),
                L1_BLOCK_INFO,
                calldata(
                    completed_info(
                        site.rollup_cfg,
                        parent_fct(site.rollup_cfg, parent_info),
                        new_info,
                    ),
                ),
            )
            &&& builds[n + 6].stage matches Stage::Done(attributes) && are_attributes(
                attributes,
                sealed(fields),
                site.next_l2_time(),
                seq![encoded] + joined(groups@),
                now,
                gas_limit,
                eip_1559_params,
            )
        }),
{
    let n = first_answers(parent_info);
    lemma_header_is_reached(builds, events, parent_info);
    assert(is_step(builds, events, n));
    let draft = builds[n + 1].stage->Forks_draft;
    lemma_payload_is_completed(
        builds,
        events,
        n + 1,
        draft,
        before,
        now,
        groups,
        new_info,
        encoded,
        gas_limit,
        eip_1559_params,
    );
    assert(seq![encoded] + draft.deposits@ + joined(groups@) =~= seq![encoded] + joined(groups@));
}

/// The first block of an L1 origin: whatever the outside answers, the payload
/// holds the L1 info, with minting where the derivation of deposits left it,
/// then the deposits and then the transactions of the hardforks that become
/// active; and the derivation starts from where the parent left minting (after
/// the genesis block, from the start).
pub proof fn lemma_new_epoch_payload(
    builds: Seq<PayloadBuild>,
    events: Seq<Event>,
    parent_info: Option<L1BlockInfoFacet>,
    fields: HeaderFields,
    deposits: Vec<Vec<u8>>,
    fct: FctState,
    before: ActiveForks,
    now: ActiveForks,
    groups: Vec<Vec<Vec<u8>>>,
    new_info: L1BlockInfoFacet,
    encoded: Vec<u8>,
    gas_limit: u64,
    eip_1559_params: Option<[u8; 8]>,
)
    requires
        is_run(builds, events),
        parent_answers(builds[0].site, events, parent_info),
        ({
            let n = first_answers(parent_info);
            &&& events.len() == n + 10
            &&& events[n] == Event::Header(fields)
            &&& events[n + 1] == Event::Receipts
            &&& events[n + 2] == Event::Transactions
            &&& events[n + 3] == Event::Deposits(Ok((deposits, fct)))
            &&& events[n + 4] == Event::ConfigUpdate(Ok(()))
            &&& events[n + 5] == Event::Forks(before, now)
            &&& events[n + 6] == Event::Upgrades(groups)
            &&& events[n + 7] == Event::NewInfo(Ok(NewL1Info::Facet(new_info)))
            &&& events[n + 8] == Event::Encoding(encoded)
            &&& events[n + 9] == Event::GasSettings(gas_limit, eip_1559_params)
        }),
        groups@.len() == activated(before, now).len(),
        ({
            let site = builds[0].site;
            &&& site.l2_parent.block_info.number < u64::MAX
            &&& site.new_epoch()
            &&& site.origin_fits(sealed(fields))
            &&& fields.timestamp <= site.next_l2_time() <= u64::MAX
        }),
    ensures
        ({
            let n = first_answers(parent_info);
            let site = builds[0].site;
            &&& builds[n + 3].stage matches Stage::Deposits { request, .. } && {
                &&& request.l2_chain_id == site.rollup_cfg.l2_chain_id
                &&& request.l2_block_number == site.l2_parent.block_info.number + 1
                &&& request.l1_base_fee == match fields.base_fee_per_gas {
                    Some(fee) => fee,
                    None => 0,
                }
                &&& match parent_info {
                    Some(info) => request.parent_l1_info == info,
                    None => is_genesis_info(site.rollup_cfg, request.parent_l1_info),
                }
            }
            &&& builds[n + 8].stage matches Stage::Encoding { transaction, .. }
                && is_l1_info_deposit(
                transaction,
                l1_info_source_hash(new_info.block_hash@, 0),
                L1_BLOCK_INFO,
                calldata(completed_info(site.rollup_cfg, fct, new_info)),
            )
            &&& builds[n + 10].stage matches Stage::Done(attributes) && are_attributes(
                attributes,
                sealed(fields),
                site.next_l2_time(),
                seq![encoded] + deposits@ + joined(groups@),
                now,
                gas_limit,
                eip_1559_params,
            )
        }),
{
    let n = first_answers(parent_info);
    lemma_header_is_reached(builds, events, parent_info);
    assert(is_step(builds, events, n));
    assert(is_step(builds, events, n + 1));
    assert(is_step(builds, events, n + 2));
    assert(is_step(builds, events, n + 3));
    assert(is_step(builds, events, n + 4));
    lemma_payload_is_completed(
        builds,
        events,
        n + 5,
        builds[n + 5].stage->Forks_draft,
        before,
        now,
        groups,
        new_info,
        encoded,
        gas_limit,
        eip_1559_params,
    );
}

} // verus!
