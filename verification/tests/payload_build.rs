use alloy_consensus::Header;
use alloy_primitives::{keccak256, Address, Bytes, B256, B64, U256};
use facet_protocol::attributes::{
    ActiveForks, BlockInfo, BlockNumHash, BlockTransaction, BuilderError, FctState, Hardfork,
    HeaderFields, L1Header, L2BlockInfo, NewL1Info, ParentL1Info, PayloadAttributes, PipelineError,
    PipelineErrorKind, RollupConfig,
};
use facet_protocol::l1_info::L1BlockInfoFacet;
use facet_protocol::payload_build::{
    activated_forks, complete_info, genesis_info, seal, Event, PayloadBuild, Stage,
    StatefulAttributesBuilder,
};

fn config(block_time: u64) -> RollupConfig {
    RollupConfig {
        block_time,
        l2_chain_id: 0xface7,
        fct_initial_rate: None,
        fct_max_supply: None,
        fct_initial_target_per_period: None,
    }
}

fn no_forks() -> ActiveForks {
    ActiveForks { canyon: false, ecotone: false, fjord: false, isthmus: false, interop: false }
}

fn header_fields(header: &Header) -> HeaderFields {
    HeaderFields {
        parent_hash: header.parent_hash.0,
        ommers_hash: header.ommers_hash.0,
        beneficiary: header.beneficiary.into_array(),
        state_root: header.state_root.0,
        transactions_root: header.transactions_root.0,
        receipts_root: header.receipts_root.0,
        logs_bloom: header.logs_bloom.0 .0,
        difficulty: header.difficulty.into_limbs(),
        number: header.number,
        gas_limit: header.gas_limit,
        gas_used: header.gas_used,
        timestamp: header.timestamp,
        extra_data: header.extra_data.to_vec(),
        mix_hash: header.mix_hash.0,
        nonce: header.nonce.0,
        base_fee_per_gas: header.base_fee_per_gas,
        withdrawals_root: header.withdrawals_root.map(|root| root.0),
        blob_gas_used: header.blob_gas_used,
        excess_blob_gas: header.excess_blob_gas,
        parent_beacon_block_root: header.parent_beacon_block_root.map(|root| root.0),
        requests_hash: header.requests_hash.map(|hash| hash.0),
    }
}

fn parent_info() -> L1BlockInfoFacet {
    L1BlockInfoFacet {
        number: 3,
        fct_mint_rate: 11,
        fct_total_minted: 22,
        fct_period_start_block: 33,
        fct_period_minted: 44,
        ..Default::default()
    }
}

/// What the outside says when it is asked.
struct Outside {
    header: Header,
    deposits: Result<(Vec<Vec<u8>>, FctState), String>,
    update: Result<(), String>,
    before: ActiveForks,
    now: ActiveForks,
    gas_limit: u64,
    eip_1559_params: Option<[u8; 8]>,
}

impl Outside {
    fn new(header: &Header) -> Outside {
        Outside {
            header: header.clone(),
            deposits: Ok((vec![], state(0, 0, 0, 0))),
            update: Ok(()),
            before: no_forks(),
            now: no_forks(),
            gas_limit: 0,
            eip_1559_params: None,
        }
    }

    fn answer(&self, stage: &Stage) -> Event {
        match stage {
            Stage::SystemConfig { .. } => Event::SystemConfig,
            Stage::ParentBlock { .. } => Event::ParentBlock(Ok(vec![
                BlockTransaction::Deposit(parent_info().encode_calldata()),
                BlockTransaction::Other,
            ])),
            Stage::ParentInfo { calldata } => Event::ParentInfo(Ok(ParentL1Info::Facet(
                L1BlockInfoFacet::decode_calldata(calldata).unwrap(),
            ))),
            Stage::Header { .. } => Event::Header(header_fields(&self.header)),
            Stage::Receipts { .. } => Event::Receipts,
            Stage::Transactions { .. } => Event::Transactions,
            Stage::Deposits { .. } => Event::Deposits(self.deposits.clone()),
            Stage::ConfigUpdate { .. } => Event::ConfigUpdate(self.update.clone()),
            Stage::Forks { .. } => Event::Forks(self.before, self.now),
            Stage::Upgrades { wanted, .. } => {
                Event::Upgrades(wanted.iter().map(|fork| upgrade(*fork)).collect())
            }
            Stage::NewInfo { draft, .. } => Event::NewInfo(Ok(NewL1Info::Facet(L1BlockInfoFacet {
                number: draft.header.number,
                time: draft.header.timestamp,
                block_hash: draft.header.hash,
                sequence_number: draft.sequence_number,
                ..Default::default()
            }))),
            Stage::Encoding { transaction, .. } => Event::Encoding(transaction.input.clone()),
            Stage::GasSettings { .. } => Event::GasSettings(self.gas_limit, self.eip_1559_params),
            Stage::Done(_) | Stage::Failed(_) => panic!("there is nothing left to answer"),
        }
    }

    /// Runs a build to its end, and shows each stage on the way. Returns the end
    /// and the number of answers.
    fn watch(&self, build: PayloadBuild, mut look: impl FnMut(&Stage)) -> (PayloadBuild, usize) {
        let mut build = build;
        let mut answers = 0;
        while !matches!(build.stage, Stage::Done(_) | Stage::Failed(_)) {
            look(&build.stage);
            let event = self.answer(&build.stage);
            build = build.advance(event);
            answers += 1;
        }
        (build, answers)
    }

    /// Runs a build to its end.
    fn run(&self, build: PayloadBuild) -> PayloadBuild {
        self.watch(build, |_| {}).0
    }

    /// Runs a build up to a stage.
    fn run_up_to(&self, build: PayloadBuild, there: fn(&Stage) -> bool) -> PayloadBuild {
        let mut build = build;
        while !there(&build.stage) {
            let event = self.answer(&build.stage);
            build = build.advance(event);
        }
        build
    }
}

fn upgrade(fork: Hardfork) -> Vec<Vec<u8>> {
    match fork {
        Hardfork::Ecotone => (0xe0..0xe6).map(|n| vec![n]).collect(),
        Hardfork::Fjord => (0xf0..0xf3).map(|n| vec![n]).collect(),
        Hardfork::Isthmus => vec![],
        Hardfork::Interop => vec![vec![0x10]],
    }
}

fn state(
    mint_rate: u128,
    total_minted: u128,
    period_start_block: u128,
    period_minted: u128,
) -> FctState {
    FctState { mint_rate, total_minted, period_start_block, period_minted }
}

fn fee_vault() -> [u8; 20] {
    let mut vault = [0u8; 20];
    vault[0] = 0x42;
    vault[19] = 0x11;
    vault
}

fn block(hash: [u8; 32], number: u64, timestamp: u64) -> BlockInfo {
    BlockInfo { hash, number, parent_hash: [0; 32], timestamp }
}

fn start(cfg: RollupConfig, l2_parent: L2BlockInfo, epoch: BlockNumHash) -> PayloadBuild {
    StatefulAttributesBuilder::new(cfg, "L2", "L1").prepare_payload_attributes(l2_parent, epoch)
}

fn failure(build: PayloadBuild) -> PipelineErrorKind {
    match build.stage {
        Stage::Failed(kind) => kind,
        stage => panic!("not a failure: {stage:?}"),
    }
}

fn payload(build: PayloadBuild) -> PayloadAttributes {
    match build.stage {
        Stage::Done(attributes) => attributes,
        stage => panic!("not a payload: {stage:?}"),
    }
}

fn custom(text: &str) -> PipelineErrorKind {
    PipelineErrorKind::Critical(PipelineError::AttributesBuilder(BuilderError::Custom(
        text.to_string(),
    )))
}

#[test]
fn test_prepare_payload_block_mismatch_epoch_reset() {
    let l2_number = 1;
    let header = Header::default();
    let hash = header.hash_slow().0;
    let epoch = BlockNumHash { hash, number: l2_number };
    let l2_parent = L2BlockInfo {
        block_info: block([0; 32], l2_number, 0),
        l1_origin: BlockNumHash { hash: B256::left_padding_from(&[0xFF]).0, number: 2 },
        seq_num: 0,
    };
    // This should error because the l2 parent's l1_origin.hash should equal the epoch header
    // hash. Here we use the default header whose hash will not equal the custom `l2_hash`.
    let expected =
        BuilderError::BlockMismatchEpochReset(epoch, l2_parent.l1_origin, B256::default().0);
    let end = Outside::new(&header).run(start(config(0), l2_parent, epoch));
    assert_eq!(failure(end), PipelineErrorKind::Reset(expected));
}

#[test]
fn test_prepare_payload_block_mismatch() {
    let l2_number = 1;
    let header = Header::default();
    let hash = header.hash_slow().0;
    let epoch = BlockNumHash { hash, number: l2_number };
    let l2_parent = L2BlockInfo {
        block_info: block([0; 32], l2_number, 0),
        l1_origin: BlockNumHash { hash: [0; 32], number: l2_number },
        seq_num: 0,
    };
    // This should error because the l2 parent's l1_origin.hash should equal the epoch hash
    // Here the default header is used whose hash will not equal the custom `l2_hash` above.
    let expected = BuilderError::BlockMismatch(epoch, l2_parent.l1_origin);
    let end = Outside::new(&header).run(start(config(0), l2_parent, epoch));
    assert_eq!(failure(end), PipelineErrorKind::Reset(expected));
}

#[test]
fn test_prepare_payload_broken_time_invariant() {
    let block_time = 10;
    let timestamp = 100;
    let l2_number = 1;
    let header = Header { timestamp, ..Default::default() };
    let hash = header.hash_slow().0;
    let epoch = BlockNumHash { hash, number: l2_number };
    let l2_parent = L2BlockInfo {
        block_info: block([0; 32], l2_number, 0),
        l1_origin: BlockNumHash { hash, number: l2_number },
        seq_num: 0,
    };
    let next_l2_time = l2_parent.block_info.timestamp + block_time;
    let block_id = BlockNumHash { hash, number: 0 };
    let expected =
        BuilderError::BrokenTimeInvariant(l2_parent.l1_origin, next_l2_time, block_id, timestamp);
    let end = Outside::new(&header).run(start(config(block_time), l2_parent, epoch));
    assert_eq!(failure(end), PipelineErrorKind::Reset(expected));
}

/// A block of the same origin as its parent, which is block 1 at the header's
/// time.
fn same_epoch(header: &Header) -> (L2BlockInfo, BlockNumHash) {
    let hash = header.hash_slow().0;
    let l2_parent = L2BlockInfo {
        block_info: BlockInfo { parent_hash: hash, ..block([0; 32], 1, header.timestamp) },
        l1_origin: BlockNumHash { hash, number: 1 },
        seq_num: 0,
    };
    (l2_parent, BlockNumHash { hash, number: 1 })
}

/// The L1 info that the outside gives for the block after `same_epoch`'s
/// parent, with minting where that one left it.
fn preserved(header: &Header) -> L1BlockInfoFacet {
    L1BlockInfoFacet {
        number: header.number,
        time: header.timestamp,
        block_hash: header.hash_slow().0,
        sequence_number: 1,
        fct_mint_rate: 11,
        fct_total_minted: 22,
        fct_period_start_block: 33,
        fct_period_minted: 44,
        ..Default::default()
    }
}

#[test]
fn test_prepare_payload_without_forks() {
    let block_time = 10;
    let timestamp = 100;
    let header = Header { timestamp, ..Default::default() };
    let prev_randao = header.mix_hash.0;
    let (l2_parent, epoch) = same_epoch(&header);
    let next_l2_time = l2_parent.block_info.timestamp + block_time;
    let end = Outside::new(&header).run(start(config(block_time), l2_parent, epoch));
    let payload = payload(end);
    assert_eq!(payload.transactions.len(), 1);
    assert_eq!(
        payload,
        PayloadAttributes {
            timestamp: next_l2_time,
            prev_randao,
            suggested_fee_recipient: fee_vault(),
            parent_beacon_block_root: None,
            empty_withdrawals: false,
            transactions: vec![preserved(&header).encode_calldata()],
            no_tx_pool: true,
            gas_limit: 0,
            eip_1559_params: None,
        }
    );
}

#[test]
fn test_prepare_payload_with_canyon() {
    let block_time = 10;
    let timestamp = 100;
    let header = Header { timestamp, ..Default::default() };
    let prev_randao = header.mix_hash.0;
    let (l2_parent, epoch) = same_epoch(&header);
    let next_l2_time = l2_parent.block_info.timestamp + block_time;
    let canyon = ActiveForks { canyon: true, ..no_forks() };
    let outside = Outside { before: canyon, now: canyon, ..Outside::new(&header) };
    let end = outside.run(start(config(block_time), l2_parent, epoch));
    let payload = payload(end);
    assert_eq!(payload.transactions.len(), 1);
    assert_eq!(
        payload,
        PayloadAttributes {
            timestamp: next_l2_time,
            prev_randao,
            suggested_fee_recipient: fee_vault(),
            parent_beacon_block_root: None,
            empty_withdrawals: true,
            transactions: vec![preserved(&header).encode_calldata()],
            no_tx_pool: true,
            gas_limit: 0,
            eip_1559_params: None,
        }
    );
}

#[test]
fn test_prepare_payload_with_ecotone() {
    let block_time = 2;
    let timestamp = 100;
    let header = Header { timestamp, ..Default::default() };
    let parent_beacon_block_root = Some(header.parent_beacon_block_root.unwrap_or_default().0);
    let prev_randao = header.mix_hash.0;
    let (l2_parent, epoch) = same_epoch(&header);
    let next_l2_time = l2_parent.block_info.timestamp + block_time;
    // A hardfork brings the earlier ones with it
    let outside = Outside {
        now: ActiveForks { canyon: true, ecotone: true, ..no_forks() },
        ..Outside::new(&header)
    };
    let end = outside.run(start(config(block_time), l2_parent, epoch));
    let mut payload = payload(end);
    assert_eq!(payload.transactions.len(), 7);
    payload.transactions.clear();
    assert_eq!(
        payload,
        PayloadAttributes {
            timestamp: next_l2_time,
            prev_randao,
            suggested_fee_recipient: fee_vault(),
            parent_beacon_block_root,
            empty_withdrawals: true,
            transactions: vec![],
            no_tx_pool: true,
            gas_limit: 0,
            eip_1559_params: None,
        }
    );
}

#[test]
fn test_prepare_payload_with_fjord() {
    let block_time = 2;
    let timestamp = 100;
    let header = Header { timestamp, ..Default::default() };
    let prev_randao = header.mix_hash.0;
    let (l2_parent, epoch) = same_epoch(&header);
    let next_l2_time = l2_parent.block_info.timestamp + block_time;
    // A hardfork brings the earlier ones with it
    let outside = Outside {
        now: ActiveForks { canyon: true, ecotone: true, fjord: true, ..no_forks() },
        ..Outside::new(&header)
    };
    let end = outside.run(start(config(block_time), l2_parent, epoch));
    let mut payload = payload(end);
    assert_eq!(payload.transactions.len(), 10);
    payload.transactions.clear();
    assert_eq!(
        payload,
        PayloadAttributes {
            timestamp: next_l2_time,
            prev_randao,
            suggested_fee_recipient: fee_vault(),
            parent_beacon_block_root: Some(B256::ZERO.0),
            empty_withdrawals: true,
            transactions: vec![],
            no_tx_pool: true,
            gas_limit: 0,
            eip_1559_params: None,
        }
    );
}

#[test]
fn a_payload_takes_its_randomness_and_its_gas_settings() {
    let header = Header { timestamp: 100, mix_hash: B256::repeat_byte(7), ..Default::default() };
    let (l2_parent, epoch) = same_epoch(&header);
    let outside = Outside {
        gas_limit: 30_000_000,
        eip_1559_params: Some([1, 2, 3, 4, 5, 6, 7, 8]),
        ..Outside::new(&header)
    };
    let (end, answers) = outside.watch(start(config(10), l2_parent, epoch), |_| {});
    assert_eq!(answers, 9);
    let attributes = payload(end);
    assert_eq!(attributes.prev_randao, [7; 32]);
    assert_eq!(attributes.gas_limit, 30_000_000);
    assert_eq!(attributes.eip_1559_params, Some([1, 2, 3, 4, 5, 6, 7, 8]));
}

#[test]
fn a_header_is_read_with_its_hash() {
    let plain = Header { number: 4, timestamp: 5, ..Default::default() };
    let full = Header {
        parent_hash: B256::repeat_byte(1),
        beneficiary: Address::repeat_byte(2),
        difficulty: U256::from_limbs([3, 4, 5, 6]),
        gas_limit: 7,
        gas_used: 8,
        extra_data: Bytes::from(vec![9, 10]),
        nonce: B64::repeat_byte(11),
        base_fee_per_gas: Some(12),
        withdrawals_root: Some(B256::repeat_byte(13)),
        blob_gas_used: Some(14),
        excess_blob_gas: Some(15),
        parent_beacon_block_root: Some(B256::repeat_byte(16)),
        requests_hash: Some(B256::repeat_byte(17)),
        ..plain.clone()
    };
    for header in [plain, full] {
        let read = seal(header_fields(&header));
        assert_eq!(
            read,
            L1Header {
                number: 4,
                hash: header.hash_slow().0,
                parent_hash: header.parent_hash.0,
                timestamp: 5,
                base_fee_per_gas: header.base_fee_per_gas,
                mix_hash: header.mix_hash.0,
                parent_beacon_block_root: header.parent_beacon_block_root.map(|root| root.0),
            }
        );
    }
}

#[test]
fn a_payload_that_activates_forks() {
    let header = Header { timestamp: 100, ..Default::default() };
    let (l2_parent, epoch) = same_epoch(&header);
    let outside = Outside {
        now: ActiveForks { canyon: true, ecotone: true, fjord: true, isthmus: true, interop: true },
        ..Outside::new(&header)
    };
    let mut asked = false;
    let (end, _) = outside.watch(start(config(2), l2_parent, epoch), |stage| {
        if let Stage::Forks { parent_time, draft } = stage {
            assert_eq!((*parent_time, draft.next_l2_time, draft.sequence_number), (100, 102, 1));
            asked = true;
        }
    });
    assert!(asked);
    let attributes = payload(end);
    // Without a parent beacon root in the header there is still one here
    assert_eq!(attributes.parent_beacon_block_root, Some([0; 32]));
    assert_eq!(
        attributes.transactions[1..],
        [0xe0u8, 0xe1, 0xe2, 0xe3, 0xe4, 0xe5, 0xf0, 0xf1, 0xf2, 0x10].map(|n| vec![n])
    );
}

#[test]
fn a_root_in_the_header_is_kept() {
    let header = Header {
        timestamp: 100,
        parent_beacon_block_root: Some(B256::repeat_byte(9)),
        ..Default::default()
    };
    let (l2_parent, epoch) = same_epoch(&header);
    let ecotone = ActiveForks { canyon: true, ecotone: true, ..no_forks() };
    let outside = Outside { before: ecotone, now: ecotone, ..Outside::new(&header) };
    let end = outside.run(start(config(2), l2_parent, epoch));
    let attributes = payload(end);
    assert_eq!(attributes.parent_beacon_block_root, Some([9; 32]));
    assert_eq!(attributes.transactions.len(), 1);
}

#[test]
fn forks_that_were_active_bring_nothing() {
    let all =
        ActiveForks { canyon: true, ecotone: true, fjord: true, isthmus: true, interop: true };
    assert_eq!(activated_forks(&all, &all), vec![]);
    assert_eq!(activated_forks(&all, &no_forks()), vec![]);
    assert_eq!(
        activated_forks(&no_forks(), &all),
        vec![Hardfork::Ecotone, Hardfork::Fjord, Hardfork::Isthmus, Hardfork::Interop]
    );
    let fjord = ActiveForks { canyon: true, ecotone: true, fjord: true, ..no_forks() };
    assert_eq!(activated_forks(&fjord, &all), vec![Hardfork::Isthmus, Hardfork::Interop]);
}

/// The first block of an origin: its parent, and the header of the origin.
fn new_epoch() -> (L2BlockInfo, BlockNumHash, Header) {
    let header = Header {
        number: 8,
        timestamp: 100,
        parent_hash: B256::repeat_byte(5),
        base_fee_per_gas: Some(77),
        ..Default::default()
    };
    let l2_parent = L2BlockInfo {
        block_info: block([0; 32], 41, 99),
        l1_origin: BlockNumHash { hash: [5; 32], number: 7 },
        seq_num: 6,
    };
    let epoch = BlockNumHash { hash: header.hash_slow().0, number: 8 };
    (l2_parent, epoch, header)
}

#[test]
fn the_first_block_of_an_epoch_takes_deposits() {
    let (l2_parent, epoch, header) = new_epoch();
    let outside = Outside {
        deposits: Ok((vec![vec![1], vec![2, 2]], state(1, 2, 3, 4))),
        now: ActiveForks { canyon: true, ecotone: true, fjord: true, ..no_forks() },
        before: ActiveForks { canyon: true, ecotone: true, ..no_forks() },
        ..Outside::new(&header)
    };
    let mut asked = false;
    let (end, answers) = outside.watch(start(config(1), l2_parent, epoch), |stage| {
        if let Stage::Deposits { request, .. } = stage {
            assert_eq!(request.l2_chain_id, 0xface7);
            assert_eq!(request.l2_block_number, 42);
            assert_eq!(request.l1_base_fee, 77);
            assert_eq!(request.parent_l1_info, parent_info());
            asked = true;
        }
    });
    assert!(asked);
    assert_eq!(answers, 13);
    let transactions = payload(end).transactions;
    assert_eq!(
        transactions[1..],
        [vec![1u8], vec![2, 2], vec![0xf0], vec![0xf1], vec![0xf2]]
    );
    let info = L1BlockInfoFacet::decode_calldata(&transactions[0]).unwrap();
    assert_eq!(info.sequence_number, 0);
    // Minting goes on from where the deposits left it
    assert_eq!(info.fct_mint_rate, 1);
    assert_eq!(info.fct_total_minted, 2);
    assert_eq!(info.fct_period_start_block, 3);
    assert_eq!(info.fct_period_minted, 4);
}

#[test]
fn the_genesis_block_has_no_info_to_go_on_from() {
    let (mut l2_parent, epoch, mut header) = new_epoch();
    l2_parent.block_info.number = 0;
    header.base_fee_per_gas = None;
    let epoch = BlockNumHash { hash: header.hash_slow().0, ..epoch };
    let mut cfg = config(1);
    cfg.fct_initial_rate = Some([5, 1, 0, 0]);
    cfg.fct_max_supply = Some([u64::MAX, u64::MAX, 0, 0]);
    cfg.fct_initial_target_per_period = Some([9, 0, 0, 0]);
    let expected = L1BlockInfoFacet {
        fct_mint_rate: (1 << 64) + 5,
        fct_max_supply: u128::MAX,
        fct_initial_target_per_period: 9,
        ..Default::default()
    };
    assert_eq!(genesis_info(&cfg), expected);
    let mut asked = false;
    let (end, answers) = Outside::new(&header).watch(start(cfg, l2_parent, epoch), |stage| {
        if let Stage::Deposits { request, .. } = stage {
            assert_eq!(request.l1_base_fee, 0);
            assert_eq!(request.l2_block_number, 1);
            assert_eq!(request.parent_l1_info, expected);
            asked = true;
        }
    });
    assert!(asked);
    assert_eq!(answers, 11);
    payload(end);
    // Of the same epoch: minting is at its start
    let header = Header { timestamp: 100, ..Default::default() };
    let (mut l2_parent, epoch) = same_epoch(&header);
    l2_parent.block_info.number = 0;
    let (end, answers) = Outside::new(&header).watch(start(cfg, l2_parent, epoch), |_| {});
    assert_eq!(answers, 7);
    let info = L1BlockInfoFacet::decode_calldata(&payload(end).transactions[0]).unwrap();
    assert_eq!(info.fct_mint_rate, (1 << 64) + 5);
    assert_eq!(info.fct_total_minted, 0);
    assert_eq!(info.fct_max_supply, u128::MAX);
    assert_eq!(info.fct_initial_target_per_period, 9);
}

#[test]
fn an_amount_that_does_not_fit_counts_as_none() {
    let mut cfg = config(1);
    cfg.fct_initial_rate = Some([0, 0, 1, 0]);
    cfg.fct_max_supply = Some([1, 0, 0, 1]);
    let info = genesis_info(&cfg);
    assert_eq!(info.fct_mint_rate, 0);
    assert_eq!(info.fct_max_supply, 0);
    assert_eq!(info.fct_initial_target_per_period, 0);
}

#[test]
fn parameters_that_an_info_has_are_kept() {
    let mut cfg = config(1);
    cfg.fct_max_supply = Some([100, 0, 0, 0]);
    cfg.fct_initial_target_per_period = Some([10, 0, 0, 0]);
    let fct = state(1, 2, 3, 4);
    let bare = L1BlockInfoFacet { number: 6, fct_mint_rate: 9, ..Default::default() };
    let expected = L1BlockInfoFacet {
        number: 6,
        fct_mint_rate: 1,
        fct_total_minted: 2,
        fct_period_start_block: 3,
        fct_period_minted: 4,
        fct_max_supply: 100,
        fct_initial_target_per_period: 10,
        ..Default::default()
    };
    assert_eq!(complete_info(&cfg, &fct, bare), expected);
    let full =
        L1BlockInfoFacet { fct_max_supply: 7, fct_initial_target_per_period: 8, ..expected };
    assert_eq!(complete_info(&cfg, &fct, full), full);
}

#[test]
fn the_info_transaction_is_a_deposit_from_the_depositor() {
    let header = Header { timestamp: 100, ..Default::default() };
    let (l2_parent, epoch) = same_epoch(&header);
    let build = Outside::new(&header).run_up_to(start(config(10), l2_parent, epoch), |stage| {
        matches!(stage, Stage::Encoding { .. })
    });
    let transaction = match build.stage {
        Stage::Encoding { transaction, .. } => transaction,
        stage => panic!("not the encoding: {stage:?}"),
    };
    // keccak(1, keccak(block hash, sequence number)), each in 32 bytes
    let mut inner = header.hash_slow().0.to_vec();
    inner.extend_from_slice(&[0; 31]);
    inner.push(1);
    let mut outer = vec![0u8; 31];
    outer.push(1);
    outer.extend_from_slice(keccak256(&inner).as_slice());
    assert_eq!(transaction.source_hash, keccak256(&outer).0);
    let mut depositor = [0u8; 20];
    for i in 0..9 {
        depositor[2 * i] = 0xde;
        depositor[2 * i + 1] = 0xad;
    }
    depositor[19] = 1;
    assert_eq!(transaction.from, depositor);
    let mut contract = [0u8; 20];
    contract[0] = 0x42;
    contract[19] = 0x15;
    assert_eq!(transaction.to, contract);
    assert_eq!(transaction.mint, None);
    assert_eq!(transaction.value, [0; 4]);
    assert_eq!(transaction.gas_limit, 1_000_000);
    assert!(!transaction.is_system_transaction);
    assert_eq!(transaction.input, preserved(&header).encode_calldata());
}

#[test]
fn an_info_of_another_format_is_passed_on() {
    let header = Header { timestamp: 100, ..Default::default() };
    let (l2_parent, epoch) = same_epoch(&header);
    let build = Outside::new(&header).run_up_to(start(config(10), l2_parent, epoch), |stage| {
        matches!(stage, Stage::NewInfo { .. })
    });
    let build = build.advance(Event::NewInfo(Ok(NewL1Info::Other([3; 32], vec![4, 5, 6]))));
    match build.stage {
        Stage::Encoding { transaction, .. } => assert_eq!(transaction.input, vec![4, 5, 6]),
        stage => panic!("not the encoding: {stage:?}"),
    }
}

/// A build that waits for the parent block.
fn waiting_for_parent() -> PayloadBuild {
    let header = Header { timestamp: 100, ..Default::default() };
    let (l2_parent, epoch) = same_epoch(&header);
    start(config(10), l2_parent, epoch).advance(Event::SystemConfig)
}

#[test]
fn a_parent_block_without_info_is_fatal() {
    let end = waiting_for_parent().advance(Event::ParentBlock(Err("no such block".to_string())));
    assert_eq!(failure(end), custom("no such block"));
    let end = waiting_for_parent().advance(Event::ParentBlock(Ok(vec![])));
    assert_eq!(failure(end), custom("Parent block has no transactions"));
    let txs = vec![BlockTransaction::Other, BlockTransaction::Deposit(vec![])];
    let end = waiting_for_parent().advance(Event::ParentBlock(Ok(txs)));
    assert_eq!(failure(end), custom("First transaction is not a deposit"));
}

#[test]
fn an_info_that_cannot_be_read_is_fatal() {
    let found = || {
        let txs = vec![BlockTransaction::Deposit(vec![1])];
        waiting_for_parent().advance(Event::ParentBlock(Ok(txs)))
    };
    assert_eq!(found().stage, Stage::ParentInfo { calldata: vec![1] });
    let end = found().advance(Event::ParentInfo(Err("too short".to_string())));
    assert_eq!(failure(end), custom("Failed to decode L1 info: too short"));
    let end = found().advance(Event::ParentInfo(Ok(ParentL1Info::Other)));
    assert_eq!(failure(end), custom("Parent block is not using Facet L1 info variant"));
}

#[test]
fn deposits_that_cannot_be_derived_are_fatal() {
    let (l2_parent, epoch, header) = new_epoch();
    let outside = Outside { deposits: Err("bad log".to_string()), ..Outside::new(&header) };
    let end = outside.run(start(config(1), l2_parent, epoch));
    assert_eq!(
        failure(end),
        PipelineErrorKind::Critical(PipelineError::BadEncoding("bad log".to_string()))
    );
    let outside = Outside { update: Err("bad update".to_string()), ..Outside::new(&header) };
    let end = outside.run(start(config(1), l2_parent, epoch));
    assert_eq!(
        failure(end),
        PipelineErrorKind::Critical(PipelineError::SystemConfigUpdate("bad update".to_string()))
    );
}

#[test]
fn an_info_that_cannot_be_made_is_fatal() {
    let header = Header { timestamp: 100, ..Default::default() };
    let (l2_parent, epoch) = same_epoch(&header);
    let build = Outside::new(&header).run_up_to(start(config(10), l2_parent, epoch), |stage| {
        matches!(stage, Stage::NewInfo { .. })
    });
    let end = build.advance(Event::NewInfo(Err("no scalars".to_string())));
    assert_eq!(failure(end), custom("no scalars"));
}

#[test]
fn numbers_that_do_not_fit_are_fatal() {
    // The block's time
    let header = Header { timestamp: 100, ..Default::default() };
    let (l2_parent, epoch) = same_epoch(&header);
    let end = Outside::new(&header).run(start(config(u64::MAX), l2_parent, epoch));
    assert_eq!(failure(end), PipelineErrorKind::Overflow);
    // The sequence number
    let (mut l2_parent, epoch) = same_epoch(&header);
    l2_parent.seq_num = u64::MAX;
    let end = Outside::new(&header).run(start(config(10), l2_parent, epoch));
    assert_eq!(failure(end), PipelineErrorKind::Overflow);
    // The block's number
    let (mut l2_parent, epoch, header) = new_epoch();
    l2_parent.block_info.number = u64::MAX;
    let end = Outside::new(&header).run(start(config(1), l2_parent, epoch));
    assert_eq!(failure(end), PipelineErrorKind::Overflow);
}

#[test]
fn an_answer_to_another_question_changes_nothing() {
    let header = Header { timestamp: 100, ..Default::default() };
    let (l2_parent, epoch) = same_epoch(&header);
    let build = start(config(10), l2_parent, epoch).advance(Event::Receipts);
    assert_eq!(build.stage, Stage::SystemConfig { number: 1 });
    // Transactions for more forks than were asked for
    let outside = Outside::new(&header);
    let build = outside.run_up_to(build, |stage| matches!(stage, Stage::Upgrades { .. }));
    let build = build.advance(Event::Upgrades(vec![vec![vec![1]]]));
    assert!(matches!(build.stage, Stage::Upgrades { .. }));
    // An end stays an end
    let end = outside.run(build);
    let end = end.advance(Event::SystemConfig);
    assert!(matches!(end.stage, Stage::Done(_)));
}

#[test]
fn minting_goes_on_in_the_next_block() {
    let header = Header { timestamp: 100, ..Default::default() };
    let (l2_parent, epoch) = same_epoch(&header);
    let end = Outside::new(&header).run(start(config(10), l2_parent, epoch));
    let carried = payload(end).transactions.remove(0);
    let read = L1BlockInfoFacet::decode_calldata(&carried).unwrap();
    assert_eq!(read.fct_mint_rate, parent_info().fct_mint_rate);
    assert_eq!(read.fct_total_minted, parent_info().fct_total_minted);
    assert_eq!(read.fct_period_start_block, parent_info().fct_period_start_block);
    assert_eq!(read.fct_period_minted, parent_info().fct_period_minted);
}
