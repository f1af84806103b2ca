use facet_protocol::facet_payload::FacetPayload;
use facet_protocol::fct_mint::{rational_to_u128_sat, FctMintCalculator, MintPeriod};
use facet_protocol::fct_params::FctParams;
use facet_protocol::issuance::{AdjustmentType, MintFault};
use facet_protocol::l1_info::L1BlockInfoFacet;
use num_bigint::BigInt;
use num_rational::BigRational;

fn integer(n: u128) -> BigRational {
    BigRational::from_integer(BigInt::from(n))
}

fn ratio(n: i64, d: i64) -> BigRational {
    BigRational::new(BigInt::from(n), BigInt::from(d))
}

fn burning(gas: u64) -> FacetPayload {
    FacetPayload {
        to: None,
        value: [0; 4],
        gas_limit: 21_000,
        data: vec![1, 2, 3],
        l1_data_gas_used: gas,
        mint: 0,
    }
}

fn params(max_supply: u128, target_per_period: u128) -> Option<FctParams> {
    let mut slot = None;
    FctParams::force_init(&mut slot, max_supply, target_per_period);
    slot
}

fn period() -> MintPeriod {
    MintPeriod {
        block_num: 100,
        fct_mint_rate: integer(10),
        total_minted: integer(0),
        period_minted: integer(0),
        period_start_block: 0,
        max_supply: 10_000,
        target_per_period: 1_000,
    }
}

#[test]
fn no_parameters_no_mint() {
    let mut txs = vec![burning(5)];
    let info = L1BlockInfoFacet { fct_mint_rate: 10, ..Default::default() };
    let r = FctMintCalculator::try_assign_mint(&mut txs, 1, 1, &info, &None);
    assert_eq!(r, Err(MintFault::ParamsNotInitialized));
    assert_eq!(txs, vec![burning(5)]);
}

#[test]
fn a_period_ahead_of_the_block_is_a_fault() {
    let mut txs = vec![burning(5)];
    let mut info =
        L1BlockInfoFacet { fct_mint_rate: 10, fct_period_start_block: 8, ..Default::default() };
    let set = params(10_000, 1_000);
    let r = FctMintCalculator::try_assign_mint(&mut txs, 7, 1, &info, &set);
    assert_eq!(r, Err(MintFault::PeriodAhead));
    assert_eq!(txs, vec![burning(5)]);
    // A start that no block number can reach
    info.fct_period_start_block = u64::MAX as u128 + 8;
    let r = FctMintCalculator::try_assign_mint(&mut txs, 7, 1, &info, &set);
    assert_eq!(r, Err(MintFault::PeriodAhead));
    // At the start itself there is no fault
    info.fct_period_start_block = 7;
    assert!(FctMintCalculator::try_assign_mint(&mut txs, 7, 1, &info, &set).is_ok());
}

#[test]
fn a_rate_of_zero_is_a_fault_once_something_burns() {
    let info = L1BlockInfoFacet::default();
    let set = params(10_000, 1_000);
    let r = FctMintCalculator::try_assign_mint(&mut [], 499, 1, &info, &set);
    assert_eq!(r, Ok((0, 0, 0, 0)));
    let r = FctMintCalculator::try_assign_mint(&mut [burning(0)], 499, 1, &info, &set);
    assert_eq!(r, Ok((0, 0, 0, 0)));
    let r = FctMintCalculator::try_assign_mint(&mut [burning(1)], 499, 1, &info, &set);
    assert_eq!(r, Err(MintFault::ZeroRate));
    // A new period brings the rate up to its minimum
    let mut txs = [burning(1)];
    let r = FctMintCalculator::try_assign_mint(&mut txs, 500, 1, &info, &set);
    assert_eq!(r, Ok((1, 1, 500, 1)));
    assert_eq!(txs[0].mint, 1);
}

#[test]
fn less_than_one_left_stalls() {
    let mut p = period();
    p.total_minted = ratio(19_999, 2);
    assert!(matches!(p.try_consume_eth(1), Err(MintFault::Stalled)));
    // Nothing to burn is no fault
    let (same, minted) = p.try_consume_eth(0).unwrap();
    assert_eq!(minted, integer(0));
    assert_eq!(same.total_minted, p.total_minted);
}

#[test]
fn a_fraction_that_an_earlier_burn_leaves_can_stall_a_block() {
    // A full period lowers the rate to 3/2; the burns then mint 3/2 each
    let mut p = period();
    p.block_num = 250;
    p.fct_mint_rate = integer(3);
    p.total_minted = integer(9_990);
    p.target_per_period = 4_096;
    // Nine halvings leave a target of 8
    assert_eq!(p.get_current_halving_level(), 9);
    assert_eq!(p.current_target(), integer(8));
    p.period_minted = integer(8);
    let txs = vec![burning(1), burning(1), burning(1), burning(1), burning(1), burning(1), burning(9)];
    let r = p.try_assign_mint_amounts(&txs, 1);
    assert!(matches!(r, Err(MintFault::Stalled)));
    // One burn alone ends at the maximum
    let (end, mints) = p.try_assign_mint_amounts(&[burning(99)], 1).unwrap();
    assert_eq!(mints, vec![10]);
    assert_eq!(end.total_minted, integer(10_000));
}

#[test]
fn minting_adds_up_and_stays_within_the_supply() {
    let mut p = period();
    p.total_minted = integer(9_000);
    let minted = p.consume_eth(1_000_000);
    assert_eq!(minted, integer(1_000));
    assert_eq!(p.total_minted, integer(10_000));
    assert!(p.supply_exhausted());
    // Nothing more comes of it
    let before = p.clone();
    assert_eq!(p.consume_eth(1_000_000), integer(0));
    assert_eq!(p.total_minted, before.total_minted);
    assert_eq!(p.fct_mint_rate, before.fct_mint_rate);
    assert_eq!(p.period_start_block, before.period_start_block);
    assert_eq!(p.period_minted, before.period_minted);
}

#[test]
fn a_burn_within_the_quota_mints_what_the_rate_gives() {
    let mut p = period();
    assert_eq!(p.consume_eth(7), integer(70));
    assert_eq!(p.period_minted, integer(70));
    assert_eq!(p.total_minted, integer(70));
    assert_eq!(p.period_start_block, 0);
    assert_eq!(p.fct_mint_rate, integer(10));
}

#[test]
fn a_full_period_is_closed_on_the_spot() {
    let mut p = period();
    // 1000 in the first period, then a quarter of the rate: 10 wei at 10 / 4
    assert_eq!(p.consume_eth(110), integer(1_025));
    assert_eq!(p.fct_mint_rate, ratio(5, 2));
    assert_eq!(p.period_start_block, 100);
    assert_eq!(p.period_minted, integer(25));
    // Exactly full: the next period has begun, with room in it
    let mut q = period();
    assert_eq!(q.consume_eth(100), integer(1_000));
    assert_eq!(q.period_minted, integer(0));
    assert_eq!(q.period_start_block, 100);
    assert_eq!(q.remaining_period_quota(), integer(1_000));
}

#[test]
fn the_rate_falls_with_the_time_that_a_full_period_took() {
    let mut p = period();
    p.block_num = 400;
    p.start_new_period(AdjustmentType::AdjustDown);
    assert_eq!(p.fct_mint_rate, integer(8));
    assert_eq!(p.period_start_block, 400);
    assert_eq!(p.period_minted, integer(0));
    // At once: by no more than a quarter, and not below the minimum
    p.start_new_period(AdjustmentType::AdjustDown);
    assert_eq!(p.fct_mint_rate, integer(2));
    p.start_new_period(AdjustmentType::AdjustDown);
    assert_eq!(p.fct_mint_rate, integer(1));
}

#[test]
fn the_rate_rises_by_what_a_period_fell_short() {
    let mut p = period();
    p.period_minted = integer(400);
    p.total_minted = integer(400);
    p.start_new_period(AdjustmentType::AdjustUp);
    assert_eq!(p.fct_mint_rate, integer(25));
    // Nothing minted: by the most there is
    p.start_new_period(AdjustmentType::AdjustUp);
    assert_eq!(p.fct_mint_rate, integer(100));
    // Nearly nothing minted: no more than that
    p.period_minted = integer(1);
    p.start_new_period(AdjustmentType::AdjustUp);
    assert_eq!(p.fct_mint_rate, integer(400));
}

#[test]
fn the_rate_stays_within_its_limits() {
    let p = period();
    let most = integer(u128::MAX);
    assert_eq!(p.compute_and_cap_rate(most.clone(), integer(4)), most);
    assert_eq!(p.compute_and_cap_rate(integer(1), ratio(1, 4)), integer(1));
    assert_eq!(p.compute_and_cap_rate(integer(7), ratio(3, 2)), ratio(21, 2));
}

#[test]
fn the_target_falls_with_each_halving() {
    let mut p = period();
    let mut seen = vec![];
    for total in [0u128, 4_999, 5_000, 7_499, 7_500, 8_750, 9_375, 9_999, 10_000] {
        p.total_minted = integer(total);
        seen.push((p.get_current_halving_level(), rational_to_u128_sat(&p.current_target())));
    }
    assert_eq!(
        seen,
        vec![
            (0, 1_000),
            (0, 1_000),
            (1, 500),
            (1, 500),
            (2, 250),
            (3, 125),
            (4, 62),
            (13, 1),
            (0, 1_000),
        ]
    );
}

#[test]
fn what_is_left_is_rounded_down() {
    let mut p = period();
    p.period_minted = ratio(1_999, 2);
    p.total_minted = ratio(19_997, 2);
    p.target_per_period = 1 << 20;
    // 2^20 / 2^12 is 256
    assert_eq!(p.get_current_halving_level(), 12);
    assert_eq!(p.current_target(), integer(256));
    assert_eq!(p.remaining_period_quota(), integer(0));
    assert_eq!(p.remaining_supply(), integer(1));
    p.period_minted = ratio(3, 2);
    assert_eq!(p.remaining_period_quota(), integer(254));
    p.total_minted = integer(20_000);
    assert_eq!(p.remaining_supply(), integer(0));
}

#[test]
fn a_block_records_what_it_credits() {
    let info = L1BlockInfoFacet {
        fct_mint_rate: 10,
        fct_total_minted: 100,
        fct_period_minted: 990,
        fct_period_start_block: 1,
        ..Default::default()
    };
    let set = params(10_000, 1_000);
    // One transaction: the total grows by what it is credited with
    let mut txs = vec![burning(2)];
    let r = FctMintCalculator::assign_mint(&mut txs, 101, 1, &info, &set);
    // 1 wei at 10, then the period is full and 1 wei is left at 10 / 4
    assert_eq!(r, (2, 112, 101, 2));
    assert_eq!(txs[0].mint, 12);
    // Several: it grows by no less
    let mut txs = vec![burning(2), burning(1), burning(0)];
    let r = FctMintCalculator::assign_mint(&mut txs, 101, 1, &info, &set);
    assert_eq!(r, (2, 115, 101, 5));
    let mints: Vec<u128> = txs.iter().map(|tx| tx.mint).collect();
    assert_eq!(mints, vec![12, 2, 0]);
}

#[test]
fn only_the_mint_of_a_transaction_changes() {
    let info = L1BlockInfoFacet { fct_mint_rate: 3, ..Default::default() };
    let mut txs = vec![burning(4)];
    FctMintCalculator::assign_mint(&mut txs, 1, 2, &info, &params(10_000, 1_000));
    assert_eq!(txs, vec![FacetPayload { mint: 24, ..burning(4) }]);
}

#[test]
fn the_supply_cap_holds_for_a_block() {
    let info = L1BlockInfoFacet {
        fct_mint_rate: 1_000,
        fct_total_minted: 9_990,
        ..Default::default()
    };
    let mut txs = vec![burning(5), burning(5)];
    let r = FctMintCalculator::assign_mint(&mut txs, 1, 1, &info, &params(10_000, 1_000_000));
    assert_eq!(r.1, 10_000);
    assert_eq!((txs[0].mint, txs[1].mint), (10, 0));
}

#[test]
fn rationals_are_cut_off_at_both_ends() {
    assert_eq!(rational_to_u128_sat(&ratio(7, 2)), 3);
    assert_eq!(rational_to_u128_sat(&ratio(0, 1)), 0);
    assert_eq!(rational_to_u128_sat(&ratio(-1, 2)), 0);
    assert_eq!(rational_to_u128_sat(&ratio(-1, 1)), 0);
    assert_eq!(rational_to_u128_sat(&ratio(-5, 1)), 0);
    assert_eq!(rational_to_u128_sat(&integer(u128::MAX)), u128::MAX);
    assert_eq!(rational_to_u128_sat(&(integer(u128::MAX) + integer(1))), u128::MAX);
}

#[test]
fn the_constants_of_issuance() {
    assert_eq!(FctMintCalculator::adjustment_period_target_length(), integer(500));
    assert_eq!(FctMintCalculator::max_mint_rate(), integer(u128::MAX));
    assert_eq!(FctMintCalculator::min_mint_rate(), integer(1));
    assert_eq!(FctMintCalculator::max_rate_adjustment_up_factor(), integer(4));
    assert_eq!(FctMintCalculator::max_rate_adjustment_down_factor(), ratio(1, 4));
    assert_eq!(FctMintCalculator::target_issuance_fraction_first_halving(), ratio(1, 2));
    assert_eq!(FctMintCalculator::target_num_blocks_in_halving(), integer(2_628_000));
}

#[test]
fn no_data_costs_no_gas() {
    assert_eq!(FctMintCalculator::calculate_data_gas_used(&[], false), 0);
    assert_eq!(FctMintCalculator::calculate_data_gas_used(&[], true), 0);
    assert_eq!(FctMintCalculator::calculate_data_gas_used(&[0, 0], true), 16);
}

#[test]
fn data_gas_adds_up_and_ignores_the_order() {
    let (a, b) = ([0u8, 7, 0, 9], [1u8, 0]);
    let whole = [0u8, 7, 0, 9, 1, 0];
    let mixed = [9u8, 0, 1, 0, 7, 0];
    for contract_initiated in [false, true] {
        let gas = |data: &[u8]| FctMintCalculator::calculate_data_gas_used(data, contract_initiated);
        assert_eq!(gas(&whole), gas(&a) + gas(&b));
        assert_eq!(gas(&mixed), gas(&whole));
    }
    assert_eq!(FctMintCalculator::calculate_data_gas_used(&whole, false), 150);
}

#[test]
fn a_block_that_closes_no_period_keeps_the_rate() {
    let info = L1BlockInfoFacet {
        fct_mint_rate: 10,
        fct_total_minted: 100,
        fct_period_minted: 30,
        fct_period_start_block: 1,
        ..Default::default()
    };
    let mut txs = vec![burning(2), burning(3)];
    let r = FctMintCalculator::assign_mint(&mut txs, 101, 1, &info, &params(10_000, 1_000));
    assert_eq!(r, (10, 150, 1, 80));
}

#[test]
fn what_is_left_does_not_depend_on_the_block() {
    let mut p = period();
    // The period lies ahead and its rate makes no sense; neither is read
    p.period_start_block = 101;
    p.fct_mint_rate = integer(0) - integer(1);
    p.total_minted = integer(7_500);
    p.period_minted = integer(50);
    assert!(!p.supply_exhausted());
    assert_eq!(p.count_halvings(), Some(2));
    assert_eq!(p.current_target(), integer(250));
    assert_eq!(p.remaining_period_quota(), integer(200));
    assert_eq!(p.remaining_supply(), integer(2_500));
    // Below zero nothing is halved
    p.total_minted = integer(0) - integer(1);
    p.period_minted = integer(0) - integer(1);
    assert_eq!(p.get_current_halving_level(), 0);
    assert_eq!(p.remaining_period_quota(), integer(1_001));
    assert_eq!(p.remaining_supply(), integer(10_001));
}

#[test]
fn a_burn_mints_at_least_one_for_every_wei() {
    let mut p = period();
    p.fct_mint_rate = integer(1);
    assert_eq!(p.consume_eth(5_000), integer(5_000));
    // Unless the supply runs out
    assert_eq!(p.consume_eth(6_000), integer(5_000));
    assert!(p.supply_exhausted());
}
