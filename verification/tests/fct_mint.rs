use facet_protocol::facet_payload::FacetPayload;
use facet_protocol::fct_mint::{rational_to_u128_sat, FctMintCalculator, MintPeriod};
use facet_protocol::fct_params::FctParams;
use facet_protocol::l1_info::L1BlockInfoFacet;
use num_bigint::BigInt;
use num_rational::BigRational;
use num_traits::{FromPrimitive, One, ToPrimitive, Zero};

#[test]
fn test_data_gas_calculation_eip7623() {
    // Test zero bytes with EIP-7623 pricing
    let zero_data = vec![0u8; 10];
    assert_eq!(FctMintCalculator::calculate_data_gas_used(&zero_data, false), 100); // 10 * 10

    // Test non-zero bytes with EIP-7623 pricing
    let non_zero_data = vec![1u8; 10];
    assert_eq!(FctMintCalculator::calculate_data_gas_used(&non_zero_data, false), 400); // 10 * 40

    // Test mixed bytes
    let mixed_data = vec![0, 1, 0, 1];
    assert_eq!(FctMintCalculator::calculate_data_gas_used(&mixed_data, false), 100); // 2*10 + 2*40

    // Test contract initiated (always 8 gas/byte)
    let data = vec![1u8; 10];
    assert_eq!(FctMintCalculator::calculate_data_gas_used(&data, true), 80); // 10 * 8
}

#[test]
fn test_genesis_period() {
    // Initialize FCT params
    let one_eth = 1_000_000_000_000_000_000u128;
    let max_supply = 21_000_000u128 * one_eth;
    let target_per_period = 20_000u128 * one_eth;
    let mut params = None;
    FctParams::force_init(&mut params, max_supply, target_per_period);

    // Create genesis block state
    let prev_l1_info = L1BlockInfoFacet {
        fct_mint_rate: 800_000_000_000_000u128,
        fct_total_minted: 0,
        fct_period_start_block: 0,
        fct_period_minted: 0,
        ..Default::default()
    };

    // Empty transactions, no gas consumed
    let mut facet_txs = vec![];

    let (rate, total, start, period) = FctMintCalculator::assign_mint(
        &mut facet_txs,
        1, // block 1
        1_000_000_000, // 1 gwei base fee
        &prev_l1_info,
        &params,
    );

    // Should maintain initial rate
    assert_eq!(rate, 800_000_000_000_000u128);
    assert_eq!(total, 0);
    assert_eq!(start, 0);
    assert_eq!(period, 0);
}

#[test]
fn test_up_rate_adjustment_calculation() {
    // Test the rate adjustment calculation directly
    let one_eth = 1_000_000_000_000_000_000u128;
    let max_supply = 21_000_000u128 * one_eth;
    let target_per_period = 20_000u128 * one_eth;

    let mut period = MintPeriod {
        block_num: 500,
        fct_mint_rate: BigRational::from_u64(1_000_000_000_000_000).unwrap(),
        total_minted: BigRational::from_u128(10_000u128 * one_eth).unwrap(), // 10k ETH
        period_minted: BigRational::from_u128(10_000u128 * one_eth).unwrap(), // 10k ETH (half target)
        period_start_block: 0,
        max_supply,
        target_per_period,
    };

    // Get current target
    let target = period.current_target();
    let expected_target = BigRational::from_u128(20_000u128 * one_eth).unwrap();
    assert_eq!(target, expected_target);

    // Calculate adjustment ratio
    let ratio = &target / &period.period_minted;
    assert_eq!(ratio, BigRational::from_u32(2).unwrap());

    // Apply up adjustment
    period.up_adjust_rate();

    // Should be 2x the original rate
    let expected_rate = BigRational::from_u64(2_000_000_000_000_000).unwrap();
    assert_eq!(period.fct_mint_rate, expected_rate);
}

#[test]
fn test_debug_rate_calculation() {
    // Debug the exact calculation happening
    let one_eth = 1_000_000_000_000_000_000u128;
    let max_supply = 21_000_000u128 * one_eth;
    let target_per_period = 20_000u128 * one_eth;

    let half_target_u128 = target_per_period / 2;

    // Create period from L1 info like assign_mint does
    let mut period = MintPeriod {
        block_num: 500,
        fct_mint_rate: BigRational::from_u128(1_000_000_000_000_000u128).unwrap(),
        total_minted: BigRational::from_u128(half_target_u128).unwrap(),
        period_minted: BigRational::from_u128(half_target_u128).unwrap(),
        period_start_block: 0,
        max_supply,
        target_per_period,
    };

    // Check current_target
    let target = period.current_target();
    let expected_target = BigRational::from_u128(target_per_period).unwrap();

    // Debug print the values
    let target_u128 = rational_to_u128_sat(&target);
    let period_minted_u128 = rational_to_u128_sat(&period.period_minted);
    let expected_target_u128 = rational_to_u128_sat(&expected_target);

    // Print the actual values for debugging
    if target_u128 != expected_target_u128 || period_minted_u128 != half_target_u128 {
        // Values don't match, let's see what they are
        panic!("Value mismatch:\n  target: {} (expected {})\n  period_minted: {} (expected {})\n  half_target_u128: {}",
            target_u128, expected_target_u128, period_minted_u128, half_target_u128, half_target_u128);
    }

    // Check the adjustment ratio
    let ratio = &target / &period.period_minted;
    let ratio_f64 = ratio.numer().to_f64().unwrap() / ratio.denom().to_f64().unwrap();
    assert!(ratio_f64 > 1.9 && ratio_f64 < 2.1, "Ratio should be ~2, got {}", ratio_f64);

    // Now do the full flow
    let mut facet_txs = vec![];
    period.assign_mint_amounts(&mut facet_txs, 1_000_000_000);

    // Check final rate
    let final_rate = rational_to_u128_sat(&period.fct_mint_rate);
    assert_eq!(final_rate, 2_000_000_000_000_000u128, "Rate should double");
}

#[test]
fn test_period_target_consumption() {
    // Initialize FCT params
    let one_eth = 1_000_000_000_000_000_000u128;
    let max_supply = 21_000_000u128 * one_eth;
    let target_per_period = 20_000u128 * one_eth;
    let mut params = None;
    FctParams::force_init(&mut params, max_supply, target_per_period);

    // Create state where period consumed half the target
    let half_target = target_per_period / 2;
    let prev_l1_info = L1BlockInfoFacet {
        fct_mint_rate: 1_000_000_000_000_000u128, // 0.001 FCT per gas
        fct_total_minted: half_target, // Total minted includes this period
        fct_period_start_block: 0,
        fct_period_minted: half_target, // Only minted half the target this period
        ..Default::default()
    };

    // Empty tx to trigger period roll
    let mut facet_txs = vec![];

    let (rate, total, start, period) = FctMintCalculator::assign_mint(
        &mut facet_txs,
        500, // End of period by time
        1_000_000_000,
        &prev_l1_info,
        &params,
    );

    // Check what params are being used
    let params = FctParams::get(&params).unwrap();
    assert_eq!(params.target_per_period, target_per_period, "Target per period mismatch");

    // Check total minted
    assert_eq!(total, half_target, "Total minted should not change with empty tx");

    // Rate should double (minted only half target, so need to catch up)
    // Adjustment factor = target/minted = 20k/10k = 2
    assert_eq!(rate, 2_000_000_000_000_000u128); // 2x the original rate
    assert_eq!(start, 500); // New period started
    assert_eq!(period, 0); // Period minted reset
}

#[test]
fn test_supply_cap() {
    // Initialize FCT params
    let one_eth = 1_000_000_000_000_000_000u128;
    let max_supply = 100u128 * one_eth; // Small max supply for testing
    let target_per_period = 50u128 * one_eth;
    let mut params = None;
    FctParams::force_init(&mut params, max_supply, target_per_period);

    // Create state near max supply
    let prev_l1_info = L1BlockInfoFacet {
        fct_mint_rate: 800_000_000_000_000u128, // 0.0008 FCT per gas
        fct_total_minted: 99 * 1_000_000_000_000_000_000, // 99 ETH of 100 ETH max
        fct_period_start_block: 0,
        fct_period_minted: 0,
        ..Default::default()
    };

    // Transaction that would mint 2 ETH worth
    let mut facet_txs = vec![
        FacetPayload {
            to: Some([0u8; 20]),
            value: [0u64; 4],
            gas_limit: 100000,
            data: vec![1u8; 50],
            l1_data_gas_used: 2000, // 50 non-zero bytes * 40 = 2000 gas
            mint: 0,
        }
    ];

    let (_rate, total, _start, _period) = FctMintCalculator::assign_mint(
        &mut facet_txs,
        100,
        1_000_000_000, // 1 gwei base fee
        &prev_l1_info,
        &params,
    );

    // Should cap at max supply (100 ETH)
    assert_eq!(total, 100 * 1_000_000_000_000_000_000);
    // Transaction should only get 1 ETH (capped)
    assert_eq!(facet_txs[0].mint, 1_000_000_000_000_000_000);
}


/// Helper to create a FacetPayload with specified gas usage
fn build_tx(burn_tokens: u64) -> FacetPayload {
    FacetPayload {
        to: None,
        value: [0u64; 4],
        gas_limit: 0,
        data: Vec::new(),
        l1_data_gas_used: burn_tokens,
        mint: 0,
    }
}

/// Helper to initialize FCT parameters for testing
fn init_test_params() -> Option<FctParams> {
    let max_supply = 622_222_222u128;
    let initial_target = 29_595u128;
    let mut params = None;
    FctParams::force_init(&mut params, max_supply, initial_target);
    params
}

// ==================== Post-fork minting logic tests ====================

#[test]
fn test_mints_within_current_period_without_closing() {
    let params = init_test_params();

    let prev_l1_info = L1BlockInfoFacet {
        number: 1000,
        fct_mint_rate: 2,
        fct_total_minted: 140_000_000,
        fct_period_start_block: 995,
        fct_period_minted: 100,
        ..Default::default()
    };

    let mut txs = vec![build_tx(100)];
    let base_fee = 10u64;

    let (rate, total, start_block, period_minted) = FctMintCalculator::assign_mint(
        &mut txs,
        1010,
        base_fee,
        &prev_l1_info,
        &params,
    );

    // ETH burned = 100 gas * 10 wei/gas = 1000 wei
    // FCT minted = 1000 * 2 = 2000
    assert_eq!(txs[0].mint, 2_000);
    assert_eq!(total, 140_002_000);
    assert_eq!(period_minted, 2_100);
    assert_eq!(rate, 2);
    assert_eq!(start_block, 995); // Period didn't roll
}

#[test]
fn test_closes_period_when_mint_cap_hit_and_starts_new() {
    let params = init_test_params();

    let target_per_period = 29_595u128;
    let prev_l1_info = L1BlockInfoFacet {
        number: 1000,
        fct_mint_rate: 2,
        fct_total_minted: 140_000_000,
        fct_period_start_block: 995,
        fct_period_minted: target_per_period - 341, // 341 short of cap
        ..Default::default()
    };

    let mut txs = vec![build_tx(200)]; // burns 2000 wei ETH
    let base_fee = 10u64;

    let (rate, total, start_block, period_minted) = FctMintCalculator::assign_mint(
        &mut txs,
        1010,
        base_fee,
        &prev_l1_info,
        &params,
    );

    // First 341 FCT fills old period, rest goes to new period
    // The exact mint amount depends on rate adjustment
    assert!(txs[0].mint > 341);
    assert_eq!(total, 140_000_000 + txs[0].mint);
    assert_eq!(start_block, 1010); // New period started
    assert!(period_minted < target_per_period); // New period not full
    assert!(rate <= 2); // Rate adjusted down
}

#[test]
fn test_adjusts_rate_up_when_period_ends_by_block_count() {
    let params = init_test_params();

    let adj_period_len = 500u64;
    let target_per_period = 29_595u128;
    let block_num = 1000 + adj_period_len;

    let prev_l1_info = L1BlockInfoFacet {
        number: block_num - 1,
        fct_mint_rate: 2,
        fct_total_minted: 140_000_000,
        fct_period_start_block: 1000,
        fct_period_minted: target_per_period / 2, // Way under target
        ..Default::default()
    };

    let mut txs = vec![build_tx(10)];
    let base_fee = 10u64;

    let (rate, _total, start_block, period_minted) = FctMintCalculator::assign_mint(
        &mut txs,
        block_num,
        base_fee,
        &prev_l1_info,
        &params,
    );

    // Rate should increase (doubled since actual = target/2)
    assert_eq!(rate, 4); // 2 * 2
    assert_eq!(start_block, block_num); // New period
    assert_eq!(period_minted, txs[0].mint); // Only this tx in new period
}

#[test]
fn test_handles_multi_period_spillover() {
    let params = init_test_params();

    let prev_l1_info = L1BlockInfoFacet {
        number: 1019,
        fct_mint_rate: 1,
        fct_total_minted: 140_000_000,
        fct_period_start_block: 970,
        fct_period_minted: 0,
        ..Default::default()
    };

    let mut txs = vec![build_tx(500_000)]; // Large burn
    let base_fee = 1u64;

    let (rate, total, start_block, _period_minted) = FctMintCalculator::assign_mint(
        &mut txs,
        1020,
        base_fee,
        &prev_l1_info,
        &params,
    );

    // Should mint across multiple periods
    let target_per_period = 29_595u128;
    assert!(txs[0].mint > target_per_period);
    assert_eq!(total, 140_000_000 + txs[0].mint);
    assert_eq!(start_block, 1020); // New period at current block
    assert!(rate >= 1); // Rate adjusted based on consumption
}

#[test]
fn test_lowers_target_after_crossing_halving_threshold() {
    let mut params = None;
    // Initialize with larger max supply for this test
    if !FctParams::is_initialized(&params) {
        let max_supply = 622_222_222u128;
        let initial_target = 29_595u128;
        FctParams::init(&mut params, max_supply, initial_target);
    }

    // Just before first halving (50% of 622M = 311M)
    let prev_l1_info = L1BlockInfoFacet {
        number: 1029,
        fct_mint_rate: 1,
        fct_total_minted: 310_000_000,
        fct_period_start_block: 1020,
        fct_period_minted: 0,
        ..Default::default()
    };

    let mut txs = vec![build_tx(2_000_000)]; // Large burn to cross threshold
    let base_fee = 1u64;

    let (_rate, total, _start_block, _period_minted) = FctMintCalculator::assign_mint(
        &mut txs,
        1030,
        base_fee,
        &prev_l1_info,
        &params,
    );

    // Should have crossed halving threshold
    assert!(total > 311_111_111); // Past 50% of max supply
}

#[test]
fn test_caps_minting_when_max_supply_exhausted() {
    let max_supply = 1000u128;

    let _prev_l1_info = L1BlockInfoFacet {
        number: 100,
        fct_mint_rate: 5,
        fct_total_minted: max_supply - 50, // Only 50 left
        fct_period_start_block: 99, // Set to current block - 1 to avoid period roll
        fct_period_minted: 0,
        ..Default::default()
    };

    let mut period = MintPeriod {
        block_num: 100,
        fct_mint_rate: BigRational::from_u128(5).unwrap(),
        total_minted: BigRational::from_u128(max_supply - 50).unwrap(),
        period_minted: BigRational::zero(),
        period_start_block: 99,
        max_supply,
        target_per_period: 100u128,
    };


    let burn_wei = 100u128; // Would mint 500 normally
    let minted = period.consume_eth(burn_wei);

    assert_eq!(rational_to_u128_sat(&minted), 50); // Capped at remaining supply
    assert_eq!(rational_to_u128_sat(&period.total_minted), max_supply); // Exactly at max
}

#[test]
fn test_starts_new_period_when_cap_met_exactly() {
    let params = init_test_params();

    let target_per_period = 29_595u128;
    let prev_l1_info = L1BlockInfoFacet {
        number: 1059,
        fct_mint_rate: 2,
        fct_total_minted: 140_000_000 + target_per_period,
        fct_period_start_block: 1059,
        fct_period_minted: target_per_period, // Exactly at cap
        ..Default::default()
    };

    let mut txs = vec![build_tx(100)];
    let base_fee = 10u64;

    let (_rate, _total, start_block, period_minted) = FctMintCalculator::assign_mint(
        &mut txs,
        1060,
        base_fee,
        &prev_l1_info,
        &params,
    );

    // Period should have rolled
    assert!(txs[0].mint > 0);
    assert_eq!(start_block, 1060); // New period
    assert_eq!(period_minted, txs[0].mint); // Only this tx
}

#[test]
fn test_proportional_down_adjustment_when_period_ends_mid_block() {
    let params = init_test_params();

    let adj_period_len = 500u64;
    let blocks_elapsed = (adj_period_len as f64 * 0.8) as u64; // 80% of period
    let target_per_period = 29_595u128;

    let prev_l1_info = L1BlockInfoFacet {
        number: 999 + blocks_elapsed,
        fct_mint_rate: 10,
        fct_total_minted: 140_000_000,
        fct_period_start_block: 1000,
        fct_period_minted: target_per_period - 101, // 101 short
        ..Default::default()
    };

    let mut txs = vec![build_tx(101)]; // Exactly fills cap
    let base_fee = 1u64;

    let (rate, _total, _start_block, _period_minted) = FctMintCalculator::assign_mint(
        &mut txs,
        1000 + blocks_elapsed,
        base_fee,
        &prev_l1_info,
        &params,
    );

    // Factor should be 0.8 (400/500 = 0.8)
    // new_rate = 10 * 0.8 = 8
    assert_eq!(rate, 8);
}

#[test]
fn test_correctly_calculates_fct_based_on_eth_burned() {
    let params = init_test_params();

    let mint_rate = 5u128;
    let base_fee = 20u64;
    let gas_used = 1_000u64;

    let prev_l1_info = L1BlockInfoFacet {
        number: 1049,
        fct_mint_rate: mint_rate,
        fct_total_minted: 140_000_000,
        fct_period_start_block: 1040,
        fct_period_minted: 1_000,
        ..Default::default()
    };

    let mut txs = vec![build_tx(gas_used)];

    let (_rate, _total, _start_block, _period_minted) = FctMintCalculator::assign_mint(
        &mut txs,
        1050,
        base_fee,
        &prev_l1_info,
        &params,
    );

    // ETH burned = gas_used * base_fee = 1000 * 20 = 20,000 wei
    // FCT minted = 20,000 * 5 = 100,000 (if within period cap)
    let eth_burned = gas_used * base_fee;
    let expected_uncapped = (eth_burned as u128) * mint_rate;

    // Actual mint may be capped by period quota
    assert!(txs[0].mint <= expected_uncapped);
    assert!(txs[0].mint > 0);
}

#[test]
fn test_handles_zero_minting_in_period_for_rate_adjustment() {
    let params = init_test_params();

    let adj_period_len = 500u64;
    let prev_l1_info = L1BlockInfoFacet {
        number: 999 + adj_period_len,
        fct_mint_rate: 3,
        fct_total_minted: 140_000_000,
        fct_period_start_block: 1000,
        fct_period_minted: 0, // No minting in period
        ..Default::default()
    };

    let mut txs = vec![build_tx(10)];
    let base_fee = 1u64;

    let (rate, _total, _start_block, _period_minted) = FctMintCalculator::assign_mint(
        &mut txs,
        1000 + adj_period_len,
        base_fee,
        &prev_l1_info,
        &params,
    );

    // Rate should be increased by max factor (4x)
    assert_eq!(rate, 12); // 3 * 4
}

#[test]
fn test_opens_fresh_period_when_adjustment_period_elapsed() {
    let params = init_test_params();

    let adj_period_len = 500u64;
    let block_num = 1000 + adj_period_len + 3; // > 1 full period

    let prev_l1_info = L1BlockInfoFacet {
        number: block_num - 1,
        fct_mint_rate: 2,
        fct_total_minted: 140_050_000,
        fct_period_start_block: 1000,
        fct_period_minted: 50_000,
        ..Default::default()
    };

    let mut txs = vec![build_tx(50)];
    let base_fee = 10u64;

    let (_rate, _total, start_block, period_minted) = FctMintCalculator::assign_mint(
        &mut txs,
        block_num,
        base_fee,
        &prev_l1_info,
        &params,
    );

    // New period should start at current block
    assert_eq!(start_block, block_num);
    assert_eq!(period_minted, txs[0].mint);
}

// ==================== Halving threshold tests ====================

#[test]
fn test_halving_thresholds() {
    let params = init_test_params();

    let target_per_period = 29_595u128;

    // Test different total minted amounts
    let mut period = MintPeriod {
        block_num: 1100,
        fct_mint_rate: BigRational::one(),
        total_minted: BigRational::from_u128(140_000_000).unwrap(), // Below 50%
        period_minted: BigRational::zero(),
        period_start_block: 1100,
        max_supply: 622_222_222u128,
        target_per_period: 29_595u128,
    };

    let _params = FctParams::get(&params).unwrap();
    assert_eq!(period.get_current_halving_level(), 0);
    assert_eq!(period.current_target().to_integer().to_u128().unwrap(), target_per_period);

    // First halving (50%)
    period.total_minted = BigRational::from_u128(311_111_112).unwrap();
    assert_eq!(period.get_current_halving_level(), 1);
    assert_eq!(period.current_target().to_integer().to_u128().unwrap(), target_per_period / 2);

    // Second halving (75%)
    period.total_minted = BigRational::from_u128(466_666_667).unwrap();
    assert_eq!(period.get_current_halving_level(), 2);
    assert_eq!(period.current_target().to_integer().to_u128().unwrap(), target_per_period / 4);
}

// ==================== Edge cases and error conditions ====================

#[test]
fn test_handles_extremely_large_burns() {
    let params = init_test_params();

    let prev_l1_info = L1BlockInfoFacet {
        number: 1099,
        fct_mint_rate: 1,
        fct_total_minted: 140_000_000,
        fct_period_start_block: 1090,
        fct_period_minted: 0,
        ..Default::default()
    };

    let mut txs = vec![build_tx(1_000_000)]; // Huge burn
    let base_fee = 1u64;

    let (_rate, total, start_block, _period_minted) = FctMintCalculator::assign_mint(
        &mut txs,
        1100,
        base_fee,
        &prev_l1_info,
        &params,
    );

    // Should handle gracefully
    assert!(txs[0].mint > 0);
    assert!(total > 140_000_000);
    assert_eq!(start_block, 1100);
}

#[test]
fn test_respects_min_rate_limit() {
    let params = init_test_params();

    let target_per_period = 29_595u128;
    let prev_l1_info = L1BlockInfoFacet {
        number: 1109,
        fct_mint_rate: 2,
        fct_total_minted: 140_000_000,
        fct_period_start_block: 1100,
        fct_period_minted: target_per_period, // Hit target in 10 blocks
        ..Default::default()
    };

    let mut txs = vec![build_tx(100)];
    let base_fee = 1u64;

    let (rate, _total, _start_block, _period_minted) = FctMintCalculator::assign_mint(
        &mut txs,
        1110,
        base_fee,
        &prev_l1_info,
        &params,
    );

    // Rate should be reduced but not below minimum of 1
    assert!(rate >= 1);
}

#[test]
fn test_handles_zero_base_fee() {
    let params = init_test_params();

    let prev_l1_info = L1BlockInfoFacet {
        number: 1099,
        fct_mint_rate: 5,
        fct_total_minted: 140_000_000,
        fct_period_start_block: 1090,
        fct_period_minted: 1000,
        ..Default::default()
    };

    let mut txs = vec![build_tx(1000)];
    let base_fee = 0u64; // Zero base fee

    let (_rate, _total, _start_block, _period_minted) = FctMintCalculator::assign_mint(
        &mut txs,
        1100,
        base_fee,
        &prev_l1_info,
        &params,
    );

    // Should mint 0 when base fee is 0 (no ETH burned)
    assert_eq!(txs[0].mint, 0);
}

#[test]
fn test_handles_exact_halving_boundaries() {
    // Initialize with specific max supply
    let max_supply = 622_222_222u128;
    let initial_target = 29_595u128;
    let mut params = None;
    FctParams::init(&mut params, max_supply, initial_target);

    // Set up to land exactly on first halving threshold
    let prev_l1_info = L1BlockInfoFacet {
        number: 1099,
        fct_mint_rate: 1,
        fct_total_minted: 311_111_110, // 2 FCT short
        fct_period_start_block: 1090,
        fct_period_minted: 0,
        ..Default::default()
    };

    let mut txs = vec![build_tx(2)]; // Exactly crosses threshold
    let base_fee = 1u64;

    let (_rate, total, _start_block, _period_minted) = FctMintCalculator::assign_mint(
        &mut txs,
        1100,
        base_fee,
        &prev_l1_info,
        &params,
    );

    // Should trigger first halving exactly
    assert_eq!(total, 311_111_112);
}

// ==================== MintPeriod tests ====================

#[test]
fn test_compute_and_cap_rate() {
    let _params = init_test_params();

    let period = MintPeriod {
        block_num: 1000,
        fct_mint_rate: BigRational::from_u128(100).unwrap(),
        total_minted: BigRational::zero(),
        period_minted: BigRational::zero(),
        period_start_block: 1000,
        max_supply: 622_222_222u128,
        target_per_period: 29_595u128,
    };

    // Test capping above MAX_MINT_RATE
    let huge_rate = FctMintCalculator::max_mint_rate()
        + BigRational::from_u128(1000).unwrap();
    let factor = BigRational::from_u32(2).unwrap();
    let capped = period.compute_and_cap_rate(huge_rate, factor);
    assert_eq!(capped, FctMintCalculator::max_mint_rate());

    // Test capping below MIN_MINT_RATE
    let tiny_rate = BigRational::from_u128(10).unwrap();
    let small_factor = BigRational::new(
        BigInt::one(),
        BigInt::from_u32(100_000).unwrap()
    );
    let capped = period.compute_and_cap_rate(tiny_rate, small_factor);
    assert_eq!(capped, FctMintCalculator::min_mint_rate());

    // Test normal case - multiply by 3/2 = 1.5
    let normal_rate = BigRational::from_u128(1000).unwrap();
    let factor = BigRational::new(
        BigInt::from_u32(3).unwrap(),
        BigInt::from_u32(2).unwrap()
    );
    let result = period.compute_and_cap_rate(normal_rate, factor);
    assert_eq!(result, BigRational::from_u128(1500).unwrap());
}
