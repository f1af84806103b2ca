//! FCT (Facet Compute Token) minting.
//!
//! FCT is minted for the wei that a transaction burns on L1. Minting runs in
//! periods. A period that reaches its target closes early and lowers the rate;
//! one that runs its full length closes and raises it. The target of a period
//! halves whenever half of the supply that was left has been minted.
use num_rational::BigRational;
use vstd::arithmetic::power2::*;
use vstd::prelude::*;

use crate::facet_payload::{burns, credit, credited, FacetPayload};
use crate::fct_params::FctParams;
use crate::issuance::{
    all_saturated, burn_left, capped_rate, consume, consume_all, halving_threshold,
    is_halving_level, lemma_burning_advances, lemma_burning_keeps_valid, lemma_fault_stays,
    lemma_halving_level_exists, lemma_next_threshold, lemma_threshold_below_max,
    lemma_thresholds_rise, max_down_factor, max_rate, max_up_factor, min_rate, mint_block,
    period_length, saturated, AdjustmentType, MintFault, PeriodState,
};
use crate::l1_info::L1BlockInfoFacet;
use crate::rational::{
    copy, floor, fraction, is_number, is_zero, larger, less, minus, over, plus, smaller, times,
    to_u128, value, whole,
};

verus! {

/// By how much a halving divides the target.
pub const HALVING_FACTOR: u32 = 2;

/// The blocks that a period lasts.
pub const ADJUSTMENT_PERIOD_BLOCKS: u64 = 500;

/// A rational rounded down, within what a `u128` holds: zero where it is
/// negative, and the largest `u128` where it is beyond that.
pub fn rational_to_u128_sat(r: &BigRational) -> (n: u128)
    requires
        is_number(*r),
    ensures
        n == saturated(value(*r)),
{
    if less(r, &whole(0)) {
        return 0;
    }
    match to_u128(r) {
        Some(n) => n,
        None => u128::MAX,
    }
}

/// State machine for managing FCT minting within and across periods.
#[derive(Debug)]
pub struct MintPeriod {
    /// Current block number.
    pub block_num: u64,
    /// Current FCT mint rate (FCT per wei burned).
    pub fct_mint_rate: BigRational,
    /// Total FCT minted across all periods.
    pub total_minted: BigRational,
    /// FCT minted in the current period.
    pub period_minted: BigRational,
    /// Block number when the current period started.
    pub period_start_block: u64,
    /// Maximum FCT supply.
    pub max_supply: u128,
    /// Target mint per period (before halving adjustments).
    pub target_per_period: u128,
}

impl View for MintPeriod {
    type V = PeriodState;

    open spec fn view(&self) -> PeriodState {
        PeriodState {
            block_num: self.block_num as int,
            rate: value(self.fct_mint_rate),
            total: value(self.total_minted),
            minted: value(self.period_minted),
            start: self.period_start_block as int,
            max_supply: self.max_supply as int,
            target: self.target_per_period as int,
        }
    }
}

impl Clone for MintPeriod {
    fn clone(&self) -> (r: Self)
        ensures
            r@ == self@,
            r.wf() == self.wf(),
    {
        MintPeriod {
            block_num: self.block_num,
            fct_mint_rate: copy(&self.fct_mint_rate),
            total_minted: copy(&self.total_minted),
            period_minted: copy(&self.period_minted),
            period_start_block: self.period_start_block,
            max_supply: self.max_supply,
            target_per_period: self.target_per_period,
        }
    }
}

impl MintPeriod {
    /// The amounts are numbers, and make sense together.
    pub open spec fn wf(&self) -> bool {
        &&& is_number(self.fct_mint_rate)
        &&& is_number(self.total_minted)
        &&& is_number(self.period_minted)
        &&& self@.valid()
    }

    /// The maximum supply, as a rational.
    pub fn max_supply(&self) -> (r: BigRational)
        ensures
            is_number(r),
            value(r) == self.max_supply as real,
    {
        whole(self.max_supply)
    }

    /// Whether nothing is left to mint.
    pub fn supply_exhausted(&self) -> (r: bool)
        requires
            is_number(self.total_minted),
        ensures
            r == self@.exhausted(),
    {
        !less(&self.total_minted, &self.max_supply())
    }

    /// The blocks since this period started.
    pub fn blocks_elapsed_in_period(&self) -> (r: u64)
        requires
            self.period_start_block <= self.block_num,
        ensures
            r == self@.elapsed(),
    {
        self.block_num - self.period_start_block
    }

    /// How many halvings are behind, if a `u32` can count them.
    pub fn count_halvings(&self) -> (r: Option<u32>)
        requires
            is_number(self.total_minted),
        ensures
            r is Some <==> self@.level_fits(),
            r matches Some(level) ==> level == self@.level(),
    {
        let mut level: u32 = 0;
        let max_supply = self.max_supply();
        let mut threshold = over(&max_supply, &whole(HALVING_FACTOR as u128));
        let below = less(&self.total_minted, &max_supply);
        let ghost total = value(self.total_minted);
        let ghost max = self.max_supply as int;
        proof {
            lemma2_to64();
            assert(halving_threshold(max, 1) == max as real - max as real / 2real);
            if 0real <= total && below {
                lemma_halving_level_exists(total, max);
            }
            assert(max as real / 2real >= 0real);
        }
        // Find how many halving thresholds we've crossed
        while below && less(&threshold, &max_supply) && !less(&self.total_minted, &threshold)
            invariant
                is_number(self.total_minted),
                total == value(self.total_minted),
                max == self.max_supply,
                is_number(max_supply),
                value(max_supply) == max as real,
                is_number(threshold),
                value(threshold) == halving_threshold(max, level as nat + 1),
                below == (total < max as real),
                max as real / 2real >= 0real,
                halving_threshold(max, 1) == max as real - max as real / 2real,
                !below || total < 0real ==> level == 0 && self@.level() == 0,
                0real <= total && below ==> is_halving_level(total, max, self@.level()),
                level <= self@.level(),
            decreases self@.level() - level,
        {
            proof {
                if self@.level() == level {
                    assert(false);
                }
            }
            if level == u32::MAX {
                return None;
            }
            let remaining = minus(&max_supply, &threshold);
            proof {
                lemma_next_threshold(max, level as nat + 1);
            }
            level = level + 1;
            // Add half of the remaining supply
            threshold = plus(&threshold, &over(&remaining, &whole(HALVING_FACTOR as u128)));
        }
        proof {
            if 0real <= total && below {
                lemma_threshold_below_max(max, level as nat + 1);
                if level < self@.level() {
                    lemma_thresholds_rise(max, level as nat + 1, self@.level());
                }
            }
        }
        Some(level)
    }

    /// How many halvings are behind.
    pub fn get_current_halving_level(&self) -> (r: u32)
        requires
            is_number(self.total_minted),
            self@.level_fits(),
        ensures
            r == self@.level(),
    {
        self.count_halvings().unwrap()
    }

    /// The FCT to mint in this period.
    pub fn current_target(&self) -> (r: BigRational)
        requires
            is_number(self.total_minted),
            self@.level_fits(),
        ensures
            is_number(r),
            value(r) == self@.current_target() as real,
    {
        let mut target = whole(self.target_per_period);
        let halving_level: u32 = self.get_current_halving_level();
        let ghost full = self.target_per_period as real;
        proof {
            lemma2_to64();
            assert(full / 1real == full);
        }
        let mut halvings: u32 = 0;
        while halvings < halving_level
            invariant
                halvings <= halving_level,
                is_number(target),
                value(target) == full / pow2(halvings as nat) as real,
            decreases halving_level - halvings,
        {
            proof {
                lemma_pow2_pos(halvings as nat);
                lemma_pow2_unfold(halvings as nat + 1);
                let p = pow2(halvings as nat) as real;
                assert(full / (2real * p) == (full / p) / 2real) by (nonlinear_arith)
                    requires
                        p > 0real,
                ;
            }
            target = over(&target, &whole(HALVING_FACTOR as u128));
            halvings = halvings + 1;
        }
        let min_target = whole(1);
        if less(&min_target, &target) {
            floor(&target)
        } else {
            min_target
        }
    }

    /// The whole FCT that this period may still mint.
    pub fn remaining_period_quota(&self) -> (r: BigRational)
        requires
            is_number(self.total_minted),
            is_number(self.period_minted),
            self@.level_fits(),
        ensures
            is_number(r),
            value(r) == self@.quota() as real,
    {
        let remaining = minus(&self.current_target(), &self.period_minted);
        if less(&whole(0), &remaining) {
            floor(&remaining)
        } else {
            whole(0)
        }
    }

    /// The whole FCT that may still be minted at all.
    pub fn remaining_supply(&self) -> (r: BigRational)
        requires
            is_number(self.total_minted),
        ensures
            is_number(r),
            value(r) == self@.supply_left() as real,
    {
        let remaining = minus(&self.max_supply(), &self.total_minted);
        if less(&whole(0), &remaining) {
            floor(&remaining)
        } else {
            whole(0)
        }
    }

    /// Scales a rate, within the limits on a rate.
    pub fn compute_and_cap_rate(
        &self,
        prev_rate: BigRational,
        adjustment_factor: BigRational,
    ) -> (r: BigRational)
        requires
            is_number(prev_rate),
            is_number(adjustment_factor),
        ensures
            is_number(r),
            value(r) == capped_rate(value(prev_rate), value(adjustment_factor)),
    {
        let raw_new_rate = times(&prev_rate, &adjustment_factor);
        smaller(
            larger(raw_new_rate, FctMintCalculator::min_mint_rate()),
            FctMintCalculator::max_mint_rate(),
        )
    }

    /// Lowers the rate as fits a period that filled up early.
    pub fn down_adjust_rate(&mut self)
        requires
            is_number(old(self).fct_mint_rate),
            old(self).period_start_block <= old(self).block_num,
        ensures
            is_number(final(self).fct_mint_rate),
            final(self)@ == old(self)@.adjusted(AdjustmentType::AdjustDown),
            *final(self) == (MintPeriod {
                fct_mint_rate: final(self).fct_mint_rate,
                ..*old(self)
            }),
    {
        let raw_ratio = over(
            &whole(self.blocks_elapsed_in_period() as u128),
            &FctMintCalculator::adjustment_period_target_length(),
        );
        let capped_ratio = larger(raw_ratio, FctMintCalculator::max_rate_adjustment_down_factor());
        self.fct_mint_rate = self.compute_and_cap_rate(copy(&self.fct_mint_rate), capped_ratio);
    }

    /// Raises the rate as fits a period that ran its full length.
    pub fn up_adjust_rate(&mut self)
        requires
            is_number(old(self).fct_mint_rate),
            is_number(old(self).total_minted),
            is_number(old(self).period_minted),
            old(self)@.minted != 0real ==> old(self)@.level_fits(),
        ensures
            is_number(final(self).fct_mint_rate),
            final(self)@ == old(self)@.adjusted(AdjustmentType::AdjustUp),
            *final(self) == (MintPeriod {
                fct_mint_rate: final(self).fct_mint_rate,
                ..*old(self)
            }),
    {
        let max_up = FctMintCalculator::max_rate_adjustment_up_factor();
        let capped_ratio = if is_zero(&self.period_minted) {
            max_up
        } else {
            smaller(over(&self.current_target(), &self.period_minted), max_up)
        };
        self.fct_mint_rate = self.compute_and_cap_rate(copy(&self.fct_mint_rate), capped_ratio);
    }

    /// Closes this period and opens the next one at the current block.
    pub fn start_new_period(&mut self, adjustment_type: AdjustmentType)
        requires
            is_number(old(self).fct_mint_rate),
            match adjustment_type {
                AdjustmentType::AdjustDown => {
                    old(self).period_start_block <= old(self).block_num
                },
                AdjustmentType::AdjustUp => {
                    &&& is_number(old(self).total_minted)
                    &&& is_number(old(self).period_minted)
                    &&& old(self)@.minted != 0real ==> old(self)@.level_fits()
                },
            },
        ensures
            is_number(final(self).fct_mint_rate),
            is_number(final(self).period_minted),
            final(self)@ == old(self)@.rolled(adjustment_type),
            *final(self) == (MintPeriod {
                fct_mint_rate: final(self).fct_mint_rate,
                period_minted: final(self).period_minted,
                period_start_block: final(self).period_start_block,
                ..*old(self)
            }),
    {
        match adjustment_type {
            AdjustmentType::AdjustDown => self.down_adjust_rate(),
            AdjustmentType::AdjustUp => self.up_adjust_rate(),
        }
        self.period_start_block = self.block_num;
        self.period_minted = whole(0);
    }

    /// Burns `eth_burn` wei: the period that this leaves behind and the FCT
    /// minted, or why there is none.
    pub fn try_consume_eth(&self, eth_burn: u128) -> (r: Result<
        (MintPeriod, BigRational),
        MintFault,
    >)
        requires
            self.wf(),
        ensures
            match r {
                Ok((period, minted)) => {
                    &&& period.wf()
                    &&& is_number(minted)
                    &&& consume(self@, eth_burn as real) == Ok::<_, MintFault>(
                        (period@, value(minted)),
                    )
                },
                Err(fault) => consume(self@, eth_burn as real) == Err::<(PeriodState, real), _>(
                    fault,
                ),
            },
    {
        let mut period = self.clone();
        let mut remaining_eth = whole(eth_burn);
        let mut minted = whole(0);
        let ghost eth = eth_burn as real;

        while !is_zero(&remaining_eth) && !period.supply_exhausted()
            invariant
                eth == eth_burn as real,
                period.wf(),
                is_number(remaining_eth),
                is_number(minted),
                value(remaining_eth) >= 0real,
                consume(self@, eth) == match consume(period@, value(remaining_eth)) {
                    Ok((end, more)) => Ok((end, value(minted) + more)),
                    Err(fault) => Err(fault),
                },
            decreases burn_left(value(remaining_eth)), period@.supply_left(), period@.closings_due(),
        {
            if period.count_halvings().is_none() {
                return Err(MintFault::TooManyHalvings);
            }
            if is_zero(&period.fct_mint_rate) {
                return Err(MintFault::ZeroRate);
            }
            let supply = period.remaining_supply();
            if is_zero(&supply) {
                return Err(MintFault::Stalled);
            }
            let ghost before = period@;
            let ghost left = value(remaining_eth);
            proof {
                lemma_burning_keeps_valid(before, left);
                lemma_burning_advances(before, left);
            }
            let mint_possible = times(&remaining_eth, &period.fct_mint_rate);
            let mint_amount = smaller(
                smaller(mint_possible, period.remaining_period_quota()),
                supply,
            );

            let burn_used = over(&mint_amount, &period.fct_mint_rate);
            remaining_eth = minus(&remaining_eth, &burn_used);

            minted = plus(&minted, &mint_amount);
            period.period_minted = plus(&period.period_minted, &mint_amount);
            period.total_minted = plus(&period.total_minted, &mint_amount);
            assert(period@ == before.credited(before.amount(left)));

            if period.count_halvings().is_none() {
                return Err(MintFault::TooManyHalvings);
            }
            if is_zero(&period.remaining_period_quota()) {
                period.start_new_period(AdjustmentType::AdjustDown);
            }
        }
        Ok((period, minted))
    }

    /// Burns `eth_burn` wei in this period and those that follow it, and returns
    /// the FCT minted.
    pub fn consume_eth(&mut self, eth_burn: u128) -> (r: BigRational)
        requires
            old(self).wf(),
            consume(old(self)@, eth_burn as real) is Ok,
        ensures
            final(self).wf(),
            is_number(r),
            consume(old(self)@, eth_burn as real) == Ok::<_, MintFault>((final(self)@, value(r))),
    {
        let (period, minted) = self.try_consume_eth(eth_burn).unwrap();
        *self = period;
        minted
    }

    /// Burns what each transaction owes: the period that this leaves behind and
    /// the FCT for each, or why there is none.
    pub fn try_assign_mint_amounts(
        &self,
        facet_txs: &[FacetPayload],
        current_l1_base_fee: u64,
    ) -> (r: Result<(MintPeriod, Vec<u128>), MintFault>)
        requires
            self.wf(),
        ensures
            match mint_block(self@, burns(facet_txs@, current_l1_base_fee)) {
                Ok((end, mints)) => {
                    &&& r matches Ok((period, amounts))
                    &&& period.wf()
                    &&& period@ == end
                    &&& amounts@ == all_saturated(mints)
                    &&& mints.len() == facet_txs@.len()
                },
                Err(fault) => r == Err::<(MintPeriod, Vec<u128>), _>(fault),
            },
    {
        let mut period = self.clone();
        if period.blocks_elapsed_in_period() >= ADJUSTMENT_PERIOD_BLOCKS {
            if !is_zero(&period.period_minted) && period.count_halvings().is_none() {
                return Err(MintFault::TooManyHalvings);
            }
            period.start_new_period(AdjustmentType::AdjustUp);
        }
        let ghost start = period@;
        let ghost owed = burns(facet_txs@, current_l1_base_fee);
        let ghost mut mints = Seq::<real>::empty();
        let mut amounts: Vec<u128> = Vec::new();
        let mut i: usize = 0;
        while i < facet_txs.len()
            invariant
                i <= facet_txs@.len(),
                owed == burns(facet_txs@, current_l1_base_fee),
                mint_block(self@, owed) == consume_all(start, owed),
                period.wf(),
                consume_all(start, owed.take(i as int)) == Ok::<_, MintFault>((period@, mints)),
                amounts@ == all_saturated(mints),
                mints.len() == i,
            decreases facet_txs@.len() - i,
        {
            let gas: u128 = facet_txs[i].l1_data_gas_used as u128;
            let fee: u128 = current_l1_base_fee as u128;
            assert(0 <= gas * fee <= u64::MAX * u64::MAX) by (nonlinear_arith)
                requires
                    0 <= gas <= u64::MAX,
                    0 <= fee <= u64::MAX,
            ;
            let burn: u128 = gas * fee;
            proof {
                let sofar = owed.take(i + 1);
                assert(sofar.drop_last() =~= owed.take(i as int));
                assert(sofar.last() == burn);
            }
            match period.try_consume_eth(burn) {
                Ok((next, mint)) => {
                    amounts.push(rational_to_u128_sat(&mint));
                    proof {
                        mints = mints.push(value(mint));
                        assert(amounts@ =~= all_saturated(mints));
                    }
                    period = next;
                },
                Err(fault) => {
                    proof {
                        lemma_fault_stays(start, owed, i + 1);
                    }
                    return Err(fault);
                },
            }
            i = i + 1;
        }
        assert(owed.take(i as int) =~= owed);
        Ok((period, amounts))
    }

    /// Burns what each transaction owes, and notes the FCT that it gets for it.
    pub fn assign_mint_amounts(&mut self, facet_txs: &mut [FacetPayload], current_l1_base_fee: u64)
        requires
            old(self).wf(),
            mint_block(old(self)@, burns(old(facet_txs)@, current_l1_base_fee)) is Ok,
        ensures
            final(self).wf(),
            mint_block(old(self)@, burns(old(facet_txs)@, current_l1_base_fee)) matches Ok(
                (end, mints),
            ) && final(self)@ == end && credited(
                old(facet_txs)@,
                all_saturated(mints),
                final(facet_txs)@,
            ),
    {
        let (period, amounts) = self.try_assign_mint_amounts(
            facet_txs,
            current_l1_base_fee,
        ).unwrap();
        credit(facet_txs, &amounts);
        *self = period;
    }
}

/// FCT mint calculation constants and logic.
#[derive(Debug)]
pub struct FctMintCalculator;

impl FctMintCalculator {
    /// The blocks that a period lasts.
    pub fn adjustment_period_target_length() -> (r: BigRational)
        ensures
            is_number(r),
            value(r) == period_length() as real,
    {
        whole(ADJUSTMENT_PERIOD_BLOCKS as u128)
    }

    /// Maximum mint rate ((2^128) - 1).
    pub fn max_mint_rate() -> (r: BigRational)
        ensures
            is_number(r),
            value(r) == max_rate(),
    {
        whole(u128::MAX)
    }

    /// Minimum mint rate.
    pub fn min_mint_rate() -> (r: BigRational)
        ensures
            is_number(r),
            value(r) == min_rate(),
    {
        whole(1)
    }

    /// Maximum rate adjustment up factor.
    pub fn max_rate_adjustment_up_factor() -> (r: BigRational)
        ensures
            is_number(r),
            value(r) == max_up_factor(),
    {
        whole(4)
    }

    /// Maximum rate adjustment down factor (1/4).
    pub fn max_rate_adjustment_down_factor() -> (r: BigRational)
        ensures
            is_number(r),
            value(r) == max_down_factor(),
    {
        fraction(1, 4)
    }

    /// Target issuance fraction for the first halving (1/2).
    pub fn target_issuance_fraction_first_halving() -> (r: BigRational)
        ensures
            is_number(r),
            value(r) == 1real / 2real,
    {
        fraction(1, 2)
    }

    /// Target number of blocks in a halving period.
    pub fn target_num_blocks_in_halving() -> (r: BigRational)
        ensures
            is_number(r),
            value(r) == 2_628_000real,
    {
        whole(2_628_000)
    }

    /// Calculates the L1 data gas that a transaction's input data costs: by
    /// EIP-7623, 10 for a zero byte and 40 for any other; 8 for any byte if a
    /// contract initiated the transaction.
    pub fn calculate_data_gas_used(input_data: &[u8], contract_initiated: bool) -> (r: u64)
        requires
            data_gas(input_data@, contract_initiated) <= usize::MAX,
        ensures
            r == data_gas(input_data@, contract_initiated),
    {
        let len: usize = input_data.len();
        if contract_initiated {
            (len * 8) as u64
        } else {
            let mut zero_count: usize = 0;
            let mut i: usize = 0;
            while i < len
                invariant
                    i <= len,
                    len == input_data@.len(),
                    zero_count == zero_bytes(input_data@.take(i as int)),
                    zero_count <= i,
                decreases len - i,
            {
                assert(input_data@.take(i + 1).drop_last() =~= input_data@.take(i as int));
                if input_data[i] == 0 {
                    zero_count = zero_count + 1;
                }
                i = i + 1;
            }
            assert(input_data@.take(len as int) =~= input_data@);
            let non_zero_count: usize = len - zero_count;
            (zero_count * 10 + non_zero_count * 40) as u64
        }
    }

    /// Assigns mint amounts to the transactions of a block, starting from the
    /// state that the previous block's L1 info holds, or says why it cannot;
    /// then the transactions stay as they are.
    ///
    /// Returns the new rate, the new total, the block at which the current
    /// period started and the FCT minted in it.
    pub fn try_assign_mint(
        facet_txs: &mut [FacetPayload],
        block_number: u64,
        l1_base_fee: u64,
        prev_l1_info: &L1BlockInfoFacet,
        params: &Option<FctParams>,
    ) -> (r: Result<(u128, u128, u64, u128), MintFault>)
        ensures
            match mint_from_info(
                *params,
                *prev_l1_info,
                block_number,
                burns(old(facet_txs)@, l1_base_fee),
            ) {
                Ok((end, mints)) => {
                    &&& r matches Ok((rate, total, start, minted))
                    &&& rate == saturated(end.rate)
                    &&& total == saturated(end.total)
                    &&& start == end.start
                    &&& minted == saturated(end.minted)
                    &&& credited(old(facet_txs)@, all_saturated(mints), final(facet_txs)@)
                },
                Err(fault) => {
                    &&& r == Err::<(u128, u128, u64, u128), _>(fault)
                    &&& final(facet_txs)@ == old(facet_txs)@
                },
            },
    {
        let params = match FctParams::get(params) {
            Some(params) => params,
            None => {
                return Err(MintFault::ParamsNotInitialized);
            },
        };
        if prev_l1_info.fct_period_start_block > block_number as u128 {
            return Err(MintFault::PeriodAhead);
        }
        // Load period state from previous block
        let period = MintPeriod {
            block_num: block_number,
            fct_mint_rate: whole(prev_l1_info.fct_mint_rate),
            total_minted: whole(prev_l1_info.fct_total_minted),
            period_minted: whole(prev_l1_info.fct_period_minted),
            period_start_block: prev_l1_info.fct_period_start_block as u64,
            max_supply: params.max_supply,
            target_per_period: params.target_per_period,
        };
        assert(period@ == loaded(*params, *prev_l1_info, block_number));

        match period.try_assign_mint_amounts(facet_txs, l1_base_fee) {
            Ok((end, amounts)) => {
                credit(facet_txs, &amounts);
                Ok(
                    (
                        rational_to_u128_sat(&end.fct_mint_rate),
                        rational_to_u128_sat(&end.total_minted),
                        end.period_start_block,
                        rational_to_u128_sat(&end.period_minted),
                    ),
                )
            },
            Err(fault) => Err(fault),
        }
    }

    /// Main driver function to assign mint amounts to transactions.
    ///
    /// This loads the previous period's state, handles period rolling, and
    /// assigns mints. Returns the new rate, the new total, the block at which
    /// the current period started and the FCT minted in it.
    pub fn assign_mint(
        facet_txs: &mut [FacetPayload],
        block_number: u64,
        l1_base_fee: u64,
        prev_l1_info: &L1BlockInfoFacet,
        params: &Option<FctParams>,
    ) -> (r: (u128, u128, u64, u128))
        requires
            mint_from_info(
                *params,
                *prev_l1_info,
                block_number,
                burns(old(facet_txs)@, l1_base_fee),
            ) is Ok,
        ensures
            mint_from_info(
                *params,
                *prev_l1_info,
                block_number,
                burns(old(facet_txs)@, l1_base_fee),
            ) matches Ok((end, mints)) && {
                &&& r.0 == saturated(end.rate)
                &&& r.1 == saturated(end.total)
                &&& r.2 == end.start
                &&& r.3 == saturated(end.minted)
                &&& credited(old(facet_txs)@, all_saturated(mints), final(facet_txs)@)
            },
    {
        FctMintCalculator::try_assign_mint(
            facet_txs,
            block_number,
            l1_base_fee,
            prev_l1_info,
            params,
        ).unwrap()
    }
}

/// The number of zero bytes in `data`.
pub open spec fn zero_bytes(data: Seq<u8>) -> nat
    decreases data.len(),
{
    if data.len() == 0 {
        0
    } else if data.last() == 0 {
        zero_bytes(data.drop_last()) + 1
    } else {
        zero_bytes(data.drop_last())
    }
}

/// The L1 gas that input data costs.
pub open spec fn data_gas(data: Seq<u8>, contract_initiated: bool) -> int {
    if contract_initiated {
        data.len() as int * 8
    } else {
        zero_bytes(data) * 10 + (data.len() - zero_bytes(data)) * 40
    }
}

/// The period that the previous block's L1 info describes.
pub open spec fn loaded(params: FctParams, info: L1BlockInfoFacet, block_number: u64) -> PeriodState {
    PeriodState {
        block_num: block_number as int,
        rate: info.fct_mint_rate as real,
        total: info.fct_total_minted as real,
        minted: info.fct_period_minted as real,
        start: info.fct_period_start_block as int,
        max_supply: params.max_supply as int,
        target: params.target_per_period as int,
    }
}

/// A block's burns, from the state that the previous block's L1 info holds.
pub open spec fn mint_from_info(
    params: Option<FctParams>,
    info: L1BlockInfoFacet,
    block_number: u64,
    burns: Seq<int>,
) -> Result<(PeriodState, Seq<real>), MintFault> {
    match params {
        None => Err(MintFault::ParamsNotInitialized),
        Some(params) => if info.fct_period_start_block > block_number {
            Err(MintFault::PeriodAhead)
        } else {
            mint_block(loaded(params, info, block_number), burns)
        },
    }
}

} // verus!
