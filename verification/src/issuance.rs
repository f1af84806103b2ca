//! The mathematics of FCT issuance.
//!
//! A minting period is described here by real numbers and integers alone. The
//! executable period in `fct_mint` is proved against these definitions.
use vstd::arithmetic::power2::*;
use vstd::prelude::*;

use crate::rational::{greatest, least};

verus! {

/// What a minting period knows: the block it is looked at from, the supply
/// rules, and how much has been minted at which rate.
pub struct PeriodState {
    /// The current block.
    pub block_num: int,
    /// FCT minted per wei burned.
    pub rate: real,
    /// FCT minted over all periods.
    pub total: real,
    /// FCT minted in this period.
    pub minted: real,
    /// The block at which this period started.
    pub start: int,
    /// The most FCT there can be.
    pub max_supply: int,
    /// The FCT to mint per period, before any halving.
    pub target: int,
}

/// Which way the rate moves when a period closes.
#[derive(Clone, Copy, Debug, PartialEq, Eq, Structural)]
pub enum AdjustmentType {
    /// The period ran its full length.
    AdjustUp,
    /// The period minted its full target.
    AdjustDown,
}

/// Why a burn cannot be turned into FCT.
#[derive(Clone, Copy, Debug, PartialEq, Eq, Structural)]
pub enum MintFault {
    /// The FCT parameters are not set.
    ParamsNotInitialized,
    /// The period starts after the current block.
    PeriodAhead,
    /// FCT is to be minted at a rate of zero.
    ZeroRate,
    /// Less than one FCT is left to mint, but more than none: neither the burn
    /// nor the supply can be used up.
    Stalled,
    /// More halvings were crossed than a `u32` can count.
    TooManyHalvings,
}

/// The blocks that a period lasts.
pub open spec fn period_length() -> int {
    500
}

/// The lowest rate that an adjustment leaves.
pub open spec fn min_rate() -> real {
    1real
}

/// The highest rate that an adjustment leaves.
pub open spec fn max_rate() -> real {
    u128::MAX as real
}

/// The most that one adjustment raises the rate by.
pub open spec fn max_up_factor() -> real {
    4real
}

/// The most that one adjustment lowers the rate by.
pub open spec fn max_down_factor() -> real {
    1real / 4real
}

/// The supply at which the `k`-th halving happens: all but one `2^k`-th of the
/// maximum.
pub open spec fn halving_threshold(max_supply: int, k: nat) -> real {
    max_supply as real - max_supply as real / pow2(k) as real
}

/// `total` has crossed the first `k` halving thresholds and no more.
pub open spec fn is_halving_level(total: real, max_supply: int, k: nat) -> bool {
    halving_threshold(max_supply, k) <= total < halving_threshold(max_supply, k + 1)
}

/// How many halving thresholds `total` has crossed: none below zero, and none
/// counts once the supply is exhausted.
pub open spec fn halving_level(total: real, max_supply: int) -> nat {
    if total < 0real || total >= max_supply as real {
        0
    } else {
        choose|k: nat| is_halving_level(total, max_supply, k)
    }
}

/// `rate` scaled by `factor`, within the limits on a rate.
pub open spec fn capped_rate(rate: real, factor: real) -> real {
    least(greatest(rate * factor, min_rate()), max_rate())
}

/// `x` rounded down, or zero where that would be negative.
pub open spec fn whole_part(x: real) -> int {
    if x > 0real {
        x.floor()
    } else {
        0
    }
}

impl PeriodState {
    /// The numbers make sense: nothing is negative and the period has started.
    pub open spec fn valid(self) -> bool {
        &&& self.rate >= 0real
        &&& self.total >= 0real
        &&& self.minted >= 0real
        &&& 0 <= self.start <= self.block_num
        &&& self.max_supply >= 0
        &&& self.target >= 0
    }

    /// How many halvings are behind.
    pub open spec fn level(self) -> nat {
        halving_level(self.total, self.max_supply)
    }

    /// The number of halvings fits the machine's counter.
    pub open spec fn level_fits(self) -> bool {
        self.level() <= u32::MAX
    }

    /// The FCT to mint in this period: the target halved once per level, and at
    /// least one.
    pub open spec fn current_target(self) -> int {
        let halved = self.target as real / pow2(self.level()) as real;
        if halved > 1real {
            halved.floor()
        } else {
            1
        }
    }

    /// The whole FCT that this period may still mint.
    pub open spec fn quota(self) -> int {
        whole_part(self.current_target() as real - self.minted)
    }

    /// The whole FCT that may still be minted at all.
    pub open spec fn supply_left(self) -> int {
        whole_part(self.max_supply as real - self.total)
    }

    /// Nothing is left to mint.
    pub open spec fn exhausted(self) -> bool {
        self.total >= self.max_supply as real
    }

    /// One where this period is full and has to close, none where it is not.
    pub open spec fn closings_due(self) -> nat {
        if self.quota() == 0 {
            1
        } else {
            0
        }
    }

    /// The blocks since this period started.
    pub open spec fn elapsed(self) -> int {
        self.block_num - self.start
    }

    /// The factor by which the rate changes when the period closes.
    pub open spec fn adjustment_factor(self, adjustment: AdjustmentType) -> real {
        match adjustment {
            AdjustmentType::AdjustDown => greatest(
                self.elapsed() as real / period_length() as real,
                max_down_factor(),
            ),
            AdjustmentType::AdjustUp => if self.minted == 0real {
                max_up_factor()
            } else {
                least(self.current_target() as real / self.minted, max_up_factor())
            },
        }
    }

    /// The same period at an adjusted rate.
    pub open spec fn adjusted(self, adjustment: AdjustmentType) -> PeriodState {
        PeriodState {
            rate: capped_rate(self.rate, self.adjustment_factor(adjustment)),
            ..self
        }
    }

    /// The period that follows this one: it starts at the current block, with
    /// nothing minted, at the adjusted rate.
    pub open spec fn rolled(self, adjustment: AdjustmentType) -> PeriodState {
        PeriodState {
            start: self.block_num,
            minted: 0real,
            ..self.adjusted(adjustment)
        }
    }

    /// The FCT that one go at burning `eth` yields: what the rate gives, within
    /// the period's quota and the supply.
    pub open spec fn amount(self, eth: real) -> real {
        least(least(eth * self.rate, self.quota() as real), self.supply_left() as real)
    }

    /// The period once `amount` more FCT are minted in it.
    pub open spec fn credited(self, amount: real) -> PeriodState {
        PeriodState { total: self.total + amount, minted: self.minted + amount, ..self }
    }

    /// The period that minting goes on in: the next one where this one is full.
    pub open spec fn settled(self) -> PeriodState {
        if self.quota() == 0 {
            self.rolled(AdjustmentType::AdjustDown)
        } else {
            self
        }
    }
}

/// A threshold is crossed once what is left to mint, doubled `k` times, is no
/// more than the maximum.
pub proof fn lemma_crossed(total: real, max_supply: int, k: nat)
    ensures
        halving_threshold(max_supply, k) <= total <==> (max_supply as real - total) * pow2(k) as real
            <= max_supply as real,
{
    lemma_pow2_pos(k);
    let m = max_supply as real;
    let p = pow2(k) as real;
    assert(m - m / p <= total <==> (m - total) * p <= m) by (nonlinear_arith)
        requires
            p > 0real,
    ;
}

/// Doubling `k` times multiplies by more than `k`.
proof fn lemma_pow2_exceeds(k: nat)
    ensures
        pow2(k) > k,
    decreases k,
{
    if k == 0 {
        lemma2_to64();
    } else {
        lemma_pow2_exceeds((k - 1) as nat);
        lemma_pow2_unfold(k);
    }
}

/// Among the first `n` doublings there is a last one that stays within the
/// maximum, if the `n`-th does not.
proof fn lemma_last_doubling(left: real, max: real, n: nat) -> (k: nat)
    requires
        left <= max,
        left * pow2(n) as real > max,
    ensures
        left * pow2(k) as real <= max,
        left * pow2(k + 1) as real > max,
    decreases n,
{
    lemma2_to64();
    assert(left * (1real) == left);
    if n == 0 {
        0
    } else if left * pow2((n - 1) as nat) as real <= max {
        (n - 1) as nat
    } else {
        lemma_last_doubling(left, max, (n - 1) as nat)
    }
}

/// Below the maximum supply, some number of halvings is the right one.
pub proof fn lemma_halving_level_exists(total: real, max_supply: int)
    requires
        0real <= total < max_supply as real,
    ensures
        is_halving_level(total, max_supply, halving_level(total, max_supply)),
{
    let left = max_supply as real - total;
    let max = max_supply as real;
    let n = ((max / left).floor() + 1) as nat;
    assert(max / left >= 0real) by (nonlinear_arith)
        requires
            left > 0real,
            max >= 0real,
    ;
    lemma_pow2_exceeds(n);
    let p = pow2(n) as real;
    assert(left * p > max) by (nonlinear_arith)
        requires
            left > 0real,
            p > max / left,
    ;
    let k = lemma_last_doubling(left, max, n);
    lemma_crossed(total, max_supply, k);
    lemma_crossed(total, max_supply, k + 1);
    assert(is_halving_level(total, max_supply, k));
}

/// A higher threshold is crossed only after the lower ones.
pub proof fn lemma_thresholds_rise(max_supply: int, j: nat, k: nat)
    requires
        max_supply >= 0,
        j <= k,
    ensures
        halving_threshold(max_supply, j) <= halving_threshold(max_supply, k),
{
    lemma_pow2_pos(j);
    lemma_pow2_pos(k);
    if j < k {
        lemma_pow2_strictly_increases(j, k);
    }
    let m = max_supply as real;
    let a = pow2(j) as real;
    let b = pow2(k) as real;
    assert(m - m / a <= m - m / b) by (nonlinear_arith)
        requires
            m >= 0real,
            0real < a <= b,
    ;
}

/// At most one number of halvings is the right one.
pub proof fn lemma_halving_level_unique(total: real, max_supply: int, k: nat)
    requires
        0real <= total < max_supply as real,
        is_halving_level(total, max_supply, k),
    ensures
        halving_level(total, max_supply) == k,
{
    lemma_halving_level_exists(total, max_supply);
    let l = halving_level(total, max_supply);
    if l < k {
        lemma_thresholds_rise(max_supply, l + 1, k);
    } else if k < l {
        lemma_thresholds_rise(max_supply, k + 1, l);
    }
}

/// The next threshold lies half way between the last one and the maximum.
pub proof fn lemma_next_threshold(max_supply: int, k: nat)
    ensures
        halving_threshold(max_supply, k + 1) == halving_threshold(max_supply, k) + (
        max_supply as real - halving_threshold(max_supply, k)) / 2real,
{
    lemma_pow2_pos(k);
    lemma_pow2_unfold(k + 1);
    let m = max_supply as real;
    let p = pow2(k) as real;
    assert(m - m / (2real * p) == (m - m / p) + (m - (m - m / p)) / 2real) by (nonlinear_arith)
        requires
            p > 0real,
    ;
}

/// No threshold reaches the maximum.
pub proof fn lemma_threshold_below_max(max_supply: int, k: nat)
    requires
        max_supply > 0,
    ensures
        halving_threshold(max_supply, k) < max_supply as real,
{
    lemma_pow2_pos(k);
    let m = max_supply as real;
    let p = pow2(k) as real;
    assert(m / p > 0real) by (nonlinear_arith)
        requires
            m > 0real,
            p > 0real,
    ;
}

/// Every go at burning uses the burn up, uses supply up, or opens a period with
/// room in it.
pub proof fn lemma_burning_advances(s: PeriodState, eth: real)
    requires
        eth > 0real,
        s.rate > 0real,
        s.supply_left() > 0,
    ensures
        ({
            let amount = s.amount(eth);
            let next = s.credited(amount).settled();
            ||| eth - amount / s.rate <= 0real
            ||| 0 <= next.supply_left() < s.supply_left()
            ||| next.supply_left() == s.supply_left() && s.quota() == 0 && next.quota() != 0
        }),
{
    let amount = s.amount(eth);
    let rate = s.rate;
    if amount == eth * rate {
        assert(eth - (eth * rate) / rate == 0real) by (nonlinear_arith)
            requires
                rate > 0real,
        ;
    } else if s.quota() == 0 {
        assert(eth * rate > 0real) by (nonlinear_arith)
            requires
                eth > 0real,
                rate > 0real,
        ;
        assert(amount == 0real);
        assert(s.credited(amount) == s);
    }
}

/// One go at burning mints no negative amount, burns no more than there is, and
/// leaves sensible numbers.
pub proof fn lemma_burning_keeps_valid(s: PeriodState, eth: real)
    requires
        s.valid(),
        eth > 0real,
        s.rate > 0real,
    ensures
        s.amount(eth) >= 0real,
        eth - s.amount(eth) / s.rate >= 0real,
        s.credited(s.amount(eth)).valid(),
        s.credited(s.amount(eth)).settled().valid(),
        s.credited(s.amount(eth)).settled().rate > 0real,
{
    let amount = s.amount(eth);
    let rate = s.rate;
    assert(eth * rate > 0real) by (nonlinear_arith)
        requires
            eth > 0real,
            rate > 0real,
    ;
    assert(amount / rate <= eth) by (nonlinear_arith)
        requires
            rate > 0real,
            amount <= eth * rate,
    ;
}

/// One as long as something is left to burn: with what is left to mint and the
/// closings due, what bounds the goes at burning.
pub open spec fn burn_left(eth: real) -> nat {
    if eth > 0real {
        1
    } else {
        0
    }
}

/// Burning `eth` wei in a period: the period that it leaves behind and the FCT
/// minted on the way, period after period until the burn or the supply is used
/// up.
pub open spec fn consume(s: PeriodState, eth: real) -> Result<(PeriodState, real), MintFault>
    decreases burn_left(eth), s.supply_left(), s.closings_due(),
{
    if eth <= 0real || s.exhausted() {
        Ok((s, 0real))
    } else if !s.level_fits() {
        Err(MintFault::TooManyHalvings)
    } else if s.rate <= 0real {
        Err(MintFault::ZeroRate)
    } else if s.supply_left() == 0 {
        Err(MintFault::Stalled)
    } else {
        let amount = s.amount(eth);
        let after = s.credited(amount);
        if !after.level_fits() {
            Err(MintFault::TooManyHalvings)
        } else {
            proof {
                lemma_burning_advances(s, eth);
            }
            match consume(after.settled(), eth - amount / s.rate) {
                Ok((end, minted)) => Ok((end, amount + minted)),
                Err(fault) => Err(fault),
            }
        }
    }
}

/// The period that a block mints in: the next one where this one has run its
/// full length.
pub open spec fn opened(s: PeriodState) -> Result<PeriodState, MintFault> {
    if s.elapsed() < period_length() {
        Ok(s)
    } else if s.minted != 0real && !s.level_fits() {
        Err(MintFault::TooManyHalvings)
    } else {
        Ok(s.rolled(AdjustmentType::AdjustUp))
    }
}

/// Burning amount after amount: the period that this leaves behind and the FCT
/// minted for each.
pub open spec fn consume_all(s: PeriodState, burns: Seq<int>) -> Result<
    (PeriodState, Seq<real>),
    MintFault,
>
    decreases burns.len(),
{
    if burns.len() == 0 {
        Ok((s, Seq::empty()))
    } else {
        match consume_all(s, burns.drop_last()) {
            Ok((mid, mints)) => match consume(mid, burns.last() as real) {
                Ok((end, minted)) => Ok((end, mints.push(minted))),
                Err(fault) => Err(fault),
            },
            Err(fault) => Err(fault),
        }
    }
}

/// A block's burns: the period that they leave behind and the FCT minted for
/// each.
pub open spec fn mint_block(s: PeriodState, burns: Seq<int>) -> Result<
    (PeriodState, Seq<real>),
    MintFault,
> {
    match opened(s) {
        Ok(period) => consume_all(period, burns),
        Err(fault) => Err(fault),
    }
}

/// `x` rounded down, within what a `u128` holds: zero where `x` is negative, and
/// the largest `u128` where `x` is beyond it.
pub open spec fn saturated(x: real) -> u128 {
    if x < 0real {
        0
    } else if x.floor() <= u128::MAX {
        x.floor() as u128
    } else {
        u128::MAX
    }
}

/// Each amount rounded down, within what a `u128` holds.
pub open spec fn all_saturated(amounts: Seq<real>) -> Seq<u128> {
    Seq::new(amounts.len(), |i: int| saturated(amounts[i]))
}

/// A fault among the first burns is a fault of them all.
pub proof fn lemma_fault_stays(s: PeriodState, burns: Seq<int>, n: int)
    requires
        0 <= n <= burns.len(),
        consume_all(s, burns.take(n)) is Err,
    ensures
        consume_all(s, burns) == consume_all(s, burns.take(n)),
    decreases burns.len() - n,
{
    if n == burns.len() {
        assert(burns.take(n) =~= burns);
    } else {
        assert(burns.take(n + 1).drop_last() =~= burns.take(n));
        lemma_fault_stays(s, burns, n + 1);
    }
}

} // verus!
