//! What the terms of issuance amount to, in plain numbers.
use vstd::arithmetic::power2::*;
use vstd::prelude::*;

use crate::issuance::{
    all_saturated, capped_rate, halving_level, lemma_crossed, lemma_halving_level_exists,
    saturated, AdjustmentType, PeriodState,
};
use crate::issuance_laws::lemma_target_bounded;

verus! {

/// What is left to mint, doubled once per halving that is behind, is still within
/// the maximum supply; doubled once more it is not. There is no halving below
/// zero or at the maximum.
pub proof fn lemma_halvings_double_what_is_left(total: real, max_supply: int)
    ensures
        ({
            let k = halving_level(total, max_supply);
            let left = max_supply as real - total;
            &&& total < 0real || total >= max_supply as real ==> k == 0
            &&& 0real <= total < max_supply as real ==> {
                &&& left * pow2(k) as real <= max_supply as real
                &&& left * pow2(k + 1) as real > max_supply as real
            }
        }),
{
    if 0real <= total < max_supply as real {
        let k = halving_level(total, max_supply);
        lemma_halving_level_exists(total, max_supply);
        lemma_crossed(total, max_supply, k);
        lemma_crossed(total, max_supply, k + 1);
    }
}

/// How many halvings a period has behind it depends on the total and the maximum
/// supply alone, and the blocks since its start on the two block numbers.
pub proof fn lemma_where_a_period_stands(s: PeriodState)
    ensures
        s.level() == halving_level(s.total, s.max_supply),
        s.level_fits() <==> halving_level(s.total, s.max_supply) <= 0xffff_ffff,
        s.elapsed() == s.block_num - s.start,
        s.exhausted() <==> s.total >= s.max_supply as real,
{
}

/// The largest integer in `target / p`.
proof fn lemma_quotient_floor(target: int, p: int, t: int)
    requires
        target >= 0,
        p > 0,
        t == (target as real / p as real).floor(),
    ensures
        t * p <= target < (t + 1) * p,
{
    let x = target as real / p as real;
    let pr = p as real;
    let tr = t as real;
    let whole = target as real;
    assert(tr <= x < tr + 1real);
    assert(tr * pr <= whole < (tr + 1real) * pr) by (nonlinear_arith)
        requires
            x == whole / pr,
            pr > 0real,
            tr <= x < tr + 1real,
    ;
    lemma_product_cast(t, p);
    lemma_product_cast(t + 1, p);
    assert((t * p) as real <= whole < ((t + 1) * p) as real);
}

/// Two integers have the same product among the reals.
proof fn lemma_product_cast(m: int, n: int)
    ensures
        m as real * n as real == (m * n) as real,
{
    assert(m as real * n as real == (m * n) as real) by (nonlinear_arith);
}

/// With `k` halvings behind, the target `t` of a period is the full target over
/// `2^k`, rounded down: `t * 2^k <= full < (t + 1) * 2^k`. It is one where that
/// would leave no more than one.
pub proof fn lemma_target_is_halved_per_level(s: PeriodState)
    requires
        s.target >= 0,
    ensures
        ({
            let p = pow2(halving_level(s.total, s.max_supply)) as int;
            let t = s.current_target();
            &&& s.target > p ==> t * p <= s.target < (t + 1) * p
            &&& s.target <= p ==> t == 1
        }),
{
    let p = pow2(s.level()) as int;
    lemma_pow2_pos(s.level());
    let x = s.target as real / p as real;
    let pr = p as real;
    let whole = s.target as real;
    assert(whole > pr <==> x > 1real) by (nonlinear_arith)
        requires
            x == whole / pr,
            pr > 0real,
    ;
    if s.target > p {
        lemma_quotient_floor(s.target, p, s.current_target());
    }
}

/// Between two numbers of halvings that differ by one, the target is halved,
/// rounded down.
proof fn lemma_halves(t: int, half: int, p: int, full: int)
    requires
        p > 0,
        t * p <= full < (t + 1) * p,
        half * (2 * p) <= full < (half + 1) * (2 * p),
    ensures
        half == t / 2,
{
    assert(half * 2 < t + 1) by (nonlinear_arith)
        requires
            p > 0,
            half * (2 * p) <= full,
            full < (t + 1) * p,
    ;
    assert(t < (half + 1) * 2) by (nonlinear_arith)
        requires
            p > 0,
            t * p <= full,
            full < (half + 1) * (2 * p),
    ;
}

/// Crossing one more threshold halves the target of a period, rounded down, and
/// leaves no less than one.
pub proof fn lemma_one_more_halving_halves_the_target(s: PeriodState, t: PeriodState)
    requires
        s.target >= 0,
        t.target == s.target,
        halving_level(t.total, t.max_supply) == halving_level(s.total, s.max_supply) + 1,
    ensures
        s.current_target() >= 2 ==> t.current_target() == s.current_target() / 2,
        s.current_target() < 2 ==> t.current_target() == 1,
{
    let k = halving_level(s.total, s.max_supply);
    let p = pow2(k) as int;
    lemma_pow2_pos(k);
    lemma_pow2_unfold(k + 1);
    lemma_target_is_halved_per_level(s);
    lemma_target_is_halved_per_level(t);
    let a = s.current_target();
    let b = t.current_target();
    if s.target > 2 * p {
        lemma_halves(a, b, p, s.target);
        assert(a >= 2) by (nonlinear_arith)
            requires
                p > 0,
                s.target > 2 * p,
                s.target < (a + 1) * p,
        ;
    } else if s.target > p {
        assert(a <= 2) by (nonlinear_arith)
            requires
                p > 0,
                s.target <= 2 * p,
                a * p <= s.target,
        ;
    }
}

/// The quota of a period is the largest integer within what its target leaves,
/// and what may still be minted is the largest integer within what the maximum
/// supply leaves; neither is negative.
pub proof fn lemma_room_is_rounded_down(s: PeriodState)
    ensures
        s.minted >= s.current_target() as real ==> s.quota() == 0,
        s.minted < s.current_target() as real ==> {
            &&& s.quota() >= 0
            &&& s.quota() as real <= s.current_target() as real - s.minted
            &&& s.current_target() as real - s.minted < s.quota() as real + 1real
        },
        s.total >= s.max_supply as real ==> s.supply_left() == 0 && s.exhausted(),
        s.total < s.max_supply as real ==> {
            &&& !s.exhausted()
            &&& s.supply_left() >= 0
            &&& s.supply_left() as real <= s.max_supply as real - s.total
            &&& s.max_supply as real - s.total < s.supply_left() as real + 1real
        },
{
    let a = s.current_target() as real - s.minted;
    let b = s.max_supply as real - s.total;
    assert(a.floor() as real <= a < a.floor() as real + 1real);
    assert(b.floor() as real <= b < b.floor() as real + 1real);
}

/// A scaled rate is the product, held between one and the largest `u128`.
pub proof fn lemma_scaled_rate_is_held_between(rate: real, factor: real)
    ensures
        rate * factor < 1real ==> capped_rate(rate, factor) == 1real,
        1real <= rate * factor <= u128::MAX as real ==> capped_rate(rate, factor) == rate * factor,
        rate * factor > u128::MAX as real ==> capped_rate(rate, factor) == u128::MAX as real,
{
}

/// Closing a period changes its rate, its start and its amount alone: the next
/// one starts at the current block with nothing minted. An adjustment changes the
/// rate alone.
pub proof fn lemma_closing_keeps_the_rest(s: PeriodState, adjustment: AdjustmentType)
    ensures
        ({
            let next = s.rolled(adjustment);
            let adjusted = s.adjusted(adjustment);
            &&& next.start == s.block_num
            &&& next.minted == 0real
            &&& next.block_num == s.block_num
            &&& next.total == s.total
            &&& next.max_supply == s.max_supply
            &&& next.target == s.target
            &&& next.rate == adjusted.rate
            &&& adjusted.start == s.start
            &&& adjusted.minted == s.minted
            &&& adjusted.block_num == s.block_num
            &&& adjusted.total == s.total
            &&& adjusted.max_supply == s.max_supply
            &&& adjusted.target == s.target
        }),
{
}

/// A period that closes because its time is over makes up for what it fell short
/// of its target: the new rate times what it minted is the old rate times the
/// target. So one that minted its target keeps its rate. The rate rises to no
/// more than its fourfold, to which it rises where nothing was minted, and stays
/// between one and the largest `u128`.
pub proof fn lemma_time_over_makes_up_the_shortfall(s: PeriodState)
    requires
        s.target >= 0,
        s.minted >= 0real,
    ensures
        ({
            let rate = s.rolled(AdjustmentType::AdjustUp).rate;
            let target = s.current_target() as real;
            let most = u128::MAX as real;
            let due = s.rate * target;
            let fourfold = s.rate * 4real;
            &&& 1real <= rate <= most
            &&& 0real < s.minted && target <= 4real * s.minted ==> {
                &&& s.minted <= due <= most * s.minted ==> rate * s.minted == due
                &&& due < s.minted ==> rate == 1real
                &&& due > most * s.minted ==> rate == most
            }
            &&& s.minted == target && 1real <= s.rate <= most ==> rate == s.rate
            &&& s.minted == 0real || 4real * s.minted < target ==> {
                &&& 1real <= fourfold <= most ==> rate == fourfold
                &&& fourfold < 1real ==> rate == 1real
                &&& fourfold > most ==> rate == most
            }
        }),
{
    lemma_target_bounded(s);
    let target = s.current_target() as real;
    let minted = s.minted;
    let old_rate = s.rate;
    let most = u128::MAX as real;
    let factor = s.adjustment_factor(AdjustmentType::AdjustUp);
    let product = old_rate * factor;
    if minted > 0real {
        let ratio = target / minted;
        assert(target <= 4real * minted <==> ratio <= 4real) by (nonlinear_arith)
            requires
                ratio == target / minted,
                minted > 0real,
        ;
        if target <= 4real * minted {
            lemma_shares(old_rate, target, minted, most);
            if minted == target {
                assert(ratio == 1real) by (nonlinear_arith)
                    requires
                        ratio == target / minted,
                        minted == target,
                        minted > 0real,
                ;
                assert(product == old_rate) by (nonlinear_arith)
                    requires
                        product == old_rate * factor,
                        factor == 1real,
                ;
            }
        }
    }
}

/// How a rate times a ratio compares with its limits.
proof fn lemma_shares(rate: real, target: real, minted: real, most: real)
    requires
        minted > 0real,
    ensures
        (rate * (target / minted)) * minted == rate * target,
        rate * (target / minted) < 1real <==> rate * target < minted,
        rate * (target / minted) > most <==> rate * target > most * minted,
{
    let ratio = target / minted;
    let product = rate * ratio;
    let due = rate * target;
    assert(ratio * minted == target) by (nonlinear_arith)
        requires
            ratio == target / minted,
            minted > 0real,
    ;
    assert(product * minted == due) by (nonlinear_arith)
        requires
            product == rate * ratio,
            due == rate * target,
            ratio * minted == target,
    ;
    assert(product < 1real <==> due < minted) by (nonlinear_arith)
        requires
            product * minted == due,
            minted > 0real,
    ;
    assert(product > most <==> due > most * minted) by (nonlinear_arith)
        requires
            product * minted == due,
            minted > 0real,
    ;
}

/// A period that closes because it is full lowers the rate in proportion to the
/// time that it took: 500 times the new rate is the old rate times the blocks.
/// The rate falls to no less than a quarter, to which it falls where the period
/// took a quarter of its time or less, and stays between one and the largest
/// `u128`.
pub proof fn lemma_full_period_lowers_the_rate_by_its_time(s: PeriodState)
    ensures
        ({
            let rate = s.rolled(AdjustmentType::AdjustDown).rate;
            let blocks = (s.block_num - s.start) as real;
            let most = u128::MAX as real;
            let due = s.rate * blocks;
            &&& 1real <= rate <= most
            &&& blocks >= 125real ==> {
                &&& 500real <= due <= most * 500real ==> rate * 500real == due
                &&& due < 500real ==> rate == 1real
                &&& due > most * 500real ==> rate == most
            }
            &&& blocks < 125real ==> {
                &&& 4real <= s.rate <= most * 4real ==> rate * 4real == s.rate
                &&& s.rate < 4real ==> rate == 1real
                &&& s.rate > most * 4real ==> rate == most
            }
        }),
{
    let blocks = s.elapsed() as real;
    let old_rate = s.rate;
    let most = u128::MAX as real;
    let ratio = blocks / 500real;
    assert(ratio >= 1real / 4real <==> blocks >= 125real) by (nonlinear_arith)
        requires
            ratio == blocks / 500real,
    ;
    if blocks >= 125real {
        lemma_shares(old_rate, blocks, 500real, most);
    } else {
        lemma_shares(old_rate, 1real, 4real, most);
        assert(old_rate * 1real == old_rate);
    }
}

/// A recorded number is the largest integer within the amount, held between zero
/// and the largest `u128`.
pub proof fn lemma_record_is_rounded_down(x: real)
    ensures
        x < 0real ==> saturated(x) == 0,
        0real <= x < u128::MAX as real + 1real ==> saturated(x) as real <= x < saturated(x) as real
            + 1real,
        x >= u128::MAX as real ==> saturated(x) == u128::MAX,
{
    let f = x.floor();
    assert(f as real <= x < f as real + 1real);
    if 0real <= x < u128::MAX as real + 1real {
        assert(0 <= f <= u128::MAX);
    }
    if x >= u128::MAX as real {
        assert(f >= u128::MAX);
    }
}

/// Recorded amounts are recorded one by one.
pub proof fn lemma_records_are_rounded_down(amounts: Seq<real>, i: int)
    requires
        0 <= i < amounts.len(),
    ensures
        all_saturated(amounts).len() == amounts.len(),
        amounts[i] < 0real ==> all_saturated(amounts)[i] == 0,
        0real <= amounts[i] < u128::MAX as real + 1real ==> all_saturated(amounts)[i] as real
            <= amounts[i] < all_saturated(amounts)[i] as real + 1real,
        amounts[i] >= u128::MAX as real ==> all_saturated(amounts)[i] == u128::MAX,
{
    lemma_record_is_rounded_down(amounts[i]);
}

} // verus!
