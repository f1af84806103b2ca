//! What holds of FCT issuance as a whole.
use vstd::arithmetic::power2::*;
use vstd::prelude::*;

use crate::issuance::{
    burn_left, capped_rate, consume, consume_all, halving_level, lemma_burning_advances,
    lemma_burning_keeps_valid, lemma_halving_level_exists, lemma_thresholds_rise, max_rate,
    max_up_factor, min_rate, mint_block, opened, period_length, saturated, AdjustmentType,
    MintFault, PeriodState,
};

verus! {

/// A burn mints no negative amount; all of it is added to the total; and it
/// leaves sensible numbers in a period under the same rules.
pub proof fn lemma_burn_adds_up(s: PeriodState, eth: real)
    requires
        s.valid(),
        eth >= 0real,
        consume(s, eth) is Ok,
    ensures
        consume(s, eth) matches Ok((end, minted)) && {
            &&& minted >= 0real
            &&& end.total == s.total + minted
            &&& end.valid()
            &&& end.block_num == s.block_num
            &&& end.max_supply == s.max_supply
            &&& end.target == s.target
            &&& end.start == s.start || end.start == s.block_num
        },
    decreases burn_left(eth), s.supply_left(), s.closings_due(),
{
    if eth > 0real && !s.exhausted() {
        let amount = s.amount(eth);
        lemma_burning_keeps_valid(s, eth);
        lemma_burning_advances(s, eth);
        lemma_burn_adds_up(s.credited(amount).settled(), eth - amount / s.rate);
    }
}

/// Minting never goes beyond the maximum supply, and stops once it is there.
pub proof fn lemma_supply_is_capped(s: PeriodState, eth: real)
    requires
        s.valid(),
        eth >= 0real,
        consume(s, eth) is Ok,
    ensures
        consume(s, eth) matches Ok((end, minted)) && {
            &&& s.total <= s.max_supply as real ==> end.total <= s.max_supply as real
            &&& s.exhausted() ==> end == s && minted == 0real
        },
    decreases burn_left(eth), s.supply_left(), s.closings_due(),
{
    if eth > 0real && !s.exhausted() {
        let amount = s.amount(eth);
        lemma_burning_keeps_valid(s, eth);
        lemma_burning_advances(s, eth);
        lemma_supply_is_capped(s.credited(amount).settled(), eth - amount / s.rate);
    }
}

/// Without a burn nothing is minted and nothing changes.
pub proof fn lemma_no_burn_no_mint(s: PeriodState)
    ensures
        consume(s, 0real) == Ok::<_, MintFault>((s, 0real)),
{
}

/// A burn leaves a period with room for at least one more FCT: a full one is
/// closed on the spot.
pub proof fn lemma_full_periods_close(s: PeriodState, eth: real)
    requires
        s.valid(),
        eth > 0real,
        !s.exhausted(),
        consume(s, eth) is Ok,
    ensures
        consume(s, eth) matches Ok((end, _)) && end.quota() > 0,
    decreases s.supply_left(), s.closings_due(),
{
    let amount = s.amount(eth);
    lemma_burning_keeps_valid(s, eth);
    lemma_burning_advances(s, eth);
    let next = s.credited(amount).settled();
    let left = eth - amount / s.rate;
    if left > 0real && !next.exhausted() {
        lemma_full_periods_close(next, left);
    }
}

/// An adjustment leaves the rate within its limits.
pub proof fn lemma_rate_is_capped(rate: real, factor: real)
    ensures
        min_rate() <= capped_rate(rate, factor) <= max_rate(),
{
}

/// A burn leaves the rate alone or within its limits.
pub proof fn lemma_burn_keeps_rate_capped(s: PeriodState, eth: real)
    requires
        s.valid(),
        eth >= 0real,
        consume(s, eth) is Ok,
    ensures
        consume(s, eth) matches Ok((end, _)) && (end.rate == s.rate || min_rate() <= end.rate
            <= max_rate()),
    decreases burn_left(eth), s.supply_left(), s.closings_due(),
{
    if eth > 0real && !s.exhausted() {
        let amount = s.amount(eth);
        lemma_burning_keeps_valid(s, eth);
        lemma_burning_advances(s, eth);
        lemma_burn_keeps_rate_capped(s.credited(amount).settled(), eth - amount / s.rate);
    }
}

/// Closing a full period within its time does not raise the rate.
proof fn lemma_down_is_down(s: PeriodState)
    requires
        s.rate >= min_rate(),
        0 <= s.elapsed() <= period_length(),
    ensures
        s.rolled(AdjustmentType::AdjustDown).rate <= s.rate,
{
    let factor = s.adjustment_factor(AdjustmentType::AdjustDown);
    let rate = s.rate;
    let ratio = s.elapsed() as real / period_length() as real;
    assert(ratio <= 1real) by (nonlinear_arith)
        requires
            ratio == s.elapsed() as real / 500real,
            s.elapsed() <= 500,
    ;
    assert(rate * factor <= rate) by (nonlinear_arith)
        requires
            rate >= 1real,
            factor <= 1real,
    ;
}

/// While the period is within its time, a burn mints at most what the rate at
/// its start gives, and does not raise the rate.
pub proof fn lemma_burn_mints_at_most_the_rate(s: PeriodState, eth: real)
    requires
        s.valid(),
        s.rate >= min_rate(),
        s.elapsed() <= period_length(),
        eth >= 0real,
        consume(s, eth) is Ok,
    ensures
        consume(s, eth) matches Ok((end, minted)) && minted <= eth * s.rate && end.rate <= s.rate,
    decreases burn_left(eth), s.supply_left(), s.closings_due(),
{
    let rate = s.rate;
    if eth > 0real && !s.exhausted() {
        let amount = s.amount(eth);
        lemma_burning_keeps_valid(s, eth);
        lemma_burning_advances(s, eth);
        let after = s.credited(amount);
        let next = after.settled();
        let left = eth - amount / rate;
        lemma_down_is_down(after);
        lemma_burn_mints_at_most_the_rate(next, left);
        let more = consume(next, left)->Ok_0.1;
        let rate2 = next.rate;
        assert(left * rate2 <= left * rate) by (nonlinear_arith)
            requires
                left >= 0real,
                rate2 <= rate,
        ;
        assert(amount + (eth - amount / rate) * rate == eth * rate) by (nonlinear_arith)
            requires
                rate > 0real,
        ;
    } else {
        assert(eth * rate >= 0real) by (nonlinear_arith)
            requires
                eth >= 0real,
                rate >= 1real,
        ;
    }
}

/// A burn mints at least one FCT for every wei, unless the supply runs out.
pub proof fn lemma_burn_mints_at_least_the_minimum(s: PeriodState, eth: real)
    requires
        s.valid(),
        s.rate >= min_rate(),
        eth >= 0real,
        consume(s, eth) is Ok,
    ensures
        consume(s, eth) matches Ok((end, minted)) && (minted >= eth * min_rate()
            || end.exhausted()),
    decreases burn_left(eth), s.supply_left(), s.closings_due(),
{
    if eth > 0real && !s.exhausted() {
        let amount = s.amount(eth);
        let rate = s.rate;
        lemma_burning_keeps_valid(s, eth);
        lemma_burning_advances(s, eth);
        lemma_burn_mints_at_least_the_minimum(
            s.credited(amount).settled(),
            eth - amount / rate,
        );
        assert(amount / rate <= amount) by (nonlinear_arith)
            requires
                amount >= 0real,
                rate >= 1real,
        ;
    }
}

/// A burn that fits the period's quota and the supply mints exactly what the
/// rate gives.
pub proof fn lemma_burn_within_quota(s: PeriodState, eth: real)
    requires
        s.valid(),
        eth > 0real,
        s.rate > 0real,
        !s.exhausted(),
        eth * s.rate <= s.quota() as real,
        eth * s.rate <= s.supply_left() as real,
        s.level_fits(),
        s.credited(eth * s.rate).level_fits(),
    ensures
        consume(s, eth) == Ok::<_, MintFault>(
            (s.credited(eth * s.rate).settled(), eth * s.rate),
        ),
{
    let rate = s.rate;
    assert(eth * rate > 0real) by (nonlinear_arith)
        requires
            eth > 0real,
            rate > 0real,
    ;
    assert(eth - (eth * rate) / rate == 0real) by (nonlinear_arith)
        requires
            rate > 0real,
    ;
    assert(s.amount(eth) == eth * rate);
    lemma_no_burn_no_mint(s.credited(eth * rate).settled());
}

/// `x` is an integer.
#[verifier::opaque]
pub open spec fn is_whole(x: real) -> bool {
    x == x.floor() as real
}

/// An integer is its own floor.
pub proof fn lemma_integer_is_whole(n: int)
    ensures
        is_whole(n as real),
        (n as real).floor() == n,
{
    reveal(is_whole);
    let x = n as real;
    let f = x.floor();
    assert(f as real <= x < f as real + 1real);
    assert(f <= n < f + 1);
}

/// A sum of integers is an integer.
pub proof fn lemma_whole_sum(x: real, n: int)
    requires
        is_whole(x),
    ensures
        is_whole(x + n as real),
{
    reveal(is_whole);
    lemma_integer_is_whole(x.floor() + n);
}

/// Where the total is a whole number, so is what is left.
proof fn lemma_whole_supply(s: PeriodState)
    requires
        is_whole(s.total),
        !s.exhausted(),
    ensures
        s.supply_left() > 0,
{
    reveal(is_whole);
    let m = s.total.floor();
    assert(s.max_supply as real - s.total == (s.max_supply - m) as real);
}

/// A go that does not use the burn up leaves a whole total whole.
proof fn lemma_whole_step(s: PeriodState, eth: real)
    requires
        is_whole(s.total),
        s.rate > 0real,
        eth - s.amount(eth) / s.rate > 0real,
    ensures
        is_whole(s.credited(s.amount(eth)).settled().total),
{
    let rate = s.rate;
    assert(eth - (eth * rate) / rate == 0real) by (nonlinear_arith)
        requires
            rate > 0real,
    ;
    lemma_whole_sum(s.total, s.quota());
    lemma_whole_sum(s.total, s.supply_left());
}

/// A burn never stalls if the total before it is a whole number.
pub proof fn lemma_whole_total_never_stalls(s: PeriodState, eth: real)
    requires
        s.valid(),
        eth >= 0real,
        is_whole(s.total),
    ensures
        consume(s, eth) != Err::<(PeriodState, real), _>(MintFault::Stalled),
    decreases burn_left(eth), s.supply_left(), s.closings_due(),
{
    if eth > 0real && !s.exhausted() && s.rate > 0real {
        lemma_whole_supply(s);
        let next = s.credited(s.amount(eth)).settled();
        let left = eth - s.amount(eth) / s.rate;
        lemma_burning_keeps_valid(s, eth);
        lemma_burning_advances(s, eth);
        if left > 0real {
            lemma_whole_step(s, eth);
            lemma_whole_total_never_stalls(next, left);
        } else {
            assert(consume(next, left) is Ok);
        }
    }
}

/// More minted means as many halvings or more, as long as the supply lasts.
pub proof fn lemma_level_rises(total: real, more: real, max_supply: int)
    requires
        0real <= total <= more,
        more < max_supply as real,
    ensures
        halving_level(total, max_supply) <= halving_level(more, max_supply),
{
    lemma_halving_level_exists(total, max_supply);
    lemma_halving_level_exists(more, max_supply);
    let a = halving_level(total, max_supply);
    let b = halving_level(more, max_supply);
    if b < a {
        lemma_thresholds_rise(max_supply, b + 1, a);
    }
}

/// The target of a period falls as minting goes on, as long as the supply lasts.
pub proof fn lemma_target_falls(s: PeriodState, t: PeriodState)
    requires
        s.valid(),
        t.valid(),
        t.max_supply == s.max_supply,
        t.target == s.target,
        s.total <= t.total,
        !t.exhausted(),
    ensures
        1 <= t.current_target() <= s.current_target(),
{
    lemma_level_rises(s.total, t.total, s.max_supply);
    let a = s.level();
    let b = t.level();
    lemma_pow2_pos(a);
    lemma_pow2_pos(b);
    if a < b {
        lemma_pow2_strictly_increases(a, b);
    }
    let target = s.target as real;
    let p = pow2(a) as real;
    let q = pow2(b) as real;
    assert(target / q <= target / p) by (nonlinear_arith)
        requires
            target >= 0real,
            0real < p <= q,
    ;
}

/// The sum of some amounts.
pub open spec fn total_of(amounts: Seq<real>) -> real
    decreases amounts.len(),
{
    if amounts.len() == 0 {
        0real
    } else {
        total_of(amounts.drop_last()) + amounts.last()
    }
}

/// No burn is negative.
pub open spec fn are_burns(burns: Seq<int>) -> bool {
    forall|i: int| 0 <= i < burns.len() ==> 0 <= #[trigger] burns[i]
}

/// A period that has run its full length is closed before a block mints, and
/// no other is.
pub proof fn lemma_block_opens_a_period(s: PeriodState)
    requires
        s.valid(),
    ensures
        s.elapsed() < period_length() ==> opened(s) == Ok::<_, MintFault>(s),
        opened(s) matches Ok(period) ==> {
            &&& period.valid()
            &&& period.elapsed() < period_length()
            &&& period.block_num == s.block_num
            &&& period.max_supply == s.max_supply
            &&& period.target == s.target
            &&& period.total == s.total
            &&& s.elapsed() >= period_length() ==> {
                &&& period.start == s.block_num
                &&& period.minted == 0real
                &&& min_rate() <= period.rate <= max_rate()
                &&& s.rate >= min_rate() / max_up_factor() ==> period.rate <= s.rate
                    * max_up_factor()
            }
        },
{
    if s.elapsed() >= period_length() {
        let rate = s.rate;
        let factor = s.adjustment_factor(AdjustmentType::AdjustUp);
        assert(rate * factor <= rate * 4real) by (nonlinear_arith)
            requires
                rate >= 0real,
                factor <= 4real,
        ;
    }
}

/// What `lemma_block_adds_up` states, of the burns in an open period.
proof fn lemma_burns_add_up(s: PeriodState, burns: Seq<int>)
    requires
        s.valid(),
        s.elapsed() < period_length(),
        are_burns(burns),
        consume_all(s, burns) is Ok,
    ensures
        consume_all(s, burns) matches Ok((end, mints)) && {
            &&& mints.len() == burns.len()
            &&& forall|i: int| 0 <= i < mints.len() ==> #[trigger] mints[i] >= 0real
            &&& end.total == s.total + total_of(mints)
            &&& s.total <= s.max_supply as real ==> end.total <= s.max_supply as real
            &&& s.exhausted() ==> end == s && forall|i: int|
                0 <= i < mints.len() ==> #[trigger] mints[i] == 0real
            &&& end.valid()
            &&& end.elapsed() < period_length()
            &&& end.block_num == s.block_num
            &&& end.max_supply == s.max_supply
            &&& end.target == s.target
            &&& end.start == s.start || end.start == s.block_num
            &&& end.rate == s.rate || min_rate() <= end.rate <= max_rate()
        },
    decreases burns.len(),
{
    if burns.len() > 0 {
        let first = burns.drop_last();
        assert forall|i: int| 0 <= i < first.len() implies 0 <= #[trigger] first[i] by {
            assert(first[i] == burns[i]);
        }
        lemma_burns_add_up(s, first);
        let (mid, before) = consume_all(s, first)->Ok_0;
        let eth = burns[burns.len() - 1] as real;
        lemma_burn_adds_up(mid, eth);
        lemma_supply_is_capped(mid, eth);
        lemma_burn_keeps_rate_capped(mid, eth);
        let mints = consume_all(s, burns)->Ok_0.1;
        assert(mints.drop_last() =~= before);
    }
}

/// A block mints no negative amount for any burn; the total grows by the sum
/// of what it mints and stays within the maximum supply; nothing is minted once
/// that is reached; and the block ends in a period that is younger than a
/// period's length, at the same rate as it began or one within the limits.
pub proof fn lemma_block_adds_up(s: PeriodState, burns: Seq<int>)
    requires
        s.valid(),
        are_burns(burns),
        mint_block(s, burns) is Ok,
    ensures
        mint_block(s, burns) matches Ok((end, mints)) && {
            &&& mints.len() == burns.len()
            &&& forall|i: int| 0 <= i < mints.len() ==> #[trigger] mints[i] >= 0real
            &&& end.total == s.total + total_of(mints)
            &&& s.total <= s.max_supply as real ==> end.total <= s.max_supply as real
            &&& s.exhausted() ==> forall|i: int|
                0 <= i < mints.len() ==> #[trigger] mints[i] == 0real
            &&& end.valid()
            &&& end.elapsed() < period_length()
            &&& end.block_num == s.block_num
            &&& end.max_supply == s.max_supply
            &&& end.target == s.target
            &&& end.start == s.start || end.start == s.block_num
            &&& end.rate == s.rate || min_rate() <= end.rate <= max_rate()
        },
{
    lemma_block_opens_a_period(s);
    lemma_burns_add_up(opened(s)->Ok_0, burns);
}

/// A burn at a positive rate never finds the rate at zero.
proof fn lemma_positive_rate_burns(s: PeriodState, eth: real)
    requires
        s.valid(),
        s.rate > 0real,
        eth >= 0real,
    ensures
        consume(s, eth) != Err::<(PeriodState, real), _>(MintFault::ZeroRate),
        consume(s, eth) matches Ok((end, _)) ==> end.valid() && end.rate > 0real,
    decreases burn_left(eth), s.supply_left(), s.closings_due(),
{
    if eth > 0real && !s.exhausted() && s.supply_left() != 0 {
        let amount = s.amount(eth);
        lemma_burning_keeps_valid(s, eth);
        lemma_burning_advances(s, eth);
        lemma_positive_rate_burns(s.credited(amount).settled(), eth - amount / s.rate);
    }
}

/// Burns that start at a positive rate never find the rate at zero.
pub proof fn lemma_positive_rate_stays(s: PeriodState, burns: Seq<int>)
    requires
        s.valid(),
        s.rate > 0real,
        are_burns(burns),
    ensures
        consume_all(s, burns) != Err::<(PeriodState, Seq<real>), _>(MintFault::ZeroRate),
        consume_all(s, burns) matches Ok((end, _)) ==> end.valid() && end.rate > 0real,
    decreases burns.len(),
{
    if burns.len() > 0 {
        let first = burns.drop_last();
        assert forall|i: int| 0 <= i < first.len() implies 0 <= #[trigger] first[i] by {
            assert(first[i] == burns[i]);
        }
        lemma_positive_rate_stays(s, first);
        if let Ok((mid, _)) = consume_all(s, first) {
            lemma_positive_rate_burns(mid, burns[burns.len() - 1] as real);
        }
    }
}

/// Once the rate is within its limits, every block finds it above zero and
/// leaves it within them.
pub proof fn lemma_rate_stays_capped(s: PeriodState, burns: Seq<int>)
    requires
        s.valid(),
        are_burns(burns),
        min_rate() <= s.rate <= max_rate(),
    ensures
        mint_block(s, burns) != Err::<(PeriodState, Seq<real>), _>(MintFault::ZeroRate),
        mint_block(s, burns) matches Ok((end, _)) ==> min_rate() <= end.rate <= max_rate(),
{
    lemma_block_opens_a_period(s);
    if let Ok(period) = opened(s) {
        lemma_positive_rate_stays(period, burns);
    }
    if mint_block(s, burns) is Ok {
        lemma_block_adds_up(s, burns);
    }
}

/// What a burn does to an open period: where it does not close it, it keeps the
/// rate and adds what it mints to the period, which stays within any bound that
/// the target keeps to.
proof fn lemma_burn_in_open_period(s: PeriodState, eth: real, bound: int)
    requires
        s.valid(),
        eth >= 0real,
        consume(s, eth) is Ok,
        s.minted <= bound as real,
        s.target <= bound,
        bound >= 1,
    ensures
        consume(s, eth) matches Ok((end, minted)) && {
            &&& s.start == s.block_num ==> end.start == s.block_num
            &&& end.minted <= bound as real
            &&& end.start != s.block_num ==> {
                &&& end.start == s.start
                &&& end.rate == s.rate
                &&& end.minted == s.minted + minted
            }
        },
    decreases burn_left(eth), s.supply_left(), s.closings_due(),
{
    if eth > 0real && !s.exhausted() {
        let amount = s.amount(eth);
        let after = s.credited(amount);
        lemma_burning_keeps_valid(s, eth);
        lemma_burning_advances(s, eth);
        lemma_quota_bounds_minting(s, eth, bound);
        lemma_burn_in_open_period(after.settled(), eth - amount / s.rate, bound);
    }
}

/// The target of a period is within the target before any halving, or one.
pub proof fn lemma_target_bounded(s: PeriodState)
    requires
        s.target >= 0,
    ensures
        1 <= s.current_target(),
        s.current_target() <= s.target || s.current_target() == 1,
{
    let p = pow2(s.level()) as real;
    lemma_pow2_pos(s.level());
    let target = s.target as real;
    let halved = target / p;
    assert(halved <= target) by (nonlinear_arith)
        requires
            halved == target / p,
            p >= 1real,
            target >= 0real,
    ;
    let f = halved.floor();
    assert(f as real <= halved < f as real + 1real);
    assert(halved > 1real ==> 1 <= f <= s.target);
}

/// One go at burning takes a period no further than its target.
proof fn lemma_quota_bounds_minting(s: PeriodState, eth: real, bound: int)
    requires
        s.valid(),
        s.minted <= bound as real,
        s.target <= bound,
        bound >= 1,
    ensures
        s.minted + s.amount(eth) <= bound as real,
{
    lemma_target_bounded(s);
    let room = s.current_target() as real - s.minted;
    let f = room.floor();
    assert(f as real <= room < f as real + 1real);
}

/// What `lemma_block_in_open_period` states, of the burns in an open period.
proof fn lemma_burns_in_open_period(s: PeriodState, burns: Seq<int>, bound: int)
    requires
        s.valid(),
        s.elapsed() < period_length(),
        are_burns(burns),
        consume_all(s, burns) is Ok,
        s.minted <= bound as real,
        s.target <= bound,
        bound >= 1,
    ensures
        consume_all(s, burns) matches Ok((end, mints)) && {
            &&& s.start == s.block_num ==> end.start == s.block_num
            &&& end.minted <= bound as real
            &&& end.start != s.block_num ==> {
                &&& end.start == s.start
                &&& end.rate == s.rate
                &&& end.minted == s.minted + total_of(mints)
            }
        },
    decreases burns.len(),
{
    if burns.len() > 0 {
        let first = burns.drop_last();
        assert forall|i: int| 0 <= i < first.len() implies 0 <= #[trigger] first[i] by {
            assert(first[i] == burns[i]);
        }
        lemma_burns_in_open_period(s, first, bound);
        lemma_burns_add_up(s, first);
        let (mid, before) = consume_all(s, first)->Ok_0;
        assert(burns[burns.len() - 1] >= 0);
        lemma_burn_in_open_period(mid, burns.last() as real, bound);
        let mints = consume_all(s, burns)->Ok_0.1;
        assert(mints.drop_last() =~= before);
    }
}

/// A block that closes no period keeps the rate and raises what is minted in the
/// period as much as the total. What a block leaves minted in the period is
/// within any bound that the target keeps to, if it was before.
pub proof fn lemma_block_in_open_period(s: PeriodState, burns: Seq<int>, bound: int)
    requires
        s.valid(),
        are_burns(burns),
        mint_block(s, burns) is Ok,
        s.minted <= bound as real,
        s.target <= bound,
        bound >= 1,
    ensures
        mint_block(s, burns) matches Ok((end, mints)) && {
            &&& end.minted <= bound as real
            &&& end.start != s.block_num ==> {
                &&& end.start == s.start
                &&& end.rate == s.rate
                &&& end.minted - s.minted == end.total - s.total
            }
        },
{
    lemma_block_opens_a_period(s);
    let period = opened(s)->Ok_0;
    lemma_burns_in_open_period(period, burns, bound);
    lemma_block_adds_up(s, burns);
}

/// Within the limits, what a block leaves behind is recorded without loss but
/// for its fraction.
pub proof fn lemma_record_is_faithful(x: real)
    requires
        0real <= x <= max_rate(),
    ensures
        saturated(x) == x.floor(),
{
    let f = x.floor();
    assert(f as real <= x < f as real + 1real);
    assert(0 <= f <= u128::MAX);
}

/// With one burn in a block, from a whole total within the supply, the recorded
/// total grows by exactly the amount that the transaction is credited with.
pub proof fn lemma_single_burn_record(s: PeriodState, burn: int)
    requires
        s.valid(),
        burn >= 0,
        is_whole(s.total),
        s.total <= s.max_supply as real,
        s.max_supply <= u128::MAX,
        mint_block(s, seq![burn]) is Ok,
    ensures
        mint_block(s, seq![burn]) matches Ok((end, mints)) && saturated(end.total)
            == s.total.floor() + saturated(mints[0]),
{
    reveal(is_whole);
    lemma_block_adds_up(s, seq![burn]);
    let (end, mints) = mint_block(s, seq![burn])->Ok_0;
    assert(mints.drop_last().len() == 0);
    assert(total_of(mints.drop_last()) == 0real);
    assert(total_of(mints) == mints[0]);
    lemma_record_is_faithful(end.total);
    lemma_record_is_faithful(mints[0]);
    let f = mints[0].floor();
    let t = s.total.floor();
    let g = end.total.floor();
    assert(f as real <= mints[0] < f as real + 1real);
    assert(g as real <= end.total < g as real + 1real);
    assert((t + f) as real <= end.total < (t + f) as real + 1real);
    assert(g < t + f + 1);
    assert(t + f < g + 1);
}

} // verus!
