//! Why no block counts more halvings than a `u32` holds.
//!
//! A block starts from whole numbers, and its rates are fractions whose terms
//! are bounded. So is the fraction that is left of the supply: it cannot come
//! close enough to nothing to cross that many thresholds.
use vstd::arithmetic::mul::{
    lemma_mul_is_commutative, lemma_mul_strictly_positive, lemma_mul_upper_bound,
};
use vstd::arithmetic::power2::*;
use vstd::prelude::*;

use crate::issuance::{
    burn_left, capped_rate, consume, consume_all, halving_level, lemma_burning_advances,
    lemma_burning_keeps_valid, lemma_crossed, lemma_halving_level_exists, max_rate, min_rate,
    mint_block, period_length, AdjustmentType, MintFault, PeriodState,
};
use crate::issuance_laws::{
    are_burns, is_whole, lemma_integer_is_whole, lemma_target_bounded, lemma_whole_sum,
};

verus! {

/// Two integers have the same product among the reals.
proof fn lemma_integer_product(m: int, n: int)
    ensures
        m as real * n as real == (m * n) as real,
        is_whole(m as real * n as real),
{
    assert(m as real * n as real == (m * n) as real) by (nonlinear_arith);
    lemma_integer_is_whole(m * n);
}

/// A product of integers is an integer.
proof fn lemma_whole_product(x: real, y: real)
    requires
        is_whole(x),
        is_whole(y),
    ensures
        is_whole(x * y),
{
    reveal(is_whole);
    let m = x.floor();
    let n = y.floor();
    lemma_integer_product(m, n);
}

/// A difference of integers is an integer.
proof fn lemma_whole_difference(x: real, y: real)
    requires
        is_whole(x),
        is_whole(y),
    ensures
        is_whole(x - y),
{
    reveal(is_whole);
    let m = x.floor();
    let n = y.floor();
    assert(m as real - n as real == (m - n) as real);
    lemma_integer_is_whole(m - n);
}

/// A sum of integers is an integer.
proof fn lemma_whole_addition(x: real, y: real)
    requires
        is_whole(x),
        is_whole(y),
    ensures
        is_whole(x + y),
{
    reveal(is_whole);
    lemma_whole_sum(x, y.floor());
}

/// A positive integer is at least one.
proof fn lemma_whole_positive(x: real)
    requires
        is_whole(x),
        x > 0real,
    ensures
        x >= 1real,
{
    reveal(is_whole);
    let n = x.floor();
    assert(n as real == x);
    assert(n >= 1);
}

/// A power of two within another has the lower exponent.
proof fn lemma_exponent_bounded(k: nat, bits: nat, n: int)
    requires
        pow2(k) as real <= n as real,
        n <= pow2(bits),
    ensures
        k <= bits,
{
    assert(pow2(k) <= n);
    if bits < k {
        lemma_pow2_strictly_increases(bits, k);
    }
}

/// Where the total is a multiple of some fraction, the halvings are no more
/// than that fraction of the maximum supply has binary digits.
proof fn lemma_level_bounded(s: PeriodState, grain: int, bits: nat)
    requires
        s.valid(),
        grain > 0,
        is_whole(s.total * grain as real),
        s.max_supply * grain <= pow2(bits),
    ensures
        s.level() <= bits,
{
    if !s.exhausted() {
        let k = s.level();
        let g = grain as real;
        let max = s.max_supply as real;
        let left = max - s.total;
        lemma_halving_level_exists(s.total, s.max_supply);
        lemma_crossed(s.total, s.max_supply, k);
        lemma_pow2_pos(k);
        lemma_integer_product(s.max_supply, grain);
        lemma_whole_difference(max * g, s.total * g);
        assert(left * g == max * g - s.total * g) by (nonlinear_arith)
            requires
                left == max - s.total,
        ;
        assert(left * g > 0real) by (nonlinear_arith)
            requires
                left > 0real,
                g > 0real,
        ;
        lemma_whole_positive(left * g);
        let p = pow2(k) as real;
        assert(p <= max * g) by (nonlinear_arith)
            requires
                left * p <= max,
                left * g >= 1real,
                p > 0real,
                g > 0real,
        ;
        lemma_exponent_bounded(k, bits, s.max_supply * grain);
    }
}

/// The rate once `top` has been quartered `i` times.
spec fn rung(top: real, i: nat) -> real {
    top / pow2(2 * i) as real
}

/// `rate` comes of quartering `top`, or is the lowest rate there is.
spec fn on_ladder(rate: real, top: real) -> bool {
    rate == min_rate() || exists|i: nat| i <= 64 && rate == #[trigger] rung(top, i)
}

/// A burn at `rate` keeps amounts of ether multiples of one `c`-th, and amounts
/// of FCT multiples of one `c * d`-th.
spec fn is_fine(rate: real, c: int, d: int) -> bool {
    &&& rate > 0real
    &&& is_whole(c as real / rate)
    &&& is_whole(rate * d as real)
}

/// What stays of the fractions in a block: `top` is the rate that the first
/// period closed in it leaves.
spec fn is_grained(s: PeriodState, top: real, c: int, d: int) -> bool {
    &&& s.valid()
    &&& c > 0
    &&& d > 0
    &&& is_fine(top, c, d)
    &&& min_rate() <= top <= max_rate()
    &&& is_whole(s.total * (c * d * pow2(128)) as real)
    &&& {
        ||| s.start == s.block_num && on_ladder(s.rate, top)
        ||| is_fine(s.rate, c, d) && s.rolled(AdjustmentType::AdjustDown).rate == top
    }
}

/// Every rung is fine enough for a grain with as many quarters as the ladder
/// has rungs.
proof fn lemma_ladder_is_fine(rate: real, top: real, c: int, d: int)
    requires
        c > 0,
        d > 0,
        is_fine(top, c, d),
        on_ladder(rate, top),
    ensures
        is_fine(rate, c, d * pow2(128)),
{
    let p = pow2(128);
    lemma_pow2_pos(128);
    assert(d * p > 0) by (nonlinear_arith)
        requires
            d > 0,
            p > 0,
    ;
    if rate == min_rate() {
        lemma_integer_is_whole(c);
        lemma_integer_is_whole(d * p);
        assert(c as real / 1real == c as real);
        assert(1real * (d * p) as real == (d * p) as real);
    } else {
        let i = choose|i: nat| i <= 64 && rate == #[trigger] rung(top, i);
        let q = pow2(2 * i);
        let rest = pow2((128 - 2 * i) as nat);
        lemma_pow2_pos(2 * i);
        lemma_pow2_adds(2 * i, (128 - 2 * i) as nat);
        lemma_integer_is_whole(q as int);
        lemma_integer_is_whole(rest as int);
        let cr = c as real;
        let dr = d as real;
        let pr = p as real;
        let qr = q as real;
        let rr = rest as real;
        assert(qr * rr == pr) by (nonlinear_arith)
            requires
                q * rest == p,
                qr == q as real,
                rr == rest as real,
                pr == p as real,
        ;
        lemma_integer_product(d, p as int);
        assert(rate > 0real) by (nonlinear_arith)
            requires
                rate == top / qr,
                top > 0real,
                qr > 0real,
        ;
        assert(cr / rate == (cr / top) * qr) by (nonlinear_arith)
            requires
                rate == top / qr,
                top > 0real,
                qr > 0real,
        ;
        lemma_whole_product(cr / top, qr);
        assert(rate * (dr * pr) == (top * dr) * rr) by (nonlinear_arith)
            requires
                rate == top / qr,
                qr > 0real,
                qr * rr == pr,
        ;
        lemma_whole_product(top * dr, rr);
    }
}

/// What is fine for a grain is fine for any multiple of it.
proof fn lemma_finer(rate: real, c: int, d: int, p: int)
    requires
        d > 0,
        is_fine(rate, c, d),
    ensures
        is_fine(rate, c, d * p),
{
    let dr = d as real;
    let pr = p as real;
    lemma_integer_product(d, p);
    assert(rate * (dr * pr) == (rate * dr) * pr) by (nonlinear_arith);
    lemma_integer_is_whole(p);
    lemma_whole_product(rate * dr, pr);
}

/// One quartering goes one rung down, or to the lowest rate.
proof fn lemma_ladder_goes_down(rate: real, top: real)
    requires
        on_ladder(rate, top),
        min_rate() <= top <= max_rate(),
    ensures
        on_ladder(capped_rate(rate, 1real / 4real), top),
{
    let next = capped_rate(rate, 1real / 4real);
    assert(rate * (1real / 4real) == rate / 4real) by (nonlinear_arith);
    if rate != min_rate() {
        let i = choose|i: nat| i <= 64 && rate == #[trigger] rung(top, i);
        let q = pow2(2 * i) as real;
        lemma_pow2_pos(2 * i);
        lemma_pow2_adds(2 * i, 2);
        lemma2_to64();
        assert(pow2(2 * (i + 1)) == 4 * pow2(2 * i));
        assert(top / (4real * q) == (top / q) / 4real) by (nonlinear_arith)
            requires
                q > 0real,
        ;
        assert(rung(top, i + 1) == rate / 4real);
        if rate / 4real > 1real {
            assert(4real * q < top) by (nonlinear_arith)
                requires
                    rate == top / q,
                    rate / 4real > 1real,
                    q > 0real,
            ;
            assert(pow2(2 * (i + 1)) < u128::MAX);
            lemma2_to64_rest();
            lemma_pow2_adds(64, 64);
            assert(pow2(128) == 0x10000000000000000 * 0x10000000000000000);
            if i >= 64 {
                lemma_pow2_strictly_increases(128, 2 * (i + 1));
            }
            assert(top / q <= top) by (nonlinear_arith)
                requires
                    q >= 1real,
                    top >= 0real,
            ;
            assert(next == rung(top, i + 1));
        }
    }
}

/// The rate of a period in a grained block is fine.
proof fn lemma_grained_rate(s: PeriodState, top: real, c: int, d: int)
    requires
        is_grained(s, top, c, d),
    ensures
        is_fine(s.rate, c, d * pow2(128)),
{
    if s.start == s.block_num && on_ladder(s.rate, top) {
        lemma_ladder_is_fine(s.rate, top, c, d);
    } else {
        lemma_finer(s.rate, c, d, pow2(128) as int);
    }
}

/// The amounts of one go at burning keep to the grain.
proof fn lemma_grained_amounts(s: PeriodState, eth: real, c: int, e: int)
    requires
        c > 0,
        e > 0,
        is_fine(s.rate, c, e),
        is_whole(eth * c as real),
        is_whole(s.total * (c * e) as real),
    ensures
        is_whole(s.credited(s.amount(eth)).total * (c * e) as real),
        is_whole((eth - s.amount(eth) / s.rate) * c as real),
{
    let amount = s.amount(eth);
    let rate = s.rate;
    let total = s.total;
    let cr = c as real;
    let er = e as real;
    lemma_integer_product(c, e);
    let more = amount * (cr * er);
    let part = (amount / rate) * cr;
    assert((total + amount) * (cr * er) == total * (cr * er) + more) by (nonlinear_arith)
        requires
            more == amount * (cr * er),
    ;
    assert((eth - amount / rate) * cr == eth * cr - part) by (nonlinear_arith)
        requires
            part == (amount / rate) * cr,
    ;
    if amount == eth * rate {
        assert(more == (eth * cr) * (rate * er)) by (nonlinear_arith)
            requires
                more == amount * (cr * er),
                amount == eth * rate,
        ;
        lemma_whole_product(eth * cr, rate * er);
        assert(part == eth * cr) by (nonlinear_arith)
            requires
                part == (amount / rate) * cr,
                amount == eth * rate,
                rate > 0real,
        ;
    } else {
        let n = if amount == s.quota() as real {
            s.quota()
        } else {
            s.supply_left()
        };
        assert(amount == n as real);
        lemma_integer_is_whole(n);
        lemma_whole_product(amount, cr * er);
        assert(part == amount * (cr / rate)) by (nonlinear_arith)
            requires
                part == (amount / rate) * cr,
                rate > 0real,
        ;
        lemma_whole_product(amount, cr / rate);
    }
    assert(is_whole(more));
    assert(is_whole(part));
    lemma_whole_difference(eth * cr, part);
    lemma_whole_addition(total * (cr * er), more);
}

/// One go at burning keeps to the grain.
proof fn lemma_grained_step(s: PeriodState, eth: real, top: real, c: int, d: int)
    requires
        is_grained(s, top, c, d),
        eth > 0real,
        is_whole(eth * c as real),
    ensures
        is_whole(s.credited(s.amount(eth)).total * (c * d * pow2(128)) as real),
        is_grained(s.credited(s.amount(eth)).settled(), top, c, d),
        is_whole((eth - s.amount(eth) / s.rate) * c as real),
{
    let p = pow2(128) as int;
    lemma_pow2_pos(128);
    lemma_grained_rate(s, top, c, d);
    assert(d * p > 0 && c * (d * p) == c * d * p) by (nonlinear_arith)
        requires
            d > 0,
            p > 0,
    ;
    lemma_grained_amounts(s, eth, c, d * p);
    lemma_burning_keeps_valid(s, eth);
    let after = s.credited(s.amount(eth));
    let next = after.settled();
    if after.quota() == 0 {
        assert(next.start == next.block_num);
        if s.start == s.block_num && on_ladder(s.rate, top) {
            lemma_ladder_goes_down(s.rate, top);
            let elapsed = after.elapsed() as real;
            assert(elapsed / 500real == 0real) by (nonlinear_arith)
                requires
                    elapsed == 0real,
            ;
        } else {
            assert(next.rate == top);
            lemma2_to64();
            assert(rung(top, 0) == top / 1real);
            assert(top / 1real == top);
            assert(on_ladder(next.rate, top));
        }
    }
}

/// The halvings fit the counter throughout a burn, which keeps to the grain.
proof fn lemma_grained_burn(s: PeriodState, eth: real, top: real, c: int, d: int, bits: nat)
    requires
        is_grained(s, top, c, d),
        eth >= 0real,
        is_whole(eth * c as real),
        s.max_supply * (c * d * pow2(128)) <= pow2(bits),
        bits <= u32::MAX,
    ensures
        consume(s, eth) != Err::<(PeriodState, real), _>(MintFault::TooManyHalvings),
        consume(s, eth) matches Ok((end, _)) ==> is_grained(end, top, c, d) && end.max_supply
            == s.max_supply,
    decreases burn_left(eth), s.supply_left(), s.closings_due(),
{
    let grain = c * d * pow2(128);
    lemma_pow2_pos(128);
    let p = pow2(128) as int;
    assert(c * d * p > 0) by (nonlinear_arith)
        requires
            c > 0,
            d > 0,
            p > 0,
    ;
    if eth > 0real && !s.exhausted() {
        lemma_level_bounded(s, grain, bits);
        lemma_grained_rate(s, top, c, d);
        if s.supply_left() != 0 {
            let after = s.credited(s.amount(eth));
            lemma_grained_step(s, eth, top, c, d);
            lemma_burning_keeps_valid(s, eth);
            lemma_burning_advances(s, eth);
            lemma_level_bounded(after, grain, bits);
            lemma_grained_burn(after.settled(), eth - s.amount(eth) / s.rate, top, c, d, bits);
        }
    }
}

/// The halvings fit the counter throughout burn after burn.
proof fn lemma_grained_burns(s: PeriodState, burns: Seq<int>, top: real, c: int, d: int, bits: nat)
    requires
        is_grained(s, top, c, d),
        are_burns(burns),
        s.max_supply * (c * d * pow2(128)) <= pow2(bits),
        bits <= u32::MAX,
    ensures
        consume_all(s, burns) != Err::<(PeriodState, Seq<real>), _>(MintFault::TooManyHalvings),
        consume_all(s, burns) matches Ok((end, _)) ==> is_grained(end, top, c, d)
            && end.max_supply == s.max_supply,
    decreases burns.len(),
{
    if burns.len() > 0 {
        let first = burns.drop_last();
        assert forall|i: int| 0 <= i < first.len() implies 0 <= #[trigger] first[i] by {
            assert(first[i] == burns[i]);
        }
        lemma_grained_burns(s, first, top, c, d, bits);
        if let Ok((mid, _)) = consume_all(s, first) {
            let burn = burns[burns.len() - 1];
            lemma_integer_product(burn, c);
            lemma_grained_burn(mid, burn as real, top, c, d, bits);
        }
    }
}

/// A product has at most as many binary digits as its factors together.
proof fn lemma_product_digits(m: int, n: int, a: nat, b: nat)
    requires
        0 < m <= pow2(a),
        0 < n <= pow2(b),
    ensures
        0 < m * n <= pow2(a + b),
{
    lemma_pow2_adds(a, b);
    lemma_mul_upper_bound(m, pow2(a) as int, n, pow2(b) as int);
    lemma_mul_strictly_positive(m, n);
}

/// Fewer digits are no more digits.
proof fn lemma_more_digits(n: int, a: nat, b: nat)
    requires
        n <= pow2(a),
        a <= b,
    ensures
        n <= pow2(b),
{
    if a < b {
        lemma_pow2_strictly_increases(a, b);
    }
}

/// `x` is the fraction `n / d`, and its terms have at most so many binary
/// digits.
#[verifier::opaque]
spec fn is_fraction(x: real, n: int, d: int, n_bits: nat, d_bits: nat) -> bool {
    &&& 0 < n <= pow2(n_bits)
    &&& 0 < d <= pow2(d_bits)
    &&& x * d as real == n as real
}

/// An integer is a fraction.
proof fn lemma_integer_fraction(n: int, n_bits: nat, d_bits: nat)
    requires
        0 < n <= pow2(n_bits),
    ensures
        is_fraction(n as real, n, 1, n_bits, d_bits),
{
    reveal(is_fraction);
    lemma_pow2_pos(d_bits);
    let x = n as real;
    assert(x * 1real == x);
}

/// One integer over another is a fraction.
proof fn lemma_quotient_fraction(n: int, d: int, n_bits: nat, d_bits: nat)
    requires
        0 < n <= pow2(n_bits),
        0 < d <= pow2(d_bits),
    ensures
        is_fraction(n as real / d as real, n, d, n_bits, d_bits),
{
    reveal(is_fraction);
    let nr = n as real;
    let dr = d as real;
    assert((nr / dr) * dr == nr) by (nonlinear_arith)
        requires
            dr > 0real,
    ;
}

/// Four factors may be paired either way.
proof fn lemma_pairing(x: real, y: real, d: real, e: real)
    ensures
        (x * y) * (d * e) == (x * d) * (y * e),
{
    let product = x * y;
    assert(product * (d * e) == (x * d) * (y * e)) by (nonlinear_arith)
        requires
            product == x * y,
    ;
}

/// A fraction times a fraction is a fraction.
proof fn lemma_fraction_product(
    x: real,
    n: int,
    d: int,
    n_bits: nat,
    d_bits: nat,
    y: real,
    m: int,
    e: int,
    m_bits: nat,
    e_bits: nat,
)
    requires
        is_fraction(x, n, d, n_bits, d_bits),
        is_fraction(y, m, e, m_bits, e_bits),
    ensures
        is_fraction(x * y, n * m, d * e, n_bits + m_bits, d_bits + e_bits),
{
    reveal(is_fraction);
    lemma_product_digits(n, m, n_bits, m_bits);
    lemma_product_digits(d, e, d_bits, e_bits);
    lemma_integer_product(n, m);
    lemma_integer_product(d, e);
    lemma_pairing(x, y, d as real, e as real);
}

/// What the machine's unsigned integers hold.
proof fn lemma_machine_digits()
    ensures
        pow2(128) == u128::MAX + 1,
        pow2(64) == u64::MAX + 1,
        pow2(9) == 512,
        pow2(2) == 4,
        pow2(0) == 1,
{
    lemma2_to64();
    lemma2_to64_rest();
    lemma_pow2_adds(64, 64);
    assert(pow2(128) == 0x10000000000000000 * 0x10000000000000000);
}

/// A rate that is a fraction, adjusted by one, is a fraction.
proof fn lemma_capped_fraction(
    rate: real,
    n: int,
    d: int,
    n_bits: nat,
    d_bits: nat,
    factor: real,
    m: int,
    e: int,
    m_bits: nat,
    e_bits: nat,
) -> (r: (int, int))
    requires
        is_fraction(rate, n, d, n_bits, d_bits),
        is_fraction(factor, m, e, m_bits, e_bits),
        n_bits + m_bits >= 128,
    ensures
        is_fraction(capped_rate(rate, factor), r.0, r.1, n_bits + m_bits, d_bits + e_bits),
{
    let capped = capped_rate(rate, factor);
    if capped == min_rate() {
        lemma_pow2_pos(n_bits + m_bits);
        lemma_integer_fraction(1, n_bits + m_bits, d_bits + e_bits);
        (1, 1)
    } else if capped == max_rate() {
        lemma_machine_digits();
        lemma_more_digits(u128::MAX as int, 128, n_bits + m_bits);
        lemma_integer_fraction(u128::MAX as int, n_bits + m_bits, d_bits + e_bits);
        (u128::MAX as int, 1)
    } else {
        lemma_fraction_product(rate, n, d, n_bits, d_bits, factor, m, e, m_bits, e_bits);
        (n * m, d * e)
    }
}

/// The factor by which a period that ran its full length changes the rate is a
/// fraction.
proof fn lemma_up_factor_fraction(s: PeriodState, minted: int) -> (r: (int, int))
    requires
        s.valid(),
        s.minted == minted as real,
        minted <= u128::MAX,
        s.target <= u128::MAX,
    ensures
        is_fraction(s.adjustment_factor(AdjustmentType::AdjustUp), r.0, r.1, 128, 128),
{
    let factor = s.adjustment_factor(AdjustmentType::AdjustUp);
    lemma_machine_digits();
    lemma_target_bounded(s);
    if factor == 4real {
        lemma_integer_fraction(4, 128, 128);
        (4, 1)
    } else {
        lemma_quotient_fraction(s.current_target(), minted, 128, 128);
        (s.current_target(), minted)
    }
}

/// The factor by which a full period changes the rate is a fraction.
proof fn lemma_down_factor_fraction(s: PeriodState) -> (r: (int, int))
    requires
        s.valid(),
        s.block_num <= u64::MAX,
    ensures
        is_fraction(s.adjustment_factor(AdjustmentType::AdjustDown), r.0, r.1, 64, 9),
{
    let factor = s.adjustment_factor(AdjustmentType::AdjustDown);
    lemma_machine_digits();
    let elapsed = s.elapsed() as real;
    if factor == 1real / 4real {
        lemma_quotient_fraction(1, 4, 64, 9);
        (1, 4)
    } else {
        assert(elapsed > 0real) by (nonlinear_arith)
            requires
                elapsed / 500real > 1real / 4real,
        ;
        lemma_quotient_fraction(s.elapsed(), 500, 64, 9);
        (s.elapsed(), 500)
    }
}

/// A fraction is fine for the multiples of its terms.
proof fn lemma_fraction_is_fine(x: real, n: int, d: int, n_bits: nat, d_bits: nat, k: int, l: int)
    requires
        is_fraction(x, n, d, n_bits, d_bits),
    ensures
        is_fine(x, n * k, d * l),
{
    reveal(is_fraction);
    let nr = n as real;
    let dr = d as real;
    let kr = k as real;
    let lr = l as real;
    assert(x > 0real) by (nonlinear_arith)
        requires
            x * dr == nr,
            nr > 0real,
            dr > 0real,
    ;
    lemma_integer_product(n, k);
    lemma_integer_product(d, l);
    let a = (n * k) as real;
    let b = (d * l) as real;
    assert(a / x == dr * kr) by (nonlinear_arith)
        requires
            a == nr * kr,
            x * dr == nr,
            x > 0real,
    ;
    lemma_integer_product(d, k);
    assert(x * b == nr * lr) by (nonlinear_arith)
        requires
            b == dr * lr,
            x * dr == nr,
    ;
    lemma_integer_product(n, l);
}

/// The halvings fit the counter throughout the burns of a block, if its rate is
/// a fraction of limited terms and the total is a whole number.
proof fn lemma_block_counts(s: PeriodState, burns: Seq<int>, n: int, d: int)
    requires
        s.valid(),
        is_whole(s.total),
        is_fraction(s.rate, n, d, 256, 128),
        s.block_num <= u64::MAX,
        s.max_supply <= u128::MAX,
        are_burns(burns),
    ensures
        consume_all(s, burns) != Err::<(PeriodState, Seq<real>), _>(MintFault::TooManyHalvings),
{
    let (m, e) = lemma_down_factor_fraction(s);
    let top = s.rolled(AdjustmentType::AdjustDown).rate;
    let factor = s.adjustment_factor(AdjustmentType::AdjustDown);
    let (tn, td) = lemma_capped_fraction(s.rate, n, d, 256, 128, factor, m, e, 64, 9);
    lemma_fraction_is_fine(s.rate, n, d, 256, 128, tn, td);
    lemma_fraction_is_fine(top, tn, td, 320, 137, n, d);
    lemma_mul_is_commutative(tn, n);
    lemma_mul_is_commutative(td, d);
    let c = n * tn;
    let g = d * td;
    assert(0 < n <= pow2(256) && 0 < d <= pow2(128) && 0 < tn <= pow2(320) && 0 < td <= pow2(
        137,
    )) by {
        reveal(is_fraction);
    }
    lemma_product_digits(n, tn, 256, 320);
    lemma_product_digits(d, td, 128, 137);
    lemma_product_digits(c, g, 576, 265);
    lemma_pow2_pos(128);
    lemma_product_digits(c * g, pow2(128) as int, 841, 128);
    let grain = c * g * pow2(128);
    lemma_integer_is_whole(grain);
    lemma_whole_product(s.total, grain as real);
    lemma_machine_digits();
    if s.max_supply == 0 {
        assert(s.max_supply * grain == 0) by (nonlinear_arith)
            requires
                s.max_supply == 0,
        ;
        lemma_pow2_pos(1097);
    } else {
        lemma_product_digits(s.max_supply, grain, 128, 969);
    }
    lemma_grained_burns(s, burns, top, c, g, 1097);
}

/// A whole total never counts too many halvings.
proof fn lemma_whole_total_counts(s: PeriodState)
    requires
        s.valid(),
        is_whole(s.total),
        s.max_supply <= u128::MAX,
    ensures
        s.level_fits(),
{
    lemma_machine_digits();
    assert(s.total * 1real == s.total);
    lemma_level_bounded(s, 1, 128);
}

/// At a rate of zero nothing changes until a burn finds no rate.
proof fn lemma_zero_rate_burns(s: PeriodState, burns: Seq<int>)
    requires
        s.rate == 0real,
        s.level_fits(),
    ensures
        consume_all(s, burns) matches Ok((end, _)) ==> end == s,
        consume_all(s, burns) matches Err(fault) ==> fault == MintFault::ZeroRate,
    decreases burns.len(),
{
    if burns.len() > 0 {
        lemma_zero_rate_burns(s, burns.drop_last());
    }
}

/// As long as the total is a whole number, a `u32` counts the halvings.
pub proof fn lemma_recorded_total_counts(s: PeriodState)
    requires
        s.total >= 0real,
        is_whole(s.total),
        0 <= s.max_supply <= u128::MAX,
    ensures
        halving_level(s.total, s.max_supply) <= u32::MAX,
{
    lemma_whole_total_counts(
        PeriodState { rate: 0real, minted: 0real, start: 0, block_num: 0, target: 0, ..s },
    );
}

/// The state is as the previous block records it: whole numbers that fit the
/// record's fields.
pub open spec fn is_recorded(s: PeriodState) -> bool {
    &&& s.valid()
    &&& is_whole(s.rate)
    &&& is_whole(s.total)
    &&& is_whole(s.minted)
    &&& s.rate <= u128::MAX as real
    &&& s.minted <= u128::MAX as real
    &&& s.block_num <= u64::MAX
    &&& s.max_supply <= u128::MAX
    &&& s.target <= u128::MAX
}

/// A block that starts from recorded numbers never crosses more halvings than
/// the counter holds, whatever is burned in it.
pub proof fn lemma_halvings_fit(s: PeriodState, burns: Seq<int>)
    requires
        is_recorded(s),
        are_burns(burns),
    ensures
        mint_block(s, burns) != Err::<(PeriodState, Seq<real>), _>(MintFault::TooManyHalvings),
{
    lemma_whole_total_counts(s);
    lemma_machine_digits();
    let rate = s.rate.floor();
    assert(s.rate == rate as real && 0 <= rate <= u128::MAX) by {
        reveal(is_whole);
    }
    if s.elapsed() < period_length() {
        if rate == 0 {
            lemma_zero_rate_burns(s, burns);
        } else {
            lemma_more_digits(rate, 128, 256);
            lemma_integer_fraction(rate, 256, 128);
            lemma_block_counts(s, burns, rate, 1);
        }
    } else {
        let minted = s.minted.floor();
        assert(s.minted == minted as real && 0 <= minted <= u128::MAX) by {
            reveal(is_whole);
        }
        let next = s.rolled(AdjustmentType::AdjustUp);
        if rate == 0 {
            let factor = s.adjustment_factor(AdjustmentType::AdjustUp);
            assert(s.rate * factor == 0real) by (nonlinear_arith)
                requires
                    s.rate == 0real,
            ;
            lemma_pow2_pos(256);
            lemma_integer_fraction(1, 256, 128);
            lemma_block_counts(next, burns, 1, 1);
        } else {
            let (m, e) = lemma_up_factor_fraction(s, minted);
            let factor = s.adjustment_factor(AdjustmentType::AdjustUp);
            lemma_integer_fraction(rate, 128, 0);
            let (n, d) = lemma_capped_fraction(s.rate, rate, 1, 128, 0, factor, m, e, 128, 128);
            lemma_block_counts(next, burns, n, d);
        }
    }
}

} // verus!
