//! What burning comes to, go by go, burn by burn and block by block, in plain
//! numbers.
use vstd::prelude::*;

use crate::issuance::{
    consume, consume_all, halving_level, mint_block, opened, MintFault, PeriodState,
};
use crate::issuance_terms::{
    lemma_full_period_lowers_the_rate_by_its_time, lemma_room_is_rounded_down,
    lemma_time_over_makes_up_the_shortfall,
};

verus! {

/// Without a burn, or with the supply exhausted, nothing happens.
pub proof fn lemma_nothing_to_burn(s: PeriodState, eth: real)
    requires
        eth <= 0real || s.total >= s.max_supply as real,
    ensures
        consume(s, eth) == Ok::<_, MintFault>((s, 0real)),
{
}

/// Where there is something to burn and to mint, a burn fails at once for more
/// halvings than a `u32` counts, for a rate that is not positive and where less
/// than one FCT is left to mint, in this order.
pub proof fn lemma_burn_fails_at_once(s: PeriodState, eth: real)
    requires
        eth > 0real,
        s.total < s.max_supply as real,
    ensures
        ({
            let r = consume(s, eth);
            let counted = halving_level(s.total, s.max_supply) <= u32::MAX;
            let left = s.max_supply as real - s.total;
            &&& !counted ==> r == Err::<(PeriodState, real), _>(MintFault::TooManyHalvings)
            &&& counted && s.rate <= 0real ==> r == Err::<(PeriodState, real), _>(
                MintFault::ZeroRate,
            )
            &&& counted && s.rate > 0real && left < 1real ==> r == Err::<(PeriodState, real), _>(
                MintFault::Stalled,
            )
        }),
{
    lemma_room_is_rounded_down(s);
}

/// Otherwise a burn goes on in this way. It mints the least of what the rate
/// gives, what the period has room for and what is left of the supply, all of it
/// added to the period's amount and to the total. If that leaves room for less
/// than one FCT in the period, the next period starts at this block, with nothing
/// minted, at a rate lowered in proportion to the time that the period took, by
/// no more than a quarter. What the minted FCT did not use of the burn goes on
/// there, and what it mints there is added.
pub proof fn lemma_burn_goes_on(s: PeriodState, eth: real) -> (r: (real, PeriodState))
    requires
        eth > 0real,
        s.rate > 0real,
        s.max_supply as real - s.total >= 1real,
        halving_level(s.total, s.max_supply) <= u32::MAX,
    ensures
        ({
            let (amount, next) = r;
            let after = PeriodState {
                total: s.total + amount,
                minted: s.minted + amount,
                ..s
            };
            let blocks = (s.block_num - s.start) as real;
            let most = u128::MAX as real;
            &&& amount <= eth * s.rate && amount <= s.quota() as real && amount
                <= s.supply_left() as real
            &&& amount == eth * s.rate || amount == s.quota() as real || amount
                == s.supply_left() as real
            &&& halving_level(after.total, s.max_supply) > u32::MAX ==> consume(s, eth) == Err::<
                (PeriodState, real),
                _,
            >(MintFault::TooManyHalvings)
            &&& after.current_target() as real - after.minted >= 1real ==> next == after
            &&& after.current_target() as real - after.minted < 1real ==> {
                &&& next == PeriodState {
                    rate: next.rate,
                    start: s.block_num,
                    minted: 0real,
                    ..after
                }
                &&& 1real <= next.rate <= most
                &&& blocks >= 125real ==> {
                    &&& 500real <= s.rate * blocks <= most * 500real ==> next.rate * 500real
                        == s.rate * blocks
                    &&& s.rate * blocks < 500real ==> next.rate == 1real
                    &&& s.rate * blocks > most * 500real ==> next.rate == most
                }
                &&& blocks < 125real ==> {
                    &&& 4real <= s.rate <= most * 4real ==> next.rate * 4real == s.rate
                    &&& s.rate < 4real ==> next.rate == 1real
                    &&& s.rate > most * 4real ==> next.rate == most
                }
            }
            &&& halving_level(after.total, s.max_supply) <= u32::MAX ==> match consume(
                next,
                eth - amount / s.rate,
            ) {
                Ok((end, more)) => consume(s, eth) == Ok::<_, MintFault>((end, amount + more)),
                Err(fault) => consume(s, eth) == Err::<(PeriodState, real), _>(fault),
            }
        }),
{
    let amount = s.amount(eth);
    let after = s.credited(amount);
    lemma_room_is_rounded_down(s);
    lemma_room_is_rounded_down(after);
    lemma_full_period_lowers_the_rate_by_its_time(after);
    (amount, after.settled())
}

/// A burn that the period has room for, in it and in the supply, mints the burn
/// times the rate. If that leaves room for one FCT more, the period goes on at
/// the same rate.
pub proof fn lemma_burn_with_room(s: PeriodState, eth: real)
    requires
        eth > 0real,
        s.rate > 0real,
        s.max_supply as real - s.total >= 1real,
        eth * s.rate <= s.quota() as real,
        eth * s.rate <= s.supply_left() as real,
        halving_level(s.total, s.max_supply) <= u32::MAX,
        halving_level(s.total + eth * s.rate, s.max_supply) <= u32::MAX,
    ensures
        consume(s, eth) matches Ok((end, minted)) && {
            let after = PeriodState {
                total: s.total + eth * s.rate,
                minted: s.minted + eth * s.rate,
                ..s
            };
            &&& minted == eth * s.rate
            &&& end.total == s.total + eth * s.rate
            &&& after.current_target() as real - after.minted >= 1real ==> end == after
        },
{
    let rate = s.rate;
    let (amount, next) = lemma_burn_goes_on(s, eth);
    assert(amount == eth * rate);
    assert(eth - (eth * rate) / rate == 0real) by (nonlinear_arith)
        requires
            rate > 0real,
    ;
    lemma_nothing_to_burn(next, eth - amount / rate);
}

/// A block goes on in a period that is younger than 500 blocks. An older one is
/// closed first: the next starts at this block, with nothing minted, at a rate
/// that makes up for what the period fell short of its target. That fails only
/// for more halvings than a `u32` counts, where something was minted.
pub proof fn lemma_block_opens(s: PeriodState)
    requires
        s.target >= 0,
        s.minted >= 0real,
    ensures
        ({
            let blocks = s.block_num - s.start;
            let target = s.current_target() as real;
            let most = u128::MAX as real;
            let uncounted = s.minted != 0real && halving_level(s.total, s.max_supply) > u32::MAX;
            &&& blocks < 500 ==> opened(s) == Ok::<_, MintFault>(s)
            &&& blocks >= 500 && uncounted ==> opened(s) == Err::<PeriodState, _>(
                MintFault::TooManyHalvings,
            )
            &&& blocks >= 500 && !uncounted ==> {
                &&& opened(s) matches Ok(next) && {
                    &&& next == PeriodState {
                        rate: next.rate,
                        start: s.block_num,
                        minted: 0real,
                        ..s
                    }
                    &&& 1real <= next.rate <= most
                    &&& 0real < s.minted && target <= 4real * s.minted ==> {
                        &&& s.minted <= s.rate * target <= most * s.minted ==> next.rate
                            * s.minted == s.rate * target
                        &&& s.rate * target < s.minted ==> next.rate == 1real
                        &&& s.rate * target > most * s.minted ==> next.rate == most
                    }
                    &&& s.minted == 0real || 4real * s.minted < target ==> {
                        &&& 1real <= s.rate * 4real <= most ==> next.rate == s.rate * 4real
                        &&& s.rate * 4real < 1real ==> next.rate == 1real
                        &&& s.rate * 4real > most ==> next.rate == most
                    }
                }
            }
        }),
{
    lemma_time_over_makes_up_the_shortfall(s);
}

/// No burns change nothing.
pub proof fn lemma_no_burns(s: PeriodState)
    ensures
        consume_all(s, Seq::empty()) == Ok::<_, MintFault>((s, Seq::<real>::empty())),
{
}

/// One more burn burns in what the burns before it left, and its amount comes
/// last; a fault among them stays the first one.
pub proof fn lemma_one_more_burn(s: PeriodState, burns: Seq<int>, burn: int)
    ensures
        match consume_all(s, burns) {
            Ok((mid, mints)) => match consume(mid, burn as real) {
                Ok((end, minted)) => consume_all(s, burns.push(burn)) == Ok::<_, MintFault>(
                    (end, mints.push(minted)),
                ),
                Err(fault) => consume_all(s, burns.push(burn)) == Err::<
                    (PeriodState, Seq<real>),
                    _,
                >(fault),
            },
            Err(fault) => consume_all(s, burns.push(burn)) == Err::<(PeriodState, Seq<real>), _>(
                fault,
            ),
        },
{
    assert(burns.push(burn).drop_last() =~= burns);
}

/// A block burns in the period that it opens with.
pub proof fn lemma_block_burns_in_its_period(s: PeriodState, burns: Seq<int>)
    ensures
        match opened(s) {
            Ok(period) => mint_block(s, burns) == consume_all(period, burns),
            Err(fault) => mint_block(s, burns) == Err::<(PeriodState, Seq<real>), _>(fault),
        },
{
}

} // verus!
