//! What holds of the data gas that transactions burn, and of the FCT that a block
//! assigns for it, as the L1 info records it.
use vstd::prelude::*;

use crate::fct_mint::{data_gas, loaded, mint_from_info, zero_bytes};
use crate::fct_params::FctParams;
use crate::halving_bound::{is_recorded, lemma_halvings_fit};
use crate::issuance::{
    all_saturated, burn_left, consume, consume_all, lemma_burning_advances, max_rate, min_rate,
    mint_block, opened, period_length, saturated, MintFault, PeriodState,
};
use crate::issuance_laws::{
    are_burns, lemma_block_adds_up, lemma_block_in_open_period, lemma_block_opens_a_period,
    lemma_integer_is_whole, lemma_positive_rate_stays, lemma_record_is_faithful,
    lemma_whole_total_never_stalls, total_of,
};
use crate::l1_info::L1BlockInfoFacet;

verus! {

/// Zero bytes add up over concatenation.
proof fn lemma_zero_bytes_add_up(a: Seq<u8>, b: Seq<u8>)
    ensures
        zero_bytes(a + b) == zero_bytes(a) + zero_bytes(b),
    decreases b.len(),
{
    if b.len() == 0 {
        assert(a + b =~= a);
    } else {
        assert((a + b).drop_last() =~= a + b.drop_last());
        lemma_zero_bytes_add_up(a, b.drop_last());
    }
}

/// The zero bytes are those that the multiset of bytes counts.
proof fn lemma_zero_bytes_counted(data: Seq<u8>)
    ensures
        zero_bytes(data) == data.to_multiset().count(0u8),
    decreases data.len(),
{
    broadcast use vstd::seq_lib::group_to_multiset_ensures;

    if data.len() > 0 {
        lemma_zero_bytes_counted(data.drop_last());
        assert(data.drop_last().push(data.last()) =~= data);
    }
}

/// No data costs no gas, and the gas of data in two parts is that of the parts
/// together.
pub proof fn lemma_data_gas_adds_up(a: Seq<u8>, b: Seq<u8>, contract_initiated: bool)
    ensures
        data_gas(Seq::empty(), contract_initiated) == 0,
        data_gas(a + b, contract_initiated) == data_gas(a, contract_initiated) + data_gas(
            b,
            contract_initiated,
        ),
{
    lemma_zero_bytes_add_up(a, b);
}

/// The gas of data does not depend on the order of its bytes.
pub proof fn lemma_data_gas_ignores_order(a: Seq<u8>, b: Seq<u8>, contract_initiated: bool)
    requires
        a.to_multiset() == b.to_multiset(),
    ensures
        data_gas(a, contract_initiated) == data_gas(b, contract_initiated),
{
    broadcast use vstd::seq_lib::group_to_multiset_ensures;

    lemma_zero_bytes_counted(a);
    lemma_zero_bytes_counted(b);
    assert(a.len() == a.to_multiset().len());
    assert(b.len() == b.to_multiset().len());
}

/// The L1 info of a block holds whole numbers that fit their fields.
pub proof fn lemma_info_is_recorded(params: FctParams, info: L1BlockInfoFacet, block_number: u64)
    requires
        info.fct_period_start_block <= block_number,
    ensures
        is_recorded(loaded(params, info, block_number)),
{
    lemma_integer_is_whole(info.fct_mint_rate as int);
    lemma_integer_is_whole(info.fct_total_minted as int);
    lemma_integer_is_whole(info.fct_period_minted as int);
}

/// When a block cannot assign its mints: exactly when the parameters are not
/// set, or the recorded period starts after the block; otherwise at most for a
/// recorded rate of zero, or where more than one transaction burns and a
/// fraction of one FCT is left to mint. Never for the number of halvings.
pub proof fn lemma_block_faults(
    params: Option<FctParams>,
    info: L1BlockInfoFacet,
    block_number: u64,
    burns: Seq<int>,
)
    requires
        are_burns(burns),
    ensures
        ({
            let r = mint_from_info(params, info, block_number, burns);
            &&& params is None <==> r == Err::<(PeriodState, Seq<real>), _>(
                MintFault::ParamsNotInitialized,
            )
            &&& params is Some && info.fct_period_start_block > block_number <==> r == Err::<
                (PeriodState, Seq<real>),
                _,
            >(MintFault::PeriodAhead)
            &&& r != Err::<(PeriodState, Seq<real>), _>(MintFault::TooManyHalvings)
            &&& r == Err::<(PeriodState, Seq<real>), _>(MintFault::ZeroRate) ==> info.fct_mint_rate
                == 0 && block_number - info.fct_period_start_block < period_length()
            &&& r == Err::<(PeriodState, Seq<real>), _>(MintFault::Stalled) ==> burns.len() >= 2
        }),
{
    if let Some(p) = params {
        if info.fct_period_start_block <= block_number {
            let s = loaded(p, info, block_number);
            lemma_info_is_recorded(p, info, block_number);
            lemma_halvings_fit(s, burns);
            lemma_block_opens_a_period(s);
            if let Ok(period) = opened(s) {
                if period.rate > 0real {
                    lemma_positive_rate_stays(period, burns);
                }
                lemma_burn_faults(period, burns);
                if burns.len() == 1 {
                    assert(consume_all(period, burns.drop_last()) == Ok::<_, MintFault>(
                        (period, Seq::<real>::empty()),
                    ));
                    lemma_whole_total_never_stalls(period, burns[0] as real);
                }
            }
        }
    }
}

/// A burn fails for the rate, for the halvings or by stalling.
proof fn lemma_burn_fault(s: PeriodState, eth: real)
    ensures
        consume(s, eth) matches Err(fault) ==> fault == MintFault::ZeroRate || fault
            == MintFault::Stalled || fault == MintFault::TooManyHalvings,
    decreases burn_left(eth), s.supply_left(), s.closings_due(),
{
    if eth > 0real && !s.exhausted() && s.rate > 0real && s.supply_left() != 0 {
        let amount = s.amount(eth);
        lemma_burning_advances(s, eth);
        lemma_burn_fault(s.credited(amount).settled(), eth - amount / s.rate);
    }
}

/// Burns fail for the rate, for the halvings or by stalling.
proof fn lemma_burn_faults(s: PeriodState, burns: Seq<int>)
    ensures
        consume_all(s, burns) matches Err(fault) ==> fault == MintFault::ZeroRate || fault
            == MintFault::Stalled || fault == MintFault::TooManyHalvings,
    decreases burns.len(),
{
    if burns.len() > 0 {
        lemma_burn_faults(s, burns.drop_last());
        if let Ok((mid, _)) = consume_all(s, burns.drop_last()) {
            lemma_burn_fault(mid, burns.last() as real);
        }
    }
}

/// The sum of what transactions are credited with.
pub open spec fn credit_of(mints: Seq<u128>) -> int
    decreases mints.len(),
{
    if mints.len() == 0 {
        0
    } else {
        credit_of(mints.drop_last()) + mints.last()
    }
}

/// Nothing is credited beyond what is minted.
proof fn lemma_credit_rounds_down(x: real)
    requires
        x >= 0real,
    ensures
        saturated(x) as real <= x,
{
    let f = x.floor();
    assert(f as real <= x < f as real + 1real);
    assert(f >= 0);
}

/// What is credited adds up to no more than what is minted.
proof fn lemma_credits_round_down(mints: Seq<real>)
    requires
        forall|i: int| 0 <= i < mints.len() ==> #[trigger] mints[i] >= 0real,
    ensures
        credit_of(all_saturated(mints)) as real <= total_of(mints),
    decreases mints.len(),
{
    if mints.len() > 0 {
        let first = mints.drop_last();
        assert forall|i: int| 0 <= i < first.len() implies #[trigger] first[i] >= 0real by {
            assert(first[i] == mints[i]);
        }
        lemma_credits_round_down(first);
        assert(mints[mints.len() - 1] >= 0real);
        lemma_credit_rounds_down(mints.last());
        assert(all_saturated(mints).drop_last() =~= all_saturated(first));
        assert(all_saturated(mints).last() == saturated(mints.last()));
    }
}

/// A credit lacks less than one FCT of what is minted.
proof fn lemma_credit_loses_a_fraction(x: real)
    requires
        0real <= x <= u128::MAX as real,
    ensures
        x < saturated(x) as real + 1real,
{
    lemma_record_is_faithful(x);
    let f = x.floor();
    assert(f as real <= x < f as real + 1real);
}

/// What is credited lacks less than one FCT for each transaction.
proof fn lemma_credits_lose_fractions(mints: Seq<real>)
    requires
        forall|i: int| 0 <= i < mints.len() ==> #[trigger] mints[i] >= 0real,
        total_of(mints) <= u128::MAX as real,
    ensures
        total_of(mints) >= 0real,
        total_of(mints) <= (credit_of(all_saturated(mints)) + mints.len()) as real,
        mints.len() > 0 ==> total_of(mints) < (credit_of(all_saturated(mints)) + mints.len())
            as real,
    decreases mints.len(),
{
    if mints.len() > 0 {
        let first = mints.drop_last();
        let last = mints.last();
        assert(mints[mints.len() - 1] >= 0real);
        assert forall|i: int| 0 <= i < first.len() implies #[trigger] first[i] >= 0real by {
            assert(first[i] == mints[i]);
        }
        lemma_credits_lose_fractions(first);
        assert(all_saturated(mints).drop_last() =~= all_saturated(first));
        assert(all_saturated(mints).last() == saturated(last));
        lemma_credit_loses_a_fraction(last);
    }
}

/// Where two whole numbers grow alike, so do they without their fractions.
proof fn lemma_records_grow_alike(m: int, n: int, growth: real)
    ensures
        (m as real + growth).floor() - m == (n as real + growth).floor() - n,
{
    let g = growth.floor();
    let a = (m as real + growth).floor();
    let b = (n as real + growth).floor();
    assert(g as real <= growth < g as real + 1real);
    assert(a as real <= m as real + growth < a as real + 1real);
    assert(b as real <= n as real + growth < b as real + 1real);
    assert((m + g) as real <= m as real + growth < (m + g) as real + 1real);
    assert((n + g) as real <= n as real + growth < (n + g) as real + 1real);
    assert(a == m + g);
    assert(b == n + g);
}

/// What a block records: the total does not fall and stays within the maximum
/// supply; it grows by no less than the transactions are credited with, by less
/// than one FCT more for each of them, and not at all once the maximum is
/// reached; the period is the recorded one or one that starts at this block; a
/// new rate is at least one; and a block that closes no period keeps the rate
/// and raises the period's amount as much as the total.
pub proof fn lemma_block_record(
    params: FctParams,
    info: L1BlockInfoFacet,
    block_number: u64,
    burns: Seq<int>,
)
    requires
        are_burns(burns),
        info.fct_total_minted <= params.max_supply,
        mint_from_info(Some(params), info, block_number, burns) is Ok,
    ensures
        mint_from_info(Some(params), info, block_number, burns) matches Ok((end, mints)) && {
            &&& mints.len() == burns.len()
            &&& info.fct_total_minted <= saturated(end.total) <= params.max_supply
            &&& credit_of(all_saturated(mints)) <= saturated(end.total) - info.fct_total_minted
            &&& burns.len() > 0 ==> saturated(end.total) - info.fct_total_minted < credit_of(
                all_saturated(mints),
            ) + burns.len()
            &&& burns.len() == 0 ==> saturated(end.total) == info.fct_total_minted
            &&& info.fct_total_minted == params.max_supply ==> saturated(end.total)
                == info.fct_total_minted && credit_of(all_saturated(mints)) == 0
            &&& end.start == info.fct_period_start_block || end.start == block_number
            &&& block_number - end.start < period_length()
            &&& saturated(end.rate) == info.fct_mint_rate || saturated(end.rate) >= 1
            &&& end.start == info.fct_period_start_block < block_number ==> {
                &&& saturated(end.rate) == info.fct_mint_rate
                &&& saturated(end.minted) - info.fct_period_minted == saturated(end.total)
                    - info.fct_total_minted
            }
        },
{
    let s = loaded(params, info, block_number);
    lemma_block_adds_up(s, burns);
    let (end, mints) = mint_block(s, burns)->Ok_0;
    lemma_credits_round_down(mints);
    lemma_credits_add_up(all_saturated(mints));
    lemma_record_is_faithful(end.total);
    let credit = credit_of(all_saturated(mints));
    let total = end.total.floor();
    assert(total as real <= end.total < total as real + 1real);
    assert((info.fct_total_minted + credit) as real <= end.total);
    assert(info.fct_total_minted + credit < total + 1);
    assert(total <= params.max_supply);
    lemma_credits_lose_fractions(mints);
    if burns.len() > 0 {
        let most = info.fct_total_minted + credit + burns.len();
        assert(total as real <= end.total < most as real);
        assert(total < most);
    } else {
        assert(end.total == info.fct_total_minted as real);
    }
    lemma_block_in_open_period(s, burns, u128::MAX as int);
    if end.start == info.fct_period_start_block < block_number {
        let growth = end.total - s.total;
        lemma_records_grow_alike(
            info.fct_total_minted as int,
            info.fct_period_minted as int,
            growth,
        );
        lemma_record_is_faithful(end.minted);
        assert(end.total == info.fct_total_minted as real + growth);
        assert(end.minted == info.fct_period_minted as real + growth);
    }
    if min_rate() <= end.rate <= max_rate() {
        lemma_record_is_faithful(end.rate);
        let rate = end.rate.floor();
        assert(rate as real <= end.rate < rate as real + 1real);
        assert(rate >= 1);
    } else {
        lemma_record_is_faithful(end.rate);
        lemma_integer_is_whole(info.fct_mint_rate as int);
    }
}

/// What transactions are credited with is not negative.
proof fn lemma_credits_add_up(mints: Seq<u128>)
    ensures
        credit_of(mints) >= 0,
    decreases mints.len(),
{
    if mints.len() > 0 {
        lemma_credits_add_up(mints.drop_last());
    }
}

} // verus!
