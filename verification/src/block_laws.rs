//! What a block's transactions burn and are credited with, in plain numbers.
use vstd::prelude::*;

use crate::burn_steps::{
    lemma_block_burns_in_its_period, lemma_block_opens, lemma_burn_with_room, lemma_no_burns,
    lemma_nothing_to_burn, lemma_one_more_burn,
};
use crate::facet_payload::{burns, credited, FacetPayload};
use crate::fct_mint::{data_gas, mint_from_info, zero_bytes, MintPeriod};
use crate::fct_params::FctParams;
use crate::halving_bound::{is_recorded, lemma_recorded_total_counts};
use crate::issuance::{all_saturated, mint_block, opened, saturated, MintFault, PeriodState};
use crate::issuance_laws::lemma_integer_is_whole;
use crate::issuance_terms::{lemma_record_is_rounded_down, lemma_room_is_rounded_down};
use crate::l1_info::L1BlockInfoFacet;
use crate::rational::value;

verus! {

/// A single byte costs 8 gas where a contract initiated the transaction;
/// otherwise 10 if it is zero and 40 if it is not.
pub proof fn lemma_gas_of_a_byte(byte: u8, contract_initiated: bool)
    ensures
        contract_initiated ==> data_gas(seq![byte], contract_initiated) == 8,
        !contract_initiated && byte == 0 ==> data_gas(seq![byte], contract_initiated) == 10,
        !contract_initiated && byte != 0 ==> data_gas(seq![byte], contract_initiated) == 40,
{
    assert(seq![byte].drop_last().len() == 0);
    assert(zero_bytes(seq![byte].drop_last()) == 0);
}

/// Each transaction burns its L1 data gas times the L1 base fee, whatever either
/// is; so what it burns at two base fees together is what it burns at their sum.
pub proof fn lemma_a_transaction_burns_gas_times_fee(txs: Seq<FacetPayload>, fee: u64, i: int)
    requires
        0 <= i < txs.len(),
    ensures
        burns(txs, fee).len() == txs.len(),
        burns(txs, fee)[i] == txs[i].l1_data_gas_used * fee,
        forall|a: u64, b: u64|
            a + b == fee ==> #[trigger] burns(txs, a)[i] + #[trigger] burns(txs, b)[i] == burns(
                txs,
                fee,
            )[i],
{
    let gas = txs[i].l1_data_gas_used as int;
    assert forall|a: u64, b: u64| a + b == fee implies #[trigger] burns(txs, a)[i]
        + #[trigger] burns(txs, b)[i] == burns(txs, fee)[i] by {
        let x = a as int;
        let y = b as int;
        let z = fee as int;
        assert(gas * x + gas * y == gas * z) by (nonlinear_arith)
            requires
                x + y == z,
        ;
    }
}

/// Crediting transactions sets the FCT of each, in their order, and leaves the
/// rest of them as it is.
pub proof fn lemma_only_the_mint_is_set(
    before: Seq<FacetPayload>,
    mints: Seq<u128>,
    after: Seq<FacetPayload>,
    i: int,
)
    requires
        credited(before, mints, after),
        0 <= i < before.len(),
    ensures
        after.len() == before.len(),
        mints.len() == before.len(),
        after[i].mint == mints[i],
        after[i].to == before[i].to,
        after[i].value == before[i].value,
        after[i].gas_limit == before[i].gas_limit,
        after[i].data == before[i].data,
        after[i].l1_data_gas_used == before[i].l1_data_gas_used,
{
    assert(after[i] == FacetPayload { mint: mints[i], ..before[i] });
}

/// What a period stands for: the numbers in its fields.
pub proof fn lemma_what_a_period_stands_for(p: MintPeriod)
    ensures
        p@.block_num == p.block_num,
        p@.rate == value(p.fct_mint_rate),
        p@.total == value(p.total_minted),
        p@.minted == value(p.period_minted),
        p@.start == p.period_start_block,
        p@.max_supply == p.max_supply,
        p@.target == p.target_per_period,
{
}

/// A block goes on from the numbers in the previous block's L1 info, under the
/// parameters that are set.
pub proof fn lemma_block_goes_on_from_the_info(
    params: Option<FctParams>,
    info: L1BlockInfoFacet,
    block_number: u64,
    owed: Seq<int>,
)
    ensures
        ({
            let r = mint_from_info(params, info, block_number, owed);
            &&& params is None ==> r == Err::<(PeriodState, Seq<real>), _>(
                MintFault::ParamsNotInitialized,
            )
            &&& params is Some && info.fct_period_start_block > block_number ==> r == Err::<
                (PeriodState, Seq<real>),
                _,
            >(MintFault::PeriodAhead)
            &&& params matches Some(p) ==> info.fct_period_start_block <= block_number ==> r
                == mint_block(
                PeriodState {
                    block_num: block_number as int,
                    rate: info.fct_mint_rate as real,
                    total: info.fct_total_minted as real,
                    minted: info.fct_period_minted as real,
                    start: info.fct_period_start_block as int,
                    max_supply: p.max_supply as int,
                    target: p.target_per_period as int,
                },
                owed,
            )
        }),
{
}

/// The state that an L1 info describes is made of whole numbers that fit.
proof fn lemma_info_state_is_recorded(s: PeriodState, params: FctParams, info: L1BlockInfoFacet)
    requires
        s.rate == info.fct_mint_rate as real,
        s.total == info.fct_total_minted as real,
        s.minted == info.fct_period_minted as real,
        0 <= s.start <= s.block_num <= u64::MAX,
        s.max_supply == params.max_supply,
        s.target == params.target_per_period,
    ensures
        is_recorded(s),
{
    lemma_integer_is_whole(info.fct_mint_rate as int);
    lemma_integer_is_whole(info.fct_total_minted as int);
    lemma_integer_is_whole(info.fct_period_minted as int);
}

/// A block of one transaction that has room in a young period and in the supply:
/// the transaction is credited with its L1 data gas times the L1 base fee times
/// the mint rate, and the recorded total grows by that, whatever the base fee.
pub proof fn lemma_one_transaction_is_credited(
    params: FctParams,
    info: L1BlockInfoFacet,
    block_number: u64,
    tx: FacetPayload,
    fee: u64,
)
    requires
        0 <= block_number - info.fct_period_start_block < 500,
        info.fct_mint_rate > 0,
        info.fct_total_minted < params.max_supply,
        ({
            let amount = tx.l1_data_gas_used * fee * info.fct_mint_rate;
            let target = PeriodState {
                block_num: block_number as int,
                rate: info.fct_mint_rate as real,
                total: info.fct_total_minted as real,
                minted: info.fct_period_minted as real,
                start: info.fct_period_start_block as int,
                max_supply: params.max_supply as int,
                target: params.target_per_period as int,
            }.current_target();
            &&& info.fct_period_minted + amount <= target
            &&& info.fct_total_minted + amount <= params.max_supply
        }),
    ensures
        ({
            let amount = tx.l1_data_gas_used * fee * info.fct_mint_rate;
            mint_from_info(Some(params), info, block_number, burns(seq![tx], fee)) matches Ok(
                (end, mints),
            ) && {
                &&& mints.len() == 1
                &&& all_saturated(mints).len() == 1
                &&& all_saturated(mints)[0] == amount
                &&& saturated(end.total) == info.fct_total_minted + amount
            }
        }),
{
    let s = PeriodState {
        block_num: block_number as int,
        rate: info.fct_mint_rate as real,
        total: info.fct_total_minted as real,
        minted: info.fct_period_minted as real,
        start: info.fct_period_start_block as int,
        max_supply: params.max_supply as int,
        target: params.target_per_period as int,
    };
    let gas = tx.l1_data_gas_used as int;
    let burn = gas * fee;
    let rate = info.fct_mint_rate as int;
    let amount = burn * rate;
    let owed = burns(seq![tx], fee);
    assert(burn >= 0) by (nonlinear_arith)
        requires
            burn == gas * fee,
            gas >= 0,
    ;
    assert(amount >= 0) by (nonlinear_arith)
        requires
            amount == burn * rate,
            burn >= 0,
            rate >= 0,
    ;
    assert(owed =~= Seq::<int>::empty().push(burn));
    lemma_info_state_is_recorded(s, params, info);
    lemma_block_goes_on_from_the_info(Some(params), info, block_number, owed);
    lemma_block_opens(s);
    lemma_block_burns_in_its_period(s, owed);
    lemma_no_burns(s);
    lemma_one_more_burn(s, Seq::empty(), burn);
    if burn == 0 {
        assert(amount == 0) by (nonlinear_arith)
            requires
                amount == burn * rate,
                burn == 0,
        ;
        lemma_nothing_to_burn(s, burn as real);
    } else {
        assert(burn as real * rate as real == amount as real) by (nonlinear_arith)
            requires
                amount == burn * rate,
        ;
        lemma_room_is_rounded_down(s);
        assert(s.quota() == s.current_target() - info.fct_period_minted);
        assert(s.supply_left() == s.max_supply - info.fct_total_minted);
        lemma_integer_is_whole(info.fct_total_minted + amount);
        lemma_recorded_total_counts(s);
        lemma_recorded_total_counts(PeriodState { total: s.total + amount as real, ..s });
        lemma_burn_with_room(s, burn as real);
    }
    let (end, mints) = mint_block(s, owed)->Ok_0;
    assert(mints =~= Seq::<real>::empty().push(mints[0]));
    assert(mints[0] == amount as real);
    assert(end.total == (info.fct_total_minted + amount) as real);
    lemma_record_is_rounded_down(mints[0]);
    lemma_record_is_rounded_down(end.total);
}

/// A block without burns, at which a period's time is over that minted at least a
/// quarter of its target: the recorded rate is the largest integer that, times
/// what the period minted, is within the old rate times the target. The next
/// period starts at this block with nothing minted, and the total stays.
pub proof fn lemma_time_over_is_recorded(
    params: FctParams,
    info: L1BlockInfoFacet,
    block_number: u64,
    target: int,
)
    requires
        block_number - info.fct_period_start_block >= 500,
        target == (PeriodState {
            block_num: block_number as int,
            rate: info.fct_mint_rate as real,
            total: info.fct_total_minted as real,
            minted: info.fct_period_minted as real,
            start: info.fct_period_start_block as int,
            max_supply: params.max_supply as int,
            target: params.target_per_period as int,
        }).current_target(),
        info.fct_total_minted <= params.max_supply,
        0 < info.fct_period_minted,
        target <= 4 * info.fct_period_minted,
        info.fct_period_minted <= info.fct_mint_rate * target,
        info.fct_mint_rate * target <= u128::MAX * info.fct_period_minted,
    ensures
        mint_from_info(Some(params), info, block_number, Seq::empty()) matches Ok((end, mints)) && {
            let rate = saturated(end.rate);
            &&& rate * info.fct_period_minted <= info.fct_mint_rate * target
            &&& info.fct_mint_rate * target < (rate + 1) * info.fct_period_minted
            &&& end.start == block_number
            &&& saturated(end.minted) == 0
            &&& saturated(end.total) == info.fct_total_minted
            &&& mints.len() == 0
        },
{
    let s = PeriodState {
        block_num: block_number as int,
        rate: info.fct_mint_rate as real,
        total: info.fct_total_minted as real,
        minted: info.fct_period_minted as real,
        start: info.fct_period_start_block as int,
        max_supply: params.max_supply as int,
        target: params.target_per_period as int,
    };
    let empty = Seq::<int>::empty();
    lemma_info_state_is_recorded(s, params, info);
    lemma_block_goes_on_from_the_info(Some(params), info, block_number, empty);
    lemma_recorded_total_counts(s);
    let minted = info.fct_period_minted as int;
    let due = info.fct_mint_rate * target;
    assert(s.rate * target as real == due as real) by (nonlinear_arith)
        requires
            s.rate == info.fct_mint_rate as real,
            due == info.fct_mint_rate * target,
    ;
    assert(u128::MAX as real * minted as real == (u128::MAX * minted) as real) by (nonlinear_arith);
    lemma_block_opens(s);
    lemma_block_burns_in_its_period(s, empty);
    let next = opened(s)->Ok_0;
    lemma_no_burns(next);
    lemma_record_is_rounded_down(next.rate);
    lemma_record_is_rounded_down(next.minted);
    lemma_record_is_rounded_down(next.total);
    let rate = saturated(next.rate) as int;
    lemma_rounded_quotient(next.rate, minted, due, rate);
}

/// The integer below a quotient.
proof fn lemma_rounded_quotient(x: real, minted: int, due: int, rate: int)
    requires
        minted > 0,
        x * minted as real == due as real,
        rate as real <= x < rate as real + 1real,
    ensures
        rate * minted <= due < (rate + 1) * minted,
{
    let m = minted as real;
    let r = rate as real;
    let d = due as real;
    assert(r * m <= d < (r + 1real) * m) by (nonlinear_arith)
        requires
            m > 0real,
            x * m == d,
            r <= x < r + 1real,
    ;
    assert(rate as real * minted as real == (rate * minted) as real) by (nonlinear_arith);
    assert((rate + 1) as real * minted as real == ((rate + 1) * minted) as real)
        by (nonlinear_arith);
}

} // verus!
