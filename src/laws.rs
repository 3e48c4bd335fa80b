//! Properties that relate the pool's operations to one another, proved from
//! the operations' own contracts.
use crate::amm::{spec_add_liquidity, spec_remove_liquidity, OutcomeSpec};
use crate::error::PoolError;
use crate::math::{fits, spec_get_d};
use crate::pool::{parcel_carries, units_follow_supply, Logic};
use crate::store::{AssetId, Storage};
use crate::u256::u128_modulus;
use vstd::prelude::*;

verus! {

/// The liquidity units held by the holders `hs`, together.
pub open spec fn lp_sum<S: Storage>(p: Logic<S>, hs: Seq<AssetId>) -> nat
    decreases hs.len(),
{
    if hs.len() == 0 {
        0
    } else {
        lp_sum(p, hs.drop_last()) + p.lp_value(hs.last())
    }
}

proof fn lemma_lp_sum_moves<S: Storage>(before: Logic<S>, after: Logic<S>, hs: Seq<AssetId>, who: AssetId)
    requires
        hs.no_duplicates(),
        forall|h: AssetId| h != who ==> #[trigger] after.lp_value(h) == before.lp_value(h),
    ensures
        hs.contains(who) ==> lp_sum(after, hs) + before.lp_value(who) == lp_sum(before, hs)
            + after.lp_value(who),
        !hs.contains(who) ==> lp_sum(after, hs) == lp_sum(before, hs),
    decreases hs.len(),
{
    if hs.len() > 0 {
        let rest = hs.drop_last();
        assert(rest.no_duplicates());
        lemma_lp_sum_moves(before, after, rest, who);
        if hs.last() == who {
            assert(!rest.contains(who)) by {
                if rest.contains(who) {
                    let k = choose|k: int| 0 <= k < rest.len() && rest[k] == who;
                    assert(hs[k] == hs[hs.len() - 1]);
                }
            }
        } else {
            assert(hs.contains(who) ==> rest.contains(who)) by {
                if hs.contains(who) {
                    let k = choose|k: int| 0 <= k < hs.len() && hs[k] == who;
                    assert(k < hs.len() - 1);
                    assert(rest[k] == who);
                }
            }
            assert(rest.contains(who) ==> hs.contains(who)) by {
                if rest.contains(who) {
                    let k = choose|k: int| 0 <= k < rest.len() && rest[k] == who;
                    assert(hs[k] == who);
                }
            }
        }
    }
}

/// The supply counts every unit held: where the supply equals the units of
/// all known holders before an operation, it does so after it too. Every
/// operation of `Logic` ensures `units_follow_supply` for its caller.
pub proof fn lemma_supply_matches_holders<S: Storage>(
    before: Logic<S>,
    after: Logic<S>,
    hs: Seq<AssetId>,
    who: AssetId,
)
    requires
        hs.no_duplicates(),
        hs.contains(who),
        before.supply_value() == lp_sum(before, hs),
        units_follow_supply(before, after, who),
    ensures
        after.supply_value() == lp_sum(after, hs),
{
    lemma_lp_sum_moves(before, after, hs, who);
}

/// The first deposit, into a pool with no units outstanding, mints exactly
/// the invariant of the new balances.
pub proof fn lemma_first_deposit_mints_d(
    b0: nat,
    b1: nat,
    a0: nat,
    a1: nat,
    amp: nat,
    fee: nat,
    admin_fee: nat,
    adm0: nat,
    adm1: nat,
    min_mint: nat,
)
    requires
        spec_add_liquidity(b0, b1, a0, a1, 0, amp, fee, admin_fee, adm0, adm1, min_mint) is Ok,
    ensures
        spec_get_d(b0 + a0, b1 + a1, amp) matches Ok(d1) && spec_add_liquidity(
            b0,
            b1,
            a0,
            a1,
            0,
            amp,
            fee,
            admin_fee,
            adm0,
            adm1,
            min_mint,
        )->Ok_0.amount == d1,
{
}

/// The first deposit into an initialized pool with no units outstanding
/// succeeds whenever the invariant of the new balances is positive, at
/// least `min_mint_amount`, and countable by the caller: it mints exactly
/// that invariant and takes no fee.
pub proof fn lemma_first_deposit_succeeds<S: Storage>(p: Logic<S>, amounts: [u128; 2], min_mint_amount: u128)
    requires
        p.is_initialized(),
        p.supply_value() == 0,
        parcel_carries(
            p.context.incoming@,
            p.coin_value(0),
            p.coin_value(1),
            amounts[0] as nat,
            amounts[1] as nat,
        ),
        p.holder_ok(p.context.caller),
        fits(p.balance_value(0) + amounts[0] as nat),
        fits(p.balance_value(1) + amounts[1] as nat),
        spec_get_d(p.balance_value(0) + amounts[0] as nat, p.balance_value(1) + amounts[1] as nat, p.amp_value()) matches Ok(d1)
            && 0 < d1 && min_mint_amount <= d1 && p.lp_value(p.context.caller) + d1 < u128_modulus(),
    ensures
        p.add_liquidity_result(amounts, min_mint_amount) == Ok::<OutcomeSpec, PoolError>(
            OutcomeSpec {
                b0: p.balance_value(0) + amounts[0] as nat,
                b1: p.balance_value(1) + amounts[1] as nat,
                adm0: p.admin_balance_value(0),
                adm1: p.admin_balance_value(1),
                amount: spec_get_d(
                    p.balance_value(0) + amounts[0] as nat,
                    p.balance_value(1) + amounts[1] as nat,
                    p.amp_value(),
                )->Ok_0,
            },
        ),
{
}

/// A deposit into a pool with units outstanding leaves balances whose
/// invariant is no lower than before, and higher where it mints anything.
pub proof fn lemma_deposit_raises_invariant(
    b0: nat,
    b1: nat,
    a0: nat,
    a1: nat,
    supply: nat,
    amp: nat,
    fee: nat,
    admin_fee: nat,
    adm0: nat,
    adm1: nat,
    min_mint: nat,
)
    requires
        supply > 0,
        spec_add_liquidity(b0, b1, a0, a1, supply, amp, fee, admin_fee, adm0, adm1, min_mint) is Ok,
    ensures
        ({
            let o = spec_add_liquidity(
                b0,
                b1,
                a0,
                a1,
                supply,
                amp,
                fee,
                admin_fee,
                adm0,
                adm1,
                min_mint,
            )->Ok_0;
            spec_get_d(b0, b1, amp) matches Ok(d0) && spec_get_d(o.b0, o.b1, amp) matches Ok(d2)
                && d0 <= d2 && (o.amount > 0 ==> d0 < d2)
        }),
{
    let d0 = spec_get_d(b0, b1, amp)->Ok_0;
    let o = spec_add_liquidity(b0, b1, a0, a1, supply, amp, fee, admin_fee, adm0, adm1, min_mint)->Ok_0;
    let d2 = spec_get_d(o.b0, o.b1, amp)->Ok_0;
    if o.amount > 0 && d2 == d0 {
        assert(supply * (d2 - d0) as nat == 0) by (nonlinear_arith)
            requires
                d2 == d0,
        ;
    }
}

/// Bootstrapping a pool and withdrawing, balanced, all the units minted
/// pays out exactly what was deposited, where the products of the payout
/// fit in 256 bits.
pub proof fn lemma_bootstrap_round_trip(
    a0: nat,
    a1: nat,
    amp: nat,
    fee: nat,
    admin_fee: nat,
    adm0: nat,
    adm1: nat,
    min_mint: nat,
)
    requires
        a0 < u128_modulus(),
        a1 < u128_modulus(),
        spec_add_liquidity(0, 0, a0, a1, 0, amp, fee, admin_fee, adm0, adm1, min_mint) is Ok,
        ({
            let o = spec_add_liquidity(0, 0, a0, a1, 0, amp, fee, admin_fee, adm0, adm1, min_mint)->Ok_0;
            fits(a0 * o.amount) && fits(a1 * o.amount)
        }),
    ensures
        ({
            let o = spec_add_liquidity(0, 0, a0, a1, 0, amp, fee, admin_fee, adm0, adm1, min_mint)->Ok_0;
            &&& o.b0 == a0
            &&& o.b1 == a1
            &&& spec_remove_liquidity(o.b0, o.b1, o.amount, o.amount, 0, 0) == Ok::<
                (nat, nat),
                PoolError,
            >((a0, a1))
        }),
{
    let o = spec_add_liquidity(0, 0, a0, a1, 0, amp, fee, admin_fee, adm0, adm1, min_mint)->Ok_0;
    let m = o.amount;
    assert(m > 0);
    assert(a0 * m / m == a0) by (nonlinear_arith)
        requires
            m > 0,
    ;
    assert(a1 * m / m == a1) by (nonlinear_arith)
        requires
            m > 0,
    ;
}

/// A swap of nothing is refused as degenerate, whatever the pool holds.
pub proof fn lemma_swap_of_nothing<S: Storage>(p: Logic<S>, i: u128, j: u128, min_dy: u128)
    requires
        p.is_initialized(),
        i < 2,
        j < 2,
        i != j,
        parcel_carries(p.context.incoming@, p.coin_value(i as int), p.coin_value(i as int), 0, 0),
    ensures
        p.swap_result(i, j, 0, min_dy) == Err::<OutcomeSpec, PoolError>(PoolError::DegenerateState),
{
}

/// With no units outstanding the virtual price is refused as degenerate.
pub proof fn lemma_virtual_price_without_supply<S: Storage>(p: Logic<S>)
    requires
        p.is_initialized(),
        p.supply_value() == 0,
    ensures
        p.virtual_price_result() == Err::<nat, PoolError>(PoolError::DegenerateState),
{
}

} // verus!
