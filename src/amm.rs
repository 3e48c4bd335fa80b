//! The arithmetic of each pool operation, on plain values: what a deposit
//! mints, what a withdrawal pays out, what a swap returns, and how the
//! fees are split between the pool and its owner.
use crate::error::PoolError;
use crate::math::{
    add_u256, div_u256, fits, get_D, get_y, get_y_D, mul_u256,
    spec_get_d, spec_get_y, spec_get_y_d, sub_u256, value_of, N_COINS,
};
use crate::u256::{u128_modulus, U256};
use vstd::prelude::*;

verus! {

/// The scaling basis of `fee` and `admin_fee`.
pub const FEE_DENOMINATOR: u128 = 10_000_000_000;

/// The scaling basis of the virtual price.
pub const PRECISION: u128 = 1_000_000_000_000_000_000;

pub open spec fn fee_denominator() -> nat {
    FEE_DENOMINATOR as nat
}

pub open spec fn abs_diff(a: nat, b: nat) -> nat {
    if a >= b {
        (a - b) as nat
    } else {
        (b - a) as nat
    }
}

/// The pool's balances after an operation, with its owner's balances and
/// the one amount the operation produces (units minted or burned, or coins
/// paid out).
pub struct Outcome {
    pub balances: [U256; 2],
    pub admin_balances: [U256; 2],
    pub amount: U256,
}

/// An `Outcome` as numbers.
pub struct OutcomeSpec {
    pub b0: nat,
    pub b1: nat,
    pub adm0: nat,
    pub adm1: nat,
    pub amount: nat,
}

pub open spec fn outcome_spec(o: Outcome) -> OutcomeSpec {
    OutcomeSpec {
        b0: o.balances[0]@,
        b1: o.balances[1]@,
        adm0: o.admin_balances[0]@,
        adm1: o.admin_balances[1]@,
        amount: o.amount@,
    }
}

pub open spec fn outcome_of(r: Result<Outcome, PoolError>) -> Result<OutcomeSpec, PoolError> {
    match r {
        Ok(o) => Ok(outcome_spec(o)),
        Err(e) => Err(e),
    }
}

/// The imbalance fee of one coin whose balance moved from `old` to `new`
/// while the invariant moved from `d0` to `d1`: the fee leaves the balance,
/// and `admin_fee` of it goes to the owner's balance `adm`. The result is
/// the coin's balance after the fee and the owner's new balance.
pub open spec fn spec_settle_coin(
    d0: nat,
    d1: nat,
    old: nat,
    new: nat,
    adm: nat,
    fee_eff: nat,
    admin_fee: nat,
) -> Result<(nat, nat), PoolError> {
    let ideal = d1 * old / d0;
    let diff = abs_diff(ideal, new);
    let f = fee_eff * diff / fee_denominator();
    let share = f * admin_fee / fee_denominator();
    if !fits(d1 * old) {
        Err(PoolError::Overflow)
    } else if d0 == 0 {
        Err(PoolError::DegenerateState)
    } else if !(fits(fee_eff * diff) && fits(f * admin_fee) && fits(adm + share) && f <= new) {
        Err(PoolError::Overflow)
    } else {
        Ok(((new - f) as nat, adm + share))
    }
}

fn settle_coin(d0: U256, d1: U256, old: U256, new: U256, adm: U256, fee_eff: U256, admin_fee: U256) -> (r:
    Result<(U256, U256), PoolError>)
    ensures
        match spec_settle_coin(d0@, d1@, old@, new@, adm@, fee_eff@, admin_fee@) {
            Ok((b, a)) => r matches Ok((rb, ra)) && rb@ == b && ra@ == a,
            Err(e) => r == Err::<(U256, U256), PoolError>(e),
        },
{
    let denom = U256::from_u128(FEE_DENOMINATOR);
    let p = mul_u256(d1, old)?;
    if d0.is_zero() {
        return Err(PoolError::DegenerateState);
    }
    let ideal = div_u256(p, d0);
    let diff = if new.lt(&ideal) {
        sub_u256(ideal, new)?
    } else {
        sub_u256(new, ideal)?
    };
    let f = div_u256(mul_u256(fee_eff, diff)?, denom);
    let share = div_u256(mul_u256(f, admin_fee)?, denom);
    let adm2 = add_u256(adm, share)?;
    let b = sub_u256(new, f)?;
    Ok((b, adm2))
}

/// A deposit of `a0` and `a1` into a pool holding `b0` and `b1`, with
/// `supply` units outstanding and owner balances `adm0`, `adm1`. The
/// amount of the outcome is the number of units minted.
pub open spec fn spec_add_liquidity(
    b0: nat,
    b1: nat,
    a0: nat,
    a1: nat,
    supply: nat,
    amp: nat,
    fee: nat,
    admin_fee: nat,
    adm0: nat,
    adm1: nat,
    min_mint: nat,
) -> Result<OutcomeSpec, PoolError> {
    let d0r = if supply == 0 {
        Ok(0nat)
    } else {
        spec_get_d(b0, b1, amp)
    };
    match d0r {
        Err(e) => Err(e),
        Ok(d0) => if !(fits(b0 + a0) && fits(b1 + a1)) {
            Err(PoolError::Overflow)
        } else {
            let n0 = b0 + a0;
            let n1 = b1 + a1;
            match spec_get_d(n0, n1, amp) {
                Err(e) => Err(e),
                Ok(d1) => if d1 <= d0 {
                    Err(PoolError::InvariantNotIncreasing)
                } else if supply == 0 {
                    finish_mint(OutcomeSpec { b0: n0, b1: n1, adm0, adm1, amount: d1 }, min_mint)
                } else {
                    let fe = fee * 2 / 4;
                    match spec_settle_coin(d0, d1, b0, n0, adm0, fe, admin_fee) {
                        Err(e) => Err(e),
                        Ok((m0, g0)) => match spec_settle_coin(d0, d1, b1, n1, adm1, fe, admin_fee) {
                            Err(e) => Err(e),
                            Ok((m1, g1)) => match spec_get_d(m0, m1, amp) {
                                Err(e) => Err(e),
                                Ok(d2) => if !(d0 <= d2 && fits(supply * (d2 - d0) as nat)) {
                                    Err(PoolError::Overflow)
                                } else {
                                    finish_mint(
                                        OutcomeSpec {
                                            b0: m0,
                                            b1: m1,
                                            adm0: g0,
                                            adm1: g1,
                                            amount: supply * (d2 - d0) as nat / d0,
                                        },
                                        min_mint,
                                    )
                                },
                            },
                        },
                    }
                },
            }
        },
    }
}

/// The last checks of a deposit: at least `min_mint` units, and no more
/// than a `u128` can count.
pub open spec fn finish_mint(o: OutcomeSpec, min_mint: nat) -> Result<OutcomeSpec, PoolError> {
    if o.amount < min_mint {
        Err(PoolError::SlippageExceeded)
    } else if o.amount >= u128_modulus() {
        Err(PoolError::BadParameter)
    } else {
        Ok(o)
    }
}

/// The effective imbalance fee: `fee * N_COINS / (4 * (N_COINS - 1))`.
fn effective_fee(fee: u128) -> (r: U256)
    ensures
        r@ == fee as nat * 2 / 4,
{
    let f = U256::from_u128(fee);
    let two = U256::from_u128(N_COINS);
    assert(fits(fee as nat * 2));
    let p = match mul_u256(f, two) {
        Ok(v) => v,
        Err(_) => U256::zero(),
    };
    div_u256(p, U256::from_u128(4 * (N_COINS - 1)))
}

fn finish_mint_exec(o: Outcome, min_mint: u128) -> (r: Result<Outcome, PoolError>)
    ensures
        outcome_of(r) == finish_mint(outcome_spec(o), min_mint as nat),
{
    if o.amount.lt(&U256::from_u128(min_mint)) {
        return Err(PoolError::SlippageExceeded);
    }
    if o.amount.to_u128().is_none() {
        return Err(PoolError::BadParameter);
    }
    Ok(o)
}

/// What a deposit of `amounts` mints, and the balances it leaves.
pub fn calc_add_liquidity(
    old: [U256; 2],
    amounts: [u128; 2],
    supply: u128,
    amp: U256,
    fee: u128,
    admin_fee: u128,
    admin_balances: [U256; 2],
    min_mint: u128,
) -> (r: Result<Outcome, PoolError>)
    ensures
        outcome_of(r) == spec_add_liquidity(
            old[0]@,
            old[1]@,
            amounts[0] as nat,
            amounts[1] as nat,
            supply as nat,
            amp@,
            fee as nat,
            admin_fee as nat,
            admin_balances[0]@,
            admin_balances[1]@,
            min_mint as nat,
        ),
{
    let d0 = if supply == 0 {
        U256::zero()
    } else {
        get_D(&old, amp)?
    };
    let n0 = add_u256(old[0], U256::from_u128(amounts[0]))?;
    let n1 = add_u256(old[1], U256::from_u128(amounts[1]))?;
    let d1 = get_D(&[n0, n1], amp)?;
    if !d0.lt(&d1) {
        return Err(PoolError::InvariantNotIncreasing);
    }
    if supply == 0 {
        return finish_mint_exec(
            Outcome { balances: [n0, n1], admin_balances, amount: d1 },
            min_mint,
        );
    }
    let fe = effective_fee(fee);
    let af = U256::from_u128(admin_fee);
    let (m0, g0) = settle_coin(d0, d1, old[0], n0, admin_balances[0], fe, af)?;
    let (m1, g1) = settle_coin(d0, d1, old[1], n1, admin_balances[1], fe, af)?;
    let d2 = get_D(&[m0, m1], amp)?;
    let grown = sub_u256(d2, d0)?;
    let scaled = mul_u256(U256::from_u128(supply), grown)?;
    let mint = div_u256(scaled, d0);
    finish_mint_exec(Outcome { balances: [m0, m1], admin_balances: [g0, g1], amount: mint }, min_mint)
}

/// One coin of a balanced withdrawal of `amount` of `supply` units from a
/// balance `b`: the coins paid out.
pub open spec fn spec_share_out(b: nat, amount: nat, supply: nat, min_out: nat) -> Result<
    nat,
    PoolError,
> {
    if supply == 0 {
        Err(PoolError::DegenerateState)
    } else if !fits(b * amount) {
        Err(PoolError::Overflow)
    } else if b * amount / supply < min_out {
        Err(PoolError::WithdrawalBelowMin)
    } else if b * amount / supply > b {
        Err(PoolError::InsufficientPoolBalance)
    } else if b * amount / supply >= u128_modulus() {
        Err(PoolError::BadParameter)
    } else {
        Ok(b * amount / supply)
    }
}

/// A balanced withdrawal: the coins paid out for `amount` units, coin 0 first.
pub open spec fn spec_remove_liquidity(
    b0: nat,
    b1: nat,
    supply: nat,
    amount: nat,
    min0: nat,
    min1: nat,
) -> Result<(nat, nat), PoolError> {
    match spec_share_out(b0, amount, supply, min0) {
        Err(e) => Err(e),
        Ok(o0) => match spec_share_out(b1, amount, supply, min1) {
            Err(e) => Err(e),
            Ok(o1) => Ok((o0, o1)),
        },
    }
}

fn share_out(b: U256, amount: u128, supply: u128, min_out: u128) -> (r: Result<u128, PoolError>)
    ensures
        match spec_share_out(b@, amount as nat, supply as nat, min_out as nat) {
            Ok(v) => r == Ok::<u128, PoolError>(v as u128),
            Err(e) => r == Err::<u128, PoolError>(e),
        },
{
    if supply == 0 {
        return Err(PoolError::DegenerateState);
    }
    let p = mul_u256(b, U256::from_u128(amount))?;
    let out = div_u256(p, U256::from_u128(supply));
    if out.lt(&U256::from_u128(min_out)) {
        return Err(PoolError::WithdrawalBelowMin);
    }
    if b.lt(&out) {
        return Err(PoolError::InsufficientPoolBalance);
    }
    match out.to_u128() {
        Some(v) => Ok(v),
        None => Err(PoolError::BadParameter),
    }
}

/// The coins that a balanced withdrawal of `amount` units pays out.
pub fn calc_remove_liquidity(
    balances: [U256; 2],
    supply: u128,
    amount: u128,
    min_amounts: [u128; 2],
) -> (r: Result<[u128; 2], PoolError>)
    ensures
        match spec_remove_liquidity(
            balances[0]@,
            balances[1]@,
            supply as nat,
            amount as nat,
            min_amounts[0] as nat,
            min_amounts[1] as nat,
        ) {
            Ok((o0, o1)) => r matches Ok(outs) && outs[0] as nat == o0 && outs[1] as nat == o1,
            Err(e) => r == Err::<[u128; 2], PoolError>(e),
        },
{
    let o0 = share_out(balances[0], amount, supply, min_amounts[0])?;
    let o1 = share_out(balances[1], amount, supply, min_amounts[1])?;
    Ok([o0, o1])
}

/// A withdrawal of exactly `a0` and `a1` from a pool holding `b0` and
/// `b1`. The balances of the outcome are the balances less the amounts (the
/// imbalance fees reach the owner's balances and the burn, not the
/// balances); its amount is the number of units burned.
pub open spec fn spec_remove_liquidity_imbalance(
    b0: nat,
    b1: nat,
    a0: nat,
    a1: nat,
    supply: nat,
    amp: nat,
    fee: nat,
    admin_fee: nat,
    adm0: nat,
    adm1: nat,
    max_burn: nat,
) -> Result<OutcomeSpec, PoolError> {
    match spec_get_d(b0, b1, amp) {
        Err(e) => Err(e),
        Ok(d0) => if a0 > b0 || a1 > b1 {
            Err(PoolError::InsufficientPoolBalance)
        } else {
            let n0 = (b0 - a0) as nat;
            let n1 = (b1 - a1) as nat;
            let fe = fee * 2 / 4;
            match spec_get_d(n0, n1, amp) {
                Err(e) => Err(e),
                Ok(d1) => match spec_settle_coin(d0, d1, b0, n0, adm0, fe, admin_fee) {
                    Err(e) => Err(e),
                    Ok((m0, g0)) => match spec_settle_coin(d0, d1, b1, n1, adm1, fe, admin_fee) {
                        Err(e) => Err(e),
                        Ok((m1, g1)) => match spec_get_d(m0, m1, amp) {
                            Err(e) => Err(e),
                            Ok(d2) => if !(d2 <= d0 && fits(supply * (d0 - d2) as nat)) {
                                Err(PoolError::Overflow)
                            } else if supply * (d0 - d2) as nat / d0 > max_burn {
                                Err(PoolError::SlippageExceeded)
                            } else {
                                Ok(
                                    OutcomeSpec {
                                        b0: n0,
                                        b1: n1,
                                        adm0: g0,
                                        adm1: g1,
                                        amount: supply * (d0 - d2) as nat / d0,
                                    },
                                )
                            },
                        },
                    },
                },
            }
        },
    }
}

/// The units burned by a withdrawal of exactly `amounts`, and the balances
/// it leaves.
pub fn calc_remove_liquidity_imbalance(
    old: [U256; 2],
    amounts: [u128; 2],
    supply: u128,
    amp: U256,
    fee: u128,
    admin_fee: u128,
    admin_balances: [U256; 2],
    max_burn: u128,
) -> (r: Result<Outcome, PoolError>)
    ensures
        outcome_of(r) == spec_remove_liquidity_imbalance(
            old[0]@,
            old[1]@,
            amounts[0] as nat,
            amounts[1] as nat,
            supply as nat,
            amp@,
            fee as nat,
            admin_fee as nat,
            admin_balances[0]@,
            admin_balances[1]@,
            max_burn as nat,
        ),
{
    let d0 = get_D(&old, amp)?;
    let a0 = U256::from_u128(amounts[0]);
    let a1 = U256::from_u128(amounts[1]);
    if old[0].lt(&a0) || old[1].lt(&a1) {
        return Err(PoolError::InsufficientPoolBalance);
    }
    let n0 = sub_u256(old[0], a0)?;
    let n1 = sub_u256(old[1], a1)?;
    let fe = effective_fee(fee);
    let af = U256::from_u128(admin_fee);
    let d1 = get_D(&[n0, n1], amp)?;
    let (m0, g0) = settle_coin(d0, d1, old[0], n0, admin_balances[0], fe, af)?;
    let (m1, g1) = settle_coin(d0, d1, old[1], n1, admin_balances[1], fe, af)?;
    let d2 = get_D(&[m0, m1], amp)?;
    let shrunk = sub_u256(d0, d2)?;
    let scaled = mul_u256(U256::from_u128(supply), shrunk)?;
    let burn = div_u256(scaled, d0);
    if U256::from_u128(max_burn).lt(&burn) {
        return Err(PoolError::SlippageExceeded);
    }
    Ok(Outcome { balances: [n0, n1], admin_balances: [g0, g1], amount: burn })
}

/// Coin `j` of the balances `xp` less its part of the withdrawal fee, for a
/// one-coin withdrawal of coin `i` that takes the invariant from `d0` to
/// `d1`, with `new_y` the balance of coin `i` at `d1`.
pub open spec fn spec_reduce_coin(xj: nat, is_i: bool, d0: nat, d1: nat, new_y: nat, fee: nat) -> Result<
    nat,
    PoolError,
> {
    let t = xj * d1 / d0;
    let expected = if is_i {
        t - new_y
    } else {
        xj - t
    };
    if !fits(xj * d1) {
        Err(PoolError::Overflow)
    } else if d0 == 0 {
        Err(PoolError::DegenerateState)
    } else if (is_i && t < new_y) || (!is_i && t > xj) {
        Err(PoolError::Overflow)
    } else if !fits(fee * expected as nat) || fee * expected as nat / fee_denominator() > xj {
        Err(PoolError::Overflow)
    } else {
        Ok((xj - fee * expected as nat / fee_denominator()) as nat)
    }
}

/// The coins of coin `i` that burning `token_amount` of `supply` units pays
/// out, the withdrawal fee deducted and one unit kept back for rounding.
pub open spec fn spec_calc_withdraw_one_coin(
    b0: nat,
    b1: nat,
    supply: nat,
    amp: nat,
    fee: nat,
    token_amount: nat,
    i: int,
) -> Result<nat, PoolError> {
    match spec_get_d(b0, b1, amp) {
        Err(e) => Err(e),
        Ok(d0) => if !fits(token_amount * d0) {
            Err(PoolError::Overflow)
        } else if supply == 0 {
            Err(PoolError::DegenerateState)
        } else if token_amount * d0 / supply > d0 {
            Err(PoolError::Overflow)
        } else {
            let d1 = (d0 - token_amount * d0 / supply) as nat;
            match spec_get_y_d(amp, i, seq![b0, b1], d1) {
                Err(e) => Err(e),
                Ok(new_y) => match spec_reduce_coin(b0, i == 0, d0, d1, new_y, fee) {
                    Err(e) => Err(e),
                    Ok(r0) => match spec_reduce_coin(b1, i == 1, d0, d1, new_y, fee) {
                        Err(e) => Err(e),
                        Ok(r1) => match spec_get_y_d(amp, i, seq![r0, r1], d1) {
                            Err(e) => Err(e),
                            Ok(y2) => {
                                let ri = if i == 0 {
                                    r0
                                } else {
                                    r1
                                };
                                if y2 > ri || ri - y2 < 1 {
                                    Err(PoolError::Overflow)
                                } else {
                                    Ok((ri - y2 - 1) as nat)
                                }
                            },
                        },
                    },
                },
            }
        },
    }
}

fn reduce_coin(xj: U256, is_i: bool, d0: U256, d1: U256, new_y: U256, fee: U256) -> (r: Result<
    U256,
    PoolError,
>)
    ensures
        value_of(r) == spec_reduce_coin(xj@, is_i, d0@, d1@, new_y@, fee@),
{
    let p = mul_u256(xj, d1)?;
    if d0.is_zero() {
        return Err(PoolError::DegenerateState);
    }
    let t = div_u256(p, d0);
    let expected = if is_i {
        sub_u256(t, new_y)?
    } else {
        sub_u256(xj, t)?
    };
    let cut = div_u256(mul_u256(fee, expected)?, U256::from_u128(FEE_DENOMINATOR));
    sub_u256(xj, cut)
}

/// The coins of coin `i` paid out for burning `token_amount` units.
pub fn calc_withdraw_one_coin(
    balances: [U256; 2],
    supply: u128,
    amp: U256,
    fee: u128,
    token_amount: u128,
    i: usize,
) -> (r: Result<U256, PoolError>)
    requires
        i < 2,
    ensures
        value_of(r) == spec_calc_withdraw_one_coin(
            balances[0]@,
            balances[1]@,
            supply as nat,
            amp@,
            fee as nat,
            token_amount as nat,
            i as int,
        ),
{
    let d0 = get_D(&balances, amp)?;
    let p = mul_u256(U256::from_u128(token_amount), d0)?;
    if supply == 0 {
        return Err(PoolError::DegenerateState);
    }
    let cut = div_u256(p, U256::from_u128(supply));
    let d1 = sub_u256(d0, cut)?;
    let new_y = get_y_D(amp, i, &balances, d1)?;
    let f = U256::from_u128(fee);
    let r0 = reduce_coin(balances[0], i == 0, d0, d1, new_y, f)?;
    let r1 = reduce_coin(balances[1], i == 1, d0, d1, new_y, f)?;
    let reduced = [r0, r1];
    let y2 = get_y_D(amp, i, &reduced, d1)?;
    let ri = reduced[i];
    let dy = sub_u256(ri, y2)?;
    sub_u256(dy, U256::from_u128(1))
}

/// A swap of `dx` of coin `i` for coin `j`. The amount of the outcome is
/// the coins of `j` paid out.
pub open spec fn spec_exchange(
    b0: nat,
    b1: nat,
    amp: nat,
    fee: nat,
    admin_fee: nat,
    adm0: nat,
    adm1: nat,
    i: int,
    j: int,
    dx: nat,
    min_dy: nat,
) -> Result<OutcomeSpec, PoolError> {
    let xp = seq![b0, b1];
    if dx == 0 {
        Err(PoolError::DegenerateState)
    } else if !fits(xp[i] + dx) {
        Err(PoolError::Overflow)
    } else {
        match spec_get_d(b0, b1, amp) {
            Err(e) => Err(e),
            Ok(d) => match spec_get_y(i, j, xp[i] + dx, xp, amp, d) {
                Err(e) => Err(e),
                Ok(y) => {
                    let gross = (xp[j] - y) as nat;
                    let dy_fee = gross * fee / fee_denominator();
                    let dy = (gross - dy_fee) as nat;
                    let share = dy_fee * admin_fee / fee_denominator();
                    let adm = seq![adm0, adm1];
                    if !(y <= xp[j] && fits(gross * fee) && dy_fee <= gross) {
                        Err(PoolError::Overflow)
                    } else if admin_fee > 0 && !(fits(dy_fee * admin_fee) && fits(adm[j] + share)) {
                        Err(PoolError::Overflow)
                    } else if dy < min_dy {
                        Err(PoolError::SlippageExceeded)
                    } else if dy >= u128_modulus() {
                        Err(PoolError::BadParameter)
                    } else {
                        let new_adm = if admin_fee > 0 {
                            adm.update(j, adm[j] + share)
                        } else {
                            adm
                        };
                        let new_b = xp.update(i, xp[i] + dx).update(j, (xp[j] - dy) as nat);
                        Ok(
                            OutcomeSpec {
                                b0: new_b[0],
                                b1: new_b[1],
                                adm0: new_adm[0],
                                adm1: new_adm[1],
                                amount: dy,
                            },
                        )
                    }
                },
            },
        }
    }
}

/// What a swap of `dx` of coin `i` pays out of coin `j`, and the balances
/// it leaves.
#[verifier::rlimit(50)]
pub fn calc_exchange(
    balances: [U256; 2],
    amp: U256,
    fee: u128,
    admin_fee: u128,
    admin_balances: [U256; 2],
    i: usize,
    j: usize,
    dx: u128,
    min_dy: u128,
) -> (r: Result<Outcome, PoolError>)
    requires
        i < 2,
        j < 2,
        i != j,
    ensures
        outcome_of(r) == spec_exchange(
            balances[0]@,
            balances[1]@,
            amp@,
            fee as nat,
            admin_fee as nat,
            admin_balances[0]@,
            admin_balances[1]@,
            i as int,
            j as int,
            dx as nat,
            min_dy as nat,
        ),
{
    if dx == 0 {
        return Err(PoolError::DegenerateState);
    }
    let x = add_u256(balances[i], U256::from_u128(dx))?;
    let d = get_D(&balances, amp)?;
    let y = get_y(i, j, x, &balances, amp, d)?;
    let gross = sub_u256(balances[j], y)?;
    let denom = U256::from_u128(FEE_DENOMINATOR);
    let dy_fee = div_u256(mul_u256(gross, U256::from_u128(fee))?, denom);
    let dy = sub_u256(gross, dy_fee)?;
    let mut adm = admin_balances;
    if admin_fee > 0 {
        let share = div_u256(mul_u256(dy_fee, U256::from_u128(admin_fee))?, denom);
        adm[j] = add_u256(adm[j], share)?;
    }
    if dy.lt(&U256::from_u128(min_dy)) {
        return Err(PoolError::SlippageExceeded);
    }
    if dy.to_u128().is_none() {
        return Err(PoolError::BadParameter);
    }
    let mut b = balances;
    b[i] = x;
    b[j] = sub_u256(balances[j], dy)?;
    Ok(Outcome { balances: b, admin_balances: adm, amount: dy })
}

/// The virtual price: `D * PRECISION / supply`; with no supply it is
/// `DegenerateState` before anything is computed.
pub open spec fn spec_virtual_price(b0: nat, b1: nat, amp: nat, supply: nat) -> Result<
    nat,
    PoolError,
> {
    if supply == 0 {
        Err(PoolError::DegenerateState)
    } else {
        match spec_get_d(b0, b1, amp) {
            Err(e) => Err(e),
            Ok(d) => if !fits(d * PRECISION as nat) {
                Err(PoolError::Overflow)
            } else {
                Ok(d * PRECISION as nat / supply)
            },
        }
    }
}

/// The value of one unit of liquidity, scaled by `PRECISION`.
pub fn calc_virtual_price(balances: [U256; 2], amp: U256, supply: u128) -> (r: Result<
    U256,
    PoolError,
>)
    ensures
        value_of(r) == spec_virtual_price(balances[0]@, balances[1]@, amp@, supply as nat),
{
    if supply == 0 {
        return Err(PoolError::DegenerateState);
    }
    let d = get_D(&balances, amp)?;
    let p = mul_u256(d, U256::from_u128(PRECISION))?;
    Ok(div_u256(p, U256::from_u128(supply)))
}

} // verus!
