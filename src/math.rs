//! The stableswap invariant `D` and the per-coin roots `y`, computed by
//! bounded fixed-point iteration on 256-bit integers.
//!
//! Every multiplication is checked: an intermediate that does not fit in
//! 256 bits is `Overflow`. A zero divisor is `DegenerateState`. An iteration
//! that has not settled after `MAX_ITERATIONS` steps is `DoesNotConverge`.
use crate::error::PoolError;
use crate::u256::{u256_modulus, U256};
use vstd::prelude::*;

verus! {

/// The number of pooled coins.
pub const N_COINS: u128 = 2;

/// The scaling of the amplification that the iterations carry inside them.
pub const A_PRECISION: u128 = 100;

/// The bound on the steps of each iteration.
pub const MAX_ITERATIONS: usize = 255;

pub open spec fn fits(v: nat) -> bool {
    v < u256_modulus()
}

/// A computed 256-bit result seen as a number.
pub open spec fn value_of(r: Result<U256, PoolError>) -> Result<nat, PoolError> {
    match r {
        Ok(v) => Ok(v@),
        Err(e) => Err(e),
    }
}

/// Two numbers at most one apart.
pub open spec fn within_one(a: nat, b: nat) -> bool {
    a <= b + 1 && b <= a + 1
}

/// `a - b`, floored at zero.
pub open spec fn sat_sub(a: nat, b: nat) -> nat {
    if a >= b {
        (a - b) as nat
    } else {
        0
    }
}

/// One step of the iteration for `D`, from `d`, for balances `x0`, `x1`,
/// `ann = A * N_COINS` and `s = x0 + x1`.
pub open spec fn d_step(x0: nat, x1: nat, ann: nat, s: nat, d: nat) -> Result<nat, PoolError> {
    let p0 = d * d;
    let q0 = x0 * 2 + 1;
    let dp1 = p0 / q0;
    let p1 = dp1 * d;
    let q1 = x1 * 2 + 1;
    let dp = p1 / q1;
    let t1 = ann * s;
    let t2 = dp * 2;
    let t3 = t1 / 100 + t2;
    let num = t3 * d;
    let u1 = sat_sub(ann, 100) * d;
    let u2 = 3 * dp;
    let den = u1 / 100 + u2;
    if !(fits(p0) && fits(x0 * 2) && fits(q0) && fits(p1) && fits(x1 * 2) && fits(q1) && fits(t1)
        && fits(t2) && fits(t3) && fits(num) && fits(u1) && fits(u2) && fits(den)) {
        Err(PoolError::Overflow)
    } else if den == 0 {
        Err(PoolError::DegenerateState)
    } else {
        Ok(num / den)
    }
}

/// The iteration for `D` from `d` with `fuel` steps left.
pub open spec fn d_iterate(x0: nat, x1: nat, ann: nat, s: nat, d: nat, fuel: nat) -> Result<
    nat,
    PoolError,
>
    decreases fuel,
{
    if fuel == 0 {
        Err(PoolError::DoesNotConverge)
    } else {
        match d_step(x0, x1, ann, s, d) {
            Err(e) => Err(e),
            Ok(next) => if within_one(next, d) {
                Ok(next)
            } else {
                d_iterate(x0, x1, ann, s, next, (fuel - 1) as nat)
            },
        }
    }
}

/// The invariant `D` of balances `x0`, `x1` under amplification `amp`.
pub open spec fn spec_get_d(x0: nat, x1: nat, amp: nat) -> Result<nat, PoolError> {
    let s = x0 + x1;
    if !fits(s) {
        Err(PoolError::Overflow)
    } else if s == 0 {
        Ok(0)
    } else if !fits(amp * 2) {
        Err(PoolError::Overflow)
    } else {
        d_iterate(x0, x1, amp * 2, s, s, MAX_ITERATIONS as nat)
    }
}

/// One step of the iteration for `y`: `(y*y + c) / (2*y + b - d)`.
pub open spec fn y_step(c: nat, b: nat, d: nat, y: nat) -> Result<nat, PoolError> {
    let num = y * y + c;
    let w = 2 * y + b;
    if !(fits(y * y) && fits(num) && fits(2 * y) && fits(w) && w >= d) {
        Err(PoolError::Overflow)
    } else if w - d == 0 {
        Err(PoolError::DegenerateState)
    } else {
        Ok(num / (w - d) as nat)
    }
}

/// The iteration for `y` from `y` with `fuel` steps left.
pub open spec fn y_iterate(c: nat, b: nat, d: nat, y: nat, fuel: nat) -> Result<nat, PoolError>
    decreases fuel,
{
    if fuel == 0 {
        Err(PoolError::DoesNotConverge)
    } else {
        match y_step(c, b, d, y) {
            Err(e) => Err(e),
            Ok(next) => if within_one(next, y) {
                Ok(next)
            } else {
                y_iterate(c, b, d, next, (fuel - 1) as nat)
            },
        }
    }
}

/// The balance of one coin that, with `x` of the other coin, keeps the
/// invariant at `d` under amplification `amp`. A zero `x` or `amp` would
/// divide by zero, and is `DegenerateState` whatever else overflows.
pub open spec fn spec_solve_y(amp: nat, x: nat, d: nat) -> Result<nat, PoolError> {
    let ann = amp * 2;
    let c1 = d * d / (x * 2);
    let c3 = c1 * d * 100;
    let c = c3 / (ann * 2);
    let b = x + d * 100 / ann;
    if x == 0 || amp == 0 {
        Err(PoolError::DegenerateState)
    } else if !(fits(ann) && fits(d * d) && fits(x * 2)) {
        Err(PoolError::Overflow)
    } else if !(fits(c1 * d) && fits(c3) && fits(ann * 2)) {
        Err(PoolError::Overflow)
    } else if !(fits(d * 100) && fits(b)) {
        Err(PoolError::Overflow)
    } else {
        y_iterate(c, b, d, d, MAX_ITERATIONS as nat)
    }
}

/// The new balance of coin `j` when coin `i` is set to `x`.
pub open spec fn spec_get_y(i: int, j: int, x: nat, xp: Seq<nat>, amp: nat, d: nat) -> Result<
    nat,
    PoolError,
> {
    spec_solve_y(amp, x, d)
}

/// The balance of coin `i` that brings the invariant to `d`, the other
/// coin kept as it is in `xp`.
pub open spec fn spec_get_y_d(amp: nat, i: int, xp: Seq<nat>, d: nat) -> Result<nat, PoolError> {
    spec_solve_y(amp, xp[1 - i], d)
}

pub open spec fn checked(v: nat) -> Result<nat, PoolError> {
    if fits(v) {
        Ok(v)
    } else {
        Err(PoolError::Overflow)
    }
}

pub(crate) fn add_u256(a: U256, b: U256) -> (r: Result<U256, PoolError>)
    ensures
        value_of(r) == checked(a@ + b@),
{
    match a.checked_add(b) {
        Some(v) => Ok(v),
        None => Err(PoolError::Overflow),
    }
}

pub(crate) fn mul_u256(a: U256, b: U256) -> (r: Result<U256, PoolError>)
    ensures
        value_of(r) == checked(a@ * b@),
{
    match a.checked_mul(b) {
        Some(v) => Ok(v),
        None => Err(PoolError::Overflow),
    }
}

/// `a - b`, or `Overflow` where `b` exceeds `a`.
pub open spec fn checked_diff(a: nat, b: nat) -> Result<nat, PoolError> {
    if b <= a {
        Ok((a - b) as nat)
    } else {
        Err(PoolError::Overflow)
    }
}

pub(crate) fn sub_u256(a: U256, b: U256) -> (r: Result<U256, PoolError>)
    ensures
        value_of(r) == checked_diff(a@, b@),
{
    match a.checked_sub(b) {
        Some(v) => Ok(v),
        None => Err(PoolError::Overflow),
    }
}

/// Division by a divisor known to be positive.
pub(crate) fn div_u256(a: U256, b: U256) -> (r: U256)
    requires
        b@ > 0,
    ensures
        r@ == a@ / b@,
{
    match a.checked_div(b) {
        Some(v) => v,
        None => U256::zero(),
    }
}

/// Whether `a` and `b` are at most one apart.
fn close(a: U256, b: U256) -> (r: bool)
    ensures
        r == within_one(a@, b@),
{
    let one = U256::from_u128(1);
    let (hi, lo) = if a.lt(&b) {
        (b, a)
    } else {
        (a, b)
    };
    match hi.checked_sub(lo) {
        Some(diff) => !one.lt(&diff),
        None => false,
    }
}

fn exec_d_step(x0: U256, x1: U256, ann: U256, s: U256, d: U256) -> (r: Result<U256, PoolError>)
    ensures
        value_of(r) == d_step(x0@, x1@, ann@, s@, d@),
{
    let one = U256::from_u128(1);
    let two = U256::from_u128(N_COINS);
    let three = U256::from_u128(N_COINS + 1);
    let hundred = U256::from_u128(A_PRECISION);
    let p0 = mul_u256(d, d)?;
    let q0 = add_u256(mul_u256(x0, two)?, one)?;
    let dp1 = div_u256(p0, q0);
    let p1 = mul_u256(dp1, d)?;
    let q1 = add_u256(mul_u256(x1, two)?, one)?;
    let dp = div_u256(p1, q1);
    let t1 = mul_u256(ann, s)?;
    let t2 = mul_u256(dp, two)?;
    let t3 = add_u256(div_u256(t1, hundred), t2)?;
    let num = mul_u256(t3, d)?;
    let ann_less = match ann.checked_sub(hundred) {
        Some(v) => v,
        None => U256::zero(),
    };
    let u1 = mul_u256(ann_less, d)?;
    let u2 = mul_u256(three, dp)?;
    let den = add_u256(div_u256(u1, hundred), u2)?;
    if den.is_zero() {
        return Err(PoolError::DegenerateState);
    }
    Ok(div_u256(num, den))
}

/// The curve invariant `D` of the balances `xp` under amplification `amp`.
#[allow(non_snake_case)]
pub fn get_D(xp: &[U256; 2], amp: U256) -> (r: Result<U256, PoolError>)
    ensures
        value_of(r) == spec_get_d(xp[0]@, xp[1]@, amp@),
{
    let s = add_u256(xp[0], xp[1])?;
    if s.is_zero() {
        return Ok(U256::zero());
    }
    let ann = mul_u256(amp, U256::from_u128(N_COINS))?;
    let mut d = s;
    let mut k: usize = 0;
    while k < MAX_ITERATIONS
        invariant
            k <= MAX_ITERATIONS,
            s@ == xp[0]@ + xp[1]@,
            ann@ == amp@ * 2,
            fits(s@),
            s@ != 0,
            spec_get_d(xp[0]@, xp[1]@, amp@) == d_iterate(
                xp[0]@,
                xp[1]@,
                ann@,
                s@,
                d@,
                (MAX_ITERATIONS - k) as nat,
            ),
        decreases MAX_ITERATIONS - k,
    {
        let next = exec_d_step(xp[0], xp[1], ann, s, d)?;
        if close(next, d) {
            return Ok(next);
        }
        d = next;
        k = k + 1;
    }
    Err(PoolError::DoesNotConverge)
}

fn exec_y_step(c: U256, b: U256, d: U256, y: U256) -> (r: Result<U256, PoolError>)
    ensures
        value_of(r) == y_step(c@, b@, d@, y@),
{
    let num = add_u256(mul_u256(y, y)?, c)?;
    let w = add_u256(mul_u256(U256::from_u128(2), y)?, b)?;
    let den = match w.checked_sub(d) {
        Some(v) => v,
        None => return Err(PoolError::Overflow),
    };
    if den.is_zero() {
        return Err(PoolError::DegenerateState);
    }
    Ok(div_u256(num, den))
}

/// Solves for the balance of one coin given `x` of the other and the invariant `d`.
fn solve_y(amp: U256, x: U256, d: U256) -> (r: Result<U256, PoolError>)
    ensures
        value_of(r) == spec_solve_y(amp@, x@, d@),
{
    if x.is_zero() || amp.is_zero() {
        return Err(PoolError::DegenerateState);
    }
    let two = U256::from_u128(N_COINS);
    let hundred = U256::from_u128(A_PRECISION);
    let ann = mul_u256(amp, two)?;
    let dd = mul_u256(d, d)?;
    let x2 = mul_u256(x, two)?;
    let c1 = div_u256(dd, x2);
    let c3 = mul_u256(mul_u256(c1, d)?, hundred)?;
    let ann2 = mul_u256(ann, two)?;
    let c = div_u256(c3, ann2);
    let b = add_u256(x, div_u256(mul_u256(d, hundred)?, ann))?;
    let mut y = d;
    let mut k: usize = 0;
    while k < MAX_ITERATIONS
        invariant
            k <= MAX_ITERATIONS,
            spec_solve_y(amp@, x@, d@) == y_iterate(
                c@,
                b@,
                d@,
                y@,
                (MAX_ITERATIONS - k) as nat,
            ),
        decreases MAX_ITERATIONS - k,
    {
        let next = exec_y_step(c, b, d, y)?;
        if close(next, y) {
            return Ok(next);
        }
        y = next;
        k = k + 1;
    }
    Err(PoolError::DoesNotConverge)
}

/// The new balance of coin `j` when the balance of coin `i` is set to `x`,
/// keeping the invariant at `d`.
pub fn get_y(i: usize, j: usize, x: U256, xp: &[U256; 2], amp: U256, d: U256) -> (r: Result<
    U256,
    PoolError,
>)
    requires
        i != j,
        i < 2,
        j < 2,
    ensures
        value_of(r) == spec_get_y(i as int, j as int, x@, seq![xp[0]@, xp[1]@], amp@, d@),
{
    solve_y(amp, x, d)
}

/// The balance of coin `i` that brings the invariant of `xp` to `d`, the
/// other coin unchanged.
#[allow(non_snake_case)]
pub fn get_y_D(amp: U256, i: usize, xp: &[U256; 2], d: U256) -> (r: Result<U256, PoolError>)
    requires
        i < 2,
    ensures
        value_of(r) == spec_get_y_d(amp@, i as int, seq![xp[0]@, xp[1]@], d@),
{
    let other = if i == 0 {
        xp[1]
    } else {
        xp[0]
    };
    solve_y(amp, other, d)
}

} // verus!
