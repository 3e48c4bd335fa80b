use synth_pool::amm::{calc_exchange, calc_virtual_price};
use synth_pool::error::PoolError;
use synth_pool::math::{get_D, get_y, get_y_D};
use synth_pool::u256::U256;

fn n(v: u128) -> U256 {
    U256::from_u128(v)
}

fn val(v: U256) -> u128 {
    v.to_u128().unwrap()
}

#[test]
fn invariant_of_equal_balances() {
    let d = get_D(&[n(1_000_000), n(1_000_000)], n(100)).unwrap();
    assert_eq!(val(d), 2_000_000);
}

#[test]
fn invariant_of_empty_pool_is_zero() {
    let d = get_D(&[n(0), n(0)], n(100)).unwrap();
    assert!(d.is_zero());
}

#[test]
fn invariant_of_unequal_balances() {
    let d = get_D(&[n(900_000), n(800_000)], n(100)).unwrap();
    let d_val = val(d);
    assert!(d_val < 1_700_000);
    assert!(d_val > 1_690_000);
}

#[test]
fn root_after_a_deposit_of_one_coin() {
    let xp = [n(1_000_000), n(1_000_000)];
    let d = get_D(&xp, n(100)).unwrap();
    let y = get_y(0, 1, n(1_100_000), &xp, n(100), d).unwrap();
    assert_eq!(val(y), 904_772);
    assert!(val(y) < 1_000_000);
}

#[test]
fn root_stays_below_the_other_balance() {
    let xp = [n(1_000_000), n(3_000_000)];
    let d = get_D(&xp, n(100)).unwrap();
    for dx in [1u128, 10, 1_000, 500_000, 1_000_000] {
        let y = get_y(0, 1, n(1_000_000 + dx), &xp, n(100), d).unwrap();
        assert!(val(y) < 3_000_000);
        let y = get_y(1, 0, n(3_000_000 + dx), &xp, n(100), d).unwrap();
        assert!(val(y) < 1_000_000);
    }
}

#[test]
fn root_for_a_lower_invariant() {
    let xp = [n(1_000_000), n(1_000_000)];
    let y = get_y_D(n(100), 0, &xp, n(1_000_000)).unwrap();
    assert!(val(y) < 1_000_000);
    let same = get_y_D(n(100), 0, &xp, n(2_000_000)).unwrap();
    assert_eq!(val(same), 1_000_000);
}

#[test]
fn zero_amplification_is_degenerate() {
    let xp = [n(1_000_000), n(1_000_000)];
    assert_eq!(get_D(&xp, n(0)).err(), Some(PoolError::DegenerateState));
    assert_eq!(get_y(0, 1, n(1_100_000), &xp, n(0), n(2_000_000)).err(), Some(PoolError::DegenerateState));
    assert_eq!(get_y_D(n(0), 0, &xp, n(2_000_000)).err(), Some(PoolError::DegenerateState));
}

#[test]
fn empty_coin_is_degenerate() {
    let xp = [n(0), n(1_000_000)];
    assert_eq!(get_y_D(n(100), 1, &xp, n(500_000)).err(), Some(PoolError::DegenerateState));
}

#[test]
fn tiny_balances_do_not_converge() {
    assert_eq!(get_D(&[n(1), n(1)], n(100)).err(), Some(PoolError::DoesNotConverge));
}

#[test]
fn huge_balances_overflow() {
    let big = U256::from_u128(u128::MAX);
    let huge = big.checked_mul(big).unwrap();
    assert_eq!(get_D(&[huge, huge], n(100)).err(), Some(PoolError::Overflow));
}

#[test]
fn exchange_splits_the_fee() {
    let o = calc_exchange([n(1_000_000), n(1_000_000)], n(100), 4_000_000, 5_000_000_000, [n(0), n(0)], 0, 1, 100_000, 1)
        .unwrap();
    assert_eq!(val(o.amount), 95_190);
    assert_eq!(val(o.balances[0]), 1_100_000);
    assert_eq!(val(o.balances[1]), 904_810);
    assert_eq!(val(o.admin_balances[1]), 19);
    assert!(o.admin_balances[0].is_zero());
}

#[test]
fn exchange_without_admin_fee() {
    let o = calc_exchange([n(1_000_000), n(1_000_000)], n(100), 4_000_000, 0, [n(3), n(4)], 0, 1, 100_000, 1).unwrap();
    assert_eq!(val(o.admin_balances[0]), 3);
    assert_eq!(val(o.admin_balances[1]), 4);
}

#[test]
fn virtual_price_of_a_fresh_pool() {
    let v = calc_virtual_price([n(1_000_000), n(1_000_000)], n(100), 2_000_000).unwrap();
    assert_eq!(val(v), 1_000_000_000_000_000_000);
    assert_eq!(calc_virtual_price([n(1_000_000), n(1_000_000)], n(100), 0).err(), Some(PoolError::DegenerateState));
}

#[test]
fn zero_coin_is_degenerate_before_overflow() {
    let big = U256::from_u128(u128::MAX);
    let huge_d = big.checked_mul(big).unwrap();
    let xp = [n(1), n(1)];
    assert_eq!(get_y(0, 1, n(0), &xp, n(100), huge_d).err(), Some(PoolError::DegenerateState));
    assert_eq!(get_y(0, 1, n(5), &xp, n(0), huge_d).err(), Some(PoolError::DegenerateState));
}

#[test]
fn virtual_price_without_supply_is_degenerate_first() {
    assert_eq!(calc_virtual_price([n(1), n(1)], n(100), 0).err(), Some(PoolError::DegenerateState));
}
