use synth_pool::error::PoolError;
use synth_pool::pool::{CallResponse, Context, Logic};
use synth_pool::message::SynthPoolMessage;
use synth_pool::store::{AssetId, MemoryStorage, Storage, Transfer};
use synth_pool::u256::U256;

const FEE_DENOMINATOR: u128 = 10_000_000_000;

fn alkane_id(s: &str) -> AssetId {
    let mut block_bytes = [0u8; 16];
    let s_bytes = s.as_bytes();
    let len = s_bytes.len().min(16);
    block_bytes[..len].copy_from_slice(&s_bytes[..len]);
    let block = u128::from_le_bytes(block_bytes);
    AssetId { block, tx: 0 }
}

fn token_a() -> AssetId {
    alkane_id("token_a")
}

fn token_b() -> AssetId {
    alkane_id("token_b")
}

fn owner() -> AssetId {
    alkane_id("owner")
}

fn pool_id() -> AssetId {
    alkane_id("pool")
}

fn call(caller: AssetId, incoming: Vec<Transfer>) -> Context {
    Context::new(caller, pool_id(), incoming)
}

fn new_pool(fee: u128, admin_fee: u128) -> Logic<MemoryStorage> {
    let mut logic = Logic::new(MemoryStorage::new());
    logic.context = call(owner(), vec![]);
    logic.init_pool(token_a(), token_b(), 100, fee, admin_fee, owner()).unwrap();
    logic
}

fn deposit(logic: &mut Logic<MemoryStorage>, who: AssetId, a0: u128, a1: u128, min_mint: u128) -> Result<CallResponse, PoolError> {
    logic.context = call(
        who,
        vec![Transfer { id: token_a(), value: a0 }, Transfer { id: token_b(), value: a1 }],
    );
    logic.add_liquidity([a0, a1], min_mint)
}

fn swap_in(logic: &mut Logic<MemoryStorage>, who: AssetId, i: u128, j: u128, dx: u128, min_dy: u128) -> Result<CallResponse, PoolError> {
    let coin = if i == 0 { token_a() } else { token_b() };
    logic.context = call(who, vec![Transfer { id: coin, value: dx }]);
    logic.swap(i, j, dx, min_dy)
}

fn balance(logic: &Logic<MemoryStorage>, i: usize) -> u128 {
    logic.balances(i).to_u128().unwrap()
}

fn admin_balance(logic: &Logic<MemoryStorage>, i: usize) -> u128 {
    logic.admin_balances(i).to_u128().unwrap()
}

/// A pool with the scenario's parameters, bootstrapped with a million of each coin.
fn bootstrapped() -> Logic<MemoryStorage> {
    let mut logic = new_pool(4_000_000, 5_000_000_000);
    deposit(&mut logic, alkane_id("liquidity_provider"), 1_000_000, 1_000_000, 1).unwrap();
    logic
}

#[test]
fn test_initialize_pool() {
    let logic = new_pool(10, 1);
    assert_eq!(logic.coins(0), token_a());
    assert_eq!(logic.coins(1), token_b());
    assert_eq!(logic.A().to_u128().unwrap(), 100u128);
    assert_eq!(logic.fee(), 10);
    assert_eq!(logic.admin_fee(), 1);
    assert_eq!(logic.owner(), owner());
    assert!(logic.initialized());
}

#[test]
fn init_twice_is_refused() {
    let mut logic = new_pool(10, 1);
    let r = logic.init_pool(token_b(), token_a(), 200, 10, 1, owner());
    assert_eq!(r.err(), Some(PoolError::BadParameter));
    assert_eq!(logic.coins(0), token_a());
    assert_eq!(logic.A().to_u128().unwrap(), 100u128);
}

#[test]
fn init_refuses_bad_parameters() {
    for (a, fee, admin_fee, b) in [
        (0u128, 10u128, 1u128, token_b()),
        (100, FEE_DENOMINATOR + 1, 1, token_b()),
        (100, 10, FEE_DENOMINATOR + 1, token_b()),
        (100, 10, 1, token_a()),
    ] {
        let mut logic = Logic::new(MemoryStorage::new());
        let r = logic.init_pool(token_a(), b, a, fee, admin_fee, owner());
        assert_eq!(r.err(), Some(PoolError::BadParameter));
        assert!(!logic.initialized());
    }
}

#[test]
fn operations_need_an_initialized_pool() {
    let mut logic = Logic::new(MemoryStorage::new());
    logic.context = call(owner(), vec![]);
    assert_eq!(logic.add_liquidity([0, 0], 0).err(), Some(PoolError::BadParameter));
    assert_eq!(logic.get_a().err(), Some(PoolError::BadParameter));
    assert_eq!(logic.claim_admin_fees().err(), Some(PoolError::BadParameter));
}

#[test]
fn test_add_liquidity() {
    let mut logic = new_pool(10, 1);
    let liquidity_provider = alkane_id("liquidity_provider");
    deposit(&mut logic, liquidity_provider, 1_000_000, 1_000_000, 1000).unwrap();
    let lp_balance = logic.balance_of(&liquidity_provider);
    assert!(lp_balance > 0);
    assert_eq!(lp_balance, 2_000_000);
}

#[test]
fn test_remove_liquidity_imbalance() {
    let mut logic = new_pool(10, 1);
    let liquidity_provider = alkane_id("liquidity_provider");
    deposit(&mut logic, liquidity_provider, 1_000_000, 1_000_000, 1000).unwrap();
    let lp_balance = logic.balance_of(&liquidity_provider);
    assert!(lp_balance > 0);
    logic.context = call(liquidity_provider, vec![]);
    logic.remove_liquidity_imbalance([100_000, 200_000], lp_balance).unwrap();
    let lp_balance_after = logic.balance_of(&liquidity_provider);
    assert!(lp_balance_after < lp_balance);
}

#[test]
fn test_remove_liquidity_one_coin() {
    let mut logic = new_pool(10, 1);
    let liquidity_provider = alkane_id("liquidity_provider");
    deposit(&mut logic, liquidity_provider, 1_000_000, 1_000_000, 1000).unwrap();
    let lp_balance = logic.balance_of(&liquidity_provider);
    assert!(lp_balance > 0);
    logic.context = call(liquidity_provider, vec![]);
    logic.remove_liquidity_one_coin(lp_balance / 2, 0, 0).unwrap();
    let lp_balance_after = logic.balance_of(&liquidity_provider);
    assert!(lp_balance_after < lp_balance);
}

#[test]
fn test_swap() {
    let mut logic = new_pool(10, 1);
    deposit(&mut logic, alkane_id("liquidity_provider"), 1_000_000, 1_000_000, 1000).unwrap();
    let response = swap_in(&mut logic, alkane_id("swapper"), 0, 1, 100_000, 0).unwrap();
    let swapped_amount = response.alkanes[0].value;
    assert!(swapped_amount > 0);
    assert_eq!(swapped_amount, 95_228);
    assert_eq!(response.alkanes[0].id, token_b());
}

#[test]
fn test_claim_admin_fees() {
    let mut logic = new_pool(FEE_DENOMINATOR / 10, FEE_DENOMINATOR / 2);
    deposit(&mut logic, alkane_id("liquidity_provider"), 1_000_000, 1_000_000, 1000).unwrap();
    swap_in(&mut logic, alkane_id("swapper"), 0, 1, 100_000, 0).unwrap();
    let admin_balance_before = logic.admin_balances(1);
    assert!(!admin_balance_before.is_zero());
    assert_eq!(admin_balance(&logic, 1), 4_761);
    logic.context = call(owner(), vec![]);
    logic.claim_admin_fees().unwrap();
    assert!(logic.admin_balances(1).is_zero());
}

#[test]
fn test_remove_liquidity() {
    let mut logic = new_pool(10, 1);
    let liquidity_provider = alkane_id("liquidity_provider");
    deposit(&mut logic, liquidity_provider, 1_000_000, 1_000_000, 1000).unwrap();
    let lp_balance = logic.balance_of(&liquidity_provider);
    assert!(lp_balance > 0);
    logic.context = call(liquidity_provider, vec![]);
    logic.remove_liquidity(lp_balance, [0, 0]).unwrap();
    assert_eq!(logic.balance_of(&liquidity_provider), 0);
}

#[test]
fn init_then_bootstrap() {
    let logic = bootstrapped();
    assert_eq!(logic.total_supply(), 2_000_000);
    assert_eq!(logic.balance_of(&alkane_id("liquidity_provider")), 2_000_000);
    assert_eq!(balance(&logic, 0), 1_000_000);
    assert_eq!(balance(&logic, 1), 1_000_000);
}

#[test]
fn balanced_round_trip() {
    let mut logic = bootstrapped();
    let provider = alkane_id("liquidity_provider");
    logic.context = call(provider, vec![]);
    let supply = logic.total_supply();
    let response = logic.remove_liquidity(supply, [0, 0]).unwrap();
    assert_eq!(balance(&logic, 0), 0);
    assert_eq!(balance(&logic, 1), 0);
    assert_eq!(logic.total_supply(), 0);
    assert_eq!(
        response.alkanes,
        vec![
            Transfer { id: token_a(), value: 1_000_000 },
            Transfer { id: token_b(), value: 1_000_000 },
        ]
    );
    assert!(response.data.is_empty());
}

#[test]
fn symmetric_swap() {
    let mut logic = bootstrapped();
    let response = swap_in(&mut logic, alkane_id("swapper"), 0, 1, 100_000, 1).unwrap();
    let dy = response.alkanes[0].value;
    assert!(dy < 100_000);
    assert_eq!(dy, 95_190);
    assert_eq!(balance(&logic, 0), 1_100_000);
    assert_eq!(balance(&logic, 1), 1_000_000 - dy);
    assert!(admin_balance(&logic, 1) > 0);
    assert_eq!(admin_balance(&logic, 1), 19);
}

#[test]
fn admin_claim() {
    let mut logic = bootstrapped();
    swap_in(&mut logic, alkane_id("swapper"), 0, 1, 100_000, 1).unwrap();
    let prior = admin_balance(&logic, 1);
    let before = (balance(&logic, 0), balance(&logic, 1));
    logic.context = call(owner(), vec![]);
    let response = logic.claim_admin_fees().unwrap();
    assert_eq!(admin_balance(&logic, 0), 0);
    assert_eq!(admin_balance(&logic, 1), 0);
    assert_eq!(response.alkanes, vec![Transfer { id: token_b(), value: prior }]);
    assert_eq!((balance(&logic, 0), balance(&logic, 1)), before);
}

#[test]
fn unauthorized_claim() {
    let mut logic = bootstrapped();
    swap_in(&mut logic, alkane_id("swapper"), 0, 1, 100_000, 1).unwrap();
    let prior = admin_balance(&logic, 1);
    logic.context = call(alkane_id("stranger"), vec![]);
    let r = logic.claim_admin_fees();
    assert_eq!(r.err(), Some(PoolError::Unauthorized));
    assert_eq!(admin_balance(&logic, 1), prior);
    assert_eq!(balance(&logic, 0), 1_100_000);
}

#[test]
fn slippage_guard() {
    let mut logic = bootstrapped();
    let r = swap_in(&mut logic, alkane_id("swapper"), 0, 1, 100_000, 99_999_999);
    assert_eq!(r.err(), Some(PoolError::SlippageExceeded));
    assert_eq!(balance(&logic, 0), 1_000_000);
    assert_eq!(balance(&logic, 1), 1_000_000);
    assert_eq!(admin_balance(&logic, 1), 0);
}

#[test]
fn swap_of_nothing_is_degenerate() {
    let mut logic = bootstrapped();
    logic.context = call(alkane_id("swapper"), vec![]);
    assert_eq!(logic.swap(0, 1, 0, 0).err(), Some(PoolError::DegenerateState));
}

#[test]
fn swap_refuses_bad_indices_and_parcels() {
    let mut logic = bootstrapped();
    assert_eq!(swap_in(&mut logic, alkane_id("s"), 0, 0, 10, 0).err(), Some(PoolError::BadParameter));
    assert_eq!(swap_in(&mut logic, alkane_id("s"), 0, 2, 10, 0).err(), Some(PoolError::BadParameter));
    logic.context = call(alkane_id("s"), vec![Transfer { id: token_b(), value: 10 }]);
    assert_eq!(logic.swap(0, 1, 10, 0).err(), Some(PoolError::BadParameter));
    logic.context = call(alkane_id("s"), vec![Transfer { id: token_a(), value: 9 }]);
    assert_eq!(logic.swap(0, 1, 10, 0).err(), Some(PoolError::BadParameter));
}

#[test]
fn deposit_parcel_must_match() {
    let mut logic = new_pool(10, 1);
    logic.context = call(alkane_id("p"), vec![Transfer { id: token_a(), value: 5 }]);
    assert_eq!(logic.add_liquidity([5, 5], 0).err(), Some(PoolError::BadParameter));
    logic.context = call(alkane_id("p"), vec![Transfer { id: alkane_id("other"), value: 5 }]);
    assert_eq!(logic.add_liquidity([0, 0], 0).err(), Some(PoolError::BadParameter));
}

#[test]
fn empty_deposit_does_not_raise_invariant() {
    let mut logic = new_pool(10, 1);
    let r = deposit(&mut logic, alkane_id("p"), 0, 0, 0);
    assert_eq!(r.err(), Some(PoolError::InvariantNotIncreasing));
}

#[test]
fn deposit_slippage() {
    let mut logic = new_pool(10, 1);
    let r = deposit(&mut logic, alkane_id("p"), 1_000_000, 1_000_000, 2_000_001);
    assert_eq!(r.err(), Some(PoolError::SlippageExceeded));
    assert_eq!(logic.total_supply(), 0);
}

#[test]
fn second_deposit_mints_in_proportion() {
    let mut logic = bootstrapped();
    let second = alkane_id("second");
    deposit(&mut logic, second, 500_000, 500_000, 0).unwrap();
    assert_eq!(logic.balance_of(&second), 1_000_000);
    assert_eq!(logic.total_supply(), 3_000_000);
}

#[test]
fn withdrawal_below_minimum() {
    let mut logic = bootstrapped();
    logic.context = call(alkane_id("liquidity_provider"), vec![]);
    let r = logic.remove_liquidity(1_000_000, [500_001, 0]);
    assert_eq!(r.err(), Some(PoolError::WithdrawalBelowMin));
    assert_eq!(logic.total_supply(), 2_000_000);
}

#[test]
fn withdrawal_beyond_holdings() {
    let mut logic = bootstrapped();
    logic.context = call(alkane_id("nobody"), vec![]);
    let r = logic.remove_liquidity(10, [0, 0]);
    assert_eq!(r.err(), Some(PoolError::InsufficientBalance));
}

#[test]
fn imbalanced_withdrawal_amounts() {
    let mut logic = bootstrapped();
    let provider = alkane_id("liquidity_provider");
    logic.context = call(provider, vec![]);
    let response = logic.remove_liquidity_imbalance([100_000, 200_000], 2_000_000).unwrap();
    assert_eq!(
        response.alkanes,
        vec![Transfer { id: token_a(), value: 100_000 }, Transfer { id: token_b(), value: 200_000 }]
    );
    assert_eq!(balance(&logic, 0), 900_000);
    assert_eq!(balance(&logic, 1), 800_000);
    assert_eq!(admin_balance(&logic, 0), 5);
    assert_eq!(admin_balance(&logic, 1), 4);
    assert_eq!(logic.total_supply(), 1_698_509);
    assert_eq!(logic.balance_of(&provider), 1_698_509);
}

#[test]
fn imbalanced_withdrawal_slippage_and_pool_balance() {
    let mut logic = bootstrapped();
    logic.context = call(alkane_id("liquidity_provider"), vec![]);
    let r = logic.remove_liquidity_imbalance([100_000, 200_000], 301_490);
    assert_eq!(r.err(), Some(PoolError::SlippageExceeded));
    let r = logic.remove_liquidity_imbalance([1_000_001, 0], 2_000_000);
    assert_eq!(r.err(), Some(PoolError::InsufficientPoolBalance));
    assert_eq!(balance(&logic, 0), 1_000_000);
}

#[test]
fn one_coin_withdrawal_amount() {
    let mut logic = bootstrapped();
    let provider = alkane_id("liquidity_provider");
    logic.context = call(provider, vec![]);
    let response = logic.remove_liquidity_one_coin(1_000_000, 0, 0).unwrap();
    assert_eq!(response.alkanes, vec![Transfer { id: token_a(), value: 816_790 }]);
    assert_eq!(balance(&logic, 0), 183_210);
    assert_eq!(balance(&logic, 1), 1_000_000);
    assert_eq!(logic.total_supply(), 1_000_000);
}

#[test]
fn one_coin_withdrawal_refusals() {
    let mut logic = bootstrapped();
    logic.context = call(alkane_id("liquidity_provider"), vec![]);
    assert_eq!(logic.remove_liquidity_one_coin(1_000_000, 2, 0).err(), Some(PoolError::BadParameter));
    assert_eq!(
        logic.remove_liquidity_one_coin(1_000_000, 0, 816_791).err(),
        Some(PoolError::SlippageExceeded)
    );
}

#[test]
fn views_encode_little_endian() {
    let logic = bootstrapped();
    let a = logic.get_a().unwrap();
    assert_eq!(a.data.len(), 32);
    assert_eq!(a.data[0], 100);
    assert!(a.data[1..].iter().all(|b| *b == 0));
    let b = logic.get_balances().unwrap();
    assert_eq!(b.data.len(), 64);
    assert_eq!(u128::from_le_bytes(b.data[0..16].try_into().unwrap()), 1_000_000);
    assert_eq!(u128::from_le_bytes(b.data[32..48].try_into().unwrap()), 1_000_000);
    let v = logic.get_virtual_price().unwrap();
    assert_eq!(v.data.len(), 32);
    assert_eq!(u128::from_le_bytes(v.data[0..16].try_into().unwrap()), 1_000_000_000_000_000_000);
}

#[test]
fn virtual_price_without_supply_is_degenerate() {
    let logic = new_pool(10, 1);
    assert_eq!(logic.get_virtual_price().err(), Some(PoolError::DegenerateState));
}

#[test]
fn virtual_price_does_not_fall_across_a_swap() {
    let mut logic = bootstrapped();
    let before = logic.get_virtual_price().unwrap();
    swap_in(&mut logic, alkane_id("swapper"), 0, 1, 100_000, 1).unwrap();
    let after = logic.get_virtual_price().unwrap();
    let before = u128::from_le_bytes(before.data[0..16].try_into().unwrap());
    let after = u128::from_le_bytes(after.data[0..16].try_into().unwrap());
    assert!(after >= before);
    assert_eq!(after, 1_000_020_000_000_000_000);
}

#[test]
fn swapping_back_returns_less() {
    let mut logic = bootstrapped();
    let dy = swap_in(&mut logic, alkane_id("swapper"), 0, 1, 100_000, 1).unwrap().alkanes[0].value;
    let back = swap_in(&mut logic, alkane_id("swapper"), 1, 0, dy, 0).unwrap().alkanes[0].value;
    assert!(back < 100_000);
    assert_eq!(back, 99_921);
}

#[test]
fn supply_equals_the_holders_units() {
    let mut logic = bootstrapped();
    let a = alkane_id("liquidity_provider");
    let b = alkane_id("second");
    deposit(&mut logic, b, 300_000, 100_000, 0).unwrap();
    logic.context = call(a, vec![]);
    logic.remove_liquidity(500_000, [0, 0]).unwrap();
    logic.context = call(b, vec![]);
    logic.remove_liquidity_one_coin(1_000, 1, 0).unwrap();
    let sum = logic.balance_of(&a) + logic.balance_of(&b);
    assert_eq!(logic.total_supply(), sum);
}

#[test]
fn failed_operation_leaves_state() {
    let mut logic = bootstrapped();
    let supply = logic.total_supply();
    let r = deposit(&mut logic, alkane_id("p"), 10, 10, u128::MAX);
    assert_eq!(r.err(), Some(PoolError::SlippageExceeded));
    assert_eq!(logic.total_supply(), supply);
    assert_eq!(balance(&logic, 0), 1_000_000);
}

#[test]
fn mint_and_burn_move_supply() {
    let mut logic = new_pool(10, 1);
    let who = alkane_id("who");
    logic.mint(&who, 70).unwrap();
    assert_eq!(logic.total_supply(), 70);
    assert_eq!(logic.burn(&who, 71).err(), Some(PoolError::InsufficientBalance));
    logic.burn(&who, 30).unwrap();
    assert_eq!(logic.balance_of(&who), 40);
    assert_eq!(logic.total_supply(), 40);
    assert_eq!(logic.mint(&who, u128::MAX).err(), Some(PoolError::Overflow));
}

#[test]
fn setters_round_trip() {
    let mut logic = Logic::new(MemoryStorage::new());
    logic.set_balances(1, U256::from_u128(77));
    logic.set_admin_balances(0, U256::from_u128(5));
    logic.set_fee(9);
    logic.set_admin_fee(8);
    logic.set_total_supply(6);
    logic.set_owner(owner());
    logic.set_A(U256::from_u128(300));
    logic.set_coins(1, token_a());
    assert_eq!(balance(&logic, 1), 77);
    assert_eq!(balance(&logic, 0), 0);
    assert_eq!(admin_balance(&logic, 0), 5);
    assert_eq!(logic.fee(), 9);
    assert_eq!(logic.admin_fee(), 8);
    assert_eq!(logic.total_supply(), 6);
    assert_eq!(logic.owner(), owner());
    assert_eq!(logic.A().to_u128().unwrap(), 300);
    assert_eq!(logic.coins(1), token_a());
    assert_eq!(logic.coins(0), AssetId { block: 0, tx: 0 });
}

fn curve_d(logic: &Logic<MemoryStorage>) -> u128 {
    let d = synth_pool::math::get_D(&logic.current_balances(), logic.A()).unwrap();
    d.to_u128().unwrap()
}

#[test]
fn invariant_moves_with_liquidity() {
    let mut logic = bootstrapped();
    let provider = alkane_id("liquidity_provider");
    let d0 = curve_d(&logic);
    deposit(&mut logic, provider, 200_000, 50_000, 0).unwrap();
    let d1 = curve_d(&logic);
    assert!(d1 > d0);
    logic.context = call(provider, vec![]);
    logic.remove_liquidity(100_000, [0, 0]).unwrap();
    let d2 = curve_d(&logic);
    assert!(d2 < d1);
    logic.remove_liquidity_one_coin(100_000, 1, 0).unwrap();
    let d3 = curve_d(&logic);
    assert!(d3 < d2);
    logic.remove_liquidity_imbalance([10_000, 0], 1_000_000).unwrap();
    assert!(curve_d(&logic) < d3);
}

#[test]
fn lp_token_name_and_symbol() {
    let logic = new_pool(10, 1);
    assert_eq!(logic.name(), "æfrBTC-LP");
    assert_eq!(logic.symbol(), "æfrBTC-LP");
}

#[test]
fn undecodable_records_are_storage_errors() {
    let mut logic = bootstrapped();
    assert!(logic.check_records().is_ok());
    let who = alkane_id("who");
    logic.storage.set(&synth_pool::store::path_balance(&who), &vec![1, 2, 3]);
    assert_eq!(logic.mint(&who, 1).err(), Some(PoolError::StorageError));
    assert!(logic.check_records().is_ok());
    logic.storage.set(&synth_pool::store::path_fee(), &vec![1, 2, 3]);
    assert_eq!(logic.check_records().err(), Some(PoolError::StorageError));
    assert_eq!(logic.dispatch(SynthPoolMessage::GetA).err(), Some(PoolError::StorageError));
}
