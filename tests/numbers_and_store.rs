use synth_pool::records::{Asset, DzlError, Token, TxReceipt};
use synth_pool::store::{
    decode_id, decode_u128, decode_u256, encode_id, encode_u128, encode_u256, path_a, path_admin_balances,
    path_balance, path_balances, path_coins, path_total_supply, AssetId, MemoryStorage, Storage,
};
use synth_pool::u256::U256;

#[test]
fn u256_arithmetic() {
    let a = U256::from_u128(u128::MAX);
    let sq = a.checked_mul(a).unwrap();
    assert!(sq.checked_mul(U256::from_u128(2)).is_none());
    assert!(sq.checked_add(sq).is_none());
    assert!(sq.checked_add(a).is_some());
    assert_eq!(sq.checked_div(a).unwrap().to_u128(), Some(u128::MAX));
    assert!(a.checked_div(U256::zero()).is_none());
    assert!(U256::from_u128(3).checked_sub(U256::from_u128(4)).is_none());
    assert_eq!(U256::from_u128(9).checked_sub(U256::from_u128(4)).unwrap().to_u128(), Some(5));
    assert_eq!(U256::from_u128(9).checked_add(U256::from_u128(4)).unwrap().to_u128(), Some(13));
    assert!(sq.to_u128().is_none());
    assert!(U256::from_u128(1).lt(&U256::from_u128(2)));
    assert!(!U256::from_u128(2).lt(&U256::from_u128(2)));
    assert!(U256::zero().is_zero());
    assert!(!U256::from_u128(1).is_zero());
}

#[test]
fn u256_bytes() {
    let b = U256::from_u128(258).to_le_bytes();
    assert_eq!(b.len(), 32);
    assert_eq!(b[0], 2);
    assert_eq!(b[1], 1);
    assert!(b[2..].iter().all(|x| *x == 0));
    assert_eq!(U256::from_le_slice(&[1, 1]).unwrap().to_u128(), Some(257));
    assert!(U256::from_le_slice(&[0u8; 33]).is_none());
    let r = decode_u256(&encode_u256(U256::from_u128(123_456))).unwrap();
    assert_eq!(r.to_u128(), Some(123_456));
    assert_eq!(decode_u256(&vec![]).unwrap().to_u128(), Some(0));
}

#[test]
fn u128_and_id_records() {
    let e = encode_u128(0x0102);
    assert_eq!(e.len(), 16);
    assert_eq!(e[0], 2);
    assert_eq!(e[1], 1);
    assert_eq!(decode_u128(&e), Some(0x0102));
    assert_eq!(decode_u128(&vec![]), Some(0));
    assert_eq!(decode_u128(&vec![1, 2, 3]), None);
    let id = AssetId { block: 2, tx: 7 };
    let b = encode_id(&id);
    assert_eq!(b.len(), 32);
    assert_eq!(b[0], 2);
    assert_eq!(b[16], 7);
    assert_eq!(decode_id(&b), id);
    assert_eq!(decode_id(&vec![1]), AssetId { block: 0, tx: 0 });
}

#[test]
fn paths_are_ascii() {
    assert_eq!(path_a(), b"/A".to_vec());
    assert_eq!(path_total_supply(), b"/total_supply".to_vec());
    assert_eq!(path_coins(1), b"/coins/1".to_vec());
    assert_eq!(path_balances(0), b"/balances/0".to_vec());
    assert_eq!(path_admin_balances(1), b"/admin_balances/1".to_vec());
    let k = path_balance(&AssetId { block: 1, tx: 0 });
    assert_eq!(k.len(), 41);
    assert_eq!(&k[..9], b"/balance/");
    assert_eq!(k[9], 1);
}

#[test]
fn memory_storage_keeps_the_latest_write() {
    let mut s = MemoryStorage::new();
    let k = b"/x".to_vec();
    assert!(s.get(&k).is_empty());
    s.set(&k, &vec![1]);
    s.set(&b"/y".to_vec(), &vec![2]);
    s.set(&k, &vec![3, 4]);
    assert_eq!(s.get(&k), vec![3, 4]);
    assert_eq!(s.get(&b"/y".to_vec()), vec![2]);
}

#[test]
fn plain_records() {
    let e = DzlError::new("no_window", "Window object not found".to_string());
    assert_eq!(e.code, "no_window");
    assert_eq!(e.message, "Window object not found");
    let t = Token { name: "fiat-pegged Bitcoin", ticker: "frBTC", icon: "/public/frBTC.svg" };
    assert_eq!(t.clone(), t);
    let a = Asset::default();
    assert_eq!(a.decimals, 0);
    assert!(TxReceipt { success: true }.success);
}
