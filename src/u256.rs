//! A 256-bit unsigned integer held as four little-endian 64-bit limbs.
//!
//! The arithmetic itself is done by `ruint`; each operation here converts the
//! limbs into a `ruint` value, makes one call, and converts back. Every
//! operation is checked: a result that does not fit in 256 bits is `None`.
use vstd::prelude::*;

verus! {

/// 2^64, the weight of one limb.
pub open spec fn limb_base() -> nat {
    0x1_0000_0000_0000_0000
}

/// 2^256: every value of `U256` is below it.
pub open spec fn u256_modulus() -> nat {
    limb_base() * limb_base() * limb_base() * limb_base()
}

/// 2^128.
pub open spec fn u128_modulus() -> nat {
    limb_base() * limb_base()
}

/// The number that a little-endian byte string stands for.
pub open spec fn le_value(s: Seq<u8>) -> nat
    decreases s.len(),
{
    if s.len() == 0 {
        0
    } else {
        s[0] as nat + 256 * le_value(s.drop_first())
    }
}

#[derive(Clone, Copy, Debug)]
pub struct U256 {
    pub limbs: [u64; 4],
}

impl View for U256 {
    type V = nat;

    open spec fn view(&self) -> nat {
        self.limbs[0] as nat + limb_base() * (self.limbs[1] as nat + limb_base() * (
        self.limbs[2] as nat + limb_base() * self.limbs[3] as nat))
    }
}

/// Relies on `ruint::Uint::from` for a `u128`: the same number.
#[verifier::external_body]
fn ruint_from_u128(v: u128) -> (r: U256)
    ensures
        r@ == v as nat,
{
    U256 { limbs: ruint::aliases::U256::from(v).into_limbs() }
}

/// Relies on `ruint::Uint::checked_add`: `None` exactly when the sum does not fit.
#[verifier::external_body]
fn ruint_checked_add(a: U256, b: U256) -> (r: Option<U256>)
    ensures
        r matches Some(v) ==> v@ == a@ + b@,
        r is Some <==> a@ + b@ < u256_modulus(),
{
    let x = ruint::aliases::U256::from_limbs(a.limbs);
    let y = ruint::aliases::U256::from_limbs(b.limbs);
    x.checked_add(y).map(|v| U256 { limbs: v.into_limbs() })
}

/// Relies on `ruint::Uint::checked_sub`: `None` exactly when `b` exceeds `a`.
#[verifier::external_body]
fn ruint_checked_sub(a: U256, b: U256) -> (r: Option<U256>)
    ensures
        r matches Some(v) ==> v@ == a@ - b@,
        r is Some <==> b@ <= a@,
{
    let x = ruint::aliases::U256::from_limbs(a.limbs);
    let y = ruint::aliases::U256::from_limbs(b.limbs);
    x.checked_sub(y).map(|v| U256 { limbs: v.into_limbs() })
}

/// Relies on `ruint::Uint::checked_mul`: `None` exactly when the product does not fit.
#[verifier::external_body]
fn ruint_checked_mul(a: U256, b: U256) -> (r: Option<U256>)
    ensures
        r matches Some(v) ==> v@ == a@ * b@,
        r is Some <==> a@ * b@ < u256_modulus(),
{
    let x = ruint::aliases::U256::from_limbs(a.limbs);
    let y = ruint::aliases::U256::from_limbs(b.limbs);
    x.checked_mul(y).map(|v| U256 { limbs: v.into_limbs() })
}

/// Relies on `ruint::Uint::checked_div`: truncating division, `None` for a zero divisor.
#[verifier::external_body]
fn ruint_checked_div(a: U256, b: U256) -> (r: Option<U256>)
    ensures
        r matches Some(v) ==> v@ == a@ / b@,
        r is Some <==> b@ != 0,
{
    let x = ruint::aliases::U256::from_limbs(a.limbs);
    let y = ruint::aliases::U256::from_limbs(b.limbs);
    x.checked_div(y).map(|v| U256 { limbs: v.into_limbs() })
}

/// Relies on `ruint::Uint`'s `<`: the order of the numbers.
#[verifier::external_body]
fn ruint_lt(a: U256, b: U256) -> (r: bool)
    ensures
        r == (a@ < b@),
{
    ruint::aliases::U256::from_limbs(a.limbs) < ruint::aliases::U256::from_limbs(b.limbs)
}

/// Relies on `TryFrom<&Uint>` for `u128`: an error exactly when the number exceeds `u128::MAX`.
#[verifier::external_body]
fn ruint_to_u128(a: U256) -> (r: Option<u128>)
    ensures
        r matches Some(v) ==> v as nat == a@,
        r is Some <==> a@ < u128_modulus(),
{
    u128::try_from(&ruint::aliases::U256::from_limbs(a.limbs)).ok()
}

/// Relies on `ruint::Uint::to_le_bytes`: the 32 little-endian bytes of the number.
#[verifier::external_body]
fn ruint_to_le_bytes(a: U256) -> (r: Vec<u8>)
    ensures
        r@.len() == 32,
        le_value(r@) == a@,
{
    ruint::aliases::U256::from_limbs(a.limbs).to_le_bytes::<32>().to_vec()
}

/// Relies on `ruint::Uint::try_from_le_slice`: the number that at most 32
/// little-endian bytes stand for, `None` for a longer slice.
#[verifier::external_body]
fn ruint_try_from_le_slice(bytes: &[u8]) -> (r: Option<U256>)
    ensures
        r matches Some(v) ==> v@ == le_value(bytes@),
        r is Some <==> bytes@.len() <= 32,
{
    ruint::aliases::U256::try_from_le_slice(bytes).map(|v| U256 { limbs: v.into_limbs() })
}

impl U256 {
    pub fn zero() -> (r: U256)
        ensures
            r@ == 0,
    {
        U256 { limbs: [0, 0, 0, 0] }
    }

    pub fn from_u128(v: u128) -> (r: U256)
        ensures
            r@ == v as nat,
    {
        ruint_from_u128(v)
    }

    pub fn checked_add(self, other: U256) -> (r: Option<U256>)
        ensures
            r matches Some(v) ==> v@ == self@ + other@,
            r is Some <==> self@ + other@ < u256_modulus(),
    {
        ruint_checked_add(self, other)
    }

    pub fn checked_sub(self, other: U256) -> (r: Option<U256>)
        ensures
            r matches Some(v) ==> v@ == self@ - other@,
            r is Some <==> other@ <= self@,
    {
        ruint_checked_sub(self, other)
    }

    pub fn checked_mul(self, other: U256) -> (r: Option<U256>)
        ensures
            r matches Some(v) ==> v@ == self@ * other@,
            r is Some <==> self@ * other@ < u256_modulus(),
    {
        ruint_checked_mul(self, other)
    }

    pub fn checked_div(self, other: U256) -> (r: Option<U256>)
        ensures
            r matches Some(v) ==> v@ == self@ / other@,
            r is Some <==> other@ != 0,
    {
        ruint_checked_div(self, other)
    }

    pub fn lt(&self, other: &U256) -> (r: bool)
        ensures
            r == (self@ < other@),
    {
        ruint_lt(*self, *other)
    }

    pub fn is_zero(&self) -> (r: bool)
        ensures
            r == (self@ == 0),
    {
        let z = U256::zero();
        !ruint_lt(z, *self)
    }

    pub fn to_u128(&self) -> (r: Option<u128>)
        ensures
            r matches Some(v) ==> v as nat == self@,
            r is Some <==> self@ < u128_modulus(),
    {
        ruint_to_u128(*self)
    }

    pub fn to_le_bytes(&self) -> (r: Vec<u8>)
        ensures
            r@.len() == 32,
            le_value(r@) == self@,
    {
        ruint_to_le_bytes(*self)
    }

    pub fn from_le_slice(bytes: &[u8]) -> (r: Option<U256>)
        ensures
            r matches Some(v) ==> v@ == le_value(bytes@),
            r is Some <==> bytes@.len() <= 32,
    {
        ruint_try_from_le_slice(bytes)
    }
}

} // verus!
