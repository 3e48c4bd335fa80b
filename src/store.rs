//! The byte-addressed key/value store that the pool keeps its state in, the
//! paths of the pool's records, and the encodings of the values held there.
use crate::u256::{le_value, U256};
use vstd::bytes::{spec_u128_from_le_bytes, spec_u128_to_le_bytes, u128_from_le_bytes, u128_to_le_bytes};
use vstd::prelude::*;

verus! {

/// An opaque identifier of an asset or of an account: a block and a
/// transaction number.
#[derive(Clone, Copy, Debug, PartialEq, Eq, Structural)]
pub struct AssetId {
    pub block: u128,
    pub tx: u128,
}

/// A movement of `value` units of the asset `id`.
#[derive(Clone, Copy, Debug, PartialEq, Eq, Structural)]
pub struct Transfer {
    pub id: AssetId,
    pub value: u128,
}

/// The identifier that an absent or unreadable record stands for.
pub open spec fn default_id() -> AssetId {
    AssetId { block: 0, tx: 0 }
}

/// The 32 bytes of an identifier: block, then transaction, each little-endian.
pub open spec fn id_bytes(id: AssetId) -> Seq<u8> {
    spec_u128_to_le_bytes(id.block) + spec_u128_to_le_bytes(id.tx)
}

/// The identifier that 32 bytes stand for.
pub open spec fn id_from_bytes(b: Seq<u8>) -> AssetId {
    AssetId {
        block: spec_u128_from_le_bytes(b.subrange(0, 16)),
        tx: spec_u128_from_le_bytes(b.subrange(16, 32)),
    }
}

pub proof fn lemma_id_bytes(id: AssetId)
    ensures
        id_bytes(id).len() == 32,
        id_from_bytes(id_bytes(id)) == id,
{
    vstd::bytes::lemma_auto_spec_u128_to_from_le_bytes();
    let b = id_bytes(id);
    assert(b.subrange(0, 16) =~= spec_u128_to_le_bytes(id.block));
    assert(b.subrange(16, 32) =~= spec_u128_to_le_bytes(id.tx));
}

/// What a store holds under `key`: the empty string where nothing was set.
pub open spec fn stored(m: Map<Seq<u8>, Seq<u8>>, key: Seq<u8>) -> Seq<u8> {
    if m.contains_key(key) {
        m[key]
    } else {
        Seq::empty()
    }
}

/// A store of byte strings under byte-string keys. Reading a key that was
/// never set gives the empty string; a write replaces what was there.
pub trait Storage {
    spec fn contents(&self) -> Map<Seq<u8>, Seq<u8>>;

    fn get(&self, key: &Vec<u8>) -> (r: Vec<u8>)
        ensures
            r@ == stored(self.contents(), key@),
    ;

    fn set(&mut self, key: &Vec<u8>, value: &Vec<u8>)
        ensures
            final(self).contents() == old(self).contents().insert(key@, value@),
    ;
}

/// The value of the latest entry for `key` among `entries`.
pub open spec fn latest(entries: Seq<(Vec<u8>, Vec<u8>)>, key: Seq<u8>) -> Option<Seq<u8>>
    decreases entries.len(),
{
    if entries.len() == 0 {
        None
    } else if entries.last().0@ == key {
        Some(entries.last().1@)
    } else {
        latest(entries.drop_last(), key)
    }
}

/// A store kept in memory as a log of writes, where a later write of a key
/// shadows the earlier ones.
pub struct MemoryStorage {
    entries: Vec<(Vec<u8>, Vec<u8>)>,
}

fn bytes_equal(a: &Vec<u8>, b: &Vec<u8>) -> (r: bool)
    ensures
        r == (a@ == b@),
{
    if a.len() != b.len() {
        return false;
    }
    let mut i: usize = 0;
    while i < a.len()
        invariant
            a@.len() == b@.len(),
            i <= a@.len(),
            forall|k: int| 0 <= k < i ==> a@[k] == b@[k],
        decreases a@.len() - i,
    {
        if a[i] != b[i] {
            return false;
        }
        i = i + 1;
    }
    assert(a@ =~= b@);
    true
}

impl MemoryStorage {
    pub fn new() -> (r: MemoryStorage)
        ensures
            r.contents() == Map::<Seq<u8>, Seq<u8>>::empty(),
    {
        let r = MemoryStorage { entries: Vec::new() };
        assert(r.contents() =~= Map::<Seq<u8>, Seq<u8>>::empty());
        r
    }
}

impl Storage for MemoryStorage {
    closed spec fn contents(&self) -> Map<Seq<u8>, Seq<u8>> {
        Map::new(
            |k: Seq<u8>| latest(self.entries@, k) is Some,
            |k: Seq<u8>| latest(self.entries@, k)->Some_0,
        )
    }

    fn get(&self, key: &Vec<u8>) -> (r: Vec<u8>) {
        let mut i: usize = self.entries.len();
        assert(self.entries@.subrange(0, i as int) =~= self.entries@);
        while i > 0
            invariant
                i <= self.entries@.len(),
                latest(self.entries@, key@) == latest(self.entries@.subrange(0, i as int), key@),
            decreases i,
        {
            let prefix = Ghost(self.entries@.subrange(0, i as int));
            assert(prefix@.drop_last() =~= self.entries@.subrange(0, i - 1));
            if bytes_equal(&self.entries[i - 1].0, key) {
                return self.entries[i - 1].1.clone();
            }
            i = i - 1;
        }
        assert(self.entries@.subrange(0, 0).len() == 0);
        Vec::new()
    }

    fn set(&mut self, key: &Vec<u8>, value: &Vec<u8>) {
        let ghost before = self.entries@;
        self.entries.push((key.clone(), value.clone()));
        assert(self.entries@.drop_last() =~= before);
        assert(self.contents() =~= old(self).contents().insert(key@, value@));
    }
}

// The paths of the pool's records, as ASCII bytes.
/// `/A`
pub open spec fn key_a() -> Seq<u8> {
    seq![47u8, 65u8]
}

/// `/fee`
pub open spec fn key_fee() -> Seq<u8> {
    seq![47u8, 102u8, 101u8, 101u8]
}

/// `/admin_fee`
pub open spec fn key_admin_fee() -> Seq<u8> {
    seq![47u8, 97u8, 100u8, 109u8, 105u8, 110u8, 95u8, 102u8, 101u8, 101u8]
}

/// `/owner`
pub open spec fn key_owner() -> Seq<u8> {
    seq![47u8, 111u8, 119u8, 110u8, 101u8, 114u8]
}

/// `/total_supply`
pub open spec fn key_total_supply() -> Seq<u8> {
    seq![47u8, 116u8, 111u8, 116u8, 97u8, 108u8, 95u8, 115u8, 117u8, 112u8, 112u8, 108u8, 121u8]
}

/// `/initialized`
pub open spec fn key_initialized() -> Seq<u8> {
    seq![47u8, 105u8, 110u8, 105u8, 116u8, 105u8, 97u8, 108u8, 105u8, 122u8, 101u8, 100u8]
}

/// `/coins/<i>`
pub open spec fn key_coins(i: int) -> Seq<u8> {
    seq![47u8, 99u8, 111u8, 105u8, 110u8, 115u8, 47u8, (48 + i) as u8]
}

/// `/balances/<i>`
pub open spec fn key_balances(i: int) -> Seq<u8> {
    seq![47u8, 98u8, 97u8, 108u8, 97u8, 110u8, 99u8, 101u8, 115u8, 47u8, (48 + i) as u8]
}

/// `/admin_balances/<i>`
pub open spec fn key_admin_balances(i: int) -> Seq<u8> {
    seq![
        47u8, 97u8, 100u8, 109u8, 105u8, 110u8, 95u8, 98u8, 97u8, 108u8, 97u8, 110u8, 99u8, 101u8,
        115u8, 47u8, (48 + i) as u8,
    ]
}

/// `/balance/` followed by the 32 bytes of the holder.
pub open spec fn key_balance(holder: AssetId) -> Seq<u8> {
    seq![47u8, 98u8, 97u8, 108u8, 97u8, 110u8, 99u8, 101u8, 47u8] + id_bytes(holder)
}

pub fn path_a() -> (r: Vec<u8>)
    ensures
        r@ == key_a(),
{
    let r = vec![47u8, 65u8];
    assert(r@ =~= key_a());
    r
}

pub fn path_fee() -> (r: Vec<u8>)
    ensures
        r@ == key_fee(),
{
    let r = vec![47u8, 102u8, 101u8, 101u8];
    assert(r@ =~= key_fee());
    r
}

pub fn path_admin_fee() -> (r: Vec<u8>)
    ensures
        r@ == key_admin_fee(),
{
    let r = vec![47u8, 97u8, 100u8, 109u8, 105u8, 110u8, 95u8, 102u8, 101u8, 101u8];
    assert(r@ =~= key_admin_fee());
    r
}

pub fn path_owner() -> (r: Vec<u8>)
    ensures
        r@ == key_owner(),
{
    let r = vec![47u8, 111u8, 119u8, 110u8, 101u8, 114u8];
    assert(r@ =~= key_owner());
    r
}

pub fn path_total_supply() -> (r: Vec<u8>)
    ensures
        r@ == key_total_supply(),
{
    let r = vec![
        47u8, 116u8, 111u8, 116u8, 97u8, 108u8, 95u8, 115u8, 117u8, 112u8, 112u8, 108u8, 121u8,
    ];
    assert(r@ =~= key_total_supply());
    r
}

pub fn path_initialized() -> (r: Vec<u8>)
    ensures
        r@ == key_initialized(),
{
    let r = vec![47u8, 105u8, 110u8, 105u8, 116u8, 105u8, 97u8, 108u8, 105u8, 122u8, 101u8, 100u8];
    assert(r@ =~= key_initialized());
    r
}

pub fn path_coins(i: usize) -> (r: Vec<u8>)
    requires
        i < 2,
    ensures
        r@ == key_coins(i as int),
{
    let r = vec![47u8, 99u8, 111u8, 105u8, 110u8, 115u8, 47u8, 48u8 + i as u8];
    assert(r@ =~= key_coins(i as int));
    r
}

pub fn path_balances(i: usize) -> (r: Vec<u8>)
    requires
        i < 2,
    ensures
        r@ == key_balances(i as int),
{
    let r = vec![47u8, 98u8, 97u8, 108u8, 97u8, 110u8, 99u8, 101u8, 115u8, 47u8, 48u8 + i as u8];
    assert(r@ =~= key_balances(i as int));
    r
}

pub fn path_admin_balances(i: usize) -> (r: Vec<u8>)
    requires
        i < 2,
    ensures
        r@ == key_admin_balances(i as int),
{
    let r = vec![
        47u8, 97u8, 100u8, 109u8, 105u8, 110u8, 95u8, 98u8, 97u8, 108u8, 97u8, 110u8, 99u8, 101u8,
        115u8, 47u8, 48u8 + i as u8,
    ];
    assert(r@ =~= key_admin_balances(i as int));
    r
}

pub fn id_to_bytes(id: &AssetId) -> (r: Vec<u8>)
    ensures
        r@ == id_bytes(*id),
{
    let mut r = u128_to_le_bytes(id.block);
    let mut t = u128_to_le_bytes(id.tx);
    r.append(&mut t);
    r
}

pub fn path_balance(holder: &AssetId) -> (r: Vec<u8>)
    ensures
        r@ == key_balance(*holder),
{
    let mut r = vec![47u8, 98u8, 97u8, 108u8, 97u8, 110u8, 99u8, 101u8, 47u8];
    let mut b = id_to_bytes(holder);
    r.append(&mut b);
    assert(r@ =~= key_balance(*holder));
    r
}

/// A `u128` record: absent is zero, sixteen bytes are little-endian.
pub open spec fn is_u128_record(b: Seq<u8>) -> bool {
    b.len() == 0 || b.len() == 16
}

pub open spec fn u128_record(b: Seq<u8>) -> nat {
    if b.len() == 16 {
        spec_u128_from_le_bytes(b) as nat
    } else {
        0
    }
}

/// A 256-bit record: absent is zero, at most 32 bytes are little-endian.
pub open spec fn is_u256_record(b: Seq<u8>) -> bool {
    b.len() <= 32
}

/// An identifier record: 32 bytes, anything else is the default identifier.
pub open spec fn id_record(b: Seq<u8>) -> AssetId {
    if b.len() == 32 {
        id_from_bytes(b)
    } else {
        default_id()
    }
}

pub fn decode_u128(b: &Vec<u8>) -> (r: Option<u128>)
    ensures
        r is Some <==> is_u128_record(b@),
        r matches Some(v) ==> v as nat == u128_record(b@),
{
    if b.len() == 0 {
        Some(0)
    } else if b.len() == 16 {
        Some(u128_from_le_bytes(b.as_slice()))
    } else {
        None
    }
}

pub fn encode_u128(v: u128) -> (r: Vec<u8>)
    ensures
        is_u128_record(r@),
        u128_record(r@) == v as nat,
{
    proof {
        vstd::bytes::lemma_auto_spec_u128_to_from_le_bytes();
    }
    u128_to_le_bytes(v)
}

pub fn decode_u256(b: &Vec<u8>) -> (r: Option<U256>)
    ensures
        r is Some <==> is_u256_record(b@),
        r matches Some(v) ==> v@ == le_value(b@),
{
    U256::from_le_slice(b.as_slice())
}

pub fn encode_u256(v: U256) -> (r: Vec<u8>)
    ensures
        is_u256_record(r@),
        le_value(r@) == v@,
{
    v.to_le_bytes()
}

pub fn decode_id(b: &Vec<u8>) -> (r: AssetId)
    ensures
        r == id_record(b@),
{
    if b.len() == 32 {
        let block = u128_from_le_bytes(vstd::slice::slice_subrange(b.as_slice(), 0, 16));
        let tx = u128_from_le_bytes(vstd::slice::slice_subrange(b.as_slice(), 16, 32));
        AssetId { block, tx }
    } else {
        AssetId { block: 0, tx: 0 }
    }
}

pub fn encode_id(id: &AssetId) -> (r: Vec<u8>)
    ensures
        r@.len() == 32,
        id_record(r@) == *id,
{
    proof {
        lemma_id_bytes(*id);
    }
    id_to_bytes(id)
}

} // verus!
