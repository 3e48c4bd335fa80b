//! The pool's state, kept in a `Storage` under fixed paths, and the
//! operations that the host invokes on it.
//!
//! Every operation first computes all that it will write, failing before
//! any write, and only then writes. A failed operation therefore leaves the
//! store as it found it.
use crate::amm::{
    calc_add_liquidity, calc_exchange, calc_remove_liquidity, calc_remove_liquidity_imbalance,
    calc_virtual_price, calc_withdraw_one_coin, spec_add_liquidity, spec_exchange,
    spec_calc_withdraw_one_coin, spec_remove_liquidity, spec_remove_liquidity_imbalance,
    spec_virtual_price, Outcome, OutcomeSpec, FEE_DENOMINATOR,
};
use crate::error::PoolError;
use crate::store::{
    decode_id, decode_u128, decode_u256, encode_id, encode_u128, encode_u256, id_bytes, id_record,
    is_u128_record, is_u256_record, key_a, key_admin_balances, key_admin_fee, key_balance,
    key_balances, key_coins, key_fee, key_initialized, key_owner, key_total_supply, lemma_id_bytes,
    path_a, path_admin_balances, path_admin_fee, path_balance, path_balances, path_coins, path_fee,
    path_initialized, path_owner, path_total_supply, stored, u128_record, AssetId, Storage,
    Transfer,
};
use crate::u256::{le_value, u128_modulus, U256};
use vstd::prelude::*;

verus! {

/// The name and ticker of the pool's liquidity unit.
pub const LP_TOKEN_NAME: &'static str = "æfrBTC-LP";

/// What the host hands to a call besides its arguments: who calls, the
/// pool's own identifier, and the assets that came in with the call.
pub struct Context {
    pub caller: AssetId,
    pub myself: AssetId,
    pub incoming: Vec<Transfer>,
}

impl Context {
    pub fn new(caller: AssetId, myself: AssetId, incoming: Vec<Transfer>) -> (r: Context)
        ensures
            r.caller == caller,
            r.myself == myself,
            r.incoming@ == incoming@,
    {
        Context { caller, myself, incoming }
    }
}

/// What a call returns to the host: the assets to send to the caller, and
/// the encoded return data.
pub struct CallResponse {
    pub alkanes: Vec<Transfer>,
    pub data: Vec<u8>,
}

/// The sum of what `parcel` carries of `id`.
pub open spec fn parcel_sum(parcel: Seq<Transfer>, id: AssetId) -> nat
    decreases parcel.len(),
{
    if parcel.len() == 0 {
        0
    } else {
        parcel_sum(parcel.drop_last(), id) + if parcel.last().id == id {
            parcel.last().value as nat
        } else {
            0
        }
    }
}

/// `parcel` carries `a0` of `c0`, `a1` of `c1`, and nothing else.
pub open spec fn parcel_carries(parcel: Seq<Transfer>, c0: AssetId, c1: AssetId, a0: nat, a1: nat) -> bool {
    &&& forall|k: int| 0 <= k < parcel.len() ==> (#[trigger] parcel[k]).id == c0 || parcel[k].id == c1
    &&& parcel_sum(parcel, c0) == a0
    &&& parcel_sum(parcel, c1) == a1
}

pub proof fn lemma_parcel_sum_prefix(parcel: Seq<Transfer>, n: int, id: AssetId)
    requires
        0 <= n <= parcel.len(),
    ensures
        parcel_sum(parcel.subrange(0, n), id) <= parcel_sum(parcel, id),
    decreases parcel.len(),
{
    if n < parcel.len() {
        assert(parcel.drop_last().subrange(0, n) =~= parcel.subrange(0, n));
        lemma_parcel_sum_prefix(parcel.drop_last(), n, id);
    } else {
        assert(parcel.subrange(0, n) =~= parcel);
    }
}

/// Whether `parcel` carries exactly `a0` of `c0` and `a1` of `c1`, and
/// nothing else.
pub fn parcel_matches(parcel: &Vec<Transfer>, c0: AssetId, c1: AssetId, a0: u128, a1: u128) -> (r:
    bool)
    ensures
        r == parcel_carries(parcel@, c0, c1, a0 as nat, a1 as nat),
{
    let mut s0: u128 = 0;
    let mut s1: u128 = 0;
    let mut k: usize = 0;
    while k < parcel.len()
        invariant
            k <= parcel@.len(),
            s0 as nat == parcel_sum(parcel@.subrange(0, k as int), c0),
            s1 as nat == parcel_sum(parcel@.subrange(0, k as int), c1),
            forall|m: int| 0 <= m < k ==> (#[trigger] parcel@[m]).id == c0 || parcel@[m].id == c1,
        decreases parcel@.len() - k,
    {
        let t = parcel[k];
        assert(parcel@.subrange(0, k + 1).drop_last() =~= parcel@.subrange(0, k as int));
        if t.id != c0 && t.id != c1 {
            return false;
        }
        if t.id == c0 {
            if t.value > u128::MAX - s0 {
                proof {
                    lemma_parcel_sum_prefix(parcel@, k + 1, c0);
                }
                return false;
            }
            s0 = s0 + t.value;
        }
        if t.id == c1 {
            if t.value > u128::MAX - s1 {
                proof {
                    lemma_parcel_sum_prefix(parcel@, k + 1, c1);
                }
                return false;
            }
            s1 = s1 + t.value;
        }
        k = k + 1;
    }
    assert(parcel@.subrange(0, k as int) =~= parcel@);
    s0 == a0 && s1 == a1
}

/// The lengths and differences of the pool's paths that keep one record
/// apart from another.
pub proof fn lemma_paths()
    ensures
        key_a().len() == 2,
        key_fee().len() == 4,
        key_owner().len() == 6,
        key_coins(0).len() == 8,
        key_coins(1).len() == 8,
        key_coins(0) != key_coins(1),
        key_admin_fee().len() == 10,
        key_balances(0).len() == 11,
        key_balances(1).len() == 11,
        key_balances(0) != key_balances(1),
        key_initialized().len() == 12,
        key_total_supply().len() == 13,
        key_admin_balances(0).len() == 17,
        key_admin_balances(1).len() == 17,
        key_admin_balances(0) != key_admin_balances(1),
        forall|h: AssetId| #[trigger] key_balance(h).len() == 41,
        forall|h1: AssetId, h2: AssetId|
            key_balance(h1) == key_balance(h2) ==> h1 == h2,
{
    assert(key_coins(0)[7] != key_coins(1)[7]);
    assert(key_balances(0)[10] != key_balances(1)[10]);
    assert(key_admin_balances(0)[16] != key_admin_balances(1)[16]);
    assert forall|h: AssetId| #[trigger] key_balance(h).len() == 41 by {
        lemma_id_bytes(h);
    }
    assert forall|h1: AssetId, h2: AssetId| key_balance(h1) == key_balance(h2) implies h1 == h2 by {
        lemma_id_bytes(h1);
        lemma_id_bytes(h2);
        assert(key_balance(h1).subrange(9, 41) =~= id_bytes(h1));
        assert(key_balance(h2).subrange(9, 41) =~= id_bytes(h2));
    }
}

/// Every record that the pool reads can be decoded.
pub open spec fn records_wf(m: Map<Seq<u8>, Seq<u8>>) -> bool {
    &&& is_u256_record(stored(m, key_a()))
    &&& is_u128_record(stored(m, key_fee()))
    &&& is_u128_record(stored(m, key_admin_fee()))
    &&& is_u128_record(stored(m, key_total_supply()))
    &&& is_u128_record(stored(m, key_initialized()))
    &&& is_u256_record(stored(m, key_balances(0)))
    &&& is_u256_record(stored(m, key_balances(1)))
    &&& is_u256_record(stored(m, key_admin_balances(0)))
    &&& is_u256_record(stored(m, key_admin_balances(1)))
}

/// Every record outside `keys` is as it was.
pub open spec fn kept_except(
    before: Map<Seq<u8>, Seq<u8>>,
    after: Map<Seq<u8>, Seq<u8>>,
    keys: Set<Seq<u8>>,
) -> bool {
    forall|k: Seq<u8>| !keys.contains(k) ==> #[trigger] stored(after, k) == stored(before, k)
}

/// The paths of the pooled balances and of the owner's balances.
pub open spec fn reserve_keys() -> Set<Seq<u8>> {
    set![key_balances(0), key_balances(1), key_admin_balances(0), key_admin_balances(1)]
}

/// A response that sends nothing and returns no data.
pub open spec fn is_empty_response(resp: CallResponse) -> bool {
    resp.alkanes@.len() == 0 && resp.data@.len() == 0
}

/// What a claim sends: each positive owner's balance, of its coin.
pub open spec fn claimed(c0: AssetId, c1: AssetId, adm0: nat, adm1: nat) -> Seq<Transfer> {
    (if adm0 > 0 {
        seq![Transfer { id: c0, value: adm0 as u128 }]
    } else {
        Seq::empty()
    }) + (if adm1 > 0 {
        seq![Transfer { id: c1, value: adm1 as u128 }]
    } else {
        Seq::empty()
    })
}

/// Only `who`'s liquidity units changed from `before` to `after`, and by as
/// much as the supply did.
pub open spec fn units_follow_supply<S: Storage>(before: Logic<S>, after: Logic<S>, who: AssetId) -> bool {
    &&& forall|h: AssetId| h != who ==> #[trigger] after.lp_value(h) == before.lp_value(h)
    &&& after.supply_value() + before.lp_value(who) == before.supply_value() + after.lp_value(who)
}

/// The pool: its store, and the context of the call in progress.
pub struct Logic<S: Storage> {
    pub storage: S,
    pub context: Context,
}

impl<S: Storage> Logic<S> {
    pub open spec fn records(&self) -> Map<Seq<u8>, Seq<u8>> {
        self.storage.contents()
    }

    pub open spec fn wf(&self) -> bool {
        records_wf(self.records())
    }

    pub open spec fn amp_value(&self) -> nat {
        le_value(stored(self.records(), key_a()))
    }

    pub open spec fn fee_value(&self) -> nat {
        u128_record(stored(self.records(), key_fee()))
    }

    pub open spec fn admin_fee_value(&self) -> nat {
        u128_record(stored(self.records(), key_admin_fee()))
    }

    pub open spec fn supply_value(&self) -> nat {
        u128_record(stored(self.records(), key_total_supply()))
    }

    pub open spec fn is_initialized(&self) -> bool {
        u128_record(stored(self.records(), key_initialized())) != 0
    }

    pub open spec fn owner_value(&self) -> AssetId {
        id_record(stored(self.records(), key_owner()))
    }

    pub open spec fn coin_value(&self, i: int) -> AssetId {
        id_record(stored(self.records(), key_coins(i)))
    }

    pub open spec fn balance_value(&self, i: int) -> nat {
        le_value(stored(self.records(), key_balances(i)))
    }

    pub open spec fn admin_balance_value(&self, i: int) -> nat {
        le_value(stored(self.records(), key_admin_balances(i)))
    }

    /// The record of `holder`'s units can be decoded.
    pub open spec fn holder_ok(&self, holder: AssetId) -> bool {
        is_u128_record(stored(self.records(), key_balance(holder)))
    }

    pub open spec fn lp_value(&self, holder: AssetId) -> nat {
        u128_record(stored(self.records(), key_balance(holder)))
    }

    /// The balances and owner's balances are those of `o`.
    pub open spec fn holds(&self, o: OutcomeSpec) -> bool {
        &&& self.balance_value(0) == o.b0
        &&& self.balance_value(1) == o.b1
        &&& self.admin_balance_value(0) == o.adm0
        &&& self.admin_balance_value(1) == o.adm1
    }

    /// A pool over `storage`, with an empty context.
    pub fn new(storage: S) -> (r: Self)
        ensures
            r.records() == storage.contents(),
            r.context.incoming@.len() == 0,
    {
        Logic {
            storage,
            context: Context {
                caller: AssetId { block: 0, tx: 0 },
                myself: AssetId { block: 0, tx: 0 },
                incoming: Vec::new(),
            },
        }
    }

    /// The same pool, about to serve a call in `context`.
    pub fn with_context(self, context: Context) -> (r: Self)
        ensures
            r.records() == self.records(),
            r.context == context,
    {
        Logic { storage: self.storage, context }
    }

    fn read_u128(&self, key: &Vec<u8>) -> (r: u128)
        requires
            is_u128_record(stored(self.records(), key@)),
        ensures
            r as nat == u128_record(stored(self.records(), key@)),
    {
        let b = self.storage.get(key);
        match decode_u128(&b) {
            Some(v) => v,
            None => 0,
        }
    }

    fn read_u256(&self, key: &Vec<u8>) -> (r: U256)
        requires
            is_u256_record(stored(self.records(), key@)),
        ensures
            r@ == le_value(stored(self.records(), key@)),
    {
        let b = self.storage.get(key);
        match decode_u256(&b) {
            Some(v) => v,
            None => U256::zero(),
        }
    }

    fn read_id(&self, key: &Vec<u8>) -> (r: AssetId)
        ensures
            r == id_record(stored(self.records(), key@)),
    {
        let b = self.storage.get(key);
        decode_id(&b)
    }

    fn write_bytes(&mut self, key: &Vec<u8>, value: &Vec<u8>)
        ensures
            stored(final(self).records(), key@) == value@,
            kept_except(old(self).records(), final(self).records(), set![key@]),
            final(self).context == old(self).context,
    {
        self.storage.set(key, value);
    }

    fn write_u128(&mut self, key: &Vec<u8>, v: u128)
        ensures
            is_u128_record(stored(final(self).records(), key@)),
            u128_record(stored(final(self).records(), key@)) == v as nat,
            kept_except(old(self).records(), final(self).records(), set![key@]),
            final(self).context == old(self).context,
    {
        let b = encode_u128(v);
        self.write_bytes(key, &b);
    }

    fn write_u256(&mut self, key: &Vec<u8>, v: U256)
        ensures
            is_u256_record(stored(final(self).records(), key@)),
            le_value(stored(final(self).records(), key@)) == v@,
            kept_except(old(self).records(), final(self).records(), set![key@]),
            final(self).context == old(self).context,
    {
        let b = encode_u256(v);
        self.write_bytes(key, &b);
    }

    fn write_id(&mut self, key: &Vec<u8>, id: AssetId)
        ensures
            id_record(stored(final(self).records(), key@)) == id,
            kept_except(old(self).records(), final(self).records(), set![key@]),
            final(self).context == old(self).context,
    {
        let b = encode_id(&id);
        self.write_bytes(key, &b);
    }

    pub fn total_supply(&self) -> (r: u128)
        requires
            self.wf(),
        ensures
            r as nat == self.supply_value(),
    {
        self.read_u128(&path_total_supply())
    }

    pub fn set_total_supply(&mut self, value: u128)
        requires
            old(self).wf(),
        ensures
            final(self).wf(),
            final(self).supply_value() == value as nat,
            kept_except(old(self).records(), final(self).records(), set![key_total_supply()]),
            final(self).context == old(self).context,
    {
        proof {
            lemma_paths();
        }
        self.write_u128(&path_total_supply(), value);
    }

    /// The name of the pool's liquidity unit.
    pub fn name(&self) -> (r: String)
        ensures
            r@ == LP_TOKEN_NAME@,
    {
        proof {
            broadcast use vstd::string::to_string_from_display_ensures_for_str;
        }
        LP_TOKEN_NAME.to_string()
    }

    /// The ticker of the pool's liquidity unit, the same as its name.
    pub fn symbol(&self) -> (r: String)
        ensures
            r@ == LP_TOKEN_NAME@,
    {
        proof {
            broadcast use vstd::string::to_string_from_display_ensures_for_str;
        }
        LP_TOKEN_NAME.to_string()
    }

    /// The liquidity units that `owner` holds.
    pub fn balance_of(&self, owner: &AssetId) -> (r: u128)
        requires
            self.holder_ok(*owner),
        ensures
            r as nat == self.lp_value(*owner),
    {
        self.read_u128(&path_balance(owner))
    }

    pub fn set_balance_of(&mut self, owner: &AssetId, value: u128)
        requires
            old(self).wf(),
        ensures
            final(self).wf(),
            final(self).holder_ok(*owner),
            final(self).lp_value(*owner) == value as nat,
            kept_except(old(self).records(), final(self).records(), set![key_balance(*owner)]),
            final(self).context == old(self).context,
    {
        proof {
            lemma_paths();
        }
        self.write_u128(&path_balance(owner), value);
    }

    /// The units that `owner` holds, `None` where their record cannot be decoded.
    fn read_holder(&self, owner: &AssetId) -> (r: Option<u128>)
        ensures
            r is Some <==> self.holder_ok(*owner),
            r matches Some(v) ==> v as nat == self.lp_value(*owner),
    {
        let b = self.storage.get(&path_balance(owner));
        decode_u128(&b)
    }

    /// Whether every record that the pool reads can be decoded; where one
    /// cannot, `StorageError`.
    pub fn check_records(&self) -> (r: Result<(), PoolError>)
        ensures
            r is Ok <==> self.wf(),
            !(r is Ok) ==> r == Err::<(), PoolError>(PoolError::StorageError),
    {
        let ok = self.storage.get(&path_a()).len() <= 32 && decode_u128(
            &self.storage.get(&path_fee()),
        ).is_some() && decode_u128(&self.storage.get(&path_admin_fee())).is_some() && decode_u128(
            &self.storage.get(&path_total_supply()),
        ).is_some() && decode_u128(&self.storage.get(&path_initialized())).is_some()
            && self.storage.get(&path_balances(0)).len() <= 32 && self.storage.get(
            &path_balances(1),
        ).len() <= 32 && self.storage.get(&path_admin_balances(0)).len() <= 32
            && self.storage.get(&path_admin_balances(1)).len() <= 32;
        if ok {
            Ok(())
        } else {
            Err(PoolError::StorageError)
        }
    }

    /// Creates `amount` units for `to`.
    pub fn mint(&mut self, to: &AssetId, amount: u128) -> (r: Result<(), PoolError>)
        requires
            old(self).wf(),
        ensures
            final(self).wf(),
            final(self).context == old(self).context,
            units_follow_supply(*old(self), *final(self), *to),
            !old(self).holder_ok(*to) ==> r == Err::<(), PoolError>(PoolError::StorageError)
                && final(self).records() == old(self).records(),
            old(self).holder_ok(*to) && (old(self).supply_value() + amount >= u128_modulus()
                || old(self).lp_value(*to) + amount >= u128_modulus()) ==> r == Err::<(), PoolError>(
                PoolError::Overflow,
            ) && final(self).records() == old(self).records(),
            old(self).holder_ok(*to) && old(self).supply_value() + amount < u128_modulus()
                && old(self).lp_value(*to) + amount < u128_modulus() ==> r is Ok && final(self).supply_value() == old(self).supply_value()
                + amount && final(self).lp_value(*to) == old(self).lp_value(*to) + amount
                && kept_except(
                old(self).records(),
                final(self).records(),
                set![key_total_supply(), key_balance(*to)],
            ),
    {
        proof {
            lemma_paths();
        }
        let balance = match self.read_holder(to) {
            Some(v) => v,
            None => return Err(PoolError::StorageError),
        };
        let total = self.total_supply();
        if amount > u128::MAX - total || amount > u128::MAX - balance {
            return Err(PoolError::Overflow);
        }
        self.set_total_supply(total + amount);
        self.set_balance_of(to, balance + amount);
        Ok(())
    }

    /// Destroys `amount` of the units that `from` holds.
    pub fn burn(&mut self, from: &AssetId, amount: u128) -> (r: Result<(), PoolError>)
        requires
            old(self).wf(),
        ensures
            final(self).wf(),
            final(self).context == old(self).context,
            units_follow_supply(*old(self), *final(self), *from),
            !old(self).holder_ok(*from) ==> r == Err::<(), PoolError>(PoolError::StorageError)
                && final(self).records() == old(self).records(),
            old(self).holder_ok(*from) && old(self).lp_value(*from) < amount ==> r == Err::<(), PoolError>(
                PoolError::InsufficientBalance,
            ) && final(self).records() == old(self).records(),
            old(self).holder_ok(*from) && old(self).lp_value(*from) >= amount
                && old(self).supply_value() < amount ==> r == Err::<
                (),
                PoolError,
            >(PoolError::Overflow) && final(self).records() == old(self).records(),
            old(self).holder_ok(*from) && old(self).lp_value(*from) >= amount
                && old(self).supply_value() >= amount ==> r is Ok
                && final(self).supply_value() == old(self).supply_value() - amount
                && final(self).lp_value(*from) == old(self).lp_value(*from) - amount
                && kept_except(
                old(self).records(),
                final(self).records(),
                set![key_total_supply(), key_balance(*from)],
            ),
    {
        proof {
            lemma_paths();
        }
        let balance = match self.read_holder(from) {
            Some(v) => v,
            None => return Err(PoolError::StorageError),
        };
        if balance < amount {
            return Err(PoolError::InsufficientBalance);
        }
        let total = self.total_supply();
        if total < amount {
            return Err(PoolError::Overflow);
        }
        self.set_balance_of(from, balance - amount);
        self.set_total_supply(total - amount);
        Ok(())
    }

    /// The store is well formed after a write of `key` that leaves the
    /// record there well formed.
    proof fn lemma_wf_after_write(before: Map<Seq<u8>, Seq<u8>>, after: Map<Seq<u8>, Seq<u8>>, key: Seq<u8>)
        requires
            records_wf(before),
            kept_except(before, after, set![key]),
            key == key_a() || key == key_balances(0) || key == key_balances(1) || key
                == key_admin_balances(0) || key == key_admin_balances(1) ==> is_u256_record(
                stored(after, key),
            ),
            key == key_fee() || key == key_admin_fee() || key == key_total_supply() || key
                == key_initialized() ==> is_u128_record(stored(after, key)),
            key.len() != 41,
        ensures
            records_wf(after),
    {
        lemma_paths();
        assert(stored(after, key_a()) == stored(before, key_a()) || key == key_a());
    }

    pub fn initialized(&self) -> (r: bool)
        requires
            self.wf(),
        ensures
            r == self.is_initialized(),
    {
        self.read_u128(&path_initialized()) != 0
    }

    fn set_initialized(&mut self)
        requires
            old(self).wf(),
        ensures
            final(self).wf(),
            final(self).is_initialized(),
            kept_except(old(self).records(), final(self).records(), set![key_initialized()]),
            final(self).context == old(self).context,
    {
        self.write_u128(&path_initialized(), 1);
        proof {
            lemma_paths();
            Self::lemma_wf_after_write(old(self).records(), self.records(), key_initialized());
        }
    }

    /// The owner, who alone may claim the owner's balances.
    pub fn owner(&self) -> (r: AssetId)
        ensures
            r == self.owner_value(),
    {
        self.read_id(&path_owner())
    }

    pub fn set_owner(&mut self, owner: AssetId)
        requires
            old(self).wf(),
        ensures
            final(self).wf(),
            final(self).owner_value() == owner,
            kept_except(old(self).records(), final(self).records(), set![key_owner()]),
            final(self).context == old(self).context,
    {
        self.write_id(&path_owner(), owner);
        proof {
            lemma_paths();
            Self::lemma_wf_after_write(old(self).records(), self.records(), key_owner());
        }
    }

    /// The identifier of coin `index`.
    pub fn coins(&self, index: usize) -> (r: AssetId)
        requires
            index < 2,
        ensures
            r == self.coin_value(index as int),
    {
        self.read_id(&path_coins(index))
    }

    pub fn set_coins(&mut self, index: usize, value: AssetId)
        requires
            old(self).wf(),
            index < 2,
        ensures
            final(self).wf(),
            final(self).coin_value(index as int) == value,
            kept_except(old(self).records(), final(self).records(), set![key_coins(index as int)]),
            final(self).context == old(self).context,
    {
        self.write_id(&path_coins(index), value);
        proof {
            lemma_paths();
            Self::lemma_wf_after_write(old(self).records(), self.records(), key_coins(index as int));
        }
    }

    /// The amplification.
    #[allow(non_snake_case)]
    pub fn A(&self) -> (r: U256)
        requires
            self.wf(),
        ensures
            r@ == self.amp_value(),
    {
        self.read_u256(&path_a())
    }

    #[allow(non_snake_case)]
    pub fn set_A(&mut self, value: U256)
        requires
            old(self).wf(),
        ensures
            final(self).wf(),
            final(self).amp_value() == value@,
            kept_except(old(self).records(), final(self).records(), set![key_a()]),
            final(self).context == old(self).context,
    {
        self.write_u256(&path_a(), value);
        proof {
            lemma_paths();
            Self::lemma_wf_after_write(old(self).records(), self.records(), key_a());
        }
    }

    /// The trading fee, in units of `FEE_DENOMINATOR`.
    pub fn fee(&self) -> (r: u128)
        requires
            self.wf(),
        ensures
            r as nat == self.fee_value(),
    {
        self.read_u128(&path_fee())
    }

    pub fn set_fee(&mut self, value: u128)
        requires
            old(self).wf(),
        ensures
            final(self).wf(),
            final(self).fee_value() == value as nat,
            kept_except(old(self).records(), final(self).records(), set![key_fee()]),
            final(self).context == old(self).context,
    {
        self.write_u128(&path_fee(), value);
        proof {
            lemma_paths();
            Self::lemma_wf_after_write(old(self).records(), self.records(), key_fee());
        }
    }

    /// The owner's part of each fee, in units of `FEE_DENOMINATOR`.
    pub fn admin_fee(&self) -> (r: u128)
        requires
            self.wf(),
        ensures
            r as nat == self.admin_fee_value(),
    {
        self.read_u128(&path_admin_fee())
    }

    pub fn set_admin_fee(&mut self, value: u128)
        requires
            old(self).wf(),
        ensures
            final(self).wf(),
            final(self).admin_fee_value() == value as nat,
            kept_except(old(self).records(), final(self).records(), set![key_admin_fee()]),
            final(self).context == old(self).context,
    {
        self.write_u128(&path_admin_fee(), value);
        proof {
            lemma_paths();
            Self::lemma_wf_after_write(old(self).records(), self.records(), key_admin_fee());
        }
    }

    /// The pooled balance of coin `index`.
    pub fn balances(&self, index: usize) -> (r: U256)
        requires
            self.wf(),
            index < 2,
        ensures
            r@ == self.balance_value(index as int),
    {
        self.read_u256(&path_balances(index))
    }

    pub fn set_balances(&mut self, index: usize, value: U256)
        requires
            old(self).wf(),
            index < 2,
        ensures
            final(self).wf(),
            final(self).balance_value(index as int) == value@,
            kept_except(old(self).records(), final(self).records(), set![key_balances(index as int)]),
            final(self).context == old(self).context,
    {
        self.write_u256(&path_balances(index), value);
        proof {
            lemma_paths();
            Self::lemma_wf_after_write(old(self).records(), self.records(), key_balances(index as int));
        }
    }

    /// The owner's balance of coin `index`.
    pub fn admin_balances(&self, index: usize) -> (r: U256)
        requires
            self.wf(),
            index < 2,
        ensures
            r@ == self.admin_balance_value(index as int),
    {
        self.read_u256(&path_admin_balances(index))
    }

    pub fn set_admin_balances(&mut self, index: usize, value: U256)
        requires
            old(self).wf(),
            index < 2,
        ensures
            final(self).wf(),
            final(self).admin_balance_value(index as int) == value@,
            kept_except(
                old(self).records(),
                final(self).records(),
                set![key_admin_balances(index as int)],
            ),
            final(self).context == old(self).context,
    {
        self.write_u256(&path_admin_balances(index), value);
        proof {
            lemma_paths();
            Self::lemma_wf_after_write(
                old(self).records(),
                self.records(),
                key_admin_balances(index as int),
            );
        }
    }

    /// Both pooled balances.
    pub fn current_balances(&self) -> (r: [U256; 2])
        requires
            self.wf(),
        ensures
            r[0]@ == self.balance_value(0),
            r[1]@ == self.balance_value(1),
    {
        [self.balances(0), self.balances(1)]
    }

    /// Both of the owner's balances.
    pub fn current_admin_balances(&self) -> (r: [U256; 2])
        requires
            self.wf(),
        ensures
            r[0]@ == self.admin_balance_value(0),
            r[1]@ == self.admin_balance_value(1),
    {
        [self.admin_balances(0), self.admin_balances(1)]
    }

    /// Writes the balances and the owner's balances of `o`.
    fn store_reserves(&mut self, o: &Outcome)
        requires
            old(self).wf(),
        ensures
            final(self).wf(),
            final(self).holds(crate::amm::outcome_spec(*o)),
            kept_except(old(self).records(), final(self).records(), reserve_keys()),
            final(self).context == old(self).context,
    {
        proof {
            lemma_paths();
        }
        self.set_balances(0, o.balances[0]);
        self.set_balances(1, o.balances[1]);
        self.set_admin_balances(0, o.admin_balances[0]);
        self.set_admin_balances(1, o.admin_balances[1]);
    }

    /// Why a first initialisation with these parameters is refused, if it is.
    pub open spec fn init_refused(&self, token_a: AssetId, token_b: AssetId, a: nat, fee: nat, admin_fee: nat) -> bool {
        self.is_initialized() || a == 0 || fee > FEE_DENOMINATOR || admin_fee > FEE_DENOMINATOR
            || token_a == token_b
    }

    /// Sets the pool up once: its two coins, amplification, fees and owner.
    /// A second call, a zero amplification, a fee above `FEE_DENOMINATOR` or
    /// two equal coins are refused with `BadParameter`.
    #[allow(non_snake_case)]
    pub fn init_pool(
        &mut self,
        token_a: AssetId,
        token_b: AssetId,
        A: u128,
        fee: u128,
        admin_fee: u128,
        owner: AssetId,
    ) -> (r: Result<CallResponse, PoolError>)
        requires
            old(self).wf(),
        ensures
            final(self).wf(),
            final(self).context == old(self).context,
            units_follow_supply(*old(self), *final(self), old(self).context.caller),
            init_pool_post(*old(self), *final(self), token_a, token_b, A, fee, admin_fee, owner, r),
    {
        proof {
            lemma_paths();
        }
        if self.initialized() || A == 0 || fee > FEE_DENOMINATOR || admin_fee > FEE_DENOMINATOR
            || token_a == token_b {
            return Err(PoolError::BadParameter);
        }
        self.set_coins(0, token_a);
        self.set_coins(1, token_b);
        self.set_A(U256::from_u128(A));
        self.set_fee(fee);
        self.set_admin_fee(admin_fee);
        self.set_owner(owner);
        self.set_initialized();
        Ok(CallResponse { alkanes: Vec::new(), data: Vec::new() })
    }

    /// What a deposit of `amounts` comes to, the minting included.
    pub open spec fn add_liquidity_result(&self, amounts: [u128; 2], min_mint_amount: u128) -> Result<
        OutcomeSpec,
        PoolError,
    > {
        if !self.is_initialized() || !parcel_carries(
            self.context.incoming@,
            self.coin_value(0),
            self.coin_value(1),
            amounts[0] as nat,
            amounts[1] as nat,
        ) {
            Err(PoolError::BadParameter)
        } else {
            match spec_add_liquidity(
                self.balance_value(0),
                self.balance_value(1),
                amounts[0] as nat,
                amounts[1] as nat,
                self.supply_value(),
                self.amp_value(),
                self.fee_value(),
                self.admin_fee_value(),
                self.admin_balance_value(0),
                self.admin_balance_value(1),
                min_mint_amount as nat,
            ) {
                Err(e) => Err(e),
                Ok(o) => if !self.holder_ok(self.context.caller) {
                    Err(PoolError::StorageError)
                } else if self.supply_value() + o.amount >= u128_modulus() || self.lp_value(
                    self.context.caller,
                ) + o.amount >= u128_modulus() {
                    Err(PoolError::Overflow)
                } else {
                    Ok(o)
                },
            }
        }
    }

    /// Deposits `amounts`, which the incoming parcel must carry exactly, and
    /// mints liquidity units to the caller.
    pub fn add_liquidity(&mut self, amounts: [u128; 2], min_mint_amount: u128) -> (r: Result<
        CallResponse,
        PoolError,
    >)
        requires
            old(self).wf(),
        ensures
            final(self).wf(),
            final(self).context == old(self).context,
            units_follow_supply(*old(self), *final(self), old(self).context.caller),
            add_liquidity_post(*old(self), *final(self), amounts, min_mint_amount, r),
    {
        proof {
            lemma_paths();
        }
        if !self.initialized() {
            return Err(PoolError::BadParameter);
        }
        let c0 = self.coins(0);
        let c1 = self.coins(1);
        if !parcel_matches(&self.context.incoming, c0, c1, amounts[0], amounts[1]) {
            return Err(PoolError::BadParameter);
        }
        let o = calc_add_liquidity(
            self.current_balances(),
            amounts,
            self.total_supply(),
            self.A(),
            self.fee(),
            self.admin_fee(),
            self.current_admin_balances(),
            min_mint_amount,
        )?;
        let minted = match o.amount.to_u128() {
            Some(v) => v,
            None => return Err(PoolError::BadParameter),
        };
        let caller = self.context.caller;
        let supply = self.total_supply();
        let held = match self.read_holder(&caller) {
            Some(v) => v,
            None => return Err(PoolError::StorageError),
        };
        if minted > u128::MAX - supply || minted > u128::MAX - held {
            return Err(PoolError::Overflow);
        }
        self.store_reserves(&o);
        match self.mint(&caller, minted) {
            Ok(()) => {},
            Err(e) => return Err(e),
        }
        Ok(CallResponse { alkanes: Vec::new(), data: Vec::new() })
    }

    /// What a balanced withdrawal of `amount` units comes to: the coins paid out.
    pub open spec fn remove_liquidity_result(&self, amount: u128, min_amounts: [u128; 2]) -> Result<
        (nat, nat),
        PoolError,
    > {
        if !self.is_initialized() {
            Err(PoolError::BadParameter)
        } else {
            match spec_remove_liquidity(
                self.balance_value(0),
                self.balance_value(1),
                self.supply_value(),
                amount as nat,
                min_amounts[0] as nat,
                min_amounts[1] as nat,
            ) {
                Err(e) => Err(e),
                Ok(outs) => if !self.holder_ok(self.context.caller) {
                    Err(PoolError::StorageError)
                } else if self.lp_value(self.context.caller) < amount {
                    Err(PoolError::InsufficientBalance)
                } else if self.supply_value() < amount {
                    Err(PoolError::Overflow)
                } else {
                    Ok(outs)
                },
            }
        }
    }

    /// Burns `amount` of the caller's units and pays out the same share of
    /// each pooled balance, with no fee.
    pub fn remove_liquidity(&mut self, amount: u128, min_amounts: [u128; 2]) -> (r: Result<
        CallResponse,
        PoolError,
    >)
        requires
            old(self).wf(),
        ensures
            final(self).wf(),
            final(self).context == old(self).context,
            units_follow_supply(*old(self), *final(self), old(self).context.caller),
            remove_liquidity_post(*old(self), *final(self), amount, min_amounts, r),
    {
        proof {
            lemma_paths();
        }
        if !self.initialized() {
            return Err(PoolError::BadParameter);
        }
        let balances = self.current_balances();
        let outs = calc_remove_liquidity(balances, self.total_supply(), amount, min_amounts)?;
        let n0 = match balances[0].checked_sub(U256::from_u128(outs[0])) {
            Some(v) => v,
            None => return Err(PoolError::InsufficientPoolBalance),
        };
        let n1 = match balances[1].checked_sub(U256::from_u128(outs[1])) {
            Some(v) => v,
            None => return Err(PoolError::InsufficientPoolBalance),
        };
        let caller = self.context.caller;
        match self.burn(&caller, amount) {
            Ok(()) => {},
            Err(e) => return Err(e),
        }
        self.set_balances(0, n0);
        self.set_balances(1, n1);
        let mut alkanes: Vec<Transfer> = Vec::new();
        alkanes.push(Transfer { id: self.coins(0), value: outs[0] });
        alkanes.push(Transfer { id: self.coins(1), value: outs[1] });
        assert(alkanes@ =~= seq![alkanes@[0], alkanes@[1]]);
        Ok(CallResponse { alkanes, data: Vec::new() })
    }

    /// What a withdrawal of exactly `amounts` comes to: the balances it
    /// leaves, the owner's balances, and the units burned.
    pub open spec fn remove_liquidity_imbalance_result(&self, amounts: [u128; 2], max_burn_amount: u128) -> Result<
        OutcomeSpec,
        PoolError,
    > {
        if !self.is_initialized() {
            Err(PoolError::BadParameter)
        } else {
            match spec_remove_liquidity_imbalance(
                self.balance_value(0),
                self.balance_value(1),
                amounts[0] as nat,
                amounts[1] as nat,
                self.supply_value(),
                self.amp_value(),
                self.fee_value(),
                self.admin_fee_value(),
                self.admin_balance_value(0),
                self.admin_balance_value(1),
                max_burn_amount as nat,
            ) {
                Err(e) => Err(e),
                Ok(o) => if o.amount >= u128_modulus() {
                    Err(PoolError::BadParameter)
                } else if !self.holder_ok(self.context.caller) {
                    Err(PoolError::StorageError)
                } else if self.lp_value(self.context.caller) < o.amount {
                    Err(PoolError::InsufficientBalance)
                } else if self.supply_value() < o.amount {
                    Err(PoolError::Overflow)
                } else {
                    Ok(o)
                },
            }
        }
    }

    /// Pays out exactly `amounts`, burning from the caller the units that
    /// this takes, imbalance fees included, up to `max_burn_amount`.
    pub fn remove_liquidity_imbalance(&mut self, amounts: [u128; 2], max_burn_amount: u128) -> (r:
        Result<CallResponse, PoolError>)
        requires
            old(self).wf(),
        ensures
            final(self).wf(),
            final(self).context == old(self).context,
            units_follow_supply(*old(self), *final(self), old(self).context.caller),
            remove_liquidity_imbalance_post(*old(self), *final(self), amounts, max_burn_amount, r),
    {
        proof {
            lemma_paths();
        }
        if !self.initialized() {
            return Err(PoolError::BadParameter);
        }
        let o = calc_remove_liquidity_imbalance(
            self.current_balances(),
            amounts,
            self.total_supply(),
            self.A(),
            self.fee(),
            self.admin_fee(),
            self.current_admin_balances(),
            max_burn_amount,
        )?;
        let burned = match o.amount.to_u128() {
            Some(v) => v,
            None => return Err(PoolError::BadParameter),
        };
        let caller = self.context.caller;
        match self.burn(&caller, burned) {
            Ok(()) => {},
            Err(e) => return Err(e),
        }
        self.store_reserves(&o);
        let mut alkanes: Vec<Transfer> = Vec::new();
        alkanes.push(Transfer { id: self.coins(0), value: amounts[0] });
        alkanes.push(Transfer { id: self.coins(1), value: amounts[1] });
        assert(alkanes@ =~= seq![alkanes@[0], alkanes@[1]]);
        Ok(CallResponse { alkanes, data: Vec::new() })
    }

    /// What burning `token_amount` units for coin `i` alone comes to: the
    /// coins paid out.
    pub open spec fn remove_liquidity_one_coin_result(&self, token_amount: u128, i: u128, min_amount: u128) -> Result<
        nat,
        PoolError,
    > {
        if !self.is_initialized() || i >= 2 {
            Err(PoolError::BadParameter)
        } else {
            match spec_calc_withdraw_one_coin(
                self.balance_value(0),
                self.balance_value(1),
                self.supply_value(),
                self.amp_value(),
                self.fee_value(),
                token_amount as nat,
                i as int,
            ) {
                Err(e) => Err(e),
                Ok(dy) => if dy < min_amount {
                    Err(PoolError::SlippageExceeded)
                } else if dy > self.balance_value(i as int) {
                    Err(PoolError::InsufficientPoolBalance)
                } else if dy >= u128_modulus() {
                    Err(PoolError::BadParameter)
                } else if !self.holder_ok(self.context.caller) {
                    Err(PoolError::StorageError)
                } else if self.lp_value(self.context.caller) < token_amount {
                    Err(PoolError::InsufficientBalance)
                } else if self.supply_value() < token_amount {
                    Err(PoolError::Overflow)
                } else {
                    Ok(dy)
                },
            }
        }
    }

    /// Burns `token_amount` of the caller's units and pays out coin `i` alone.
    pub fn remove_liquidity_one_coin(&mut self, token_amount: u128, i: u128, min_amount: u128) -> (r:
        Result<CallResponse, PoolError>)
        requires
            old(self).wf(),
        ensures
            final(self).wf(),
            final(self).context == old(self).context,
            units_follow_supply(*old(self), *final(self), old(self).context.caller),
            remove_liquidity_one_coin_post(*old(self), *final(self), token_amount, i, min_amount, r),
    {
        proof {
            lemma_paths();
        }
        if !self.initialized() || i >= 2 {
            return Err(PoolError::BadParameter);
        }
        let k = i as usize;
        let balances = self.current_balances();
        let dy = calc_withdraw_one_coin(
            balances,
            self.total_supply(),
            self.A(),
            self.fee(),
            token_amount,
            k,
        )?;
        if dy.lt(&U256::from_u128(min_amount)) {
            return Err(PoolError::SlippageExceeded);
        }
        let rest = match balances[k].checked_sub(dy) {
            Some(v) => v,
            None => return Err(PoolError::InsufficientPoolBalance),
        };
        let out = match dy.to_u128() {
            Some(v) => v,
            None => return Err(PoolError::BadParameter),
        };
        let caller = self.context.caller;
        match self.burn(&caller, token_amount) {
            Ok(()) => {},
            Err(e) => return Err(e),
        }
        self.set_balances(k, rest);
        let mut alkanes: Vec<Transfer> = Vec::new();
        alkanes.push(Transfer { id: self.coins(k), value: out });
        Ok(CallResponse { alkanes, data: Vec::new() })
    }

    /// What a swap of `dx` of coin `i` for coin `j` comes to.
    pub open spec fn swap_result(&self, i: u128, j: u128, dx: u128, min_dy: u128) -> Result<
        OutcomeSpec,
        PoolError,
    > {
        if !self.is_initialized() || i >= 2 || j >= 2 || i == j {
            Err(PoolError::BadParameter)
        } else if !parcel_carries(
            self.context.incoming@,
            self.coin_value(i as int),
            self.coin_value(i as int),
            dx as nat,
            dx as nat,
        ) {
            Err(PoolError::BadParameter)
        } else {
            spec_exchange(
                self.balance_value(0),
                self.balance_value(1),
                self.amp_value(),
                self.fee_value(),
                self.admin_fee_value(),
                self.admin_balance_value(0),
                self.admin_balance_value(1),
                i as int,
                j as int,
                dx as nat,
                min_dy as nat,
            )
        }
    }

    /// Takes in `dx` of coin `i`, which the incoming parcel must carry and
    /// nothing else, and pays out coin `j`.
    pub fn swap(&mut self, i: u128, j: u128, dx: u128, min_dy: u128) -> (r: Result<
        CallResponse,
        PoolError,
    >)
        requires
            old(self).wf(),
        ensures
            final(self).wf(),
            final(self).context == old(self).context,
            units_follow_supply(*old(self), *final(self), old(self).context.caller),
            swap_post(*old(self), *final(self), i, j, dx, min_dy, r),
    {
        if !self.initialized() || i >= 2 || j >= 2 || i == j {
            return Err(PoolError::BadParameter);
        }
        let ki = i as usize;
        let kj = j as usize;
        let ci = self.coins(ki);
        if !parcel_matches(&self.context.incoming, ci, ci, dx, dx) {
            return Err(PoolError::BadParameter);
        }
        let o = calc_exchange(
            self.current_balances(),
            self.A(),
            self.fee(),
            self.admin_fee(),
            self.current_admin_balances(),
            ki,
            kj,
            dx,
            min_dy,
        )?;
        let out = match o.amount.to_u128() {
            Some(v) => v,
            None => return Err(PoolError::BadParameter),
        };
        self.store_reserves(&o);
        let mut alkanes: Vec<Transfer> = Vec::new();
        alkanes.push(Transfer { id: self.coins(kj), value: out });
        Ok(CallResponse { alkanes, data: Vec::new() })
    }

    /// Why a claim of the owner's balances is refused, if it is.
    pub open spec fn claim_refusal(&self) -> Option<PoolError> {
        if !self.is_initialized() {
            Some(PoolError::BadParameter)
        } else if self.context.caller != self.owner_value() {
            Some(PoolError::Unauthorized)
        } else if self.admin_balance_value(0) >= u128_modulus() || self.admin_balance_value(1)
            >= u128_modulus() {
            Some(PoolError::BadParameter)
        } else {
            None
        }
    }

    /// Sends the owner's balances to the owner and sets them to zero. The
    /// pooled balances are not touched.
    pub fn claim_admin_fees(&mut self) -> (r: Result<CallResponse, PoolError>)
        requires
            old(self).wf(),
        ensures
            final(self).wf(),
            final(self).context == old(self).context,
            units_follow_supply(*old(self), *final(self), old(self).context.caller),
            claim_admin_fees_post(*old(self), *final(self), r),
    {
        proof {
            lemma_paths();
        }
        if !self.initialized() {
            return Err(PoolError::BadParameter);
        }
        let owner = self.owner();
        if self.context.caller != owner {
            return Err(PoolError::Unauthorized);
        }
        let adm = self.current_admin_balances();
        let a0 = match adm[0].to_u128() {
            Some(v) => v,
            None => return Err(PoolError::BadParameter),
        };
        let a1 = match adm[1].to_u128() {
            Some(v) => v,
            None => return Err(PoolError::BadParameter),
        };
        let c0 = self.coins(0);
        let c1 = self.coins(1);
        self.set_admin_balances(0, U256::zero());
        self.set_admin_balances(1, U256::zero());
        let mut alkanes: Vec<Transfer> = Vec::new();
        if a0 > 0 {
            alkanes.push(Transfer { id: c0, value: a0 });
        }
        if a1 > 0 {
            alkanes.push(Transfer { id: c1, value: a1 });
        }
        proof {
            assert(alkanes@ =~= claimed(c0, c1, a0 as nat, a1 as nat));
        }
        Ok(CallResponse { alkanes, data: Vec::new() })
    }

    /// What the virtual price comes to.
    pub open spec fn virtual_price_result(&self) -> Result<nat, PoolError> {
        if !self.is_initialized() {
            Err(PoolError::BadParameter)
        } else {
            spec_virtual_price(
                self.balance_value(0),
                self.balance_value(1),
                self.amp_value(),
                self.supply_value(),
            )
        }
    }

    /// `D * PRECISION / total_supply`, as 32 little-endian bytes.
    pub fn get_virtual_price(&self) -> (r: Result<CallResponse, PoolError>)
        requires
            self.wf(),
        ensures
            virtual_price_post(*self, r),
    {
        if !self.initialized() {
            return Err(PoolError::BadParameter);
        }
        let price = calc_virtual_price(self.current_balances(), self.A(), self.total_supply())?;
        Ok(CallResponse { alkanes: Vec::new(), data: price.to_le_bytes() })
    }

    /// The pooled balances, coin 0 then coin 1, as 32 little-endian bytes each.
    pub fn get_balances(&self) -> (r: Result<CallResponse, PoolError>)
        requires
            self.wf(),
        ensures
            balances_post(*self, r),
    {
        if !self.initialized() {
            return Err(PoolError::BadParameter);
        }
        let balances = self.current_balances();
        let mut data = balances[0].to_le_bytes();
        let mut second = balances[1].to_le_bytes();
        let ghost first = data@;
        let ghost tail = second@;
        data.append(&mut second);
        proof {
            assert(data@.subrange(0, 32) =~= first);
            assert(data@.subrange(32, 64) =~= tail);
        }
        Ok(CallResponse { alkanes: Vec::new(), data })
    }

    /// The amplification, as 32 little-endian bytes.
    pub fn get_a(&self) -> (r: Result<CallResponse, PoolError>)
        requires
            self.wf(),
        ensures
            a_post(*self, r),
    {
        if !self.initialized() {
            return Err(PoolError::BadParameter);
        }
        Ok(CallResponse { alkanes: Vec::new(), data: self.A().to_le_bytes() })
    }
}

/// What `init_pool` returns and leaves, from `before`, on a well-formed store.
#[allow(non_snake_case)]
pub open spec fn init_pool_post<S: Storage>(
    before: Logic<S>,
    after: Logic<S>,
    token_a: AssetId,
    token_b: AssetId,
    A: u128,
    fee: u128,
    admin_fee: u128,
    owner: AssetId,
    r: Result<CallResponse, PoolError>,
) -> bool {
    &&& before.init_refused(token_a, token_b, A as nat, fee as nat, admin_fee as nat) ==> r
        == Err::<CallResponse, PoolError>(PoolError::BadParameter) && after.records()
        == before.records()
    &&& !before.init_refused(token_a, token_b, A as nat, fee as nat, admin_fee as nat) ==> (
    r matches Ok(resp) && is_empty_response(resp)) && after.is_initialized()
        && after.coin_value(0) == token_a && after.coin_value(1) == token_b
        && after.amp_value() == A as nat && after.fee_value() == fee as nat
        && after.admin_fee_value() == admin_fee as nat && after.owner_value() == owner
        && kept_except(
        before.records(),
        after.records(),
        set![
            key_coins(0),
            key_coins(1),
            key_a(),
            key_fee(),
            key_admin_fee(),
            key_owner(),
            key_initialized(),
        ],
    )
}

/// What `add_liquidity` returns and leaves, from `before`, on a well-formed store.
#[allow(non_snake_case)]
pub open spec fn add_liquidity_post<S: Storage>(
    before: Logic<S>,
    after: Logic<S>,
    amounts: [u128; 2],
    min_mint_amount: u128,
    r: Result<CallResponse, PoolError>,
) -> bool {
    match before.add_liquidity_result(amounts, min_mint_amount) {
        Ok(o) => (r matches Ok(resp) && is_empty_response(resp)) && after.holds(o)
            && after.supply_value() == before.supply_value() + o.amount
            && after.lp_value(before.context.caller) == before.lp_value(
            before.context.caller,
        ) + o.amount && kept_except(
            before.records(),
            after.records(),
            reserve_keys().insert(key_total_supply()).insert(
                key_balance(before.context.caller),
            ),
        ),
        Err(e) => r == Err::<CallResponse, PoolError>(e) && after.records() == before.records(),
    }
}

/// What `remove_liquidity` returns and leaves, from `before`, on a well-formed store.
#[allow(non_snake_case)]
pub open spec fn remove_liquidity_post<S: Storage>(
    before: Logic<S>,
    after: Logic<S>,
    amount: u128,
    min_amounts: [u128; 2],
    r: Result<CallResponse, PoolError>,
) -> bool {
    match before.remove_liquidity_result(amount, min_amounts) {
        Ok((o0, o1)) => (r matches Ok(resp) && resp.alkanes@ == seq![
            Transfer { id: before.coin_value(0), value: o0 as u128 },
            Transfer { id: before.coin_value(1), value: o1 as u128 },
        ] && resp.data@.len() == 0) && after.balance_value(0) == before.balance_value(0) - o0
            && after.balance_value(1) == before.balance_value(1) - o1
            && after.supply_value() == before.supply_value() - amount
            && after.lp_value(before.context.caller) == before.lp_value(
            before.context.caller,
        ) - amount && kept_except(
            before.records(),
            after.records(),
            set![
                key_balances(0),
                key_balances(1),
                key_total_supply(),
                key_balance(before.context.caller),
            ],
        ),
        Err(e) => r == Err::<CallResponse, PoolError>(e) && after.records() == before.records(),
    }
}

/// What `remove_liquidity_imbalance` returns and leaves, from `before`, on a well-formed store.
#[allow(non_snake_case)]
pub open spec fn remove_liquidity_imbalance_post<S: Storage>(
    before: Logic<S>,
    after: Logic<S>,
    amounts: [u128; 2],
    max_burn_amount: u128,
    r: Result<CallResponse, PoolError>,
) -> bool {
    match before.remove_liquidity_imbalance_result(amounts, max_burn_amount) {
        Ok(o) => (r matches Ok(resp) && resp.alkanes@ == seq![
            Transfer { id: before.coin_value(0), value: amounts[0] },
            Transfer { id: before.coin_value(1), value: amounts[1] },
        ] && resp.data@.len() == 0) && after.holds(o) && after.supply_value()
            == before.supply_value() - o.amount && after.lp_value(
            before.context.caller,
        ) == before.lp_value(before.context.caller) - o.amount && kept_except(
            before.records(),
            after.records(),
            reserve_keys().insert(key_total_supply()).insert(
                key_balance(before.context.caller),
            ),
        ),
        Err(e) => r == Err::<CallResponse, PoolError>(e) && after.records() == before.records(),
    }
}

/// What `remove_liquidity_one_coin` returns and leaves, from `before`, on a well-formed store.
#[allow(non_snake_case)]
pub open spec fn remove_liquidity_one_coin_post<S: Storage>(
    before: Logic<S>,
    after: Logic<S>,
    token_amount: u128,
    i: u128,
    min_amount: u128,
    r: Result<CallResponse, PoolError>,
) -> bool {
    match before.remove_liquidity_one_coin_result(token_amount, i, min_amount) {
        Ok(dy) => (r matches Ok(resp) && resp.alkanes@ == seq![
            Transfer { id: before.coin_value(i as int), value: dy as u128 },
        ] && resp.data@.len() == 0) && after.balance_value(i as int) == before.balance_value(i as int) - dy && after.supply_value() == before.supply_value()
            - token_amount && after.lp_value(before.context.caller) == before.lp_value(before.context.caller) - token_amount && kept_except(
            before.records(),
            after.records(),
            set![
                key_balances(i as int),
                key_total_supply(),
                key_balance(before.context.caller),
            ],
        ),
        Err(e) => r == Err::<CallResponse, PoolError>(e) && after.records() == before.records(),
    }
}

/// What `swap` returns and leaves, from `before`, on a well-formed store.
#[allow(non_snake_case)]
pub open spec fn swap_post<S: Storage>(
    before: Logic<S>,
    after: Logic<S>,
    i: u128,
    j: u128,
    dx: u128,
    min_dy: u128,
    r: Result<CallResponse, PoolError>,
) -> bool {
    match before.swap_result(i, j, dx, min_dy) {
        Ok(o) => (r matches Ok(resp) && resp.alkanes@ == seq![
            Transfer { id: before.coin_value(j as int), value: o.amount as u128 },
        ] && resp.data@.len() == 0) && after.holds(o) && kept_except(
            before.records(),
            after.records(),
            reserve_keys(),
        ),
        Err(e) => r == Err::<CallResponse, PoolError>(e) && after.records() == before.records(),
    }
}

/// What `claim_admin_fees` returns and leaves, from `before`, on a well-formed store.
#[allow(non_snake_case)]
pub open spec fn claim_admin_fees_post<S: Storage>(
    before: Logic<S>,
    after: Logic<S>,
    r: Result<CallResponse, PoolError>,
) -> bool {
    match before.claim_refusal() {
        None => (r matches Ok(resp) && resp.alkanes@ == claimed(
            before.coin_value(0),
            before.coin_value(1),
            before.admin_balance_value(0),
            before.admin_balance_value(1),
        ) && resp.data@.len() == 0) && after.admin_balance_value(0) == 0
            && after.admin_balance_value(1) == 0 && kept_except(
            before.records(),
            after.records(),
            set![key_admin_balances(0), key_admin_balances(1)],
        ),
        Some(e) => r == Err::<CallResponse, PoolError>(e) && after.records() == before.records(),
    }
}

/// What `get_virtual_price` returns from `p`, on a well-formed store.
pub open spec fn virtual_price_post<S: Storage>(p: Logic<S>, r: Result<CallResponse, PoolError>) -> bool {
    match p.virtual_price_result() {
        Ok(v) => r matches Ok(resp) && resp.alkanes@.len() == 0 && resp.data@.len() == 32
            && le_value(resp.data@) == v,
        Err(e) => r == Err::<CallResponse, PoolError>(e),
    }
}

/// What `get_balances` returns from `p`, on a well-formed store.
pub open spec fn balances_post<S: Storage>(p: Logic<S>, r: Result<CallResponse, PoolError>) -> bool {
    &&& !p.is_initialized() ==> r == Err::<CallResponse, PoolError>(PoolError::BadParameter)
    &&& p.is_initialized() ==> (r matches Ok(resp) && resp.alkanes@.len() == 0
        && resp.data@.len() == 64 && le_value(resp.data@.subrange(0, 32))
        == p.balance_value(0) && le_value(resp.data@.subrange(32, 64))
        == p.balance_value(1))
}

/// What `get_a` returns from `p`, on a well-formed store.
pub open spec fn a_post<S: Storage>(p: Logic<S>, r: Result<CallResponse, PoolError>) -> bool {
    &&& !p.is_initialized() ==> r == Err::<CallResponse, PoolError>(PoolError::BadParameter)
    &&& p.is_initialized() ==> (r matches Ok(resp) && resp.alkanes@.len() == 0
        && resp.data@.len() == 32 && le_value(resp.data@) == p.amp_value())
}

} // verus!
