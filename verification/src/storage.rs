use vstd::prelude::*;
use crate::address::Address;

verus! {

/// How close to expiry a record must be before its lease is renewed, in ledgers.
pub const LEASE_THRESHOLD: u32 = 100_000;

/// How long a renewed lease lasts, in ledgers.
pub const LEASE_EXTEND_TO: u32 = 200_000;

/// The keys under which the ledger keeps its records.
///
/// `Balance` and `Allowance` live in the durable tier, one leased record each;
/// the others live in the ephemeral tier, which has one lease for all of them.
#[derive(Debug, Clone, PartialEq, Eq, Hash)]
pub enum DataKey {
    Balance(Address),
    Allowance(Address, Address),
    TotalSupply,
    Admin,
    TokenName,
    TokenSymbol,
    Decimals,
    Initialized,
}

/// What a `DataKey` is as a mathematical value.
pub enum KeyView {
    Balance(Seq<char>),
    Allowance(Seq<char>, Seq<char>),
    TotalSupply,
    Admin,
    TokenName,
    TokenSymbol,
    Decimals,
    Initialized,
}

impl View for DataKey {
    type V = KeyView;

    open spec fn view(&self) -> KeyView {
        match self {
            DataKey::Balance(a) => KeyView::Balance(a@),
            DataKey::Allowance(o, s) => KeyView::Allowance(o@, s@),
            DataKey::TotalSupply => KeyView::TotalSupply,
            DataKey::Admin => KeyView::Admin,
            DataKey::TokenName => KeyView::TokenName,
            DataKey::TokenSymbol => KeyView::TokenSymbol,
            DataKey::Decimals => KeyView::Decimals,
            DataKey::Initialized => KeyView::Initialized,
        }
    }
}

/// A value that is kept under a key.
#[derive(Debug, Clone, PartialEq, Eq)]
pub enum Value {
    Amount(i128),
    Identity(Address),
    Text(String),
    Number(u32),
    Flag(bool),
}

/// What a `Value` is as a mathematical value.
pub enum ValueView {
    Amount(int),
    Identity(Seq<char>),
    Text(Seq<char>),
    Number(u32),
    Flag(bool),
}

impl View for Value {
    type V = ValueView;

    open spec fn view(&self) -> ValueView {
        match self {
            Value::Amount(n) => ValueView::Amount(*n as int),
            Value::Identity(a) => ValueView::Identity(a@),
            Value::Text(t) => ValueView::Text(t@),
            Value::Number(n) => ValueView::Number(*n),
            Value::Flag(b) => ValueView::Flag(*b),
        }
    }
}

/// One request to the key-value store that backs a contract, over the
/// contract's own keys.
///
/// The contract decides which requests an operation makes and in which order;
/// whoever owns the store carries them out.
#[derive(Debug, Clone, PartialEq, Eq)]
pub enum StorageOp<K> {
    /// Write a value into the ephemeral tier.
    InstanceSet(K, Value),
    /// Renew the lease of the ephemeral tier.
    InstanceExtend(u32, u32),
    /// Write a value into the durable tier.
    PersistentSet(K, Value),
    /// Delete a record of the durable tier.
    PersistentRemove(K),
    /// Renew the lease of a record of the durable tier.
    PersistentExtend(K, u32, u32),
}

/// What a `StorageOp` is as a mathematical value.
pub enum OpView<K> {
    InstanceSet(K, ValueView),
    InstanceExtend(u32, u32),
    PersistentSet(K, ValueView),
    PersistentRemove(K),
    PersistentExtend(K, u32, u32),
}

impl<K: View> View for StorageOp<K> {
    type V = OpView<K::V>;

    open spec fn view(&self) -> OpView<K::V> {
        match self {
            StorageOp::InstanceSet(k, v) => OpView::InstanceSet(k@, v@),
            StorageOp::InstanceExtend(t, e) => OpView::InstanceExtend(*t, *e),
            StorageOp::PersistentSet(k, v) => OpView::PersistentSet(k@, v@),
            StorageOp::PersistentRemove(k) => OpView::PersistentRemove(k@),
            StorageOp::PersistentExtend(k, t, e) => OpView::PersistentExtend(k@, *t, *e),
        }
    }
}

/// The requests of a list, each as a mathematical value.
pub open spec fn ops_view<K: View>(ops: Seq<StorageOp<K>>) -> Seq<OpView<K::V>> {
    ops.map_values(|op: StorageOp<K>| op@)
}

/// The descriptive data of the token.
#[derive(Debug, Clone, PartialEq, Eq)]
pub struct TokenMetadata {
    pub name: String,
    pub symbol: String,
    pub decimals: u32,
}

/// The requests that keep `value` under a durable `key` and renew its lease,
/// or that delete the record where `value` is zero.
pub open spec fn durable_write(key: KeyView, value: int) -> Seq<OpView<KeyView>> {
    if value == 0 {
        seq![OpView::PersistentRemove(key)]
    } else {
        seq![
            OpView::PersistentSet(key, ValueView::Amount(value)),
            OpView::PersistentExtend(key, LEASE_THRESHOLD, LEASE_EXTEND_TO),
        ]
    }
}

/// The sparse table after `value` was kept under `key`: a zero deletes the record.
pub open spec fn kept<K>(table: Map<K, int>, key: K, value: int) -> Map<K, int> {
    if value == 0 {
        table.remove(key)
    } else {
        table.insert(key, value)
    }
}

} // verus!
