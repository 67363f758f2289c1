use vstd::prelude::*;
use crate::errors::TokenError;
use crate::storage::{
    durable_write, kept, KeyView, OpView, ValueView, LEASE_EXTEND_TO, LEASE_THRESHOLD,
};
use crate::sums::{amount_of, map_sum};

verus! {

/// The longest token name, in bytes.
pub const MAX_NAME_LENGTH: usize = 100;

/// The longest token symbol, in bytes.
pub const MAX_SYMBOL_LENGTH: usize = 32;

/// The ledger as a mathematical value.
///
/// An absent key of `balances` or `allowances` stands for zero. `journal` lists,
/// oldest first, the storage requests that the operations have made so far.
pub struct LedgerState {
    pub initialized: bool,
    pub admin: Option<Seq<char>>,
    pub name: Seq<char>,
    pub symbol: Seq<char>,
    pub decimals: u32,
    pub supply: int,
    pub balances: Map<Seq<char>, int>,
    pub allowances: Map<(Seq<char>, Seq<char>), int>,
    pub journal: Seq<OpView<KeyView>>,
}

/// The length of a text in bytes.
pub open spec fn byte_len(text: Seq<char>) -> nat {
    vstd::utf8::encode_utf8(text).len()
}

/// The ledger before anything happened to it.
pub open spec fn blank() -> LedgerState {
    LedgerState {
        initialized: false,
        admin: None,
        name: Seq::empty(),
        symbol: Seq::empty(),
        decimals: 0,
        supply: 0,
        balances: Map::empty(),
        allowances: Map::empty(),
        journal: Seq::empty(),
    }
}

/// Every recorded amount is positive and fits the machine's amounts, the supply
/// fits too, and only finitely many records exist.
pub open spec fn valid(s: LedgerState) -> bool {
    &&& s.balances.dom().finite()
    &&& s.allowances.dom().finite()
    &&& forall|a: Seq<char>| #[trigger]
        s.balances.contains_key(a) ==> 0 < s.balances[a] <= i128::MAX
    &&& forall|p: (Seq<char>, Seq<char>)| #[trigger]
        s.allowances.contains_key(p) ==> 0 < s.allowances[p] <= i128::MAX
    &&& i128::MIN <= s.supply <= i128::MAX
}

/// The supply invariant: what the holders hold adds up to the supply.
pub open spec fn conserved(s: LedgerState) -> bool {
    map_sum(s.balances) == s.supply
}

/// What `account` holds.
pub open spec fn balance_of(s: LedgerState, account: Seq<char>) -> int {
    amount_of(s.balances, account)
}

/// What `spender` may still move out of what `owner` holds.
pub open spec fn allowance_of(s: LedgerState, owner: Seq<char>, spender: Seq<char>) -> int {
    amount_of(s.allowances, (owner, spender))
}

/// The name that the ledger reports: the recorded one once it is set up.
pub open spec fn name_of(s: LedgerState) -> Seq<char> {
    if s.initialized {
        s.name
    } else {
        Seq::empty()
    }
}

/// The symbol that the ledger reports: the recorded one once it is set up.
pub open spec fn symbol_of(s: LedgerState) -> Seq<char> {
    if s.initialized {
        s.symbol
    } else {
        Seq::empty()
    }
}

/// The decimals that the ledger reports: the recorded ones once it is set up.
pub open spec fn decimals_of(s: LedgerState) -> u32 {
    if s.initialized {
        s.decimals
    } else {
        0
    }
}

/// Whether a name and a symbol are acceptable metadata.
pub open spec fn metadata_ok(name: Seq<char>, symbol: Seq<char>) -> bool {
    &&& 0 < byte_len(name) <= MAX_NAME_LENGTH
    &&& 0 < byte_len(symbol) <= MAX_SYMBOL_LENGTH
}

/// What `initialize` comes to: refused on a ledger that is set up already, for
/// decimals other than zero, and for unacceptable metadata, in this order.
pub open spec fn initialize_result(
    s: LedgerState,
    name: Seq<char>,
    symbol: Seq<char>,
    decimals: u32,
) -> Result<(), TokenError> {
    if s.initialized {
        Err(TokenError::AlreadyInitialized)
    } else if decimals != 0 {
        Err(TokenError::InvalidDecimals)
    } else if !metadata_ok(name, symbol) {
        Err(TokenError::InvalidMetadata)
    } else {
        Ok(())
    }
}

/// The state after a successful `initialize`: administrator and metadata are
/// recorded, the supply starts at zero, and the ephemeral tier is written and
/// its lease renewed.
pub open spec fn initialize_effect(
    s: LedgerState,
    admin: Seq<char>,
    name: Seq<char>,
    symbol: Seq<char>,
    decimals: u32,
) -> LedgerState {
    LedgerState {
        initialized: true,
        admin: Some(admin),
        name,
        symbol,
        decimals,
        supply: 0,
        journal: s.journal + seq![
            OpView::InstanceSet(KeyView::Admin, ValueView::Identity(admin)),
            OpView::InstanceSet(KeyView::TokenName, ValueView::Text(name)),
            OpView::InstanceSet(KeyView::TokenSymbol, ValueView::Text(symbol)),
            OpView::InstanceSet(KeyView::Decimals, ValueView::Number(decimals)),
            OpView::InstanceSet(KeyView::TotalSupply, ValueView::Amount(0)),
            OpView::InstanceSet(KeyView::Initialized, ValueView::Flag(true)),
            OpView::InstanceExtend(LEASE_THRESHOLD, LEASE_EXTEND_TO),
        ],
        ..s
    }
}

/// What `mint` comes to: refused before the ledger is set up, without the
/// administrator's authority, for an amount that is not positive, and where the
/// holder's new balance or the new supply would leave the range, in this order.
pub open spec fn mint_result(s: LedgerState, auth: Set<Seq<char>>, to: Seq<char>, amount: int)
    -> Result<(), TokenError> {
    if !s.initialized || s.admin is None {
        Err(TokenError::NotInitialized)
    } else if !auth.contains(s.admin->Some_0) {
        Err(TokenError::Unauthorized)
    } else if amount <= 0 {
        Err(TokenError::InvalidAmount)
    } else if balance_of(s, to) + amount > i128::MAX || s.supply + amount > i128::MAX {
        Err(TokenError::OverflowError)
    } else {
        Ok(())
    }
}

/// The state after a successful `mint`: the holder's balance is written and its
/// lease renewed, then the supply is written.
pub open spec fn mint_effect(s: LedgerState, to: Seq<char>, amount: int) -> LedgerState {
    LedgerState {
        balances: s.balances.insert(to, balance_of(s, to) + amount),
        supply: s.supply + amount,
        journal: s.journal + seq![
            OpView::PersistentSet(
                KeyView::Balance(to),
                ValueView::Amount(balance_of(s, to) + amount),
            ),
            OpView::PersistentExtend(KeyView::Balance(to), LEASE_THRESHOLD, LEASE_EXTEND_TO),
            OpView::InstanceSet(KeyView::TotalSupply, ValueView::Amount(s.supply + amount)),
        ],
        ..s
    }
}

/// What `burn` comes to: refused before the ledger is set up, without the
/// holder's authority, for an amount that is not positive, for more than the
/// holder has, and where the new supply would leave the range, in this order.
pub open spec fn burn_result(s: LedgerState, auth: Set<Seq<char>>, from: Seq<char>, amount: int)
    -> Result<(), TokenError> {
    if !s.initialized {
        Err(TokenError::NotInitialized)
    } else if !auth.contains(from) {
        Err(TokenError::Unauthorized)
    } else if amount <= 0 {
        Err(TokenError::InvalidAmount)
    } else if balance_of(s, from) < amount {
        Err(TokenError::InsufficientBalance)
    } else if s.supply - amount < i128::MIN {
        Err(TokenError::OverflowError)
    } else {
        Ok(())
    }
}

/// The state after a successful `burn`: the holder's balance is written, or
/// deleted where nothing is left, then the supply is written.
pub open spec fn burn_effect(s: LedgerState, from: Seq<char>, amount: int) -> LedgerState {
    LedgerState {
        balances: kept(s.balances, from, balance_of(s, from) - amount),
        supply: s.supply - amount,
        journal: s.journal + durable_write(KeyView::Balance(from), balance_of(s, from) - amount)
            + seq![OpView::InstanceSet(KeyView::TotalSupply, ValueView::Amount(s.supply - amount))],
        ..s
    }
}

/// What `transfer` comes to: refused before the ledger is set up, without the
/// sender's authority, for an amount that is not positive, for a transfer to
/// oneself, for more than the sender has, and where the recipient's new balance
/// would leave the range, in this order.
pub open spec fn transfer_result(
    s: LedgerState,
    auth: Set<Seq<char>>,
    from: Seq<char>,
    to: Seq<char>,
    amount: int,
) -> Result<(), TokenError> {
    if !s.initialized {
        Err(TokenError::NotInitialized)
    } else if !auth.contains(from) {
        Err(TokenError::Unauthorized)
    } else if amount <= 0 {
        Err(TokenError::InvalidAmount)
    } else if from == to {
        Err(TokenError::InvalidRecipient)
    } else if balance_of(s, from) < amount {
        Err(TokenError::InsufficientBalance)
    } else if balance_of(s, to) + amount > i128::MAX {
        Err(TokenError::OverflowError)
    } else {
        Ok(())
    }
}

/// The balances after `amount` moved from `from` to `to`.
pub open spec fn moved(balances: Map<Seq<char>, int>, from: Seq<char>, to: Seq<char>, amount: int)
    -> Map<Seq<char>, int> {
    kept(balances, from, amount_of(balances, from) - amount).insert(
        to,
        amount_of(balances, to) + amount,
    )
}

/// The storage requests that move `amount` from `from` to `to`.
pub open spec fn move_writes(
    balances: Map<Seq<char>, int>,
    from: Seq<char>,
    to: Seq<char>,
    amount: int,
) -> Seq<OpView<KeyView>> {
    durable_write(KeyView::Balance(from), amount_of(balances, from) - amount) + seq![
        OpView::PersistentSet(
            KeyView::Balance(to),
            ValueView::Amount(amount_of(balances, to) + amount),
        ),
        OpView::PersistentExtend(KeyView::Balance(to), LEASE_THRESHOLD, LEASE_EXTEND_TO),
    ]
}

/// The state after a successful `transfer`; the supply is as before.
pub open spec fn transfer_effect(s: LedgerState, from: Seq<char>, to: Seq<char>, amount: int)
    -> LedgerState {
    LedgerState {
        balances: moved(s.balances, from, to, amount),
        journal: s.journal + move_writes(s.balances, from, to, amount),
        ..s
    }
}

/// What `approve` comes to: refused before the ledger is set up, without the
/// owner's authority, and for a negative amount, in this order.
pub open spec fn approve_result(s: LedgerState, auth: Set<Seq<char>>, owner: Seq<char>, amount: int)
    -> Result<(), TokenError> {
    if !s.initialized {
        Err(TokenError::NotInitialized)
    } else if !auth.contains(owner) {
        Err(TokenError::Unauthorized)
    } else if amount < 0 {
        Err(TokenError::InvalidAmount)
    } else {
        Ok(())
    }
}

/// The state after a successful `approve`: the amount replaces the earlier
/// allowance, and zero deletes it.
pub open spec fn approve_effect(s: LedgerState, owner: Seq<char>, spender: Seq<char>, amount: int)
    -> LedgerState {
    LedgerState {
        allowances: kept(s.allowances, (owner, spender), amount),
        journal: s.journal + durable_write(KeyView::Allowance(owner, spender), amount),
        ..s
    }
}

/// What `transfer_from` comes to: refused before the ledger is set up, without
/// the spender's authority, for an amount that is not positive, for a transfer
/// to oneself, for more than the allowance, for more than the owner has, and
/// where the recipient's new balance would leave the range, in this order.
pub open spec fn transfer_from_result(
    s: LedgerState,
    auth: Set<Seq<char>>,
    spender: Seq<char>,
    from: Seq<char>,
    to: Seq<char>,
    amount: int,
) -> Result<(), TokenError> {
    if !s.initialized {
        Err(TokenError::NotInitialized)
    } else if !auth.contains(spender) {
        Err(TokenError::Unauthorized)
    } else if amount <= 0 {
        Err(TokenError::InvalidAmount)
    } else if from == to {
        Err(TokenError::InvalidRecipient)
    } else if allowance_of(s, from, spender) < amount {
        Err(TokenError::InsufficientAllowance)
    } else if balance_of(s, from) < amount {
        Err(TokenError::InsufficientBalance)
    } else if balance_of(s, to) + amount > i128::MAX {
        Err(TokenError::OverflowError)
    } else {
        Ok(())
    }
}

/// The state after a successful `transfer_from`: the balances move as in a
/// transfer, then the allowance is written, or deleted where it is used up.
pub open spec fn transfer_from_effect(
    s: LedgerState,
    spender: Seq<char>,
    from: Seq<char>,
    to: Seq<char>,
    amount: int,
) -> LedgerState {
    LedgerState {
        balances: moved(s.balances, from, to, amount),
        allowances: kept(s.allowances, (from, spender), allowance_of(s, from, spender) - amount),
        journal: s.journal + move_writes(s.balances, from, to, amount) + durable_write(
            KeyView::Allowance(from, spender),
            allowance_of(s, from, spender) - amount,
        ),
        ..s
    }
}

/// The state that an operation leaves: its effect where it succeeds, and the
/// state it found, untouched, where it fails.
pub open spec fn settled(before: LedgerState, result: Result<(), TokenError>, effect: LedgerState)
    -> LedgerState {
    if result is Ok {
        effect
    } else {
        before
    }
}

/// Whether `value` is of the kind that the store keeps under `key`: a positive
/// amount under a balance or an allowance, an amount under the supply, an
/// identity under the administrator, a text under the name and the symbol, a
/// number under the decimals and a flag under the mark of being set up.
pub open spec fn restorable(key: KeyView, value: ValueView) -> bool {
    match (key, value) {
        (KeyView::Balance(_), ValueView::Amount(n)) => n > 0,
        (KeyView::Allowance(_, _), ValueView::Amount(n)) => n > 0,
        (KeyView::TotalSupply, ValueView::Amount(_)) => true,
        (KeyView::Admin, ValueView::Identity(_)) => true,
        (KeyView::TokenName, ValueView::Text(_)) => true,
        (KeyView::TokenSymbol, ValueView::Text(_)) => true,
        (KeyView::Decimals, ValueView::Number(_)) => true,
        (KeyView::Initialized, ValueView::Flag(_)) => true,
        _ => false,
    }
}

/// The state in which the record `value` under `key`, as it was read from
/// the store, has taken its place. No storage request is made for it.
pub open spec fn restored(s: LedgerState, key: KeyView, value: ValueView) -> LedgerState {
    match (key, value) {
        (KeyView::Balance(a), ValueView::Amount(n)) => LedgerState {
            balances: s.balances.insert(a, n),
            ..s
        },
        (KeyView::Allowance(o, p), ValueView::Amount(n)) => LedgerState {
            allowances: s.allowances.insert((o, p), n),
            ..s
        },
        (KeyView::TotalSupply, ValueView::Amount(n)) => LedgerState { supply: n, ..s },
        (KeyView::Admin, ValueView::Identity(a)) => LedgerState { admin: Some(a), ..s },
        (KeyView::TokenName, ValueView::Text(t)) => LedgerState { name: t, ..s },
        (KeyView::TokenSymbol, ValueView::Text(t)) => LedgerState { symbol: t, ..s },
        (KeyView::Decimals, ValueView::Number(d)) => LedgerState { decimals: d, ..s },
        (KeyView::Initialized, ValueView::Flag(b)) => LedgerState { initialized: b, ..s },
        _ => s,
    }
}

} // verus!
