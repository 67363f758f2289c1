use vstd::prelude::*;
use crate::address::Address;
use crate::allowances::AllowanceTable;
use crate::auth::Authorization;
use crate::balances::BalanceTable;
use crate::errors::TokenError;
use crate::laws::{consistent, lemma_step_consistent, Call};
use crate::state::{
    allowance_of, approve_effect, approve_result, balance_of, blank, burn_effect, burn_result,
    decimals_of, initialize_effect, initialize_result, mint_effect, mint_result, name_of,
    restorable, restored, settled, symbol_of, transfer_effect, transfer_from_effect,
    transfer_from_result, transfer_result, valid, LedgerState, MAX_NAME_LENGTH,
    MAX_SYMBOL_LENGTH,
};
use crate::storage::{
    durable_write, kept, ops_view, DataKey, KeyView, OpView, StorageOp, TokenMetadata, Value,
    ValueView, LEASE_EXTEND_TO, LEASE_THRESHOLD,
};

verus! {

/// A fungible-token ledger: metadata, supply, balances and allowances, together
/// with the storage requests that its operations have made and that are still
/// to be carried out.
#[derive(Debug)]
pub struct TokenCodebit {
    initialized: bool,
    admin: Option<Address>,
    metadata: TokenMetadata,
    supply: i128,
    balances: BalanceTable,
    allowances: AllowanceTable,
    journal: Vec<StorageOp<DataKey>>,
}

impl View for TokenCodebit {
    type V = LedgerState;

    closed spec fn view(&self) -> LedgerState {
        LedgerState {
            initialized: self.initialized,
            admin: match self.admin {
                Some(a) => Some(a@),
                None => None,
            },
            name: self.metadata.name@,
            symbol: self.metadata.symbol@,
            decimals: self.metadata.decimals,
            supply: self.supply as int,
            balances: self.balances@,
            allowances: self.allowances@,
            journal: ops_view(self.journal@),
        }
    }
}

impl TokenCodebit {
    /// The tables of the ledger are well formed.
    pub closed spec fn wf(&self) -> bool {
        &&& self.balances.wf()
        &&& self.allowances.wf()
    }

    /// A well-formed ledger stands for a valid state.
    pub proof fn lemma_valid(&self)
        requires
            self.wf(),
        ensures
            valid(self@),
    {
        self.balances.lemma_view_valid();
        self.allowances.lemma_view_valid();
    }

    /// The ledger before anything happened to it.
    pub fn new() -> (ledger: TokenCodebit)
        ensures
            ledger.wf(),
            ledger@ == blank(),
            consistent(ledger@),
    {
        let ledger = TokenCodebit {
            initialized: false,
            admin: None,
            metadata: TokenMetadata { name: String::new(), symbol: String::new(), decimals: 0 },
            supply: 0,
            balances: BalanceTable::new(),
            allowances: AllowanceTable::new(),
            journal: Vec::new(),
        };
        assert(ledger@.journal =~= Seq::<OpView<KeyView>>::empty());
        ledger
    }

    fn record(&mut self, op: StorageOp<DataKey>)
        requires
            old(self).wf(),
        ensures
            final(self).wf(),
            final(self)@ == (LedgerState {
                journal: old(self)@.journal.push(op@),
                ..old(self)@
            }),
    {
        self.journal.push(op);
        assert(ops_view(self.journal@) =~= ops_view(old(self).journal@).push(op@));
    }

    fn write_balance(&mut self, account: &Address, amount: i128)
        requires
            old(self).wf(),
            amount >= 0,
        ensures
            final(self).wf(),
            final(self)@ == (LedgerState {
                balances: kept(old(self)@.balances, account@, amount as int),
                journal: old(self)@.journal + durable_write(
                    KeyView::Balance(account@),
                    amount as int,
                ),
                ..old(self)@
            }),
    {
        if amount == 0 {
            self.balances.remove(account);
            self.record(StorageOp::PersistentRemove(DataKey::Balance(account.clone())));
        } else {
            self.balances.set(account, amount);
            self.record(
                StorageOp::PersistentSet(DataKey::Balance(account.clone()), Value::Amount(amount)),
            );
            self.record(
                StorageOp::PersistentExtend(
                    DataKey::Balance(account.clone()),
                    LEASE_THRESHOLD,
                    LEASE_EXTEND_TO,
                ),
            );
        }
        assert(self@.journal =~= old(self)@.journal + durable_write(
            KeyView::Balance(account@),
            amount as int,
        ));
    }

    fn write_allowance(&mut self, owner: &Address, spender: &Address, amount: i128)
        requires
            old(self).wf(),
            amount >= 0,
        ensures
            final(self).wf(),
            final(self)@ == (LedgerState {
                allowances: kept(old(self)@.allowances, (owner@, spender@), amount as int),
                journal: old(self)@.journal + durable_write(
                    KeyView::Allowance(owner@, spender@),
                    amount as int,
                ),
                ..old(self)@
            }),
    {
        if amount == 0 {
            self.allowances.remove(owner, spender);
            self.record(
                StorageOp::PersistentRemove(DataKey::Allowance(owner.clone(), spender.clone())),
            );
        } else {
            self.allowances.set(owner, spender, amount);
            self.record(
                StorageOp::PersistentSet(
                    DataKey::Allowance(owner.clone(), spender.clone()),
                    Value::Amount(amount),
                ),
            );
            self.record(
                StorageOp::PersistentExtend(
                    DataKey::Allowance(owner.clone(), spender.clone()),
                    LEASE_THRESHOLD,
                    LEASE_EXTEND_TO,
                ),
            );
        }
        assert(self@.journal =~= old(self)@.journal + durable_write(
            KeyView::Allowance(owner@, spender@),
            amount as int,
        ));
    }

    fn write_supply(&mut self, supply: i128)
        requires
            old(self).wf(),
        ensures
            final(self).wf(),
            final(self)@ == (LedgerState {
                supply: supply as int,
                journal: old(self)@.journal.push(
                    OpView::InstanceSet(KeyView::TotalSupply, ValueView::Amount(supply as int)),
                ),
                ..old(self)@
            }),
    {
        self.supply = supply;
        self.record(StorageOp::InstanceSet(DataKey::TotalSupply, Value::Amount(supply)));
    }

    /// Sets the ledger up, once: records the administrator and the metadata and
    /// starts the supply at zero.
    ///
    /// Refused on a ledger that is set up already, for decimals other than zero,
    /// and for a name or symbol that is empty or too long, in this order.
    pub fn initialize(
        &mut self,
        admin: Address,
        name: String,
        symbol: String,
        decimals: u32,
    ) -> (result: Result<(), TokenError>)
        requires
            old(self).wf(),
        ensures
            final(self).wf(),
            result == initialize_result(old(self)@, name@, symbol@, decimals),
            final(self)@ == settled(
                old(self)@,
                result,
                initialize_effect(old(self)@, admin@, name@, symbol@, decimals),
            ),
            consistent(old(self)@) ==> consistent(final(self)@),
    {
        if self.initialized {
            return Err(TokenError::AlreadyInitialized);
        }
        if decimals != 0 {
            return Err(TokenError::InvalidDecimals);
        }
        let name_len = name.as_str().as_bytes().len();
        if name_len == 0 || name_len > MAX_NAME_LENGTH {
            return Err(TokenError::InvalidMetadata);
        }
        let symbol_len = symbol.as_str().as_bytes().len();
        if symbol_len == 0 || symbol_len > MAX_SYMBOL_LENGTH {
            return Err(TokenError::InvalidMetadata);
        }
        self.record(StorageOp::InstanceSet(DataKey::Admin, Value::Identity(admin.clone())));
        self.record(StorageOp::InstanceSet(DataKey::TokenName, Value::Text(name.clone())));
        self.record(StorageOp::InstanceSet(DataKey::TokenSymbol, Value::Text(symbol.clone())));
        self.record(StorageOp::InstanceSet(DataKey::Decimals, Value::Number(decimals)));
        self.record(StorageOp::InstanceSet(DataKey::TotalSupply, Value::Amount(0)));
        self.record(StorageOp::InstanceSet(DataKey::Initialized, Value::Flag(true)));
        self.record(StorageOp::InstanceExtend(LEASE_THRESHOLD, LEASE_EXTEND_TO));
        self.admin = Some(admin);
        self.metadata = TokenMetadata { name, symbol, decimals };
        self.supply = 0;
        self.initialized = true;
        assert(self@.journal =~= initialize_effect(
            old(self)@,
            admin@,
            name@,
            symbol@,
            decimals,
        ).journal);
        proof {
            if consistent(old(self)@) {
                lemma_step_consistent(
                    old(self)@,
                    Call::Initialize { admin: admin@, name: name@, symbol: symbol@, decimals },
                );
            }
        }
        Ok(())
    }

    /// Creates `amount` new tokens for `to`, on the administrator's authority.
    ///
    /// Both sums are checked before anything is written, so a refusal leaves
    /// the ledger as it was.
    pub fn mint(
        &mut self,
        auth: &Authorization,
        to: &Address,
        amount: i128,
    ) -> (result: Result<(), TokenError>)
        requires
            old(self).wf(),
        ensures
            final(self).wf(),
            result == mint_result(old(self)@, auth@, to@, amount as int),
            final(self)@ == settled(old(self)@, result, mint_effect(old(self)@, to@, amount as int)),
            consistent(old(self)@) ==> consistent(final(self)@),
    {
        if !self.initialized {
            return Err(TokenError::NotInitialized);
        }
        let authorized = match &self.admin {
            Some(admin) => auth.permits(admin),
            None => {
                return Err(TokenError::NotInitialized);
            },
        };
        if !authorized {
            return Err(TokenError::Unauthorized);
        }
        if amount <= 0 {
            return Err(TokenError::InvalidAmount);
        }
        let balance = self.balances.get(to);
        let new_balance = match balance.checked_add(amount) {
            Some(sum) => sum,
            None => {
                return Err(TokenError::OverflowError);
            },
        };
        let new_supply = match self.supply.checked_add(amount) {
            Some(sum) => sum,
            None => {
                return Err(TokenError::OverflowError);
            },
        };
        proof {
            self.balances.lemma_view_valid();
        }
        self.write_balance(to, new_balance);
        self.write_supply(new_supply);
        assert(self@.journal =~= mint_effect(old(self)@, to@, amount as int).journal);
        proof {
            if consistent(old(self)@) {
                lemma_step_consistent(old(self)@, Call::Mint { auth: auth@, to: to@, amount });
            }
        }
        Ok(())
    }

    /// Destroys `amount` of what `from` holds, on the holder's own authority.
    pub fn burn(
        &mut self,
        auth: &Authorization,
        from: &Address,
        amount: i128,
    ) -> (result: Result<(), TokenError>)
        requires
            old(self).wf(),
        ensures
            final(self).wf(),
            result == burn_result(old(self)@, auth@, from@, amount as int),
            final(self)@ == settled(old(self)@, result, burn_effect(old(self)@, from@, amount as int)),
            consistent(old(self)@) ==> consistent(final(self)@),
    {
        if !self.initialized {
            return Err(TokenError::NotInitialized);
        }
        if !auth.permits(from) {
            return Err(TokenError::Unauthorized);
        }
        if amount <= 0 {
            return Err(TokenError::InvalidAmount);
        }
        let balance = self.balances.get(from);
        if balance < amount {
            return Err(TokenError::InsufficientBalance);
        }
        let new_balance = balance - amount;
        let new_supply = match self.supply.checked_sub(amount) {
            Some(rest) => rest,
            None => {
                return Err(TokenError::OverflowError);
            },
        };
        self.write_balance(from, new_balance);
        self.write_supply(new_supply);
        assert(self@.journal =~= burn_effect(old(self)@, from@, amount as int).journal);
        proof {
            if consistent(old(self)@) {
                lemma_step_consistent(old(self)@, Call::Burn { auth: auth@, from: from@, amount });
            }
        }
        Ok(())
    }

    /// What `account` holds; zero where nothing is recorded.
    pub fn balance(&self, account: &Address) -> (amount: i128)
        requires
            self.wf(),
        ensures
            amount == balance_of(self@, account@),
    {
        self.balances.get(account)
    }

    fn move_balance(&mut self, from: &Address, to: &Address, new_from: i128, new_to: i128)
        requires
            old(self).wf(),
            from@ != to@,
            new_from >= 0,
            new_to > 0,
        ensures
            final(self).wf(),
            final(self)@ == (LedgerState {
                balances: kept(old(self)@.balances, from@, new_from as int).insert(
                    to@,
                    new_to as int,
                ),
                journal: old(self)@.journal + durable_write(
                    KeyView::Balance(from@),
                    new_from as int,
                ) + durable_write(KeyView::Balance(to@), new_to as int),
                ..old(self)@
            }),
    {
        self.write_balance(from, new_from);
        self.write_balance(to, new_to);
    }

    /// Moves `amount` from `from` to `to`, on the authority of `from`.
    ///
    /// The supply is not touched.
    pub fn transfer(
        &mut self,
        auth: &Authorization,
        from: &Address,
        to: &Address,
        amount: i128,
    ) -> (result: Result<(), TokenError>)
        requires
            old(self).wf(),
        ensures
            final(self).wf(),
            result == transfer_result(old(self)@, auth@, from@, to@, amount as int),
            final(self)@ == settled(
                old(self)@,
                result,
                transfer_effect(old(self)@, from@, to@, amount as int),
            ),
            consistent(old(self)@) ==> consistent(final(self)@),
    {
        if !self.initialized {
            return Err(TokenError::NotInitialized);
        }
        if !auth.permits(from) {
            return Err(TokenError::Unauthorized);
        }
        if amount <= 0 {
            return Err(TokenError::InvalidAmount);
        }
        if from.same_as(to) {
            return Err(TokenError::InvalidRecipient);
        }
        let from_balance = self.balances.get(from);
        if from_balance < amount {
            return Err(TokenError::InsufficientBalance);
        }
        let new_from_balance = from_balance - amount;
        let to_balance = self.balances.get(to);
        let new_to_balance = match to_balance.checked_add(amount) {
            Some(sum) => sum,
            None => {
                return Err(TokenError::OverflowError);
            },
        };
        proof {
            self.balances.lemma_view_valid();
        }
        self.move_balance(from, to, new_from_balance, new_to_balance);
        assert(self@.journal =~= transfer_effect(old(self)@, from@, to@, amount as int).journal);
        proof {
            if consistent(old(self)@) {
                lemma_step_consistent(
                    old(self)@,
                    Call::Transfer { auth: auth@, from: from@, to: to@, amount },
                );
            }
        }
        Ok(())
    }

    /// Lets `spender` move up to `amount` out of what `owner` holds, on the
    /// owner's authority. The amount replaces any earlier grant; zero revokes it.
    pub fn approve(
        &mut self,
        auth: &Authorization,
        owner: &Address,
        spender: &Address,
        amount: i128,
    ) -> (result: Result<(), TokenError>)
        requires
            old(self).wf(),
        ensures
            final(self).wf(),
            result == approve_result(old(self)@, auth@, owner@, amount as int),
            final(self)@ == settled(
                old(self)@,
                result,
                approve_effect(old(self)@, owner@, spender@, amount as int),
            ),
            consistent(old(self)@) ==> consistent(final(self)@),
    {
        if !self.initialized {
            return Err(TokenError::NotInitialized);
        }
        if !auth.permits(owner) {
            return Err(TokenError::Unauthorized);
        }
        if amount < 0 {
            return Err(TokenError::InvalidAmount);
        }
        self.write_allowance(owner, spender, amount);
        proof {
            if consistent(old(self)@) {
                lemma_step_consistent(
                    old(self)@,
                    Call::Approve { auth: auth@, owner: owner@, spender: spender@, amount },
                );
            }
        }
        Ok(())
    }

    /// What `spender` may still move out of what `owner` holds; zero where
    /// nothing is recorded.
    pub fn allowance(&self, owner: &Address, spender: &Address) -> (amount: i128)
        requires
            self.wf(),
        ensures
            amount == allowance_of(self@, owner@, spender@),
    {
        self.allowances.get(owner, spender)
    }

    /// Moves `amount` from `from` to `to` on the authority of `spender`, and
    /// takes it off what `from` has granted to `spender`.
    pub fn transfer_from(
        &mut self,
        auth: &Authorization,
        spender: &Address,
        from: &Address,
        to: &Address,
        amount: i128,
    ) -> (result: Result<(), TokenError>)
        requires
            old(self).wf(),
        ensures
            final(self).wf(),
            result == transfer_from_result(old(self)@, auth@, spender@, from@, to@, amount as int),
            final(self)@ == settled(
                old(self)@,
                result,
                transfer_from_effect(old(self)@, spender@, from@, to@, amount as int),
            ),
            consistent(old(self)@) ==> consistent(final(self)@),
    {
        if !self.initialized {
            return Err(TokenError::NotInitialized);
        }
        if !auth.permits(spender) {
            return Err(TokenError::Unauthorized);
        }
        if amount <= 0 {
            return Err(TokenError::InvalidAmount);
        }
        if from.same_as(to) {
            return Err(TokenError::InvalidRecipient);
        }
        let allowed = self.allowances.get(from, spender);
        if allowed < amount {
            return Err(TokenError::InsufficientAllowance);
        }
        let from_balance = self.balances.get(from);
        if from_balance < amount {
            return Err(TokenError::InsufficientBalance);
        }
        let new_from_balance = from_balance - amount;
        let to_balance = self.balances.get(to);
        let new_to_balance = match to_balance.checked_add(amount) {
            Some(sum) => sum,
            None => {
                return Err(TokenError::OverflowError);
            },
        };
        let new_allowance = allowed - amount;
        proof {
            self.balances.lemma_view_valid();
        }
        self.move_balance(from, to, new_from_balance, new_to_balance);
        self.write_allowance(from, spender, new_allowance);
        assert(self@.journal =~= transfer_from_effect(
            old(self)@,
            spender@,
            from@,
            to@,
            amount as int,
        ).journal);
        proof {
            if consistent(old(self)@) {
                lemma_step_consistent(
                    old(self)@,
                    Call::TransferFrom {
                        auth: auth@,
                        spender: spender@,
                        from: from@,
                        to: to@,
                        amount,
                    },
                );
            }
        }
        Ok(())
    }

    /// The token's name; empty before the ledger is set up.
    pub fn name(&self) -> (name: String)
        ensures
            name@ == name_of(self@),
    {
        if !self.initialized {
            return String::new();
        }
        self.metadata.name.clone()
    }

    /// The token's symbol; empty before the ledger is set up.
    pub fn symbol(&self) -> (symbol: String)
        ensures
            symbol@ == symbol_of(self@),
    {
        if !self.initialized {
            return String::new();
        }
        self.metadata.symbol.clone()
    }

    /// The number of decimals; zero before the ledger is set up.
    pub fn decimals(&self) -> (decimals: u32)
        ensures
            decimals == decimals_of(self@),
    {
        if !self.initialized {
            return 0;
        }
        self.metadata.decimals
    }

    /// The amount in circulation.
    pub fn total_supply(&self) -> (supply: i128)
        ensures
            supply == self@.supply,
    {
        self.supply
    }

    /// Whether an administrator is recorded.
    pub fn has_admin(&self) -> (b: bool)
        ensures
            b == self@.admin is Some,
    {
        self.admin.is_some()
    }

    /// The administrator. There is none to return before the ledger is set up.
    pub fn admin(&self) -> (admin: Address)
        requires
            self@.admin is Some,
        ensures
            Some(admin@) == self@.admin,
    {
        self.admin.as_ref().unwrap().clone()
    }

    /// Hands over the storage requests made since the last call, oldest first,
    /// and forgets them.
    pub fn take_journal(&mut self) -> (ops: Vec<StorageOp<DataKey>>)
        requires
            old(self).wf(),
        ensures
            final(self).wf(),
            ops_view(ops@) == old(self)@.journal,
            final(self)@ == (LedgerState { journal: Seq::empty(), ..old(self)@ }),
    {
        let mut ops: Vec<StorageOp<DataKey>> = Vec::new();
        core::mem::swap(&mut self.journal, &mut ops);
        assert(ops_view(self.journal@) =~= Seq::<OpView<KeyView>>::empty());
        ops
    }

    /// Puts a record in its place as it was read from the store, so that a
    /// ledger can be brought up from what the store holds. This is no
    /// operation of the ledger: nothing is checked but the kind of the value,
    /// and no storage request is made. A value of the wrong kind is refused
    /// and changes nothing.
    pub fn restore(&mut self, key: &DataKey, value: &Value) -> (accepted: bool)
        requires
            old(self).wf(),
        ensures
            final(self).wf(),
            accepted == restorable(key@, value@),
            final(self)@ == (if accepted {
                restored(old(self)@, key@, value@)
            } else {
                old(self)@
            }),
    {
        match key {
            DataKey::Balance(account) => match value {
                Value::Amount(amount) => {
                    if *amount > 0 {
                        self.balances.set(account, *amount);
                        true
                    } else {
                        false
                    }
                },
                _ => false,
            },
            DataKey::Allowance(owner, spender) => match value {
                Value::Amount(amount) => {
                    if *amount > 0 {
                        self.allowances.set(owner, spender, *amount);
                        true
                    } else {
                        false
                    }
                },
                _ => false,
            },
            DataKey::TotalSupply => match value {
                Value::Amount(amount) => {
                    self.supply = *amount;
                    true
                },
                _ => false,
            },
            DataKey::Admin => match value {
                Value::Identity(admin) => {
                    self.admin = Some(admin.clone());
                    true
                },
                _ => false,
            },
            DataKey::TokenName => match value {
                Value::Text(name) => {
                    self.metadata.name = name.clone();
                    true
                },
                _ => false,
            },
            DataKey::TokenSymbol => match value {
                Value::Text(symbol) => {
                    self.metadata.symbol = symbol.clone();
                    true
                },
                _ => false,
            },
            DataKey::Decimals => match value {
                Value::Number(decimals) => {
                    self.metadata.decimals = *decimals;
                    true
                },
                _ => false,
            },
            DataKey::Initialized => match value {
                Value::Flag(flag) => {
                    self.initialized = *flag;
                    true
                },
                _ => false,
            },
        }
    }

    /// Whether `initialize` has succeeded on this ledger.
    pub fn is_initialized(&self) -> (b: bool)
        ensures
            b == self@.initialized,
    {
        self.initialized
    }
}

} // verus!
