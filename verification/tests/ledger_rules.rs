use token_codebit::address::Address;
use token_codebit::auth::Authorization;
use token_codebit::errors::TokenError;
use token_codebit::storage::{DataKey, StorageOp, Value, LEASE_EXTEND_TO, LEASE_THRESHOLD};
use token_codebit::token::TokenCodebit;

fn ready(admin: &Address) -> TokenCodebit {
    let mut ledger = TokenCodebit::new();
    ledger
        .initialize(admin.clone(), String::from("Codebit"), String::from("CODE"), 0)
        .unwrap();
    ledger
}

#[test]
fn new_ledger_reports_defaults() {
    let ledger = TokenCodebit::new();
    assert!(!ledger.is_initialized());
    assert!(!ledger.has_admin());
    assert_eq!(ledger.name(), String::new());
    assert_eq!(ledger.symbol(), String::new());
    assert_eq!(ledger.decimals(), 0);
    assert_eq!(ledger.total_supply(), 0);
    assert_eq!(ledger.balance(&Address::from_str("GALICE")), 0);
    assert_eq!(ledger.allowance(&Address::from_str("GALICE"), &Address::from_str("GBOB")), 0);
}

#[test]
fn scenario_mint_then_transfer() {
    let admin = Address::from_str("GADMIN");
    let alice = Address::from_str("GALICE");
    let bob = Address::from_str("GBOB");
    let mut ledger = ready(&admin);
    let auth = Authorization::all();
    assert_eq!(ledger.mint(&auth, &alice, 1000), Ok(()));
    assert_eq!(ledger.transfer(&auth, &alice, &bob, 250), Ok(()));
    assert_eq!(ledger.balance(&alice), 750);
    assert_eq!(ledger.balance(&bob), 250);
    assert_eq!(ledger.total_supply(), 1000);
}

#[test]
fn scenario_delegated_spend() {
    let admin = Address::from_str("GADMIN");
    let alice = Address::from_str("GALICE");
    let bob = Address::from_str("GBOB");
    let charlie = Address::from_str("GCHARLIE");
    let mut ledger = ready(&admin);
    assert_eq!(ledger.mint(&Authorization::of(&admin), &alice, 1000), Ok(()));
    assert_eq!(ledger.approve(&Authorization::of(&alice), &alice, &bob, 300), Ok(()));
    assert_eq!(
        ledger.transfer_from(&Authorization::of(&bob), &bob, &alice, &charlie, 200),
        Ok(())
    );
    assert_eq!(ledger.balance(&alice), 800);
    assert_eq!(ledger.balance(&charlie), 200);
    assert_eq!(ledger.allowance(&alice, &bob), 100);
}

#[test]
fn scenario_decimals_refused_leaves_no_metadata() {
    let mut ledger = TokenCodebit::new();
    let result = ledger.initialize(
        Address::from_str("GADMIN"),
        String::from("Codebit"),
        String::from("CODE"),
        1,
    );
    assert_eq!(result, Err(TokenError::InvalidDecimals));
    assert!(!ledger.is_initialized());
    assert!(!ledger.has_admin());
    assert_eq!(ledger.name(), String::new());
    assert_eq!(ledger.symbol(), String::new());
    assert!(ledger.take_journal().is_empty());
}

#[test]
fn initialize_checks_run_in_order() {
    let admin = Address::from_str("GADMIN");
    let mut ledger = ready(&admin);
    // already set up wins over bad decimals and bad metadata
    assert_eq!(
        ledger.initialize(admin.clone(), String::new(), String::new(), 9),
        Err(TokenError::AlreadyInitialized)
    );
    let mut fresh = TokenCodebit::new();
    // bad decimals win over bad metadata
    assert_eq!(
        fresh.initialize(admin.clone(), String::new(), String::new(), 9),
        Err(TokenError::InvalidDecimals)
    );
}

#[test]
fn metadata_length_limits() {
    let admin = Address::from_str("GADMIN");
    let name_100 = "n".repeat(100);
    let name_101 = "n".repeat(101);
    let symbol_32 = "S".repeat(32);
    let symbol_33 = "S".repeat(33);

    let mut a = TokenCodebit::new();
    assert_eq!(a.initialize(admin.clone(), name_100.clone(), symbol_32.clone(), 0), Ok(()));
    assert_eq!(a.name(), name_100);
    assert_eq!(a.symbol(), symbol_32);

    let mut b = TokenCodebit::new();
    assert_eq!(
        b.initialize(admin.clone(), name_101, symbol_32.clone(), 0),
        Err(TokenError::InvalidMetadata)
    );
    let mut c = TokenCodebit::new();
    assert_eq!(
        c.initialize(admin.clone(), name_100.clone(), symbol_33, 0),
        Err(TokenError::InvalidMetadata)
    );
    // lengths are counted in bytes: 51 two-byte letters are 102 bytes
    let mut d = TokenCodebit::new();
    assert_eq!(
        d.initialize(admin.clone(), "é".repeat(51), String::from("CODE"), 0),
        Err(TokenError::InvalidMetadata)
    );
    let mut e = TokenCodebit::new();
    assert_eq!(e.initialize(admin.clone(), "é".repeat(50), String::from("CODE"), 0), Ok(()));
}

#[test]
fn double_initialize_keeps_first_metadata() {
    let admin = Address::from_str("GADMIN");
    let other = Address::from_str("GOTHER");
    let mut ledger = ready(&admin);
    ledger.take_journal();
    assert_eq!(
        ledger.initialize(other, String::from("Other"), String::from("OTH"), 0),
        Err(TokenError::AlreadyInitialized)
    );
    assert_eq!(ledger.name(), String::from("Codebit"));
    assert_eq!(ledger.symbol(), String::from("CODE"));
    assert_eq!(ledger.admin(), admin);
    assert!(ledger.take_journal().is_empty());
}

#[test]
fn initialize_writes_the_ephemeral_tier_and_renews_it() {
    let admin = Address::from_str("GADMIN");
    let mut ledger = ready(&admin);
    assert!(ledger.is_initialized());
    assert!(ledger.has_admin());
    assert_eq!(ledger.admin(), admin);
    assert_eq!(
        ledger.take_journal(),
        vec![
            StorageOp::InstanceSet(DataKey::Admin, Value::Identity(admin.clone())),
            StorageOp::InstanceSet(DataKey::TokenName, Value::Text(String::from("Codebit"))),
            StorageOp::InstanceSet(DataKey::TokenSymbol, Value::Text(String::from("CODE"))),
            StorageOp::InstanceSet(DataKey::Decimals, Value::Number(0)),
            StorageOp::InstanceSet(DataKey::TotalSupply, Value::Amount(0)),
            StorageOp::InstanceSet(DataKey::Initialized, Value::Flag(true)),
            StorageOp::InstanceExtend(100_000, 200_000),
        ]
    );
    assert_eq!(LEASE_THRESHOLD, 100_000);
    assert_eq!(LEASE_EXTEND_TO, 200_000);
    assert!(ledger.take_journal().is_empty());
}

#[test]
fn mint_requires_the_administrator() {
    let admin = Address::from_str("GADMIN");
    let alice = Address::from_str("GALICE");
    let mut ledger = ready(&admin);
    assert_eq!(ledger.mint(&Authorization::none(), &alice, 10), Err(TokenError::Unauthorized));
    assert_eq!(
        ledger.mint(&Authorization::of(&alice), &alice, 10),
        Err(TokenError::Unauthorized)
    );
    // authorization is asked for before the amount is looked at
    assert_eq!(ledger.mint(&Authorization::of(&alice), &alice, 0), Err(TokenError::Unauthorized));
    assert_eq!(ledger.balance(&alice), 0);
    assert_eq!(ledger.total_supply(), 0);
    assert_eq!(ledger.mint(&Authorization::of(&admin), &alice, 10), Ok(()));
    assert_eq!(ledger.mint(&Authorization::of(&alice).and(&admin), &alice, 5), Ok(()));
    assert_eq!(ledger.balance(&alice), 15);
    assert_eq!(ledger.total_supply(), 15);
}

#[test]
fn mint_writes_balance_lease_and_supply() {
    let admin = Address::from_str("GADMIN");
    let alice = Address::from_str("GALICE");
    let mut ledger = ready(&admin);
    ledger.take_journal();
    assert_eq!(ledger.mint(&Authorization::all(), &alice, 40), Ok(()));
    assert_eq!(ledger.mint(&Authorization::all(), &alice, 2), Ok(()));
    assert_eq!(
        ledger.take_journal(),
        vec![
            StorageOp::PersistentSet(DataKey::Balance(alice.clone()), Value::Amount(40)),
            StorageOp::PersistentExtend(DataKey::Balance(alice.clone()), 100_000, 200_000),
            StorageOp::InstanceSet(DataKey::TotalSupply, Value::Amount(40)),
            StorageOp::PersistentSet(DataKey::Balance(alice.clone()), Value::Amount(42)),
            StorageOp::PersistentExtend(DataKey::Balance(alice.clone()), 100_000, 200_000),
            StorageOp::InstanceSet(DataKey::TotalSupply, Value::Amount(42)),
        ]
    );
}

#[test]
fn mint_negative_amount_is_invalid() {
    let admin = Address::from_str("GADMIN");
    let alice = Address::from_str("GALICE");
    let mut ledger = ready(&admin);
    assert_eq!(ledger.mint(&Authorization::all(), &alice, -1), Err(TokenError::InvalidAmount));
    assert_eq!(
        ledger.mint(&Authorization::all(), &alice, i128::MIN),
        Err(TokenError::InvalidAmount)
    );
}

#[test]
fn mint_overflow_leaves_ledger_untouched() {
    let admin = Address::from_str("GADMIN");
    let alice = Address::from_str("GALICE");
    let bob = Address::from_str("GBOB");
    let mut ledger = ready(&admin);
    let auth = Authorization::all();
    assert_eq!(ledger.mint(&auth, &alice, i128::MAX), Ok(()));
    ledger.take_journal();
    // the holder's balance would overflow
    assert_eq!(ledger.mint(&auth, &alice, 1), Err(TokenError::OverflowError));
    // the holder's balance fits, the supply would overflow: nothing is written
    assert_eq!(ledger.mint(&auth, &bob, 1), Err(TokenError::OverflowError));
    assert_eq!(ledger.balance(&alice), i128::MAX);
    assert_eq!(ledger.balance(&bob), 0);
    assert_eq!(ledger.total_supply(), i128::MAX);
    assert!(ledger.take_journal().is_empty());
}

#[test]
fn mint_then_burn_round_trip() {
    let admin = Address::from_str("GADMIN");
    let alice = Address::from_str("GALICE");
    let mut ledger = ready(&admin);
    let auth = Authorization::all();
    ledger.mint(&auth, &alice, 70).unwrap();
    let balance = ledger.balance(&alice);
    let supply = ledger.total_supply();
    assert_eq!(ledger.mint(&auth, &alice, 12345), Ok(()));
    assert_eq!(ledger.balance(&alice), 12415);
    assert_eq!(ledger.burn(&auth, &alice, 12345), Ok(()));
    assert_eq!(ledger.balance(&alice), balance);
    assert_eq!(ledger.total_supply(), supply);
}

#[test]
fn burn_is_self_service() {
    let admin = Address::from_str("GADMIN");
    let alice = Address::from_str("GALICE");
    let mut ledger = ready(&admin);
    ledger.mint(&Authorization::of(&admin), &alice, 100).unwrap();
    assert_eq!(ledger.burn(&Authorization::of(&admin), &alice, 10), Err(TokenError::Unauthorized));
    assert_eq!(ledger.burn(&Authorization::of(&alice), &alice, 0), Err(TokenError::InvalidAmount));
    assert_eq!(ledger.burn(&Authorization::of(&alice), &alice, -5), Err(TokenError::InvalidAmount));
    assert_eq!(ledger.burn(&Authorization::of(&alice), &alice, 10), Ok(()));
    assert_eq!(ledger.balance(&alice), 90);
    assert_eq!(ledger.total_supply(), 90);
}

#[test]
fn burn_one_more_than_held_changes_nothing() {
    let admin = Address::from_str("GADMIN");
    let alice = Address::from_str("GALICE");
    let mut ledger = ready(&admin);
    let auth = Authorization::all();
    ledger.mint(&auth, &alice, 100).unwrap();
    ledger.take_journal();
    let held = ledger.balance(&alice);
    assert_eq!(ledger.burn(&auth, &alice, held + 1), Err(TokenError::InsufficientBalance));
    assert_eq!(ledger.balance(&alice), 100);
    assert_eq!(ledger.total_supply(), 100);
    assert!(ledger.take_journal().is_empty());
}

#[test]
fn burn_everything_deletes_the_record() {
    let admin = Address::from_str("GADMIN");
    let alice = Address::from_str("GALICE");
    let mut ledger = ready(&admin);
    let auth = Authorization::all();
    ledger.mint(&auth, &alice, 100).unwrap();
    ledger.take_journal();
    assert_eq!(ledger.burn(&auth, &alice, 100), Ok(()));
    assert_eq!(ledger.balance(&alice), 0);
    assert_eq!(ledger.total_supply(), 0);
    assert_eq!(
        ledger.take_journal(),
        vec![
            StorageOp::PersistentRemove(DataKey::Balance(alice.clone())),
            StorageOp::InstanceSet(DataKey::TotalSupply, Value::Amount(0)),
        ]
    );
}

#[test]
fn burn_part_keeps_and_renews_the_record() {
    let admin = Address::from_str("GADMIN");
    let alice = Address::from_str("GALICE");
    let mut ledger = ready(&admin);
    let auth = Authorization::all();
    ledger.mint(&auth, &alice, 100).unwrap();
    ledger.take_journal();
    assert_eq!(ledger.burn(&auth, &alice, 30), Ok(()));
    assert_eq!(
        ledger.take_journal(),
        vec![
            StorageOp::PersistentSet(DataKey::Balance(alice.clone()), Value::Amount(70)),
            StorageOp::PersistentExtend(DataKey::Balance(alice.clone()), 100_000, 200_000),
            StorageOp::InstanceSet(DataKey::TotalSupply, Value::Amount(70)),
        ]
    );
}

#[test]
fn transfer_conserves_supply_and_pair_total() {
    let admin = Address::from_str("GADMIN");
    let alice = Address::from_str("GALICE");
    let bob = Address::from_str("GBOB");
    let carol = Address::from_str("GCAROL");
    let mut ledger = ready(&admin);
    let auth = Authorization::all();
    ledger.mint(&auth, &alice, 900).unwrap();
    ledger.mint(&auth, &bob, 50).unwrap();
    ledger.mint(&auth, &carol, 7).unwrap();
    let pair = ledger.balance(&alice) + ledger.balance(&bob);
    assert_eq!(ledger.transfer(&auth, &alice, &bob, 333), Ok(()));
    assert_eq!(ledger.balance(&alice), 567);
    assert_eq!(ledger.balance(&bob), 383);
    assert_eq!(ledger.balance(&alice) + ledger.balance(&bob), pair);
    assert_eq!(ledger.balance(&carol), 7);
    assert_eq!(ledger.total_supply(), 957);
    assert_eq!(
        ledger.balance(&alice) + ledger.balance(&bob) + ledger.balance(&carol),
        ledger.total_supply()
    );
}

#[test]
fn transfer_checks_run_in_order() {
    let admin = Address::from_str("GADMIN");
    let alice = Address::from_str("GALICE");
    let bob = Address::from_str("GBOB");
    let mut ledger = ready(&admin);
    ledger.mint(&Authorization::all(), &alice, 10).unwrap();
    assert_eq!(
        ledger.transfer(&Authorization::of(&bob), &alice, &bob, 5),
        Err(TokenError::Unauthorized)
    );
    let auth = Authorization::of(&alice);
    assert_eq!(ledger.transfer(&auth, &alice, &alice, 0), Err(TokenError::InvalidAmount));
    assert_eq!(ledger.transfer(&auth, &alice, &bob, -3), Err(TokenError::InvalidAmount));
    assert_eq!(ledger.transfer(&auth, &alice, &alice, 50), Err(TokenError::InvalidRecipient));
    assert_eq!(ledger.transfer(&auth, &alice, &bob, 11), Err(TokenError::InsufficientBalance));
    assert_eq!(ledger.balance(&alice), 10);
    assert_eq!(ledger.balance(&bob), 0);
}

#[test]
fn transfer_overflow_is_checked_before_any_write() {
    let admin = Address::from_str("GADMIN");
    let alice = Address::from_str("GALICE");
    let bob = Address::from_str("GBOB");
    let mut ledger = ready(&admin);
    ledger.take_journal();
    // records as a store might hand them over: the recipient is at the top of the range
    assert!(ledger.restore(&DataKey::Balance(alice.clone()), &Value::Amount(5)));
    assert!(ledger.restore(&DataKey::Balance(bob.clone()), &Value::Amount(i128::MAX - 4)));
    assert!(ledger.restore(&DataKey::Allowance(alice.clone(), admin.clone()), &Value::Amount(9)));
    let auth = Authorization::all();
    assert_eq!(ledger.transfer(&auth, &alice, &bob, 5), Err(TokenError::OverflowError));
    assert_eq!(
        ledger.transfer_from(&auth, &admin, &alice, &bob, 5),
        Err(TokenError::OverflowError)
    );
    assert_eq!(ledger.balance(&alice), 5);
    assert_eq!(ledger.balance(&bob), i128::MAX - 4);
    assert_eq!(ledger.allowance(&alice, &admin), 9);
    assert!(ledger.take_journal().is_empty());
    assert_eq!(ledger.transfer(&auth, &alice, &bob, 4), Ok(()));
    assert_eq!(ledger.balance(&bob), i128::MAX);
    assert_eq!(ledger.balance(&alice), 1);
}

#[test]
fn burn_supply_underflow_is_checked_before_any_write() {
    let admin = Address::from_str("GADMIN");
    let alice = Address::from_str("GALICE");
    let mut ledger = ready(&admin);
    ledger.take_journal();
    assert!(ledger.restore(&DataKey::Balance(alice.clone()), &Value::Amount(5)));
    assert!(ledger.restore(&DataKey::TotalSupply, &Value::Amount(i128::MIN + 2)));
    let auth = Authorization::all();
    assert_eq!(ledger.burn(&auth, &alice, 3), Err(TokenError::OverflowError));
    assert_eq!(ledger.balance(&alice), 5);
    assert_eq!(ledger.total_supply(), i128::MIN + 2);
    assert!(ledger.take_journal().is_empty());
    assert_eq!(ledger.burn(&auth, &alice, 2), Ok(()));
    assert_eq!(ledger.total_supply(), i128::MIN);
    assert_eq!(ledger.balance(&alice), 3);
}

#[test]
fn transfer_all_deletes_sender_and_renews_recipient() {
    let admin = Address::from_str("GADMIN");
    let alice = Address::from_str("GALICE");
    let bob = Address::from_str("GBOB");
    let mut ledger = ready(&admin);
    let auth = Authorization::all();
    ledger.mint(&auth, &alice, 10).unwrap();
    ledger.take_journal();
    assert_eq!(ledger.transfer(&auth, &alice, &bob, 4), Ok(()));
    assert_eq!(ledger.transfer(&auth, &alice, &bob, 6), Ok(()));
    assert_eq!(
        ledger.take_journal(),
        vec![
            StorageOp::PersistentSet(DataKey::Balance(alice.clone()), Value::Amount(6)),
            StorageOp::PersistentExtend(DataKey::Balance(alice.clone()), 100_000, 200_000),
            StorageOp::PersistentSet(DataKey::Balance(bob.clone()), Value::Amount(4)),
            StorageOp::PersistentExtend(DataKey::Balance(bob.clone()), 100_000, 200_000),
            StorageOp::PersistentRemove(DataKey::Balance(alice.clone())),
            StorageOp::PersistentSet(DataKey::Balance(bob.clone()), Value::Amount(10)),
            StorageOp::PersistentExtend(DataKey::Balance(bob.clone()), 100_000, 200_000),
        ]
    );
    assert_eq!(ledger.total_supply(), 10);
}

#[test]
fn approve_replaces_and_revokes() {
    let admin = Address::from_str("GADMIN");
    let alice = Address::from_str("GALICE");
    let bob = Address::from_str("GBOB");
    let mut ledger = ready(&admin);
    ledger.take_journal();
    let auth = Authorization::of(&alice);
    assert_eq!(ledger.approve(&Authorization::of(&bob), &alice, &bob, 5), Err(TokenError::Unauthorized));
    assert_eq!(ledger.approve(&auth, &alice, &bob, -1), Err(TokenError::InvalidAmount));
    assert_eq!(ledger.approve(&auth, &alice, &bob, 500), Ok(()));
    assert_eq!(ledger.approve(&auth, &alice, &bob, 20), Ok(()));
    // a new approval replaces the old one, it does not add to it
    assert_eq!(ledger.allowance(&alice, &bob), 20);
    // the grant has a direction
    assert_eq!(ledger.allowance(&bob, &alice), 0);
    assert_eq!(ledger.approve(&auth, &alice, &bob, 0), Ok(()));
    assert_eq!(ledger.allowance(&alice, &bob), 0);
    // revoking what was never granted is accepted too
    assert_eq!(ledger.approve(&auth, &alice, &admin, 0), Ok(()));
    assert_eq!(ledger.allowance(&alice, &admin), 0);
    assert_eq!(
        ledger.take_journal(),
        vec![
            StorageOp::PersistentSet(
                DataKey::Allowance(alice.clone(), bob.clone()),
                Value::Amount(500)
            ),
            StorageOp::PersistentExtend(
                DataKey::Allowance(alice.clone(), bob.clone()),
                100_000,
                200_000
            ),
            StorageOp::PersistentSet(
                DataKey::Allowance(alice.clone(), bob.clone()),
                Value::Amount(20)
            ),
            StorageOp::PersistentExtend(
                DataKey::Allowance(alice.clone(), bob.clone()),
                100_000,
                200_000
            ),
            StorageOp::PersistentRemove(DataKey::Allowance(alice.clone(), bob.clone())),
            StorageOp::PersistentRemove(DataKey::Allowance(alice.clone(), admin.clone())),
        ]
    );
}

#[test]
fn transfer_from_checks_run_in_order() {
    let admin = Address::from_str("GADMIN");
    let alice = Address::from_str("GALICE");
    let bob = Address::from_str("GBOB");
    let carol = Address::from_str("GCAROL");
    let mut ledger = ready(&admin);
    ledger.mint(&Authorization::all(), &alice, 100).unwrap();
    ledger.approve(&Authorization::all(), &alice, &bob, 500).unwrap();
    // the spender authorizes, not the owner
    assert_eq!(
        ledger.transfer_from(&Authorization::of(&alice), &bob, &alice, &carol, 10),
        Err(TokenError::Unauthorized)
    );
    let auth = Authorization::of(&bob);
    assert_eq!(
        ledger.transfer_from(&auth, &bob, &alice, &carol, 0),
        Err(TokenError::InvalidAmount)
    );
    assert_eq!(
        ledger.transfer_from(&auth, &bob, &alice, &alice, 10),
        Err(TokenError::InvalidRecipient)
    );
    assert_eq!(
        ledger.transfer_from(&auth, &bob, &alice, &carol, 501),
        Err(TokenError::InsufficientAllowance)
    );
    assert_eq!(
        ledger.transfer_from(&auth, &bob, &alice, &carol, 101),
        Err(TokenError::InsufficientBalance)
    );
    assert_eq!(ledger.balance(&alice), 100);
    assert_eq!(ledger.balance(&carol), 0);
    assert_eq!(ledger.allowance(&alice, &bob), 500);
}

#[test]
fn transfer_from_uses_up_the_allowance() {
    let admin = Address::from_str("GADMIN");
    let alice = Address::from_str("GALICE");
    let bob = Address::from_str("GBOB");
    let carol = Address::from_str("GCAROL");
    let mut ledger = ready(&admin);
    let auth = Authorization::all();
    ledger.mint(&auth, &alice, 100).unwrap();
    ledger.approve(&auth, &alice, &bob, 60).unwrap();
    ledger.take_journal();
    assert_eq!(ledger.transfer_from(&auth, &bob, &alice, &carol, 60), Ok(()));
    assert_eq!(ledger.allowance(&alice, &bob), 0);
    assert_eq!(ledger.balance(&alice), 40);
    assert_eq!(ledger.balance(&carol), 60);
    assert_eq!(ledger.total_supply(), 100);
    assert_eq!(
        ledger.take_journal(),
        vec![
            StorageOp::PersistentSet(DataKey::Balance(alice.clone()), Value::Amount(40)),
            StorageOp::PersistentExtend(DataKey::Balance(alice.clone()), 100_000, 200_000),
            StorageOp::PersistentSet(DataKey::Balance(carol.clone()), Value::Amount(60)),
            StorageOp::PersistentExtend(DataKey::Balance(carol.clone()), 100_000, 200_000),
            StorageOp::PersistentRemove(DataKey::Allowance(alice.clone(), bob.clone())),
        ]
    );
    assert_eq!(
        ledger.transfer_from(&auth, &bob, &alice, &carol, 1),
        Err(TokenError::InsufficientAllowance)
    );
}

#[test]
fn addresses_compare_by_key() {
    let a = Address::from_str("GALICE");
    let b = Address::from_str("GALICE");
    let c = Address::from_str("GBOB");
    assert!(a.same_as(&b));
    assert!(!a.same_as(&c));
    assert_eq!(a.to_string(), String::from("GALICE"));
    assert_eq!(a.clone(), a);
}

#[test]
fn authorization_sets() {
    let a = Address::from_str("GALICE");
    let b = Address::from_str("GBOB");
    let c = Address::from_str("GCAROL");
    assert!(!Authorization::none().permits(&a));
    assert!(Authorization::all().permits(&a));
    assert!(Authorization::of(&a).permits(&a));
    assert!(!Authorization::of(&a).permits(&b));
    let both = Authorization::of(&a).and(&b);
    assert!(both.permits(&a));
    assert!(both.permits(&b));
    assert!(!both.permits(&c));
}

#[test]
fn ledger_restores_records() {
    let admin = Address::from_str("GADMIN");
    let alice = Address::from_str("GALICE");
    let bob = Address::from_str("GBOB");
    let mut ledger = TokenCodebit::new();
    assert!(ledger.restore(&DataKey::Admin, &Value::Identity(admin.clone())));
    assert!(ledger.restore(&DataKey::TokenName, &Value::Text(String::from("Codebit"))));
    assert!(ledger.restore(&DataKey::TokenSymbol, &Value::Text(String::from("CODE"))));
    assert!(ledger.restore(&DataKey::Decimals, &Value::Number(0)));
    assert!(ledger.restore(&DataKey::TotalSupply, &Value::Amount(90)));
    // the name is not reported before the mark of being set up is there
    assert_eq!(ledger.name(), String::new());
    assert!(ledger.restore(&DataKey::Initialized, &Value::Flag(true)));
    assert!(ledger.restore(&DataKey::Balance(alice.clone()), &Value::Amount(60)));
    assert!(ledger.restore(
        &DataKey::Allowance(alice.clone(), bob.clone()),
        &Value::Amount(25)
    ));
    // values of the wrong kind, and amounts that no record holds
    assert!(!ledger.restore(&DataKey::Balance(bob.clone()), &Value::Amount(0)));
    assert!(!ledger.restore(&DataKey::Balance(bob.clone()), &Value::Amount(-4)));
    assert!(!ledger.restore(&DataKey::Allowance(bob.clone(), alice.clone()), &Value::Amount(0)));
    assert!(!ledger.restore(&DataKey::Balance(bob.clone()), &Value::Number(4)));
    assert!(!ledger.restore(&DataKey::TotalSupply, &Value::Number(4)));
    assert!(!ledger.restore(&DataKey::Admin, &Value::Text(String::from("GADMIN"))));
    assert!(!ledger.restore(&DataKey::TokenName, &Value::Flag(true)));
    assert!(!ledger.restore(&DataKey::TokenSymbol, &Value::Amount(1)));
    assert!(!ledger.restore(&DataKey::Decimals, &Value::Amount(0)));
    assert!(!ledger.restore(&DataKey::Initialized, &Value::Number(1)));

    assert!(ledger.is_initialized());
    assert_eq!(ledger.admin(), admin);
    assert_eq!(ledger.name(), String::from("Codebit"));
    assert_eq!(ledger.symbol(), String::from("CODE"));
    assert_eq!(ledger.total_supply(), 90);
    assert_eq!(ledger.balance(&alice), 60);
    assert_eq!(ledger.balance(&bob), 0);
    assert_eq!(ledger.allowance(&alice, &bob), 25);
    // nothing is requested from the store for what came from it
    assert!(ledger.take_journal().is_empty());

    assert_eq!(
        ledger.transfer_from(&Authorization::of(&bob), &bob, &alice, &bob, 25),
        Ok(())
    );
    assert_eq!(ledger.balance(&alice), 35);
    assert_eq!(ledger.balance(&bob), 25);
    assert_eq!(ledger.allowance(&alice, &bob), 0);
    assert_eq!(ledger.total_supply(), 90);
}
