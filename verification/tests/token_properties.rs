use nova_token::{Address, DataKey, NovaToken, TokenError, TokenEvent};

fn account(tag: u8) -> Address {
    Address::from_bytes(vec![b'G', b'A', tag])
}

fn signed(a: &Address) -> Vec<Address> {
    vec![a.clone()]
}

fn initialized() -> (NovaToken, Address) {
    let mut token = NovaToken::new();
    let admin = account(0);
    token.initialize(admin.clone()).unwrap();
    (token, admin)
}

// ── Laws on concrete values ──────────────────────────────────────────────

#[test]
fn total_supply_equals_sum_of_balances_after_many_operations() {
    let (mut t, admin) = initialized();
    let (a, b, c, s) = (account(1), account(2), account(3), account(4));
    t.mint(&signed(&admin), a.clone(), 1_000).unwrap();
    t.mint(&signed(&admin), b.clone(), 250).unwrap();
    t.transfer(&signed(&a), a.clone(), c.clone(), 300).unwrap();
    t.burn(&signed(&b), b.clone(), 50).unwrap();
    t.approve(&signed(&c), c.clone(), s.clone(), 200).unwrap();
    t.transfer_from(&signed(&s), c.clone(), s.clone(), a.clone(), 120).unwrap();
    assert!(t.transfer(&signed(&b), b.clone(), a.clone(), 1_000).is_err());
    let sum = t.balance(&a) + t.balance(&b) + t.balance(&c) + t.balance(&s) + t.balance(&admin);
    assert_eq!(t.total_supply(), 1_200);
    assert_eq!(sum, t.total_supply());
    assert_eq!(t.balance(&a), 820);
    assert_eq!(t.balance(&b), 200);
    assert_eq!(t.balance(&c), 180);
    assert_eq!(t.allowance(&c, &s), 80);
}

#[test]
fn refused_operation_changes_nothing() {
    let (mut t, admin) = initialized();
    let (a, b) = (account(1), account(2));
    t.mint(&signed(&admin), a.clone(), 40).unwrap();
    t.approve(&signed(&a), a.clone(), b.clone(), 10).unwrap();
    assert_eq!(t.transfer(&signed(&a), a.clone(), b.clone(), 41).err(), Some(TokenError::InsufficientBalance));
    assert_eq!(
        t.transfer_from(&signed(&b), a.clone(), b.clone(), b.clone(), 11).err(),
        Some(TokenError::InsufficientAllowance)
    );
    assert_eq!(t.burn(&signed(&b), a.clone(), 1).err(), Some(TokenError::Unauthorized));
    assert_eq!(t.balance(&a), 40);
    assert_eq!(t.balance(&b), 0);
    assert_eq!(t.allowance(&a, &b), 10);
    assert_eq!(t.total_supply(), 40);
}

#[test]
fn burn_undoes_mint() {
    let (mut t, admin) = initialized();
    let a = account(1);
    t.mint(&signed(&admin), a.clone(), 70).unwrap();
    t.mint(&vec![admin.clone(), a.clone()], a.clone(), 30).unwrap();
    t.burn(&signed(&a), a.clone(), 30).unwrap();
    assert_eq!(t.balance(&a), 70);
    assert_eq!(t.total_supply(), 70);
}

#[test]
fn transfer_back_restores_balances() {
    let (mut t, admin) = initialized();
    let (a, b) = (account(1), account(2));
    t.mint(&signed(&admin), a.clone(), 90).unwrap();
    t.mint(&signed(&admin), b.clone(), 5).unwrap();
    t.transfer(&signed(&a), a.clone(), b.clone(), 60).unwrap();
    t.transfer(&signed(&b), b.clone(), a.clone(), 60).unwrap();
    assert_eq!(t.balance(&a), 90);
    assert_eq!(t.balance(&b), 5);
    assert_eq!(t.total_supply(), 95);
}

#[test]
fn transfer_to_self_keeps_balance() {
    let (mut t, admin) = initialized();
    let a = account(1);
    t.mint(&signed(&admin), a.clone(), 90).unwrap();
    let fx = t.transfer(&signed(&a), a.clone(), a.clone(), 90).unwrap();
    assert_eq!(t.balance(&a), 90);
    assert_eq!(fx.writes, vec![DataKey::Balance(a.clone()), DataKey::Balance(a.clone())]);
}

#[test]
fn allowance_reads_back_latest_approval() {
    let (mut t, _admin) = initialized();
    let (o, s, x) = (account(1), account(2), account(3));
    t.approve(&signed(&o), o.clone(), s.clone(), 500).unwrap();
    t.approve(&signed(&o), o.clone(), x.clone(), 7).unwrap();
    assert_eq!(t.allowance(&o, &s), 500);
    t.approve(&signed(&o), o.clone(), s.clone(), 0).unwrap();
    assert_eq!(t.allowance(&o, &s), 0);
    assert_eq!(t.allowance(&o, &x), 7);
    assert_eq!(t.allowance(&s, &o), 0);
}

#[test]
fn transfer_from_spends_allowance_only_of_that_spender() {
    let (mut t, admin) = initialized();
    let (o, s1, s2, to) = (account(1), account(2), account(3), account(4));
    t.mint(&signed(&admin), o.clone(), 100).unwrap();
    t.approve(&signed(&o), o.clone(), s1.clone(), 60).unwrap();
    t.approve(&signed(&o), o.clone(), s2.clone(), 60).unwrap();
    let fx = t.transfer_from(&signed(&s1), o.clone(), s1.clone(), to.clone(), 45).unwrap();
    assert_eq!(t.allowance(&o, &s1), 15);
    assert_eq!(t.allowance(&o, &s2), 60);
    assert_eq!(t.balance(&o), 55);
    assert_eq!(t.balance(&to), 45);
    assert_eq!(t.total_supply(), 100);
    assert_eq!(
        fx.writes,
        vec![DataKey::Balance(o.clone()), DataKey::Balance(to.clone()), DataKey::Allowance(o.clone(), s1.clone())]
    );
}

#[test]
fn admin_is_fixed_once_initialized() {
    let (mut t, admin) = initialized();
    let other = account(9);
    assert_eq!(t.initialize(other.clone()).err(), Some(TokenError::AlreadyInitialized));
    assert_eq!(t.admin(), Some(&admin));
    assert_eq!(t.mint(&signed(&other), other.clone(), 1).err(), Some(TokenError::Unauthorized));
}

// ── Each refusal ─────────────────────────────────────────────────────────

#[test]
fn mint_before_initialize_is_refused() {
    let mut t = NovaToken::new();
    let a = account(1);
    assert_eq!(t.mint(&signed(&a), a.clone(), 5).err(), Some(TokenError::NotInitialized));
    assert_eq!(t.total_supply(), 0);
    assert_eq!(t.name(), Vec::<u8>::new());
    assert_eq!(t.symbol(), Vec::<u8>::new());
    assert_eq!(t.decimals(), 0);
}

#[test]
fn approve_works_before_initialize() {
    let mut t = NovaToken::new();
    let (o, s) = (account(1), account(2));
    t.approve(&signed(&o), o.clone(), s.clone(), 3).unwrap();
    assert_eq!(t.allowance(&o, &s), 3);
}

#[test]
fn operations_need_the_right_signature() {
    let (mut t, admin) = initialized();
    let (a, b) = (account(1), account(2));
    t.mint(&signed(&admin), a.clone(), 10).unwrap();
    assert_eq!(t.mint(&[], a.clone(), 1).err(), Some(TokenError::Unauthorized));
    assert_eq!(t.transfer(&signed(&b), a.clone(), b.clone(), 1).err(), Some(TokenError::Unauthorized));
    assert_eq!(t.approve(&signed(&b), a.clone(), b.clone(), 1).err(), Some(TokenError::Unauthorized));
    t.approve(&signed(&a), a.clone(), b.clone(), 5).unwrap();
    assert_eq!(
        t.transfer_from(&signed(&a), a.clone(), b.clone(), b.clone(), 1).err(),
        Some(TokenError::Unauthorized)
    );
}

#[test]
fn zero_amounts_are_refused() {
    let (mut t, admin) = initialized();
    let (a, b) = (account(1), account(2));
    t.mint(&signed(&admin), a.clone(), 10).unwrap();
    assert_eq!(t.mint(&signed(&admin), a.clone(), 0).err(), Some(TokenError::NonPositiveAmount));
    assert_eq!(t.burn(&signed(&a), a.clone(), 0).err(), Some(TokenError::NonPositiveAmount));
    assert_eq!(t.transfer(&signed(&a), a.clone(), b.clone(), -5).err(), Some(TokenError::NonPositiveAmount));
    assert_eq!(
        t.transfer_from(&signed(&b), a.clone(), b.clone(), b.clone(), 0).err(),
        Some(TokenError::NonPositiveAmount)
    );
    assert!(t.approve(&signed(&a), a.clone(), b.clone(), 0).is_ok());
}

#[test]
fn minting_past_the_largest_supply_is_refused() {
    let (mut t, admin) = initialized();
    let (a, b) = (account(1), account(2));
    t.mint(&signed(&admin), a.clone(), i128::MAX - 1).unwrap();
    t.mint(&signed(&admin), b.clone(), 1).unwrap();
    assert_eq!(t.mint(&signed(&admin), b.clone(), 1).err(), Some(TokenError::Overflow));
    assert_eq!(t.total_supply(), i128::MAX);
    t.transfer(&signed(&b), b.clone(), a.clone(), 1).unwrap();
    assert_eq!(t.balance(&a), i128::MAX);
}

#[test]
fn error_messages() {
    assert_eq!(TokenError::AlreadyInitialized.message(), "already initialized");
    assert_eq!(TokenError::NotInitialized.message(), "not initialized");
    assert_eq!(TokenError::Unauthorized.message(), "unauthorized");
    assert_eq!(TokenError::NonPositiveAmount.message(), "amount must be positive");
    assert_eq!(TokenError::NegativeAmount.message(), "amount cannot be negative");
    assert_eq!(TokenError::InsufficientBalance.message(), "insufficient balance");
    assert_eq!(TokenError::InsufficientAllowance.message(), "insufficient allowance");
    assert_eq!(TokenError::Overflow.message(), "attempt to add with overflow");
}

// ── What each operation writes and announces ─────────────────────────────

#[test]
fn effects_of_each_operation() {
    let mut t = NovaToken::new();
    let admin = account(0);
    let (a, b) = (account(1), account(2));
    let fx = t.initialize(admin.clone()).unwrap();
    assert_eq!(fx.event, None);
    assert_eq!(
        fx.writes,
        vec![DataKey::Admin, DataKey::Name, DataKey::Symbol, DataKey::Decimals, DataKey::TotalSupply]
    );
    let fx = t.mint(&signed(&admin), a.clone(), 8).unwrap();
    assert_eq!(fx.writes, vec![DataKey::Balance(a.clone()), DataKey::TotalSupply]);
    let fx = t.burn(&signed(&a), a.clone(), 3).unwrap();
    assert_eq!(fx.writes, vec![DataKey::Balance(a.clone()), DataKey::TotalSupply]);
    let fx = t.transfer(&signed(&a), a.clone(), b.clone(), 2).unwrap();
    assert_eq!(fx.writes, vec![DataKey::Balance(a.clone()), DataKey::Balance(b.clone())]);
    let fx = t.approve(&signed(&a), a.clone(), b.clone(), 9).unwrap();
    assert_eq!(fx.writes, vec![DataKey::Allowance(a.clone(), b.clone())]);
}

#[test]
fn event_topics() {
    assert_eq!(TokenEvent::namespace(), "nova_tok");
    let a = account(1);
    let b = account(2);
    assert_eq!(TokenEvent::Mint { to: a.clone(), amount: 1 }.action(), "mint");
    assert_eq!(TokenEvent::Burn { from: a.clone(), amount: 1 }.action(), "burn");
    assert_eq!(TokenEvent::Transfer { from: a.clone(), to: b.clone(), amount: 1 }.action(), "transfer");
    assert_eq!(TokenEvent::Approve { owner: a.clone(), spender: b.clone(), amount: 1 }.action(), "approve");
}

// ── Restoring a token from its stored entries ────────────────────────────

#[test]
fn from_storage_accepts_consistent_entries() {
    let (a, b, s) = (account(1), account(2), account(3));
    let t = NovaToken::from_storage(
        Some(account(0)),
        b"NovaToken".to_vec(),
        b"NOVA".to_vec(),
        7,
        100,
        vec![(a.clone(), 60), (b.clone(), 30)],
        vec![((a.clone(), s.clone()), 5)],
    )
    .unwrap();
    assert_eq!(t.balance(&a), 60);
    assert_eq!(t.balance(&b), 30);
    assert_eq!(t.balance(&s), 0);
    assert_eq!(t.allowance(&a, &s), 5);
    assert_eq!(t.total_supply(), 100);
    assert_eq!(t.decimals(), 7);
}

#[test]
fn from_storage_refuses_inconsistent_entries() {
    let (a, b) = (account(1), account(2));
    let make = |admin: Option<Address>, total: i128, bal: Vec<(Address, i128)>, alw: Vec<((Address, Address), i128)>| {
        NovaToken::from_storage(admin, Vec::new(), Vec::new(), 0, total, bal, alw).is_some()
    };
    assert!(make(Some(account(0)), 10, vec![(a.clone(), 10)], vec![]));
    assert!(!make(Some(account(0)), 10, vec![(a.clone(), 5), (a.clone(), 5)], vec![]));
    assert!(!make(Some(account(0)), 10, vec![(a.clone(), -1)], vec![]));
    assert!(!make(Some(account(0)), 10, vec![(a.clone(), 6), (b.clone(), 5)], vec![]));
    assert!(!make(Some(account(0)), 10, vec![], vec![((a.clone(), b.clone()), -3)]));
    assert!(!make(
        Some(account(0)),
        10,
        vec![],
        vec![((a.clone(), b.clone()), 1), ((a.clone(), b.clone()), 2)]
    ));
    assert!(!make(None, 10, vec![], vec![]));
    assert!(!make(Some(account(0)), i128::MAX, vec![(a.clone(), i128::MAX), (b.clone(), 1)], vec![]));
}

#[test]
fn addresses_compare_by_bytes() {
    let a = Address::from_bytes(vec![1, 2, 3]);
    assert!(a.same_as(&Address::from_bytes(vec![1, 2, 3])));
    assert!(!a.same_as(&Address::from_bytes(vec![1, 2])));
    assert!(!a.same_as(&Address::from_bytes(vec![1, 2, 4])));
    assert_eq!(a.clone().as_bytes(), &vec![1u8, 2, 3]);
}

#[test]
fn spender_moves_at_most_the_approved_amount_over_many_calls() {
    let (mut t, admin) = initialized();
    let (o, s, to) = (account(1), account(2), account(3));
    t.mint(&signed(&admin), o.clone(), 1_000).unwrap();
    t.approve(&signed(&o), o.clone(), s.clone(), 100).unwrap();
    let mut spent = 0;
    for amount in [30, 50, 40, 20] {
        if t.transfer_from(&signed(&s), o.clone(), s.clone(), to.clone(), amount).is_ok() {
            spent += amount;
        }
        t.transfer(&signed(&o), o.clone(), to.clone(), 1).unwrap();
    }
    assert_eq!(spent, 100);
    assert_eq!(t.allowance(&o, &s), 100 - spent);
    assert_eq!(t.balance(&o), 1_000 - 100 - 4);
}

#[test]
fn metadata_fixed_after_initialize() {
    let (mut t, admin) = initialized();
    let a = account(1);
    t.mint(&signed(&admin), a.clone(), 5).unwrap();
    assert!(t.initialize(a.clone()).is_err());
    t.burn(&signed(&a), a.clone(), 5).unwrap();
    assert_eq!(t.admin(), Some(&admin));
    assert_eq!(t.name(), b"NovaToken".to_vec());
    assert_eq!(t.symbol(), b"NOVA".to_vec());
    assert_eq!(t.decimals(), 7);
}
