use nova_token::{Address, DataKey, Effects, NovaToken, TokenError, TokenEvent};

/// A fresh address, distinct for each tag.
fn generate(tag: u8) -> Address {
    Address::from_bytes(vec![b'C', b'A', tag])
}

/// The authorizations of an invocation signed by `a` alone.
fn by(a: &Address) -> Vec<Address> {
    vec![a.clone()]
}

/// Fails the way the contract fails: a refused operation panics with its message.
fn done(r: Result<Effects, TokenError>) -> Effects {
    match r {
        Ok(fx) => fx,
        Err(e) => panic!("{}", e.message()),
    }
}

fn setup() -> (NovaToken, Address) {
    let mut token = NovaToken::new();
    let admin = generate(0);
    done(token.initialize(admin.clone()));
    (token, admin)
}

// ── Scenarios ────────────────────────────────────────────────────────────

#[test]
fn test_initialize_sets_metadata() {
    let mut token = NovaToken::new();
    let admin = generate(0);
    done(token.initialize(admin.clone()));
    assert_eq!(token.name(), b"NovaToken".to_vec());
    assert_eq!(token.symbol(), b"NOVA".to_vec());
    assert_eq!(token.decimals(), 7u32);
    assert_eq!(token.total_supply(), 0i128);
}

#[test]
#[should_panic(expected = "already initialized")]
fn test_initialize_twice_panics() {
    let (mut token, admin) = setup();
    done(token.initialize(admin.clone()));
}

#[test]
fn test_mint_emits_event() {
    let (mut token, admin) = setup();
    let user = generate(1);
    let fx = done(token.mint(&by(&admin), user.clone(), 500));
    assert_eq!(token.balance(&user), 500);
    assert_eq!(token.total_supply(), 500);
    assert_eq!(fx.event, Some(TokenEvent::Mint { to: user.clone(), amount: 500 }));
}

#[test]
fn test_burn_emits_event() {
    let (mut token, admin) = setup();
    let user = generate(1);
    done(token.mint(&by(&admin), user.clone(), 200));
    let fx = done(token.burn(&by(&user), user.clone(), 50));
    assert_eq!(token.balance(&user), 150);
    assert_eq!(token.total_supply(), 150);
    assert_eq!(fx.event, Some(TokenEvent::Burn { from: user.clone(), amount: 50 }));
}

#[test]
fn test_transfer_emits_event() {
    let (mut token, admin) = setup();
    let alice = generate(1);
    let bob = generate(2);
    done(token.mint(&by(&admin), alice.clone(), 300));
    let fx = done(token.transfer(&by(&alice), alice.clone(), bob.clone(), 100));
    assert_eq!(token.balance(&alice), 200);
    assert_eq!(token.balance(&bob), 100);
    assert_eq!(token.total_supply(), 300);
    assert_eq!(
        fx.event,
        Some(TokenEvent::Transfer { from: alice.clone(), to: bob.clone(), amount: 100 })
    );
}

#[test]
fn test_approve_emits_event() {
    let (mut token, _admin) = setup();
    let owner = generate(1);
    let spender = generate(2);
    let fx = done(token.approve(&by(&owner), owner.clone(), spender.clone(), 1000));
    assert_eq!(token.allowance(&owner, &spender), 1000);
    assert_eq!(
        fx.event,
        Some(TokenEvent::Approve { owner: owner.clone(), spender: spender.clone(), amount: 1000 })
    );
}

#[test]
fn test_transfer_from_success() {
    let (mut token, admin) = setup();
    let owner = generate(1);
    let spender = generate(2);
    let to = generate(3);
    done(token.mint(&by(&admin), owner.clone(), 500));
    done(token.approve(&by(&owner), owner.clone(), spender.clone(), 300));
    let fx = done(token.transfer_from(&by(&spender), owner.clone(), spender.clone(), to.clone(), 200));
    assert_eq!(token.balance(&owner), 300);
    assert_eq!(token.balance(&to), 200);
    assert_eq!(token.allowance(&owner, &spender), 100);
    assert_eq!(
        fx.event,
        Some(TokenEvent::Transfer { from: owner.clone(), to: to.clone(), amount: 200 })
    );
}

#[test]
#[should_panic(expected = "insufficient allowance")]
fn test_transfer_from_overallowance_panics() {
    let (mut token, admin) = setup();
    let owner = generate(1);
    let spender = generate(2);
    let to = generate(3);
    done(token.mint(&by(&admin), owner.clone(), 100));
    done(token.approve(&by(&owner), owner.clone(), spender.clone(), 50));
    done(token.transfer_from(&by(&spender), owner.clone(), spender.clone(), to.clone(), 100));
}

#[test]
#[should_panic(expected = "insufficient balance")]
fn test_transfer_from_insufficient_from_panics() {
    let (mut token, _admin) = setup();
    let owner = generate(1);
    let spender = generate(2);
    let to = generate(3);
    done(token.approve(&by(&owner), owner.clone(), spender.clone(), 100));
    done(token.transfer_from(&by(&spender), owner.clone(), spender.clone(), to.clone(), 50));
}

#[test]
#[should_panic(expected = "amount must be positive")]
fn test_mint_negative_amount_panics() {
    let (mut token, admin) = setup();
    let user = generate(1);
    done(token.mint(&by(&admin), user.clone(), -1));
}

#[test]
#[should_panic(expected = "amount cannot be negative")]
fn test_approve_negative_panics() {
    let (mut token, _admin) = setup();
    let owner = generate(1);
    let spender = generate(2);
    done(token.approve(&by(&owner), owner.clone(), spender.clone(), -1));
}

#[test]
#[should_panic(expected = "insufficient balance")]
fn test_burn_insufficient_balance() {
    let (mut token, admin) = setup();
    let user = generate(1);
    done(token.mint(&by(&admin), user.clone(), 10));
    done(token.burn(&by(&user), user.clone(), 100));
}

#[test]
#[should_panic(expected = "insufficient balance")]
fn test_transfer_insufficient_panics() {
    let (mut token, admin) = setup();
    let from = generate(1);
    let to = generate(2);
    done(token.mint(&by(&admin), from.clone(), 10));
    done(token.transfer(&by(&from), from.clone(), to.clone(), 20));
}
