use turista_rewards::tur_token::Error;
use turista_rewards::tur_token::TurToken;

const ADMIN: u64 = 1;
const USER: u64 = 2;

fn new_token(initial_supply: i128) -> TurToken {
    TurToken::initialize(
        ADMIN,
        String::from("Turistas Token"),
        String::from("TUR"),
        7,
        initial_supply,
    )
}

#[test]
fn test_initialize() {
    let initial_supply: i128 = 10_000_000_0000000; // 10M TUR with 7 decimals
    let token = new_token(initial_supply);

    assert_eq!(token.name(), String::from("Turistas Token"));
    assert_eq!(token.symbol(), String::from("TUR"));
    assert_eq!(token.decimals(), 7);
    assert_eq!(token.total_supply(), initial_supply);
    assert_eq!(token.balance(ADMIN), initial_supply);
}

#[test]
fn test_transfer() {
    let initial_supply: i128 = 10_000_0000000;
    let mut token = new_token(initial_supply);

    let transfer_amount: i128 = 1000_0000000;
    token.transfer(ADMIN, ADMIN, USER, transfer_amount).unwrap();

    assert_eq!(token.balance(ADMIN), initial_supply - transfer_amount);
    assert_eq!(token.balance(USER), transfer_amount);
}

#[test]
fn test_burn() {
    let initial_supply: i128 = 10_000_0000000;
    let mut token = new_token(initial_supply);

    let burn_amount: i128 = 1000_0000000;
    token.burn(ADMIN, ADMIN, burn_amount).unwrap();

    assert_eq!(token.balance(ADMIN), initial_supply - burn_amount);
    assert_eq!(token.total_supply(), initial_supply - burn_amount);
}

#[test]
fn test_transfer_requires_owner_auth() {
    let mut token = new_token(1000);

    let result = token.transfer(USER, ADMIN, USER, 100);
    assert_eq!(result, Err(Error::Unauthorized));
    assert_eq!(token.balance(ADMIN), 1000);
    assert_eq!(token.balance(USER), 0);
}

#[test]
fn test_transfer_insufficient_balance() {
    let mut token = new_token(1000);

    assert_eq!(token.transfer(USER, USER, ADMIN, 1), Err(Error::InsufficientBalance));
    assert_eq!(token.transfer(ADMIN, ADMIN, USER, 1001), Err(Error::InsufficientBalance));
    assert_eq!(token.transfer(ADMIN, ADMIN, USER, -1), Err(Error::InsufficientBalance));
    assert_eq!(token.balance(ADMIN), 1000);
    assert_eq!(token.balance(USER), 0);
}

#[test]
fn test_transfer_to_self_changes_nothing() {
    let mut token = new_token(1000);

    token.transfer(ADMIN, ADMIN, ADMIN, 400).unwrap();

    assert_eq!(token.balance(ADMIN), 1000);
    assert_eq!(token.total_supply(), 1000);
}

#[test]
fn test_mint_requires_admin() {
    let mut token = new_token(1000);

    assert_eq!(token.mint(USER, USER, 50), Err(Error::Unauthorized));
    assert_eq!(token.balance(USER), 0);
    assert_eq!(token.total_supply(), 1000);

    token.mint(ADMIN, USER, 50).unwrap();
    assert_eq!(token.balance(USER), 50);
    assert_eq!(token.total_supply(), 1050);
}

#[test]
fn test_mint_negative_amount_rejected() {
    let mut token = new_token(1000);

    assert_eq!(token.mint(ADMIN, USER, -5), Err(Error::InsufficientBalance));
    assert_eq!(token.total_supply(), 1000);
}

#[test]
fn test_mint_by_authorized() {
    let minter: u64 = 7;
    let mut token = new_token(1000);

    // Not yet flagged: refused.
    assert_eq!(token.mint_by_authorized(minter, USER, 50), Err(Error::Unauthorized));

    // Only the admin can flag a minter.
    assert_eq!(token.set_authorized_minter(USER, minter, true), Err(Error::Unauthorized));
    token.set_authorized_minter(ADMIN, minter, true).unwrap();

    token.mint_by_authorized(minter, USER, 50).unwrap();
    assert_eq!(token.balance(USER), 50);
    assert_eq!(token.total_supply(), 1050);

    // Unflagging takes effect at once.
    token.set_authorized_minter(ADMIN, minter, false).unwrap();
    assert_eq!(token.mint_by_authorized(minter, USER, 50), Err(Error::Unauthorized));
}

#[test]
fn test_approve_and_burn_from() {
    let spender: u64 = 9;
    let mut token = new_token(1000);

    assert_eq!(token.allowance(ADMIN, spender), 0);
    token.approve(ADMIN, ADMIN, spender, 300).unwrap();
    assert_eq!(token.allowance(ADMIN, spender), 300);

    token.burn_from(spender, spender, ADMIN, 200).unwrap();
    assert_eq!(token.balance(ADMIN), 800);
    assert_eq!(token.total_supply(), 800);
    assert_eq!(token.allowance(ADMIN, spender), 100);
}

#[test]
fn test_approve_overwrites() {
    let spender: u64 = 9;
    let mut token = new_token(1000);

    token.approve(ADMIN, ADMIN, spender, 300).unwrap();
    token.approve(ADMIN, ADMIN, spender, 40).unwrap();
    assert_eq!(token.allowance(ADMIN, spender), 40);

    assert_eq!(token.approve(ADMIN, ADMIN, spender, -1), Err(Error::InsufficientBalance));
    assert_eq!(token.allowance(ADMIN, spender), 40);

    assert_eq!(token.approve(USER, ADMIN, spender, 10), Err(Error::Unauthorized));
    assert_eq!(token.allowance(ADMIN, spender), 40);
}

#[test]
fn test_burn_from_requires_spender_auth() {
    let spender: u64 = 9;
    let mut token = new_token(1000);

    token.approve(ADMIN, ADMIN, spender, 300).unwrap();
    assert_eq!(token.burn_from(USER, spender, ADMIN, 100), Err(Error::Unauthorized));
    assert_eq!(token.balance(ADMIN), 1000);
    assert_eq!(token.allowance(ADMIN, spender), 300);
}
