use turista_rewards::checkin_nft::CheckinNFTContract;
use turista_rewards::checkin_nft::Error;
use turista_rewards::checkin_nft::CHECKIN_REWARD;
use turista_rewards::tur_token::TurToken;

const ADMIN: u64 = 1;
const REGISTRY: u64 = 11;
const TUR_CONTRACT: u64 = 10;
const USER: u64 = 2;
const USER2: u64 = 3;
const TIMESTAMP: u64 = 1_700_000_000;

/// A reward-token ledger with this registry flagged as a minter, and an
/// empty registry.
fn setup() -> (TurToken, CheckinNFTContract) {
    let mut token = TurToken::initialize(
        ADMIN,
        String::from("Turistas Token"),
        String::from("TUR"),
        7,
        100_000_000,
    );
    token.set_authorized_minter(ADMIN, REGISTRY, true).unwrap();
    let registry = CheckinNFTContract::initialize(REGISTRY, ADMIN, TUR_CONTRACT);
    (token, registry)
}

#[test]
fn lib_test_initialize() {
    let (_token, registry) = setup();

    assert_eq!(registry.total_supply(), 0);
}

#[test]
fn test_mint() {
    let (mut token, mut registry) = setup();

    let place_id: u32 = 1;
    let place_name = String::from("Plaza de Armas");
    let latitude: i64 = -13516754; // -13.516754 * 1e6
    let longitude: i64 = -71978516; // -71.978516 * 1e6
    let image_url = String::from("/nft-plaza-armas.png");

    let token_id = registry
        .mint(
            &mut token,
            USER,
            USER,
            place_id,
            place_name.clone(),
            latitude,
            longitude,
            image_url.clone(),
            TIMESTAMP,
        )
        .unwrap();

    assert_eq!(token_id, 1);
    assert_eq!(registry.total_supply(), 1);
    assert!(registry.has_checked_in(USER, place_id));

    let nft = registry.get_nft(token_id).unwrap();
    assert_eq!(nft.owner, USER);
    assert_eq!(nft.place_id, place_id);
    assert_eq!(nft.place_name, place_name);
}

#[test]
fn test_cannot_checkin_twice() {
    let (mut token, mut registry) = setup();

    let place_id: u32 = 1;
    let place_name = String::from("Plaza de Armas");
    let latitude: i64 = -13516754;
    let longitude: i64 = -71978516;
    let image_url = String::from("/nft-plaza-armas.png");

    // First check-in should succeed.
    registry
        .mint(
            &mut token,
            USER,
            USER,
            place_id,
            place_name.clone(),
            latitude,
            longitude,
            image_url.clone(),
            TIMESTAMP,
        )
        .unwrap();

    // Second check-in should fail.
    let result = registry.mint(
        &mut token,
        USER,
        USER,
        place_id,
        place_name,
        latitude,
        longitude,
        image_url,
        TIMESTAMP,
    );
    assert_eq!(result, Err(Error::AlreadyCheckedIn));
}

#[test]
fn test_transfer_fails() {
    let (mut token, mut registry) = setup();

    let place_id: u32 = 1;
    let token_id = registry
        .mint(
            &mut token,
            USER,
            USER,
            place_id,
            String::from("Plaza de Armas"),
            -13516754,
            -71978516,
            String::from("/nft-plaza-armas.png"),
            TIMESTAMP,
        )
        .unwrap();

    // Transfer should fail (soulbound).
    let result = registry.transfer(USER, USER2, token_id);
    assert_eq!(result, Err(Error::NFTNotTransferable));
}

#[test]
fn test_get_user_nfts() {
    let (mut token, mut registry) = setup();

    // Mint 2 records for the user.
    registry
        .mint(
            &mut token,
            USER,
            USER,
            1,
            String::from("Plaza de Armas"),
            -13516754,
            -71978516,
            String::from("/nft-plaza-armas.png"),
            TIMESTAMP,
        )
        .unwrap();

    registry
        .mint(
            &mut token,
            USER,
            USER,
            2,
            String::from("Qoricancha"),
            -13519722,
            -71975556,
            String::from("/nft-qoricancha.png"),
            TIMESTAMP,
        )
        .unwrap();

    let nfts = registry.get_user_nfts(USER);
    assert_eq!(nfts.len(), 2);
}

#[test]
fn test_mint_requires_caller_to_be_user() {
    let (mut token, mut registry) = setup();

    let result = registry.mint(
        &mut token,
        USER2,
        USER,
        1,
        String::from("Plaza de Armas"),
        -13516754,
        -71978516,
        String::from("/nft-plaza-armas.png"),
        TIMESTAMP,
    );
    assert_eq!(result, Err(Error::Unauthorized));
    assert_eq!(registry.total_supply(), 0);
    assert_eq!(token.balance(USER), 0);
}

#[test]
fn test_mint_invalid_place_id() {
    let (mut token, mut registry) = setup();

    let result = registry.mint(
        &mut token,
        USER,
        USER,
        0,
        String::from("Nowhere"),
        0,
        0,
        String::from("/nowhere.png"),
        TIMESTAMP,
    );
    assert_eq!(result, Err(Error::InvalidPlaceId));
    assert_eq!(registry.total_supply(), 0);
}

#[test]
fn test_mint_fails_when_registry_not_authorized() {
    let mut token = TurToken::initialize(
        ADMIN,
        String::from("Turistas Token"),
        String::from("TUR"),
        7,
        100_000_000,
    );
    // The admin never flags the registry as a minter.
    let mut registry = CheckinNFTContract::initialize(REGISTRY, ADMIN, TUR_CONTRACT);

    let result = registry.mint(
        &mut token,
        USER,
        USER,
        1,
        String::from("Plaza de Armas"),
        -13516754,
        -71978516,
        String::from("/nft-plaza-armas.png"),
        TIMESTAMP,
    );
    assert_eq!(result, Err(Error::Unauthorized));
    assert_eq!(registry.total_supply(), 0);
    assert_eq!(token.balance(USER), 0);
    assert_eq!(token.total_supply(), 100_000_000);
}

#[test]
fn test_get_nft_not_found() {
    let (mut token, mut registry) = setup();

    assert_eq!(registry.get_nft(1).unwrap_err(), Error::TokenNotFound);

    registry
        .mint(
            &mut token,
            USER,
            USER,
            1,
            String::from("Plaza de Armas"),
            -13516754,
            -71978516,
            String::from("/nft-plaza-armas.png"),
            TIMESTAMP,
        )
        .unwrap();

    assert_eq!(registry.get_nft(0).unwrap_err(), Error::TokenNotFound);
    assert_eq!(registry.get_nft(2).unwrap_err(), Error::TokenNotFound);
    assert!(registry.get_nft(1).is_ok());
}

#[test]
fn test_get_checkin_token_id() {
    let (mut token, mut registry) = setup();

    assert_eq!(registry.get_checkin_token_id(USER, 1), None);

    let token_id = registry
        .mint(
            &mut token,
            USER,
            USER,
            1,
            String::from("Plaza de Armas"),
            -13516754,
            -71978516,
            String::from("/nft-plaza-armas.png"),
            TIMESTAMP,
        )
        .unwrap();

    assert_eq!(registry.get_checkin_token_id(USER, 1), Some(token_id));
    assert_eq!(registry.get_checkin_token_id(USER, 2), None);
    assert_eq!(registry.get_checkin_token_id(USER2, 1), None);
}

#[test]
fn test_mint_pays_fixed_reward() {
    let (mut token, mut registry) = setup();

    let supply_before = token.total_supply();
    registry
        .mint(
            &mut token,
            USER,
            USER,
            1,
            String::from("Plaza de Armas"),
            -13516754,
            -71978516,
            String::from("/nft-plaza-armas.png"),
            TIMESTAMP,
        )
        .unwrap();

    assert_eq!(token.balance(USER), CHECKIN_REWARD);
    assert_eq!(token.total_supply(), supply_before + CHECKIN_REWARD);
}
