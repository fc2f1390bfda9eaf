use webauthn_dispatcher::registry::{LocationNFT, ERR_NOT_FOUND, ERR_NOT_OWNER, ERR_TOKEN_EXISTS};

fn configured() -> LocationNFT {
    let mut nft = LocationNFT::new();
    nft.initialize(b"admin".to_vec(), b"Location NFT".to_vec(), b"LOC".to_vec());
    nft
}

fn mint_sample(nft: &mut LocationNFT, to: &[u8], token_id: u32, when: u64) {
    nft.mint(
        to.to_vec(),
        token_id,
        b"Token".to_vec(),
        b"TOK".to_vec(),
        b"https://example/token".to_vec(),
        b"52.52".to_vec(),
        b"13.405".to_vec(),
        250,
        when,
    )
    .unwrap();
}

#[test]
fn initialize_sets_name_symbol_and_resets_supply() {
    let nft = configured();
    assert_eq!(nft.name(), b"Location NFT".to_vec());
    assert_eq!(nft.symbol(), b"LOC".to_vec());
    assert_eq!(nft.total_supply(), 0);
}

#[test]
fn mint_records_ownership_metadata_and_location() {
    let mut nft = configured();
    mint_sample(&mut nft, b"alice", 1, 777);

    assert!(nft.is_owner(&b"alice".to_vec(), 1));
    assert!(!nft.is_owner(&b"bob".to_vec(), 1));
    assert_eq!(nft.total_supply(), 1);
    assert_eq!(nft.owner_of(1).unwrap(), b"alice".to_vec());

    let meta = nft.get_metadata(1).unwrap();
    assert_eq!(meta.name, b"Token".to_vec());
    assert_eq!(meta.symbol, b"TOK".to_vec());
    assert_eq!(meta.uri, b"https://example/token".to_vec());
    assert_eq!(meta.latitude, b"52.52".to_vec());
    assert_eq!(meta.longitude, b"13.405".to_vec());
    assert_eq!(meta.radius, 250);
    assert_eq!(meta.created_at, 777);

    let loc = nft.get_location(1).unwrap();
    assert_eq!(loc.latitude, b"52.52".to_vec());
    assert_eq!(loc.longitude, b"13.405".to_vec());
    assert_eq!(loc.radius, 250);
}

#[test]
fn mint_rejects_existing_token() {
    let mut nft = configured();
    mint_sample(&mut nft, b"alice", 1, 777);
    let r = nft.mint(
        b"alice".to_vec(),
        1,
        b"Token".to_vec(),
        b"TOK".to_vec(),
        b"uri".to_vec(),
        b"0".to_vec(),
        b"0".to_vec(),
        1,
        778,
    );
    assert_eq!(r.unwrap_err(), ERR_TOKEN_EXISTS);
    assert_eq!(nft.total_supply(), 1);
}

#[test]
fn transfer_moves_ownership() {
    let mut nft = configured();
    mint_sample(&mut nft, b"alice", 1, 777);

    nft.transfer(b"alice".to_vec(), b"bob".to_vec(), 1).unwrap();
    assert!(!nft.is_owner(&b"alice".to_vec(), 1));
    assert!(nft.is_owner(&b"bob".to_vec(), 1));

    // Alice no longer holds the token, so she cannot transfer it again.
    let r = nft.transfer(b"alice".to_vec(), b"carol".to_vec(), 1);
    assert_eq!(r.unwrap_err(), ERR_NOT_OWNER);
}

#[test]
fn balance_counts_minted_token_ids() {
    let mut nft = configured();
    mint_sample(&mut nft, b"alice", 1, 777);
    mint_sample(&mut nft, b"alice", 2, 778);
    mint_sample(&mut nft, b"bob", 3, 779);

    assert_eq!(nft.balance_of(&b"alice".to_vec()), 2);
    assert_eq!(nft.balance_of(&b"bob".to_vec()), 1);
    assert_eq!(nft.balance_of(&b"carol".to_vec()), 0);
    assert_eq!(nft.total_supply(), 3);
}

#[test]
fn update_location_overwrites_latest() {
    let mut nft = configured();
    mint_sample(&mut nft, b"alice", 1, 777);
    nft.update_location(1, b"48.85".to_vec(), b"2.35".to_vec(), 100).unwrap();
    let loc = nft.get_location(1).unwrap();
    assert_eq!(loc.latitude, b"48.85".to_vec());
    assert_eq!(loc.longitude, b"2.35".to_vec());
    assert_eq!(loc.radius, 100);
}

#[test]
fn missing_token_is_reported() {
    let nft = configured();
    assert_eq!(nft.owner_of(9).unwrap_err(), ERR_NOT_FOUND);
    assert_eq!(nft.get_metadata(9).unwrap_err(), ERR_NOT_FOUND);
    assert_eq!(nft.get_location(9).unwrap_err(), ERR_NOT_FOUND);
}
