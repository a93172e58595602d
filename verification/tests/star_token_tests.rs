use token_launch::errors::LaunchError;
use token_launch::star_token::StarToken;

const ADMIN: u64 = 1;
const USER1: u64 = 10;
const USER2: u64 = 11;

fn initialized_token() -> StarToken {
    let mut st = StarToken::new();
    st.initialize(ADMIN, "STAR Points".to_string(), "STAR".to_string())
        .unwrap();
    st
}

#[test]
fn test_initialize_and_mint() {
    let mut st = initialized_token();

    st.mint(ADMIN, USER1, 1000).unwrap();

    assert_eq!(st.balance_of(USER1), 1000);
    assert_eq!(st.total_supply(), 1000);
}

#[test]
fn test_transfer() {
    let mut st = initialized_token();
    st.mint(ADMIN, USER1, 1000).unwrap();

    st.transfer(USER1, USER2, 300).unwrap();

    assert_eq!(st.balance_of(USER1), 700);
    assert_eq!(st.balance_of(USER2), 300);
}

#[test]
fn metadata_after_initialize() {
    let st = initialized_token();
    assert_eq!(st.name().unwrap(), "STAR Points".to_string());
    assert_eq!(st.symbol().unwrap(), "STAR".to_string());
    assert_eq!(st.decimals().unwrap(), 7);
    assert_eq!(st.admin().unwrap(), ADMIN);
    assert_eq!(st.total_supply(), 0);
}

#[test]
fn uninitialized_token_refuses() {
    let mut st = StarToken::new();
    assert_eq!(st.name(), Err(LaunchError::NotInitialized));
    assert_eq!(st.symbol(), Err(LaunchError::NotInitialized));
    assert_eq!(st.decimals(), Err(LaunchError::NotInitialized));
    assert_eq!(st.admin(), Err(LaunchError::NotInitialized));
    assert_eq!(st.mint(ADMIN, USER1, 5), Err(LaunchError::NotInitialized));
}

#[test]
fn token_initialize_twice_fails() {
    let mut st = initialized_token();
    assert_eq!(
        st.initialize(ADMIN, "again".to_string(), "AG".to_string()),
        Err(LaunchError::AlreadyInitialized)
    );
}

#[test]
fn mint_checks() {
    let mut st = initialized_token();
    assert_eq!(st.mint(USER1, USER1, 10), Err(LaunchError::Unauthorized));
    assert_eq!(st.mint(ADMIN, USER1, 0), Err(LaunchError::InvalidAmount));
    assert_eq!(st.mint(ADMIN, USER1, -5), Err(LaunchError::InvalidAmount));
    assert_eq!(st.balance_of(USER1), 0);
}

#[test]
fn transfer_checks() {
    let mut st = initialized_token();
    st.mint(ADMIN, USER1, 100).unwrap();
    assert_eq!(st.transfer(USER1, USER2, 0), Err(LaunchError::InvalidAmount));
    assert_eq!(
        st.transfer(USER1, USER2, 101),
        Err(LaunchError::InsufficientPoints)
    );
    assert_eq!(
        st.transfer(USER2, USER1, 1),
        Err(LaunchError::InsufficientPoints)
    );
    assert_eq!(st.balance_of(USER1), 100);
    assert_eq!(st.balance_of(USER2), 0);
}

#[test]
fn transfer_to_self_changes_nothing() {
    let mut st = initialized_token();
    st.mint(ADMIN, USER1, 100).unwrap();
    st.transfer(USER1, USER1, 40).unwrap();
    assert_eq!(st.balance_of(USER1), 100);
    assert_eq!(st.total_supply(), 100);
}

#[test]
fn supply_tracks_mints() {
    let mut st = initialized_token();
    st.mint(ADMIN, USER1, 250).unwrap();
    st.mint(ADMIN, USER2, 750).unwrap();
    st.mint(ADMIN, USER1, 1).unwrap();
    assert_eq!(st.total_supply(), 1001);
    assert_eq!(st.balance_of(USER1), 251);
    assert_eq!(st.balance_of(USER2), 750);
}
