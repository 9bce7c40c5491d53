use balanced_bridge::address::{
    get_address, is_valid_base32, is_valid_bytes_address, is_valid_string_address,
};
use balanced_bridge::config::{
    check_nonnegative_amount, get_icon_bnusd, get_nid, get_upgrade_authority, get_xcall,
    get_xcall_manager, set_icon_bnusd, set_nid, set_upgrade_authority, set_xcall,
    set_xcall_manager, ConfigData,
};
use balanced_bridge::dispatcher::AssetManager;
use balanced_bridge::errors::ContractError;
use balanced_bridge::protocols::XcallManager;
use balanced_bridge::rate_limit::RateLimit;

const TOKEN: &str = "CAAAAAAAAAAAAAAAAAAAAAAAAAAAAAAAAAAAAAAAAAAAAAAAAAAAAAAA";

fn strings(items: &[&str]) -> Vec<String> {
    items.iter().map(|s| String::from(*s)).collect()
}

#[test]
fn configure_then_get_rate_limit_round_trips() {
    let mut am = AssetManager::initialize(String::from("icon/asset-manager"));
    am.configure_rate_limit(&String::from(TOKEN), 100, 1000, 1000, 42)
        .unwrap();
    let stored = am.get_rate_limit(&String::from(TOKEN)).unwrap();
    assert_eq!(
        stored,
        RateLimit { period: 100, percentage: 1000, last_update: 42, current_limit: 100 }
    );
    // the initial reserve is consistent with the limit at zero elapsed time
    assert_eq!(am.get_withdraw_limit(&String::from(TOKEN), 1000, 42), Ok(100));
}

#[test]
fn configure_rate_limit_rejects_percentage_above_points() {
    let mut am = AssetManager::initialize(String::from("icon/asset-manager"));
    assert_eq!(
        am.configure_rate_limit(&String::from(TOKEN), 100, 10_001, 1000, 0),
        Err(ContractError::PercentageShouldBeLessThanOrEqualToPOINTS)
    );
    assert_eq!(
        am.get_rate_limit(&String::from(TOKEN)),
        Err(ContractError::Uninitialized)
    );
}

#[test]
fn configure_rate_limit_fails_closed_on_overflow() {
    let mut am = AssetManager::initialize(String::from("icon/asset-manager"));
    assert_eq!(
        am.configure_rate_limit(&String::from(TOKEN), 100, 10_000, u128::MAX, 0),
        Err(ContractError::InvalidAmount)
    );
}

#[test]
fn reset_limit_reinstates_the_floor_and_keeps_the_clock() {
    let mut am = AssetManager::initialize(String::from("icon/asset-manager"));
    am.configure_rate_limit(&String::from(TOKEN), 100, 1000, 1000, 42)
        .unwrap();
    // the balance grew to 5000: the floor is now 500
    assert_eq!(am.reset_limit(&String::from(TOKEN), 5000), Ok(true));
    assert_eq!(
        am.get_rate_limit(&String::from(TOKEN)),
        Ok(RateLimit { period: 100, percentage: 1000, last_update: 42, current_limit: 500 })
    );
    assert_eq!(
        am.reset_limit(&String::from("other"), 5000),
        Err(ContractError::Uninitialized)
    );
}

#[test]
fn independent_tokens_keep_independent_limits() {
    let other = "GBBBBBBBBBBBBBBBBBBBBBBBBBBBBBBBBBBBBBBBBBBBBBBBBBBBBBBB";
    let mut am = AssetManager::initialize(String::from("icon/asset-manager"));
    am.configure_rate_limit(&String::from(TOKEN), 100, 1000, 1000, 0)
        .unwrap();
    am.configure_rate_limit(&String::from(other), 50, 2000, 400, 9)
        .unwrap();
    assert_eq!(
        am.get_rate_limit(&String::from(TOKEN)),
        Ok(RateLimit { period: 100, percentage: 1000, last_update: 0, current_limit: 100 })
    );
    assert_eq!(
        am.get_rate_limit(&String::from(other)),
        Ok(RateLimit { period: 50, percentage: 2000, last_update: 9, current_limit: 80 })
    );
    // verifying a withdrawal on one token leaves the other untouched
    assert_eq!(am.verify_withdraw(&String::from(TOKEN), 100, 1000, 10), Ok(true));
    assert_eq!(
        am.get_rate_limit(&String::from(other)),
        Ok(RateLimit { period: 50, percentage: 2000, last_update: 9, current_limit: 80 })
    );
}

#[test]
fn deposit_builds_the_outbound_envelope() {
    let am = AssetManager::initialize(String::from("icon/asset-manager"));
    let xm = XcallManager::initialize(
        String::from("icon/governance"),
        strings(&["centralized/connection"]),
        strings(&["icon/address"]),
    );
    let envelope = am
        .deposit(
            &xm,
            String::from("GDEPOSITOR"),
            String::from(TOKEN),
            250,
            Some(String::from("icon/receiver")),
            Some(vec![9, 9]),
        )
        .unwrap();
    assert_eq!(envelope.message.token_address, String::from(TOKEN));
    assert_eq!(envelope.message.from, String::from("GDEPOSITOR"));
    assert_eq!(envelope.message.to, String::from("icon/receiver"));
    assert_eq!(envelope.message.amount, 250);
    assert_eq!(envelope.message.data, vec![9, 9]);
    assert_eq!(envelope.rollback.token_address, String::from(TOKEN));
    assert_eq!(envelope.rollback.to, String::from("GDEPOSITOR"));
    assert_eq!(envelope.rollback.amount, 250);
    assert_eq!(envelope.sources, strings(&["centralized/connection"]));
    assert_eq!(envelope.destinations, strings(&["icon/address"]));
    assert_eq!(envelope.destination, String::from("icon/asset-manager"));
}

#[test]
fn deposit_defaults_and_minimum_amount() {
    let am = AssetManager::initialize(String::from("icon/asset-manager"));
    let xm = XcallManager::initialize(
        String::from("icon/governance"),
        strings(&["centralized/connection"]),
        strings(&["icon/address"]),
    );
    let r = am.deposit(&xm, String::from("GDEPOSITOR"), String::from(TOKEN), 0, None, None);
    assert!(matches!(r, Err(ContractError::AmountIsLessThanMinimumAmount)));

    let envelope = am
        .deposit(&xm, String::from("GDEPOSITOR"), String::from(TOKEN), 1, None, None)
        .unwrap();
    assert_eq!(envelope.message.to, String::new());
    assert_eq!(envelope.message.data, vec![0u8; 32]);
}

#[test]
fn address_validation_accepts_well_formed_addresses() {
    let account = "GA7QYNF7SOWQ3GLR2BGMZEHXAVIRZA4KVWLTJJFC7MGXUA74P7UJVSGZ";
    let contract = "CA7QYNF7SOWQ3GLR2BGMZEHXAVIRZA4KVWLTJJFC7MGXUA74P7UJUWDA";
    assert!(is_valid_string_address(&String::from(account)));
    assert!(is_valid_string_address(&String::from(contract)));
    assert!(is_valid_bytes_address(&account.as_bytes().to_vec()));
    assert!(is_valid_bytes_address(&contract.as_bytes().to_vec()));
}

#[test]
fn address_validation_rejects_malformed_addresses() {
    // wrong length
    assert!(!is_valid_string_address(&String::from("GA7QYNF7")));
    // wrong first letter
    assert!(!is_valid_string_address(&String::from(
        "AA7QYNF7SOWQ3GLR2BGMZEHXAVIRZA4KVWLTJJFC7MGXUA74P7UJVSGZ"
    )));
    // characters outside the base-32 alphabet
    assert!(!is_valid_string_address(&String::from(
        "GA7QYNF7SOWQ3GLR2BGMZEHXAVIRZA4KVWLTJJFC7MGXUA74P7UJVSG0"
    )));
    assert!(!is_valid_string_address(&String::from(
        "ga7qynf7sowq3glr2bgmzehxavirza4kvwltjjfc7mgxua74p7ujvsgz"
    )));
    // a non-ascii character in place of the last one
    assert!(!is_valid_string_address(&String::from(
        "GA7QYNF7SOWQ3GLR2BGMZEHXAVIRZA4KVWLTJJFC7MGXUA74P7UJVSG\u{00C4}"
    )));
    assert!(!is_valid_bytes_address(&vec![71u8; 55]));
    assert!(!is_valid_bytes_address(&vec![48u8; 56]));
}

#[test]
fn network_address_splits_at_the_first_separator() {
    assert_eq!(
        get_address(&String::from("icon/hx123")),
        Ok(String::from("hx123"))
    );
    // only the first separator counts
    assert_eq!(
        get_address(&String::from("net/a/b")),
        Ok(String::from("a/b"))
    );
    // a trailing separator leaves an empty account
    assert_eq!(get_address(&String::from("net/")), Ok(String::new()));
    assert_eq!(
        get_address(&String::from("no-separator")),
        Err(ContractError::InvalidAddress)
    );
    assert_eq!(
        get_address(&String::from("")),
        Err(ContractError::InvalidAddress)
    );
}

#[test]
fn base32_alphabet_bounds() {
    assert!(is_valid_base32(b'A'));
    assert!(is_valid_base32(b'Z'));
    assert!(is_valid_base32(b'2'));
    assert!(is_valid_base32(b'7'));
    assert!(!is_valid_base32(b'1'));
    assert!(!is_valid_base32(b'8'));
    assert!(!is_valid_base32(b'a'));
    assert!(!is_valid_base32(b'@'));
    assert!(!is_valid_base32(b'['));
}

#[test]
fn config_accessors_round_trip() {
    let mut config = ConfigData {
        xcall_manager: String::from("m0"),
        xcall: String::from("x0"),
        nid: String::from("n0"),
        icon_bnusd: String::from("i0"),
        upgrade_authority: String::from("u0"),
    };
    set_xcall_manager(&mut config, String::from("m1"));
    set_xcall(&mut config, String::from("x1"));
    set_nid(&mut config, String::from("n1"));
    set_icon_bnusd(&mut config, String::from("i1"));
    set_upgrade_authority(&mut config, String::from("u1"));
    assert_eq!(get_xcall_manager(&config), String::from("m1"));
    assert_eq!(get_xcall(&config), String::from("x1"));
    assert_eq!(get_nid(&config), String::from("n1"));
    assert_eq!(get_icon_bnusd(&config), String::from("i1"));
    assert_eq!(get_upgrade_authority(&config), String::from("u1"));
}

#[test]
fn nonnegative_amount_check() {
    assert!(check_nonnegative_amount(0));
    assert!(check_nonnegative_amount(1));
    assert!(check_nonnegative_amount(i128::MAX));
    assert!(!check_nonnegative_amount(-1));
    assert!(!check_nonnegative_amount(i128::MIN));
}
