use deckery_auth::{
    account_management_verdict, answers_prompt, auth_step_for_stored_hash, auth_verdict,
    check_new_pin, exit_status, hash_pin, set_credentials_verdict, verify_pin, AuthStep,
    AuthVerdict, NewPinError, PinHashError,
};

/// A reference Argon2id hash (version 0x13, 256 KiB, 2 passes, 1 lane) of
/// the password "password" with the salt "somesalt".
const REFERENCE_HASH: &str =
    "$argon2id$v=19$m=256,t=2,p=1$c29tZXNhbHQ$nf65EOgLrQMR/uIPnA4rEsF5h7TKyQwu9U1bMCHGi/4";

#[test]
fn new_pin_rules() {
    let s = |x: &str| x.to_string();
    assert_eq!(check_new_pin(&s("1234"), &s("1235")), Err(NewPinError::Mismatch));
    assert_eq!(check_new_pin(&s(""), &s("")), Err(NewPinError::Empty));
    assert_eq!(check_new_pin(&s("   \t"), &s("   \t")), Err(NewPinError::Empty));
    assert_eq!(check_new_pin(&s("123"), &s("123")), Err(NewPinError::TooShort));
    assert_eq!(check_new_pin(&s("1234"), &s("1234")), Ok(()));
    // length counts characters: two two-byte characters are still two
    assert_eq!(check_new_pin(&s("éé"), &s("éé")), Err(NewPinError::TooShort));
    assert_eq!(check_new_pin(&s("é12"), &s("é12")), Err(NewPinError::TooShort));
    assert_eq!(check_new_pin(&s("éé12"), &s("éé12")), Ok(()));
    // mismatch is checked before emptiness
    assert_eq!(check_new_pin(&s(""), &s(" ")), Err(NewPinError::Mismatch));
    // white space inside a PIN counts toward its length
    assert_eq!(check_new_pin(&s(" 1 2"), &s(" 1 2")), Ok(()));
}

#[test]
fn reference_hash_verifies() {
    assert!(matches!(verify_pin("password", REFERENCE_HASH), Ok(true)));
    assert!(matches!(verify_pin("passw0rd", REFERENCE_HASH), Ok(false)));
    let padded = format!("\n  {}\n", REFERENCE_HASH);
    assert!(matches!(verify_pin("password", &padded), Ok(true)));
}

#[test]
fn malformed_hash_is_an_error() {
    assert!(matches!(verify_pin("1234", "not a hash"), Err(PinHashError::MalformedHash(_))));
    assert!(matches!(verify_pin("1234", ""), Err(PinHashError::MalformedHash(_))));
    assert!(matches!(verify_pin("1234", "   \n"), Err(PinHashError::MalformedHash(_))));
}

#[test]
fn huge_lane_count_is_refused() {
    // the reference hash with its lane count replaced: 2^29 lanes would
    // overflow argon2's parameter check, 10^8 - 1 lanes is over its limit
    let huge = REFERENCE_HASH.replace("p=1$", "p=536870912$");
    assert!(matches!(verify_pin("password", &huge), Ok(false)));
    assert_eq!(auth_verdict(&huge, Some("password")), AuthVerdict::AuthErr);
    let large = REFERENCE_HASH.replace("p=1$", "p=99999999$");
    assert!(matches!(verify_pin("password", &large), Ok(false)));
}

#[test]
fn hashed_pin_verifies() {
    let hash = hash_pin("2468").expect("hashing succeeds");
    assert!(hash.starts_with("$argon2id$v=19$m=65536,t=3,p=4$"));
    assert!(matches!(verify_pin("2468", &hash), Ok(true)));
    assert!(matches!(verify_pin("2469", &hash), Ok(false)));
    assert!(matches!(verify_pin("2468", &format!("{}\n", hash)), Ok(true)));
}

#[test]
fn hashed_pin_records_argon2id_costs_and_salt() {
    let prefix = "$argon2id$v=19$m=65536,t=3,p=4$";
    let hash = hash_pin("1357").expect("hashing succeeds");
    assert!(hash.starts_with(prefix));
    let rest = &hash[prefix.len()..];
    let (salt, digest) = rest.split_once('$').expect("salt and hash fields");
    assert_eq!(salt.len(), 22);
    assert!(salt.chars().all(|c| c.is_ascii_alphanumeric() || c == '+' || c == '/'));
    // a 32-byte hash in unpadded Base64
    assert_eq!(digest.len(), 43);
    assert!(!digest.contains('$'));
    // two hashes of one PIN differ in their salts and both verify
    let other = hash_pin("1357").expect("hashing succeeds");
    assert_ne!(hash, other);
    assert!(matches!(verify_pin("1357", &other), Ok(true)));
}

#[test]
fn pam_answers() {
    assert_eq!(auth_step_for_stored_hash(false), AuthStep::Answer(AuthVerdict::AuthInfoUnavail));
    assert_eq!(auth_step_for_stored_hash(true), AuthStep::AskForPin);
    assert_eq!(auth_verdict(REFERENCE_HASH, Some("password")), AuthVerdict::Success);
    assert_eq!(auth_verdict(REFERENCE_HASH, Some("letmein")), AuthVerdict::AuthErr);
    assert_eq!(auth_verdict(REFERENCE_HASH, None), AuthVerdict::AuthErr);
    assert_eq!(auth_verdict("garbage", Some("password")), AuthVerdict::AuthErr);
    assert_eq!(set_credentials_verdict(), AuthVerdict::Success);
    assert_eq!(account_management_verdict(), AuthVerdict::Ignore);
}

#[test]
fn pam_smoke_test_decisions() {
    assert!(answers_prompt(1));
    assert!(answers_prompt(2));
    assert!(!answers_prompt(3));
    assert!(!answers_prompt(4));
    assert_eq!(exit_status(0), 0);
    assert_eq!(exit_status(7), 1);
}
