use lifecycle::collateral::{
    get_collateral_score, submit_maintenance, submit_maintenance_internal, ContractError,
};
use lifecycle::validation::{
    require_env, require_length, require_non_empty, require_non_empty_string,
    require_non_empty_vec, require_positive_u32, require_positive_u64, require_string_length,
    require_within_bounds, Rule, DEFAULT_MAX_STRING_LEN,
};
use soroban_sdk::{Env, String, Vec};

#[test]
#[should_panic(expected = "validation: asset_id must not be empty")]
fn empty_string_rejected() {
    let env = Env::default();
    let s = String::from_str(&env, "");
    if let Err(e) = require_non_empty_string(&s, "asset_id") {
        panic!("{}", e.message());
    }
}

#[test]
#[should_panic(expected = "validation: description exceeds maximum length")]
fn long_string_rejected() {
    let env = Env::default();
    let s = String::from_str(&env, &"x".repeat(300));
    if let Err(e) = require_string_length(&s, "description", 256) {
        panic!("{}", e.message());
    }
}

#[test]
fn valid_string_passes() {
    let env = Env::default();
    let s = String::from_str(&env, "valid");
    assert!(require_non_empty_string(&s, "field").is_ok());
    assert!(require_string_length(&s, "field", 256).is_ok());
}

#[test]
#[should_panic(expected = "validation: amount must be positive")]
fn zero_amount_rejected() {
    if let Err(e) = require_positive_u64(0, "amount") {
        panic!("{}", e.message());
    }
}

#[test]
#[should_panic(expected = "validation: items must not be empty")]
fn empty_vec_rejected() {
    let env = Env::default();
    let v: Vec<u64> = Vec::new(&env);
    if let Err(e) = require_non_empty_vec(&v, "items") {
        panic!("{}", e.message());
    }
}

#[test]
fn vec_with_zero_entries_passes_non_empty_check() {
    let env = Env::default();
    let mut v: Vec<u64> = Vec::new(&env);
    v.push_back(0u64);
    v.push_back(0u64);
    assert!(require_non_empty_vec(&v, "items").is_ok());
}

#[test]
fn vectors_are_judged_by_their_length() {
    let env = Env::default();
    let zeros: Vec<u64> = Vec::from_array(&env, [0, 0]);
    let ones: Vec<u64> = Vec::from_array(&env, [1, 1]);
    assert!(require_non_empty_vec(&zeros, "items").is_ok());
    assert!(require_non_empty_vec(&zeros, "items").is_ok());
    assert!(require_non_empty_vec(&ones, "items").is_ok());
    let (none, never): (Vec<u64>, Vec<bool>) = (Vec::new(&env), Vec::new(&env));
    assert!(require_non_empty_vec(&none, "items").is_err());
    assert!(require_non_empty_vec(&never, "items").is_err());
}

#[test]
fn string_length_is_counted_in_bytes_at_the_boundary() {
    let env = Env::default();
    let full = String::from_str(&env, &"x".repeat(256));
    let over = String::from_str(&env, &"x".repeat(257));
    assert!(require_string_length(&full, "description", DEFAULT_MAX_STRING_LEN).is_ok());
    assert_eq!(
        require_string_length(&over, "description", DEFAULT_MAX_STRING_LEN).unwrap_err().rule,
        Rule::MaxLength
    );
    let umlauts = String::from_str(&env, &"ü".repeat(129));
    assert!(require_string_length(&umlauts, "description", 256).is_err());
    let empty = String::from_str(&env, "");
    assert_eq!(require_string_length(&empty, "description", 0).unwrap_err().rule, Rule::NonEmpty);
}

#[test]
fn numbers_are_checked() {
    assert!(require_positive_u64(1, "n").is_ok());
    assert!(require_positive_u32(1, "n").is_ok());
    let zero = require_positive_u32(0, "count").unwrap_err();
    assert_eq!(zero.rule, Rule::Positive);
    assert_eq!(zero.message(), "validation: count must be positive");
    assert!(require_within_bounds(5, 5, 9, "n").is_ok());
    assert!(require_within_bounds(9, 5, 9, "n").is_ok());
    assert_eq!(
        require_within_bounds(4, 5, 9, "n").unwrap_err().message(),
        "validation: n must be within bounds"
    );
    assert_eq!(require_within_bounds(10, 5, 9, "n").unwrap_err().rule, Rule::WithinBounds);
}

#[test]
fn known_lengths_are_checked() {
    assert!(require_non_empty(false, "records").is_ok());
    assert_eq!(
        require_non_empty(true, "records").unwrap_err().message(),
        "validation: records must not be empty"
    );
    assert_eq!(
        require_length(11, "code", 10).unwrap_err().message(),
        "validation: code exceeds maximum length"
    );
}

#[test]
fn every_host_handle_is_accepted() {
    assert!(require_env(&Env::default()).is_ok());
}

#[test]
fn test_maintenance_notes_boundaries() {
    assert!(submit_maintenance_internal("").is_err());
    assert!(submit_maintenance_internal(&"a".repeat(256)).is_ok());
    assert!(submit_maintenance_internal(&"a".repeat(257)).is_err());
}

#[test]
fn collateral_entry_points_answer() {
    assert_eq!(submit_maintenance(Env::default(), 7), Ok(()));
    assert_eq!(get_collateral_score(Env::default(), 7), 0);
    assert_eq!(ContractError::NotFound.code(), 1);
    assert_eq!(ContractError::Unauthorized.code(), 2);
    assert_eq!(ContractError::InvalidReset.code(), 3);
    assert!(ContractError::NotFound < ContractError::Unauthorized);
}
