use optimistic_verifier::validator_verifier::map_keys;
use optimistic_verifier::{ValidatorVerifier, VerifyError};
use std::collections::HashMap;

fn set() -> ValidatorVerifier {
    let mut powers = HashMap::new();
    powers.insert(1u64, 10u64);
    powers.insert(2u64, 20u64);
    powers.insert(3u64, 30u64);
    ValidatorVerifier::new(powers, 41)
}

#[test]
fn voting_power_lookup() {
    let v = set();
    assert_eq!(v.get_voting_power(2), Some(20));
    assert_eq!(v.get_voting_power(4), None);
    assert_eq!(v.quorum_voting_power(), 41);
}

#[test]
fn voting_power_check_sums_and_compares() {
    let v = set();
    assert_eq!(
        v.check_voting_power(&vec![1, 3]),
        Err(VerifyError::TooLittleVotingPower { voting_power: 40, expected_voting_power: 41 })
    );
    assert_eq!(v.check_voting_power(&vec![2, 3]), Ok(50));
    assert_eq!(v.check_voting_power(&vec![1, 2, 3]), Ok(60));
    assert_eq!(v.check_voting_power(&vec![1, 4, 3]), Err(VerifyError::UnknownAuthor));
    assert_eq!(
        v.check_voting_power(&vec![]),
        Err(VerifyError::TooLittleVotingPower { voting_power: 0, expected_voting_power: 41 })
    );
}

#[test]
fn voting_power_check_counts_repeated_authors() {
    let v = set();
    assert_eq!(v.check_voting_power(&vec![3, 3]), Ok(60));
}

#[test]
fn map_keys_lists_each_key_once() {
    let mut m = HashMap::new();
    m.insert(5u64, "a");
    m.insert(9u64, "b");
    let mut keys = map_keys(&m);
    keys.sort();
    assert_eq!(keys, vec![5, 9]);
}
