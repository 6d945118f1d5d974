use optimistic_verifier::{
    NextStep, OptimisticValidatorVerifier, ValidatorVerifier, VerificationResult, VerifyError,
    RECENT_AGGREGATED_BLOCKS,
};
use std::collections::HashMap;
use std::sync::Arc;

type Verifier = OptimisticValidatorVerifier<u32, Vec<u8>, String>;

fn validators(n: u64, quorum: u128) -> Arc<ValidatorVerifier> {
    let mut powers = HashMap::new();
    for a in 1..=n {
        powers.insert(a, 1u64);
    }
    Arc::new(ValidatorVerifier::new(powers, quorum))
}

fn sorted(mut v: Vec<u64>) -> Vec<u64> {
    v.sort();
    v
}

fn expect_aggregate(step: Result<NextStep<u32, String>, VerifyError>) -> Vec<u64> {
    match step {
        Ok(NextStep::AggregateSignatures(authors)) => sorted(authors),
        _ => panic!("expected a request to aggregate"),
    }
}

fn is_not_enough(step: &Result<NextStep<u32, String>, VerifyError>) -> bool {
    matches!(step, Ok(NextStep::Finished(VerificationResult::NotEnoughVotes)))
}

#[test]
fn votes_below_quorum_wait() {
    let mut v: Verifier = OptimisticValidatorVerifier::new(validators(4, 3), 10);
    assert!(is_not_enough(&v.verify(1, 7, vec![1], 100, 5)));
    assert!(is_not_enough(&v.verify(2, 7, vec![2], 100, 6)));
    assert!(v.has_votes_on(7));
    assert_eq!(v.waiting_signature(7, 1), Some(&vec![1u8]));
    assert_eq!(v.waiting_signature(7, 3), None);
    assert_eq!(v.stored_aggregated_signature(7), None);
}

#[test]
fn quorum_triggers_aggregation_and_verification() {
    let mut v: Verifier = OptimisticValidatorVerifier::new(validators(4, 3), 10);
    v.verify(1, 7, vec![1], 11, 0).unwrap();
    v.verify(2, 7, vec![2], 12, 0).unwrap();
    let authors = expect_aggregate(v.verify(3, 7, vec![3], 13, 0));
    assert_eq!(authors, vec![1, 2, 3]);
    match v.complete_aggregation(7, "agg".to_string(), true) {
        NextStep::Finished(VerificationResult::Verified((votes, agg))) => {
            assert_eq!(agg, "agg");
            assert_eq!(votes.len(), 3);
            assert_eq!(votes[&1], 11);
            assert_eq!(votes[&2], 12);
            assert_eq!(votes[&3], 13);
        },
        _ => panic!("expected Verified"),
    }
    assert_eq!(v.stored_aggregated_signature(7), Some(&"agg".to_string()));
    assert_eq!(v.waiting_signature(7, 1), None);
    // Later votes on the block are ignored.
    assert!(matches!(
        v.verify(4, 7, vec![4], 14, 0),
        Ok(NextStep::Finished(VerificationResult::AggregatedBefore))
    ));
}

#[test]
fn unknown_author_is_refused() {
    let mut v: Verifier = OptimisticValidatorVerifier::new(validators(4, 3), 10);
    assert!(matches!(v.verify(9, 7, vec![9], 1, 0), Err(VerifyError::UnknownAuthor)));
    assert!(!v.has_votes_on(7));
}

#[test]
fn frequency_triggers_aggregation_and_checked_vote_is_duplicate() {
    let mut v: Verifier = OptimisticValidatorVerifier::new(validators(4, 3), 1);
    let authors = expect_aggregate(v.verify(1, 7, vec![1], 1, 0));
    assert_eq!(authors, vec![1]);
    assert!(matches!(
        v.complete_aggregation(7, "a1".to_string(), true),
        NextStep::Finished(VerificationResult::NotEnoughVotes)
    ));
    assert!(matches!(
        v.verify(1, 7, vec![1], 1, 0),
        Ok(NextStep::Finished(VerificationResult::DuplicateVote))
    ));
}

#[test]
fn failed_aggregate_falls_back_to_individual_checks() {
    let mut v: Verifier = OptimisticValidatorVerifier::new(validators(4, 3), 10);
    v.verify(1, 7, vec![1], 11, 0).unwrap();
    v.verify(2, 7, vec![2], 12, 0).unwrap();
    v.verify(3, 7, vec![3], 13, 0).unwrap();
    let authors = expect_aggregate(v.verify(4, 7, vec![4], 14, 0));
    assert_eq!(authors, vec![1, 2, 3, 4]);
    assert!(v.awaits_aggregation(7));
    let to_check = match v.complete_aggregation(7, "bad".to_string(), false) {
        NextStep::VerifyIndividually(authors) => sorted(authors),
        _ => panic!("expected individual checks"),
    };
    assert_eq!(to_check, vec![1, 2, 3, 4]);
    // Nothing changed yet but the step awaited.
    assert_eq!(v.waiting_signature(7, 4), Some(&vec![4u8]));
    assert!(!v.awaits_aggregation(7));
    assert!(v.awaits_individual_checks(7));
    match v.complete_individual_checks(7, vec![1, 2, 3], "good".to_string()) {
        VerificationResult::Verified((votes, agg)) => {
            // The combination first given is handed out.
            assert_eq!(agg, "bad");
            assert_eq!(sorted(votes.keys().cloned().collect()), vec![1, 2, 3]);
        },
        _ => panic!("expected Verified"),
    }
    assert_eq!(v.stored_aggregated_signature(7), Some(&"good".to_string()));
    assert_eq!(v.waiting_signature(7, 4), None);
}

#[test]
fn individual_checks_below_quorum() {
    let mut v: Verifier = OptimisticValidatorVerifier::new(validators(4, 3), 3);
    v.verify(1, 7, vec![1], 11, 0).unwrap();
    v.verify(2, 7, vec![2], 12, 0).unwrap();
    expect_aggregate(v.verify(3, 7, vec![3], 13, 0));
    assert!(matches!(v.complete_aggregation(7, "bad".to_string(), false), NextStep::VerifyIndividually(_)));
    assert!(matches!(
        v.complete_individual_checks(7, vec![2], "only2".to_string()),
        VerificationResult::NotEnoughVotes
    ));
    // The dropped voters may vote again; the checked one is a duplicate.
    assert!(matches!(
        v.verify(2, 7, vec![2], 12, 0),
        Ok(NextStep::Finished(VerificationResult::DuplicateVote))
    ));
    assert!(is_not_enough(&v.verify(1, 7, vec![1], 11, 0)));
}

#[test]
fn waiting_vote_is_replaced() {
    let mut v: Verifier = OptimisticValidatorVerifier::new(validators(4, 3), 10);
    v.verify(1, 7, vec![1], 11, 0).unwrap();
    assert!(is_not_enough(&v.verify(1, 7, vec![5], 15, 0)));
    assert_eq!(v.waiting_signature(7, 1), Some(&vec![5u8]));
    v.verify(2, 7, vec![2], 12, 0).unwrap();
    let authors = expect_aggregate(v.verify(3, 7, vec![3], 13, 0));
    assert_eq!(authors, vec![1, 2, 3]);
    match v.complete_aggregation(7, "agg".to_string(), true) {
        NextStep::Finished(VerificationResult::Verified((votes, _))) => assert_eq!(votes[&1], 15),
        _ => panic!("expected Verified"),
    }
}

fn aggregate_block(v: &mut Verifier, block: u64) {
    let authors = expect_aggregate(v.verify(1, block, vec![1], 1, 0));
    assert_eq!(authors, vec![1]);
    assert!(matches!(
        v.complete_aggregation(block, "a".to_string(), true),
        NextStep::Finished(VerificationResult::Verified(_))
    ));
}

#[test]
fn recently_aggregated_blocks_are_bounded() {
    let mut v: Verifier = OptimisticValidatorVerifier::new(validators(1, 1), 10);
    aggregate_block(&mut v, 0);
    for b in 1..RECENT_AGGREGATED_BLOCKS as u64 {
        aggregate_block(&mut v, b);
    }
    // Block 0 survived 49 later aggregations.
    assert!(matches!(
        v.verify(1, 0, vec![1], 1, 0),
        Ok(NextStep::Finished(VerificationResult::AggregatedBefore))
    ));
    aggregate_block(&mut v, 1000);
    // The 51st aggregation evicts block 0; its checked vote is now a duplicate.
    assert!(matches!(
        v.verify(1, 0, vec![1], 1, 0),
        Ok(NextStep::Finished(VerificationResult::DuplicateVote))
    ));
    assert!(matches!(
        v.verify(1, 1, vec![1], 1, 0),
        Ok(NextStep::Finished(VerificationResult::AggregatedBefore))
    ));
}

#[test]
fn checked_votes_are_kept_through_individual_checks() {
    let mut v: Verifier = OptimisticValidatorVerifier::new(validators(4, 3), 1);
    // Author 1's vote is checked on its own aggregation, short of a quorum.
    expect_aggregate(v.verify(1, 7, vec![1], 11, 0));
    assert!(matches!(
        v.complete_aggregation(7, "a1".to_string(), true),
        NextStep::Finished(VerificationResult::NotEnoughVotes)
    ));
    // Author 2's vote fails the combined check and is dropped.
    expect_aggregate(v.verify(2, 7, vec![2], 12, 0));
    match v.complete_aggregation(7, "a12".to_string(), false) {
        NextStep::VerifyIndividually(authors) => assert_eq!(authors, vec![2]),
        _ => panic!("expected individual checks"),
    }
    assert!(matches!(
        v.complete_individual_checks(7, vec![], "a1".to_string()),
        VerificationResult::NotEnoughVotes
    ));
    // Authors 3 and 4 bring a quorum together with the kept vote of author 1.
    expect_aggregate(v.verify(3, 7, vec![3], 13, 0));
    match v.complete_aggregation(7, "a13".to_string(), true) {
        NextStep::Finished(VerificationResult::NotEnoughVotes) => {},
        _ => panic!("expected NotEnoughVotes"),
    }
    expect_aggregate(v.verify(4, 7, vec![4], 14, 0));
    match v.complete_aggregation(7, "a134".to_string(), true) {
        NextStep::Finished(VerificationResult::Verified((votes, agg))) => {
            assert_eq!(agg, "a134");
            assert_eq!(sorted(votes.keys().cloned().collect()), vec![1, 3, 4]);
            assert_eq!(votes[&1], 11);
        },
        _ => panic!("expected Verified"),
    }
}

#[test]
fn a_new_vote_gives_up_the_step_in_progress() {
    let mut v: Verifier = OptimisticValidatorVerifier::new(validators(4, 3), 2);
    assert!(is_not_enough(&v.verify(1, 7, vec![1], 11, 0)));
    assert!(!v.awaits_aggregation(7));
    expect_aggregate(v.verify(2, 7, vec![2], 12, 0));
    assert!(v.awaits_aggregation(7));
    // The combination was never completed; the next vote asks again.
    let authors = expect_aggregate(v.verify(3, 7, vec![3], 13, 0));
    assert_eq!(authors, vec![1, 2, 3]);
    assert!(v.awaits_aggregation(7));
    // A refused vote leaves the step in progress as it was.
    assert!(matches!(v.verify(9, 7, vec![9], 19, 0), Err(VerifyError::UnknownAuthor)));
    assert!(v.awaits_aggregation(7));
    assert!(matches!(
        v.complete_aggregation(7, "agg".to_string(), true),
        NextStep::Finished(VerificationResult::Verified(_))
    ));
    assert!(!v.awaits_aggregation(7));
    assert!(!v.awaits_individual_checks(7));
}
