use work_proof::{start_points, Input, Scratch, WorkError, WorkProof};

#[test]
fn init_refuses_an_empty_seed() {
    let refused = WorkProof::init(2, &[], &[0; 32]).unwrap_err();
    assert_eq!(refused, WorkError::InvalidInput(Input::Seed));
}

#[test]
fn init_refuses_a_seed_of_twenty_one_bytes() {
    let refused = WorkProof::init(2, &[1; 21], &[0; 32]).unwrap_err();
    assert_eq!(refused, WorkError::InvalidInput(Input::Seed));
}

#[test]
fn init_refuses_a_hash_of_thirty_one_bytes() {
    let refused = WorkProof::init(2, &[1; 20], &[0; 31]).unwrap_err();
    assert_eq!(refused, WorkError::InvalidInput(Input::Hash));
}

#[test]
fn init_refuses_a_hash_of_thirty_three_bytes() {
    let refused = WorkProof::init(2, &[1; 20], &[0; 33]).unwrap_err();
    assert_eq!(refused, WorkError::InvalidInput(Input::Hash));
}

#[test]
fn init_looks_at_the_seed_first() {
    let refused = WorkProof::init(2, &[], &[0; 31]).unwrap_err();
    assert_eq!(refused, WorkError::InvalidInput(Input::Seed));
}

#[test]
fn a_refused_init_allocates_nothing() {
    let mut scratch = Scratch::new();
    assert!(WorkProof::init_with(&mut scratch, 2, &[], &[0; 32]).is_err());
    assert!(WorkProof::init_with(&mut scratch, 2, &[1], &[0; 3]).is_err());
    assert!(!scratch.is_allocated());
}

#[test]
fn start_points_refuses_what_init_refuses() {
    assert_eq!(start_points(1, &[]), Err(WorkError::InvalidInput(Input::Seed)));
    assert_eq!(start_points(1, &[0; 21]), Err(WorkError::InvalidInput(Input::Seed)));
    assert!(start_points(1, &[0; 1]).is_ok());
    assert!(start_points(1, &[0; 20]).is_ok());
}

#[test]
fn each_failure_has_its_message() {
    assert_eq!(
        WorkError::InvalidInput(Input::Seed).message(),
        "seed should be between 1 and 20 bytes"
    );
    assert_eq!(WorkError::InvalidInput(Input::Hash).message(), "hash must be 32 bytes");
    assert_eq!(WorkError::HashingFailure("as given".to_string()).message(), "as given");
}
