use work_proof::{Scratch, WorkError, WorkProof};

/// The decimal figure for a raw difficulty.
fn score(raw: u128) -> f64 {
    let pct = raw as f64 / u128::MAX as f64;
    (1.0 / (1.0 - pct)).log10()
}

fn fuzz(f: f64) -> u32 {
    (f * 1000.0) as u32
}

#[test]
fn simple() {
    let mut wp = WorkProof::init(2, &[0xdb; 20], &[0xdb; 32]).unwrap();
    let mut wp1 = wp.remove(0);
    let mut wp2 = wp.remove(0);

    let mut data = Vec::new();

    data.push(fuzz(score(wp1.difficulty())));
    data.push(fuzz(score(wp2.difficulty())));

    wp1.next().unwrap();
    wp2.next().unwrap();

    data.push(fuzz(score(wp1.difficulty())));
    data.push(fuzz(score(wp2.difficulty())));

    let exp: Vec<u32> = vec![148, 249, 705, 70];

    assert_eq!(exp, data);
}

#[test]
fn init_twice_gives_the_same_states() {
    let first = WorkProof::init(3, &[1, 2, 3], &[7; 32]).unwrap();
    let second = WorkProof::init(3, &[1, 2, 3], &[7; 32]).unwrap();
    assert_eq!(first.len(), 3);
    assert_eq!(second.len(), 3);
    for (a, b) in first.iter().zip(second.iter()) {
        assert_eq!(a.proof_bytes(), b.proof_bytes());
        assert_eq!(a.difficulty(), b.difficulty());
    }
}

#[test]
fn init_starts_where_the_partition_says() {
    let states = WorkProof::init(2, &[0xdb; 20], &[0xdb; 32]).unwrap();
    assert_eq!(
        states[0].proof_bytes(),
        vec![232, 37, 222, 33, 203, 95, 40, 60, 37, 217, 115, 235, 12, 47, 28, 11, 27, 171, 213, 248]
    );
    assert_eq!(
        states[1].proof_bytes(),
        vec![29, 25, 61, 180, 203, 174, 143, 154, 245, 78, 34, 72, 202, 202, 255, 64, 58, 228, 198, 222]
    );
}

#[test]
fn init_difficulty_is_what_verify_gives() {
    let hash = [0x5a; 32];
    let states = WorkProof::init(2, &[9, 8, 7, 6], &hash).unwrap();
    for state in states.iter() {
        let again = WorkProof::verify(&state.proof_bytes(), &hash).unwrap();
        assert_eq!(again, state.difficulty());
    }
}

#[test]
fn verify_after_next_gives_what_next_returned() {
    let hash = [0xdb; 32];
    let mut states = WorkProof::init(1, &[0xdb; 20], &hash).unwrap();
    let state = &mut states[0];
    let before = state.proof_bytes();
    let returned = state.next().unwrap();
    assert_eq!(returned, state.difficulty());
    assert_ne!(before, state.proof_bytes());
    let verified = WorkProof::verify(&state.proof_bytes(), &hash).unwrap();
    assert_eq!(verified, returned);
    assert_eq!(fuzz(score(verified)), fuzz(score(returned)));
}

#[test]
fn next_adds_one_to_the_counter_and_keeps_the_tag() {
    let mut states = WorkProof::init(1, &[0], &[1; 32]).unwrap();
    let state = &mut states[0];
    assert_eq!(
        state.proof_bytes(),
        vec![13, 74, 2, 70, 239, 131, 76, 96, 73, 253, 151, 15, 49, 83, 64, 175, 64, 207, 249, 156]
    );
    state.next().unwrap();
    assert_eq!(
        state.proof_bytes(),
        vec![14, 74, 2, 70, 239, 131, 76, 96, 73, 253, 151, 15, 49, 83, 64, 175, 64, 207, 249, 156]
    );
}

#[test]
fn next_wraps_from_the_largest_counter_to_zero() {
    let seed = [
        242, 181, 253, 185, 16, 124, 179, 159, 182, 2, 104, 240, 206, 172, 191, 80, 7, 0, 0, 0,
    ];
    let mut states = WorkProof::init(1, &seed, &[3; 32]).unwrap();
    let state = &mut states[0];
    let mut expected = vec![255u8; 16];
    expected.extend_from_slice(&[71, 207, 249, 156]);
    assert_eq!(state.proof_bytes(), expected);
    state.next().unwrap();
    let mut wrapped = vec![0u8; 16];
    wrapped.extend_from_slice(&[71, 207, 249, 156]);
    assert_eq!(state.proof_bytes(), wrapped);
}

#[test]
fn one_byte_seed_is_that_byte_twenty_times() {
    let hash = [0x11; 32];
    let short = WorkProof::init(2, &[0xAB], &hash).unwrap();
    let long = WorkProof::init(2, &[0xAB; 20], &hash).unwrap();
    assert_eq!(short.len(), long.len());
    for (a, b) in short.iter().zip(long.iter()) {
        assert_eq!(a.proof_bytes(), b.proof_bytes());
        assert_eq!(a.difficulty(), b.difficulty());
    }
}

#[test]
fn no_workers_no_states() {
    let states = WorkProof::init(0, &[1], &[0; 32]).unwrap();
    assert!(states.is_empty());
}

#[test]
fn scratch_is_allocated_on_first_use_and_changes_no_result() {
    let hash = [0xdb; 32];
    let mut scratch = Scratch::new();
    assert!(!scratch.is_allocated());
    let first = WorkProof::verify_with(&mut scratch, &[1; 20], &hash).unwrap();
    assert!(scratch.is_allocated());
    let other = WorkProof::verify_with(&mut scratch, &[2; 20], &hash).unwrap();
    let again = WorkProof::verify_with(&mut scratch, &[1; 20], &hash).unwrap();
    assert_eq!(first, again);
    assert_ne!(first, other);
    assert_eq!(first, WorkProof::verify(&[1; 20], &hash).unwrap());
}

#[test]
fn the_with_forms_agree_with_the_plain_ones() {
    let hash = [0x42; 32];
    let mut scratch = Scratch::new();
    let mut kept = WorkProof::init_with(&mut scratch, 2, &[5, 6], &hash).unwrap();
    let mut plain = WorkProof::init(2, &[5, 6], &hash).unwrap();
    assert!(scratch.is_allocated());
    for (a, b) in kept.iter_mut().zip(plain.iter_mut()) {
        assert_eq!(a.proof_bytes(), b.proof_bytes());
        assert_eq!(a.difficulty(), b.difficulty());
        assert_eq!(a.next_with(&mut scratch), b.next());
        assert_eq!(a.proof_bytes(), b.proof_bytes());
    }
}

#[test]
fn verify_depends_on_the_hash_and_on_the_candidate() {
    let a = WorkProof::verify(&[0; 20], &[0; 32]).unwrap();
    let b = WorkProof::verify(&[0; 20], &[1; 32]).unwrap();
    let mut other = [0u8; 20];
    other[19] = 1;
    let c = WorkProof::verify(&other, &[0; 32]).unwrap();
    assert_ne!(a, b);
    assert_ne!(a, c);
}

#[test]
fn verify_refuses_a_salt_that_argon2_does_not_take() {
    let failed = WorkProof::verify(&[0; 20], &[0; 7]).unwrap_err();
    assert_eq!(failed, WorkError::HashingFailure("salt is too short".to_string()));
    assert_eq!(failed.message(), "salt is too short");
    assert!(WorkProof::verify(&[0; 20], &[0; 8]).is_ok());
    assert!(WorkProof::verify(&[], &[0; 8]).is_ok());
}
