use work_proof::WorkProof;

/// The decimal figure for a raw difficulty.
fn score(raw: u128) -> f64 {
    let pct = raw as f64 / u128::MAX as f64;
    (1.0 / (1.0 - pct)).log10()
}

#[test]
fn score_of_nothing_is_zero() {
    assert_eq!(score(0), 0.0);
}

#[test]
fn score_counts_the_nines() {
    let tenth = u128::MAX / 10;
    assert!((score(tenth * 9) - 1.0).abs() < 1e-9);
    let hundredth = u128::MAX / 100;
    assert!((score(hundredth * 99) - 2.0).abs() < 1e-9);
    assert!((score(u128::MAX / 2) - 0.3010299956639812).abs() < 1e-12);
}

#[test]
fn score_of_the_largest_number_is_infinite() {
    assert!(score(u128::MAX).is_infinite());
    assert!(score(u128::MAX) > 0.0);
}

#[test]
fn score_never_falls_as_the_raw_difficulty_rises() {
    let mut raws: Vec<u128> = vec![0, 1, 2, 255, 256, u128::MAX - 1, u128::MAX];
    for shift in 0..128u32 {
        let bit = 1u128 << shift;
        raws.push(bit);
        raws.push(bit - 1);
        raws.push(u128::MAX - bit);
        raws.push(u128::MAX - (bit - 1));
    }
    let mut walk: u128 = 0x9e37_79b9_7f4a_7c15_f39c_c060_5ced_c835;
    for _ in 0..1000 {
        walk = walk.wrapping_mul(0x2545_f491_4f6c_dd1d).wrapping_add(0x1234_5678_9abc_def1);
        raws.push(walk);
    }
    raws.sort();
    for pair in raws.windows(2) {
        assert!(pair[0] <= pair[1]);
        assert!(score(pair[0]) <= score(pair[1]), "{} and {}", pair[0], pair[1]);
    }
}

#[test]
fn a_harder_proof_has_the_higher_score() {
    let hash = [0xdb; 32];
    let a = WorkProof::verify(&[1; 20], &hash).unwrap();
    let b = WorkProof::verify(&[2; 20], &hash).unwrap();
    assert_eq!(a < b, score(a) < score(b));
}
