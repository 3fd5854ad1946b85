//! Tests of the fuzzy message detection behaviour.

use niwl::tags::RootSecret;

#[test]
fn detection_completeness_every_length() {
    let root = RootSecret::generate();
    let tagging_key = root.tagging_key();
    let tag = tagging_key.generate_tag();
    for n in 1..=24 {
        let dk = root.extract_detection_key(n);
        assert!(dk.test_tag(&tag), "length {} rejected its own tag", n);
    }
}

#[test]
fn unrelated_tags_rejected_at_full_length() {
    let receiver = RootSecret::generate();
    let dk = receiver.extract_detection_key(24);
    let stranger = RootSecret::generate().tagging_key();
    let mut matches = 0;
    for _ in 0..30 {
        if dk.test_tag(&stranger.generate_tag()) {
            matches += 1;
        }
    }
    // Each unrelated tag matches with probability 2^-24.
    assert!(matches <= 1, "unrelated tags matched {} of 30 times", matches);
}

#[test]
fn false_positive_rate_near_half_at_length_one() {
    let receiver = RootSecret::generate();
    let dk = receiver.extract_detection_key(1);
    let stranger = RootSecret::generate().tagging_key();
    let trials = 100;
    let mut matches = 0;
    for _ in 0..trials {
        if dk.test_tag(&stranger.generate_tag()) {
            matches += 1;
        }
    }
    // Expected rate 2^-1; 25..=75 is five standard deviations around 50.
    assert!(
        (25..=75).contains(&matches),
        "{} of {} unrelated tags matched at length 1",
        matches,
        trials
    );
}

#[test]
fn zero_length_detection_key_matches_everything() {
    let receiver = RootSecret::generate();
    let dk = receiver.extract_detection_key(0);
    let stranger = RootSecret::generate().tagging_key();
    for _ in 0..5 {
        assert!(dk.test_tag(&stranger.generate_tag()));
    }
}
