use std::sync::atomic::AtomicBool;

use brute_force::digest::compute_digest;
use brute_force::engine::length_supported;
use brute_force::engine::try_length;
use brute_force::engine::LengthStatus;
use brute_force::engine::SearchEngine;
use brute_force::engine::SearchStatus;

// Candidates of length 1 and 2 over the 62-symbol alphabet.
const SPACE_ONE: u64 = 62;
const SPACE_TWO: u64 = 62 + 62 * 62;

#[test]
fn search_finds_abc_at_its_exact_rank() {
    let engine = SearchEngine::new();
    let target = compute_digest("abc");
    let out = engine.start_search(&target, 3);
    assert!(out.found);
    assert_eq!(out.plaintext, "abc");
    // "abc" spells indices [10, 11, 12]: rank (10 * 62 + 11) * 62 + 12
    // among length-3 candidates, after all shorter ones.
    let rank3: u64 = (10 * 62 + 11) * 62 + 12;
    assert_eq!(out.attempts, SPACE_TWO + rank3 + 1);
    assert!(out.attempts >= SPACE_TWO + 1);
}

#[test]
fn search_finds_the_first_candidate_first() {
    let engine = SearchEngine::new();
    let target = compute_digest("00");
    let out = engine.start_search(&target, 2);
    assert!(out.found);
    assert_eq!(out.plaintext, "00");
    // "00" is the very first candidate of length 2.
    assert_eq!(out.attempts, SPACE_ONE + 1);
}

#[test]
fn search_finds_the_last_single_symbol() {
    let engine = SearchEngine::new();
    let target = compute_digest("Z");
    let out = engine.start_search(&target, 1);
    assert!(out.found);
    assert_eq!(out.plaintext, "Z");
    assert_eq!(out.attempts, SPACE_ONE);
}

#[test]
fn exhaustion_tries_the_whole_space() {
    let engine = SearchEngine::new();
    // A five-symbol plaintext cannot be found among lengths 1 and 2.
    let target = compute_digest("zzzzz");
    let out = engine.start_search(&target, 2);
    assert!(!out.found);
    assert_eq!(out.plaintext, "");
    assert_eq!(out.attempts, SPACE_TWO);
}

#[test]
fn exhaustion_is_reported_as_such_by_the_worker() {
    let engine = SearchEngine::new();
    let target = compute_digest("zzzzz");
    let (status, attempts) = engine.run_search(&target, 2);
    assert!(matches!(status, SearchStatus::Exhausted));
    assert_eq!(attempts, SPACE_TWO);
}

#[test]
fn cancellation_is_seen_at_the_first_checkpoint() {
    let engine = SearchEngine::new();
    engine.cancel_search();
    // The worker does not clear the flag, so a pending cancellation
    // stops it at the very first cadence checkpoint.
    let target = compute_digest("zzzz");
    let (status, attempts) = engine.run_search(&target, 4);
    assert!(matches!(status, SearchStatus::Cancelled));
    assert_eq!(attempts, 0);
}

#[test]
fn cancellation_costs_at_most_one_cadence() {
    let flag = AtomicBool::new(true);
    let target = compute_digest("not among the candidates");
    let mut attempts: u64 = 9999;
    // Between checkpoints the flag is not looked at: one candidate is
    // still hashed, then the checkpoint at the next cadence multiple
    // observes the flag.
    let status = try_length(&target, 5, &mut attempts, &flag);
    assert!(matches!(status, LengthStatus::Cancelled));
    assert_eq!(attempts, 10000);
}

#[test]
fn cancel_is_idempotent_and_safe_without_a_search() {
    let engine = SearchEngine::new();
    engine.cancel_search();
    engine.cancel_search();
    engine.cancel_search();
}

#[test]
fn a_new_search_is_not_pre_cancelled() {
    let engine = SearchEngine::new();
    engine.cancel_search();
    engine.cancel_search();
    // start_search clears the flag, so the earlier cancellations do
    // not leak into the fresh run: it completes normally.
    let target = compute_digest("ab");
    let out = engine.start_search(&target, 2);
    assert!(out.found);
    assert_eq!(out.plaintext, "ab");
    assert_eq!(out.attempts, SPACE_ONE + (10 * 62 + 11) + 1);
}

#[test]
fn a_cancelled_search_leaves_the_next_one_untouched() {
    let engine = SearchEngine::new();
    engine.cancel_search();
    let target_far = compute_digest("zzzz");
    let (status, _) = engine.run_search(&target_far, 4);
    assert!(matches!(status, SearchStatus::Cancelled));
    // The cancelled run consumed the flag's effect; the next full
    // search runs to its normal end.
    let target = compute_digest("7");
    let out = engine.start_search(&target, 1);
    assert!(out.found);
    assert_eq!(out.plaintext, "7");
    assert_eq!(out.attempts, 8);
}

#[test]
fn wrong_shaped_targets_never_match() {
    let engine = SearchEngine::new();
    // Uppercase hex and non-hex text are not validated; they simply
    // run to exhaustion.
    let upper = compute_digest("a").to_uppercase();
    let out = engine.start_search(&upper, 1);
    assert!(!out.found);
    assert_eq!(out.attempts, SPACE_ONE);
    let out = engine.start_search("definitely-not-a-digest", 1);
    assert!(!out.found);
    assert_eq!(out.attempts, SPACE_ONE);
}

#[test]
fn supported_lengths_fit_the_counter() {
    assert!(!length_supported(0));
    assert!(length_supported(1));
    assert!(length_supported(10));
    assert!(!length_supported(11));
    assert!(!length_supported(1_000_000));
}
