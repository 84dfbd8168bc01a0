use std::collections::HashSet;

use brute_force::alphabet::symbol_at;
use brute_force::enumerator::increment_combination;

#[test]
fn alphabet_order_digits_then_lower_then_upper() {
    assert_eq!(symbol_at(0), b'0');
    assert_eq!(symbol_at(9), b'9');
    assert_eq!(symbol_at(10), b'a');
    assert_eq!(symbol_at(35), b'z');
    assert_eq!(symbol_at(36), b'A');
    assert_eq!(symbol_at(61), b'Z');
}

#[test]
fn successor_of_zero_zero_is_zero_one() {
    let mut t: Vec<usize> = vec![0, 0];
    assert!(increment_combination(&mut t, 62));
    assert_eq!(t, vec![0, 1]);
}

#[test]
fn carry_rolls_into_next_position() {
    let mut t: Vec<usize> = vec![0, 61];
    assert!(increment_combination(&mut t, 62));
    assert_eq!(t, vec![1, 0]);
}

#[test]
fn exhaustion_after_last_tuple() {
    let mut t: Vec<usize> = vec![61, 61];
    assert!(!increment_combination(&mut t, 62));
    assert_eq!(t, vec![0, 0]);
}

#[test]
fn base62_length2_enumerates_all_distinct() {
    let mut t: Vec<usize> = vec![0, 0];
    let mut seen: HashSet<Vec<usize>> = HashSet::new();
    let mut count: u64 = 0;
    loop {
        assert!(t.iter().all(|&i| i < 62));
        assert!(seen.insert(t.clone()), "tuple repeated: {:?}", t);
        count += 1;
        if !increment_combination(&mut t, 62) {
            break;
        }
    }
    assert_eq!(count, 62 * 62);
    assert_eq!(seen.len(), 62 * 62);
}

#[test]
fn small_base_enumeration_is_lexicographic() {
    let mut t: Vec<usize> = vec![0, 0];
    let mut order: Vec<Vec<usize>> = Vec::new();
    loop {
        order.push(t.clone());
        if !increment_combination(&mut t, 3) {
            break;
        }
    }
    assert_eq!(order.len(), 9);
    assert_eq!(order[0], vec![0, 0]);
    assert_eq!(order[1], vec![0, 1]);
    assert_eq!(order[8], vec![2, 2]);
    for w in order.windows(2) {
        assert!(w[0] < w[1], "not lexicographically increasing: {:?}", w);
    }
}
