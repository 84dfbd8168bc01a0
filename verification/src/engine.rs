//! The search controller.
//!
//! Drives the odometer enumerator across candidate lengths in
//! ascending order, hashes each candidate, compares the digest to the
//! target, and honours a shared cancellation flag checked once every
//! [`CANCEL_CHECK_CADENCE`] attempts.  The attempt counter ranks the
//! candidates: candidate number `k` (zero-based, shorter lengths
//! first, same-length tuples by value) is hashed at attempt `k + 1`,
//! so the contracts below pin the counter exactly in every outcome.

use vstd::prelude::*;
use vstd::arithmetic::power::pow;
use vstd::arithmetic::power::lemma_pow_positive;
use std::sync::atomic::AtomicBool;
use crate::alphabet::ALPHABET_SIZE;
use crate::alphabet::symbol;
use crate::alphabet::symbol_at;
use crate::alphabet::render;
use crate::alphabet::ascii_chars;
use crate::enumerator::valid_tuple;
use crate::enumerator::combo_val;
use crate::enumerator::increment_combination;
use crate::enumerator::lemma_combo_val_bounds;
use crate::enumerator::lemma_combo_val_injective;
use crate::enumerator::lemma_combo_val_zero;
use crate::digest::md5_hex_of;
use crate::digest::md5_hex;
use crate::digest::ascii_string;

verus! {

/// How many attempts pass between successive looks at the
/// cancellation flag: a throughput/responsiveness tradeoff.
pub const CANCEL_CHECK_CADENCE: u64 = 10000;

/// Number of candidate strings of length at most `max_len`:
/// the sum of `62^l` for `l` from 1 to `max_len`.
pub open spec fn search_space(max_len: nat) -> int
    decreases max_len,
{
    if max_len == 0 {
        0
    } else {
        search_space((max_len - 1) as nat) + pow(ALPHABET_SIZE as int, max_len)
    }
}

/// Whether the candidate spelled by tuple `t` hashes to `target`.
pub open spec fn tuple_matches(t: Seq<usize>, target: Seq<char>) -> bool {
    md5_hex_of(render(t)) == target
}

/// Zero-based position of tuple `t`'s candidate in the overall search
/// order: every shorter candidate comes first, then the tuples of
/// `t`'s own length in value order.
pub open spec fn global_rank(t: Seq<usize>) -> int {
    search_space((t.len() - 1) as nat) + combo_val(t, ALPHABET_SIZE as int)
}

/// The first `n` candidates of the search order all miss the target.
pub open spec fn no_match_below(target: Seq<char>, n: int) -> bool {
    forall|t: Seq<usize>|
        1 <= t.len() && valid_tuple(t, ALPHABET_SIZE as int) && global_rank(t) < n ==> !(
        #[trigger] tuple_matches(t, target))
}

/// Among the candidates of one length, the first `below` (by tuple
/// value) all miss the target.
pub open spec fn no_match_in_length(target: Seq<char>, len: nat, below: int) -> bool {
    forall|t: Seq<usize>|
        t.len() == len && valid_tuple(t, ALPHABET_SIZE as int) && combo_val(
            t,
            ALPHABET_SIZE as int,
        ) < below ==> !(#[trigger] tuple_matches(t, target))
}

/// The attempt count sits exactly at the end of some fully enumerated
/// length.
pub open spec fn at_length_boundary(n: int, max_len: nat) -> bool {
    exists|l: nat| 1 <= l <= max_len && n == #[trigger] search_space(l)
}

/// What a successful search reports: the rendering of a matching
/// tuple, reached after exactly `attempts` digest computations, with
/// every candidate enumerated before it having missed — the plaintext
/// is the canonically first match.
pub open spec fn found_plaintext(
    p: Seq<char>,
    target: Seq<char>,
    max_len: nat,
    attempts: u64,
) -> bool {
    exists|t: Seq<usize>|
        {
            &&& 1 <= t.len() <= max_len
            &&& valid_tuple(t, ALPHABET_SIZE as int)
            &&& #[trigger] tuple_matches(t, target)
            &&& p == ascii_chars(render(t))
            &&& attempts == global_rank(t) + 1
            &&& no_match_below(target, global_rank(t))
        }
}

/// The search space never shrinks as the length bound grows.
pub proof fn lemma_search_space_monotonic(a: nat, b: nat)
    requires
        a <= b,
    ensures
        search_space(a) <= search_space(b),
    decreases b,
{
    if a < b {
        lemma_search_space_monotonic(a, (b - 1) as nat);
        lemma_pow_positive(ALPHABET_SIZE as int, b);
    }
}

/// The search space is never negative.
pub proof fn lemma_search_space_nonneg(n: nat)
    ensures
        search_space(n) >= 0,
{
    lemma_search_space_monotonic(0, n);
}

/// A search space that fits the attempt counter comes from a small
/// length bound: eleven or more lengths already hold more candidates
/// than a 64-bit counter can tell apart.
pub proof fn lemma_supported_length_is_small(n: nat)
    requires
        search_space(n) <= u64::MAX,
    ensures
        n <= 10,
{
    if n >= 11 {
        lemma_search_space_nonneg(10);
        lemma_search_space_monotonic(11, n);
        assert(search_space(11) == search_space(10) + pow(ALPHABET_SIZE as int, 11));
        lemma_alphabet_power_anchors();
    }
}

/// Result of enumerating one candidate length.
pub enum LengthStatus {
    /// A candidate's digest equals the target; its rendered bytes are
    /// carried out.
    Found(Vec<u8>),
    /// Every candidate of the length was hashed and none matched.
    Exhausted,
    /// The cancellation flag was observed set at a cadence checkpoint.
    Cancelled,
}

/// How a whole search invocation ended.  A caller-facing outcome does
/// not distinguish exhaustion from cancellation; this status does, so
/// that each can carry its exact accounting.
pub enum SearchStatus {
    /// The recovered plaintext.
    Found(String),
    /// All lengths up to the bound were enumerated without a match.
    Exhausted,
    /// The cancellation flag stopped the search early.
    Cancelled,
}

/// Terminal record of one search invocation.
pub struct SearchOutcome {
    /// Whether a candidate's digest matched the target.
    pub found: bool,
    /// The matching candidate, or empty when none was found.
    pub plaintext: String,
    /// Digest computations performed before termination.
    pub attempts: u64,
    /// Wall-clock time the search took, in milliseconds.
    pub time_ms: u64,
}

/// Enumerates every candidate of one length in odometer order,
/// hashing and comparing each, with a cancellation check every
/// [`CANCEL_CHECK_CADENCE`] attempts (the counter is global across
/// lengths, so checkpoints land on global multiples of the cadence).
pub fn try_length(
    target: &String,
    length: usize,
    attempts: &mut u64,
    cancel: &AtomicBool,
) -> (res: LengthStatus)
    requires
        1 <= length,
        *old(attempts) + pow(ALPHABET_SIZE as int, length as nat) <= u64::MAX,
    ensures
        (match res {
            LengthStatus::Found(p) => exists|t: Seq<usize>|
                {
                    &&& t.len() == length
                    &&& valid_tuple(t, ALPHABET_SIZE as int)
                    &&& #[trigger] tuple_matches(t, target@)
                    &&& p@ == render(t)
                    &&& *final(attempts) == *old(attempts) + combo_val(t, ALPHABET_SIZE as int) + 1
                    &&& no_match_in_length(target@, length as nat, combo_val(t, ALPHABET_SIZE as int))
                },
            LengthStatus::Exhausted => {
                &&& *final(attempts) == *old(attempts) + pow(ALPHABET_SIZE as int, length as nat)
                &&& no_match_in_length(
                    target@,
                    length as nat,
                    pow(ALPHABET_SIZE as int, length as nat),
                )
            },
            LengthStatus::Cancelled => {
                &&& *old(attempts) <= *final(attempts)
                &&& *final(attempts) - *old(attempts) < pow(ALPHABET_SIZE as int, length as nat)
                &&& *final(attempts) % CANCEL_CHECK_CADENCE == 0
                &&& no_match_in_length(
                    target@,
                    length as nat,
                    *final(attempts) - *old(attempts),
                )
            },
        }),
{
    let ghost a0: u64 = *attempts;
    proof {
        lemma_pow_positive(ALPHABET_SIZE as int, length as nat);
    }
    let mut current: Vec<usize> = Vec::new();
    let mut k: usize = 0;
    while k < length
        invariant
            k <= length,
            current@.len() == k,
            forall|j: int| 0 <= j < k ==> (#[trigger] current@[j]) == 0,
        decreases length - k,
    {
        current.push(0);
        k = k + 1;
    }
    proof {
        lemma_combo_val_zero(current@, ALPHABET_SIZE as int);
        assert(valid_tuple(current@, ALPHABET_SIZE as int));
        assert(no_match_in_length(target@, length as nat, 0)) by {
            assert forall|t2: Seq<usize>|
                t2.len() == length && valid_tuple(t2, ALPHABET_SIZE as int) && combo_val(
                    t2,
                    ALPHABET_SIZE as int,
                ) < 0 implies !(#[trigger] tuple_matches(t2, target@)) by {
                lemma_combo_val_bounds(t2, ALPHABET_SIZE as int);
            }
        }
    }
    loop
        invariant
            current@.len() == length,
            1 <= length,
            a0 == *old(attempts),
            valid_tuple(current@, ALPHABET_SIZE as int),
            a0 + pow(ALPHABET_SIZE as int, length as nat) <= u64::MAX,
            *attempts == a0 + combo_val(current@, ALPHABET_SIZE as int),
            0 <= combo_val(current@, ALPHABET_SIZE as int) < pow(
                ALPHABET_SIZE as int,
                length as nat,
            ),
            no_match_in_length(target@, length as nat, combo_val(current@, ALPHABET_SIZE as int)),
        decreases pow(ALPHABET_SIZE as int, length as nat) - combo_val(
            current@,
            ALPHABET_SIZE as int,
        ),
    {
        let ghost k_val: int = combo_val(current@, ALPHABET_SIZE as int);
        if *attempts % CANCEL_CHECK_CADENCE == 0 && cancel.load(
            std::sync::atomic::Ordering::Relaxed,
        ) {
            return LengthStatus::Cancelled;
        }
        let mut text: Vec<u8> = Vec::new();
        let mut j: usize = 0;
        while j < length
            invariant
                j <= length,
                current@.len() == length,
                valid_tuple(current@, ALPHABET_SIZE as int),
                text@.len() == j,
                forall|m: int| 0 <= m < j ==> (#[trigger] text@[m]) == symbol(current@[m] as int),
            decreases length - j,
        {
            let s = symbol_at(current[j]);
            text.push(s);
            j = j + 1;
        }
        proof {
            assert(text@ =~= render(current@)) by {
                assert forall|m: int| 0 <= m < length implies text@[m] == render(current@)[m] by {
                    assert(render(current@)[m] == symbol(current@[m] as int));
                }
            }
        }
        let hash = md5_hex(text.as_slice());
        *attempts = *attempts + 1;
        if hash.eq(target) {
            proof {
                assert(tuple_matches(current@, target@));
            }
            return LengthStatus::Found(text);
        }
        proof {
            assert forall|t2: Seq<usize>|
                t2.len() == length && valid_tuple(t2, ALPHABET_SIZE as int) && combo_val(
                    t2,
                    ALPHABET_SIZE as int,
                ) < k_val + 1 implies !(#[trigger] tuple_matches(t2, target@)) by {
                if combo_val(t2, ALPHABET_SIZE as int) == k_val {
                    lemma_combo_val_injective(t2, current@, ALPHABET_SIZE as int);
                }
            }
        }
        if !increment_combination(&mut current, ALPHABET_SIZE) {
            return LengthStatus::Exhausted;
        }
        proof {
            lemma_combo_val_bounds(current@, ALPHABET_SIZE as int);
        }
    }
}

/// The search controller: owns the shared cancellation flag and runs
/// one search at a time against it.
pub struct SearchEngine {
    cancel: AtomicBool,
}

impl SearchEngine {
    /// Creates a controller whose cancellation flag starts clear.
    pub fn new() -> SearchEngine {
        SearchEngine { cancel: AtomicBool::new(false) }
    }

    /// Requests cancellation of the running search: sets the shared
    /// flag and returns at once, without waiting for the search to
    /// observe it.  Idempotent, and harmless when no search is
    /// running — every new search begins by clearing the flag.
    pub fn cancel_search(&self) {
        self.cancel.store(true, std::sync::atomic::Ordering::Relaxed);
    }

    /// The search proper, from a worker's point of view: runs the
    /// lengths in ascending order against whatever state the
    /// cancellation flag is in (it does not clear the flag — that is
    /// [`Self::start_search`]'s first step).
    ///
    /// Returns the status and the number of digest computations made.
    /// On `Found` the plaintext is the canonically first match and the
    /// counter equals its rank plus one; on `Exhausted` the counter
    /// equals the whole search space and every candidate missed; on
    /// `Cancelled` the counter sits at a cadence checkpoint or at a
    /// length boundary, and everything tried so far missed.
    pub fn run_search(&self, target_hash: &str, max_length: usize) -> (r: (SearchStatus, u64))
        requires
            1 <= max_length,
            search_space(max_length as nat) <= u64::MAX,
        ensures
            (match r.0 {
                SearchStatus::Found(p) => found_plaintext(
                    p@,
                    target_hash@,
                    max_length as nat,
                    r.1,
                ),
                SearchStatus::Exhausted => r.1 == search_space(max_length as nat)
                    && no_match_below(target_hash@, r.1 as int),
                SearchStatus::Cancelled => {
                    &&& r.1 <= search_space(max_length as nat)
                    &&& no_match_below(target_hash@, r.1 as int)
                    &&& (r.1 % CANCEL_CHECK_CADENCE == 0 || at_length_boundary(
                        r.1 as int,
                        max_length as nat,
                    ))
                },
            }),
    {
        let target: String = target_hash.to_owned();
        let mut attempts: u64 = 0;
        let mut length: usize = 1;
        proof {
            assert(no_match_below(target_hash@, 0)) by {
                assert forall|t: Seq<usize>|
                    1 <= t.len() && valid_tuple(t, ALPHABET_SIZE as int) && global_rank(t)
                        < 0 implies !(#[trigger] tuple_matches(t, target_hash@)) by {
                    lemma_search_space_nonneg((t.len() - 1) as nat);
                    lemma_combo_val_bounds(t, ALPHABET_SIZE as int);
                }
            }
            lemma_supported_length_is_small(max_length as nat);
        }
        while length <= max_length
            invariant
                1 <= length <= max_length + 1,
                max_length <= 10,
                search_space(max_length as nat) <= u64::MAX,
                attempts == search_space((length - 1) as nat),
                no_match_below(target_hash@, attempts as int),
                target@ == target_hash@,
            decreases max_length + 1 - length,
        {
            let ghost l: nat = length as nat;
            proof {
                lemma_search_space_monotonic(l, max_length as nat);
                assert(search_space(l) == search_space((l - 1) as nat) + pow(
                    ALPHABET_SIZE as int,
                    l,
                ));
            }
            let st = try_length(&target, length, &mut attempts, &self.cancel);
            match st {
                LengthStatus::Found(text) => {
                    let ghost t = choose|t: Seq<usize>|
                        {
                            &&& t.len() == length
                            &&& valid_tuple(t, ALPHABET_SIZE as int)
                            &&& #[trigger] tuple_matches(t, target@)
                            &&& text@ == render(t)
                            &&& attempts == search_space((l - 1) as nat) + combo_val(
                                t,
                                ALPHABET_SIZE as int,
                            ) + 1
                            &&& no_match_in_length(
                                target@,
                                l,
                                combo_val(t, ALPHABET_SIZE as int),
                            )
                        };
                    proof {
                        lemma_combo_val_bounds(t, ALPHABET_SIZE as int);
                        lemma_extend_no_match(
                            target_hash@,
                            l,
                            combo_val(t, ALPHABET_SIZE as int),
                        );
                        assert forall|i: int| 0 <= i < text@.len() implies text@[i] < 128 by {
                            assert(text@[i] == symbol(t[i] as int));
                        }
                    }
                    let plain = ascii_string(text);
                    proof {
                        assert(global_rank(t) == search_space((l - 1) as nat) + combo_val(
                            t,
                            ALPHABET_SIZE as int,
                        ));
                        assert(tuple_matches(t, target_hash@));
                        assert(found_plaintext(
                            plain@,
                            target_hash@,
                            max_length as nat,
                            attempts,
                        ));
                    }
                    return (SearchStatus::Found(plain), attempts);
                }
                LengthStatus::Cancelled => {
                    proof {
                        lemma_extend_no_match(
                            target_hash@,
                            l,
                            attempts - search_space((l - 1) as nat),
                        );
                        lemma_search_space_monotonic(l, max_length as nat);
                    }
                    return (SearchStatus::Cancelled, attempts);
                }
                LengthStatus::Exhausted => {
                    proof {
                        lemma_pow_positive(ALPHABET_SIZE as int, l);
                        lemma_extend_no_match(
                            target_hash@,
                            l,
                            pow(ALPHABET_SIZE as int, l),
                        );
                        assert(attempts == search_space(l));
                    }
                    if self.cancel.load(std::sync::atomic::Ordering::Relaxed) {
                        proof {
                            assert(at_length_boundary(attempts as int, max_length as nat)) by {
                                assert(1 <= l <= max_length as nat && attempts == search_space(l));
                            }
                        }
                        return (SearchStatus::Cancelled, attempts);
                    }
                }
            }
            length = length + 1;
        }
        (SearchStatus::Exhausted, attempts)
    }

    /// One full search invocation, as a caller sees it: clears the
    /// cancellation flag (fresh-run semantics), records a start
    /// timestamp, runs every length from 1 to `max_length`, and
    /// reports the outcome.
    ///
    /// On success the plaintext is the canonically first candidate
    /// whose digest equals the target, and `attempts` is exactly its
    /// rank plus one.  Otherwise the plaintext is empty and every one
    /// of the `attempts` candidates tried missed; exhaustion and
    /// cancellation look the same, except that after exhaustion
    /// `attempts` equals the whole search space, which certifies that
    /// no candidate up to `max_length` matches.
    pub fn start_search(&self, target_hash: &str, max_length: usize) -> (out: SearchOutcome)
        requires
            1 <= max_length,
            search_space(max_length as nat) <= u64::MAX,
        ensures
            out.found ==> found_plaintext(
                out.plaintext@,
                target_hash@,
                max_length as nat,
                out.attempts,
            ),
            !out.found ==> ({
                &&& out.plaintext@ == Seq::<char>::empty()
                &&& out.attempts <= search_space(max_length as nat)
                &&& no_match_below(target_hash@, out.attempts as int)
            }),
    {
        self.cancel.store(false, std::sync::atomic::Ordering::Relaxed);
        let start = std::time::Instant::now();
        let r = self.run_search(target_hash, max_length);
        let elapsed = start.elapsed();
        let ms = elapsed.as_millis();
        let time_ms: u64 = if ms > (u64::MAX as u128) {
            u64::MAX
        } else {
            ms as u64
        };
        match r {
            (SearchStatus::Found(p), attempts) => SearchOutcome {
                found: true,
                plaintext: p,
                attempts,
                time_ms,
            },
            (SearchStatus::Exhausted, attempts) => SearchOutcome {
                found: false,
                plaintext: String::new(),
                attempts,
                time_ms,
            },
            (SearchStatus::Cancelled, attempts) => SearchOutcome {
                found: false,
                plaintext: String::new(),
                attempts,
                time_ms,
            },
        }
    }
}

/// Whether a maximum length is within the attempt counter's budget:
/// positive, with a full search space that a 64-bit counter can hold.
/// What a caller tests before starting a search.
pub fn length_supported(max_length: usize) -> (ok: bool)
    ensures
        ok == (1 <= max_length && search_space(max_length as nat) <= u64::MAX),
{
    if max_length == 0 {
        return false;
    }
    if max_length > 10 {
        proof {
            if search_space(max_length as nat) <= u64::MAX {
                lemma_supported_length_is_small(max_length as nat);
            }
        }
        return false;
    }
    let mut acc: u64 = 0;
    let mut term: u64 = 1;
    let mut l: usize = 0;
    proof {
        lemma_alphabet_power_anchors();
        reveal(pow);
    }
    while l < max_length
        invariant
            l <= max_length <= 10,
            term == pow(ALPHABET_SIZE as int, l as nat),
            acc == search_space(l as nat),
            search_space(10) <= u64::MAX,
        decreases max_length - l,
    {
        proof {
            lemma_pow_bound_ten(l as nat);
            lemma_search_space_monotonic((l + 1) as nat, 10);
        }
        term = term * 62;
        acc = acc + term;
        l = l + 1;
    }
    proof {
        lemma_search_space_monotonic(max_length as nat, 10);
    }
    true
}

/// Powers of the alphabet size up to the tenth stay within the
/// attempt counter.
proof fn lemma_pow_bound_ten(l: nat)
    requires
        l < 10,
    ensures
        pow(ALPHABET_SIZE as int, (l + 1) as nat) <= pow(ALPHABET_SIZE as int, 10),
        pow(ALPHABET_SIZE as int, 10) <= u64::MAX,
        pow(ALPHABET_SIZE as int, (l + 1) as nat) == pow(ALPHABET_SIZE as int, l) * 62,
{
    lemma_alphabet_power_anchors();
    vstd::arithmetic::power::lemma_pow_increases(ALPHABET_SIZE as nat, (l + 1) as nat, 10);
    reveal(pow);
    assert(pow(ALPHABET_SIZE as int, (l + 1) as nat) == ALPHABET_SIZE as int * pow(
        ALPHABET_SIZE as int,
        l,
    ));
}

/// Numeric anchors: the tenth power of the alphabet size and the
/// ten-length search space fit a 64-bit attempt counter, while the
/// eleventh power already does not.
proof fn lemma_alphabet_power_anchors()
    ensures
        pow(ALPHABET_SIZE as int, 10) <= u64::MAX,
        pow(ALPHABET_SIZE as int, 11) > u64::MAX,
        search_space(10) <= u64::MAX,
{
    reveal_with_fuel(pow, 12);
    reveal_with_fuel(search_space, 11);
    assert(pow(ALPHABET_SIZE as int, 10) == 839299365868340224);
    assert(pow(ALPHABET_SIZE as int, 11) == 52036560683837093888);
    assert(search_space(10) == 853058371866181866);
}

/// Candidates of lengths before `l`, and the first `d` candidates of
/// length `l` itself, all missing the target extends the global
/// no-match prefix across the length boundary.
proof fn lemma_extend_no_match(target: Seq<char>, l: nat, d: int)
    requires
        1 <= l,
        0 <= d <= pow(ALPHABET_SIZE as int, l),
        no_match_below(target, search_space((l - 1) as nat)),
        no_match_in_length(target, l, d),
    ensures
        no_match_below(target, search_space((l - 1) as nat) + d),
{
    let b = ALPHABET_SIZE as int;
    assert forall|t: Seq<usize>|
        1 <= t.len() && valid_tuple(t, b) && global_rank(t) < search_space((l - 1) as nat)
            + d implies !(#[trigger] tuple_matches(t, target)) by {
        lemma_combo_val_bounds(t, b);
        if t.len() < l {
            assert(search_space(t.len() as nat) == search_space((t.len() - 1) as nat) + pow(
                b,
                t.len() as nat,
            ));
            lemma_search_space_monotonic(t.len() as nat, (l - 1) as nat);
            assert(global_rank(t) < search_space((l - 1) as nat));
        } else if t.len() == l {
            assert(combo_val(t, b) < d);
        } else {
            lemma_search_space_monotonic(l, (t.len() - 1) as nat);
            assert(search_space(l) == search_space((l - 1) as nat) + pow(b, l));
            assert(false);
        }
    }
}

} // verus!
