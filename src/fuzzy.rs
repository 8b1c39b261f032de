//! Fuzzy matching of a hypothesis against the known phrases.
//!
//! Similarity scores are Jaro-Winkler values in `[0, 1]`. They travel as the
//! bit patterns of their IEEE-754 binary64 representation: for values that
//! are never negative, the integer order of the bit patterns is the order of
//! the values, so comparisons on the `u64` are comparisons of the scores.

use vstd::prelude::*;

verus! {

/// Bit pattern of the binary64 value nearest to ninety-one hundredths: a
/// phrase qualifies as a fuzzy match only with a score strictly above it.
pub const FUZZY_THRESHOLD_BITS: u64 = 0x3fed_1eb8_51eb_851f;

/// Bit pattern of the Jaro-Winkler similarity of two strings.
pub uninterp spec fn similarity_bits(a: Seq<char>, b: Seq<char>) -> u64;

/// Relies on `strsim::jaro_winkler`, which returns a value in `[0, 1]` (never
/// negative, never NaN) that depends on the two strings alone; the value is
/// handed back as its bit pattern.
#[verifier::external_body]
fn jaro_winkler_bits(a: &str, b: &str) -> (r: u64)
    ensures
        r == similarity_bits(a@, b@),
{
    strsim::jaro_winkler(a, b).to_bits()
}

/// A score that clears the fuzzy threshold.
pub open spec fn qualifies(score: u64) -> bool {
    score > FUZZY_THRESHOLD_BITS
}

/// Some score in `scores` clears the threshold.
pub open spec fn any_qualifies(scores: Seq<u64>) -> bool {
    exists|j: int| 0 <= j < scores.len() && #[trigger] qualifies(scores[j])
}

/// Index `i` holds the winning fuzzy candidate: its score qualifies, every
/// earlier score is strictly lower and no later score is higher. Ties on the
/// best score go to the earliest phrase, which makes the choice deterministic.
pub open spec fn is_best_match(scores: Seq<u64>, i: int) -> bool {
    &&& 0 <= i < scores.len()
    &&& qualifies(scores[i])
    &&& forall|j: int| 0 <= j < i ==> #[trigger] scores[j] < scores[i]
    &&& forall|j: int| i < j < scores.len() ==> #[trigger] scores[j] <= scores[i]
}

/// There is at most one winning candidate.
pub proof fn lemma_best_match_unique(scores: Seq<u64>, i: int, k: int)
    requires
        is_best_match(scores, i),
        is_best_match(scores, k),
    ensures
        i == k,
{
    if i < k {
        assert(scores[i] < scores[k]);
    } else if k < i {
        assert(scores[k] < scores[i]);
    }
}

/// Whenever some score qualifies, a winning candidate exists.
pub proof fn lemma_best_match_exists(scores: Seq<u64>)
    requires
        any_qualifies(scores),
    ensures
        exists|i: int| #[trigger] is_best_match(scores, i),
    decreases scores.len(),
{
    let n = scores.len() - 1;
    let pre = scores.drop_last();
    if any_qualifies(pre) {
        let j0 = choose|j: int| 0 <= j < pre.len() && #[trigger] qualifies(pre[j]);
        assert(qualifies(pre[j0]));
        lemma_best_match_exists(pre);
        let b = choose|i: int| #[trigger] is_best_match(pre, i);
        if scores[n] > scores[b] {
            assert forall|j: int| 0 <= j < n implies #[trigger] scores[j] < scores[n] by {
                assert(pre[j] == scores[j]);
                if j < b {
                    assert(pre[j] < pre[b]);
                } else if j > b {
                    assert(pre[j] <= pre[b]);
                }
            }
            assert(is_best_match(scores, n));
        } else {
            assert forall|j: int| 0 <= j < b implies #[trigger] scores[j] < scores[b] by {
                assert(pre[j] < pre[b]);
            }
            assert forall|j: int| b < j < scores.len() implies #[trigger] scores[j] <= scores[b] by {
                if j < n {
                    assert(pre[j] <= pre[b]);
                }
            }
            assert(is_best_match(scores, b));
        }
    } else {
        let j0 = choose|j: int| 0 <= j < scores.len() && #[trigger] qualifies(scores[j]);
        if j0 < n {
            assert(qualifies(pre[j0]));
        }
        assert forall|j: int| 0 <= j < n implies #[trigger] scores[j] < scores[n] by {
            assert(pre[j] == scores[j]);
            assert(!qualifies(pre[j]));
        }
        assert(is_best_match(scores, n));
    }
}

/// The scores of `text` against each phrase, in phrase order.
pub open spec fn scores_against(text: Seq<char>, phrases: Seq<Seq<char>>) -> Seq<u64> {
    Seq::new(phrases.len(), |i: int| similarity_bits(text, phrases[i]))
}

/// Picks the winning candidate from a list of scores, if any qualifies.
pub fn best_scored_match(scores: &Vec<u64>) -> (r: Option<usize>)
    ensures
        r.is_none() <==> !any_qualifies(scores@),
        r matches Some(i) ==> is_best_match(scores@, i as int),
{
    let mut best: Option<usize> = None;
    let mut j: usize = 0;
    while j < scores.len()
        invariant
            j <= scores.len(),
            best.is_none() ==> forall|k: int| 0 <= k < j ==> !#[trigger] qualifies(scores@[k]),
            best matches Some(b) ==> {
                &&& b < j
                &&& qualifies(scores@[b as int])
                &&& forall|k: int| 0 <= k < b ==> #[trigger] scores@[k] < scores@[b as int]
                &&& forall|k: int| b < k < j ==> #[trigger] scores@[k] <= scores@[b as int]
            },
        decreases scores.len() - j,
    {
        let s = scores[j];
        assert(s == scores@[j as int]);
        if s > FUZZY_THRESHOLD_BITS {
            match best {
                None => {
                    assert forall|k: int| 0 <= k < j implies #[trigger] scores@[k] < s by {
                        assert(!qualifies(scores@[k]));
                    }
                    best = Some(j);
                },
                Some(b) => {
                    if s > scores[b] {
                        assert forall|k: int| 0 <= k < j implies #[trigger] scores@[k] < s by {
                            if k < b {
                                assert(scores@[k] < scores@[b as int]);
                            } else if k > b {
                                assert(scores@[k] <= scores@[b as int]);
                            }
                        }
                        best = Some(j);
                    }
                },
            }
        }
        assert(qualifies(s) ==> best.is_some());
        j += 1;
    }
    proof {
        if let Some(b) = best {
            assert(qualifies(scores@[b as int]));
        }
    }
    best
}

/// Scores `text` against each phrase.
pub fn score_all(text: &str, phrases: &Vec<String>) -> (r: Vec<u64>)
    ensures
        r@ == scores_against(text@, phrases@.map_values(|p: String| p@)),
{
    let ghost ps = phrases@.map_values(|p: String| p@);
    let mut scores: Vec<u64> = Vec::new();
    let mut i: usize = 0;
    while i < phrases.len()
        invariant
            i <= phrases.len(),
            ps == phrases@.map_values(|p: String| p@),
            scores@ =~= scores_against(text@, ps).subrange(0, i as int),
        decreases phrases.len() - i,
    {
        let s = jaro_winkler_bits(text, phrases[i].as_str());
        scores.push(s);
        i += 1;
    }
    assert(scores@ =~= scores_against(text@, ps));
    scores
}

/// Finds the phrase that `text` matches best, by Jaro-Winkler similarity.
pub fn best_fuzzy_match(text: &str, phrases: &Vec<String>) -> (r: Option<usize>)
    ensures
        r.is_none() <==> !any_qualifies(scores_against(text@, phrases@.map_values(|p: String| p@))),
        r matches Some(i) ==> is_best_match(
            scores_against(text@, phrases@.map_values(|p: String| p@)),
            i as int,
        ),
{
    let scores = score_all(text, phrases);
    best_scored_match(&scores)
}

} // verus!
