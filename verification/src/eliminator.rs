//! Filtering the candidate set against observed feedback.
//!
//! A candidate survives exactly when the guess would color against it to
//! the pattern the player reported. The result is always a subset of the
//! input, and filtering an already-filtered set again changes nothing.

use vstd::prelude::*;
use crate::words::{is_word, all_words};
use crate::errors::SolverError;
use crate::pattern::{LetterStatus, WordStatus, word_status_eq};
use crate::coloring::{color, match_word};

verus! {

/// Does candidate `cand` stay when `g` was played and pattern `p` observed?
pub open spec fn keeps(g: Seq<char>, p: Seq<LetterStatus>) -> spec_fn(String) -> bool {
    |cand: String| color(g, cand@) == p
}

/// The candidates of `ws` whose coloring against guess `g` is exactly the
/// observed pattern `p`, kept in the order they arrived in.
pub open spec fn eliminated(ws: Seq<String>, g: Seq<char>, p: Seq<LetterStatus>) -> Seq<String> {
    ws.filter(keeps(g, p))
}

proof fn lemma_filter_all_true<A>(s: Seq<A>, pred: spec_fn(A) -> bool)
    requires
        forall|i: int| 0 <= i < s.len() ==> pred(#[trigger] s[i]),
    ensures
        s.filter(pred) == s,
    decreases s.len(),
{
    reveal(Seq::filter);
    if s.len() > 0 {
        lemma_filter_all_true(s.drop_last(), pred);
        assert(s.filter(pred) =~= s);
    } else {
        assert(s.filter(pred) =~= s);
    }
}

/// Eliminating is monotonic: the survivors are never more than the input.
pub proof fn lemma_eliminate_monotonic(ws: Seq<String>, g: Seq<char>, p: Seq<LetterStatus>)
    ensures
        eliminated(ws, g, p).len() <= ws.len(),
{
    ws.lemma_filter_len(keeps(g, p));
}

/// Eliminating is idempotent: running the filter again with the same
/// guess and pattern returns the already-filtered set unchanged.
pub proof fn lemma_eliminate_idempotent(ws: Seq<String>, g: Seq<char>, p: Seq<LetterStatus>)
    ensures
        eliminated(eliminated(ws, g, p), g, p) == eliminated(ws, g, p),
{
    let kept = eliminated(ws, g, p);
    assert forall|i: int| 0 <= i < kept.len() implies keeps(g, p)(#[trigger] kept[i]) by {
        ws.lemma_filter_pred(keeps(g, p), i);
    }
    lemma_filter_all_true(kept, keeps(g, p));
}

/// Keeps exactly the candidates whose coloring against the played `word`
/// matches the observed `status`.
pub fn eliminate(possible_words: &mut Vec<String>, word: &str, status: WordStatus)
    requires
        is_word(word@),
        all_words(old(possible_words)@),
    ensures
        final(possible_words)@ == eliminated(old(possible_words)@, word@, status@),
        final(possible_words)@.len() <= old(possible_words)@.len(),
        all_words(final(possible_words)@),
{
    let ghost orig = possible_words@;
    let ghost g = word@;
    let ghost p = status@;
    let mut kept: Vec<String> = Vec::new();
    let mut i: usize = 0;
    while i < possible_words.len()
        invariant
            possible_words@ == orig,
            g == word@,
            p == status@,
            is_word(g),
            all_words(orig),
            i <= orig.len(),
            kept@ == orig.take(i as int).filter(keeps(g, p)),
        decreases orig.len() - i,
    {
        let st = match_word(word, possible_words[i].as_str());
        if word_status_eq(&st, &status) {
            kept.push(possible_words[i].clone());
        }
        proof {
            assert(orig.take(i as int + 1) =~= orig.take(i as int).push(orig[i as int]));
            orig.take(i as int).lemma_filter_push(orig[i as int], keeps(g, p));
        }
        i += 1;
    }
    proof {
        assert(orig.take(orig.len() as int) =~= orig);
        orig.lemma_filter_len(keeps(g, p));
        assert forall|j: int| 0 <= j < kept@.len() implies is_word(#[trigger] kept@[j]@) by {
            let e = kept@[j];
            assert(kept@.contains(e)) by {
                assert(kept@[j] == e);
            }
            kept@.lemma_filter_contains_rev(keeps(g, p), e);
            assert(orig.filter(keeps(g, p)).contains(e));
            orig.lemma_filter_contains_rev(keeps(g, p), e);
            let k = choose|k: int| 0 <= k < orig.len() && orig[k] == e;
            assert(is_word(orig[k]@));
        }
    }
    *possible_words = kept;
}

/// Checked eliminator for the session loop: rejects malformed words, then
/// filters, and reports a filter that left nothing as the feedback
/// contradicting every remaining candidate.
pub fn filter_candidates(possible_words: &Vec<String>, word: &str, status: &WordStatus) -> (r:
    Result<Vec<String>, SolverError>)
    ensures
        match r {
            Ok(v) => {
                &&& is_word(word@)
                &&& all_words(possible_words@)
                &&& v@ == eliminated(possible_words@, word@, status@)
                &&& v@.len() > 0
            },
            Err(e) => {
                ||| (e == SolverError::InvalidWord && !(is_word(word@) && all_words(
                    possible_words@,
                )))
                ||| (e == SolverError::NoConsistentCandidates && is_word(word@) && all_words(
                    possible_words@,
                ) && eliminated(possible_words@, word@, status@).len() == 0)
            },
        },
{
    if !(crate::words::check_word(word) && crate::words::check_words(possible_words)) {
        return Err(SolverError::InvalidWord);
    }
    let mut remaining: Vec<String> = possible_words.clone();
    proof {
        assert forall|i: int| 0 <= i < possible_words@.len() implies remaining@[i]
            == possible_words@[i] by {
            assert(vstd::pervasive::cloned::<String>(possible_words@[i], remaining@[i]));
        }
        assert(remaining@ =~= possible_words@);
    }
    eliminate(&mut remaining, word, *status);
    if remaining.len() == 0 {
        return Err(SolverError::NoConsistentCandidates);
    }
    Ok(remaining)
}

} // verus!
