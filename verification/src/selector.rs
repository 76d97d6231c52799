//! Choosing the allowed guess with the lowest score.
//!
//! Ties break toward the earliest entry of the allowed-guess list, so the
//! result is a function of the input lists alone.

use vstd::prelude::*;
use crate::words::all_words;
use crate::errors::SolverError;
use crate::scoring::{score_num, get_exp_of_word};

verus! {

/// The index the selector picks among the first `n` allowed guesses:
/// the leftmost one whose score is minimal.
pub open spec fn best_index(g: Seq<String>, ws: Seq<String>, n: int) -> int
    decreases n,
{
    if n <= 1 {
        0
    } else {
        let b = best_index(g, ws, n - 1);
        if score_num(g[n - 1]@, ws) < score_num(g[b]@, ws) {
            n - 1
        } else {
            b
        }
    }
}

/// Index `i` holds a guess of minimal score, and every earlier guess
/// scores strictly worse: the selector's tie-break policy.
pub open spec fn is_first_minimum(g: Seq<String>, ws: Seq<String>, i: int) -> bool {
    &&& 0 <= i < g.len()
    &&& forall|j: int|
        0 <= j < g.len() ==> #[trigger] score_num(g[j]@, ws) >= score_num(g[i]@, ws)
    &&& forall|j: int| 0 <= j < i ==> #[trigger] score_num(g[j]@, ws) > score_num(g[i]@, ws)
}

proof fn lemma_best_index_first_min(g: Seq<String>, ws: Seq<String>, n: int)
    requires
        1 <= n <= g.len(),
    ensures
        ({
            let b = best_index(g, ws, n);
            &&& 0 <= b < n
            &&& forall|j: int|
                0 <= j < n ==> #[trigger] score_num(g[j]@, ws) >= score_num(g[b]@, ws)
            &&& forall|j: int| 0 <= j < b ==> #[trigger] score_num(g[j]@, ws) > score_num(g[b]@, ws)
        }),
    decreases n,
{
    if n > 1 {
        lemma_best_index_first_min(g, ws, n - 1);
    }
}

/// The selector is deterministic: only one index can be the first
/// minimum, so identical inputs always name the same guess and score.
pub proof fn lemma_selector_deterministic(g: Seq<String>, ws: Seq<String>, i1: int, i2: int)
    requires
        is_first_minimum(g, ws, i1),
        is_first_minimum(g, ws, i2),
    ensures
        i1 == i2,
{
    if i1 < i2 {
        assert(score_num(g[i1]@, ws) > score_num(g[i2]@, ws));
        assert(score_num(g[i1]@, ws) >= score_num(g[i2]@, ws));
    }
    if i2 < i1 {
        assert(score_num(g[i2]@, ws) > score_num(g[i1]@, ws));
    }
}

/// Returns the allowed guess with the lowest score against the candidate
/// set, and that score; the first minimum wins on ties.
pub fn get_best_word<'a>(allowed_words: &'a Vec<String>, possible_words: &Vec<String>) -> (r: (
    &'a String,
    u64,
))
    requires
        all_words(allowed_words@),
        all_words(possible_words@),
        1 <= allowed_words@.len(),
        1 <= possible_words@.len() <= 0xFFFF_FFFF,
    ensures
        ({
            let b = best_index(allowed_words@, possible_words@, allowed_words@.len() as int);
            &&& *r.0 == allowed_words@[b]
            &&& r.1 == score_num(allowed_words@[b]@, possible_words@)
            &&& is_first_minimum(allowed_words@, possible_words@, b)
        }),
{
    let ghost gl = allowed_words@;
    let ghost ws = possible_words@;
    let mut best_i: usize = 0;
    let mut best_exp: u64 = get_exp_of_word(allowed_words[0].as_str(), possible_words);
    let mut i: usize = 1;
    while i < allowed_words.len()
        invariant
            gl == allowed_words@,
            ws == possible_words@,
            all_words(gl),
            all_words(ws),
            1 <= ws.len() <= 0xFFFF_FFFF,
            1 <= i <= gl.len(),
            best_i as int == best_index(gl, ws, i as int),
            best_i < i,
            best_exp == score_num(gl[best_i as int]@, ws),
        decreases gl.len() - i,
    {
        let exp = get_exp_of_word(allowed_words[i].as_str(), possible_words);
        if exp < best_exp {
            best_i = i;
            best_exp = exp;
        }
        i += 1;
    }
    proof {
        lemma_best_index_first_min(gl, ws, gl.len() as int);
    }
    (&allowed_words[best_i], best_exp)
}

/// Checked selector for the session loop: rejects an empty allowed-guess
/// list, an empty candidate set, and malformed words, in that order, and
/// otherwise returns the same guess and score as `get_best_word`.
pub fn best_guess(allowed_words: &Vec<String>, possible_words: &Vec<String>) -> (r: Result<
    (String, u64),
    SolverError,
>)
    requires
        possible_words@.len() <= 0xFFFF_FFFF,
    ensures
        match r {
            Ok(p) => {
                &&& allowed_words@.len() >= 1
                &&& possible_words@.len() >= 1
                &&& all_words(allowed_words@)
                &&& all_words(possible_words@)
                &&& ({
                    let b = best_index(
                        allowed_words@,
                        possible_words@,
                        allowed_words@.len() as int,
                    );
                    &&& p.0@ == allowed_words@[b]@
                    &&& p.1 == score_num(allowed_words@[b]@, possible_words@)
                    &&& is_first_minimum(allowed_words@, possible_words@, b)
                })
            },
            Err(e) => {
                ||| (e == SolverError::EmptyDictionary && allowed_words@.len() == 0)
                ||| (e == SolverError::NoConsistentCandidates && allowed_words@.len() >= 1
                    && possible_words@.len() == 0)
                ||| (e == SolverError::InvalidWord && allowed_words@.len() >= 1
                    && possible_words@.len() >= 1 && !(all_words(allowed_words@) && all_words(
                    possible_words@,
                )))
            },
        },
{
    if allowed_words.len() == 0 {
        return Err(SolverError::EmptyDictionary);
    }
    if possible_words.len() == 0 {
        return Err(SolverError::NoConsistentCandidates);
    }
    if !(crate::words::check_words(allowed_words) && crate::words::check_words(possible_words)) {
        return Err(SolverError::InvalidWord);
    }
    let (word, exp) = get_best_word(allowed_words, possible_words);
    Ok((word.clone(), exp))
}

} // verus!
