//! Scoring a guess by how evenly it partitions the candidate set.
//!
//! Candidates are grouped into buckets by the pattern the guess would
//! produce against them. The score is the sum of the squared bucket
//! sizes over every bucket except the all-correct one: each candidate in
//! a non-winning bucket of size `v` contributes `v`, so the buckets
//! contribute `v * v` apiece. Lower is better. The expected-remaining-
//! candidates reading divides this sum by the number of candidates; that
//! divisor is the same for every guess scored against one set, so this
//! integer numerator ranks guesses identically and exactly, and the
//! session loop may divide for display.

use vstd::prelude::*;
use crate::words::{WORD_LEN, is_word, all_words};
use crate::pattern::{LetterStatus, WordStatus, all_green, word_status_eq, green_status};
use crate::coloring::{color, match_word};

verus! {

/// How many of the first `n` candidates fall in the bucket of pattern `p`.
pub open spec fn bucket_count(w: Seq<char>, ws: Seq<String>, p: Seq<LetterStatus>, n: int) -> int
    decreases n,
{
    if n <= 0 {
        0
    } else {
        bucket_count(w, ws, p, n - 1) + if color(w, ws[n - 1]@) == p {
            1int
        } else {
            0int
        }
    }
}

/// The size of the bucket of pattern `p` over the whole candidate set.
pub open spec fn bucket_size(w: Seq<char>, ws: Seq<String>, p: Seq<LetterStatus>) -> int {
    bucket_count(w, ws, p, ws.len() as int)
}

/// The score contributed by the first `n` candidates: each candidate
/// outside the all-correct bucket contributes the size of its bucket.
pub open spec fn score_prefix(w: Seq<char>, ws: Seq<String>, n: int) -> int
    decreases n,
{
    if n <= 0 {
        0
    } else {
        score_prefix(w, ws, n - 1) + if color(w, ws[n - 1]@) == all_green() {
            0int
        } else {
            bucket_size(w, ws, color(w, ws[n - 1]@))
        }
    }
}

/// The score of guess `w` against candidate set `ws`: the sum of the
/// squared sizes of all non-winning pattern buckets.
pub open spec fn score_num(w: Seq<char>, ws: Seq<String>) -> int {
    score_prefix(w, ws, ws.len() as int)
}

proof fn lemma_bucket_count_bounds(w: Seq<char>, ws: Seq<String>, p: Seq<LetterStatus>, n: int)
    ensures
        0 <= bucket_count(w, ws, p, n),
        n >= 0 ==> bucket_count(w, ws, p, n) <= n,
    decreases n,
{
    if n > 0 {
        lemma_bucket_count_bounds(w, ws, p, n - 1);
    }
}

proof fn lemma_bucket_count_member(w: Seq<char>, ws: Seq<String>, p: Seq<LetterStatus>, i: int, n: int)
    requires
        0 <= i < n,
        color(w, ws[i]@) == p,
    ensures
        bucket_count(w, ws, p, n) >= 1,
    decreases n,
{
    lemma_bucket_count_bounds(w, ws, p, n - 1);
    if i < n - 1 {
        lemma_bucket_count_member(w, ws, p, i, n - 1);
    }
}

proof fn lemma_score_prefix_bounds(w: Seq<char>, ws: Seq<String>, n: int)
    requires
        n <= ws.len(),
    ensures
        0 <= score_prefix(w, ws, n),
        n >= 0 ==> score_prefix(w, ws, n) <= n * ws.len(),
    decreases n,
{
    if n > 0 {
        lemma_score_prefix_bounds(w, ws, n - 1);
        lemma_bucket_count_bounds(w, ws, color(w, ws[n - 1]@), ws.len() as int);
        assert((n - 1) * ws.len() + ws.len() == n * ws.len()) by (nonlinear_arith);
    }
}

proof fn lemma_score_prefix_zero(w: Seq<char>, ws: Seq<String>, n: int)
    requires
        n <= ws.len(),
    ensures
        (score_prefix(w, ws, n) == 0) <==> (forall|i: int|
            0 <= i < n ==> color(w, #[trigger] ws[i]@) == all_green()),
    decreases n,
{
    if n > 0 {
        lemma_score_prefix_zero(w, ws, n - 1);
        lemma_score_prefix_bounds(w, ws, n - 1);
        let p = color(w, ws[n - 1]@);
        if p != all_green() {
            lemma_bucket_count_member(w, ws, p, n - 1, ws.len() as int);
        } else {
            lemma_bucket_count_bounds(w, ws, p, ws.len() as int);
        }
    }
}

/// The score is never negative, and it is zero exactly when every
/// candidate colors all-correct against the guess.
pub proof fn lemma_score_zero_iff(w: Seq<char>, ws: Seq<String>)
    ensures
        score_num(w, ws) >= 0,
        (score_num(w, ws) == 0) <==> (forall|i: int|
            0 <= i < ws.len() ==> color(w, #[trigger] ws[i]@) == all_green()),
{
    lemma_score_prefix_bounds(w, ws, ws.len() as int);
    lemma_score_prefix_zero(w, ws, ws.len() as int);
}

/// For well-formed words, a zero score says the candidate set holds
/// nothing but the guess itself.
pub proof fn lemma_score_zero_iff_only_guess(w: Seq<char>, ws: Seq<String>)
    requires
        is_word(w),
        all_words(ws),
    ensures
        (score_num(w, ws) == 0) <==> (forall|i: int| 0 <= i < ws.len() ==> #[trigger] ws[i]@ == w),
{
    lemma_score_zero_iff(w, ws);
    assert forall|i: int| 0 <= i < ws.len() implies (color(w, #[trigger] ws[i]@) == all_green())
        <==> (ws[i]@ == w) by {
        crate::coloring::lemma_all_green_iff_eq(w, ws[i]@);
    }
}

/// Computes the score of `word` against the candidate set, counting for
/// each candidate in a non-winning bucket the size of that bucket.
pub fn get_exp_of_word(word: &str, possible_words: &Vec<String>) -> (r: u64)
    requires
        is_word(word@),
        all_words(possible_words@),
        1 <= possible_words@.len() <= 0xFFFF_FFFF,
    ensures
        r == score_num(word@, possible_words@),
{
    let ghost w = word@;
    let ghost ws = possible_words@;
    let n = possible_words.len();
    let correct = green_status();
    let mut total: u64 = 0;
    let mut i: usize = 0;
    while i < n
        invariant
            w == word@,
            ws == possible_words@,
            is_word(w),
            all_words(ws),
            n == ws.len(),
            1 <= n <= 0xFFFF_FFFF,
            correct@ == all_green(),
            i <= n,
            total == score_prefix(w, ws, i as int),
            total <= (i as int) * (n as int),
        decreases n - i,
    {
        let status_i = match_word(word, possible_words[i].as_str());
        if !word_status_eq(&status_i, &correct) {
            let ghost p = color(w, ws[i as int]@);
            let mut cnt: u64 = 0;
            let mut j: usize = 0;
            while j < n
                invariant
                    w == word@,
                    ws == possible_words@,
                    is_word(w),
                    all_words(ws),
                    n == ws.len(),
                    n <= 0xFFFF_FFFF,
                    j <= n,
                    status_i@ == p,
                    cnt == bucket_count(w, ws, p, j as int),
                    cnt <= j,
                decreases n - j,
            {
                let status_j = match_word(word, possible_words[j].as_str());
                if word_status_eq(&status_j, &status_i) {
                    cnt = cnt + 1;
                }
                j += 1;
            }
            assert(total + cnt <= (i as int + 1) * (n as int)) by (nonlinear_arith)
                requires
                    total <= (i as int) * (n as int),
                    cnt <= n,
                    0 <= i as int,
                    0 <= n as int,
            ;
            assert(((i as int) + 1) * (n as int) <= 0xFFFF_FFFF * 0xFFFF_FFFF) by (nonlinear_arith)
                requires
                    i as int + 1 <= n as int,
                    n <= 0xFFFF_FFFF,
            ;
            total = total + cnt;
        } else {
            assert((i as int + 1) * (n as int) == (i as int) * (n as int) + n as int) by (nonlinear_arith);
        }
        i += 1;
    }
    total
}

} // verus!
