//! Feedback coloring: the pattern a guess would produce against a
//! candidate answer, with the two-pass duplicate-letter policy.
//!
//! First pass: exact positional matches become `Green`; every other
//! candidate letter is counted as still available. Second pass, left to
//! right: a non-green guess letter becomes `Yellow` while the candidate
//! still has an available occurrence of it, otherwise `Black`. So a letter
//! appearing once in the candidate but twice in the guess yields at most
//! one non-black mark beyond the exact matches.

use vstd::prelude::*;
use vstd::string::StrSliceExecFns;
use crate::words::{WORD_LEN, is_word};
use crate::pattern::{LetterStatus, WordStatus, all_green, all_black};

verus! {

/// How many of the first `n` candidate positions hold the letter `ch`
/// without being matched in place by the guess.
pub open spec fn unmatched_count(g: Seq<char>, c: Seq<char>, ch: char, n: int) -> int
    decreases n,
{
    if n <= 0 {
        0
    } else {
        unmatched_count(g, c, ch, n - 1) + if c[n - 1] == ch && g[n - 1] != c[n - 1] {
            1int
        } else {
            0int
        }
    }
}

/// How many occurrences of `ch` the candidate has left for `Yellow`
/// marks once the exact matches are taken out.
pub open spec fn available(g: Seq<char>, c: Seq<char>, ch: char) -> int {
    unmatched_count(g, c, ch, c.len() as int)
}

/// How many of the first `n` guess positions hold the letter `ch`
/// without matching the candidate in place.
pub open spec fn guess_misses(g: Seq<char>, c: Seq<char>, ch: char, n: int) -> int
    decreases n,
{
    if n <= 0 {
        0
    } else {
        guess_misses(g, c, ch, n - 1) + if g[n - 1] == ch && g[n - 1] != c[n - 1] {
            1int
        } else {
            0int
        }
    }
}

/// The color of guess position `i`: `Green` on an exact match; otherwise
/// `Yellow` exactly when this is at most the `available`-th non-green
/// occurrence of its letter in the guess, counting from the left.
pub open spec fn color_at(g: Seq<char>, c: Seq<char>, i: int) -> LetterStatus {
    if g[i] == c[i] {
        LetterStatus::Green
    } else if guess_misses(g, c, g[i], i + 1) <= available(g, c, g[i]) {
        LetterStatus::Yellow
    } else {
        LetterStatus::Black
    }
}

/// The whole feedback pattern of `g` against candidate `c`.
pub open spec fn color(g: Seq<char>, c: Seq<char>) -> Seq<LetterStatus> {
    Seq::new(g.len(), |i: int| color_at(g, c, i))
}

proof fn lemma_unmatched_nonneg(g: Seq<char>, c: Seq<char>, ch: char, n: int)
    ensures
        unmatched_count(g, c, ch, n) >= 0,
    decreases n,
{
    if n > 0 {
        lemma_unmatched_nonneg(g, c, ch, n - 1);
    }
}

proof fn lemma_misses_nonneg(g: Seq<char>, c: Seq<char>, ch: char, n: int)
    ensures
        guess_misses(g, c, ch, n) >= 0,
    decreases n,
{
    if n > 0 {
        lemma_misses_nonneg(g, c, ch, n - 1);
    }
}

proof fn lemma_unmatched_count_none(g: Seq<char>, c: Seq<char>, ch: char, n: int)
    requires
        forall|j: int| 0 <= j < n ==> c[j] != ch,
    ensures
        unmatched_count(g, c, ch, n) == 0,
    decreases n,
{
    if n > 0 {
        lemma_unmatched_count_none(g, c, ch, n - 1);
    }
}

/// The slot of the per-letter counter that belongs to `ch`.
spec fn letter_index(ch: char) -> int {
    ch as int - 'a' as int
}

/// What the second pass's counter holds for `ch` once the first `n`
/// guess positions are done: the available occurrences not yet consumed
/// by a `Yellow` mark.
spec fn remaining(g: Seq<char>, c: Seq<char>, ch: char, n: int) -> int {
    if guess_misses(g, c, ch, n) <= available(g, c, ch) {
        available(g, c, ch) - guess_misses(g, c, ch, n)
    } else {
        0
    }
}

fn letter_code(ch: char) -> (r: usize)
    requires
        'a' <= ch && ch <= 'z',
    ensures
        r == letter_index(ch),
        r < 26,
{
    (ch as u32 - 'a' as u32) as usize
}

/// Computes the feedback pattern the game would show if `word` were
/// played and `candidate` were the true answer.
pub fn match_word(word: &str, candidate: &str) -> (r: WordStatus)
    requires
        is_word(word@),
        is_word(candidate@),
    ensures
        r@ == color(word@, candidate@),
{
    let ghost g = word@;
    let ghost c = candidate@;
    let mut char_map: [u8; 26] = [0u8; 26];
    let mut status: WordStatus = [LetterStatus::Black; WORD_LEN];
    let mut i: usize = 0;
    while i < WORD_LEN
        invariant
            g == word@,
            c == candidate@,
            is_word(g),
            is_word(c),
            i <= WORD_LEN,
            forall|k: int| 0 <= k < 26 ==> #[trigger] char_map@[k] <= i,
            forall|ch: char|
                'a' <= ch && ch <= 'z' ==> char_map@[#[trigger] letter_index(ch)]
                    == unmatched_count(g, c, ch, i as int),
            forall|j: int|
                0 <= j < i ==> #[trigger] status@[j] == (if g[j] == c[j] {
                    LetterStatus::Green
                } else {
                    LetterStatus::Black
                }),
            forall|j: int| i <= j < WORD_LEN ==> #[trigger] status@[j] == LetterStatus::Black,
        decreases WORD_LEN - i,
    {
        let ca = word.get_char(i);
        let cb = candidate.get_char(i);
        if ca == cb {
            status[i] = LetterStatus::Green;
        } else {
            let code = letter_code(cb);
            char_map[code] = char_map[code] + 1;
        }
        proof {
            assert forall|ch: char| 'a' <= ch && ch <= 'z' implies char_map@[#[trigger] letter_index(
                ch,
            )] == unmatched_count(g, c, ch, i as int + 1) by {
                assert(unmatched_count(g, c, ch, i as int + 1) == unmatched_count(g, c, ch, i as int)
                    + if c[i as int] == ch && g[i as int] != c[i as int] {
                    1int
                } else {
                    0int
                });
            }
        }
        i += 1;
    }
    proof {
        assert forall|ch: char| 'a' <= ch && ch <= 'z' implies char_map@[#[trigger] letter_index(ch)]
            == remaining(g, c, ch, 0) by {
            lemma_unmatched_nonneg(g, c, ch, c.len() as int);
        }
    }
    let mut i: usize = 0;
    while i < WORD_LEN
        invariant
            g == word@,
            c == candidate@,
            is_word(g),
            is_word(c),
            i <= WORD_LEN,
            forall|ch: char|
                'a' <= ch && ch <= 'z' ==> char_map@[#[trigger] letter_index(ch)]
                    == remaining(g, c, ch, i as int),
            forall|j: int| 0 <= j < i ==> #[trigger] status@[j] == color_at(g, c, j),
            forall|j: int|
                i <= j < WORD_LEN ==> #[trigger] status@[j] == (if g[j] == c[j] {
                    LetterStatus::Green
                } else {
                    LetterStatus::Black
                }),
        decreases WORD_LEN - i,
    {
        let ca = word.get_char(i);
        let cb = candidate.get_char(i);
        if ca != cb {
            let code = letter_code(ca);
            if char_map[code] > 0 {
                status[i] = LetterStatus::Yellow;
                char_map[code] = char_map[code] - 1;
            } else {
                status[i] = LetterStatus::Black;
            }
        }
        proof {
            assert forall|ch: char| 'a' <= ch && ch <= 'z' implies guess_misses(g, c, ch, i as int + 1)
                == guess_misses(g, c, ch, i as int) + (if g[i as int] == ch && g[i as int]
                != c[i as int] {
                1int
            } else {
                0int
            }) by {}
            assert(status@[i as int] == color_at(g, c, i as int));
            assert forall|ch: char| 'a' <= ch && ch <= 'z' implies char_map@[#[trigger] letter_index(
                ch,
            )] == remaining(g, c, ch, i as int + 1) by {
                lemma_misses_nonneg(g, c, ch, i as int);
            }
        }
        i += 1;
    }
    proof {
        assert(status@ =~= color(g, c));
    }
    status
}

/// Coloring a word against itself marks every position correct.
pub proof fn lemma_color_self(w: Seq<char>)
    requires
        is_word(w),
    ensures
        color(w, w) == all_green(),
{
    assert forall|i: int| 0 <= i < WORD_LEN implies color(w, w)[i] == LetterStatus::Green by {
        assert(color_at(w, w, i) == LetterStatus::Green);
    }
    assert(color(w, w) =~= all_green());
}

/// Coloring two words that share no letters marks every position absent.
pub proof fn lemma_color_disjoint(g: Seq<char>, c: Seq<char>)
    requires
        is_word(g),
        is_word(c),
        forall|i: int, j: int|
            #![trigger g[i], c[j]]
            0 <= i < g.len() && 0 <= j < c.len() ==> g[i] != c[j],
    ensures
        color(g, c) == all_black(),
{
    assert forall|i: int| 0 <= i < WORD_LEN implies color(g, c)[i] == LetterStatus::Black by {
        assert(g[i] != c[i]);
        lemma_unmatched_count_none(g, c, g[i], c.len() as int);
        lemma_misses_nonneg(g, c, g[i], i);
        assert(guess_misses(g, c, g[i], i + 1) == guess_misses(g, c, g[i], i) + 1int);
        assert(color_at(g, c, i) == LetterStatus::Black);
    }
    assert(color(g, c) =~= all_black());
}

/// A pattern is all-correct exactly when guess and candidate are the
/// same word.
pub proof fn lemma_all_green_iff_eq(g: Seq<char>, c: Seq<char>)
    requires
        is_word(g),
        is_word(c),
    ensures
        (color(g, c) == all_green()) <==> (g == c),
{
    if color(g, c) == all_green() {
        assert forall|i: int| 0 <= i < WORD_LEN implies g[i] == c[i] by {
            assert(color(g, c)[i] == all_green()[i]);
            assert(color_at(g, c, i) == LetterStatus::Green);
        }
        assert(g =~= c);
    }
    if g == c {
        lemma_color_self(g);
    }
}

} // verus!
