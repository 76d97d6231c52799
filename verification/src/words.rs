//! Well-formed words: the shape every dictionary entry and guess must have.

use vstd::prelude::*;
use vstd::string::StrSliceExecFns;

verus! {

/// Number of letters in every word this solver handles.
pub const WORD_LEN: usize = 5;

/// A well-formed word: exactly `WORD_LEN` lowercase ASCII letters.
pub open spec fn is_word(s: Seq<char>) -> bool {
    &&& s.len() == WORD_LEN
    &&& forall|i: int| 0 <= i < s.len() ==> 'a' <= #[trigger] s[i] && s[i] <= 'z'
}

/// Every entry of a word list is well formed.
pub open spec fn all_words(ws: Seq<String>) -> bool {
    forall|i: int| 0 <= i < ws.len() ==> is_word(#[trigger] ws[i]@)
}

/// Decides whether `s` is a well-formed word.
pub fn check_word(s: &str) -> (r: bool)
    ensures
        r == is_word(s@),
{
    let n = s.unicode_len();
    if n != WORD_LEN {
        return false;
    }
    let mut i: usize = 0;
    while i < n
        invariant
            n == s@.len(),
            n == WORD_LEN,
            i <= n,
            forall|j: int| 0 <= j < i ==> 'a' <= #[trigger] s@[j] && s@[j] <= 'z',
        decreases n - i,
    {
        let c = s.get_char(i);
        if !('a' <= c && c <= 'z') {
            return false;
        }
        i += 1;
    }
    true
}

/// Decides whether every entry of `ws` is a well-formed word.
pub fn check_words(ws: &Vec<String>) -> (r: bool)
    ensures
        r == all_words(ws@),
{
    let mut i: usize = 0;
    while i < ws.len()
        invariant
            i <= ws@.len(),
            forall|j: int| 0 <= j < i ==> is_word(#[trigger] ws@[j]@),
        decreases ws@.len() - i,
    {
        if !check_word(ws[i].as_str()) {
            return false;
        }
        i += 1;
    }
    true
}

} // verus!
