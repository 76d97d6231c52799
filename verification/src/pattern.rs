//! Letter feedback colors and the five-slot feedback pattern.

use vstd::prelude::*;
use vstd::string::StrSliceExecFns;
use crate::words::WORD_LEN;
use crate::errors::SolverError;

verus! {

/// One letter's feedback color: `Black` is absent, `Yellow` is present
/// elsewhere, `Green` is correct position.
#[derive(Clone, Copy, Debug, PartialEq, Eq, Hash, Structural)]
pub enum LetterStatus {
    Black,
    Yellow,
    Green,
}

/// The feedback pattern for a whole guess: one color per letter position.
pub type WordStatus = [LetterStatus; WORD_LEN];

/// The pattern shown when every letter is in the correct position.
pub open spec fn all_green() -> Seq<LetterStatus> {
    Seq::new(WORD_LEN as nat, |i: int| LetterStatus::Green)
}

/// The pattern shown when no letter of the guess occurs in the candidate.
pub open spec fn all_black() -> Seq<LetterStatus> {
    Seq::new(WORD_LEN as nat, |i: int| LetterStatus::Black)
}

/// Compares two feedback patterns slot by slot.
pub fn word_status_eq(a: &WordStatus, b: &WordStatus) -> (r: bool)
    ensures
        r == (a@ == b@),
{
    let mut i: usize = 0;
    while i < WORD_LEN
        invariant
            i <= WORD_LEN,
            forall|j: int| 0 <= j < i ==> a@[j] == b@[j],
        decreases WORD_LEN - i,
    {
        if a[i] != b[i] {
            return false;
        }
        i += 1;
    }
    proof {
        assert(a@ =~= b@);
    }
    true
}

/// The all-correct-position pattern as a value.
pub fn green_status() -> (r: WordStatus)
    ensures
        r@ == all_green(),
{
    let r = [LetterStatus::Green; WORD_LEN];
    proof {
        assert(r@ =~= all_green());
    }
    r
}

/// The all-absent pattern as a value.
pub fn black_status() -> (r: WordStatus)
    ensures
        r@ == all_black(),
{
    let r = [LetterStatus::Black; WORD_LEN];
    proof {
        assert(r@ =~= all_black());
    }
    r
}

/// A character of a feedback token: `G`, `Y` or `B`.
pub open spec fn is_status_char(c: char) -> bool {
    c == 'G' || c == 'Y' || c == 'B'
}

/// The color a feedback-token character stands for.
pub open spec fn status_of_char(c: char) -> LetterStatus {
    if c == 'G' {
        LetterStatus::Green
    } else if c == 'Y' {
        LetterStatus::Yellow
    } else {
        LetterStatus::Black
    }
}

/// The pattern spelled by the first `WORD_LEN` characters of a feedback token.
pub open spec fn parsed_status(s: Seq<char>) -> Seq<LetterStatus> {
    Seq::new(WORD_LEN as nat, |i: int| status_of_char(s[i]))
}

/// A feedback token the session loop may hand to the core: exactly
/// `WORD_LEN` characters, each one of `G`, `Y`, `B`.
pub open spec fn is_status_token(s: Seq<char>) -> bool {
    &&& s.len() == WORD_LEN
    &&& forall|i: int| 0 <= i < s.len() ==> is_status_char(#[trigger] s[i])
}

/// Reads a feedback pattern off the first `WORD_LEN` characters of `s`.
/// The caller must have checked those characters; `parse_word_status`
/// is the checked form.
pub fn string_to_word_status(s: &String) -> (r: WordStatus)
    requires
        s@.len() >= WORD_LEN,
        forall|i: int| 0 <= i < WORD_LEN ==> is_status_char(#[trigger] s@[i]),
    ensures
        r@ == parsed_status(s@),
{
    let mut ret = [LetterStatus::Black; WORD_LEN];
    let mut i: usize = 0;
    while i < WORD_LEN
        invariant
            i <= WORD_LEN,
            s@.len() >= WORD_LEN,
            forall|k: int| 0 <= k < WORD_LEN ==> is_status_char(#[trigger] s@[k]),
            forall|j: int| 0 <= j < i ==> ret@[j] == status_of_char(s@[j]),
        decreases WORD_LEN - i,
    {
        let c = s.as_str().get_char(i);
        let status = match c {
            'G' => LetterStatus::Green,
            'Y' => LetterStatus::Yellow,
            'B' => LetterStatus::Black,
            _ => {
                proof {
                    assert(false);
                }
                LetterStatus::Black
            },
        };
        ret[i] = status;
        i += 1;
    }
    proof {
        assert(ret@ =~= parsed_status(s@));
    }
    ret
}

/// Parses a feedback token, rejecting anything but exactly `WORD_LEN`
/// characters drawn from `G`, `Y`, `B`.
pub fn parse_word_status(s: &str) -> (r: Result<WordStatus, SolverError>)
    ensures
        match r {
            Ok(p) => is_status_token(s@) && p@ == parsed_status(s@),
            Err(e) => e == SolverError::InvalidPattern && !is_status_token(s@),
        },
{
    let n = s.unicode_len();
    if n != WORD_LEN {
        return Err(SolverError::InvalidPattern);
    }
    let mut ret = [LetterStatus::Black; WORD_LEN];
    let mut i: usize = 0;
    while i < WORD_LEN
        invariant
            i <= WORD_LEN,
            s@.len() == WORD_LEN,
            forall|k: int| 0 <= k < i ==> is_status_char(#[trigger] s@[k]),
            forall|j: int| 0 <= j < i ==> ret@[j] == status_of_char(s@[j]),
        decreases WORD_LEN - i,
    {
        let c = s.get_char(i);
        let status = match c {
            'G' => LetterStatus::Green,
            'Y' => LetterStatus::Yellow,
            'B' => LetterStatus::Black,
            _ => {
                return Err(SolverError::InvalidPattern);
            },
        };
        ret[i] = status;
        i += 1;
    }
    proof {
        assert(ret@ =~= parsed_status(s@));
    }
    Ok(ret)
}

} // verus!
