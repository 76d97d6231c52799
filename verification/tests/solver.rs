use wordle_solver::coloring::match_word;
use wordle_solver::eliminator::{eliminate, filter_candidates};
use wordle_solver::errors::SolverError;
use wordle_solver::pattern::{
    black_status, green_status, parse_word_status, string_to_word_status, word_status_eq,
    LetterStatus, WordStatus,
};
use wordle_solver::scoring::get_exp_of_word;
use wordle_solver::selector::{best_guess, get_best_word};
use wordle_solver::words::{check_word, check_words, WORD_LEN};

fn words(list: &[&str]) -> Vec<String> {
    let mut out: Vec<String> = Vec::new();
    for w in list {
        out.push(w.to_string());
    }
    out
}

const G: LetterStatus = LetterStatus::Green;
const Y: LetterStatus = LetterStatus::Yellow;
const B: LetterStatus = LetterStatus::Black;

#[test]
fn test_word_len() {
    assert_eq!(WORD_LEN, 5);
}

#[test]
fn test_check_word() {
    assert!(check_word("crane"));
    assert!(!check_word("Crane"));
    assert!(!check_word("cranes"));
    assert!(!check_word("cran"));
    assert!(!check_word("cr4ne"));
    assert!(!check_word(""));
}

#[test]
fn test_check_words() {
    assert!(check_words(&words(&["crane", "slate"])));
    assert!(!check_words(&words(&["crane", "slate!"])));
    assert!(check_words(&words(&[])));
}

#[test]
fn test_color_identical() {
    let r = match_word("crane", "crane");
    assert!(word_status_eq(&r, &green_status()));
    assert_eq!(r, [G, G, G, G, G]);
}

#[test]
fn test_color_disjoint() {
    let r = match_word("crane", "doubt");
    assert!(word_status_eq(&r, &black_status()));
    assert_eq!(r, [B, B, B, B, B]);
}

#[test]
fn test_color_duplicate_sassy_silly() {
    // Correct-position only where positions align exactly; the repeated
    // `s` of the guess earns no extra marks once the candidate's single
    // non-green `s` is gone.
    let r = match_word("sassy", "silly");
    assert_eq!(r, [G, B, B, B, G]);
}

#[test]
fn test_color_duplicate_abcde_aabbb() {
    let r = match_word("abcde", "aabbb");
    assert_eq!(r, [G, Y, B, B, B]);
}

#[test]
fn test_color_duplicate_guess_letter_counted_once() {
    // The guess holds `e` twice, the candidate once: exactly one yellow.
    let r = match_word("eexxx", "zzzze");
    assert_eq!(r, [Y, B, B, B, B]);
}

#[test]
fn test_color_yellow_positions() {
    let r = match_word("trace", "crane");
    assert_eq!(r, [B, G, G, Y, G]);
}

#[test]
fn test_string_to_word_status() {
    let s = "GYBGY\n".to_string();
    let r = string_to_word_status(&s);
    assert_eq!(r, [G, Y, B, G, Y]);
}

#[test]
fn test_parse_word_status_ok() {
    let r = parse_word_status("GYBBB");
    assert_eq!(r, Ok([G, Y, B, B, B]));
    assert_eq!(parse_word_status("BBBBB"), Ok([B, B, B, B, B]));
}

#[test]
fn test_parse_word_status_bad_char() {
    assert_eq!(parse_word_status("GYBXA"), Err(SolverError::InvalidPattern));
}

#[test]
fn test_parse_word_status_bad_length() {
    assert_eq!(parse_word_status("GYB"), Err(SolverError::InvalidPattern));
    assert_eq!(parse_word_status("GYBBBB"), Err(SolverError::InvalidPattern));
    assert_eq!(parse_word_status(""), Err(SolverError::InvalidPattern));
}

#[test]
fn test_scoring_singleton_is_zero() {
    // The only candidate colors all-correct against the guess itself.
    assert_eq!(get_exp_of_word("crane", &words(&["crane"])), 0);
}

#[test]
fn test_scoring_nonzero_for_other_word() {
    assert_eq!(get_exp_of_word("slate", &words(&["crane"])), 1);
}

#[test]
fn test_scoring_three_candidates() {
    // Against "crane": "crane" is all-correct (not counted), "slate" and
    // "trace" land in two distinct buckets of size one each.
    let possible = words(&["crane", "slate", "trace"]);
    assert_eq!(get_exp_of_word("crane", &possible), 2);
}

#[test]
fn test_scoring_uninformative_guess_is_worst() {
    // "zzzzz" colors all-absent against both candidates: one bucket of
    // size two, squared.
    let possible = words(&["crane", "slate"]);
    assert_eq!(get_exp_of_word("zzzzz", &possible), 4);
}

#[test]
fn test_best_word_prefers_low_score() {
    let allowed = words(&["zzzzz", "slate"]);
    let possible = words(&["crane", "slate"]);
    let (word, exp) = get_best_word(&allowed, &possible);
    assert_eq!(word.as_str(), "slate");
    assert!(exp < 4);
}

#[test]
fn test_best_word_tie_breaks_first() {
    // Both guesses score the same; the earlier entry wins.
    let allowed = words(&["bbbbb", "ccccc"]);
    let possible = words(&["aaaaa"]);
    let (word, exp) = get_best_word(&allowed, &possible);
    assert_eq!(word.as_str(), "bbbbb");
    assert_eq!(exp, 1);
}

#[test]
fn test_best_word_deterministic() {
    let allowed = words(&["crane", "slate", "trace"]);
    let possible = words(&["crane", "slate", "trace"]);
    let (w1, e1) = get_best_word(&allowed, &possible);
    let first = w1.clone();
    let (w2, e2) = get_best_word(&allowed, &possible);
    assert_eq!(first, w2.clone());
    assert_eq!(e1, e2);
}

#[test]
fn test_best_word_among_three() {
    // All three guesses split the set equally well; the first wins.
    let allowed = words(&["crane", "slate", "trace"]);
    let possible = words(&["crane", "slate", "trace"]);
    let (word, exp) = get_best_word(&allowed, &possible);
    assert_eq!(word.as_str(), "crane");
    assert_eq!(exp, 2);
}

#[test]
fn test_best_guess_checked_ok() {
    let allowed = words(&["crane", "slate", "trace"]);
    let possible = words(&["crane", "slate", "trace"]);
    let r = best_guess(&allowed, &possible);
    assert_eq!(r, Ok(("crane".to_string(), 2)));
}

#[test]
fn test_best_guess_empty_dictionary() {
    let r = best_guess(&words(&[]), &words(&["crane"]));
    assert_eq!(r, Err(SolverError::EmptyDictionary));
}

#[test]
fn test_best_guess_empty_candidates() {
    let r = best_guess(&words(&["crane"]), &words(&[]));
    assert_eq!(r, Err(SolverError::NoConsistentCandidates));
}

#[test]
fn test_best_guess_invalid_word() {
    let r = best_guess(&words(&["crane", "SLATE"]), &words(&["crane"]));
    assert_eq!(r, Err(SolverError::InvalidWord));
}

#[test]
fn test_eliminate_keeps_matching_candidates() {
    let mut possible = words(&["crane", "slate", "trace"]);
    let status = match_word("slate", "trace");
    eliminate(&mut possible, "slate", status);
    assert_eq!(possible, words(&["trace"]));
}

#[test]
fn test_eliminate_monotonic() {
    let mut possible = words(&["crane", "slate", "trace"]);
    let before = possible.len();
    let status: WordStatus = [B, B, G, B, G];
    eliminate(&mut possible, "crane", status);
    assert!(possible.len() <= before);
    assert_eq!(possible, words(&["slate"]));
}

#[test]
fn test_eliminate_idempotent() {
    let mut possible = words(&["crane", "slate", "trace"]);
    let status = match_word("slate", "trace");
    eliminate(&mut possible, "slate", status);
    let once = possible.clone();
    eliminate(&mut possible, "slate", status);
    assert_eq!(possible, once);
}

#[test]
fn test_end_to_end_all_absent_leaves_nothing() {
    // Neither "slate" nor "trace" colors all-absent against "crane"
    // (each shares letters with it), so the consistent subset is empty.
    let mut possible = words(&["crane", "slate", "trace"]);
    eliminate(&mut possible, "crane", black_status());
    assert_eq!(possible, words(&[]));
}

#[test]
fn test_filter_candidates_ok() {
    let possible = words(&["crane", "slate", "trace"]);
    let status = match_word("slate", "trace");
    let r = filter_candidates(&possible, "slate", &status);
    assert_eq!(r, Ok(words(&["trace"])));
}

#[test]
fn test_filter_candidates_contradiction() {
    let possible = words(&["crane", "slate", "trace"]);
    let r = filter_candidates(&possible, "crane", &black_status());
    assert_eq!(r, Err(SolverError::NoConsistentCandidates));
}

#[test]
fn test_filter_candidates_invalid_word() {
    let possible = words(&["crane"]);
    let r = filter_candidates(&possible, "CRANE", &black_status());
    assert_eq!(r, Err(SolverError::InvalidWord));
}
