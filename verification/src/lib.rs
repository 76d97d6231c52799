//! Solver assistant for a five-letter word-guessing game with colored
//! letter feedback. The core is pure: coloring a guess against a candidate
//! answer (with the two-pass duplicate-letter policy), scoring a guess by
//! how evenly it partitions the remaining candidates, selecting the best
//! guess, and filtering candidates against observed feedback.

pub mod words;
pub mod errors;
pub mod pattern;
pub mod coloring;
pub mod scoring;
pub mod selector;
pub mod eliminator;
