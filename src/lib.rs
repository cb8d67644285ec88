//! Battle-point scoring: an exact integer formula with a ceiling-division term,
//! and the reading of the command-line arguments that feed it.

pub mod cli;
pub mod score;
