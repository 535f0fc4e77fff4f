//! What holds of every pass, whatever the configuration and whatever the
//! registrar answers.

pub mod counts;
pub mod domains;
pub mod edits;
pub mod names;
pub mod progress;
pub mod steps;
