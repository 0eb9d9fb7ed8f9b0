//! Labelling of a live stream of market quotes.
//!
//! The stream is first searched for a valid base: a run of quotes inside one
//! trading session on one date (`seek`). From that base, windows of quotes
//! are fed to pluggable checks until all have settled (`window`); their
//! verdicts are encoded as a label (`label`), stored, and then published
//! (`pipeline`). All decisions are verified; reading, writing and the clock
//! are left to the caller, which answers the actions of `pipeline::Labeler`.

pub mod session;
pub mod seek;
pub mod label;
pub mod window;
pub mod pipeline;
