//! What the passes and rules do, in terms of their inputs and results.
//!
//! Each proof function states a relation that holds of every input.

pub mod audio;
pub mod backtrack;
pub mod commands;
pub mod dictionary;
pub mod downloads;
pub mod keys;
pub mod ledger;
pub mod lists;
pub mod polish;
pub mod session;
pub mod settings;
pub mod shell;
pub mod shortcuts;
pub mod spoken;
pub mod take;
pub mod texts;
