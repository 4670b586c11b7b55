//! Session core of a line-protocol chess engine that delegates move choice to an
//! outside oracle: the command dispatcher, the options registry, the position
//! validator and describer, and the single-flight search with retries and fallback.

pub mod text;
pub mod args;
pub mod fen;
pub mod options;
pub mod search;
pub mod board;
pub mod command;
pub mod oracle;
pub mod readback;
