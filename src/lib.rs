//! A read-eval-print loop at its first stage: every line read is echoed back
//! unchanged until the input stream ends.

pub mod laws;
pub mod repl;
