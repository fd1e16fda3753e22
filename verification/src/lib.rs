//! Verified core of a concurrent path prober: command-line and wordlist
//! grammar, response filtering, report rendering and the dispatch plan.

pub mod cli;
pub mod decimal;
pub mod dispatch;
pub mod filter;
pub mod probe;
pub mod session;
pub mod text;
