//! Query statistics and statement safety rules for a query-processing pipeline.
//!
//! The crate holds the decisions of a pipeline observer: a bounded table of
//! per-query call counts, the bookkeeping that chains an observer in front of
//! the handlers installed before it, the rule that refuses an unfiltered
//! delete, and the structured log line written for utility statements.
//! Everything here works on plain values; talking to the host pipeline is
//! left to the caller.

pub mod chain;
pub mod logger;
pub mod record;
pub mod table;
pub mod validator;

pub use record::{QueryStats, SmQuery, SNIPPET_LEN};
pub use table::{StatisticsTable, CAPACITY};
