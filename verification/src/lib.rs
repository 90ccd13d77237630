//! An attack client for attack/defense security competitions.
//!
//! The crate runs a set of exploit programs against a roster of opposing
//! teams, harvests flags from their output, records them in a durable
//! ledger, and delivers pending flags to a scoring service over one of two
//! wire protocols (a line-based handshake protocol and a JSON batch
//! protocol).  The logic is verified; callers drive the sockets, the
//! processes and the on-disk mirror of the ledger.

pub mod auto;
pub mod config;
pub mod errors;
pub mod flag;
pub mod http;
pub mod ledger;
pub mod line;
pub mod panel;
pub mod points;
pub mod re;
pub mod sched;
pub mod submit;
pub mod subnet;
pub mod text;
