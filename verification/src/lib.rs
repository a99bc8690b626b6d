//! Verified core of a TCP "ping" tool: exact latency statistics, the
//! decisions of a ping session, option checking and the text it reports.

pub mod options;
pub mod report;
pub mod session;
pub mod stats;
pub mod text;
pub mod wide;
