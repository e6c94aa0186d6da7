//! A privacy/security scanner library: it searches a corpus of text files for
//! environment-derived sensitive values (usernames, hostnames, local IP
//! addresses) and for generic secret-like patterns, and assembles the results
//! into an ordered sequence of report rows.

pub mod corpus;
pub mod defaults;
pub mod display;
pub mod extra;
pub mod fmt;
pub mod gather;
pub mod lines;
pub mod matcher;
pub mod report;
pub mod text;
pub mod tree;
pub mod util;
