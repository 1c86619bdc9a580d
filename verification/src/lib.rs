//! Discovery of game servers over large IPv4 address ranges.
//!
//! The crate holds the logic of the scanning pipeline: partitioning address
//! ranges across workers, the server-list-ping protocol with its legacy
//! binary fallback, the candidate/shutdown event model of the pipeline, and
//! the pure parts of configuration handling.  Network and process I/O live
//! in the surrounding application, which drives these functions.

pub mod text;

pub mod ip;

pub mod slp;

pub mod pipeline;

pub mod config;

pub mod masscan;
