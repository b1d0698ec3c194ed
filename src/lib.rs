//! A broken-link scanner for a single web page.
//!
//! The verified part decides what is probed and what is reported: it turns a
//! page into the list of targets to probe, classifies each probe's response,
//! and gathers the dead links of one scan into the rows of a report. Fetching
//! and probing over the network is left to the caller.
pub mod outcome;
pub mod plan;
pub mod session;
