//! Decides which entries of a distribution's news feed warrant stopping a
//! package upgrade, and keeps the record of the entries already shown.
//!
//! The library holds the decisions only: which feed entries match the
//! configured keywords, which of them are new with respect to the record kept
//! between runs, and how that record changes. Reading the feed, the
//! configuration and the record from the network and the disk is left to the
//! program around it.

pub mod cache;
pub mod cache_lemmas;
pub mod config;
pub mod headline;
pub mod rss;
pub mod text;
