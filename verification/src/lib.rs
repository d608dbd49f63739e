//! Bulk synchronization of catalog entities between tabular inputs and a
//! remote e-commerce catalog service.
//!
//! The crate is organised around a dependency-aware bulk dispatcher:
//! lookup tables turn a remote category tree and flat reference lists into
//! `name -> id` maps; a resolver replaces an input record's name-based
//! foreign keys with remote numeric ids or marks the record skipped; a
//! token-bucket limiter paces submissions; a bounded-concurrency dispatcher
//! hands records out and collects one outcome per submission; and an
//! aggregator folds the outcomes into a run summary.

pub mod brandfile;
pub mod dispatch;
pub mod limiter;
pub mod lookup;
pub mod model;
pub mod numtext;
pub mod resolve;
pub mod skufile;
pub mod skuinfo;
pub mod specvalues;
