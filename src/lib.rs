//! Review-queue engine: pull-request references, review aggregation,
//! priority classification, a time-bounded result cache and review statistics.

pub mod cache;
pub mod classify;
pub mod fetch;
pub mod locate;
pub mod models;
pub mod reviews;
pub mod stats;
pub mod storage;
pub mod text;
pub mod url;
