//! Normalization and synchronization of lesson records with a remote
//! learning-management catalog.

pub mod text;
pub mod lesson;
pub mod dedup;
pub mod parser;
pub mod plan;
pub mod sync;
pub mod run;
