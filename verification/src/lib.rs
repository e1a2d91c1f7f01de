//! Aggregates Java runtime release metadata into a single deduplicated
//! catalog: a total order on version keys picks the best build per feature
//! version, a planner/builder pair resolves each vendor's advertised
//! versions with a GA-then-EA fallback, and an assembler produces the
//! published catalog with its `latest`, `stable` and `lts` pointers.

pub mod adoptium;
pub mod builder;
pub mod catalog;
pub mod dedup;
pub mod errors;
pub mod json;
pub mod order;
pub mod slug;
