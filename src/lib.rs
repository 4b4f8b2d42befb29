//! A tree-structured key/value store: hierarchical paths, records that
//! carry the schema version of their payload and convert between adjacent
//! versions on read, and the parent/child bookkeeping that keeps the tree
//! consistent.
//!
//! The library takes every decision and leaves the storage engine to the
//! caller: `store::plan_put` and `store::plan_del` turn the records read at a
//! path and at its parent into the writes of one transaction, and
//! `store::read_record` turns a record read back into a typed value. The laws
//! in `store` state what these writes keep true of the whole tree.
//!
//! Modules:
//! - `path`: paths, their display form and the user's path syntax;
//! - `value`: the self-describing payload values;
//! - `schema`: versioned record types and the version resolver;
//! - `wrappers`: the stored record frame;
//! - `store`: the tree model, the write plans and their laws;
//! - `shell`: command-line completion and commands of the browser;
//! - `error`: errors with kinds and chained causes.

pub mod error;
pub mod path;
pub mod value;
pub mod schema;
pub mod wrappers;
pub mod store;
pub mod shell;
