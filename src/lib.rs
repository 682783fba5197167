//! Planning and incremental re-application of the transactions that deploy
//! contract binaries and dependency groups as ledger cells.
pub mod bake;
pub mod checker;
pub mod classify;
pub mod codec;
pub mod collector;
pub mod completion;
pub mod config;
pub mod dep_groups;
pub mod docker;
pub mod deployment_process;
pub mod human_capacity;
pub mod laws;
pub mod manage;
pub mod molecule;
pub mod password;
pub mod plan;
pub mod project_context;
pub mod recipe;
pub mod signal;
pub mod text;
pub mod transaction;
pub mod tx_check;
pub mod version;
