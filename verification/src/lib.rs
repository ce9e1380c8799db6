//! Core of a personal cloud-storage client backed by an S3-compatible object
//! store: credential sealing, transfer state machines, request classification
//! and usage accounting, and the daily usage ledger.
//!
//! All remote I/O, file I/O and the async runtime live outside this crate;
//! the logic here works on plain values handed in by its callers.

pub mod errors;
pub mod strutil;
pub mod classify;
pub mod usage;
pub mod cost;
pub mod jsontext;
pub mod ledgerjson;
pub mod bundlejson;
pub mod vault;
pub mod chunking;
pub mod upload;
pub mod download;
pub mod dates;
pub mod merge;
pub mod store;
pub mod share;
pub mod logger;
pub mod settings;
pub mod background;
pub mod table;
pub mod legacyvault;
pub mod platform;
