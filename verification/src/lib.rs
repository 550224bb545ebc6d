//! The decisions of a per-user process supervisor, stated and proved apart
//! from the operating system that carries them out.

pub mod accepting;
pub mod binding;
pub mod bundle;
pub mod capturing;
pub mod catalog;
pub mod collection;
pub mod credentials;
pub mod details;
pub mod diagnostics;
pub mod digest;
pub mod endpoints;
pub mod enrichment;
pub mod error;
pub mod exit;
pub mod external_stop;
pub mod fixture;
pub mod fixture_output;
pub mod ids;
pub mod ipc;
pub mod job_object;
pub mod keys;
pub mod launch;
pub mod laws;
pub mod logs;
pub mod ownership;
pub mod paths;
pub mod platform;
pub mod process_group;
pub mod process_tree;
pub mod profiles;
mod random;
pub mod reading;
pub mod recovery;
pub mod registry;
pub mod retention;
pub mod revision;
pub mod rpc;
pub mod run;
pub mod runtime;
pub mod saving;
pub mod secrets;
pub mod service;
pub mod snapshot;
pub mod starting;
pub mod stop;
pub mod table;
pub mod text;
pub mod timestamp;
pub mod transport;
