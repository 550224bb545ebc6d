//! What the operations are for, as laws: what their results must satisfy for all
//! inputs, and how calls of them relate.

pub mod catalog;
pub mod connections;
pub mod diagnostics;
pub mod exit;
pub mod external;
pub mod files;
pub mod fixture;
pub mod launch;
pub mod logs;
pub mod processes;
pub mod profiles;
pub mod recovery;
pub mod requests;
pub mod retention;
pub mod runs;
pub mod starting;
pub mod state;
pub mod stop;
pub mod text;
pub mod time;
