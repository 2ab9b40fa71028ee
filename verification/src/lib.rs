//! The logic of a small development web server: the asset recompiler that
//! decides when the client sources have to be rebuilt, and the plain data
//! of the accounts API that is served beside it.
//!
//! Everything here works on plain values. Reading directories, running
//! build tools and answering requests is left to the program around it.

pub mod cache;
pub mod extract;
pub mod jwt;
pub mod log;
pub mod password;
pub mod rebuild;
pub mod scan;
pub mod schema;
pub mod snapshot;
pub mod staleness;
pub mod watch;
