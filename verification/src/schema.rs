//! The data of the accounts API.

pub mod api;
pub mod db;
pub mod ids;
