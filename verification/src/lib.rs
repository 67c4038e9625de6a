//! Decision and text-processing core of a proxy pool manager: version
//! comparison and release-feed parsing, health-check scheduling rules,
//! credential and token handling, admin request validation and the SQL
//! text the storage layer runs.

pub mod text;
pub mod updater;
pub mod config;
pub mod checker;
pub mod auth;
pub mod api;
pub mod query;
pub mod memory;
pub mod migration;
pub mod sync;
pub mod models;
pub mod api_keys;
