//! Google Ads query building, response flattening, error summaries and
//! command-line decision logic, with their contracts proved by Verus.

pub mod cli;
pub mod client;
pub mod commands;
pub mod error;
pub mod format;
pub mod ids;
pub mod json;
pub mod profile;
pub mod query;
pub mod server;
pub mod text;
