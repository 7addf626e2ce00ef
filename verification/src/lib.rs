use vstd::prelude::*;

pub mod api;
pub mod api_config;
pub mod authenticated_client;
pub mod backup;
pub mod cli_ui;
pub mod client_ui;
pub mod clock;
pub mod config;
pub mod config_manager;
pub mod container;
pub mod database;
pub mod db;
pub mod database_manager;
pub mod downloader;
pub mod error;
pub mod hashing;
pub mod json;
pub mod split;
pub mod sql_text;
pub mod sql_diff;
pub mod text;
pub mod upgrade;

pub use error::DuckError;

verus! {
} // verus!
