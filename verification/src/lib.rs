//! Verified core of a plugin-driven backend infrastructure library.

pub mod error;
pub mod frame;
pub mod lock;
pub(crate) mod strmap;
pub mod text;
pub mod keys;
pub mod crypto;
pub mod mq;
pub mod cluster;
pub mod i18n;
pub mod config;
pub mod compress;
pub mod codec;
pub mod yaml;
pub mod net;
pub mod middleware;
pub mod cli;
pub mod file_store;
pub mod health;
pub mod log;
pub mod config_watch;
pub mod http_client;
pub mod remote;
pub mod cache;
