//! Verified core of the SDRR / One ROM tooling.

pub mod builder;
pub mod config;
pub mod hardware;
pub mod meta;
pub mod net;
pub mod preprocessor;
pub mod sdrr_types;
pub mod studio;
pub mod text;
pub mod utils;
