pub mod config;
pub mod wed;
