//! Verified core of a Twitch chat logger: which chat messages are kept,
//! what the HTTP API reports about users and channels, and the values
//! exchanged with the configuration and classification services.

pub mod controllers;
pub mod db;
pub mod models;
pub mod routes;
pub mod twitchclient;
