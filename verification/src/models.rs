//! Data types exchanged with the configuration file, the database and the frontend.

pub mod api;
pub mod config;
pub mod message;
