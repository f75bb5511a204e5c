//! Request building, response extraction and bookkeeping rules of an
//! image-generation desktop client, with their contracts.

pub mod commands;
pub mod error;
pub mod json;
pub mod models;
pub mod services;
pub mod text;
