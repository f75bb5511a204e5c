//! The services of the client: request templates and response extraction,
//! configuration checks, database bookkeeping, image encoding and HTTP rules.

pub mod config_loader;
pub mod db;
pub mod image_utils;
pub mod qwen_client;
pub mod template_engine;
