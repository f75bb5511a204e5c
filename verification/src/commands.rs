//! The decisions of the frontend commands: which model serves a request,
//! which request body is sent, how the response is read, and which errors
//! are reported.

pub mod generation;
pub mod translation;
