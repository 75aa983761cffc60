//! The LanguageTool side: the check request, its reply, and the messages exchanged with it.
pub mod client;
pub mod models;
pub mod service;
