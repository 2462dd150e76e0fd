//! The evaluation server's rules: configuration, evaluation, key and session
//! handling, and the request handlers' decisions.
pub mod config;
pub mod digest;
pub mod eval;
pub mod handlers;
