//! A small static-file HTTP server: the request-to-path resolution and the
//! response-construction pipeline, verified.
//!
//! The network and the file system stay with the caller: the pipeline in
//! [`serve`] asks for the facts it needs about the file system as plain
//! values and answers with plain responses.

pub mod auth;
pub mod config;
pub mod error;
pub mod ext;
pub mod path;
pub mod response;
pub mod serve;
pub mod text;

pub use auth::Auth;
pub use config::Config;
pub use error::{log_error_chain, Error, IoError};
pub use response::{Body, Reply};
