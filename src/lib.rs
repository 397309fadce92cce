//! A bridge that lets a script running inside an embedded browser view call
//! named native functions and receive their results in a binary envelope.
//!
//! Commands are registered by name; each gets a url-name (its name with dashes
//! for underscores) under which the script posts its encoded arguments, on a
//! synchronous or an asynchronous channel. The router resolves the request,
//! decodes, runs, encodes and answers with exactly one response.

pub mod client;
pub mod envelope;
pub mod registry;
pub mod response;
pub mod router;
pub mod url;

pub use response::{handle_deserialization_error, handle_serialization_error, handle_unknown_command};
pub use url::command_to_url;
