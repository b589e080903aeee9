//! A conversational client core for a remote text-completion service.
//!
//! The library keeps a branching history of exchanges, builds a bounded-size
//! prompt context for each new turn by walking an ancestor chain under a token
//! budget, and decodes the server-push event stream of an incremental reply.
//! Network transport and JSON wire handling live outside the library; the
//! logic here is specified and verified.
pub mod client;
pub mod error;
pub mod history;
pub mod prompt;
pub mod stream;
pub mod tokenizer;
pub mod types;
