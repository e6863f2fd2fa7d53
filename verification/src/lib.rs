//! Core logic of a chat-room sweeper: it inspects the unread rooms of a chat
//! service, picks in each eligible room the message up to which the room can
//! safely be acknowledged, and drives rate-limit-aware retries for the API
//! calls that an outer layer performs.

pub mod error;
pub mod models;
pub mod processor;
pub mod retry;
pub mod selector;
pub mod settings;

pub use error::Error;
pub use processor::MessageProcessor;
pub use settings::Settings;
