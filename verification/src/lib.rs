//! Event-driven YAML core: a token-to-event parser state machine, a document
//! composer, and an emitter that turns an event stream back into YAML text.

pub mod analysis;
pub mod api;
pub mod document;
pub mod emitter;
pub mod emitter_machine;
pub mod event;
pub mod loader;
pub mod parser;
pub mod scalar_writer;
pub mod token;
pub mod types;
pub mod writer;
