//! Server-side engine of an ephemeral group chat whose messages grow one
//! keystroke at a time, as their authors type them.
//!
//! - [`message`]: messages, keystrokes and events.
//! - [`store`]: the ordered, append-only message log.
//! - [`sessions`]: which message each session is currently authoring.
//! - [`frame`]: the binary keystroke frames spoken on the keystroke channel.
//! - [`bus`]: broadcast buses that fan events and keystrokes out to subscribers.
//! - [`chat`]: the request and frame handling that ties these together.
//! - [`render`]: how a client turns a raw authoring log into visible text.
pub mod bus;
pub mod chat;
pub mod frame;
pub mod message;
pub mod render;
pub mod sessions;
pub mod store;
mod text;
