//! The adapter of one engine: what it reads from the engine, what it writes
//! to it, and how it turns responses into actions and events into commands.

pub mod engine;
pub mod handshake;
pub mod reader;
pub mod writer;
