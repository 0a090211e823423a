//! Adapters that turn native event delivery into asynchronous sequences.
pub mod message_window;
