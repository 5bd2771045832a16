//! The agent client protocol: messages, connections and turns.

pub mod connection;
pub mod environment;
pub mod protocol;
