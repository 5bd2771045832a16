//! The verified core of a bot that connects chat platforms and voice channels to
//! coding agents.

pub mod acp;
pub mod acp_turn;
pub mod acp_turn_driver;
pub mod adapter;
pub mod bytes;
pub mod discord_voice;
pub mod discord_voice_intent;
pub mod discord_voice_interpreter;
pub mod discord_voice_runtime;
pub mod discord_voice_speech;
pub mod ids;
pub mod json;
pub mod laws;
pub mod redact;
pub mod text;
pub mod tts;
