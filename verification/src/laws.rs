//! What the library promises as a whole, in terms of what goes in and what comes out.

pub mod characters;
pub mod intents;
pub mod capture;
pub mod transcripts;
pub mod routing;
pub mod turns;
pub mod answers;
pub mod commands;
pub mod targets;
pub mod broker;
pub mod permissions;
pub mod connections;
pub mod environments;
pub mod sounds;
pub mod redactions;
pub mod interpretations;
pub mod recordings;
pub mod guilds;
pub mod hearing;
pub mod routers;
pub mod driving;
pub mod asking;
pub mod commanding;
pub mod wording;
pub mod values;
