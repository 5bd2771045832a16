//! Voice sessions: which one a guild has, who speaks in it, and what becomes of their speech.

use vstd::prelude::*;

pub mod manager;
pub mod rendering;
pub mod session;

pub use manager::{DiscordVoiceConfig, DiscordVoiceManager, SttConfig};
pub use rendering::format_timestamp;
pub use session::{
    session_segment_range, CompletedSegment, SegmentJob, SpeakingVoice, VoiceConnectionState,
    VoiceSession, VoiceSessionStatus, VoiceTick,
};

verus! {

/// The identity of one voice session. A session that replaces another in the same guild has
/// another identity.
#[derive(Debug, Clone, Copy, PartialEq, Eq, Structural)]
pub struct VoiceSessionToken {
    guild_id: u64,
    session_id: u64,
}

impl VoiceSessionToken {
    pub closed spec fn guild(self) -> u64 {
        self.guild_id
    }

    pub closed spec fn session(self) -> u64 {
        self.session_id
    }

    /// The token of a session in a guild.
    pub(crate) fn new(guild_id: u64, session_id: u64) -> (r: Self)
        ensures
            r.guild() == guild_id,
            r.session() == session_id,
    {
        VoiceSessionToken { guild_id, session_id }
    }

    /// A token of a session that no manager started.
    pub fn for_test(guild_id: u64, session_id: u64) -> (r: Self)
        ensures
            r.guild() == guild_id,
            r.session() == session_id,
    {
        VoiceSessionToken { guild_id, session_id }
    }

    pub fn guild_id(self) -> (r: u64)
        ensures
            r == self.guild(),
    {
        self.guild_id
    }

    pub fn session_id(self) -> (r: u64)
        ensures
            r == self.session(),
    {
        self.session_id
    }

    /// A token is its guild and its session.
    pub proof fn lemma_identity(a: VoiceSessionToken, b: VoiceSessionToken)
        ensures
            a == b <==> a.guild() == b.guild() && a.session() == b.session(),
    {
    }
}

} // verus!
