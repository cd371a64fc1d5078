use vstd::prelude::*;

verus! {

/// Identity of a voice destination: a channel inside a server, or a direct call.
#[derive(Clone, Copy, Debug, PartialEq, Eq, Structural)]
pub enum VoiceChannelKey {
    ServerChannel { server_id: u64, channel_id: u64 },
    DirectChannel { channel_id: u64 },
}

impl VoiceChannelKey {
    /// The key for a voice channel reached through an optional server scope.
    pub fn of(server_id: Option<u64>, channel_id: u64) -> (r: VoiceChannelKey)
        ensures
            r == (match server_id {
                Some(s) => VoiceChannelKey::ServerChannel { server_id: s, channel_id },
                None => VoiceChannelKey::DirectChannel { channel_id },
            }),
    {
        match server_id {
            Some(s) => VoiceChannelKey::ServerChannel { server_id: s, channel_id },
            None => VoiceChannelKey::DirectChannel { channel_id },
        }
    }

    pub open spec fn spec_channel_id(self) -> u64 {
        match self {
            VoiceChannelKey::ServerChannel { channel_id, .. } => channel_id,
            VoiceChannelKey::DirectChannel { channel_id } => channel_id,
        }
    }

    pub open spec fn spec_server_id(self) -> Option<u64> {
        match self {
            VoiceChannelKey::ServerChannel { server_id, .. } => Some(server_id),
            VoiceChannelKey::DirectChannel { .. } => None,
        }
    }

    /// The channel id, whatever the kind of destination.
    pub fn channel_id(&self) -> (r: u64)
        ensures
            r == self.spec_channel_id(),
    {
        match self {
            VoiceChannelKey::ServerChannel { channel_id, .. } => *channel_id,
            VoiceChannelKey::DirectChannel { channel_id } => *channel_id,
        }
    }

    /// The owning server, or `None` for a direct call.
    pub fn server_id(&self) -> (r: Option<u64>)
        ensures
            r == self.spec_server_id(),
    {
        match self {
            VoiceChannelKey::ServerChannel { server_id, .. } => Some(*server_id),
            VoiceChannelKey::DirectChannel { .. } => None,
        }
    }
}

/// A request to the voice transport, addressed by key.
#[derive(Clone, Copy, Debug, PartialEq, Eq, Structural)]
pub enum VoiceAction {
    Connect(VoiceChannelKey),
    SetDeaf(VoiceChannelKey, bool),
    /// Play the stream that was resolved for this request.
    Play(VoiceChannelKey),
    Stop(VoiceChannelKey),
    Disconnect(VoiceChannelKey),
}

} // verus!
