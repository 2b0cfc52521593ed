//! The per-guild settings: mod log channel, mute role and user log channel.
use vstd::prelude::*;

verus! {

/// The settings of a guild; each one is optional.
#[derive(Clone, Copy, Debug, PartialEq, Eq, Structural)]
pub struct Guild {
    pub modlog_channel: Option<u64>,
    pub mute_role: Option<u64>,
    pub userlog_channel: Option<u64>,
}

impl Default for Guild {
    /// No setting made.
    fn default() -> (g: Guild)
        ensures
            g == no_settings(),
    {
        Guild { modlog_channel: None, mute_role: None, userlog_channel: None }
    }
}

/// The settings of a guild that has made none.
pub open spec fn no_settings() -> Guild {
    Guild { modlog_channel: None, mute_role: None, userlog_channel: None }
}

/// How a changed setting is stored: the guild's settings updated, or created when the guild
/// had none stored.
#[derive(Clone, Copy, Debug, PartialEq, Eq, Structural)]
pub enum ConfigWrite {
    Update(Guild),
    Create(Guild),
}

/// Sets the mod log channel: the stored settings with that channel, or new settings holding
/// only it.
pub fn set_modlog(existing: Option<Guild>, channel: u64) -> (w: ConfigWrite)
    ensures
        w == (match existing {
            Some(g) => ConfigWrite::Update(Guild { modlog_channel: Some(channel), ..g }),
            None => ConfigWrite::Create(Guild { modlog_channel: Some(channel), ..no_settings() }),
        }),
{
    match existing {
        Some(g) => ConfigWrite::Update(Guild { modlog_channel: Some(channel), ..g }),
        None => {
            let mut g = Guild::default();
            g.modlog_channel = Some(channel);
            ConfigWrite::Create(g)
        },
    }
}

/// Sets the user log channel: the stored settings with that channel. A guild without stored
/// settings gets new ones that hold the channel as their mod log channel.
pub fn set_userlog(existing: Option<Guild>, channel: u64) -> (w: ConfigWrite)
    ensures
        w == (match existing {
            Some(g) => ConfigWrite::Update(Guild { userlog_channel: Some(channel), ..g }),
            None => ConfigWrite::Create(Guild { modlog_channel: Some(channel), ..no_settings() }),
        }),
{
    match existing {
        Some(g) => ConfigWrite::Update(Guild { userlog_channel: Some(channel), ..g }),
        None => {
            let mut g = Guild::default();
            g.modlog_channel = Some(channel);
            ConfigWrite::Create(g)
        },
    }
}

/// Sets the mute role: the stored settings with that role, or new settings holding only it.
pub fn set_muterole(existing: Option<Guild>, role: u64) -> (w: ConfigWrite)
    ensures
        w == (match existing {
            Some(g) => ConfigWrite::Update(Guild { mute_role: Some(role), ..g }),
            None => ConfigWrite::Create(Guild { mute_role: Some(role), ..no_settings() }),
        }),
{
    match existing {
        Some(g) => ConfigWrite::Update(Guild { mute_role: Some(role), ..g }),
        None => {
            let mut g = Guild::default();
            g.mute_role = Some(role);
            ConfigWrite::Create(g)
        },
    }
}

} // verus!
