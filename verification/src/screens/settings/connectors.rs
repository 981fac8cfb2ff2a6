//! Announcing the game that is running in the room on screen. Each toggle
//! takes effect at once and is saved.

use vstd::prelude::*;

verus! {

/// Which launchers are watched, and how.
#[derive(Debug, Clone, Copy, PartialEq, Eq, Structural)]
pub struct ConnectorsConfig {
    pub steam_enabled: bool,
    pub gog_enabled: bool,
    pub epic_enabled: bool,
    /// Whether the end of a game is announced too.
    pub announce_stop: bool,
    pub poll_interval_secs: u64,
}

impl ConnectorsConfig {
    /// Whether any launcher is watched.
    pub open spec fn some_enabled(self) -> bool {
        self.steam_enabled || self.gog_enabled || self.epic_enabled
    }

    /// Whether any launcher is watched.
    pub fn any_enabled(&self) -> (r: bool)
        ensures
            r == self.some_enabled(),
    {
        self.steam_enabled || self.gog_enabled || self.epic_enabled
    }
}

/// What the tab reacts to.
#[derive(Debug, Clone, Copy, PartialEq, Eq, Structural)]
pub enum Message {
    SteamToggled(bool),
    GogToggled(bool),
    EpicToggled(bool),
    AnnounceStopToggled(bool),
    /// The settings were written.
    Saved,
}

/// The settings after a message.
pub open spec fn after(c: ConnectorsConfig, message: Message) -> ConnectorsConfig {
    match message {
        Message::SteamToggled(on) => ConnectorsConfig { steam_enabled: on, ..c },
        Message::GogToggled(on) => ConnectorsConfig { gog_enabled: on, ..c },
        Message::EpicToggled(on) => ConnectorsConfig { epic_enabled: on, ..c },
        Message::AnnounceStopToggled(on) => ConnectorsConfig { announce_stop: on, ..c },
        Message::Saved => c,
    }
}

/// Reacts to a message, and says whether the settings are to be saved.
pub fn update(connectors: &mut ConnectorsConfig, message: Message) -> (save: bool)
    ensures
        *final(connectors) == after(*old(connectors), message),
        save == !(message is Saved),
{
    match message {
        Message::SteamToggled(on) => {
            connectors.steam_enabled = on;
        },
        Message::GogToggled(on) => {
            connectors.gog_enabled = on;
        },
        Message::EpicToggled(on) => {
            connectors.epic_enabled = on;
        },
        Message::AnnounceStopToggled(on) => {
            connectors.announce_stop = on;
        },
        Message::Saved => {
            return false;
        },
    }
    true
}

/// Each toggle sets its own switch to what was chosen and no other; any
/// launcher that is on is watched.
pub proof fn law_connector_toggles(c: ConnectorsConfig, m: Message)
    ensures
        m matches Message::SteamToggled(on) ==> after(c, m).steam_enabled == on,
        m matches Message::GogToggled(on) ==> after(c, m).gog_enabled == on,
        m matches Message::EpicToggled(on) ==> after(c, m).epic_enabled == on,
        m matches Message::AnnounceStopToggled(on) ==> after(c, m).announce_stop == on,
        !(m is SteamToggled) ==> after(c, m).steam_enabled == c.steam_enabled,
        !(m is GogToggled) ==> after(c, m).gog_enabled == c.gog_enabled,
        !(m is EpicToggled) ==> after(c, m).epic_enabled == c.epic_enabled,
        !(m is AnnounceStopToggled) ==> after(c, m).announce_stop == c.announce_stop,
        after(c, m).poll_interval_secs == c.poll_interval_secs,
        c.steam_enabled || c.gog_enabled || c.epic_enabled ==> c.some_enabled(),
        !c.steam_enabled && !c.gog_enabled && !c.epic_enabled ==> !c.some_enabled(),
{
}

} // verus!
