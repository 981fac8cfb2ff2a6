//! What one's activity reveals to other people and to third-party servers.
//! Each toggle takes effect at once and is saved.

use vstd::prelude::*;

verus! {

/// What is shared.
#[derive(Debug, Clone, Copy, PartialEq, Eq, Structural)]
pub struct PrivacyConfig {
    pub send_read_receipts: bool,
    pub send_typing_notifications: bool,
    pub enable_link_previews: bool,
}

impl Default for PrivacyConfig {
    /// Nothing is shared until it is turned on.
    fn default() -> (r: Self)
        ensures
            !r.send_read_receipts && !r.send_typing_notifications && !r.enable_link_previews,
    {
        PrivacyConfig {
            send_read_receipts: false,
            send_typing_notifications: false,
            enable_link_previews: false,
        }
    }
}

/// What the tab reacts to.
#[derive(Debug, Clone, Copy, PartialEq, Eq, Structural)]
pub enum Message {
    ReadReceiptsToggled(bool),
    TypingToggled(bool),
    LinkPreviewsToggled(bool),
    /// The settings were written.
    Saved,
}

/// The settings after a message.
pub open spec fn after(c: PrivacyConfig, message: Message) -> PrivacyConfig {
    match message {
        Message::ReadReceiptsToggled(on) => PrivacyConfig { send_read_receipts: on, ..c },
        Message::TypingToggled(on) => PrivacyConfig { send_typing_notifications: on, ..c },
        Message::LinkPreviewsToggled(on) => PrivacyConfig { enable_link_previews: on, ..c },
        Message::Saved => c,
    }
}

/// Reacts to a message, and says whether the settings are to be saved.
pub fn update(privacy: &mut PrivacyConfig, message: Message) -> (save: bool)
    ensures
        *final(privacy) == after(*old(privacy), message),
        save == !(message is Saved),
{
    match message {
        Message::ReadReceiptsToggled(on) => {
            privacy.send_read_receipts = on;
        },
        Message::TypingToggled(on) => {
            privacy.send_typing_notifications = on;
        },
        Message::LinkPreviewsToggled(on) => {
            privacy.enable_link_previews = on;
        },
        Message::Saved => {
            return false;
        },
    }
    true
}

} // verus!
