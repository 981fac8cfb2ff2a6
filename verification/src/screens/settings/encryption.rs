//! Whether new conversations are encrypted. Each toggle takes effect at once
//! and is saved.

use vstd::prelude::*;

verus! {

/// What is encrypted when it is created.
#[derive(Debug, Clone, Copy, PartialEq, Eq, Structural)]
pub struct EncryptionConfig {
    pub encrypt_direct_messages: bool,
    pub encrypt_rooms: bool,
}

impl Default for EncryptionConfig {
    /// Neither.
    fn default() -> (r: Self)
        ensures
            !r.encrypt_direct_messages && !r.encrypt_rooms,
    {
        EncryptionConfig { encrypt_direct_messages: false, encrypt_rooms: false }
    }
}

/// What the tab reacts to.
#[derive(Debug, Clone, Copy, PartialEq, Eq, Structural)]
pub enum Message {
    DirectMessagesToggled(bool),
    RoomsToggled(bool),
    /// The settings were written.
    Saved,
}

/// The settings after a message.
pub open spec fn after(c: EncryptionConfig, message: Message) -> EncryptionConfig {
    match message {
        Message::DirectMessagesToggled(on) => EncryptionConfig { encrypt_direct_messages: on, ..c },
        Message::RoomsToggled(on) => EncryptionConfig { encrypt_rooms: on, ..c },
        Message::Saved => c,
    }
}

/// Reacts to a message, and says whether the settings are to be saved.
pub fn update(config: &mut EncryptionConfig, message: Message) -> (save: bool)
    ensures
        *final(config) == after(*old(config), message),
        save == !(message is Saved),
{
    match message {
        Message::DirectMessagesToggled(on) => {
            config.encrypt_direct_messages = on;
        },
        Message::RoomsToggled(on) => {
            config.encrypt_rooms = on;
        },
        Message::Saved => {
            return false;
        },
    }
    true
}

} // verus!
