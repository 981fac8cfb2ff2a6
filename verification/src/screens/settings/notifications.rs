//! The account's default notification modes, for direct messages and for
//! group chats: what a room follows that has no override of its own.

use vstd::prelude::*;

use crate::events::{NotificationMode, NotificationScope};
use crate::screens::settings::Effect;

verus! {

/// The options of a default.
#[derive(Debug, Clone, Copy, PartialEq, Eq, Structural)]
pub enum ModeChoice {
    All,
    Mentions,
    Mute,
}

impl ModeChoice {
    /// The option for a mode.
    pub open spec fn of_mode(mode: NotificationMode) -> ModeChoice {
        match mode {
            NotificationMode::AllMessages => ModeChoice::All,
            NotificationMode::MentionsAndKeywordsOnly => ModeChoice::Mentions,
            NotificationMode::Mute => ModeChoice::Mute,
        }
    }

    /// The mode that the option stands for.
    pub open spec fn mode_of(self) -> NotificationMode {
        match self {
            ModeChoice::All => NotificationMode::AllMessages,
            ModeChoice::Mentions => NotificationMode::MentionsAndKeywordsOnly,
            ModeChoice::Mute => NotificationMode::Mute,
        }
    }

    /// What the option reads.
    pub open spec fn label_of(self) -> Seq<char> {
        match self {
            ModeChoice::All => "All messages"@,
            ModeChoice::Mentions => "Mentions only"@,
            ModeChoice::Mute => "Mute"@,
        }
    }

    /// The option for a mode.
    pub fn from_mode(mode: NotificationMode) -> (r: Self)
        ensures
            r == Self::of_mode(mode),
    {
        match mode {
            NotificationMode::AllMessages => ModeChoice::All,
            NotificationMode::MentionsAndKeywordsOnly => ModeChoice::Mentions,
            NotificationMode::Mute => ModeChoice::Mute,
        }
    }

    /// The mode that the option stands for.
    pub fn to_mode(self) -> (r: NotificationMode)
        ensures
            r == self.mode_of(),
    {
        match self {
            ModeChoice::All => NotificationMode::AllMessages,
            ModeChoice::Mentions => NotificationMode::MentionsAndKeywordsOnly,
            ModeChoice::Mute => NotificationMode::Mute,
        }
    }

    /// What the option reads.
    pub fn label(self) -> (r: &'static str)
        ensures
            r@ == self.label_of(),
    {
        match self {
            ModeChoice::All => "All messages",
            ModeChoice::Mentions => "Mentions only",
            ModeChoice::Mute => "Mute",
        }
    }
}

/// The options, in order.
pub fn mode_choices() -> (r: Vec<ModeChoice>)
    ensures
        r@ == seq![ModeChoice::All, ModeChoice::Mentions, ModeChoice::Mute],
{
    vec![ModeChoice::All, ModeChoice::Mentions, ModeChoice::Mute]
}

/// What the tab reacts to.
#[derive(Debug, Clone, Copy, PartialEq, Eq, Structural)]
pub enum Message {
    DirectDefaultChanged(ModeChoice),
    GroupDefaultChanged(ModeChoice),
}

/// Reacts to a message: the default is the server's to change.
pub fn update(message: Message) -> (r: Effect)
    ensures
        r == match message {
            Message::DirectDefaultChanged(c) => Effect::SetDefaultNotificationMode {
                scope: NotificationScope::DirectMessages,
                mode: c.mode_of(),
            },
            Message::GroupDefaultChanged(c) => Effect::SetDefaultNotificationMode {
                scope: NotificationScope::GroupChats,
                mode: c.mode_of(),
            },
        },
{
    match message {
        Message::DirectDefaultChanged(choice) => Effect::SetDefaultNotificationMode {
            scope: NotificationScope::DirectMessages,
            mode: choice.to_mode(),
        },
        Message::GroupDefaultChanged(choice) => Effect::SetDefaultNotificationMode {
            scope: NotificationScope::GroupChats,
            mode: choice.to_mode(),
        },
    }
}

/// Options and modes correspond one to one.
pub proof fn law_choices_and_modes_correspond(choice: ModeChoice, mode: NotificationMode)
    ensures
        ModeChoice::of_mode(choice.mode_of()) == choice,
        ModeChoice::of_mode(mode).mode_of() == mode,
{
}

} // verus!
