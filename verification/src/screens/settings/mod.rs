//! The settings panel: its tabs, and what each of them asks for.

pub mod appearance;
pub mod connectors;
pub mod encryption;
pub mod general;
pub mod manual;
pub mod notifications;
pub mod privacy;

use vstd::prelude::*;

use crate::events::{NotificationMode, NotificationScope};
use crate::screens::settings::encryption::EncryptionConfig;
use crate::screens::settings::general::Configs;
use crate::screens::settings::privacy::PrivacyConfig;
use crate::screens::verification;
use crate::theme_config::ThemeConfig;

verus! {

/// The tabs.
#[derive(Debug, Clone, Copy, PartialEq, Eq, Structural)]
pub enum Tab {
    General,
    Privacy,
    Encryption,
    Notifications,
    RoomAdmin,
    Appearance,
    Security,
}

impl Tab {
    /// What the tab reads.
    pub open spec fn label_of(self) -> Seq<char> {
        match self {
            Tab::General => "General"@,
            Tab::Privacy => "Privacy"@,
            Tab::Encryption => "Encryption"@,
            Tab::Notifications => "Notifications"@,
            Tab::RoomAdmin => "Room Admin"@,
            Tab::Appearance => "Appearance"@,
            Tab::Security => "Security"@,
        }
    }

    /// What the tab reads.
    pub fn label(self) -> (r: &'static str)
        ensures
            r@ == self.label_of(),
    {
        match self {
            Tab::General => "General",
            Tab::Privacy => "Privacy",
            Tab::Encryption => "Encryption",
            Tab::Notifications => "Notifications",
            Tab::RoomAdmin => "Room Admin",
            Tab::Appearance => "Appearance",
            Tab::Security => "Security",
        }
    }
}

/// The tabs, in order.
pub fn tabs() -> (r: Vec<Tab>)
    ensures
        r@ == seq![
            Tab::General,
            Tab::Privacy,
            Tab::Encryption,
            Tab::Notifications,
            Tab::RoomAdmin,
            Tab::Appearance,
            Tab::Security,
        ],
{
    vec![
        Tab::General,
        Tab::Privacy,
        Tab::Encryption,
        Tab::Notifications,
        Tab::RoomAdmin,
        Tab::Appearance,
        Tab::Security,
    ]
}

/// The panel's state.
#[derive(Debug)]
pub struct State {
    pub tab: Tab,
    pub general: general::State,
    pub appearance: appearance::State,
}

impl State {
    /// A theme editor that fits.
    pub open spec fn wf(&self) -> bool {
        self.appearance.wf()
    }

    /// The panel as the application starts: its fields show the theme.
    pub fn new(theme: &ThemeConfig, autostart_enabled: bool) -> (r: Self)
        ensures
            r.tab == Tab::General,
            r.general == (general::State {
                confirm_logout: false,
                confirm_log_clear: false,
                autostart_enabled,
                log_copy_status: general::LogCopyStatus::Idle,
                log_clear_status: general::LogClearStatus::Idle,
            }),
            r.appearance.shows(*theme),
            r.wf(),
    {
        State {
            tab: Tab::General,
            general: general::State::new(autostart_enabled),
            appearance: appearance::State::synced_from(theme),
        }
    }
}

/// What the panel reacts to.
#[derive(Debug)]
pub enum Message {
    TabSelected(Tab),
    General(general::Message),
    Privacy(privacy::Message),
    Encryption(encryption::Message),
    Notifications(notifications::Message),
    Appearance(appearance::Message),
    /// The security tab shows the backup, which the verification screen owns.
    Security(verification::Message),
}

/// What is to be carried out beyond the panel.
#[derive(Debug)]
pub enum Effect {
    Nothing,
    Logout,
    SetDefaultNotificationMode { scope: NotificationScope, mode: NotificationMode },
    /// A message for the verification screen.
    Verification(verification::Message),
}

/// What is to be done outside.
#[derive(Debug)]
pub enum Task {
    Nothing,
    General(general::Task),
    SavePrivacy,
    SaveEncryption,
    Appearance(appearance::Task),
}

/// The settings that the panel edits.
#[derive(Debug)]
pub struct Edited {
    pub theme: ThemeConfig,
    pub privacy: PrivacyConfig,
    pub encryption: EncryptionConfig,
    pub configs: Configs,
}

/// What a message makes of the panel and of the settings: each tab changes
/// its own.
pub open spec fn updated(
    s0: State,
    s: State,
    e0: Edited,
    e: Edited,
    message: Message,
    r: (Task, Effect),
) -> bool {
    match message {
        Message::TabSelected(tab) => s == (State { tab, ..s0 }) && e == e0 && r.0 is Nothing
            && r.1 is Nothing,
        Message::General(m) => {
            &&& s == (State { general: general::state_after(s0.general, m), ..s0 })
            &&& e == (Edited { configs: general::configs_after(e0.configs, m), ..e0 })
            &&& r.0 == Task::General(general::task_of(m))
            &&& r.1 == if m is ConfirmLogout {
                Effect::Logout
            } else {
                Effect::Nothing
            }
        },
        Message::Privacy(m) => {
            &&& s == s0
            &&& e == (Edited { privacy: privacy::after(e0.privacy, m), ..e0 })
            &&& r.0 == if m is Saved {
                Task::Nothing
            } else {
                Task::SavePrivacy
            }
            &&& r.1 is Nothing
        },
        Message::Encryption(m) => {
            &&& s == s0
            &&& e == (Edited { encryption: encryption::after(e0.encryption, m), ..e0 })
            &&& r.0 == if m is Saved {
                Task::Nothing
            } else {
                Task::SaveEncryption
            }
            &&& r.1 is Nothing
        },
        Message::Notifications(m) => {
            &&& s == s0
            &&& e == e0
            &&& r.0 is Nothing
            &&& r.1 == match m {
                notifications::Message::DirectDefaultChanged(c) => {
                    Effect::SetDefaultNotificationMode {
                        scope: NotificationScope::DirectMessages,
                        mode: c.mode_of(),
                    }
                },
                notifications::Message::GroupDefaultChanged(c) => {
                    Effect::SetDefaultNotificationMode {
                        scope: NotificationScope::GroupChats,
                        mode: c.mode_of(),
                    }
                },
            }
        },
        Message::Appearance(m) => {
            &&& s == (State { appearance: s.appearance, ..s0 })
            &&& e == (Edited { theme: e.theme, ..e0 })
            &&& r.0 matches Task::Appearance(t) && appearance::updated(
                s0.appearance,
                s.appearance,
                e0.theme,
                e.theme,
                m,
                t,
            )
            &&& r.1 is Nothing
        },
        Message::Security(m) => s == s0 && e == e0 && r.0 is Nothing && r.1
            == Effect::Verification(m),
    }
}

/// Reacts to a message.
pub fn update(state: &mut State, edited: &mut Edited, message: Message) -> (r: (Task, Effect))
    requires
        old(state).wf(),
    ensures
        final(state).wf(),
        updated(*old(state), *final(state), *old(edited), *final(edited), message, r),
{
    match message {
        Message::TabSelected(tab) => {
            state.tab = tab;
            (Task::Nothing, Effect::Nothing)
        },
        Message::General(m) => {
            let (task, effect) = general::update(&mut state.general, &mut edited.configs, m);
            (Task::General(task), effect)
        },
        Message::Privacy(m) => {
            let save = privacy::update(&mut edited.privacy, m);
            (
                if save {
                    Task::SavePrivacy
                } else {
                    Task::Nothing
                },
                Effect::Nothing,
            )
        },
        Message::Encryption(m) => {
            let save = encryption::update(&mut edited.encryption, m);
            (
                if save {
                    Task::SaveEncryption
                } else {
                    Task::Nothing
                },
                Effect::Nothing,
            )
        },
        Message::Notifications(m) => (Task::Nothing, notifications::update(m)),
        Message::Appearance(m) => {
            let task = appearance::update(&mut state.appearance, &mut edited.theme, m);
            (Task::Appearance(task), Effect::Nothing)
        },
        Message::Security(m) => (Task::Nothing, Effect::Verification(m)),
    }
}

// ---------------------------------------------------------------------------
// Laws.
// ---------------------------------------------------------------------------
/// Each toggle of what is shared sets its own switch to what was chosen, and
/// is saved; nothing else of the settings changes.
pub proof fn law_privacy_toggles(
    s0: State,
    s: State,
    e0: Edited,
    e: Edited,
    m: privacy::Message,
    r: (Task, Effect),
)
    requires
        updated(s0, s, e0, e, Message::Privacy(m), r),
    ensures
        m matches privacy::Message::ReadReceiptsToggled(on) ==> e.privacy.send_read_receipts == on,
        m matches privacy::Message::TypingToggled(on) ==> e.privacy.send_typing_notifications == on,
        m matches privacy::Message::LinkPreviewsToggled(on) ==> e.privacy.enable_link_previews == on,
        !(m is ReadReceiptsToggled) ==> e.privacy.send_read_receipts
            == e0.privacy.send_read_receipts,
        !(m is TypingToggled) ==> e.privacy.send_typing_notifications
            == e0.privacy.send_typing_notifications,
        !(m is LinkPreviewsToggled) ==> e.privacy.enable_link_previews
            == e0.privacy.enable_link_previews,
        !(m is Saved) ==> r.0 is SavePrivacy,
        e.theme == e0.theme && e.encryption == e0.encryption && e.configs == e0.configs && s == s0,
{
}

/// The same for what is encrypted when it is created.
pub proof fn law_encryption_toggles(
    s0: State,
    s: State,
    e0: Edited,
    e: Edited,
    m: encryption::Message,
    r: (Task, Effect),
)
    requires
        updated(s0, s, e0, e, Message::Encryption(m), r),
    ensures
        m matches encryption::Message::DirectMessagesToggled(on)
            ==> e.encryption.encrypt_direct_messages == on,
        m matches encryption::Message::RoomsToggled(on) ==> e.encryption.encrypt_rooms == on,
        !(m is DirectMessagesToggled) ==> e.encryption.encrypt_direct_messages
            == e0.encryption.encrypt_direct_messages,
        !(m is RoomsToggled) ==> e.encryption.encrypt_rooms == e0.encryption.encrypt_rooms,
        !(m is Saved) ==> r.0 is SaveEncryption,
        e.theme == e0.theme && e.privacy == e0.privacy && e.configs == e0.configs && s == s0,
{
}

/// A default that is chosen is set for its own kind of room.
pub proof fn law_notification_defaults(
    s0: State,
    s: State,
    e0: Edited,
    e: Edited,
    c: notifications::ModeChoice,
    m: notifications::Message,
    r: (Task, Effect),
)
    requires
        updated(s0, s, e0, e, Message::Notifications(m), r),
        m == notifications::Message::DirectDefaultChanged(c) || m
            == notifications::Message::GroupDefaultChanged(c),
    ensures
        r.1 is SetDefaultNotificationMode,
        r.1->scope == if m is DirectDefaultChanged {
            NotificationScope::DirectMessages
        } else {
            NotificationScope::GroupChats
        },
        c is All ==> r.1->mode == NotificationMode::AllMessages,
        c is Mentions ==> r.1->mode == NotificationMode::MentionsAndKeywordsOnly,
        c is Mute ==> r.1->mode == NotificationMode::Mute,
        e == e0 && s == s0,
{
}

/// Each switch of the general tab sets its own setting to what was chosen, and
/// has it saved.
pub proof fn law_general_toggles(
    s0: State,
    s: State,
    e0: Edited,
    e: Edited,
    m: general::Message,
    r: (Task, Effect),
)
    requires
        updated(s0, s, e0, e, Message::General(m), r),
    ensures
        m matches general::Message::SpellcheckToggled(on) ==> e.configs.spellcheck.enabled == on
            && r.0 == Task::General(general::Task::SaveSpellcheck),
        m matches general::Message::AutocorrectToggled(on) ==> e.configs.spellcheck.autocorrect
            == on && r.0 == Task::General(general::Task::SaveSpellcheck),
        m matches general::Message::ShowMembershipEventsToggled(on)
            ==> e.configs.chat.show_membership_events == on && r.0 == Task::General(
            general::Task::SaveChat,
        ),
        m matches general::Message::PreferIntegratedGpuToggled(on)
            ==> e.configs.window.prefer_integrated_gpu == on && r.0 == Task::General(
            general::Task::SaveWindow,
        ),
        m matches general::Message::PreferDx12BackendToggled(on)
            ==> e.configs.window.prefer_dx12_backend == on && r.0 == Task::General(
            general::Task::SaveWindow,
        ),
        m matches general::Message::LogLevelSelected(level) ==> e.configs.log.level == level && r.0
            == Task::General(general::Task::SaveLog),
        m matches general::Message::AutostartToggled(on) ==> r.0 == Task::General(
            general::Task::SetAutostart(on),
        ) && e == e0,
        !(m is SpellcheckToggled) ==> e.configs.spellcheck.enabled == e0.configs.spellcheck.enabled,
        !(m is AutocorrectToggled) ==> e.configs.spellcheck.autocorrect
            == e0.configs.spellcheck.autocorrect,
        !(m is ShowMembershipEventsToggled) ==> e.configs.chat == e0.configs.chat,
        !(m is PreferIntegratedGpuToggled) ==> e.configs.window.prefer_integrated_gpu
            == e0.configs.window.prefer_integrated_gpu,
        !(m is PreferDx12BackendToggled) ==> e.configs.window.prefer_dx12_backend
            == e0.configs.window.prefer_dx12_backend,
        !(m is LogLevelSelected) ==> e.configs.log == e0.configs.log,
        e.theme == e0.theme && e.privacy == e0.privacy && e.encryption == e0.encryption,
{
}

/// Signing out takes two steps: only a confirmation signs out, asking shows
/// the question, and any answer closes it. Autostart shows what the system did
/// and not what was asked of it.
pub proof fn law_signing_out_is_confirmed(
    s0: State,
    s: State,
    e0: Edited,
    e: Edited,
    message: Message,
    r: (Task, Effect),
)
    requires
        updated(s0, s, e0, e, message, r),
    ensures
        r.1 is Logout == (message matches Message::General(m) && m is ConfirmLogout),
        message == Message::General(general::Message::RequestLogout) ==> s.general.confirm_logout,
        message == Message::General(general::Message::ConfirmLogout)
            ==> !s.general.confirm_logout,
        message == Message::General(general::Message::CancelLogout) ==> !s.general.confirm_logout,
        message matches Message::General(general::Message::AutostartChanged { enabled, done })
            ==> s.general.autostart_enabled == if done {
            enabled
        } else {
            s0.general.autostart_enabled
        },
        message matches Message::General(general::Message::AutostartToggled(on))
            ==> s.general.autostart_enabled == s0.general.autostart_enabled,
        message matches Message::TabSelected(tab) ==> s.tab == tab && e == e0,
        !(message is TabSelected) ==> s.tab == s0.tab,
        message matches Message::Security(m) ==> r.1 == Effect::Verification(m),
{
}

} // verus!
