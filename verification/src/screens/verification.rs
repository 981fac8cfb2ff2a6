//! Security: finishing the setup of secure messaging, verifying devices, and
//! the backup of the message keys.

use vstd::prelude::*;

use crate::events::{RecoveryEnableStage, SasState};
use crate::text;

verus! {

/// The screen's state.
#[derive(Debug)]
pub struct State {
    pub cross_signing_fallback_url: Option<String>,
    pub cross_signing_error: Option<String>,
    pub recovery_setup_needed: bool,
    /// Whether this device lacks message keys. Kept for display: it never
    /// prompts.
    pub recovery_needs_key: bool,
    pub show_passphrase_input: bool,
    pub passphrase_input: String,
    pub recovery_enable_stage: Option<RecoveryEnableStage>,
    /// A fresh recovery key: shown until the user has saved it.
    pub recovery_key_to_confirm: Option<String>,
    pub recovery_key_input: String,
    pub recovery_error: Option<String>,
    pub sas: Option<SasState>,
    pub verify_user_id_input: String,
}

impl State {
    /// Nothing under way, nothing typed.
    pub open spec fn fresh(&self) -> bool {
        &&& self.cross_signing_fallback_url is None
        &&& self.cross_signing_error is None
        &&& !self.recovery_setup_needed
        &&& !self.recovery_needs_key
        &&& !self.show_passphrase_input
        &&& self.passphrase_input@.len() == 0
        &&& self.recovery_enable_stage is None
        &&& self.recovery_key_to_confirm is None
        &&& self.recovery_key_input@.len() == 0
        &&& self.recovery_error is None
        &&& self.sas is None
        &&& self.verify_user_id_input@.len() == 0
    }
}

impl Default for State {
    fn default() -> (r: Self)
        ensures
            r.fresh(),
    {
        State {
            cross_signing_fallback_url: None,
            cross_signing_error: None,
            recovery_setup_needed: false,
            recovery_needs_key: false,
            show_passphrase_input: false,
            passphrase_input: String::new(),
            recovery_enable_stage: None,
            recovery_key_to_confirm: None,
            recovery_key_input: String::new(),
            recovery_error: None,
            sas: None,
            verify_user_id_input: String::new(),
        }
    }
}

/// What the screen reacts to.
#[derive(Debug)]
pub enum Message {
    OpenCrossSigningFallback,
    RetryCrossSigningBootstrap,
    DismissCrossSigningError,
    TogglePassphraseInput,
    PassphraseChanged(String),
    ConfirmEnableRecovery,
    RecoveryKeySaved,
    RecoveryKeyInputChanged(String),
    SubmitRecoveryKey,
    DismissRecoveryError,
    VerifyUserIdChanged(String),
    StartVerification,
    AcceptVerification,
    DeclineVerification,
    ConfirmEmojisMatch,
    RejectEmojisMatch,
    DismissSas,
}

/// What is to be carried out beyond the screen.
#[derive(Debug)]
pub enum Effect {
    Nothing,
    OpenUrl(String),
    RetryCrossSigningBootstrap,
    EnableRecovery { passphrase: Option<String> },
    RestoreFromBackup { recovery_key: String },
    /// Empty: verify this device.
    StartVerification { user_id: String },
    AcceptVerificationRequest,
    ConfirmSasMatch,
    RejectSasMatch,
    VerificationCancel,
}

/// The passphrase of a new backup: what was typed, while the field shows.
pub open spec fn passphrase_of(s: State) -> Option<Seq<char>> {
    let typed = text::trimmed(s.passphrase_input@);
    if s.show_passphrase_input && typed.len() > 0 {
        Some(typed)
    } else {
        None
    }
}

/// Why a flow ends when the emoji differ.
pub open spec fn mismatch() -> Seq<char> {
    "you indicated the emojis did not match"@
}

/// What a message makes of the screen, and what it asks for.
pub open spec fn updated(s0: State, s: State, message: Message, effect: Effect) -> bool {
    match message {
        Message::OpenCrossSigningFallback => s == s0 && effect
            == match s0.cross_signing_fallback_url {
            Some(url) => Effect::OpenUrl(url),
            None => Effect::Nothing,
        },
        Message::RetryCrossSigningBootstrap => s == s0 && effect
            == Effect::RetryCrossSigningBootstrap,
        Message::DismissCrossSigningError => s == (State { cross_signing_error: None, ..s0 })
            && effect is Nothing,
        Message::TogglePassphraseInput => s == (State {
            show_passphrase_input: !s0.show_passphrase_input,
            ..s0
        }) && effect is Nothing,
        Message::PassphraseChanged(v) => s == (State { passphrase_input: v, ..s0 })
            && effect is Nothing,
        Message::ConfirmEnableRecovery => if s0.recovery_enable_stage is Some {
            s == s0 && effect is Nothing
        } else {
            &&& s == (State {
                recovery_enable_stage: Some(RecoveryEnableStage::Starting),
                ..s0
            })
            &&& effect matches Effect::EnableRecovery { passphrase } && match (
                passphrase,
                passphrase_of(s0),
            ) {
                (Some(a), Some(b)) => a@ == b,
                (None, None) => true,
                _ => false,
            }
        },
        Message::RecoveryKeySaved => {
            &&& s == (State {
                recovery_key_to_confirm: None,
                passphrase_input: s.passphrase_input,
                ..s0
            })
            &&& s.passphrase_input@.len() == 0
            &&& effect is Nothing
        },
        Message::RecoveryKeyInputChanged(v) => s == (State { recovery_key_input: v, ..s0 })
            && effect is Nothing,
        Message::SubmitRecoveryKey => {
            let key = text::trimmed(s0.recovery_key_input@);
            &&& s == s0
            &&& if key.len() == 0 {
                effect is Nothing
            } else {
                effect matches Effect::RestoreFromBackup { recovery_key } && recovery_key@ == key
            }
        },
        Message::DismissRecoveryError => s == (State { recovery_error: None, ..s0 })
            && effect is Nothing,
        Message::VerifyUserIdChanged(v) => s == (State { verify_user_id_input: v, ..s0 })
            && effect is Nothing,
        Message::StartVerification => {
            &&& s == s0
            &&& effect matches Effect::StartVerification { user_id } && user_id@ == text::trimmed(
                s0.verify_user_id_input@,
            )
        },
        Message::AcceptVerification => s == s0 && effect == Effect::AcceptVerificationRequest,
        Message::DeclineVerification => s == (State { sas: None, ..s0 }) && effect
            == Effect::VerificationCancel,
        Message::ConfirmEmojisMatch => s == s0 && effect == Effect::ConfirmSasMatch,
        Message::RejectEmojisMatch => {
            &&& s == (State { sas: s.sas, ..s0 })
            &&& s.sas matches Some(SasState::Cancelled { reason }) && reason@ == mismatch()
            &&& effect == Effect::RejectSasMatch
        },
        Message::DismissSas => s == (State { sas: None, ..s0 }) && effect
            == Effect::VerificationCancel,
    }
}

/// Reacts to a message. While a backup is being set up, no second one starts:
/// it would mint a new key, and the first one shown would be dead.
pub fn update(state: &mut State, message: Message) -> (effect: Effect)
    ensures
        updated(*old(state), *final(state), message, effect),
{
    match message {
        Message::OpenCrossSigningFallback => match &state.cross_signing_fallback_url {
            Some(url) => Effect::OpenUrl(url.clone()),
            None => Effect::Nothing,
        },
        Message::RetryCrossSigningBootstrap => Effect::RetryCrossSigningBootstrap,
        Message::DismissCrossSigningError => {
            state.cross_signing_error = None;
            Effect::Nothing
        },
        Message::TogglePassphraseInput => {
            state.show_passphrase_input = !state.show_passphrase_input;
            Effect::Nothing
        },
        Message::PassphraseChanged(v) => {
            state.passphrase_input = v;
            Effect::Nothing
        },
        Message::ConfirmEnableRecovery => {
            if state.recovery_enable_stage.is_some() {
                return Effect::Nothing;
            }
            state.recovery_enable_stage = Some(RecoveryEnableStage::Starting);
            let typed = text::trim(state.passphrase_input.as_str());
            let passphrase = if state.show_passphrase_input && typed.unicode_len() > 0 {
                Some(typed.to_owned())
            } else {
                None
            };
            Effect::EnableRecovery { passphrase }
        },
        Message::RecoveryKeySaved => {
            state.recovery_key_to_confirm = None;
            state.passphrase_input = String::new();
            Effect::Nothing
        },
        Message::RecoveryKeyInputChanged(v) => {
            state.recovery_key_input = v;
            Effect::Nothing
        },
        Message::SubmitRecoveryKey => {
            let key = text::trim(state.recovery_key_input.as_str());
            if key.unicode_len() == 0 {
                return Effect::Nothing;
            }
            Effect::RestoreFromBackup { recovery_key: key.to_owned() }
        },
        Message::DismissRecoveryError => {
            state.recovery_error = None;
            Effect::Nothing
        },
        Message::VerifyUserIdChanged(v) => {
            state.verify_user_id_input = v;
            Effect::Nothing
        },
        Message::StartVerification => Effect::StartVerification {
            user_id: text::trim(state.verify_user_id_input.as_str()).to_owned(),
        },
        Message::AcceptVerification => Effect::AcceptVerificationRequest,
        Message::DeclineVerification => {
            state.sas = None;
            Effect::VerificationCancel
        },
        Message::ConfirmEmojisMatch => Effect::ConfirmSasMatch,
        Message::RejectEmojisMatch => {
            state.sas =
            Some(
                SasState::Cancelled { reason: "you indicated the emojis did not match".to_owned() },
            );
            Effect::RejectSasMatch
        },
        Message::DismissSas => {
            state.sas = None;
            Effect::VerificationCancel
        },
    }
}

// ---------------------------------------------------------------------------
// What shows.
// ---------------------------------------------------------------------------
/// The buttons of a verification card.
#[derive(Debug, Clone, Copy, PartialEq, Eq, Structural)]
pub enum SasButtons {
    Nothing,
    AcceptOrDecline,
    Cancel,
    MatchOrNot,
    Dismiss,
}

/// A verification card.
#[derive(Debug)]
pub struct SasCard {
    pub title: String,
    /// Whether the emoji to compare show under the title.
    pub emojis: bool,
    pub buttons: SasButtons,
}

/// The title of a verification card.
pub open spec fn sas_title(s: SasState) -> Seq<char> {
    match s {
        SasState::RequestReceived { from_user_id } => from_user_id@ + " wants to verify"@,
        SasState::RequestSent => "Waiting for the other device..."@,
        SasState::Ready => "Starting verification..."@,
        SasState::EmojisReady(_) => "Do these emoji match on both devices?"@,
        SasState::WaitingForOtherPartyConfirmation => {
            "Waiting for the other device to confirm..."@
        },
        SasState::Done => "Verification complete"@,
        SasState::Cancelled { reason } => "Verification cancelled: "@ + reason@,
    }
}

/// The buttons of a verification card: every state that waits for the user
/// has one, and every flow can be left.
pub open spec fn sas_buttons(s: SasState) -> SasButtons {
    match s {
        SasState::RequestReceived { .. } => SasButtons::AcceptOrDecline,
        SasState::RequestSent => SasButtons::Cancel,
        SasState::Ready => SasButtons::Nothing,
        SasState::EmojisReady(_) => SasButtons::MatchOrNot,
        SasState::WaitingForOtherPartyConfirmation => SasButtons::Nothing,
        SasState::Done => SasButtons::Dismiss,
        SasState::Cancelled { .. } => SasButtons::Dismiss,
    }
}

/// The verification card.
pub fn sas_card(sas: &SasState) -> (r: SasCard)
    ensures
        r.title@ == sas_title(*sas),
        r.emojis == (*sas is EmojisReady),
        r.buttons == sas_buttons(*sas),
{
    match sas {
        SasState::RequestReceived { from_user_id } => SasCard {
            title: text::join2(from_user_id.as_str(), " wants to verify"),
            emojis: false,
            buttons: SasButtons::AcceptOrDecline,
        },
        SasState::RequestSent => SasCard {
            title: "Waiting for the other device...".to_owned(),
            emojis: false,
            buttons: SasButtons::Cancel,
        },
        SasState::Ready => SasCard {
            title: "Starting verification...".to_owned(),
            emojis: false,
            buttons: SasButtons::Nothing,
        },
        SasState::EmojisReady(_) => SasCard {
            title: "Do these emoji match on both devices?".to_owned(),
            emojis: true,
            buttons: SasButtons::MatchOrNot,
        },
        SasState::WaitingForOtherPartyConfirmation => SasCard {
            title: "Waiting for the other device to confirm...".to_owned(),
            emojis: false,
            buttons: SasButtons::Nothing,
        },
        SasState::Done => SasCard {
            title: "Verification complete".to_owned(),
            emojis: false,
            buttons: SasButtons::Dismiss,
        },
        SasState::Cancelled { reason } => SasCard {
            title: text::join2("Verification cancelled: ", reason.as_str()),
            emojis: false,
            buttons: SasButtons::Dismiss,
        },
    }
}

/// How far a setup has come, in words.
pub open spec fn stage_text(stage: RecoveryEnableStage) -> Seq<char> {
    match stage {
        RecoveryEnableStage::Starting => "Starting..."@,
        RecoveryEnableStage::CreatingBackup => "Creating backup..."@,
        RecoveryEnableStage::CreatingRecoveryKey => "Creating recovery key..."@,
        RecoveryEnableStage::BackingUp => "Backing up room keys..."@,
    }
}

/// How far a setup has come, in words.
pub fn stage_label(stage: RecoveryEnableStage) -> (r: &'static str)
    ensures
        r@ == stage_text(stage),
{
    match stage {
        RecoveryEnableStage::Starting => "Starting...",
        RecoveryEnableStage::CreatingBackup => "Creating backup...",
        RecoveryEnableStage::CreatingRecoveryKey => "Creating recovery key...",
        RecoveryEnableStage::BackingUp => "Backing up room keys...",
    }
}

/// Setting up a new backup, as the security tab offers it.
#[derive(Debug)]
pub struct Setup {
    pub passphrase_field: bool,
    pub passphrase_button: &'static str,
    pub stage: Option<&'static str>,
    /// Whether the setup can be started: not while one is under way.
    pub enabled: bool,
}

/// What the security tab shows.
#[derive(Debug)]
pub enum RecoveryView {
    /// A fresh key, on its own until the user has saved it.
    SaveKey(String),
    Sections {
        /// Only offered while the account has no backup, so that a key that
        /// works is never replaced.
        setup: Option<Setup>,
        error: Option<String>,
        /// Starting a verification: not while one is under way.
        verify: bool,
    },
}

/// Whether this offers a new backup.
pub open spec fn is_setup(x: Setup, s: State) -> bool {
    &&& x.passphrase_field == s.show_passphrase_input
    &&& x.passphrase_button@ == if s.show_passphrase_input {
        "No passphrase"@
    } else {
        "Use a passphrase"@
    }
    &&& match (x.stage, s.recovery_enable_stage) {
        (Some(a), Some(b)) => a@ == stage_text(b),
        (None, None) => true,
        _ => false,
    }
    &&& x.enabled == (s.recovery_enable_stage is None)
}

/// What the security tab shows. It never asks for a key: the field is there
/// until the user chooses to enter one.
pub fn recovery_settings_view(state: &State) -> (r: RecoveryView)
    ensures
        match state.recovery_key_to_confirm {
            Some(key) => r matches RecoveryView::SaveKey(k) && k == key,
            None => {
                &&& r matches RecoveryView::Sections { setup, error, verify }
                &&& setup is Some == state.recovery_setup_needed
                &&& setup matches Some(x) ==> is_setup(x, *state)
                &&& error == state.recovery_error
                &&& verify == (state.sas is None)
            },
        },
{
    if let Some(key) = &state.recovery_key_to_confirm {
        return RecoveryView::SaveKey(key.clone());
    }
    let setup = if state.recovery_setup_needed {
        Some(
            Setup {
                passphrase_field: state.show_passphrase_input,
                passphrase_button: if state.show_passphrase_input {
                    "No passphrase"
                } else {
                    "Use a passphrase"
                },
                stage: match state.recovery_enable_stage {
                    Some(stage) => Some(stage_label(stage)),
                    None => None,
                },
                enabled: state.recovery_enable_stage.is_none(),
            },
        )
    } else {
        None
    };
    RecoveryView::Sections {
        setup,
        error: text::clone_opt(&state.recovery_error),
        verify: state.sas.is_none(),
    }
}

// ---------------------------------------------------------------------------
// Laws.
// ---------------------------------------------------------------------------
/// Two clicks on the setup start one: the second does nothing until the first
/// has come to its end.
pub proof fn law_one_setup_at_a_time(s0: State, s1: State, s2: State, e1: Effect, e2: Effect)
    requires
        updated(s0, s1, Message::ConfirmEnableRecovery, e1),
        updated(s1, s2, Message::ConfirmEnableRecovery, e2),
    ensures
        e2 is Nothing,
        s2 == s1,
{
}

/// A flow that the user ends leaves no card with dead buttons: there is none
/// left, or one that can be dismissed.
pub proof fn law_no_dead_cards(s0: State, s: State, message: Message, effect: Effect)
    requires
        updated(s0, s, message, effect),
        effect is VerificationCancel || effect is RejectSasMatch,
    ensures
        s.sas matches Some(sas) ==> sas_buttons(sas) == SasButtons::Dismiss,
{
}

/// Whatever is typed last is used: the passphrase of a new backup while its
/// field shows, the key that restores one, and the user to verify.
pub proof fn law_what_was_typed_is_used(
    s0: State,
    s1: State,
    s2: State,
    typed: String,
    e1: Effect,
    e2: Effect,
    m1: Message,
    m2: Message,
)
    requires
        updated(s0, s1, m1, e1),
        updated(s1, s2, m2, e2),
    ensures
        m1 == Message::PassphraseChanged(typed) && m2 is ConfirmEnableRecovery
            && s0.recovery_enable_stage is None && s0.show_passphrase_input && text::trimmed(
            typed@,
        ).len() > 0 ==> {
            &&& e2 is EnableRecovery
            &&& e2->passphrase is Some
            &&& e2->passphrase->0@ == text::trimmed(typed@)
            &&& s2.recovery_enable_stage is Some
        },
        m1 == Message::PassphraseChanged(typed) && m2 is ConfirmEnableRecovery
            && s0.recovery_enable_stage is None && !s0.show_passphrase_input ==> e2
            is EnableRecovery && e2->passphrase is None,
        m1 == Message::RecoveryKeyInputChanged(typed) && m2 is SubmitRecoveryKey && text::trimmed(
            typed@,
        ).len() > 0 ==> e2 is RestoreFromBackup && e2->recovery_key@ == text::trimmed(typed@),
        m1 == Message::RecoveryKeyInputChanged(typed) && m2 is SubmitRecoveryKey && text::trimmed(
            typed@,
        ).len() == 0 ==> e2 is Nothing,
        m1 == Message::VerifyUserIdChanged(typed) && m2 is StartVerification ==> e2
            is StartVerification && e2->user_id@ == text::trimmed(typed@),
        m1 is TogglePassphraseInput && m2 is TogglePassphraseInput ==> s2 == s0,
{
}

/// Each answer to a verification does what it says: accepting accepts,
/// matching confirms, a mismatch rejects and says so, and declining and
/// dismissing cancel.
pub proof fn law_answers_mean_what_they_say(s0: State, s: State, message: Message, effect: Effect)
    requires
        updated(s0, s, message, effect),
    ensures
        effect is AcceptVerificationRequest == message is AcceptVerification,
        effect is ConfirmSasMatch == message is ConfirmEmojisMatch,
        effect is RejectSasMatch == message is RejectEmojisMatch,
        effect is VerificationCancel == (message is DeclineVerification || message is DismissSas),
        effect is RetryCrossSigningBootstrap == message is RetryCrossSigningBootstrap,
        message is ConfirmEmojisMatch || message is AcceptVerification ==> s == s0,
        message is DeclineVerification || message is DismissSas ==> s.sas is None,
        message is RejectEmojisMatch ==> s.sas is Some && s.sas->0 is Cancelled
            && s.sas->0->Cancelled_reason@ == "you indicated the emojis did not match"@,
        message is OpenCrossSigningFallback && s0.cross_signing_fallback_url is Some ==> effect
            is OpenUrl && effect->OpenUrl_0@ == s0.cross_signing_fallback_url->0@,
        message is RecoveryKeySaved ==> s.recovery_key_to_confirm is None
            && s.passphrase_input@.len() == 0,
        !(message is RecoveryKeySaved) ==> s.recovery_key_to_confirm == s0.recovery_key_to_confirm,
        message is DismissRecoveryError ==> s.recovery_error is None,
        message is DismissCrossSigningError ==> s.cross_signing_error is None,
{
}

/// The card of a verification says where it stands and offers what can be
/// done then.
pub proof fn law_what_a_verification_card_says(s: SasState)
    ensures
        s matches SasState::RequestReceived { from_user_id } ==> sas_title(s) == from_user_id@
            + " wants to verify"@ && sas_buttons(s) == SasButtons::AcceptOrDecline,
        s is RequestSent ==> sas_buttons(s) == SasButtons::Cancel,
        s is EmojisReady ==> sas_title(s) == "Do these emoji match on both devices?"@
            && sas_buttons(s) == SasButtons::MatchOrNot,
        s is Done ==> sas_title(s) == "Verification complete"@ && sas_buttons(s)
            == SasButtons::Dismiss,
        s matches SasState::Cancelled { reason } ==> sas_title(s) == "Verification cancelled: "@
            + reason@ && sas_buttons(s) == SasButtons::Dismiss,
{
}

} // verus!
