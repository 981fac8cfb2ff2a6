//! Signing in, in two steps: the homeserver first, then whatever ways to sign
//! in it offers.

use vstd::prelude::*;

use crate::events::LoginFlows;
use crate::text;

verus! {

/// Which step shows.
#[derive(Debug)]
pub enum Step {
    EnterHomeserver,
    ChooseMethod(LoginFlows),
}

/// What is under way.
#[derive(Debug)]
pub enum Status {
    Idle,
    Discovering,
    LoggingIn,
    Error(String),
}

/// The screen's state.
#[derive(Debug)]
pub struct State {
    pub homeserver: String,
    pub username: String,
    pub password: String,
    pub step: Step,
    pub status: Status,
}

impl State {
    /// Empty fields, at the first step.
    pub open spec fn fresh(&self) -> bool {
        &&& self.homeserver@.len() == 0
        &&& self.username@.len() == 0
        &&& self.password@.len() == 0
        &&& self.step is EnterHomeserver
        &&& self.status is Idle
    }
}

impl Default for State {
    fn default() -> (r: Self)
        ensures
            r.fresh(),
    {
        State {
            homeserver: String::new(),
            username: String::new(),
            password: String::new(),
            step: Step::EnterHomeserver,
            status: Status::Idle,
        }
    }
}

/// What the screen reacts to.
#[derive(Debug)]
pub enum Message {
    HomeserverChanged(String),
    UsernameChanged(String),
    PasswordChanged(String),
    ContinueFromHomeserver,
    Back,
    SubmitPassword,
    ProviderChosen(Option<String>),
    /// The homeserver answered.
    FlowsDiscovered(LoginFlows),
    DiscoverFailed(String),
    LoginFailed(String),
}

/// What is to be carried out beyond the screen.
#[derive(Debug)]
pub enum Effect {
    Nothing,
    Discover { homeserver: String },
    /// The password is handed over: the screen keeps none.
    AttemptPasswordLogin { homeserver: String, username: String, password: String },
    AttemptSsoLogin { homeserver: String, identity_provider_id: Option<String> },
}

/// What a message makes of the screen, and what it asks for.
pub open spec fn updated(s0: State, s: State, message: Message, effect: Effect) -> bool {
    match message {
        Message::HomeserverChanged(v) => s == (State { homeserver: v, ..s0 }) && effect is Nothing,
        Message::UsernameChanged(v) => s == (State { username: v, ..s0 }) && effect is Nothing,
        Message::PasswordChanged(v) => s == (State { password: v, ..s0 }) && effect is Nothing,
        Message::ContinueFromHomeserver => {
            let server = text::trimmed(s0.homeserver@);
            &&& s == (State { status: s.status, ..s0 })
            &&& if server.len() == 0 {
                &&& s.status matches Status::Error(e) && e@ == "Enter a homeserver to continue."@
                &&& effect is Nothing
            } else {
                &&& s.status is Discovering
                &&& effect matches Effect::Discover { homeserver } && homeserver@ == server
            }
        },
        Message::Back => s == (State { step: Step::EnterHomeserver, status: Status::Idle, ..s0 })
            && effect is Nothing,
        Message::FlowsDiscovered(flows) => s == (State {
            step: Step::ChooseMethod(flows),
            status: Status::Idle,
            ..s0
        }) && effect is Nothing,
        Message::DiscoverFailed(reason) => s == (State { status: Status::Error(reason), ..s0 })
            && effect is Nothing,
        Message::SubmitPassword => {
            let user = text::trimmed(s0.username@);
            if user.len() == 0 {
                &&& s == (State { status: s.status, ..s0 })
                &&& s.status matches Status::Error(e) && e@ == "Username is required."@
                &&& effect is Nothing
            } else {
                &&& s == (State { status: Status::LoggingIn, password: s.password, ..s0 })
                &&& s.password@.len() == 0
                &&& effect matches Effect::AttemptPasswordLogin { homeserver, username, password }
                    && homeserver@ == text::trimmed(s0.homeserver@) && username@ == user && password
                    == s0.password
            }
        },
        Message::ProviderChosen(id) => {
            &&& s == (State { status: Status::LoggingIn, ..s0 })
            &&& effect matches Effect::AttemptSsoLogin { homeserver, identity_provider_id }
                && homeserver@ == text::trimmed(s0.homeserver@) && identity_provider_id == id
        },
        Message::LoginFailed(reason) => s == (State { status: Status::Error(reason), ..s0 })
            && effect is Nothing,
    }
}

/// Reacts to a message.
pub fn update(state: &mut State, message: Message) -> (effect: Effect)
    ensures
        updated(*old(state), *final(state), message, effect),
{
    match message {
        Message::HomeserverChanged(v) => {
            state.homeserver = v;
            Effect::Nothing
        },
        Message::UsernameChanged(v) => {
            state.username = v;
            Effect::Nothing
        },
        Message::PasswordChanged(v) => {
            state.password = v;
            Effect::Nothing
        },
        Message::ContinueFromHomeserver => {
            let server = text::trim(state.homeserver.as_str()).to_owned();
            if server.as_str().unicode_len() == 0 {
                state.status = Status::Error("Enter a homeserver to continue.".to_owned());
                return Effect::Nothing;
            }
            state.status = Status::Discovering;
            Effect::Discover { homeserver: server }
        },
        Message::Back => {
            state.step = Step::EnterHomeserver;
            state.status = Status::Idle;
            Effect::Nothing
        },
        Message::FlowsDiscovered(flows) => {
            state.step = Step::ChooseMethod(flows);
            state.status = Status::Idle;
            Effect::Nothing
        },
        Message::DiscoverFailed(reason) => {
            state.status = Status::Error(reason);
            Effect::Nothing
        },
        Message::SubmitPassword => {
            let username = text::trim(state.username.as_str()).to_owned();
            if username.as_str().unicode_len() == 0 {
                state.status = Status::Error("Username is required.".to_owned());
                return Effect::Nothing;
            }
            state.status = Status::LoggingIn;
            let mut password = String::new();
            std::mem::swap(&mut password, &mut state.password);
            Effect::AttemptPasswordLogin {
                homeserver: text::trim(state.homeserver.as_str()).to_owned(),
                username,
                password,
            }
        },
        Message::ProviderChosen(identity_provider_id) => {
            state.status = Status::LoggingIn;
            Effect::AttemptSsoLogin {
                homeserver: text::trim(state.homeserver.as_str()).to_owned(),
                identity_provider_id,
            }
        },
        Message::LoginFailed(reason) => {
            state.status = Status::Error(reason);
            Effect::Nothing
        },
    }
}

/// The line under the form.
pub open spec fn status_line(status: Status) -> Seq<char> {
    match status {
        Status::Idle => ""@,
        Status::Discovering => "Checking homeserver..."@,
        Status::LoggingIn => "Signing in..."@,
        Status::Error(e) => e@,
    }
}

/// The line under the form.
pub fn status_text(status: &Status) -> (r: &str)
    ensures
        r@ == status_line(*status),
{
    match status {
        Status::Idle => "",
        Status::Discovering => "Checking homeserver...",
        Status::LoggingIn => "Signing in...",
        Status::Error(e) => e.as_str(),
    }
}

/// The buttons that sign in through a browser: what each reads, and the
/// provider that it goes through.
#[derive(Debug)]
pub struct SsoButton {
    pub label: String,
    pub provider: Option<String>,
}

/// Whether these are the buttons for the ways that a homeserver offers.
pub open spec fn are_sso_buttons(b: Seq<SsoButton>, flows: LoginFlows) -> bool {
    let ps = flows.sso_providers@;
    if !flows.supports_sso {
        b.len() == 0
    } else if ps.len() == 0 {
        b.len() == 1 && b[0].label@ == "Continue with SSO"@ && b[0].provider is None
    } else {
        &&& b.len() == ps.len()
        &&& forall|i: int|
            0 <= i < b.len() ==> (#[trigger] b[i]).label@ == "Continue with "@ + ps[i].name@
                && b[i].provider == Some(ps[i].id)
    }
}

/// The buttons that sign in through a browser: one per provider, or a single
/// one where the homeserver names none.
pub fn sso_buttons(flows: &LoginFlows) -> (r: Vec<SsoButton>)
    ensures
        are_sso_buttons(r@, *flows),
{
    let mut r: Vec<SsoButton> = Vec::new();
    if !flows.supports_sso {
        return r;
    }
    if flows.sso_providers.len() == 0 {
        r.push(SsoButton { label: "Continue with SSO".to_owned(), provider: None });
        return r;
    }
    let mut i: usize = 0;
    while i < flows.sso_providers.len()
        invariant
            i <= flows.sso_providers@.len(),
            r@.len() == i,
            forall|k: int|
                0 <= k < i ==> (#[trigger] r@[k]).label@ == "Continue with "@
                    + flows.sso_providers@[k].name@ && r@[k].provider == Some(
                    flows.sso_providers@[k].id,
                ),
        decreases flows.sso_providers@.len() - i,
    {
        let p = &flows.sso_providers[i];
        r.push(
            SsoButton {
                label: text::join2("Continue with ", p.name.as_str()),
                provider: Some(p.id.clone()),
            },
        );
        i = i + 1;
    }
    r
}

/// An attempt to sign in leaves no password behind on the screen.
pub proof fn law_no_password_is_kept(s0: State, s: State, effect: Effect)
    requires
        updated(s0, s, Message::SubmitPassword, effect),
    ensures
        effect is AttemptPasswordLogin ==> s.password@.len() == 0,
{
}

/// What was typed is what is used: the homeserver and the user name without
/// the white space around them, the password as it is, whatever was typed into
/// the other fields in between.
pub proof fn law_signing_in_uses_what_was_typed(
    s0: State,
    s1: State,
    s2: State,
    s3: State,
    s4: State,
    h: String,
    u: String,
    p: String,
    e1: Effect,
    e2: Effect,
    e3: Effect,
    effect: Effect,
)
    requires
        updated(s0, s1, Message::HomeserverChanged(h), e1),
        updated(s1, s2, Message::UsernameChanged(u), e2),
        updated(s2, s3, Message::PasswordChanged(p), e3),
        updated(s3, s4, Message::SubmitPassword, effect),
    ensures
        e1 is Nothing && e2 is Nothing && e3 is Nothing,
        text::trimmed(u@).len() > 0 ==> {
            &&& effect is AttemptPasswordLogin
            &&& effect->AttemptPasswordLogin_homeserver@ == text::trimmed(h@)
            &&& effect->AttemptPasswordLogin_username@ == text::trimmed(u@)
            &&& effect->AttemptPasswordLogin_password@ == p@
            &&& s4.status is LoggingIn
            &&& s4.password@.len() == 0
            &&& s4.homeserver@ == h@ && s4.username@ == u@
        },
        text::trimmed(u@).len() == 0 ==> {
            &&& effect is Nothing
            &&& s4.status is Error
            &&& s4.status->Error_0@ == "Username is required."@
            &&& s4.password@ == p@
        },
{
}

/// The homeserver that was typed is asked for its ways to sign in, and those
/// show once it answers; going back shows the first step again, with what was
/// typed still there.
pub proof fn law_the_homeserver_comes_first(
    s0: State,
    s1: State,
    s2: State,
    s3: State,
    s4: State,
    h: String,
    flows: LoginFlows,
    e1: Effect,
    e2: Effect,
    e3: Effect,
    e4: Effect,
)
    requires
        updated(s0, s1, Message::HomeserverChanged(h), e1),
        updated(s1, s2, Message::ContinueFromHomeserver, e2),
        updated(s2, s3, Message::FlowsDiscovered(flows), e3),
        updated(s3, s4, Message::Back, e4),
    ensures
        text::trimmed(h@).len() > 0 ==> {
            &&& e2 is Discover
            &&& e2->Discover_homeserver@ == text::trimmed(h@)
            &&& s2.status is Discovering
        },
        text::trimmed(h@).len() == 0 ==> {
            &&& e2 is Nothing
            &&& s2.status is Error
            &&& s2.status->Error_0@ == "Enter a homeserver to continue."@
        },
        s2.step == s0.step,
        s3.step == Step::ChooseMethod(flows),
        s3.status is Idle,
        s4.step is EnterHomeserver,
        s4.status is Idle,
        s4.homeserver@ == h@,
        s4.username == s0.username && s4.password == s0.password,
        e3 is Nothing && e4 is Nothing,
{
}

/// A provider that is chosen is signed in through, at the homeserver that was
/// typed; what goes wrong is said and ends the wait.
pub proof fn law_a_chosen_provider_is_used(
    s0: State,
    s: State,
    message: Message,
    effect: Effect,
)
    requires
        updated(s0, s, message, effect),
    ensures
        message matches Message::ProviderChosen(id) ==> {
            &&& effect is AttemptSsoLogin
            &&& effect->AttemptSsoLogin_homeserver@ == text::trimmed(s0.homeserver@)
            &&& effect->AttemptSsoLogin_identity_provider_id == id
            &&& s.status is LoggingIn
        },
        message matches Message::LoginFailed(why) ==> effect is Nothing && s.status is Error
            && s.status->Error_0@ == why@ && s.step == s0.step,
        message matches Message::DiscoverFailed(why) ==> effect is Nothing && s.status is Error
            && s.status->Error_0@ == why@ && s.step == s0.step,
{
}

/// Each provider that the homeserver names has its button, in order, and the
/// button goes through that provider.
pub proof fn law_every_provider_has_its_button(b: Seq<SsoButton>, flows: LoginFlows, i: int)
    requires
        are_sso_buttons(b, flows),
    ensures
        !flows.supports_sso ==> b.len() == 0,
        flows.supports_sso && flows.sso_providers@.len() == 0 ==> b.len() == 1 && b[0].provider
            is None,
        flows.supports_sso && 0 <= i < flows.sso_providers@.len() ==> {
            &&& b.len() == flows.sso_providers@.len()
            &&& b[i].label@ == "Continue with "@ + flows.sso_providers@[i].name@
            &&& b[i].provider is Some
            &&& b[i].provider->0@ == flows.sso_providers@[i].id@
        },
{
}

} // verus!
