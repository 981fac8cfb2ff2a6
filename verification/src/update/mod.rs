//! The state machine of the application: what each message makes of its
//! state, and what it asks of its surroundings.

pub mod answers;
pub mod attachments;
pub mod client;
pub mod effects;
pub mod event_laws;
pub mod inputs;
pub mod laws;
pub mod overlays;
pub mod rooms;
pub mod snapshot;
pub mod tasks;

use vstd::prelude::*;

use crate::commands;
use crate::events::RequestId;
use crate::screens::login;
use crate::screens::settings;
use crate::screens::timeline;
use crate::spellcheck::SpellError;
use crate::state::{App, Route};
use crate::update::tasks::{Message, Task};

verus! {

/// Whether a message can be taken: what the editor reports is in order.
pub open spec fn acceptable(message: Message) -> bool {
    message matches Message::Timeline(m) ==> timeline::acceptable(m)
}

// ---------------------------------------------------------------------------
// The session.
// ---------------------------------------------------------------------------
/// Whether a message is about the session.
pub open spec fn concerns_session(message: Message) -> bool {
    message is RestoreResult || message is LoginResult || message is WorkerStarted
}

/// The application once a session could not be had.
pub open spec fn login_refused(app: App, reason: String) -> App {
    App { login: login::State { status: login::Status::Error(reason), ..app.login }, ..app }
}

/// The application with a session.
pub open spec fn adopted(app: App, user_id: Option<String>) -> App {
    App { own_user_id: user_id, signed_in: true, route: Route::Main, ..app }
}

/// What a message about the session leaves.
pub open spec fn session_updated(before: App, after: App, message: Message) -> bool {
    match message {
        Message::RestoreResult(Ok(Some(user_id))) => after == adopted(before, user_id),
        Message::RestoreResult(Ok(None)) => after == before,
        Message::RestoreResult(Err(reason)) => after == login_refused(before, reason),
        Message::LoginResult(Ok(user_id)) => after == adopted(before, user_id),
        Message::LoginResult(Err(reason)) => after == login_refused(before, reason),
        Message::WorkerStarted => after == (App { connected: true, ..before }),
        _ => after == before,
    }
}

/// Takes a message about the session in.
fn update_session(app: &mut App, message: Message)
    requires
        old(app).wf(),
    ensures
        final(app).wf(),
        session_updated(*old(app), *final(app), message),
{
    match message {
        Message::RestoreResult(Ok(Some(user_id))) => {
            app.adopt_client(user_id);
        },
        Message::RestoreResult(Err(reason)) => {
            app.login.status = login::Status::Error(reason);
        },
        Message::LoginResult(Ok(user_id)) => {
            app.adopt_client(user_id);
        },
        Message::LoginResult(Err(reason)) => {
            app.login.status = login::Status::Error(reason);
        },
        Message::WorkerStarted => {
            app.connected = true;
        },
        _ => {},
    }
}

// ---------------------------------------------------------------------------
// The screens.
// ---------------------------------------------------------------------------
/// What a message to the login screen leaves, and what it asks for.
pub open spec fn login_updated(
    before: App,
    after: App,
    message: login::Message,
    r: Seq<Task>,
) -> bool {
    &&& after == (App { login: after.login, ..before })
    &&& exists|effect: login::Effect| #[trigger]
        login::updated(before.login, after.login, message, effect) && r == effects::login_tasks(
            effect,
        )
}

/// Hands a message to the login screen.
fn update_login(app: &mut App, message: login::Message) -> (r: Vec<Task>)
    requires
        old(app).wf(),
    ensures
        final(app).wf(),
        login_updated(*old(app), *final(app), message, r@),
{
    let effect = login::update(&mut app.login, message);
    let ghost e = effect;
    let r = effects::apply_login_effect(effect);
    assert(login::updated(old(app).login, app.login, message, e));
    r
}

/// What a message to the timeline leaves, and what it asks for: first of its
/// widgets, then beyond them.
pub open spec fn timeline_updated<
    E: Fn(&str) -> Option<SpellError>,
    G: Fn(&str) -> Vec<String>,
>(
    before: App,
    after: App,
    message: timeline::Message,
    id: RequestId,
    errors: E,
    guesses: G,
    r: Seq<Task>,
) -> bool {
    &&& r.len() > 0
    &&& r[0] matches Task::Timeline(task) && exists|t: timeline::State, effect: timeline::Effect|
        #[trigger]
        timeline::updated(
            before.timeline,
            t,
            message,
            before.edited.configs.spellcheck,
            before.edited.configs.chat.show_membership_events,
            errors,
            guesses,
            task,
            effect,
        ) && effects::timeline_applied(
            App { timeline: t, ..before },
            after,
            effect,
            id,
            r.skip(1),
        )
}

/// Hands a message to the timeline.
fn update_timeline<E: Fn(&str) -> Option<SpellError>, G: Fn(&str) -> Vec<String>>(
    app: &mut App,
    message: timeline::Message,
    id: RequestId,
    errors: &E,
    guesses: &G,
) -> (r: Vec<Task>)
    requires
        old(app).wf(),
        timeline::acceptable(message),
        forall|q: &str| call_requires(*errors, (q,)),
        forall|q: &str| call_requires(*guesses, (q,)),
    ensures
        final(app).wf(),
        timeline_updated(*old(app), *final(app), message, id, *errors, *guesses, r@),
{
    let cfg = app.edited.configs.spellcheck;
    let show = app.edited.configs.chat.show_membership_events;
    let (task, effect) = timeline::update(
        &mut app.timeline,
        message,
        &cfg,
        show,
        errors,
        guesses,
    );
    let ghost mid = *app;
    let ghost e = effect;
    let mut r = tasks::one(Task::Timeline(task));
    let mut rest = effects::apply_timeline_effect(app, effect, id);
    let ghost more = rest@;
    r.append(&mut rest);
    proof {
        assert(r@.skip(1) =~= more);
        assert(mid == (App { timeline: mid.timeline, ..*old(app) }));
        assert(timeline::updated(
            old(app).timeline,
            mid.timeline,
            message,
            cfg,
            show,
            *errors,
            *guesses,
            task,
            e,
        ));
    }
    r
}

/// What a message to the settings leaves, and what it asks for: first of the
/// disk, then beyond the panel.
pub open spec fn settings_updated(
    before: App,
    after: App,
    message: settings::Message,
    id: RequestId,
    r: Seq<Task>,
) -> bool {
    &&& r.len() > 0
    &&& r[0] matches Task::Settings(task) && exists|
        s: settings::State,
        e: settings::Edited,
        effect: settings::Effect,
    | #[trigger]
        settings::updated(before.settings, s, before.edited, e, message, (task, effect))
            && effects::settings_applied(
            App { settings: s, edited: e, ..before },
            after,
            effect,
            id,
            r.skip(1),
        )
}

/// Hands a message to the settings.
fn update_settings(app: &mut App, message: settings::Message, id: RequestId) -> (r: Vec<Task>)
    requires
        old(app).wf(),
    ensures
        final(app).wf(),
        settings_updated(*old(app), *final(app), message, id, r@),
{
    let (task, effect) = settings::update(&mut app.settings, &mut app.edited, message);
    let ghost mid = *app;
    let ghost e = effect;
    let mut r = tasks::one(Task::Settings(task));
    let mut rest = effects::apply_settings_effect(app, effect, id);
    let ghost more = rest@;
    r.append(&mut rest);
    proof {
        assert(r@.skip(1) =~= more);
        assert(mid == (App { settings: mid.settings, edited: mid.edited, ..*old(app) }));
        assert(settings::updated(
            old(app).settings,
            mid.settings,
            old(app).edited,
            mid.edited,
            message,
            (task, e),
        ));
    }
    r
}

// ---------------------------------------------------------------------------
// All messages.
// ---------------------------------------------------------------------------
/// What a message leaves, and what it asks for, but for the video's stage.
pub open spec fn message_applied<E: Fn(&str) -> Option<SpellError>, G: Fn(&str) -> Vec<String>>(
    before: App,
    after: App,
    message: Message,
    id: RequestId,
    errors: E,
    guesses: G,
    r: Seq<Task>,
) -> bool {
    if concerns_session(message) {
        session_updated(before, after, message) && r.len() == 0
    } else if overlays::concerns_rooms(message) {
        overlays::rooms_updated(before, after, message, id, r)
    } else if inputs::concerns_inputs(message) {
        inputs::input_taken(before, after, message, id, r)
    } else {
        match message {
            Message::Client(event) => client::event_applied(before, after, event, id, r),
            Message::Login(m) => login_updated(before, after, m, r),
            Message::Timeline(m) => timeline_updated(
                before,
                after,
                m,
                id,
                errors,
                guesses,
                r,
            ),
            Message::Verification(m) => effects::verification_updated(before, after, m, id, r),
            Message::SpaceExplorer(m) => overlays::explorer_updated(before, after, m, id, r),
            Message::DmSearch(m) => overlays::search_updated(before, after, m, id, r),
            Message::Settings(m) => settings_updated(before, after, m, id, r),
            _ => after == before && r.len() == 0,
        }
    }
}

/// Reacts to a message, but for the video's stage.
fn update_inner<E: Fn(&str) -> Option<SpellError>, G: Fn(&str) -> Vec<String>>(
    app: &mut App,
    message: Message,
    id: RequestId,
    errors: &E,
    guesses: &G,
) -> (r: Vec<Task>)
    requires
        old(app).wf(),
        acceptable(message),
        forall|q: &str| call_requires(*errors, (q,)),
        forall|q: &str| call_requires(*guesses, (q,)),
    ensures
        final(app).wf(),
        message_applied(*old(app), *final(app), message, id, *errors, *guesses, r@),
{
    match message {
        Message::RestoreResult(result) => {
            update_session(app, Message::RestoreResult(result));
            tasks::nothing()
        },
        Message::LoginResult(result) => {
            update_session(app, Message::LoginResult(result));
            tasks::nothing()
        },
        Message::WorkerStarted => {
            update_session(app, Message::WorkerStarted);
            tasks::nothing()
        },
        Message::Client(event) => client::dispatch_client_event(app, event, id),
        Message::Login(m) => update_login(app, m),
        Message::Timeline(m) => update_timeline(app, m, id, errors, guesses),
        Message::Verification(m) => effects::update_verification(app, m, id),
        Message::SpaceExplorer(m) => overlays::update_space_explorer(app, m, id),
        Message::DmSearch(m) => overlays::update_dm_search(app, m, id),
        Message::Settings(m) => update_settings(app, m, id),
        Message::Noop => tasks::nothing(),
        other => {
            if overlays::is_about_rooms(&other) {
                overlays::update_rooms(app, other, id)
            } else {
                inputs::take_input(app, other, id)
            }
        },
    }
}

/// What a message leaves, and what it asks for. While a video plays, whatever
/// happens may have moved its stage, so that it is probed again; only what a
/// probe finds does not probe again by itself.
pub open spec fn updated<E: Fn(&str) -> Option<SpellError>, G: Fn(&str) -> Vec<String>>(
    before: App,
    after: App,
    message: Message,
    id: RequestId,
    errors: E,
    guesses: G,
    r: Seq<Task>,
) -> bool {
    if !(message is InlineVideoBounds) && after.timeline.inline_video is Some {
        &&& r.len() > 0
        &&& r.last() is ProbeStage
        &&& message_applied(before, after, message, id, errors, guesses, r.drop_last())
    } else {
        message_applied(before, after, message, id, errors, guesses, r)
    }
}

/// Reacts to a message: what it makes of the application, and what is to be
/// done outside. Where a request goes out, it has this id.
pub fn update_with<E: Fn(&str) -> Option<SpellError>, G: Fn(&str) -> Vec<String>>(
    app: &mut App,
    message: Message,
    id: RequestId,
    errors: &E,
    guesses: &G,
) -> (r: Vec<Task>)
    requires
        old(app).wf(),
        acceptable(message),
        forall|q: &str| call_requires(*errors, (q,)),
        forall|q: &str| call_requires(*guesses, (q,)),
    ensures
        final(app).wf(),
        updated(*old(app), *final(app), message, id, *errors, *guesses, r@),
{
    let is_probe_result = match &message {
        Message::InlineVideoBounds(_) => true,
        _ => false,
    };
    let mut r = update_inner(app, message, id, errors, guesses);
    if !is_probe_result && app.timeline.inline_video.is_some() {
        let ghost before = r@;
        r.push(Task::ProbeStage);
        assert(r@.drop_last() =~= before);
    }
    r
}

/// Reacts to a message, under a new request id.
pub fn update<E: Fn(&str) -> Option<SpellError>, G: Fn(&str) -> Vec<String>>(
    app: &mut App,
    message: Message,
    errors: &E,
    guesses: &G,
) -> (r: Vec<Task>)
    requires
        old(app).wf(),
        acceptable(message),
        forall|q: &str| call_requires(*errors, (q,)),
        forall|q: &str| call_requires(*guesses, (q,)),
    ensures
        final(app).wf(),
        exists|id: RequestId| #[trigger]
            updated(*old(app), *final(app), message, id, *errors, *guesses, r@),
{
    let id: RequestId = commands::new_request_id();
    update_with(app, message, id, errors, guesses)
}

} // verus!
