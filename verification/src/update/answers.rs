//! The answers to the requests that are under way: each goes to whoever waits
//! for it, and to no one where no one does.

use vstd::prelude::*;

use crate::commands::ClientCommand;
use crate::events::RequestId;
use crate::screens::call;
use crate::screens::dm_search;
use crate::screens::space_explorer;
use crate::screens::timeline;
use crate::screens::timeline::composer;
use crate::screens::timeline::composer::StagedAttachment;
use crate::screens::timeline::upload;
use crate::screens::timeline::upload::NextFile;
use crate::state::App;
use crate::text;
use crate::update::effects;
use crate::update::tasks;
use crate::update::tasks::Task;

verus! {

// ---------------------------------------------------------------------------
// The timeline's own requests.
// ---------------------------------------------------------------------------
/// What of the timeline waits for an answer.
#[derive(Debug, Clone, Copy, PartialEq, Eq, Structural)]
pub enum Waiting {
    Message,
    Attachment,
    Sticker,
    Edit,
    Redaction,
    History,
    Nothing,
}

/// What of the timeline waits for an answer, in the order of precedence.
pub open spec fn waiting(t: timeline::State, id: RequestId) -> Waiting {
    if t.composer.pending_request == Some(id) {
        Waiting::Message
    } else if t.composer.pending_attachment_request == Some(id) {
        Waiting::Attachment
    } else if t.composer.pending_sticker_request == Some(id) {
        Waiting::Sticker
    } else if t.pending_edit_request == Some(id) {
        Waiting::Edit
    } else if t.pending_redact_request == Some(id) {
        Waiting::Redaction
    } else if t.pending_paginate_request == Some(id) {
        Waiting::History
    } else {
        Waiting::Nothing
    }
}

/// Whether a request is this one.
fn is_request(o: Option<RequestId>, id: RequestId) -> (r: bool)
    ensures
        r == (o == Some(id)),
{
    match o {
        Some(x) => x == id,
        None => false,
    }
}

/// What of the timeline waits for an answer.
fn who_waits(t: &timeline::State, id: RequestId) -> (r: Waiting)
    ensures
        r == waiting(*t, id),
{
    if is_request(t.composer.pending_request, id) {
        Waiting::Message
    } else if is_request(t.composer.pending_attachment_request, id) {
        Waiting::Attachment
    } else if is_request(t.composer.pending_sticker_request, id) {
        Waiting::Sticker
    } else if is_request(t.pending_edit_request, id) {
        Waiting::Edit
    } else if is_request(t.pending_redact_request, id) {
        Waiting::Redaction
    } else if is_request(t.pending_paginate_request, id) {
        Waiting::History
    } else {
        Waiting::Nothing
    }
}

/// The composer once a request of its own went through.
pub open spec fn composer_answered(
    before: composer::State,
    after: composer::State,
    w: Waiting,
    can_send: bool,
    id: RequestId,
) -> bool {
    match w {
        Waiting::Message => composer::cleared(before, after),
        Waiting::Attachment => upload::landed(before, after, can_send, id),
        Waiting::Sticker => after == (composer::State {
            pending_sticker_request: None,
            error: None,
            ..before
        }),
        _ => after == before,
    }
}

/// The timeline once a request of its own went through. `id` is the id of the
/// request that goes out next.
pub open spec fn timeline_answered(
    before: timeline::State,
    after: timeline::State,
    w: Waiting,
    can_send: bool,
    id: RequestId,
) -> bool {
    match w {
        Waiting::Edit => after == (timeline::State {
            editing: None,
            pending_edit_request: None,
            ..before
        }),
        Waiting::Redaction => after == (timeline::State {
            confirm_delete: None,
            pending_redact_request: None,
            ..before
        }),
        Waiting::History => after == (timeline::State {
            pending_paginate_request: None,
            loading_older: false,
            ..before
        }),
        _ => {
            &&& composer_answered(before.composer, after.composer, w, can_send, id)
            &&& after == (timeline::State { composer: after.composer, ..before })
        },
    }
}

/// Takes an answer of the composer's own in: the file that goes out next, and
/// whether text went out with this one.
fn answer_composer(c: &mut composer::State, w: Waiting, can_send: bool, id: RequestId) -> (r: (
    Option<NextFile>,
    bool,
))
    requires
        old(c).wf(),
    ensures
        final(c).wf(),
        composer_answered(*old(c), *final(c), w, can_send, id),
        w is Attachment ==> upload::goes_next(r.0, *old(c), can_send) && r.1
            == upload::had_caption(old(c).carried),
        !(w is Attachment) ==> r.0 is None && !r.1,
{
    match w {
        Waiting::Message => {
            composer::clear_draft(c);
            (None, false)
        },
        Waiting::Attachment => upload::file_landed(c, can_send, id),
        Waiting::Sticker => {
            c.pending_sticker_request = None;
            c.error = None;
            (None, false)
        },
        _ => (None, false),
    }
}

/// Takes an answer of the timeline's own in.
fn answer_timeline(t: &mut timeline::State, w: Waiting, can_send: bool, id: RequestId) -> (r: (
    Option<NextFile>,
    bool,
))
    requires
        old(t).wf(),
    ensures
        final(t).wf(),
        timeline_answered(*old(t), *final(t), w, can_send, id),
        w is Attachment ==> upload::goes_next(r.0, old(t).composer, can_send) && r.1
            == upload::had_caption(old(t).composer.carried),
        !(w is Attachment) ==> r.0 is None && !r.1,
{
    match w {
        Waiting::Edit => {
            t.editing = None;
            t.pending_edit_request = None;
            (None, false)
        },
        Waiting::Redaction => {
            t.confirm_delete = None;
            t.pending_redact_request = None;
            (None, false)
        },
        Waiting::History => {
            t.pending_paginate_request = None;
            t.loading_older = false;
            (None, false)
        },
        _ => answer_composer(&mut t.composer, w, can_send, id),
    }
}

/// The composer once a request of its own failed.
pub open spec fn composer_refused(
    before: composer::State,
    after: composer::State,
    w: Waiting,
    error: String,
) -> bool {
    match w {
        Waiting::Message => after == (composer::State {
            pending_request: None,
            error: Some(error),
            ..before
        }),
        Waiting::Attachment => upload::upload_refused(before, after, error),
        Waiting::Sticker => after == (composer::State {
            pending_sticker_request: None,
            error: Some(error),
            ..before
        }),
        _ => after == before,
    }
}

/// The timeline once a request of its own failed.
pub open spec fn timeline_refused(
    before: timeline::State,
    after: timeline::State,
    w: Waiting,
    error: String,
) -> bool {
    match w {
        Waiting::Edit => after == (timeline::State {
            pending_edit_request: None,
            action_error: Some(error),
            ..before
        }),
        Waiting::Redaction => after == (timeline::State {
            pending_redact_request: None,
            action_error: Some(error),
            ..before
        }),
        Waiting::History => after == (timeline::State {
            pending_paginate_request: None,
            loading_older: false,
            action_error: Some(error),
            ..before
        }),
        _ => {
            &&& composer_refused(before.composer, after.composer, w, error)
            &&& after == (timeline::State { composer: after.composer, ..before })
        },
    }
}

/// Takes a failure of the composer's own in.
fn refuse_composer(c: &mut composer::State, w: Waiting, error: String)
    requires
        old(c).wf(),
    ensures
        final(c).wf(),
        composer_refused(*old(c), *final(c), w, error),
{
    match w {
        Waiting::Message => {
            c.pending_request = None;
            c.error = Some(error);
        },
        Waiting::Attachment => {
            upload::upload_failed(c, error);
        },
        Waiting::Sticker => {
            c.pending_sticker_request = None;
            c.error = Some(error);
        },
        _ => {},
    }
}

/// Takes a failure of the timeline's own in.
fn refuse_timeline(t: &mut timeline::State, w: Waiting, error: String)
    requires
        old(t).wf(),
    ensures
        final(t).wf(),
        timeline_refused(*old(t), *final(t), w, error),
{
    match w {
        Waiting::Edit => {
            t.pending_edit_request = None;
            t.action_error = Some(error);
        },
        Waiting::Redaction => {
            t.pending_redact_request = None;
            t.action_error = Some(error);
        },
        Waiting::History => {
            t.pending_paginate_request = None;
            t.loading_older = false;
            t.action_error = Some(error);
        },
        _ => {
            refuse_composer(&mut t.composer, w, error);
        },
    }
}

// ---------------------------------------------------------------------------
// The overlays' requests.
// ---------------------------------------------------------------------------
/// Whether the explorer waits for a join.
pub open spec fn explorer_joins(e: Option<space_explorer::State>, id: RequestId) -> bool {
    e matches Some(s) && s.joins(id)
}

/// Whether the explorer waits for a join or a page.
pub open spec fn explorer_waits(e: Option<space_explorer::State>, id: RequestId) -> bool {
    e matches Some(s) && (s.joins(id) || space_explorer::waiting_from(s.stack@, id, 0) is Some)
}

/// Whether the user search waits.
pub open spec fn search_waits(s: Option<dm_search::State>, id: RequestId) -> bool {
    s matches Some(d) && d.last_request_id == Some(id)
}

/// What a join that went through leaves: the room shows as joined.
pub open spec fn explorer_joined(
    before: Option<space_explorer::State>,
    after: Option<space_explorer::State>,
) -> bool {
    match (before, after) {
        (Some(e0), Some(e)) => {
            &&& e0.pending_join matches Some(p) && e.joined@ == e0.joined@.insert(p.1@)
            &&& e == (space_explorer::State { pending_join: None, joined: e.joined, ..e0 })
        },
        _ => false,
    }
}

/// Takes the success of a join in.
fn join_landed(explorer: &mut Option<space_explorer::State>, id: RequestId) -> (r: bool)
    requires
        *old(explorer) matches Some(s) ==> s.wf(),
    ensures
        *final(explorer) matches Some(s) ==> s.wf(),
        r == explorer_joins(*old(explorer), id),
        r ==> explorer_joined(*old(explorer), *final(explorer)),
        !r ==> *final(explorer) == *old(explorer),
{
    let mut s = match explorer.take() {
        Some(s) => s,
        None => {
            return false;
        },
    };
    let r = s.handle_success(id);
    *explorer = Some(s);
    r
}

/// What a join or a page that failed leaves.
pub open spec fn explorer_refused(
    before: Option<space_explorer::State>,
    after: Option<space_explorer::State>,
    id: RequestId,
    error: Seq<char>,
) -> bool {
    match (before, after) {
        (Some(e0), Some(e)) => space_explorer::failed(e0, e, id, error),
        _ => false,
    }
}

/// Takes the failure of a join or a page in.
fn refuse_explorer(
    explorer: &mut Option<space_explorer::State>,
    id: RequestId,
    error: &str,
) -> (r: bool)
    requires
        *old(explorer) matches Some(s) ==> s.wf(),
    ensures
        *final(explorer) matches Some(s) ==> s.wf(),
        r == explorer_waits(*old(explorer), id),
        r ==> explorer_refused(*old(explorer), *final(explorer), id, error@),
        !r ==> *final(explorer) == *old(explorer),
{
    let mut s = match explorer.take() {
        Some(s) => s,
        None => {
            return false;
        },
    };
    let r = s.handle_failure(id, error);
    *explorer = Some(s);
    r
}

/// What a search that failed leaves: the overlay says so, and shows nothing.
pub open spec fn search_refused(
    before: Option<dm_search::State>,
    after: Option<dm_search::State>,
    error: Seq<char>,
) -> bool {
    match (before, after) {
        (Some(s0), Some(s)) => {
            &&& s.error matches Some(e) && e@ == error
            &&& s.results@.len() == 0
            &&& s == (dm_search::State {
                pending: false,
                error: s.error,
                results: s.results,
                ..s0
            })
        },
        _ => false,
    }
}

/// Takes the failure of a user search in.
fn refuse_search(search: &mut Option<dm_search::State>, id: RequestId, error: &str) -> (r: bool)
    ensures
        r == search_waits(*old(search), id),
        r ==> search_refused(*old(search), *final(search), error@),
        !r ==> *final(search) == *old(search),
{
    let mut s = match search.take() {
        Some(s) => s,
        None => {
            return false;
        },
    };
    let r = s.handle_failure(id, error);
    *search = Some(s);
    r
}

// ---------------------------------------------------------------------------
// Answers.
// ---------------------------------------------------------------------------
/// Whether a task sends the next file of a batch: without a caption, which
/// went out with the first.
pub open spec fn sends_next(t: Task, room_id: String, a: StagedAttachment, id: RequestId) -> bool {
    t matches Task::Send(
        ClientCommand::SendAttachment {
            room_id: room,
            filename,
            bytes,
            mime,
            caption,
            mentioned_user_ids,
            reply_to_event_id,
            request_id,
        },
    ) && room == room_id && filename == a.filename && bytes@ == a.bytes@ && mime == a.mime
        && caption is None && mentioned_user_ids@.len() == 0 && reply_to_event_id is None
        && request_id == id
}

/// The tasks of a success: the next file of a batch, and that the typing of
/// what went out is over.
pub open spec fn answer_tasks(app: App, w: Waiting, id: RequestId, r: Seq<Task>) -> bool {
    let c = app.timeline.composer;
    let told = if w is Message || (w is Attachment && upload::had_caption(c.carried)) {
        effects::typing_told(app, false)
    } else {
        Seq::empty()
    };
    if w is Attachment && effects::can_send(app) && upload::left_behind(c) > 0 {
        &&& r.len() > 0
        &&& sends_next(r[0], app.timeline.room_id->0, c.staged_attachments@[1], id)
        &&& r.skip(1) == told
    } else {
        r == told
    }
}

/// What a success leaves. `id` is the id of the request that goes out next.
pub open spec fn succeeded(
    before: App,
    after: App,
    request_id: RequestId,
    id: RequestId,
    r: Seq<Task>,
) -> bool {
    let w = waiting(before.timeline, request_id);
    if !(w is Nothing) {
        &&& timeline_answered(
            before.timeline,
            after.timeline,
            w,
            effects::can_send(before),
            id,
        )
        &&& after == (App { timeline: after.timeline, ..before })
        &&& answer_tasks(before, w, id, r)
    } else {
        &&& r.len() == 0
        &&& if call::waits_for(before.call, request_id) {
            after == (App { call: call::State { pending: None, ..before.call }, ..before })
        } else if explorer_joins(before.space_explorer, request_id) {
            &&& explorer_joined(before.space_explorer, after.space_explorer)
            &&& after == (App { space_explorer: after.space_explorer, ..before })
        } else {
            after == before
        }
    }
}

/// The tasks of a success.
fn tasks_of(
    stopped: Vec<Task>,
    room: Option<String>,
    w: Waiting,
    next: Option<NextFile>,
    caption: bool,
    id: RequestId,
    Ghost(before): Ghost<App>,
) -> (r: Vec<Task>)
    requires
        stopped@ == effects::typing_told(before, false),
        room == before.timeline.room_id,
        w is Attachment ==> upload::goes_next(
            next,
            before.timeline.composer,
            effects::can_send(before),
        ) && caption == upload::had_caption(before.timeline.composer.carried),
        !(w is Attachment) ==> next is None && !caption,
    ensures
        answer_tasks(before, w, id, r@),
{
    let mut r: Vec<Task> = Vec::new();
    if let Some(file) = next {
        if let Some(room_id) = room {
            r.push(
                Task::Send(
                    ClientCommand::SendAttachment {
                        room_id,
                        filename: file.filename,
                        bytes: file.bytes,
                        mime: file.mime,
                        caption: None,
                        mentioned_user_ids: Vec::new(),
                        reply_to_event_id: None,
                        request_id: id,
                    },
                ),
            );
        }
    }
    let ghost first = r@;
    let mut told = stopped;
    let is_message = match w {
        Waiting::Message => true,
        _ => false,
    };
    if is_message || caption {
        let ghost t = told@;
        r.append(&mut told);
        proof {
            assert(r@ =~= first + t);
            if first.len() > 0 {
                assert(r@.skip(1) =~= t);
            } else {
                assert(r@ =~= t);
            }
        }
    } else {
        proof {
            if first.len() > 0 {
                assert(r@.skip(1) =~= Seq::<Task>::empty());
            } else {
                assert(r@ =~= Seq::<Task>::empty());
            }
        }
    }
    r
}

/// Takes the success of a request of the timeline in.
fn answer(app: &mut App, w: Waiting, id: RequestId) -> (r: Vec<Task>)
    requires
        old(app).wf(),
    ensures
        final(app).wf(),
        timeline_answered(
            old(app).timeline,
            final(app).timeline,
            w,
            effects::can_send(*old(app)),
            id,
        ),
        *final(app) == (App { timeline: final(app).timeline, ..*old(app) }),
        answer_tasks(*old(app), w, id, r@),
{
    let stopped = effects::set_typing(app, false);
    let room = text::clone_opt(&app.timeline.room_id);
    let can_send = app.connected && room.is_some();
    let (next, caption) = answer_timeline(&mut app.timeline, w, can_send, id);
    tasks_of(stopped, room, w, next, caption, id, Ghost(*old(app)))
}

/// Takes the success of a request in.
pub fn command_succeeded(app: &mut App, request_id: RequestId, id: RequestId) -> (r: Vec<Task>)
    requires
        old(app).wf(),
    ensures
        final(app).wf(),
        succeeded(*old(app), *final(app), request_id, id, r@),
{
    let w = who_waits(&app.timeline, request_id);
    match w {
        Waiting::Nothing => {},
        _ => {
            return answer(app, w, id);
        },
    }
    if call::succeed(&mut app.call, request_id) {
        return tasks::nothing();
    }
    let joined = join_landed(&mut app.space_explorer, request_id);
    tasks::nothing()
}

/// What a failure leaves: it shows where its request came from.
pub open spec fn failed(before: App, after: App, request_id: RequestId, error: String) -> bool {
    let w = waiting(before.timeline, request_id);
    if !(w is Nothing) {
        &&& timeline_refused(before.timeline, after.timeline, w, error)
        &&& after == (App { timeline: after.timeline, ..before })
    } else if call::waits_for(before.call, request_id) {
        &&& call::refused(before.call, after.call, request_id, error)
        &&& after == (App { call: after.call, ..before })
    } else if explorer_waits(before.space_explorer, request_id) {
        &&& explorer_refused(before.space_explorer, after.space_explorer, request_id, error@)
        &&& after == (App { space_explorer: after.space_explorer, ..before })
    } else if search_waits(before.dm_search, request_id) {
        &&& search_refused(before.dm_search, after.dm_search, error@)
        &&& after == (App { dm_search: after.dm_search, ..before })
    } else {
        after == before
    }
}

/// Takes the failure of a request in.
pub fn command_failed(app: &mut App, request_id: RequestId, error: String)
    requires
        old(app).wf(),
    ensures
        final(app).wf(),
        failed(*old(app), *final(app), request_id, error),
{
    let w = who_waits(&app.timeline, request_id);
    match w {
        Waiting::Nothing => {},
        _ => {
            refuse_timeline(&mut app.timeline, w, error);
            return ;
        },
    }
    if call::fail(&mut app.call, request_id, error.clone()) {
        return ;
    }
    if refuse_explorer(&mut app.space_explorer, request_id, error.as_str()) {
        return ;
    }
    let ours = refuse_search(&mut app.dm_search, request_id, error.as_str());
}

// ---------------------------------------------------------------------------
// Laws.
// ---------------------------------------------------------------------------
/// Whether no one waits for a request.
pub open spec fn unexpected(app: App, id: RequestId) -> bool {
    &&& waiting(app.timeline, id) is Nothing
    &&& !call::waits_for(app.call, id)
    &&& !explorer_waits(app.space_explorer, id)
    &&& !search_waits(app.dm_search, id)
}

/// An answer that no one waits for changes nothing.
pub proof fn law_stray_answers_are_ignored(
    before: App,
    good: App,
    bad: App,
    request_id: RequestId,
    id: RequestId,
    error: String,
    r: Seq<Task>,
)
    requires
        succeeded(before, good, request_id, id, r),
        failed(before, bad, request_id, error),
        unexpected(before, request_id),
    ensures
        good == before,
        bad == before,
        r.len() == 0,
{
}

/// A file or a sticker that went out leaves the draft alone; only the message
/// itself clears it.
pub proof fn law_only_a_message_clears_the_draft(
    before: timeline::State,
    after: timeline::State,
    w: Waiting,
    can_send: bool,
    id: RequestId,
)
    requires
        timeline_answered(before, after, w, can_send, id),
        !(w is Message),
    ensures
        after.composer.body == before.composer.body,
        after.composer.mentioned == before.composer.mentioned,
{
}

/// A failure ends the wait, so that the same can be tried again.
pub proof fn law_a_failure_ends_the_wait(
    before: timeline::State,
    after: timeline::State,
    w: Waiting,
    error: String,
)
    requires
        timeline_refused(before, after, w, error),
    ensures
        w is Message ==> after.composer.pending_request is None,
        w is Attachment ==> after.composer.pending_attachment_request is None,
        w is Sticker ==> after.composer.pending_sticker_request is None,
        w is Edit ==> after.pending_edit_request is None,
        w is Redaction ==> after.pending_redact_request is None,
        w is History ==> after.pending_paginate_request is None && !after.loading_older,
{
}

/// A message that failed is still in the draft.
pub proof fn law_a_failed_message_stays_in_the_draft(
    before: timeline::State,
    after: timeline::State,
    error: String,
)
    requires
        timeline_refused(before, after, Waiting::Message, error),
    ensures
        after.composer.body == before.composer.body,
        after.composer.mentioned == before.composer.mentioned,
        after.composer.replying_to == before.composer.replying_to,
{
}

} // verus!
