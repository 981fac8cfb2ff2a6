//! Opening and leaving rooms.

use vstd::prelude::*;

use crate::commands::ClientCommand;
use crate::screens::room_list;
use crate::screens::timeline;
use crate::screens::timeline::composer;
use crate::screens::timeline::Geometry;
use crate::state::App;
use crate::update::tasks;
use crate::update::tasks::Task;

verus! {

/// What opening a room leaves of the timeline: nothing of the room before it
/// but what is not of a room.
pub open spec fn opened(before: timeline::State, after: timeline::State, room_id: String) -> bool {
    &&& after.items@.len() == 0
    &&& after.first_urls@.len() == 0
    &&& after.composer.fresh()
    &&& after.typing_users@.len() == 0
    &&& after.search_query@.len() == 0
    &&& after.search_matches@.len() == 0
    &&& after.power_tags@.len() == 0
    &&& after == (timeline::State {
        room_id: Some(room_id),
        items: after.items,
        first_urls: after.first_urls,
        composer: after.composer,
        editing: None,
        confirm_delete: None,
        typing_users: after.typing_users,
        action_error: None,
        reacting_to: None,
        search_open: false,
        search_query: after.search_query,
        search_matches: after.search_matches,
        reached_start: false,
        loading_older: false,
        pending_paginate_request: None,
        pending_edit_request: None,
        pending_redact_request: None,
        at_bottom: true,
        highlighted_event_id: None,
        pending_jump: None,
        scroll_anchor: None,
        autoscroll: None,
        geometry: Geometry { content_height: 0, from_bottom: 0, ..before.geometry },
        last_seen_newest: None,
        suppress_unread_divider: false,
        power_tags: after.power_tags,
        selected_member: None,
        highlighted_member: None,
        member_menu: None,
        inline_video: None,
        ..before
    })
}

/// Closing the player, where there is one.
pub open spec fn player_closed(t: timeline::State) -> Seq<Task> {
    if t.inline_video is Some {
        seq![Task::ClosePlayer]
    } else {
        Seq::empty()
    }
}

/// What opening a room asks for: the player closes, the room is remembered,
/// the view starts at the newest message, and the worker turns from the room
/// before it to this one.
pub open spec fn opening_tasks(before: App, room_id: String) -> Seq<Task> {
    player_closed(before.timeline) + seq![Task::SaveLastRoom(room_id), Task::ScrollToBottom]
        + if before.connected {
        (match before.room_list.selected_room_id {
            Some(previous) => seq![Task::Send(ClientCommand::CloseRoom { room_id: previous })],
            None => Seq::empty(),
        }) + seq![Task::Send(ClientCommand::OpenRoom { room_id })]
    } else {
        Seq::empty()
    }
}

/// What selecting a room leaves: nothing changes where it is open already.
pub open spec fn room_selected(before: App, after: App, room_id: String, r: Seq<Task>) -> bool {
    if timeline::is_this(before.room_list.selected_room_id, room_id@) {
        after == before && r.len() == 0
    } else {
        &&& opened(before.timeline, after.timeline, room_id)
        &&& after == (App {
            room_list: room_list::State {
                selected_room_id: Some(room_id),
                ..before.room_list
            },
            timeline: after.timeline,
            pending_restore_room: None,
            zoomed_image: None,
            ..before
        })
        &&& r == opening_tasks(before, room_id)
    }
}

/// Clears the timeline for a room.
fn open_timeline(t: &mut timeline::State, room_id: String)
    ensures
        final(t).wf(),
        opened(*old(t), *final(t), room_id),
{
    t.room_id = Some(room_id);
    t.items = Vec::new();
    t.first_urls = Vec::new();
    t.composer = composer::State::new();
    t.editing = None;
    t.confirm_delete = None;
    t.typing_users = Vec::new();
    t.action_error = None;
    t.reacting_to = None;
    t.search_open = false;
    t.search_query = String::new();
    t.search_matches = Vec::new();
    t.reached_start = false;
    t.loading_older = false;
    t.pending_paginate_request = None;
    t.pending_edit_request = None;
    t.pending_redact_request = None;
    t.at_bottom = true;
    t.highlighted_event_id = None;
    t.pending_jump = None;
    t.scroll_anchor = None;
    t.autoscroll = None;
    t.geometry = Geometry { content_height: 0, from_bottom: 0, ..t.geometry };
    t.last_seen_newest = None;
    t.suppress_unread_divider = false;
    t.power_tags = Vec::new();
    t.selected_member = None;
    t.highlighted_member = None;
    t.member_menu = None;
    t.inline_video = None;
}

/// Opens a room. A click on the room that is open does nothing: it would wipe
/// a draft. Whatever is opened, the room of the last session is no longer
/// waited for.
pub fn select_room(app: &mut App, room_id: String) -> (r: Vec<Task>)
    requires
        old(app).wf(),
    ensures
        final(app).wf(),
        room_selected(*old(app), *final(app), room_id, r@),
{
    if timeline::opt_is(&app.room_list.selected_room_id, room_id.as_str()) {
        return tasks::nothing();
    }
    app.pending_restore_room = None;
    let previous = app.room_list.selected_room_id.take();
    app.room_list.selected_room_id = Some(room_id.clone());
    let mut r = if app.timeline.inline_video.is_some() {
        tasks::one(Task::ClosePlayer)
    } else {
        tasks::nothing()
    };
    open_timeline(&mut app.timeline, room_id.clone());
    app.zoomed_image = None;
    r.push(Task::SaveLastRoom(room_id.clone()));
    r.push(Task::ScrollToBottom);
    if app.connected {
        if let Some(p) = previous {
            r.push(Task::Send(ClientCommand::CloseRoom { room_id: p }));
        }
        r.push(Task::Send(ClientCommand::OpenRoom { room_id }));
    }
    assert(r@ =~= opening_tasks(*old(app), room_id));
    r
}

/// What leaving the room that is open leaves of the timeline.
pub open spec fn emptied(before: timeline::State, after: timeline::State) -> bool {
    &&& after.items@.len() == 0
    &&& after.first_urls@.len() == 0
    &&& after.composer.fresh()
    &&& after == (timeline::State {
        room_id: None,
        items: after.items,
        first_urls: after.first_urls,
        composer: after.composer,
        selected_member: None,
        highlighted_member: None,
        member_menu: None,
        autoscroll: None,
        inline_video: None,
        ..before
    })
}

/// What leaving a room leaves: nothing changes where another one is open.
pub open spec fn room_forgotten(before: App, after: App, room_id: String, r: Seq<Task>) -> bool {
    if !timeline::is_this(before.room_list.selected_room_id, room_id@) {
        after == before && r.len() == 0
    } else {
        &&& emptied(before.timeline, after.timeline)
        &&& after == (App {
            room_list: room_list::State { selected_room_id: None, ..before.room_list },
            timeline: after.timeline,
            ..before
        })
        &&& r == tasks::sent(before, ClientCommand::CloseRoom { room_id }) + seq![
            Task::ClearLastRoom,
        ] + player_closed(before.timeline)
    }
}

/// Clears the timeline of the room that was left.
fn empty_timeline(t: &mut timeline::State)
    ensures
        final(t).wf(),
        emptied(*old(t), *final(t)),
{
    t.room_id = None;
    t.items = Vec::new();
    t.first_urls = Vec::new();
    t.composer = composer::State::new();
    t.selected_member = None;
    t.highlighted_member = None;
    t.member_menu = None;
    t.autoscroll = None;
    t.inline_video = None;
}

/// Takes the room that was left off the screen, where it is the one that
/// shows; the next launch does not reopen it.
pub fn forget_open_room(app: &mut App, room_id: &String) -> (r: Vec<Task>)
    requires
        old(app).wf(),
    ensures
        final(app).wf(),
        room_forgotten(*old(app), *final(app), *room_id, r@),
{
    if !timeline::opt_is(&app.room_list.selected_room_id, room_id.as_str()) {
        return tasks::nothing();
    }
    let playing = app.timeline.inline_video.is_some();
    app.room_list.selected_room_id = None;
    empty_timeline(&mut app.timeline);
    let mut r = tasks::send_cmd(app, ClientCommand::CloseRoom { room_id: room_id.clone() });
    r.push(Task::ClearLastRoom);
    if playing {
        r.push(Task::ClosePlayer);
    }
    assert(r@ =~= tasks::sent(*old(app), ClientCommand::CloseRoom { room_id: *room_id }) + seq![
        Task::ClearLastRoom,
    ] + player_closed(old(app).timeline));
    r
}

/// What marking the open room read leaves. Whether others see it is a matter
/// of privacy; the divider goes either way.
pub open spec fn marked_read(before: App, after: App, r: Seq<Task>) -> bool {
    match before.timeline.room_id {
        Some(room_id) => {
            &&& after == (App {
                timeline: timeline::State {
                    suppress_unread_divider: true,
                    ..before.timeline
                },
                ..before
            })
            &&& r == tasks::sent(
                before,
                ClientCommand::MarkRoomRead {
                    room_id,
                    public_receipt: before.edited.privacy.send_read_receipts,
                },
            )
        },
        None => after == before && r.len() == 0,
    }
}

/// Marks the open room read.
pub fn mark_open_room_read(app: &mut App) -> (r: Vec<Task>)
    requires
        old(app).wf(),
    ensures
        final(app).wf(),
        marked_read(*old(app), *final(app), r@),
{
    let room_id = match &app.timeline.room_id {
        Some(room_id) => room_id.clone(),
        None => {
            return tasks::nothing();
        },
    };
    let public_receipt = app.edited.privacy.send_read_receipts;
    app.timeline.suppress_unread_divider = true;
    tasks::send_cmd(app, ClientCommand::MarkRoomRead { room_id, public_receipt })
}

// ---------------------------------------------------------------------------
// Laws.
// ---------------------------------------------------------------------------
/// Selecting the room that is open changes nothing and asks for nothing: a
/// draft survives a stray click.
pub proof fn law_the_open_room_stays(before: App, after: App, room_id: String, r: Seq<Task>)
    requires
        room_selected(before, after, room_id, r),
        timeline::is_this(before.room_list.selected_room_id, room_id@),
    ensures
        after == before,
        r.len() == 0,
{
}

/// Once a room was selected it is the open one, and selecting it again does
/// nothing.
pub proof fn law_selecting_settles(
    a: App,
    b: App,
    c: App,
    room_id: String,
    first: Seq<Task>,
    second: Seq<Task>,
)
    requires
        room_selected(a, b, room_id, first),
        room_selected(b, c, room_id, second),
    ensures
        timeline::is_this(b.room_list.selected_room_id, room_id@),
        c == b,
        second.len() == 0,
{
}

/// Nothing of one room shows in the next: no messages, no draft, no error, no
/// request that is still under way.
pub proof fn law_rooms_do_not_leak(before: App, after: App, room_id: String, r: Seq<Task>)
    requires
        room_selected(before, after, room_id, r),
        !timeline::is_this(before.room_list.selected_room_id, room_id@),
    ensures
        after.timeline.items@.len() == 0,
        after.timeline.composer.fresh(),
        after.timeline.action_error is None,
        after.timeline.pending_edit_request is None,
        after.timeline.pending_redact_request is None,
        after.timeline.pending_paginate_request is None,
        after.timeline.pending_jump is None,
        after.timeline.inline_video is None,
        after.pending_restore_room is None,
{
}

/// A room that is left is not reopened by the next launch.
pub proof fn law_a_left_room_is_not_reopened(before: App, after: App, room_id: String, r: Seq<Task>)
    requires
        room_forgotten(before, after, room_id, r),
        timeline::is_this(before.room_list.selected_room_id, room_id@),
    ensures
        after.room_list.selected_room_id is None,
        after.timeline.room_id is None,
        r.contains(Task::ClearLastRoom),
{
    let n = tasks::sent(before, ClientCommand::CloseRoom { room_id }).len() as int;
    assert(r[n] == Task::ClearLastRoom);
}

/// While receipts are private no public one goes out.
pub proof fn law_receipts_follow_privacy(
    before: App,
    after: App,
    r: Seq<Task>,
    room_id: String,
    public_receipt: bool,
)
    requires
        marked_read(before, after, r),
        r.contains(Task::Send(ClientCommand::MarkRoomRead { room_id, public_receipt })),
    ensures
        public_receipt == before.edited.privacy.send_read_receipts,
{
}

} // verus!
