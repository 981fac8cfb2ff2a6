//! The sidebar, the prompt about a room, the space explorer and the user
//! search.

use vstd::prelude::*;

use crate::commands::ClientCommand;
use crate::events::{RequestId, RoomSummary};
use crate::screens::dm_search;
use crate::screens::room_list;
use crate::screens::space_explorer;
use crate::state::{App, RoomActionPrompt};
use crate::text;
use crate::update::rooms;
use crate::update::tasks;
use crate::update::tasks::{Message, Task};

verus! {

// ---------------------------------------------------------------------------
// The sidebar and the prompt.
// ---------------------------------------------------------------------------
/// Whether a message is about the rooms of the sidebar.
pub open spec fn concerns_rooms(message: Message) -> bool {
    match message {
        Message::RoomList(_) => true,
        Message::ConfirmLeaveRoom(_) => true,
        Message::ConfirmForgetRoom(_) => true,
        Message::RoomRenameDraftChanged(_) => true,
        Message::ConfirmRoomRename(_) => true,
        Message::CancelRoomAction => true,
        _ => false,
    }
}

/// Whether a message is about the rooms of the sidebar.
pub fn is_about_rooms(message: &Message) -> (r: bool)
    ensures
        r == concerns_rooms(*message),
{
    match message {
        Message::RoomList(_) => true,
        Message::ConfirmLeaveRoom(_) => true,
        Message::ConfirmForgetRoom(_) => true,
        Message::RoomRenameDraftChanged(_) => true,
        Message::ConfirmRoomRename(_) => true,
        Message::CancelRoomAction => true,
        _ => false,
    }
}

/// What a space is called: its id, where it is not in the list.
pub open spec fn space_name(list: Seq<RoomSummary>, space_id: String) -> String {
    match room_list::room_from(list, space_id@, 0) {
        Some(k) => list[k].name,
        None => space_id,
    }
}

/// Whether an explorer has just opened at a space.
pub open spec fn just_opened(
    e: Option<space_explorer::State>,
    space_id: String,
    name: String,
    id: RequestId,
) -> bool {
    e matches Some(s) && s.stack@.len() == 1 && s.stack@[0].is_loading(space_id, name, id)
        && s.pending_join is None && s.joined@ == Set::<Seq<char>>::empty() && s.join_error is None
}

/// The prompt about a room, as it opens.
pub open spec fn prompt_about(room: RoomSummary) -> RoomActionPrompt {
    RoomActionPrompt {
        room_id: room.room_id,
        room_name: room.name,
        is_dm: room.is_dm,
        rename_draft: room.name,
    }
}

/// What a click in the sidebar leaves, and what it asks for.
pub open spec fn sidebar_updated(
    before: App,
    after: App,
    message: room_list::Message,
    id: RequestId,
    r: Seq<Task>,
) -> bool {
    match message {
        room_list::Message::RoomClicked(room_id) => rooms::room_selected(before, after, room_id, r),
        room_list::Message::SpaceClicked(space_id) => {
            &&& just_opened(
                after.space_explorer,
                space_id,
                space_name(before.room_list.rooms@, space_id),
                id,
            )
            &&& after == (App { space_explorer: after.space_explorer, ..before })
            &&& r == tasks::sent(
                before,
                ClientCommand::FetchSpaceHierarchy { space_id, from: None, request_id: id },
            )
        },
        room_list::Message::RoomRightClicked(room_id) => {
            &&& after == match room_list::room_from(before.room_list.rooms@, room_id@, 0) {
                Some(k) => App {
                    pending_room_action: Some(prompt_about(before.room_list.rooms@[k])),
                    ..before
                },
                None => before,
            }
            &&& r.len() == 0
        },
        room_list::Message::NewRoomClicked => after == before && r == tasks::sent(
            before,
            ClientCommand::CreateRoom { encrypted: false, request_id: id },
        ),
        room_list::Message::NewDirectMessageClicked => {
            &&& after.dm_search matches Some(s) && s.fresh()
            &&& after == (App { dm_search: after.dm_search, ..before })
            &&& r.len() == 0
        },
    }
}

/// Hands a click in the sidebar on.
fn update_sidebar(app: &mut App, message: room_list::Message, id: RequestId) -> (r: Vec<Task>)
    requires
        old(app).wf(),
    ensures
        final(app).wf(),
        sidebar_updated(*old(app), *final(app), message, id, r@),
{
    match message {
        room_list::Message::RoomClicked(room_id) => rooms::select_room(app, room_id),
        room_list::Message::SpaceClicked(space_id) => {
            let name = match room_list::find_room(&app.room_list.rooms, space_id.as_str()) {
                Some(k) => app.room_list.rooms[k].name.clone(),
                None => space_id.clone(),
            };
            let r = tasks::send_cmd(
                app,
                ClientCommand::FetchSpaceHierarchy {
                    space_id: space_id.clone(),
                    from: None,
                    request_id: id,
                },
            );
            app.space_explorer = Some(space_explorer::State::open(space_id, name, id));
            r
        },
        room_list::Message::RoomRightClicked(room_id) => {
            if let Some(k) = room_list::find_room(&app.room_list.rooms, room_id.as_str()) {
                let room = &app.room_list.rooms[k];
                let prompt = RoomActionPrompt {
                    room_id: room.room_id.clone(),
                    room_name: room.name.clone(),
                    is_dm: room.is_dm,
                    rename_draft: room.name.clone(),
                };
                app.pending_room_action = Some(prompt);
            }
            tasks::nothing()
        },
        room_list::Message::NewRoomClicked => tasks::send_cmd(
            app,
            ClientCommand::CreateRoom { encrypted: false, request_id: id },
        ),
        room_list::Message::NewDirectMessageClicked => {
            app.dm_search = Some(dm_search::State::default());
            tasks::nothing()
        },
    }
}

/// The name that a room is to have: nothing where it is blank.
pub open spec fn new_name(prompt: Option<RoomActionPrompt>) -> Option<Seq<char>> {
    match prompt {
        Some(p) => if text::trimmed(p.rename_draft@).len() > 0 {
            Some(text::trimmed(p.rename_draft@))
        } else {
            None
        },
        None => None,
    }
}

/// Whether these rename a room.
pub open spec fn renames(
    app: App,
    room: String,
    name: Option<Seq<char>>,
    id: RequestId,
    r: Seq<Task>,
) -> bool {
    match name {
        Some(n) => if app.connected {
            r.len() == 1 && (r[0] matches Task::Send(
                ClientCommand::SetRoomName { room_id, name, request_id },
            ) && room_id == room && name@ == n && request_id == id)
        } else {
            r.len() == 0
        },
        None => r.len() == 0,
    }
}

/// What leaving or forgetting a room leaves.
pub open spec fn room_left(
    before: App,
    after: App,
    room_id: String,
    command: ClientCommand,
    r: Seq<Task>,
) -> bool {
    let answered = App { pending_room_action: None, ..before };
    let first = tasks::sent(before, command);
    &&& r.len() >= first.len()
    &&& r.take(first.len() as int) == first
    &&& rooms::room_forgotten(answered, after, room_id, r.skip(first.len() as int))
}

/// What a message about the rooms of the sidebar leaves, and what it asks for.
pub open spec fn rooms_updated(
    before: App,
    after: App,
    message: Message,
    id: RequestId,
    r: Seq<Task>,
) -> bool {
    match message {
        Message::RoomList(m) => sidebar_updated(before, after, m, id, r),
        Message::ConfirmLeaveRoom(room_id) => room_left(
            before,
            after,
            room_id,
            ClientCommand::LeaveRoom { room_id, request_id: id },
            r,
        ),
        Message::ConfirmForgetRoom(room_id) => room_left(
            before,
            after,
            room_id,
            ClientCommand::ForgetRoom { room_id, request_id: id },
            r,
        ),
        Message::RoomRenameDraftChanged(name) => {
            &&& after == (App {
                pending_room_action: match before.pending_room_action {
                    Some(p) => Some(RoomActionPrompt { rename_draft: name, ..p }),
                    None => None,
                },
                ..before
            })
            &&& r.len() == 0
        },
        Message::ConfirmRoomRename(room_id) => {
            &&& after == (App { pending_room_action: None, ..before })
            &&& renames(before, room_id, new_name(before.pending_room_action), id, r)
        },
        Message::CancelRoomAction => after == (App { pending_room_action: None, ..before })
            && r.len() == 0,
        _ => false,
    }
}

/// Leaves or forgets a room.
fn leave_room(app: &mut App, room_id: String, command: ClientCommand) -> (r: Vec<Task>)
    requires
        old(app).wf(),
    ensures
        final(app).wf(),
        room_left(*old(app), *final(app), room_id, command, r@),
{
    let mut r = tasks::send_cmd(app, command);
    let ghost first = r@;
    app.pending_room_action = None;
    let mut rest = rooms::forget_open_room(app, &room_id);
    let ghost more = rest@;
    r.append(&mut rest);
    assert(r@.take(first.len() as int) =~= first);
    assert(r@.skip(first.len() as int) =~= more);
    r
}

/// Renames a room to what was typed.
fn rename_room(app: &mut App, room_id: String, id: RequestId) -> (r: Vec<Task>)
    requires
        old(app).wf(),
    ensures
        final(app).wf(),
        *final(app) == (App { pending_room_action: None, ..*old(app) }),
        renames(*old(app), room_id, new_name(old(app).pending_room_action), id, r@),
{
    let typed = match app.pending_room_action.take() {
        Some(p) => text::trim(p.rename_draft.as_str()).to_owned(),
        None => String::new(),
    };
    if typed.as_str().unicode_len() == 0 {
        return tasks::nothing();
    }
    tasks::send_cmd(app, ClientCommand::SetRoomName { room_id, name: typed, request_id: id })
}

/// Changes the draft of a room's name.
fn change_name(prompt: &mut Option<RoomActionPrompt>, name: String)
    ensures
        *final(prompt) == match *old(prompt) {
            Some(p) => Some(RoomActionPrompt { rename_draft: name, ..p }),
            None => None,
        },
{
    if let Some(mut p) = prompt.take() {
        p.rename_draft = name;
        *prompt = Some(p);
    }
}

/// Takes a message about the rooms of the sidebar in.
pub fn update_rooms(app: &mut App, message: Message, id: RequestId) -> (r: Vec<Task>)
    requires
        old(app).wf(),
        concerns_rooms(message),
    ensures
        final(app).wf(),
        rooms_updated(*old(app), *final(app), message, id, r@),
{
    match message {
        Message::RoomList(m) => update_sidebar(app, m, id),
        Message::ConfirmLeaveRoom(room_id) => {
            let command = ClientCommand::LeaveRoom { room_id: room_id.clone(), request_id: id };
            leave_room(app, room_id, command)
        },
        Message::ConfirmForgetRoom(room_id) => {
            let command = ClientCommand::ForgetRoom { room_id: room_id.clone(), request_id: id };
            leave_room(app, room_id, command)
        },
        Message::RoomRenameDraftChanged(name) => {
            change_name(&mut app.pending_room_action, name);
            tasks::nothing()
        },
        Message::ConfirmRoomRename(room_id) => rename_room(app, room_id, id),
        _ => {
            app.pending_room_action = None;
            tasks::nothing()
        },
    }
}

// ---------------------------------------------------------------------------
// The explorer.
// ---------------------------------------------------------------------------
/// What carrying out what the explorer asks for leaves.
pub open spec fn explorer_applied(
    before: App,
    after: App,
    step: space_explorer::Step,
    id: RequestId,
    r: Seq<Task>,
) -> bool {
    match step {
        space_explorer::Step::Nothing => after == before && r.len() == 0,
        space_explorer::Step::Fetch { space_id, from } => after == before && r == tasks::sent(
            before,
            ClientCommand::FetchSpaceHierarchy { space_id, from, request_id: id },
        ),
        space_explorer::Step::Join { room_id, via } => after == before && r == tasks::sent(
            before,
            ClientCommand::JoinRoom { room_id_or_alias: room_id, via, request_id: id },
        ),
        space_explorer::Step::Open(room_id) => rooms::room_selected(before, after, room_id, r),
    }
}

/// What a message to the explorer leaves, and what it asks for.
pub open spec fn explorer_updated(
    before: App,
    after: App,
    message: space_explorer::Message,
    id: RequestId,
    r: Seq<Task>,
) -> bool {
    exists|e: Option<space_explorer::State>, step: space_explorer::Step| #[trigger]
        space_explorer::updated(before.space_explorer, e, message, id, step) && explorer_applied(
            App { space_explorer: e, ..before },
            after,
            step,
            id,
            r,
        )
}

/// Hands a message to the explorer, and carries out what it asks for.
pub fn update_space_explorer(app: &mut App, message: space_explorer::Message, id: RequestId) -> (r:
    Vec<Task>)
    requires
        old(app).wf(),
    ensures
        final(app).wf(),
        explorer_updated(*old(app), *final(app), message, id, r@),
{
    let step = space_explorer::update(&mut app.space_explorer, message, id);
    let ghost s = step;
    let ghost mid = *app;
    let r = match step {
        space_explorer::Step::Nothing => tasks::nothing(),
        space_explorer::Step::Fetch { space_id, from } => tasks::send_cmd(
            app,
            ClientCommand::FetchSpaceHierarchy { space_id, from, request_id: id },
        ),
        space_explorer::Step::Join { room_id, via } => tasks::send_cmd(
            app,
            ClientCommand::JoinRoom { room_id_or_alias: room_id, via, request_id: id },
        ),
        space_explorer::Step::Open(room_id) => rooms::select_room(app, room_id),
    };
    proof {
        assert(mid == (App { space_explorer: mid.space_explorer, ..*old(app) }));
        assert(space_explorer::updated(
            old(app).space_explorer,
            mid.space_explorer,
            message,
            id,
            s,
        ));
        assert(explorer_applied(mid, *app, s, id, r@));
    }
    r
}

// ---------------------------------------------------------------------------
// The user search.
// ---------------------------------------------------------------------------
/// What the user search asks for, as tasks.
pub open spec fn search_tasks(app: App, step: dm_search::Step, id: RequestId) -> Seq<Task> {
    match step {
        dm_search::Step::Nothing => Seq::empty(),
        dm_search::Step::Wait(generation) => seq![Task::WaitForTyping(generation)],
        dm_search::Step::Search { query } => tasks::sent(
            app,
            ClientCommand::SearchUsers { query, request_id: id },
        ),
        dm_search::Step::OpenDirectMessage(user_id) => tasks::sent(
            app,
            ClientCommand::OpenDirectMessage {
                user_id,
                encrypted: app.edited.encryption.encrypt_direct_messages,
                request_id: id,
            },
        ),
    }
}

/// What a message to the user search leaves, and what it asks for.
pub open spec fn search_updated(
    before: App,
    after: App,
    message: dm_search::Message,
    id: RequestId,
    r: Seq<Task>,
) -> bool {
    &&& after == (App { dm_search: after.dm_search, ..before })
    &&& exists|step: dm_search::Step| #[trigger]
        dm_search::updated(before.dm_search, after.dm_search, message, id, step) && r
            == search_tasks(before, step, id)
}

/// Hands a message to the user search, and carries out what it asks for.
pub fn update_dm_search(app: &mut App, message: dm_search::Message, id: RequestId) -> (r: Vec<Task>)
    requires
        old(app).wf(),
    ensures
        final(app).wf(),
        search_updated(*old(app), *final(app), message, id, r@),
{
    let step = dm_search::update(&mut app.dm_search, message, id);
    let ghost s = step;
    let encrypted = app.edited.encryption.encrypt_direct_messages;
    let r = match step {
        dm_search::Step::Nothing => tasks::nothing(),
        dm_search::Step::Wait(generation) => tasks::one(Task::WaitForTyping(generation)),
        dm_search::Step::Search { query } => tasks::send_cmd(
            app,
            ClientCommand::SearchUsers { query, request_id: id },
        ),
        dm_search::Step::OpenDirectMessage(user_id) => tasks::send_cmd(
            app,
            ClientCommand::OpenDirectMessage { user_id, encrypted, request_id: id },
        ),
    };
    proof {
        assert(dm_search::updated(old(app).dm_search, app.dm_search, message, id, s));
        assert(r@ == search_tasks(*old(app), s, id));
    }
    r
}

// ---------------------------------------------------------------------------
// Laws.
// ---------------------------------------------------------------------------
/// A blank name is no name: confirming it changes nothing but the prompt.
pub proof fn law_blank_names_are_not_sent(
    before: App,
    after: App,
    room_id: String,
    id: RequestId,
    r: Seq<Task>,
)
    requires
        rooms_updated(before, after, Message::ConfirmRoomRename(room_id), id, r),
        before.pending_room_action matches Some(p) && text::trimmed(p.rename_draft@).len() == 0,
    ensures
        r.len() == 0,
        after.pending_room_action is None,
{
}

/// Whatever is answered, the prompt closes.
pub proof fn law_the_prompt_closes(
    before: App,
    after: App,
    message: Message,
    id: RequestId,
    r: Seq<Task>,
)
    requires
        rooms_updated(before, after, message, id, r),
        message is ConfirmLeaveRoom || message is ConfirmForgetRoom || message is ConfirmRoomRename
            || message is CancelRoomAction,
    ensures
        after.pending_room_action is None,
{
}

} // verus!
