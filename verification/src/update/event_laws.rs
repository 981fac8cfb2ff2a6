//! What holds of the application as a whole: what it makes of what the sync
//! worker reports, and of what is done beside the timeline.

use vstd::prelude::*;

use crate::commands::ClientCommand;
use crate::events::{NotificationMode, NotificationScope, RequestId};
use crate::screens::dm_search;
use crate::screens::login;
use crate::screens::room_list;
use crate::screens::settings;
use crate::screens::space_explorer;
use crate::screens::timeline;
use crate::screens::verification;
use crate::spellcheck::SpellError;
use crate::state::{App, Route};
use crate::text;
use crate::update;
use crate::update::laws;
use crate::update::laws::commands_of;
use crate::update::snapshot;
use crate::update::tasks::{ClientEvent, Message, Task};

verus! {

/// What a message asks for but for the video's stage: the same commands, and
/// no task is lost.
proof fn lemma_inner<E: Fn(&str) -> Option<SpellError>, G: Fn(&str) -> Vec<String>>(
    before: App,
    after: App,
    message: Message,
    id: RequestId,
    errors: E,
    guesses: G,
    r: Seq<Task>,
) -> (inner: Seq<Task>)
    requires
        update::updated(before, after, message, id, errors, guesses, r),
    ensures
        update::message_applied(before, after, message, id, errors, guesses, inner),
        commands_of(r) == commands_of(inner),
        inner.len() == 0 ==> commands_of(r).len() == 0,
        inner.len() == 1 && inner[0] is Send ==> commands_of(r) == seq![inner[0]->Send_0],
        inner.len() == 1 && !(inner[0] is Send) ==> commands_of(r).len() == 0,
        forall|k: int| 0 <= k < inner.len() ==> r.contains(#[trigger] inner[k]),
{
    let stage = !(message is InlineVideoBounds) && after.timeline.inline_video is Some;
    let inner = if stage {
        r.drop_last()
    } else {
        r
    };
    if stage {
        assert(r =~= inner + seq![r.last()]);
        laws::lemma_commands_concat(inner, seq![r.last()]);
        laws::lemma_one_task(r.last());
        assert(commands_of(r) =~= commands_of(inner));
    }
    if inner.len() == 0 {
        laws::lemma_no_task();
        assert(inner =~= Seq::<Task>::empty());
    }
    if inner.len() == 1 {
        laws::lemma_one_task(inner[0]);
        assert(inner =~= seq![inner[0]]);
    }
    assert forall|k: int| 0 <= k < inner.len() implies r.contains(#[trigger] inner[k]) by {
        assert(r[k] == inner[k]);
    }
    inner
}

// ---------------------------------------------------------------------------
// The session.
// ---------------------------------------------------------------------------
/// A session that was restored or begun shows the rooms under its user; one
/// that could not be had says why; a worker that started takes commands.
pub proof fn law_a_session_begins<
    E: Fn(&str) -> Option<SpellError>,
    G: Fn(&str) -> Vec<String>,
>(
    before: App,
    after: App,
    message: Message,
    id: RequestId,
    errors: E,
    guesses: G,
    r: Seq<Task>,
)
    requires
        update::updated(before, after, message, id, errors, guesses, r),
    ensures
        message matches Message::LoginResult(Ok(user)) ==> after.signed_in && after.route
            == Route::Main && after.own_user_id == user && after.connected == before.connected,
        message matches Message::RestoreResult(Ok(Some(user))) ==> after.signed_in && after.route
            == Route::Main && after.own_user_id == user && after.connected == before.connected,
        message matches Message::RestoreResult(Ok(None)) ==> after == before,
        message matches Message::LoginResult(Err(why)) ==> after.route == before.route
            && !after.signed_in == !before.signed_in && after.login.status is Error
            && after.login.status->Error_0@ == why@,
        message matches Message::RestoreResult(Err(why)) ==> after.route == before.route
            && after.login.status is Error && after.login.status->Error_0@ == why@,
        message is WorkerStarted ==> after.connected && after.route == before.route
            && after.timeline == before.timeline,
        message is LoginResult || message is RestoreResult || message is WorkerStarted
            ==> commands_of(r).len() == 0,
{
    let inner = lemma_inner(before, after, message, id, errors, guesses, r);
}

/// What is typed on the login screen is what is signed in with.
pub proof fn law_signing_in<E: Fn(&str) -> Option<SpellError>, G: Fn(&str) -> Vec<String>>(
    before: App,
    after: App,
    m: login::Message,
    id: RequestId,
    errors: E,
    guesses: G,
    r: Seq<Task>,
)
    requires
        update::updated(before, after, Message::Login(m), id, errors, guesses, r),
    ensures
        m is SubmitPassword && text::trimmed(before.login.username@).len() > 0 ==> exists|k: int|
            {
                &&& 0 <= k < r.len()
                &&& #[trigger] r[k] is PasswordLogin
                &&& r[k]->PasswordLogin_homeserver@ == text::trimmed(before.login.homeserver@)
                &&& r[k]->PasswordLogin_username@ == text::trimmed(before.login.username@)
                &&& r[k]->PasswordLogin_password@ == before.login.password@
            },
        m is ContinueFromHomeserver && text::trimmed(before.login.homeserver@).len() > 0
            ==> exists|k: int|
            0 <= k < r.len() && #[trigger] r[k] is Discover && r[k]->Discover_homeserver@
                == text::trimmed(before.login.homeserver@),
        m matches login::Message::ProviderChosen(p) ==> exists|k: int|
            0 <= k < r.len() && #[trigger] r[k] is SsoLogin && r[k]->SsoLogin_homeserver@
                == text::trimmed(before.login.homeserver@) && r[k]->SsoLogin_identity_provider_id
                == p,
        after.timeline == before.timeline && after.route == before.route,
{
    let inner = lemma_inner(before, after, Message::Login(m), id, errors, guesses, r);
    if inner.len() > 0 {
        assert(r.contains(inner[0]));
        let k = choose|k: int| 0 <= k < r.len() && r[k] == inner[0];
        assert(r[k] == inner[0]);
    }
}

// ---------------------------------------------------------------------------
// The rooms.
// ---------------------------------------------------------------------------
/// A room that is clicked opens: it is the selected one and the one that the
/// timeline shows, it is remembered, and the worker is told to turn from the
/// room before it to this one.
pub proof fn law_a_clicked_room_opens<
    E: Fn(&str) -> Option<SpellError>,
    G: Fn(&str) -> Vec<String>,
>(
    before: App,
    after: App,
    room: String,
    id: RequestId,
    errors: E,
    guesses: G,
    r: Seq<Task>,
)
    requires
        update::updated(
            before,
            after,
            Message::RoomList(room_list::Message::RoomClicked(room)),
            id,
            errors,
            guesses,
            r,
        ),
        before.connected,
        !timeline::is_this(before.room_list.selected_room_id, room@),
    ensures
        after.room_list.selected_room_id == Some(room),
        after.timeline.room_id == Some(room),
        after.timeline.at_bottom,
        after.room_list.rooms == before.room_list.rooms,
        before.room_list.selected_room_id is None ==> commands_of(r) == seq![
            ClientCommand::OpenRoom { room_id: room },
        ],
        before.room_list.selected_room_id matches Some(previous) ==> commands_of(r) == seq![
            ClientCommand::CloseRoom { room_id: previous },
            ClientCommand::OpenRoom { room_id: room },
        ],
        r.contains(Task::SaveLastRoom(room)),
        r.contains(Task::ScrollToBottom),
        before.timeline.inline_video is Some ==> r.contains(Task::ClosePlayer),
{
    let m = Message::RoomList(room_list::Message::RoomClicked(room));
    let inner = lemma_inner(before, after, m, id, errors, guesses, r);
    let player = update::rooms::player_closed(before.timeline);
    let kept = seq![Task::SaveLastRoom(room), Task::ScrollToBottom];
    let open = seq![Task::Send(ClientCommand::OpenRoom { room_id: room })];
    let close = match before.room_list.selected_room_id {
        Some(previous) => seq![Task::Send(ClientCommand::CloseRoom { room_id: previous })],
        None => Seq::empty(),
    };
    assert(inner == player + kept + (close + open));
    laws::lemma_commands_concat(player + kept, close + open);
    laws::lemma_commands_concat(player, kept);
    laws::lemma_commands_concat(close, open);
    laws::lemma_no_task();
    laws::lemma_one_task(Task::ClosePlayer);
    laws::lemma_one_task(Task::SaveLastRoom(room));
    laws::lemma_one_task(Task::ScrollToBottom);
    laws::lemma_commands_concat(seq![Task::SaveLastRoom(room)], seq![Task::ScrollToBottom]);
    assert(kept =~= seq![Task::SaveLastRoom(room)] + seq![Task::ScrollToBottom]);
    laws::lemma_one_task(open[0]);
    assert(open =~= seq![open[0]]);
    let n = player.len() as int;
    assert(inner[n] == Task::SaveLastRoom(room));
    assert(inner[n + 1] == Task::ScrollToBottom);
    if before.timeline.inline_video is Some {
        assert(inner[0] == Task::ClosePlayer);
    }
    match before.room_list.selected_room_id {
        Some(previous) => {
            laws::lemma_one_task(close[0]);
            assert(close =~= seq![close[0]]);
            assert(commands_of(inner) =~= seq![
                ClientCommand::CloseRoom { room_id: previous },
                ClientCommand::OpenRoom { room_id: room },
            ]);
        },
        None => {
            assert(commands_of(inner) =~= seq![ClientCommand::OpenRoom { room_id: room }]);
        },
    }
}

/// What the other clicks in the sidebar ask for: a space is explored under its
/// name, a new room is made, a user is searched for, and a right click asks
/// what to do with that room.
pub proof fn law_what_the_sidebar_offers<
    E: Fn(&str) -> Option<SpellError>,
    G: Fn(&str) -> Vec<String>,
>(
    before: App,
    after: App,
    m: room_list::Message,
    id: RequestId,
    errors: E,
    guesses: G,
    r: Seq<Task>,
    i: int,
)
    requires
        update::updated(before, after, Message::RoomList(m), id, errors, guesses, r),
        before.connected,
    ensures
        m matches room_list::Message::SpaceClicked(space) ==> {
            &&& commands_of(r) == seq![
                ClientCommand::FetchSpaceHierarchy {
                    space_id: space,
                    from: None,
                    request_id: id,
                },
            ]
            &&& after.space_explorer is Some
            &&& after.space_explorer->0.stack@.len() == 1
            &&& after.space_explorer->0.stack@[0].space_id@ == space@
            &&& after.space_explorer->0.stack@[0].pending_request == Some(id)
            &&& 0 <= i < before.room_list.rooms@.len() && before.room_list.rooms@[i].room_id@
                == space@ && (forall|j: int|
                0 <= j < i ==> (#[trigger] before.room_list.rooms@[j]).room_id@ != space@)
                ==> after.space_explorer->0.stack@[0].name@ == before.room_list.rooms@[i].name@
        },
        m is NewRoomClicked ==> commands_of(r) == seq![
            ClientCommand::CreateRoom { encrypted: false, request_id: id },
        ],
        m is NewDirectMessageClicked ==> commands_of(r).len() == 0 && after.dm_search is Some
            && after.dm_search->0.query@.len() == 0,
        m matches room_list::Message::RoomRightClicked(room) ==> commands_of(r).len() == 0 && (0 <= i
            < before.room_list.rooms@.len() && before.room_list.rooms@[i].room_id@ == room@ && (
        forall|j: int| 0 <= j < i ==> (#[trigger] before.room_list.rooms@[j]).room_id@ != room@)
            ==> {
            &&& after.pending_room_action is Some
            &&& after.pending_room_action->0.room_id@ == room@
            &&& after.pending_room_action->0.room_name@ == before.room_list.rooms@[i].name@
            &&& after.pending_room_action->0.rename_draft@ == before.room_list.rooms@[i].name@
            &&& after.pending_room_action->0.is_dm == before.room_list.rooms@[i].is_dm
        }),
{
    let inner = lemma_inner(before, after, Message::RoomList(m), id, errors, guesses, r);
    let rooms = before.room_list.rooms@;
    match m {
        room_list::Message::SpaceClicked(space) => {
            room_list::law_a_room_is_found_by_its_id(rooms, space@);
        },
        room_list::Message::RoomRightClicked(room) => {
            room_list::law_a_room_is_found_by_its_id(rooms, room@);
        },
        _ => {},
    }
}

/// Leaving and forgetting a room tell the server so and close the question; a
/// new name is sent without the white space around it, to the room that was
/// asked about; cancelling sends nothing.
pub proof fn law_what_is_done_with_a_room<
    E: Fn(&str) -> Option<SpellError>,
    G: Fn(&str) -> Vec<String>,
>(
    before: App,
    after: App,
    message: Message,
    id: RequestId,
    errors: E,
    guesses: G,
    r: Seq<Task>,
)
    requires
        update::updated(before, after, message, id, errors, guesses, r),
        before.connected,
    ensures
        message matches Message::ConfirmLeaveRoom(room) ==> commands_of(r).len() > 0 && commands_of(
            r,
        )[0] == (ClientCommand::LeaveRoom { room_id: room, request_id: id })
            && after.pending_room_action is None,
        message matches Message::ConfirmForgetRoom(room) ==> commands_of(r).len() > 0
            && commands_of(r)[0] == (ClientCommand::ForgetRoom { room_id: room, request_id: id })
            && after.pending_room_action is None,
        message matches Message::ConfirmLeaveRoom(room) ==> timeline::is_this(
            before.room_list.selected_room_id,
            room@,
        ) ==> after.room_list.selected_room_id is None && after.timeline.room_id is None,
        message matches Message::ConfirmLeaveRoom(room) ==> !timeline::is_this(
            before.room_list.selected_room_id,
            room@,
        ) ==> after.timeline == before.timeline && commands_of(r).len() == 1,
        message matches Message::RoomRenameDraftChanged(name) ==> commands_of(r).len() == 0 && (
        before.pending_room_action is Some ==> after.pending_room_action is Some
            && after.pending_room_action->0.rename_draft@ == name@
            && after.pending_room_action->0.room_id == before.pending_room_action->0.room_id),
        message matches Message::ConfirmRoomRename(room) ==> after.pending_room_action is None && (
        before.pending_room_action is Some && text::trimmed(
            before.pending_room_action->0.rename_draft@,
        ).len() > 0 ==> commands_of(r).len() == 1 && (commands_of(r)[0] is SetRoomName)
            && commands_of(r)[0]->SetRoomName_room_id@ == room@
            && commands_of(r)[0]->SetRoomName_name@ == text::trimmed(
            before.pending_room_action->0.rename_draft@,
        )),
        message is CancelRoomAction ==> commands_of(r).len() == 0 && after.pending_room_action
            is None && after.timeline == before.timeline,
{
    let inner = lemma_inner(before, after, message, id, errors, guesses, r);
    match message {
        Message::ConfirmLeaveRoom(room) => {
            let first = Task::Send(ClientCommand::LeaveRoom { room_id: room, request_id: id });
            assert(inner.take(1) == seq![first]);
            assert(inner =~= seq![first] + inner.skip(1));
            laws::lemma_commands_concat(seq![first], inner.skip(1));
            laws::lemma_one_task(first);
        },
        Message::ConfirmForgetRoom(room) => {
            let first = Task::Send(ClientCommand::ForgetRoom { room_id: room, request_id: id });
            assert(inner.take(1) == seq![first]);
            assert(inner =~= seq![first] + inner.skip(1));
            laws::lemma_commands_concat(seq![first], inner.skip(1));
            laws::lemma_one_task(first);
        },
        _ => {},
    }
}

// ---------------------------------------------------------------------------
// The overlays, the screens and the settings.
// ---------------------------------------------------------------------------
/// What the explorer asks for goes out as it was asked: a join to its room by
/// way of its servers, a space from its first page, the next page from where
/// the last one ended.
pub proof fn law_the_explorer_asks_the_server<
    E: Fn(&str) -> Option<SpellError>,
    G: Fn(&str) -> Vec<String>,
>(
    before: App,
    after: App,
    m: space_explorer::Message,
    id: RequestId,
    errors: E,
    guesses: G,
    r: Seq<Task>,
    s: space_explorer::State,
)
    requires
        update::updated(before, after, Message::SpaceExplorer(m), id, errors, guesses, r),
        before.connected,
        before.space_explorer == Some(s),
        s.wf(),
    ensures
        m matches space_explorer::Message::Join { room_id, via } ==> s.pending_join is None
            ==> commands_of(r) == seq![
            ClientCommand::JoinRoom { room_id_or_alias: room_id, via, request_id: id },
        ],
        m is Join && s.pending_join is Some ==> commands_of(r).len() == 0,
        m matches space_explorer::Message::EnterSpace { space_id, name } ==> commands_of(r) == seq![
            ClientCommand::FetchSpaceHierarchy { space_id, from: None, request_id: id },
        ],
        m is LoadMore && s.stack@.last().pending_request is None && s.stack@.last().next_batch
            is Some ==> commands_of(r) == seq![
            ClientCommand::FetchSpaceHierarchy {
                space_id: s.stack@.last().space_id,
                from: s.stack@.last().next_batch,
                request_id: id,
            },
        ],
        m is Retry ==> commands_of(r) == seq![
            ClientCommand::FetchSpaceHierarchy {
                space_id: s.stack@.last().space_id,
                from: None,
                request_id: id,
            },
        ],
        m matches space_explorer::Message::Open(room) ==> after.space_explorer is None
            && after.room_list.selected_room_id is Some && after.room_list.selected_room_id->0@
            == room@,
        m is Close ==> after.space_explorer is None && commands_of(r).len() == 0,
{
    let inner = lemma_inner(before, after, Message::SpaceExplorer(m), id, errors, guesses, r);
}

/// What the user search asks for goes out as it was asked.
pub proof fn law_the_user_search_asks_the_server<
    E: Fn(&str) -> Option<SpellError>,
    G: Fn(&str) -> Vec<String>,
>(
    before: App,
    after: App,
    m: dm_search::Message,
    id: RequestId,
    errors: E,
    guesses: G,
    r: Seq<Task>,
    s: dm_search::State,
)
    requires
        update::updated(before, after, Message::DmSearch(m), id, errors, guesses, r),
        before.connected,
        before.dm_search == Some(s),
    ensures
        m == dm_search::Message::Debounced(s.generation) && text::trimmed(s.query@).len() > 0
            ==> commands_of(r) == seq![
            ClientCommand::SearchUsers { query: s.query, request_id: id },
        ],
        m matches dm_search::Message::ResultClicked(user) ==> after.dm_search is None
            && commands_of(r) == seq![
            ClientCommand::OpenDirectMessage {
                user_id: user,
                encrypted: before.edited.encryption.encrypt_direct_messages,
                request_id: id,
            },
        ],
        m is QueryChanged || m is Close ==> commands_of(r).len() == 0,
{
    let inner = lemma_inner(before, after, Message::DmSearch(m), id, errors, guesses, r);
}

/// What is asked of the verification screen goes out: without a user it is
/// this account that is verified.
pub proof fn law_the_verification_screen_asks_the_server<
    E: Fn(&str) -> Option<SpellError>,
    G: Fn(&str) -> Vec<String>,
>(
    before: App,
    after: App,
    m: verification::Message,
    id: RequestId,
    errors: E,
    guesses: G,
    r: Seq<Task>,
)
    requires
        update::updated(before, after, Message::Verification(m), id, errors, guesses, r),
        before.connected,
    ensures
        m is AcceptVerification ==> commands_of(r) == seq![
            ClientCommand::AcceptVerificationRequest,
        ],
        m is ConfirmEmojisMatch ==> commands_of(r) == seq![ClientCommand::ConfirmSasMatch],
        m is RejectEmojisMatch ==> commands_of(r) == seq![ClientCommand::RejectSasMatch],
        m is DeclineVerification || m is DismissSas ==> commands_of(r) == seq![
            ClientCommand::VerificationCancel,
        ],
        m is RetryCrossSigningBootstrap ==> commands_of(r) == seq![
            ClientCommand::RetryCrossSigningBootstrap,
        ],
        m is StartVerification && text::trimmed(before.verification.verify_user_id_input@).len() > 0
            ==> commands_of(r).len() == 1 && commands_of(r)[0] is StartVerification
            && commands_of(r)[0]->StartVerification_user_id@ == text::trimmed(
            before.verification.verify_user_id_input@,
        ),
        m is StartVerification && text::trimmed(before.verification.verify_user_id_input@).len()
            == 0 && before.own_user_id is Some ==> commands_of(r) == seq![
            ClientCommand::StartVerification { user_id: before.own_user_id->0 },
        ],
        m is SubmitRecoveryKey && text::trimmed(before.verification.recovery_key_input@).len() > 0
            ==> commands_of(r).len() == 1 && commands_of(r)[0] is RestoreFromBackup
            && commands_of(r)[0]->RestoreFromBackup_recovery_key@ == text::trimmed(
            before.verification.recovery_key_input@,
        ),
{
    let inner = lemma_inner(before, after, Message::Verification(m), id, errors, guesses, r);
}

/// The settings sign out on the confirmation only, and set the default of the
/// kind of room that was chosen.
pub proof fn law_the_settings_ask_the_server<
    E: Fn(&str) -> Option<SpellError>,
    G: Fn(&str) -> Vec<String>,
>(
    before: App,
    after: App,
    m: settings::Message,
    id: RequestId,
    errors: E,
    guesses: G,
    r: Seq<Task>,
)
    requires
        update::updated(before, after, Message::Settings(m), id, errors, guesses, r),
        before.connected,
        !(m is Security),
    ensures
        m == settings::Message::General(settings::general::Message::ConfirmLogout) ==> commands_of(
            r,
        ) == seq![ClientCommand::Logout],
        m == settings::Message::Notifications(
            settings::notifications::Message::DirectDefaultChanged(
                settings::notifications::ModeChoice::Mute,
            ),
        ) ==> commands_of(r) == seq![
            ClientCommand::SetDefaultNotificationMode {
                scope: NotificationScope::DirectMessages,
                mode: NotificationMode::Mute,
                request_id: id,
            },
        ],
        m matches settings::Message::Notifications(
            settings::notifications::Message::GroupDefaultChanged(c),
        ) ==> commands_of(r).len() == 1 && commands_of(r)[0] is SetDefaultNotificationMode
            && commands_of(r)[0]->scope == NotificationScope::GroupChats,
        !(m is Notifications) && m != settings::Message::General(
            settings::general::Message::ConfirmLogout,
        ) ==> commands_of(r).len() == 0,
        m matches settings::Message::Privacy(settings::privacy::Message::TypingToggled(on))
            ==> after.edited.privacy.send_typing_notifications == on,
        m matches settings::Message::Privacy(settings::privacy::Message::ReadReceiptsToggled(on))
            ==> after.edited.privacy.send_read_receipts == on,
        m matches settings::Message::Privacy(settings::privacy::Message::LinkPreviewsToggled(on))
            ==> after.edited.privacy.enable_link_previews == on,
        m matches settings::Message::Encryption(
            settings::encryption::Message::DirectMessagesToggled(on),
        ) ==> after.edited.encryption.encrypt_direct_messages == on,
        m matches settings::Message::Encryption(settings::encryption::Message::RoomsToggled(on))
            ==> after.edited.encryption.encrypt_rooms == on,
        after.timeline == before.timeline,
{
    let inner = lemma_inner(before, after, Message::Settings(m), id, errors, guesses, r);
    let rest = inner.skip(1);
    assert(inner =~= seq![inner[0]] + rest);
    laws::lemma_commands_concat(seq![inner[0]], rest);
    laws::lemma_one_task(inner[0]);
    laws::lemma_no_task();
    if rest.len() == 0 {
        assert(rest =~= Seq::<Task>::empty());
    } else if rest.len() == 1 {
        laws::lemma_one_task(rest[0]);
        assert(rest =~= seq![rest[0]]);
    }
    assert(commands_of(r) =~= commands_of(rest));
}

// ---------------------------------------------------------------------------
// What the worker reports.
// ---------------------------------------------------------------------------
/// What is reported of the open room shows, and what is reported of another
/// changes nothing of the timeline.
pub proof fn law_reports_of_the_open_room_show<
    E: Fn(&str) -> Option<SpellError>,
    G: Fn(&str) -> Vec<String>,
>(
    before: App,
    after: App,
    event: ClientEvent,
    id: RequestId,
    errors: E,
    guesses: G,
    r: Seq<Task>,
    open: String,
)
    requires
        update::updated(before, after, Message::Client(event), id, errors, guesses, r),
        before.timeline.room_id == Some(open),
    ensures
        event matches ClientEvent::TimelineUpdated { room_id, items } ==> after.timeline.items
            == if room_id@ == open@ {
            items
        } else {
            before.timeline.items
        },
        event matches ClientEvent::TypingUpdated { room_id, user_ids } ==> after.timeline.typing_users
            == if room_id@ == open@ {
            user_ids
        } else {
            before.timeline.typing_users
        },
        event matches ClientEvent::PowerLevelTagsUpdated { room_id, tags }
            ==> after.timeline.power_tags == if room_id@ == open@ {
            tags
        } else {
            before.timeline.power_tags
        },
        event matches ClientEvent::TimelineStartReached { room_id } ==> after.timeline.reached_start
            == (room_id@ == open@ || before.timeline.reached_start),
        event matches ClientEvent::RoomMembersUpdated { room_id, members } ==> room_id@ != open@
            ==> after.timeline == before.timeline,
        event is TimelineUpdated || event is TypingUpdated || event is PowerLevelTagsUpdated || event
            is TimelineStartReached || event is RoomMembersUpdated ==> {
            &&& after.timeline.composer.body == before.timeline.composer.body
            &&& after.timeline.room_id == before.timeline.room_id
            &&& after.room_list == before.room_list
        },
{
    let inner = lemma_inner(before, after, Message::Client(event), id, errors, guesses, r);
}

/// At the newest message a snapshot marks the room read, with a public receipt
/// only where the settings allow one; further up it does not, unless it starts
/// over.
pub proof fn law_a_snapshot_at_the_bottom_is_read(
    before: App,
    after: App,
    room: String,
    items: Vec<crate::events::TimelineItem>,
    r: Seq<Task>,
)
    requires
        snapshot::timeline_updated(before, after, room, items, r),
        before.connected,
        timeline::is_this(before.timeline.room_id, room@),
    ensures
        before.timeline.at_bottom ==> r.contains(
            Task::Send(
                ClientCommand::MarkRoomRead {
                    room_id: before.timeline.room_id->0,
                    public_receipt: before.edited.privacy.send_read_receipts,
                },
            ),
        ),
        before.timeline.at_bottom ==> after.timeline.at_bottom,
        !before.timeline.at_bottom && !snapshot::starts_over(before.timeline.items@, items@)
            ==> !after.timeline.at_bottom,
{
    let links = snapshot::fetchable_links(
        snapshot::wanted_links(before, items@),
        before.connected,
    );
    let (p, m, e) = choose|p: Seq<Task>, m: Seq<Task>, e: Seq<Task>|
        #![trigger snapshot::fetch_previews(p, links), snapshot::images_wanted(before, after, items@, m, e)]
        snapshot::fetch_previews(p, links) && snapshot::images_wanted(before, after, items@, m, e)
            && r == snapshot::snapshot_tasks(
            before,
            before.timeline.room_id->0,
            items@,
            p,
            m,
            e,
        );
    if before.timeline.at_bottom {
        let over: Seq<Task> = if snapshot::starts_over(before.timeline.items@, items@) {
            seq![Task::ScrollToBottom]
        } else {
            Seq::empty()
        };
        let n = (p + over + m + e).len() as int;
        assert(r[n] == Task::Send(
            ClientCommand::MarkRoomRead {
                room_id: before.timeline.room_id->0,
                public_receipt: before.edited.privacy.send_read_receipts,
            },
        ));
    }
}

/// A snapshot starts over exactly where the oldest event that was loaded is
/// not in it.
pub proof fn law_when_a_snapshot_starts_over(
    before: Seq<crate::events::TimelineItem>,
    items: Seq<crate::events::TimelineItem>,
    i: int,
)
    requires
        0 <= i < before.len(),
        before[i].event_id is Some,
        forall|j: int| 0 <= j < i ==> (#[trigger] before[j]).event_id is None,
    ensures
        snapshot::starts_over(before, items) == forall|k: int|
            0 <= k < items.len() ==> ((#[trigger] items[k]).event_id matches Some(e) ==> e@
                != before[i].event_id->0@),
{
    lemma_first_id(before, i, 0);
    let id = before[i].event_id->0@;
    if snapshot::has_event(items, id) {
        let k = choose|k: int|
            0 <= k < items.len() && text::opt_view((#[trigger] items[k]).event_id) == Some(id);
        assert(items[k].event_id is Some);
    } else {
        assert forall|k: int| 0 <= k < items.len() implies ((
        #[trigger] items[k]).event_id matches Some(e) ==> e@ != id) by {
            assert(text::opt_view(items[k].event_id) != Some(id));
        }
    }
}

proof fn lemma_first_id(items: Seq<crate::events::TimelineItem>, i: int, from: int)
    requires
        0 <= from <= i < items.len(),
        items[i].event_id is Some,
        forall|j: int| 0 <= j < i ==> (#[trigger] items[j]).event_id is None,
    ensures
        snapshot::first_id(items, from) == Some(items[i].event_id->0@),
    decreases i - from,
{
    if from < i {
        lemma_first_id(items, i, from + 1);
    }
}

/// The room list shows the rooms that were reported, in their order; only the
/// open room, once it was read, has no badge.
pub proof fn law_the_room_list_shows_the_rooms<
    E: Fn(&str) -> Option<SpellError>,
    G: Fn(&str) -> Vec<String>,
>(
    before: App,
    after: App,
    rooms: Vec<crate::events::RoomSummary>,
    id: RequestId,
    errors: E,
    guesses: G,
    r: Seq<Task>,
    i: int,
)
    requires
        update::updated(
            before,
            after,
            Message::Client(ClientEvent::RoomListUpdated(rooms)),
            id,
            errors,
            guesses,
            r,
        ),
        0 <= i < rooms@.len(),
    ensures
        after.room_list.rooms@.len() == rooms@.len(),
        after.room_list.rooms@[i].room_id == rooms@[i].room_id,
        after.room_list.rooms@[i].name == rooms@[i].name,
        after.room_list.rooms@[i].is_dm == rooms@[i].is_dm,
        after.room_list.rooms@[i].is_space == rooms@[i].is_space,
        !timeline::is_this(before.timeline.room_id, rooms@[i].room_id@)
            || !before.timeline.suppress_unread_divider ==> after.room_list.rooms@[i] == rooms@[i],
        timeline::is_this(before.timeline.room_id, rooms@[i].room_id@)
            && before.timeline.suppress_unread_divider && (forall|j: int|
            0 <= j < i ==> (#[trigger] rooms@[j]).room_id@ != rooms@[i].room_id@)
            ==> after.room_list.rooms@[i].unread_count == 0,
{
    let m = Message::Client(ClientEvent::RoomListUpdated(rooms));
    let inner = lemma_inner(before, after, m, id, errors, guesses, r);
    if let Some(open) = before.timeline.room_id {
        room_list::law_a_room_is_found_by_its_id(rooms@, open@);
    }
}

/// What else is reported is taken as it is: the state of the sync, the modes
/// of rooms and of the account, the calls, the children of spaces.
pub proof fn law_reports_are_taken_as_they_are<
    E: Fn(&str) -> Option<SpellError>,
    G: Fn(&str) -> Vec<String>,
>(
    before: App,
    after: App,
    event: ClientEvent,
    id: RequestId,
    errors: E,
    guesses: G,
    r: Seq<Task>,
)
    requires
        update::updated(before, after, Message::Client(event), id, errors, guesses, r),
    ensures
        event matches ClientEvent::SyncStateChanged(s) ==> after.sync_state == s,
        event matches ClientEvent::RoomNotificationModeChanged { room_id, mode }
            ==> after.notification_modes@.contains_key(room_id@)
            && after.notification_modes@[room_id@] == mode,
        event matches ClientEvent::RoomNotificationModeCleared { room_id }
            ==> !after.notification_modes@.contains_key(room_id@),
        event matches ClientEvent::DefaultNotificationModesUpdated { direct_messages, group_chats }
            ==> after.default_notification_modes == (direct_messages, group_chats),
        event matches ClientEvent::CallStateUpdated { room_id, call }
            ==> after.call.calls@.contains_key(room_id@) && after.call.calls@[room_id@] == call
            && after.call.pending == before.call.pending,
        event matches ClientEvent::SpaceChildrenFetched { space_id, child_ids }
            ==> after.room_list.space_children@.contains_key(space_id@)
            && after.room_list.space_children@[space_id@] == child_ids
            && after.room_list.rooms == before.room_list.rooms,
        event matches ClientEvent::VerificationStateChanged(s) ==> after.verification.sas == Some(
            s,
        ),
        event matches ClientEvent::RecoveryEnabled { recovery_key }
            ==> after.verification.recovery_key_to_confirm == Some(recovery_key)
            && after.verification.recovery_enable_stage is None
            && !after.verification.recovery_setup_needed,
        event matches ClientEvent::RecoveryEnableProgress(stage)
            ==> after.verification.recovery_enable_stage == Some(stage),
        event matches ClientEvent::RecoveryEnableFailed { reason }
            ==> after.verification.recovery_error == Some(reason)
            && after.verification.recovery_enable_stage is None,
        event is RecoverySetupNeeded ==> after.verification.recovery_setup_needed,
        event is KeyBackupNeedsRecovery ==> after.verification.recovery_needs_key,
        event is KeyBackupRestored ==> !after.verification.recovery_needs_key
            && after.verification.recovery_key_input@.len() == 0,
        event matches ClientEvent::CrossSigningBootstrapNeedsFallback { url }
            ==> after.verification.cross_signing_fallback_url == Some(url),
        event is CrossSigningBootstrapDone ==> after.verification.cross_signing_fallback_url is None
            && after.verification.cross_signing_error is None,
        event matches ClientEvent::CrossSigningBootstrapFailed { reason }
            ==> after.verification.cross_signing_error == Some(reason),
        event matches ClientEvent::DirectMessageReady { room_id }
            ==> after.room_list.selected_room_id is Some && after.room_list.selected_room_id->0@
            == room_id@,
        event matches ClientEvent::RoomCreated { room_id } ==> after.room_list.selected_room_id
            is Some && after.room_list.selected_room_id->0@ == room_id@,
        event is LoggedOut ==> after.route == Route::Login && !after.signed_in && !after.connected
            && after.own_user_id is None,
{
    let inner = lemma_inner(before, after, Message::Client(event), id, errors, guesses, r);
}

/// The answer to a message that was sent clears the draft and says that the
/// typing is over; a refusal keeps the draft and says why.
pub proof fn law_a_message_is_answered<
    E: Fn(&str) -> Option<SpellError>,
    G: Fn(&str) -> Vec<String>,
>(
    before: App,
    after: App,
    event: ClientEvent,
    request: RequestId,
    why: String,
    id: RequestId,
    errors: E,
    guesses: G,
    r: Seq<Task>,
)
    requires
        update::updated(before, after, Message::Client(event), id, errors, guesses, r),
        before.timeline.composer.pending_request == Some(request),
        event == (ClientEvent::CommandSucceeded { request_id: request }) || event == (
        ClientEvent::CommandFailed { request_id: request, error: why }),
    ensures
        after.timeline.composer.pending_request is None,
        event is CommandSucceeded ==> {
            &&& after.timeline.composer.body@.len() == 0
            &&& after.timeline.composer.mentioned@.len() == 0
            &&& after.timeline.composer.replying_to is None
            &&& after.timeline.composer.error is None
            &&& before.connected && before.edited.privacy.send_typing_notifications
                && before.timeline.room_id is Some ==> commands_of(r) == seq![
                ClientCommand::SetTyping { room_id: before.timeline.room_id->0, typing: false },
            ]
        },
        event is CommandFailed ==> {
            &&& after.timeline.composer.body == before.timeline.composer.body
            &&& after.timeline.composer.mentioned == before.timeline.composer.mentioned
            &&& after.timeline.composer.replying_to == before.timeline.composer.replying_to
            &&& after.timeline.composer.error == Some(why)
            &&& commands_of(r).len() == 0
        },
        after.timeline.items == before.timeline.items,
{
    let inner = lemma_inner(before, after, Message::Client(event), id, errors, guesses, r);
}

/// The answers to an edit, a deletion and a request for history end what they
/// are about: an edit closes its field, a deletion its question; a refusal
/// says why and leaves them open.
pub proof fn law_the_other_answers<
    E: Fn(&str) -> Option<SpellError>,
    G: Fn(&str) -> Vec<String>,
>(
    before: App,
    after: App,
    event: ClientEvent,
    request: RequestId,
    why: String,
    id: RequestId,
    errors: E,
    guesses: G,
    r: Seq<Task>,
)
    requires
        update::updated(before, after, Message::Client(event), id, errors, guesses, r),
        event == (ClientEvent::CommandSucceeded { request_id: request }) || event == (
        ClientEvent::CommandFailed { request_id: request, error: why }),
        before.timeline.composer.pending_request != Some(request),
        before.timeline.composer.pending_attachment_request != Some(request),
        before.timeline.composer.pending_sticker_request != Some(request),
    ensures
        before.timeline.pending_edit_request == Some(request) ==> {
            &&& after.timeline.pending_edit_request is None
            &&& event is CommandSucceeded ==> after.timeline.editing is None
            &&& event is CommandFailed ==> after.timeline.editing == before.timeline.editing
                && after.timeline.action_error == Some(why)
        },
        before.timeline.pending_edit_request != Some(request)
            && before.timeline.pending_redact_request == Some(request) ==> {
            &&& after.timeline.pending_redact_request is None
            &&& event is CommandSucceeded ==> after.timeline.confirm_delete is None
            &&& event is CommandFailed ==> after.timeline.action_error == Some(why)
        },
        before.timeline.pending_edit_request != Some(request)
            && before.timeline.pending_redact_request != Some(request)
            && before.timeline.pending_paginate_request == Some(request) ==> {
            &&& after.timeline.pending_paginate_request is None
            &&& !after.timeline.loading_older
            &&& event is CommandFailed ==> after.timeline.action_error == Some(why)
        },
        after.timeline.composer.body == before.timeline.composer.body,
        commands_of(r).len() == 0,
{
    let inner = lemma_inner(before, after, Message::Client(event), id, errors, guesses, r);
}

/// A file that went out is followed by the next one of its batch, under the
/// next id and without the caption, which went with the first.
pub proof fn law_the_next_file_follows<
    E: Fn(&str) -> Option<SpellError>,
    G: Fn(&str) -> Vec<String>,
>(
    before: App,
    after: App,
    request: RequestId,
    id: RequestId,
    errors: E,
    guesses: G,
    r: Seq<Task>,
)
    requires
        update::updated(
            before,
            after,
            Message::Client(ClientEvent::CommandSucceeded { request_id: request }),
            id,
            errors,
            guesses,
            r,
        ),
        before.timeline.composer.pending_request != Some(request),
        before.timeline.composer.pending_attachment_request == Some(request),
        before.connected,
        before.timeline.room_id is Some,
        before.timeline.composer.staged_attachments@.len() > 1,
        before.timeline.composer.sending_remaining > 1,
    ensures
        commands_of(r).len() > 0,
        commands_of(r)[0] is SendAttachment,
        commands_of(r)[0]->SendAttachment_room_id@ == before.timeline.room_id->0@,
        commands_of(r)[0]->SendAttachment_filename@
            == before.timeline.composer.staged_attachments@[1].filename@,
        commands_of(r)[0]->SendAttachment_bytes@
            == before.timeline.composer.staged_attachments@[1].bytes@,
        commands_of(r)[0]->SendAttachment_mime@
            == before.timeline.composer.staged_attachments@[1].mime@,
        commands_of(r)[0]->SendAttachment_caption is None,
        commands_of(r)[0]->SendAttachment_request_id == id,
        after.timeline.composer.pending_attachment_request == Some(id),
        after.timeline.composer.staged_attachments@
            == before.timeline.composer.staged_attachments@.skip(1),
{
    let m = Message::Client(ClientEvent::CommandSucceeded { request_id: request });
    let inner = lemma_inner(before, after, m, id, errors, guesses, r);
    let rest = inner.skip(1);
    assert(inner =~= seq![inner[0]] + rest);
    laws::lemma_commands_concat(seq![inner[0]], rest);
    laws::lemma_one_task(inner[0]);
}

// ---------------------------------------------------------------------------
// The window, and what is read from it.
// ---------------------------------------------------------------------------
/// What is pasted or dropped is read for the room on screen, and not at all
/// where something else shows.
pub proof fn law_what_is_dropped_is_read<
    E: Fn(&str) -> Option<SpellError>,
    G: Fn(&str) -> Vec<String>,
>(
    before: App,
    after: App,
    message: Message,
    id: RequestId,
    errors: E,
    guesses: G,
    r: Seq<Task>,
    room: String,
)
    requires
        update::updated(before, after, message, id, errors, guesses, r),
        before.timeline.room_id == Some(room),
        message is PasteClipboard || message is FileDropped,
    ensures
        after == before,
        before.route == Route::Main && !before.show_settings && before.space_explorer is None ==> {
            &&& message is PasteClipboard ==> r.contains(Task::ReadClipboard { room_id: room })
            &&& message matches Message::FileDropped(path) ==> r.contains(
                Task::ReadDropped { room_id: room, path },
            )
        },
        before.route == Route::Login || before.show_settings || before.space_explorer is Some
            ==> forall|k: int|
            0 <= k < r.len() ==> !((#[trigger] r[k]) is ReadClipboard) && !(r[k] is ReadDropped),
{
    let inner = lemma_inner(before, after, message, id, errors, guesses, r);
    if inner.len() > 0 {
        assert(r.contains(inner[0]));
    }
}

/// Files that were read go to the room that they were read for, and to no
/// other; what could not be read is counted.
pub proof fn law_files_go_to_their_room<
    E: Fn(&str) -> Option<SpellError>,
    G: Fn(&str) -> Vec<String>,
>(
    before: App,
    after: App,
    room: String,
    files: Vec<(String, Vec<u8>)>,
    failed: usize,
    id: RequestId,
    errors: E,
    guesses: G,
    r: Seq<Task>,
)
    requires
        update::updated(
            before,
            after,
            Message::AttachmentsReadFor { room_id: room, files, failed },
            id,
            errors,
            guesses,
            r,
        ),
    ensures
        !timeline::is_this(before.timeline.room_id, room@) ==> {
            &&& after.timeline.composer.staged_attachments
                == before.timeline.composer.staged_attachments
            &&& after.timeline.composer.error is Some
            &&& after.timeline.composer.error->0@
                == "Attachment cancelled — the room changed while reading the files"@
        },
        timeline::is_this(before.timeline.room_id, room@) && files@.len() > 0 ==> r.contains(
            Task::FocusComposer,
        ),
        timeline::is_this(before.timeline.room_id, room@) && files@.len() == 0 && failed == 1
            ==> after.timeline.composer.error is Some && after.timeline.composer.error->0@
            == text::decimal(1) + " item couldn't be read (folders can't be attached)"@,
        timeline::is_this(before.timeline.room_id, room@) && files@.len() == 1 && (forall|i: int|
            0 <= i < before.timeline.composer.staged_attachments@.len() ==> (
            #[trigger] before.timeline.composer.staged_attachments@[i]).filename@ != files@[0].0@)
            ==> {
            let n = before.timeline.composer.staged_attachments@.len() as int;
            &&& after.timeline.composer.staged_attachments@.len() == n + 1
            &&& after.timeline.composer.staged_attachments@[n].filename@ == files@[0].0@
            &&& after.timeline.composer.staged_attachments@[n].bytes@ == files@[0].1@
        },
        after.timeline.composer.body == before.timeline.composer.body || files@.len() > 1,
        commands_of(r).len() == 0,
{
    let m = Message::AttachmentsReadFor { room_id: room, files, failed };
    let inner = lemma_inner(before, after, m, id, errors, guesses, r);
    if inner.len() > 0 {
        assert(r.contains(inner[0]));
    }
    if timeline::is_this(before.timeline.room_id, room@) {
        let mid = choose|mid: timeline::composer::State| #[trigger]
            update::inputs::told_unread(before.timeline.composer, mid, failed)
                && update::inputs::all_picked(mid, after.timeline.composer, files@);
        let steps = choose|steps: Seq<timeline::composer::State>| #[trigger]
            update::inputs::picks_through(steps, mid, after.timeline.composer, files@);
        if files@.len() == 1 {
            assert(timeline::composer::picked(steps[0], steps[1], files@[0].0, files@[0].1));
        }
        if failed == 1 && files@.len() == 0 {
            reveal_strlit(" item");
            reveal_strlit("");
            reveal_strlit(" couldn't be read (folders can't be attached)");
            reveal_strlit(" item couldn't be read (folders can't be attached)");
            assert(update::inputs::unread_text(1) =~= text::decimal(1)
                + " item couldn't be read (folders can't be attached)"@);
        }
    }
}

/// What the window does: the viewer closes and downloads what it shows, escape
/// closes the viewer and ends autoscroll, the settings open and close, and the
/// cursor is where it is reported.
pub proof fn law_what_the_window_does<
    E: Fn(&str) -> Option<SpellError>,
    G: Fn(&str) -> Vec<String>,
>(
    before: App,
    after: App,
    message: Message,
    id: RequestId,
    errors: E,
    guesses: G,
    r: Seq<Task>,
)
    requires
        update::updated(before, after, message, id, errors, guesses, r),
    ensures
        message is CloseZoom ==> after.zoomed_image is None,
        message is EscapePressed ==> after.zoomed_image is None && after.timeline.autoscroll is None
            && after.timeline.composer == before.timeline.composer,
        message is DownloadZoomedImage && before.connected ==> (before.zoomed_image matches Some(url)
            ==> commands_of(r) == seq![
            ClientCommand::FetchMedia { mxc_url: url, request_id: id },
        ] && after.media.download_requests@.contains(id)),
        message is DownloadZoomedImage && before.zoomed_image is None ==> commands_of(r).len() == 0
            && after == before,
        message matches Message::CursorMoved(p) ==> after.cursor_position == p && after.timeline
            == before.timeline,
        message is ToggleSettings ==> after.show_settings == !before.show_settings,
        message matches Message::ToggleSettings(on) ==> !before.show_settings
            ==> after.settings.general.autostart_enabled == on
            && !after.settings.general.confirm_logout,
        message is SettingsResizeStarted ==> after.settings_resize_drag is Some
            && after.settings_panel_size == before.settings_panel_size,
        message is SettingsResizeReleased ==> after.settings_resize_drag is None,
        message matches Message::SettingsResizeDragged { cursor, resized }
            ==> after.settings_panel_size == if before.settings_resize_drag is Some
            && before.settings_resize_drag->0.anchor is Some {
            resized
        } else {
            before.settings_panel_size
        },
        message is AutoscrollEnd ==> after.timeline.autoscroll is None,
        message is AutoscrollTick ==> (before.timeline.autoscroll matches Some(o) ==> r.contains(
            Task::AutoscrollStep { origin: o, cursor: before.cursor_position },
        )),
        message is ReclaimAppFocus ==> r.contains(Task::ReclaimFocus),
        message matches Message::InlineVideoOpened(Some(why)) ==> r.contains(Task::ClosePlayer) && (
        before.timeline.inline_video is Some ==> after.timeline.inline_video is Some
            && after.timeline.inline_video->0.error == Some(why)),
        message matches Message::InlineVideoScale(s) ==> before.timeline.inline_video is Some
            ==> after.timeline.inline_video is Some && after.timeline.inline_video->0.scale == Some(
            s,
        ),
{
    let inner = lemma_inner(before, after, message, id, errors, guesses, r);
    if inner.len() > 0 {
        assert(r.contains(inner[0]));
    }
    if message is DownloadZoomedImage && before.zoomed_image is Some {
        let n = before.media.download_requests@.len() as int;
        assert(after.media.download_requests@[n] == id);
    }
}

/// What was looked up for a link is kept for that link, and a look-up that
/// failed asks the homeserver, once.
pub proof fn law_what_was_looked_up_is_kept<
    E: Fn(&str) -> Option<SpellError>,
    G: Fn(&str) -> Vec<String>,
>(
    before: App,
    after: App,
    message: Message,
    id: RequestId,
    errors: E,
    guesses: G,
    r: Seq<Task>,
)
    requires
        update::updated(before, after, message, id, errors, guesses, r),
    ensures
        message matches Message::TweetFetched(url, Ok(t)) ==> after.previews@.tweets.contains_key(
            url@,
        ) && after.previews@.tweets[url@] == Some(t),
        message matches Message::SteamFetched(url, Ok(a)) ==> after.previews@.apps.contains_key(url@)
            && after.previews@.apps[url@] == Some(a),
        message matches Message::TweetFetched(url, Err(_)) ==> before.connected
            && !before.previews@.links.contains_key(url@) ==> commands_of(r) == seq![
            ClientCommand::FetchUrlPreview { url },
        ] && after.previews@.links.contains_key(url@),
        message matches Message::SteamFetched(url, Err(_)) ==> before.connected
            && !before.previews@.links.contains_key(url@) ==> commands_of(r) == seq![
            ClientCommand::FetchUrlPreview { url },
        ] && after.previews@.links.contains_key(url@),
        message matches Message::TweetFetched(url, Err(_)) ==> before.previews@.links.contains_key(
            url@,
        ) ==> commands_of(r).len() == 0,
        message matches Message::Client(ClientEvent::UrlPreviewFetched(p))
            ==> after.previews@.links.contains_key(p.url@) && after.previews@.links[p.url@] == Some(
            p,
        ),
        message matches Message::EmojiSvgFetched(e, ok) ==> after.media.emoji@.contains(e@) == (ok
            || before.media.emoji@.contains(e@)) && !after.media.emoji_pending@.contains(e@),
        message matches Message::GifDecoded(url) ==> after.media.cached@.contains(url@)
            && !after.media.pending_urls@.contains(url@),
        message matches Message::WebImageFetched(url, ok) ==> after.media.web_images@.contains(url@)
            == (ok || before.media.web_images@.contains(url@))
            && !after.media.web_pending@.contains(url@),
{
    let inner = lemma_inner(before, after, message, id, errors, guesses, r);
}

/// The members of the open room are all listed, by their names in lower case,
/// and completed by those names; the packs that are reported are the ones
/// whose codes are known.
pub proof fn law_members_and_packs_are_taken_over<
    E: Fn(&str) -> Option<SpellError>,
    G: Fn(&str) -> Vec<String>,
>(
    before: App,
    after: App,
    event: ClientEvent,
    id: RequestId,
    errors: E,
    guesses: G,
    r: Seq<Task>,
    open: String,
    m: crate::events::RoomMember,
    i: int,
)
    requires
        update::updated(before, after, Message::Client(event), id, errors, guesses, r),
        before.timeline.room_id == Some(open),
    ensures
        event matches ClientEvent::RoomMembersUpdated { room_id, members } ==> room_id@ == open@ ==> {
            let c = after.timeline.composer;
            &&& c.member_candidates@.contains(m) == members@.contains(m)
            &&& c.member_candidates_lower@.len() == c.member_candidates@.len()
            &&& 0 <= i < c.member_candidates@.len() ==> c.member_candidates_lower@[i]@
                == text::lowered(c.member_candidates@[i].display_name@)
            &&& 0 <= i < c.member_candidates@.len() - 1 ==> crate::sorting::at_most(
                text::lowered(c.member_candidates@[i].display_name@),
                text::lowered(c.member_candidates@[i + 1].display_name@),
            )
            &&& c.body == before.timeline.composer.body
            &&& c.mentioned == before.timeline.composer.mentioned
        },
        event matches ClientEvent::CustomEmojiPacksUpdated(packs) ==> after.emoji_packs == packs
            && timeline::body::indexes(
            after.emoji_shortcode_index,
            timeline::body::all_emojis(packs@),
        ) && after.timeline == before.timeline,
{
    let inner = lemma_inner(before, after, Message::Client(event), id, errors, guesses, r);
    if let ClientEvent::RoomMembersUpdated { room_id, members } = event {
        if room_id@ == open@ {
            let c = after.timeline.composer;
            crate::sorting::law_members_are_listed_by_name(
                c.member_candidates@,
                members@,
                m,
                i,
                i + 1,
            );
        }
    }
}

} // verus!
