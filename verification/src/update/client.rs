//! What the sync worker reports, and what it makes of the application. One
//! event can concern several screens at once.

use vstd::prelude::*;

use crate::events::{
    EmojiPack, NotificationMode, RequestId, RoomMember, RoomSummary, SpaceChildSummary,
    UrlPreview, UserSearchResult,
};
use crate::media;
use crate::media::{Arrival, MediaKind};
use crate::previews::PreviewMaps;
use crate::screens::call;
use crate::screens::dm_search;
use crate::screens::room_list;
use crate::screens::space_explorer;
use crate::screens::timeline;
use crate::screens::timeline::body;
use crate::screens::timeline::body::ShortcodeIndex;
use crate::screens::timeline::composer;
use crate::screens::verification;
use crate::sorting;
use crate::state::{App, Route};
use crate::string_map::StringMap;
use crate::text;
use crate::update::answers;
use crate::update::effects;
use crate::update::rooms;
use crate::update::snapshot;
use crate::update::tasks;
use crate::update::tasks::{ClientEvent, Task};
use crate::word_set::WordSet;

verus! {

// ---------------------------------------------------------------------------
// Avatars.
// ---------------------------------------------------------------------------
/// Those of some names that are there.
pub open spec fn present(names: Seq<Option<String>>) -> Seq<Seq<char>>
    decreases names.len(),
{
    if names.len() == 0 {
        Seq::empty()
    } else {
        let before = present(names.drop_last());
        match names.last() {
            Some(s) => before.push(s@),
            None => before,
        }
    }
}

/// The avatars of some rooms.
pub open spec fn room_avatars(v: Seq<RoomSummary>) -> Seq<Seq<char>> {
    present(v.map_values(|x: RoomSummary| x.avatar_url))
}

/// The avatars of some members.
pub open spec fn member_avatars(v: Seq<RoomMember>) -> Seq<Seq<char>> {
    present(v.map_values(|x: RoomMember| x.avatar_url))
}

/// The avatars of some children of a space.
pub open spec fn child_avatars(v: Seq<SpaceChildSummary>) -> Seq<Seq<char>> {
    present(v.map_values(|x: SpaceChildSummary| x.avatar_url))
}

/// The avatars of some users.
pub open spec fn user_avatars(v: Seq<UserSearchResult>) -> Seq<Seq<char>> {
    present(v.map_values(|x: UserSearchResult| x.avatar_url))
}

/// Adds a name that is there.
fn push_present(out: &mut Vec<String>, name: &Option<String>, Ghost(names): Ghost<Seq<Option<String>>>)
    requires
        text::views(old(out)@) == present(names),
    ensures
        text::views(final(out)@) == present(names.push(*name)),
{
    assert(names.push(*name).drop_last() =~= names);
    if let Some(s) = name {
        let ghost before = text::views(out@);
        out.push(s.clone());
        assert(text::views(out@) =~= before.push(s@));
    }
}

/// The avatars of some rooms.
fn avatars_of_rooms(v: &Vec<RoomSummary>) -> (r: Vec<String>)
    ensures
        text::views(r@) == room_avatars(v@),
{
    let ghost all = v@.map_values(|x: RoomSummary| x.avatar_url);
    let mut r: Vec<String> = Vec::new();
    let mut i: usize = 0;
    assert(text::views(r@) =~= present(all.take(0)));
    while i < v.len()
        invariant
            i <= v@.len(),
            all == v@.map_values(|x: RoomSummary| x.avatar_url),
            text::views(r@) == present(all.take(i as int)),
        decreases v@.len() - i,
    {
        push_present(&mut r, &v[i].avatar_url, Ghost(all.take(i as int)));
        assert(all.take(i + 1) =~= all.take(i as int).push(v@[i as int].avatar_url));
        i = i + 1;
    }
    assert(all.take(v@.len() as int) =~= all);
    r
}

/// The avatars of some members.
fn avatars_of_members(v: &Vec<RoomMember>) -> (r: Vec<String>)
    ensures
        text::views(r@) == member_avatars(v@),
{
    let ghost all = v@.map_values(|x: RoomMember| x.avatar_url);
    let mut r: Vec<String> = Vec::new();
    let mut i: usize = 0;
    assert(text::views(r@) =~= present(all.take(0)));
    while i < v.len()
        invariant
            i <= v@.len(),
            all == v@.map_values(|x: RoomMember| x.avatar_url),
            text::views(r@) == present(all.take(i as int)),
        decreases v@.len() - i,
    {
        push_present(&mut r, &v[i].avatar_url, Ghost(all.take(i as int)));
        assert(all.take(i + 1) =~= all.take(i as int).push(v@[i as int].avatar_url));
        i = i + 1;
    }
    assert(all.take(v@.len() as int) =~= all);
    r
}

/// The avatars of some children of a space.
fn avatars_of_children(v: &Vec<SpaceChildSummary>) -> (r: Vec<String>)
    ensures
        text::views(r@) == child_avatars(v@),
{
    let ghost all = v@.map_values(|x: SpaceChildSummary| x.avatar_url);
    let mut r: Vec<String> = Vec::new();
    let mut i: usize = 0;
    assert(text::views(r@) =~= present(all.take(0)));
    while i < v.len()
        invariant
            i <= v@.len(),
            all == v@.map_values(|x: SpaceChildSummary| x.avatar_url),
            text::views(r@) == present(all.take(i as int)),
        decreases v@.len() - i,
    {
        push_present(&mut r, &v[i].avatar_url, Ghost(all.take(i as int)));
        assert(all.take(i + 1) =~= all.take(i as int).push(v@[i as int].avatar_url));
        i = i + 1;
    }
    assert(all.take(v@.len() as int) =~= all);
    r
}

/// The avatars of some users.
fn avatars_of_users(v: &Vec<UserSearchResult>) -> (r: Vec<String>)
    ensures
        text::views(r@) == user_avatars(v@),
{
    let ghost all = v@.map_values(|x: UserSearchResult| x.avatar_url);
    let mut r: Vec<String> = Vec::new();
    let mut i: usize = 0;
    assert(text::views(r@) =~= present(all.take(0)));
    while i < v.len()
        invariant
            i <= v@.len(),
            all == v@.map_values(|x: UserSearchResult| x.avatar_url),
            text::views(r@) == present(all.take(i as int)),
        decreases v@.len() - i,
    {
        push_present(&mut r, &v[i].avatar_url, Ghost(all.take(i as int)));
        assert(all.take(i + 1) =~= all.take(i as int).push(v@[i as int].avatar_url));
        i = i + 1;
    }
    assert(all.take(v@.len() as int) =~= all);
    r
}

// ---------------------------------------------------------------------------
// The verification screen.
// ---------------------------------------------------------------------------
/// Whether an event concerns the verification screen.
pub open spec fn concerns_verification(event: ClientEvent) -> bool {
    match event {
        ClientEvent::CrossSigningBootstrapNeedsFallback { .. } => true,
        ClientEvent::CrossSigningBootstrapDone => true,
        ClientEvent::CrossSigningBootstrapFailed { .. } => true,
        ClientEvent::VerificationStateChanged(_) => true,
        ClientEvent::KeyBackupNeedsRecovery => true,
        ClientEvent::RecoverySetupNeeded => true,
        ClientEvent::RecoveryEnableProgress(_) => true,
        ClientEvent::RecoveryEnabled { .. } => true,
        ClientEvent::RecoveryEnableFailed { .. } => true,
        ClientEvent::KeyBackupRestored => true,
        ClientEvent::KeyBackupFailed { .. } => true,
        _ => false,
    }
}

/// What an event makes of the verification screen. A success takes the
/// failure of an earlier try with it.
pub open spec fn verification_heard(
    before: verification::State,
    after: verification::State,
    event: ClientEvent,
) -> bool {
    match event {
        ClientEvent::CrossSigningBootstrapNeedsFallback { url } => after == (verification::State {
            cross_signing_fallback_url: Some(url),
            ..before
        }),
        ClientEvent::CrossSigningBootstrapDone => after == (verification::State {
            cross_signing_fallback_url: None,
            cross_signing_error: None,
            ..before
        }),
        ClientEvent::CrossSigningBootstrapFailed { reason } => after == (verification::State {
            cross_signing_fallback_url: None,
            cross_signing_error: Some(reason),
            ..before
        }),
        ClientEvent::VerificationStateChanged(sas) => after == (verification::State {
            sas: Some(sas),
            ..before
        }),
        ClientEvent::KeyBackupNeedsRecovery => after == (verification::State {
            recovery_needs_key: true,
            ..before
        }),
        ClientEvent::RecoverySetupNeeded => after == (verification::State {
            recovery_setup_needed: true,
            ..before
        }),
        ClientEvent::RecoveryEnableProgress(stage) => after == (verification::State {
            recovery_enable_stage: Some(stage),
            ..before
        }),
        ClientEvent::RecoveryEnabled { recovery_key } => after == (verification::State {
            recovery_setup_needed: false,
            recovery_enable_stage: None,
            recovery_key_to_confirm: Some(recovery_key),
            recovery_error: None,
            ..before
        }),
        ClientEvent::RecoveryEnableFailed { reason } => after == (verification::State {
            recovery_enable_stage: None,
            recovery_error: Some(reason),
            ..before
        }),
        ClientEvent::KeyBackupRestored => {
            &&& after.recovery_key_input@.len() == 0
            &&& after == (verification::State {
                recovery_needs_key: false,
                recovery_key_input: after.recovery_key_input,
                recovery_error: None,
                ..before
            })
        },
        ClientEvent::KeyBackupFailed { reason } => after == (verification::State {
            recovery_error: Some(reason),
            ..before
        }),
        _ => after == before,
    }
}

/// Takes an event of the verification screen in; hands others back.
fn hear_verification(v: &mut verification::State, event: ClientEvent) -> (r: Option<ClientEvent>)
    ensures
        concerns_verification(event) ==> r is None && verification_heard(
            *old(v),
            *final(v),
            event,
        ),
        !concerns_verification(event) ==> r == Some(event) && *final(v) == *old(v),
{
    match event {
        ClientEvent::CrossSigningBootstrapNeedsFallback { url } => {
            v.cross_signing_fallback_url = Some(url);
        },
        ClientEvent::CrossSigningBootstrapDone => {
            v.cross_signing_fallback_url = None;
            v.cross_signing_error = None;
        },
        ClientEvent::CrossSigningBootstrapFailed { reason } => {
            v.cross_signing_fallback_url = None;
            v.cross_signing_error = Some(reason);
        },
        ClientEvent::VerificationStateChanged(sas) => {
            v.sas = Some(sas);
        },
        ClientEvent::KeyBackupNeedsRecovery => {
            v.recovery_needs_key = true;
        },
        ClientEvent::RecoverySetupNeeded => {
            v.recovery_setup_needed = true;
        },
        ClientEvent::RecoveryEnableProgress(stage) => {
            v.recovery_enable_stage = Some(stage);
        },
        ClientEvent::RecoveryEnabled { recovery_key } => {
            v.recovery_setup_needed = false;
            v.recovery_enable_stage = None;
            v.recovery_key_to_confirm = Some(recovery_key);
            v.recovery_error = None;
        },
        ClientEvent::RecoveryEnableFailed { reason } => {
            v.recovery_enable_stage = None;
            v.recovery_error = Some(reason);
        },
        ClientEvent::KeyBackupRestored => {
            v.recovery_needs_key = false;
            v.recovery_key_input = String::new();
            v.recovery_error = None;
        },
        ClientEvent::KeyBackupFailed { reason } => {
            v.recovery_error = Some(reason);
        },
        other => {
            return Some(other);
        },
    }
    None
}

// ---------------------------------------------------------------------------
// The open room.
// ---------------------------------------------------------------------------
/// What the room's tags, its typing and the start of its history make of the
/// timeline: nothing where another room is open.
pub open spec fn timeline_heard(
    before: timeline::State,
    after: timeline::State,
    event: ClientEvent,
) -> bool {
    match event {
        ClientEvent::PowerLevelTagsUpdated { room_id, tags } => after == if timeline::is_this(
            before.room_id,
            room_id@,
        ) {
            timeline::State { power_tags: tags, ..before }
        } else {
            before
        },
        ClientEvent::TypingUpdated { room_id, user_ids } => after == if timeline::is_this(
            before.room_id,
            room_id@,
        ) {
            timeline::State { typing_users: user_ids, ..before }
        } else {
            before
        },
        ClientEvent::TimelineStartReached { room_id } => after == if timeline::is_this(
            before.room_id,
            room_id@,
        ) {
            timeline::State { reached_start: true, loading_older: false, ..before }
        } else {
            before
        },
        _ => after == before,
    }
}

/// Whether an event is of those.
pub open spec fn concerns_timeline(event: ClientEvent) -> bool {
    event is PowerLevelTagsUpdated || event is TypingUpdated || event is TimelineStartReached
}

/// Takes an event of the open room in; hands others back.
fn hear_timeline(t: &mut timeline::State, event: ClientEvent) -> (r: Option<ClientEvent>)
    requires
        old(t).wf(),
    ensures
        final(t).wf(),
        concerns_timeline(event) ==> r is None && timeline_heard(*old(t), *final(t), event),
        !concerns_timeline(event) ==> r == Some(event) && *final(t) == *old(t),
{
    match event {
        ClientEvent::PowerLevelTagsUpdated { room_id, tags } => {
            if timeline::opt_is(&t.room_id, room_id.as_str()) {
                t.power_tags = tags;
            }
        },
        ClientEvent::TypingUpdated { room_id, user_ids } => {
            if timeline::opt_is(&t.room_id, room_id.as_str()) {
                t.typing_users = user_ids;
            }
        },
        ClientEvent::TimelineStartReached { room_id } => {
            if timeline::opt_is(&t.room_id, room_id.as_str()) {
                t.reached_start = true;
                t.loading_older = false;
            }
        },
        other => {
            return Some(other);
        },
    }
    None
}

/// What a room's members make of the composer: they are listed by name.
pub open spec fn members_taken(
    before: composer::State,
    after: composer::State,
    members: Seq<RoomMember>,
) -> bool {
    &&& sorting::sorted_from(after.member_candidates@, members)
    &&& sorting::are_keys(after.member_candidates_lower@, after.member_candidates@)
    &&& after == (composer::State {
        member_candidates: after.member_candidates,
        member_candidates_lower: after.member_candidates_lower,
        ..before
    })
}

/// What a room's members leave: nothing where another room is open.
pub open spec fn members_updated(
    before: App,
    after: App,
    room_id: String,
    members: Seq<RoomMember>,
    r: Seq<Task>,
) -> bool {
    if !timeline::is_this(before.timeline.room_id, room_id@) {
        after == before && r.len() == 0
    } else {
        let mid = App { media: before.media, ..after };
        &&& members_taken(before.timeline.composer, after.timeline.composer, members)
        &&& after.timeline == (timeline::State {
            composer: after.timeline.composer,
            ..before.timeline
        })
        &&& mid == (App { timeline: after.timeline, ..before })
        &&& effects::media_wanted(
            mid,
            after,
            member_avatars(after.timeline.composer.member_candidates@),
            r,
        )
    }
}

/// Takes members over.
fn take_members(c: &mut composer::State, members: &Vec<RoomMember>) -> (r: Vec<String>)
    requires
        old(c).wf(),
    ensures
        final(c).wf(),
        members_taken(*old(c), *final(c), members@),
        text::views(r@) == member_avatars(final(c).member_candidates@),
{
    let (sorted, keys) = sorting::sort_members(members);
    let avatars = avatars_of_members(&sorted);
    c.member_candidates = sorted;
    c.member_candidates_lower = keys;
    avatars
}

/// Takes the members of the open room over.
fn update_members(app: &mut App, room_id: String, members: Vec<RoomMember>) -> (r: Vec<Task>)
    requires
        old(app).wf(),
    ensures
        final(app).wf(),
        members_updated(*old(app), *final(app), room_id, members@, r@),
{
    if !timeline::opt_is(&app.timeline.room_id, room_id.as_str()) {
        return tasks::nothing();
    }
    let avatars = take_members(&mut app.timeline.composer, &members);
    let ghost mid = *app;
    let r = effects::want_media(app, &avatars);
    assert(mid == (App { media: old(app).media, ..*app }));
    r
}

// ---------------------------------------------------------------------------
// The room list.
// ---------------------------------------------------------------------------
/// A room without its badge.
pub open spec fn quiet(room: RoomSummary) -> RoomSummary {
    RoomSummary { unread_count: 0, ..room }
}

/// The rooms as they show: the open one, once it was read here, has no badge.
/// The server may say otherwise for a while.
pub open spec fn shown_rooms(t: timeline::State, rooms: Seq<RoomSummary>) -> Seq<RoomSummary> {
    match t.room_id {
        Some(id) => match room_list::room_from(rooms, id@, 0) {
            Some(k) => if t.suppress_unread_divider {
                rooms.update(k, quiet(rooms[k]))
            } else {
                rooms
            },
            None => rooms,
        },
        None => rooms,
    }
}

/// Whether a room can be opened: it is in the list, and no space.
pub open spec fn openable(rooms: Seq<RoomSummary>, id: Seq<char>) -> bool {
    exists|i: int|
        0 <= i < rooms.len() && (#[trigger] rooms[i]).room_id@ == id && !rooms[i].is_space
}

/// The room of the last session, where it can be reopened now: nothing was
/// opened yet, and there is a worker to ask.
pub open spec fn restorable(app: App) -> bool {
    &&& app.pending_restore_room matches Some(target) && openable(app.room_list.rooms@, target@)
    &&& app.room_list.selected_room_id is None
    &&& app.connected
}

/// What a new room list leaves. The room of the last session is reopened as
/// soon as it is there, once.
pub open spec fn rooms_updated(
    before: App,
    after: App,
    rooms: Seq<RoomSummary>,
    r: Seq<Task>,
) -> bool {
    let listed = App {
        room_list: room_list::State { rooms: after.room_list.rooms, ..before.room_list },
        ..before
    };
    let drawn = App { media: after.media, ..listed };
    &&& after.room_list.rooms@ == shown_rooms(before.timeline, rooms)
    &&& exists|m: Seq<Task>, o: Seq<Task>|
        #![trigger effects::media_wanted(listed, drawn, room_avatars(rooms), m), reopened(drawn, after, o)]
        effects::media_wanted(listed, drawn, room_avatars(rooms), m) && reopened(drawn, after, o)
            && r == m + o
}

/// What reopening the room of the last session leaves.
pub open spec fn reopened(before: App, after: App, r: Seq<Task>) -> bool {
    if restorable(before) {
        rooms::room_selected(
            App { pending_restore_room: None, ..before },
            after,
            before.pending_restore_room->0,
            r,
        )
    } else {
        after == before && r.len() == 0
    }
}

/// Whether a room can be opened.
fn can_open(rooms: &Vec<RoomSummary>, id: &str) -> (r: bool)
    ensures
        r == openable(rooms@, id@),
{
    let mut i: usize = 0;
    while i < rooms.len()
        invariant
            i <= rooms@.len(),
            forall|k: int|
                0 <= k < i ==> (#[trigger] rooms@[k]).room_id@ != id@ || rooms@[k].is_space,
        decreases rooms@.len() - i,
    {
        if text::str_eq(rooms[i].room_id.as_str(), id) && !rooms[i].is_space {
            assert(rooms@[i as int].room_id@ == id@);
            return true;
        }
        i = i + 1;
    }
    false
}

/// The rooms as they show.
fn show_rooms(t: &timeline::State, rooms: Vec<RoomSummary>) -> (r: Vec<RoomSummary>)
    ensures
        r@ == shown_rooms(*t, rooms@),
{
    let mut shown = rooms;
    if !t.suppress_unread_divider {
        return shown;
    }
    if let Some(id) = &t.room_id {
        if let Some(k) = room_list::find_room(&shown, id.as_str()) {
            let room = &mut shown[k];
            room.unread_count = 0;
        }
    }
    shown
}

/// Reopens the room of the last session, where it is there.
fn reopen(app: &mut App) -> (r: Vec<Task>)
    requires
        old(app).wf(),
    ensures
        final(app).wf(),
        reopened(*old(app), *final(app), r@),
{
    let target = match &app.pending_restore_room {
        Some(target) => target.clone(),
        None => {
            return tasks::nothing();
        },
    };
    if app.room_list.selected_room_id.is_some() || !app.connected || !can_open(
        &app.room_list.rooms,
        target.as_str(),
    ) {
        return tasks::nothing();
    }
    app.pending_restore_room = None;
    rooms::select_room(app, target)
}

/// Takes a new room list over.
fn update_rooms(app: &mut App, rooms: Vec<RoomSummary>) -> (r: Vec<Task>)
    requires
        old(app).wf(),
    ensures
        final(app).wf(),
        rooms_updated(*old(app), *final(app), rooms@, r@),
{
    let avatars = avatars_of_rooms(&rooms);
    let ghost all = rooms@;
    let shown = show_rooms(&app.timeline, rooms);
    app.room_list.rooms = shown;
    let ghost listed = *app;
    let mut r = effects::want_media(app, &avatars);
    let ghost m = r@;
    let ghost drawn = *app;
    let mut opened = reopen(app);
    let ghost o = opened@;
    r.append(&mut opened);
    proof {
        assert(r@ =~= m + o);
        assert(app.room_list.rooms == listed.room_list.rooms);
        assert(app.media == drawn.media);
        assert(effects::media_wanted(listed, drawn, room_avatars(all), m));
        assert(reopened(drawn, *app, o));
    }
    r
}

// ---------------------------------------------------------------------------
// Images and previews.
// ---------------------------------------------------------------------------
/// The task for media that arrived.
pub open spec fn arrival_tasks(
    arrival: Arrival,
    kind: MediaKind,
    extension: Seq<char>,
    bytes: Vec<u8>,
    r: Seq<Task>,
) -> bool {
    match arrival {
        Arrival::Nothing => r.len() == 0,
        Arrival::Save => r.len() == 1 && (r[0] matches Task::SaveDownload {
            suggested,
            bytes: b,
        } && suggested@ == "thornychat-image."@ + extension && b == bytes),
        Arrival::Show(url) => r == seq![Task::ShowMedia { url, kind, bytes }],
        Arrival::Decode(url) => r == seq![Task::DecodeGif { url, bytes }],
    }
}

/// What media that arrived leaves.
pub open spec fn media_heard(
    before: App,
    after: App,
    request_id: RequestId,
    kind: MediaKind,
    extension: Seq<char>,
    bytes: Vec<u8>,
    r: Seq<Task>,
) -> bool {
    &&& after == (App { media: after.media, ..before })
    &&& exists|a: Arrival| #[trigger]
        media::fetched(before.media, after.media, request_id, kind, a) && arrival_tasks(
            a,
            kind,
            extension,
            bytes,
            r,
        )
}

/// Takes media in that arrived.
fn hear_media(
    app: &mut App,
    request_id: RequestId,
    kind: MediaKind,
    extension: String,
    bytes: Vec<u8>,
) -> (r: Vec<Task>)
    requires
        old(app).wf(),
    ensures
        final(app).wf(),
        media_heard(*old(app), *final(app), request_id, kind, extension@, bytes, r@),
{
    let arrival = media::media_fetched(&mut app.media, request_id, kind);
    let ghost a = arrival;
    let r = match arrival {
        Arrival::Nothing => tasks::nothing(),
        Arrival::Save => tasks::one(
            Task::SaveDownload { suggested: media::download_name(extension.as_str()), bytes },
        ),
        Arrival::Show(url) => tasks::one(Task::ShowMedia { url, kind, bytes }),
        Arrival::Decode(url) => tasks::one(Task::DecodeGif { url, bytes }),
    };
    assert(media::fetched(old(app).media, app.media, request_id, kind, a));
    assert(arrival_tasks(a, kind, extension@, bytes, r@));
    r
}

/// What a preview that arrived leaves: its image is asked for.
pub open spec fn preview_heard(before: App, after: App, preview: UrlPreview, r: Seq<Task>) -> bool {
    let drawn = App { previews: before.previews, ..after };
    &&& after.previews@ == (PreviewMaps {
        links: before.previews@.links.insert(preview.url@, Some(preview)),
        ..before.previews@
    })
    &&& drawn == (App { media: after.media, ..before })
    &&& effects::media_wanted(before, drawn, media::opt_name(preview.image_mxc), r)
}

/// Takes a preview in that arrived.
fn hear_preview(app: &mut App, preview: UrlPreview) -> (r: Vec<Task>)
    requires
        old(app).wf(),
    ensures
        final(app).wf(),
        preview_heard(*old(app), *final(app), preview, r@),
{
    let mut urls: Vec<String> = Vec::new();
    if let Some(url) = &preview.image_mxc {
        urls.push(url.clone());
    }
    assert(text::views(urls@) =~= media::opt_name(preview.image_mxc));
    let r = effects::want_media(app, &urls);
    let ghost drawn = *app;
    let url = preview.url.clone();
    app.previews.links.insert(url, Some(preview));
    assert(drawn == (App { previews: old(app).previews, ..*app }));
    r
}

/// What new packs leave: their emoji can be found, and their images are asked
/// for.
pub open spec fn packs_updated(
    before: App,
    after: App,
    packs: Vec<EmojiPack>,
    r: Seq<Task>,
) -> bool {
    let mid = App { media: before.media, ..after };
    &&& body::indexes(after.emoji_shortcode_index, body::all_emojis(packs@))
    &&& mid == (App {
        emoji_packs: packs,
        emoji_shortcode_index: after.emoji_shortcode_index,
        ..before
    })
    &&& effects::media_wanted(mid, after, media::pack_media(packs@, packs@.len() as int), r)
}

/// Takes new packs over.
fn update_packs(app: &mut App, packs: Vec<EmojiPack>) -> (r: Vec<Task>)
    requires
        old(app).wf(),
    ensures
        final(app).wf(),
        packs_updated(*old(app), *final(app), packs, r@),
{
    let urls = media::image_urls_in_packs(&packs);
    app.emoji_shortcode_index = body::build_shortcode_index(&packs);
    app.emoji_packs = packs;
    let ghost mid = *app;
    let r = effects::want_media(app, &urls);
    assert(mid == (App { media: old(app).media, ..*app }));
    r
}

// ---------------------------------------------------------------------------
// The overlays.
// ---------------------------------------------------------------------------
/// What the results of a user search leave: only the newest search counts.
pub open spec fn results_heard(
    before: App,
    after: App,
    request_id: RequestId,
    results: Vec<UserSearchResult>,
    limited: bool,
    r: Seq<Task>,
) -> bool {
    let mid = App { media: before.media, ..after };
    &&& dm_search::received(before.dm_search, after.dm_search, request_id, results, limited)
    &&& mid == (App { dm_search: after.dm_search, ..before })
    &&& if answers::search_waits(before.dm_search, request_id) {
        effects::media_wanted(mid, after, user_avatars(results@), r)
    } else {
        after == mid && r.len() == 0
    }
}

/// Takes the results of a user search in.
fn hear_results(
    app: &mut App,
    request_id: RequestId,
    results: Vec<UserSearchResult>,
    limited: bool,
) -> (r: Vec<Task>)
    requires
        old(app).wf(),
    ensures
        final(app).wf(),
        results_heard(*old(app), *final(app), request_id, results, limited, r@),
{
    let avatars = avatars_of_users(&results);
    let taken = dm_search::receive(&mut app.dm_search, request_id, results, limited);
    let ghost mid = *app;
    if !taken {
        return tasks::nothing();
    }
    let r = effects::want_media(app, &avatars);
    assert(mid == (App { media: old(app).media, ..*app }));
    r
}

/// What a page of a space makes of the explorer.
pub open spec fn page_taken(
    before: Option<space_explorer::State>,
    after: Option<space_explorer::State>,
    request_id: RequestId,
    space_id: Seq<char>,
    children: Seq<SpaceChildSummary>,
    next_batch: Option<String>,
) -> bool {
    match (before, after) {
        (Some(e0), Some(e)) => match space_explorer::page_from(
            e0.stack@,
            request_id,
            space_id,
            0,
        ) {
            Some(k) => {
                &&& 0 <= k < e0.stack@.len()
                &&& space_explorer::only_level(e0, e, k, e.stack@[k])
                &&& space_explorer::paged(e0.stack@[k], e.stack@[k], children, next_batch)
            },
            None => e == e0,
        },
        (None, None) => true,
        _ => false,
    }
}

/// Takes a page of a space in.
fn take_page(
    explorer: &mut Option<space_explorer::State>,
    request_id: RequestId,
    space_id: String,
    children: Vec<SpaceChildSummary>,
    next_batch: Option<String>,
)
    requires
        *old(explorer) matches Some(s) ==> s.wf(),
    ensures
        *final(explorer) matches Some(s) ==> s.wf(),
        page_taken(
            *old(explorer),
            *final(explorer),
            request_id,
            space_id@,
            children@,
            next_batch,
        ),
{
    let mut s = match explorer.take() {
        Some(s) => s,
        None => {
            return ;
        },
    };
    s.apply_page(request_id, space_id.as_str(), children, next_batch);
    *explorer = Some(s);
}

/// What a page of a space leaves.
pub open spec fn page_heard(
    before: App,
    after: App,
    request_id: RequestId,
    space_id: Seq<char>,
    children: Seq<SpaceChildSummary>,
    next_batch: Option<String>,
    r: Seq<Task>,
) -> bool {
    let mid = App { media: before.media, ..after };
    &&& page_taken(
        before.space_explorer,
        after.space_explorer,
        request_id,
        space_id,
        children,
        next_batch,
    )
    &&& mid == (App { space_explorer: after.space_explorer, ..before })
    &&& effects::media_wanted(mid, after, child_avatars(children), r)
}

/// Takes a page of a space in, and asks for its avatars.
fn hear_page(
    app: &mut App,
    request_id: RequestId,
    space_id: String,
    children: Vec<SpaceChildSummary>,
    next_batch: Option<String>,
) -> (r: Vec<Task>)
    requires
        old(app).wf(),
    ensures
        final(app).wf(),
        page_heard(
            *old(app),
            *final(app),
            request_id,
            space_id@,
            children@,
            next_batch,
            r@,
        ),
{
    let avatars = avatars_of_children(&children);
    take_page(&mut app.space_explorer, request_id, space_id, children, next_batch);
    let ghost mid = *app;
    let r = effects::want_media(app, &avatars);
    assert(mid == (App { media: old(app).media, ..*app }));
    r
}

// ---------------------------------------------------------------------------
// The session.
// ---------------------------------------------------------------------------
/// What the end of a session leaves of the media: what was on its way is not
/// any more.
pub open spec fn media_dropped(before: media::State, after: media::State) -> bool {
    &&& after.pending@.len() == 0
    &&& after.pending_urls@ == Set::<Seq<char>>::empty()
    &&& after == (media::State {
        pending: after.pending,
        pending_urls: after.pending_urls,
        ..before
    })
}

/// What the end of a session leaves: nothing of its rooms, its messages, its
/// keys and its calls.
pub open spec fn logged_out(before: App, after: App) -> bool {
    &&& after.room_list.fresh()
    &&& after.timeline.fresh()
    &&& after.verification.fresh()
    &&& after.call.fresh()
    &&& media_dropped(before.media, after.media)
    &&& after.notification_modes@ == Map::<Seq<char>, NotificationMode>::empty()
    &&& after.emoji_packs@.len() == 0
    &&& after.emoji_shortcode_index.entries@.len() == 0
    &&& after == (App {
        signed_in: false,
        connected: false,
        own_user_id: None,
        room_list: after.room_list,
        timeline: after.timeline,
        verification: after.verification,
        call: after.call,
        media: after.media,
        notification_modes: after.notification_modes,
        emoji_packs: after.emoji_packs,
        emoji_shortcode_index: after.emoji_shortcode_index,
        zoomed_image: None,
        space_explorer: None,
        route: Route::Login,
        ..before
    })
}

/// Ends the session.
fn log_out(app: &mut App)
    requires
        old(app).wf(),
    ensures
        final(app).wf(),
        logged_out(*old(app), *final(app)),
{
    app.signed_in = false;
    app.connected = false;
    app.own_user_id = None;
    app.room_list = room_list::State::default();
    app.timeline = timeline::State::new();
    app.verification = verification::State::default();
    app.call = call::State::default();
    app.media.pending = Vec::new();
    app.media.pending_urls = WordSet::new();
    app.notification_modes = StringMap::new();
    app.emoji_packs = Vec::new();
    app.emoji_shortcode_index = ShortcodeIndex::new();
    app.zoomed_image = None;
    app.space_explorer = None;
    app.route = Route::Login;
}

/// The modes of the first `n` rooms of a list; of two entries of a room the
/// later one counts.
pub open spec fn modes_of(modes: Seq<(String, NotificationMode)>, n: int) -> Map<
    Seq<char>,
    NotificationMode,
>
    decreases n,
{
    if n <= 0 {
        Map::empty()
    } else {
        modes_of(modes, n - 1).insert(modes[n - 1].0@, modes[n - 1].1)
    }
}

/// The modes of a list.
fn collect_modes(modes: &Vec<(String, NotificationMode)>) -> (r: StringMap<NotificationMode>)
    ensures
        r@ == modes_of(modes@, modes@.len() as int),
{
    let mut r: StringMap<NotificationMode> = StringMap::new();
    let mut i: usize = 0;
    while i < modes.len()
        invariant
            i <= modes@.len(),
            r@ == modes_of(modes@, i as int),
        decreases modes@.len() - i,
    {
        r.insert(modes[i].0.clone(), modes[i].1);
        i = i + 1;
    }
    r
}

// ---------------------------------------------------------------------------
// All events.
// ---------------------------------------------------------------------------
/// What an event leaves that changes one thing and asks for nothing.
pub open spec fn noted(before: App, after: App, event: ClientEvent) -> bool {
    match event {
        ClientEvent::SyncStateChanged(state) => after == (App { sync_state: state, ..before }),
        ClientEvent::MediaFetchFailed { request_id } => {
            &&& media::fetch_failed(before.media, after.media, request_id)
            &&& after == (App { media: after.media, ..before })
        },
        ClientEvent::UrlPreviewFailed { url } => {
            &&& after.previews@ == (PreviewMaps {
                links: before.previews@.links.insert(url@, None),
                ..before.previews@
            })
            &&& after == (App { previews: after.previews, ..before })
        },
        ClientEvent::RoomNotificationModesUpdated(modes) => {
            &&& after.notification_modes@ == modes_of(modes@, modes@.len() as int)
            &&& after == (App { notification_modes: after.notification_modes, ..before })
        },
        ClientEvent::RoomNotificationModeChanged { room_id, mode } => {
            &&& after.notification_modes@ == before.notification_modes@.insert(room_id@, mode)
            &&& after == (App { notification_modes: after.notification_modes, ..before })
        },
        ClientEvent::RoomNotificationModeCleared { room_id } => {
            &&& after.notification_modes@ == before.notification_modes@.remove(room_id@)
            &&& after == (App { notification_modes: after.notification_modes, ..before })
        },
        ClientEvent::DefaultNotificationModesUpdated { direct_messages, group_chats } => after == (
        App { default_notification_modes: (direct_messages, group_chats), ..before }),
        ClientEvent::CallStateUpdated { room_id, call } => {
            &&& after.call.calls@ == before.call.calls@.insert(room_id@, call)
            &&& after.call == (call::State { calls: after.call.calls, ..before.call })
            &&& after == (App { call: after.call, ..before })
        },
        ClientEvent::SpaceChildrenFetched { space_id, child_ids } => {
            &&& after.room_list.space_children@ == before.room_list.space_children@.insert(
                space_id@,
                child_ids,
            )
            &&& after.room_list == (room_list::State {
                space_children: after.room_list.space_children,
                ..before.room_list
            })
            &&& after == (App { room_list: after.room_list, ..before })
        },
        _ => after == before,
    }
}

/// Takes an event in that changes one thing and asks for nothing.
fn note(app: &mut App, event: ClientEvent)
    requires
        old(app).wf(),
    ensures
        final(app).wf(),
        noted(*old(app), *final(app), event),
{
    match event {
        ClientEvent::SyncStateChanged(state) => {
            app.sync_state = state;
        },
        ClientEvent::MediaFetchFailed { request_id } => {
            media::media_fetch_failed(&mut app.media, request_id);
        },
        ClientEvent::UrlPreviewFailed { url } => {
            app.previews.links.insert(url, None);
        },
        ClientEvent::RoomNotificationModesUpdated(modes) => {
            app.notification_modes = collect_modes(&modes);
        },
        ClientEvent::RoomNotificationModeChanged { room_id, mode } => {
            app.notification_modes.insert(room_id, mode);
        },
        ClientEvent::RoomNotificationModeCleared { room_id } => {
            app.notification_modes.remove(room_id.as_str());
        },
        ClientEvent::DefaultNotificationModesUpdated { direct_messages, group_chats } => {
            app.default_notification_modes = (direct_messages, group_chats);
        },
        ClientEvent::CallStateUpdated { room_id, call } => {
            app.call.calls.insert(room_id, call);
        },
        ClientEvent::SpaceChildrenFetched { space_id, child_ids } => {
            app.room_list.space_children.insert(space_id, child_ids);
        },
        _ => {},
    }
}

/// What an event leaves, and what it asks for. `id` is the id of a request
/// that may go out.
pub open spec fn event_applied(
    before: App,
    after: App,
    event: ClientEvent,
    id: RequestId,
    r: Seq<Task>,
) -> bool {
    if concerns_verification(event) {
        &&& verification_heard(before.verification, after.verification, event)
        &&& after == (App { verification: after.verification, ..before })
        &&& r.len() == 0
    } else if concerns_timeline(event) {
        &&& timeline_heard(before.timeline, after.timeline, event)
        &&& after == (App { timeline: after.timeline, ..before })
        &&& r.len() == 0
    } else {
        match event {
            ClientEvent::LoggedOut => logged_out(before, after) && r == seq![Task::ClosePlayer],
            ClientEvent::DirectMessageReady { room_id } => rooms::room_selected(
                before,
                after,
                room_id,
                r,
            ),
            ClientEvent::RoomCreated { room_id } => rooms::room_selected(before, after, room_id, r),
            ClientEvent::UserSearchResults { request_id, results, limited } => results_heard(
                before,
                after,
                request_id,
                results,
                limited,
                r,
            ),
            ClientEvent::RoomListUpdated(rooms) => rooms_updated(before, after, rooms@, r),
            ClientEvent::TimelineUpdated { room_id, items } => snapshot::timeline_updated(
                before,
                after,
                room_id,
                items,
                r,
            ),
            ClientEvent::RoomMembersUpdated { room_id, members } => members_updated(
                before,
                after,
                room_id,
                members@,
                r,
            ),
            ClientEvent::CommandSucceeded { request_id } => answers::succeeded(
                before,
                after,
                request_id,
                id,
                r,
            ),
            ClientEvent::CommandFailed { request_id, error } => answers::failed(
                before,
                after,
                request_id,
                error,
            ) && r.len() == 0,
            ClientEvent::CustomEmojiPacksUpdated(packs) => packs_updated(before, after, packs, r),
            ClientEvent::MediaFetched { request_id, kind, extension, bytes } => media_heard(
                before,
                after,
                request_id,
                kind,
                extension@,
                bytes,
                r,
            ),
            ClientEvent::UrlPreviewFetched(preview) => preview_heard(before, after, preview, r),
            ClientEvent::SpaceHierarchyFetched { request_id, space_id, children, next_batch } => {
                page_heard(before, after, request_id, space_id@, children@, next_batch, r)
            },
            _ => noted(before, after, event) && r.len() == 0,
        }
    }
}

/// Takes the events of the timeline and all others in.
fn dispatch_rest(app: &mut App, event: ClientEvent, id: RequestId) -> (r: Vec<Task>)
    requires
        old(app).wf(),
        !concerns_verification(event),
        !concerns_timeline(event),
    ensures
        final(app).wf(),
        event_applied(*old(app), *final(app), event, id, r@),
{
    match event {
        ClientEvent::LoggedOut => {
            log_out(app);
            tasks::one(Task::ClosePlayer)
        },
        ClientEvent::DirectMessageReady { room_id } => rooms::select_room(app, room_id),
        ClientEvent::RoomCreated { room_id } => rooms::select_room(app, room_id),
        ClientEvent::UserSearchResults { request_id, results, limited } => hear_results(
            app,
            request_id,
            results,
            limited,
        ),
        ClientEvent::RoomListUpdated(rooms) => update_rooms(app, rooms),
        ClientEvent::TimelineUpdated { room_id, items } => snapshot::update_timeline(
            app,
            room_id,
            items,
        ),
        ClientEvent::RoomMembersUpdated { room_id, members } => update_members(
            app,
            room_id,
            members,
        ),
        ClientEvent::CommandSucceeded { request_id } => answers::command_succeeded(
            app,
            request_id,
            id,
        ),
        ClientEvent::CommandFailed { request_id, error } => {
            answers::command_failed(app, request_id, error);
            tasks::nothing()
        },
        ClientEvent::CustomEmojiPacksUpdated(packs) => update_packs(app, packs),
        ClientEvent::MediaFetched { request_id, kind, extension, bytes } => hear_media(
            app,
            request_id,
            kind,
            extension,
            bytes,
        ),
        ClientEvent::UrlPreviewFetched(preview) => hear_preview(app, preview),
        ClientEvent::SpaceHierarchyFetched { request_id, space_id, children, next_batch } => {
            hear_page(app, request_id, space_id, children, next_batch)
        },
        other => {
            note(app, other);
            tasks::nothing()
        },
    }
}

/// Takes an event in.
pub fn dispatch_client_event(app: &mut App, event: ClientEvent, id: RequestId) -> (r: Vec<Task>)
    requires
        old(app).wf(),
    ensures
        final(app).wf(),
        event_applied(*old(app), *final(app), event, id, r@),
{
    let event = match hear_verification(&mut app.verification, event) {
        Some(event) => event,
        None => {
            return tasks::nothing();
        },
    };
    let event = match hear_timeline(&mut app.timeline, event) {
        Some(event) => event,
        None => {
            return tasks::nothing();
        },
    };
    dispatch_rest(app, event, id)
}

// ---------------------------------------------------------------------------
// Laws.
// ---------------------------------------------------------------------------
/// A session's rooms, messages, drafts, calls, verifications, notification
/// modes and emoji end with it, and so does every wait for media.
pub proof fn law_sessions_do_not_leak(before: App, after: App, id: RequestId, r: Seq<Task>)
    requires
        event_applied(before, after, ClientEvent::LoggedOut, id, r),
    ensures
        after.route == Route::Login,
        !after.signed_in && !after.connected,
        after.own_user_id is None,
        after.room_list.fresh(),
        after.timeline.fresh(),
        after.verification.fresh(),
        after.call.fresh(),
        after.media.pending@.len() == 0,
        after.media.pending_urls@ == Set::<Seq<char>>::empty(),
        after.notification_modes@ == Map::<Seq<char>, NotificationMode>::empty(),
        after.emoji_packs@.len() == 0,
        after.emoji_shortcode_index.entries@.len() == 0,
        after.zoomed_image is None,
        after.space_explorer is None,
{
}

/// The room of the last session is reopened at most once, and never on top of
/// a room that was opened meanwhile.
pub proof fn law_the_last_room_is_reopened_once(before: App, after: App, r: Seq<Task>)
    requires
        reopened(before, after, r),
    ensures
        before.room_list.selected_room_id is Some ==> after == before,
        r.len() > 0 ==> after.pending_restore_room is None,
{
}

/// What was asked for and is not there yet is not asked for again by an event
/// that shows it again.
pub proof fn law_media_is_asked_for_once(
    a: App,
    b: App,
    c: App,
    urls: Seq<Seq<char>>,
    first: Seq<Task>,
    second: Seq<Task>,
)
    requires
        effects::media_wanted(a, b, urls, first),
        effects::media_wanted(b, c, urls, second),
        a.connected,
    ensures
        second.len() == 0,
{
    let wanted = media::missing(urls, a.media.known());
    media::law_nothing_is_asked_for_twice(urls, a.media.known());
    assert(b.media.known() =~= a.media.known() + wanted.to_set());
}

} // verus!
