//! Carrying out what the screens ask for.

use vstd::prelude::*;

use crate::commands::ClientCommand;
use crate::events::{NotificationMode, RequestId};
use crate::media;
use crate::screens::call;
use crate::screens::login;
use crate::screens::settings;
use crate::screens::timeline;
use crate::screens::timeline::composer;
use crate::screens::timeline::video;
use crate::screens::timeline::{InlineVideo, Point};
use crate::screens::verification;
use crate::state::{App, CollectedSticker};
use crate::text;
use crate::update::rooms;
use crate::update::tasks;
use crate::update::tasks::Task;

verus! {

// ---------------------------------------------------------------------------
// Images.
// ---------------------------------------------------------------------------
/// The commands of some fetches.
pub open spec fn fetch_commands(recorded: Seq<(RequestId, String)>) -> Seq<ClientCommand> {
    recorded.map_values(
        |p: (RequestId, String)| ClientCommand::FetchMedia { mxc_url: p.1, request_id: p.0 },
    )
}

/// What wanting some media leaves, and what is asked for.
pub open spec fn media_wanted(
    before: App,
    after: App,
    urls: Seq<Seq<char>>,
    r: Seq<Task>,
) -> bool {
    let commands = fetch_commands(after.media.pending@.skip(before.media.pending@.len() as int));
    &&& media::media_asked(before.media, after.media, before.connected, urls, commands)
    &&& after == (App { media: after.media, ..before })
    &&& r == tasks::sends(commands)
}

/// Asks for some media.
pub fn want_media(app: &mut App, urls: &Vec<String>) -> (r: Vec<Task>)
    ensures
        media_wanted(*old(app), *final(app), text::views(urls@), r@),
        old(app).wf() ==> final(app).wf(),
{
    let connected = app.connected;
    let commands = media::ensure_media_fetched(&mut app.media, connected, urls);
    proof {
        let n = old(app).media.pending@.len() as int;
        let rec = app.media.pending@.skip(n);
        if connected {
            let wanted = media::missing(text::views(urls@), old(app).media.known());
            assert forall|k: int| 0 <= k < commands@.len() implies commands@[k] == fetch_commands(
                rec,
            )[k] by {
                assert(rec[k].1@ == wanted[k]);
            }
        } else {
            assert(rec.len() == 0);
        }
        assert(commands@ =~= fetch_commands(rec));
    }
    tasks::send_all(commands)
}

/// Whether these fetch some emoji, one for one.
pub open spec fn fetch_emoji(r: Seq<Task>, emojis: Seq<Seq<char>>) -> bool {
    &&& r.len() == emojis.len()
    &&& forall|k: int|
        0 <= k < r.len() ==> (#[trigger] r[k] matches Task::FetchEmoji(e) && e@ == emojis[k])
}

/// What wanting some emoji leaves, and what is asked for.
pub open spec fn emoji_wanted(
    before: App,
    after: App,
    emojis: Seq<Seq<char>>,
    r: Seq<Task>,
) -> bool {
    let asked = media::missing(emojis, before.media.known_emoji());
    &&& media::emoji_asked(before.media, after.media, emojis, asked)
    &&& after == (App { media: after.media, ..before })
    &&& fetch_emoji(r, asked)
}

/// Asks for the images of some emoji.
pub fn want_emoji(app: &mut App, emojis: Vec<String>) -> (r: Vec<Task>)
    ensures
        emoji_wanted(*old(app), *final(app), text::views(emojis@), r@),
        old(app).wf() ==> final(app).wf(),
{
    let asked = media::ensure_emoji_fetched(&mut app.media, emojis);
    let mut r: Vec<Task> = Vec::new();
    let mut i: usize = 0;
    while i < asked.len()
        invariant
            i <= asked@.len(),
            r@.len() == i,
            forall|k: int|
                0 <= k < i ==> (#[trigger] r@[k] matches Task::FetchEmoji(e) && e@ == asked@[k]@),
        decreases asked@.len() - i,
    {
        r.push(Task::FetchEmoji(asked[i].clone()));
        i = i + 1;
    }
    proof {
        let all = text::views(asked@);
        assert forall|k: int| 0 <= k < r@.len() implies (#[trigger] r@[k] matches Task::FetchEmoji(e)
            && e@ == all[k]) by {
            assert(all[k] == asked@[k]@);
        }
    }
    r
}

/// Whether these fetch some web images, one for one.
pub open spec fn fetch_web(r: Seq<Task>, urls: Seq<Seq<char>>) -> bool {
    &&& r.len() == urls.len()
    &&& forall|k: int|
        0 <= k < r.len() ==> (#[trigger] r[k] matches Task::FetchWebImage(u) && u@ == urls[k])
}

/// What wanting some web images leaves, and what is asked for.
pub open spec fn web_wanted(before: App, after: App, urls: Seq<Seq<char>>, r: Seq<Task>) -> bool {
    let asked = media::missing(urls, before.media.known_web());
    &&& media::web_asked(before.media, after.media, urls, asked)
    &&& after == (App { media: after.media, ..before })
    &&& fetch_web(r, asked)
}

/// Asks for some web images.
pub fn want_web_images(app: &mut App, urls: Vec<String>) -> (r: Vec<Task>)
    ensures
        web_wanted(*old(app), *final(app), text::views(urls@), r@),
        old(app).wf() ==> final(app).wf(),
{
    let asked = media::ensure_web_images(&mut app.media, urls);
    let mut r: Vec<Task> = Vec::new();
    let mut i: usize = 0;
    while i < asked.len()
        invariant
            i <= asked@.len(),
            r@.len() == i,
            forall|k: int|
                0 <= k < i ==> (#[trigger] r@[k] matches Task::FetchWebImage(u) && u@
                    == asked@[k]@),
        decreases asked@.len() - i,
    {
        r.push(Task::FetchWebImage(asked[i].clone()));
        i = i + 1;
    }
    proof {
        let all = text::views(asked@);
        assert forall|k: int| 0 <= k < r@.len() implies (
        #[trigger] r@[k] matches Task::FetchWebImage(u) && u@ == all[k]) by {
            assert(all[k] == asked@[k]@);
        }
    }
    r
}

/// The images of some stickers.
pub open spec fn sticker_urls(stickers: Seq<CollectedSticker>) -> Seq<Seq<char>> {
    stickers.map_values(|s: CollectedSticker| s.url@)
}

/// The images of some stickers.
fn urls_of(stickers: &Vec<CollectedSticker>) -> (r: Vec<String>)
    ensures
        text::views(r@) == sticker_urls(stickers@),
{
    let mut r: Vec<String> = Vec::new();
    let mut i: usize = 0;
    while i < stickers.len()
        invariant
            i <= stickers@.len(),
            r@.len() == i,
            forall|k: int| 0 <= k < i ==> (#[trigger] r@[k])@ == stickers@[k].url@,
        decreases stickers@.len() - i,
    {
        r.push(stickers[i].url.clone());
        i = i + 1;
    }
    assert(text::views(r@) =~= sticker_urls(stickers@));
    r
}

// ---------------------------------------------------------------------------
// Emoji use.
// ---------------------------------------------------------------------------
/// How often an emoji was used, after one use more.
pub open spec fn used_once_more(usage: Map<Seq<char>, u32>, key: Seq<char>) -> u32 {
    if !usage.contains_key(key) {
        1
    } else if usage[key] == u32::MAX {
        u32::MAX
    } else {
        (usage[key] + 1) as u32
    }
}

/// What using an emoji leaves.
pub open spec fn emoji_used(before: App, after: App, key: Seq<char>, r: Seq<Task>) -> bool {
    &&& after.emoji_usage@ == before.emoji_usage@.insert(
        key,
        used_once_more(before.emoji_usage@, key),
    )
    &&& after == (App { emoji_usage: after.emoji_usage, ..before })
    &&& r == seq![Task::SaveEmojiUsage]
}

/// Counts a use of an emoji.
pub fn record_emoji_use(app: &mut App, key: String) -> (r: Vec<Task>)
    ensures
        emoji_used(*old(app), *final(app), key@, r@),
        old(app).wf() ==> final(app).wf(),
{
    let count: u32 = match app.emoji_usage.get(key.as_str()) {
        Some(n) => if *n == u32::MAX {
            u32::MAX
        } else {
            *n + 1
        },
        None => 1,
    };
    app.emoji_usage.insert(key, count);
    tasks::one(Task::SaveEmojiUsage)
}

// ---------------------------------------------------------------------------
// The composer.
// ---------------------------------------------------------------------------
/// Whether a message can be sent: there is a room, and a worker.
pub open spec fn can_send(app: App) -> bool {
    app.connected && app.timeline.room_id is Some
}

/// The tasks that tell the room whether someone is typing: none where that is
/// kept private, not even that the typing has stopped.
pub open spec fn typing_told(app: App, typing: bool) -> Seq<Task> {
    match app.timeline.room_id {
        Some(room_id) => if app.edited.privacy.send_typing_notifications && app.connected {
            seq![Task::Send(ClientCommand::SetTyping { room_id, typing })]
        } else {
            Seq::empty()
        },
        None => Seq::empty(),
    }
}

/// Tells the room whether someone is typing.
pub fn set_typing(app: &App, typing: bool) -> (r: Vec<Task>)
    ensures
        r@ == typing_told(*app, typing),
{
    if !app.edited.privacy.send_typing_notifications || !app.connected {
        return tasks::nothing();
    }
    match &app.timeline.room_id {
        Some(room_id) => tasks::one(
            Task::Send(ClientCommand::SetTyping { room_id: room_id.clone(), typing }),
        ),
        None => tasks::nothing(),
    }
}

/// The composer once what it asks for is carried out: what is sent is waited
/// for, each in its own place.
pub open spec fn composer_after(
    c: composer::State,
    effect: composer::Effect,
    cursor: Point,
    can_send: bool,
    id: RequestId,
) -> composer::State {
    match effect {
        composer::Effect::Send { .. } => if can_send {
            composer::State { pending_request: Some(id), ..c }
        } else {
            c
        },
        composer::Effect::SendAttachment { .. } => if can_send {
            composer::State { pending_attachment_request: Some(id), ..c }
        } else {
            c
        },
        composer::Effect::SendSticker { .. } => if can_send {
            composer::State { pending_sticker_request: Some(id), ..c }
        } else {
            c
        },
        composer::Effect::OpenContextMenu => composer::State { context_menu: Some(cursor), ..c },
        _ => c,
    }
}

/// The command that sends what the composer asks for, where it is to be sent.
pub open spec fn composer_command(
    room_id: String,
    effect: composer::Effect,
    request_id: RequestId,
) -> Option<ClientCommand> {
    match effect {
        composer::Effect::Send { body, mentioned_user_ids, reply_to_event_id } => Some(
            ClientCommand::SendMessage {
                room_id,
                body,
                mentioned_user_ids,
                reply_to_event_id,
                request_id,
            },
        ),
        composer::Effect::SendAttachment {
            filename,
            bytes,
            mime,
            caption,
            mentioned_user_ids,
            reply_to_event_id,
        } => Some(
            ClientCommand::SendAttachment {
                room_id,
                filename,
                bytes,
                mime,
                caption,
                mentioned_user_ids,
                reply_to_event_id,
                request_id,
            },
        ),
        composer::Effect::SendSticker { url, body, width, height } => Some(
            ClientCommand::SendSticker {
                room_id,
                url,
                body,
                width,
                height,
                mimetype: None,
                request_id,
            },
        ),
        _ => None,
    }
}

/// What the composer asks for, as tasks.
pub open spec fn composer_tasks(
    app: App,
    effect: composer::Effect,
    request_id: RequestId,
) -> Seq<Task> {
    match effect {
        composer::Effect::Typing(typing) => typing_told(app, typing),
        composer::Effect::EnsureEmojiFetched => seq![Task::ListPickerEmoji],
        composer::Effect::ClipboardEdit(edit) => seq![Task::ReplayEdit(edit)],
        composer::Effect::AddToDictionary(word) => seq![Task::AddToDictionary(word)],
        composer::Effect::PickAttachment => match app.timeline.room_id {
            Some(room_id) => seq![Task::PickAttachments { room_id }],
            None => Seq::empty(),
        },
        composer::Effect::PasteFromClipboard => match app.timeline.room_id {
            Some(room_id) => seq![Task::ReadClipboardForMenu { room_id }],
            None => Seq::empty(),
        },
        _ => match app.timeline.room_id {
            Some(room_id) => match composer_command(room_id, effect, request_id) {
                Some(command) => tasks::sent(app, command),
                None => Seq::empty(),
            },
            None => Seq::empty(),
        },
    }
}

/// What carrying out what the composer asks for leaves.
pub open spec fn composer_applied(
    before: App,
    after: App,
    effect: composer::Effect,
    request_id: RequestId,
    r: Seq<Task>,
) -> bool {
    match effect {
        composer::Effect::EnsureStickersFetched => media_wanted(
            before,
            after,
            sticker_urls(before.sticker_collection@),
            r,
        ),
        composer::Effect::EmojiUsed(key) => emoji_used(before, after, key@, r),
        _ => {
            &&& after.timeline.composer == composer_after(
                before.timeline.composer,
                effect,
                before.cursor_position,
                can_send(before),
                request_id,
            )
            &&& after.timeline == (timeline::State {
                composer: after.timeline.composer,
                ..before.timeline
            })
            &&& after == (App { timeline: after.timeline, ..before })
            &&& r == composer_tasks(before, effect, request_id)
        },
    }
}

/// What of the composer an effect concerns.
#[derive(Clone, Copy)]
enum Slot {
    Message,
    File,
    Sticker,
    Menu,
    Nothing,
}

/// What of the composer an effect concerns.
spec fn slot_of(effect: composer::Effect) -> Slot {
    match effect {
        composer::Effect::Send { .. } => Slot::Message,
        composer::Effect::SendAttachment { .. } => Slot::File,
        composer::Effect::SendSticker { .. } => Slot::Sticker,
        composer::Effect::OpenContextMenu => Slot::Menu,
        _ => Slot::Nothing,
    }
}

/// What of the composer an effect concerns.
fn find_slot(effect: &composer::Effect) -> (r: Slot)
    ensures
        r == slot_of(*effect),
{
    match effect {
        composer::Effect::Send { .. } => Slot::Message,
        composer::Effect::SendAttachment { .. } => Slot::File,
        composer::Effect::SendSticker { .. } => Slot::Sticker,
        composer::Effect::OpenContextMenu => Slot::Menu,
        _ => Slot::Nothing,
    }
}

/// Records what is carried out for the composer.
fn note_composer(
    c: &mut composer::State,
    slot: Slot,
    cursor: Point,
    can_send: bool,
    id: RequestId,
    Ghost(effect): Ghost<composer::Effect>,
)
    requires
        old(c).wf(),
        slot == slot_of(effect),
    ensures
        final(c).wf(),
        *final(c) == composer_after(*old(c), effect, cursor, can_send, id),
{
    match slot {
        Slot::Message => {
            if can_send {
                c.pending_request = Some(id);
            }
        },
        Slot::File => {
            if can_send {
                c.pending_attachment_request = Some(id);
            }
        },
        Slot::Sticker => {
            if can_send {
                c.pending_sticker_request = Some(id);
            }
        },
        Slot::Menu => {
            c.context_menu = Some(cursor);
        },
        Slot::Nothing => {},
    }
}

/// The command that sends what the composer asks for, where it is to be sent.
fn command_for(room_id: String, effect: composer::Effect, request_id: RequestId) -> (r: Option<
    ClientCommand,
>)
    ensures
        r == composer_command(room_id, effect, request_id),
{
    match effect {
        composer::Effect::Send { body, mentioned_user_ids, reply_to_event_id } => Some(
            ClientCommand::SendMessage {
                room_id,
                body,
                mentioned_user_ids,
                reply_to_event_id,
                request_id,
            },
        ),
        composer::Effect::SendAttachment {
            filename,
            bytes,
            mime,
            caption,
            mentioned_user_ids,
            reply_to_event_id,
        } => Some(
            ClientCommand::SendAttachment {
                room_id,
                filename,
                bytes,
                mime,
                caption,
                mentioned_user_ids,
                reply_to_event_id,
                request_id,
            },
        ),
        composer::Effect::SendSticker { url, body, width, height } => Some(
            ClientCommand::SendSticker {
                room_id,
                url,
                body,
                width,
                height,
                mimetype: None,
                request_id,
            },
        ),
        _ => None,
    }
}

/// What the composer asks for, as tasks.
fn composer_task_list(app: &App, effect: composer::Effect, request_id: RequestId) -> (r: Vec<Task>)
    ensures
        r@ == composer_tasks(*app, effect, request_id),
{
    match effect {
        composer::Effect::Typing(typing) => set_typing(app, typing),
        composer::Effect::EnsureEmojiFetched => tasks::one(Task::ListPickerEmoji),
        composer::Effect::ClipboardEdit(edit) => tasks::one(Task::ReplayEdit(edit)),
        composer::Effect::AddToDictionary(word) => tasks::one(Task::AddToDictionary(word)),
        composer::Effect::PickAttachment => match &app.timeline.room_id {
            Some(room_id) => tasks::one(Task::PickAttachments { room_id: room_id.clone() }),
            None => tasks::nothing(),
        },
        composer::Effect::PasteFromClipboard => match &app.timeline.room_id {
            Some(room_id) => tasks::one(Task::ReadClipboardForMenu { room_id: room_id.clone() }),
            None => tasks::nothing(),
        },
        other => match &app.timeline.room_id {
            Some(room_id) => match command_for(room_id.clone(), other, request_id) {
                Some(command) => tasks::send_cmd(app, command),
                None => tasks::nothing(),
            },
            None => tasks::nothing(),
        },
    }
}

/// Carries out what the composer asks for.
pub fn apply_composer_effect(app: &mut App, effect: composer::Effect, request_id: RequestId) -> (r:
    Vec<Task>)
    requires
        old(app).wf(),
    ensures
        final(app).wf(),
        composer_applied(*old(app), *final(app), effect, request_id, r@),
{
    match effect {
        composer::Effect::EnsureStickersFetched => {
            let urls = urls_of(&app.sticker_collection);
            want_media(app, &urls)
        },
        composer::Effect::EmojiUsed(key) => record_emoji_use(app, key),
        other => {
            let slot = find_slot(&other);
            let can_send = app.connected && app.timeline.room_id.is_some();
            let cursor = app.cursor_position;
            let ghost e = other;
            let r = composer_task_list(app, other, request_id);
            note_composer(
                &mut app.timeline.composer,
                slot,
                cursor,
                can_send,
                request_id,
                Ghost(e),
            );
            r
        },
    }
}

// ---------------------------------------------------------------------------
// The timeline.
// ---------------------------------------------------------------------------
/// What asking to join or leave the open room's call leaves.
pub open spec fn call_asked(
    before: App,
    after: App,
    join: bool,
    request_id: RequestId,
    r: Seq<Task>,
) -> bool {
    match before.timeline.room_id {
        None => after == before && r.len() == 0,
        Some(room_id) => {
            &&& call::requested(before.call, after.call, room_id, join, request_id)
            &&& after == (App { call: after.call, ..before })
            &&& r == if before.call.pending is Some {
                Seq::empty()
            } else if join {
                tasks::sent(before, ClientCommand::JoinCall { room_id, request_id })
            } else {
                tasks::sent(before, ClientCommand::LeaveCall { room_id, request_id })
            }
        },
    }
}

/// Asks to join or leave the open room's call, one at a time.
pub fn send_call_command(app: &mut App, join: bool, request_id: RequestId) -> (r: Vec<Task>)
    requires
        old(app).wf(),
    ensures
        final(app).wf(),
        call_asked(*old(app), *final(app), join, request_id, r@),
{
    let room_id = match &app.timeline.room_id {
        Some(room_id) => room_id.clone(),
        None => {
            return tasks::nothing();
        },
    };
    if !call::request(&mut app.call, room_id.clone(), join, request_id) {
        return tasks::nothing();
    }
    if join {
        tasks::send_cmd(app, ClientCommand::JoinCall { room_id, request_id })
    } else {
        tasks::send_cmd(app, ClientCommand::LeaveCall { room_id, request_id })
    }
}

/// The timeline once what it asks for is carried out.
pub open spec fn timeline_after(
    t: timeline::State,
    effect: timeline::Effect,
    cursor: Point,
    can_send: bool,
    id: RequestId,
) -> timeline::State {
    match effect {
        timeline::Effect::Edit { .. } => if can_send {
            timeline::State { pending_edit_request: Some(id), ..t }
        } else {
            t
        },
        timeline::Effect::Redact { .. } => if can_send {
            timeline::State { pending_redact_request: Some(id), ..t }
        } else {
            t
        },
        timeline::Effect::PaginateBackwards => if t.room_id is Some {
            timeline::State { pending_paginate_request: Some(id), ..t }
        } else {
            timeline::State { loading_older: false, ..t }
        },
        timeline::Effect::PlayVideo { event_id, video, title } => timeline::State {
            inline_video: Some(
                InlineVideo {
                    event_id,
                    video,
                    title,
                    error: None,
                    scale: None,
                    live: false,
                    synced: None,
                    misses: 0,
                },
            ),
            ..t
        },
        timeline::Effect::StopVideo => timeline::State { inline_video: None, ..t },
        timeline::Effect::ToggleAutoscroll => timeline::State {
            autoscroll: if t.autoscroll is Some {
                None
            } else {
                Some(cursor)
            },
            ..t
        },
        _ => t,
    }
}

/// The tasks that change a room's notifications.
pub open spec fn mode_told(
    app: App,
    room_id: String,
    mode: Option<NotificationMode>,
    request_id: RequestId,
) -> Seq<Task> {
    match mode {
        Some(mode) => tasks::sent(
            app,
            ClientCommand::SetRoomNotificationMode { room_id, mode, request_id },
        ),
        None => tasks::sent(app, ClientCommand::ClearRoomNotificationMode { room_id, request_id }),
    }
}

/// What is sent for the open room.
pub open spec fn room_tasks(
    app: App,
    room_id: String,
    effect: timeline::Effect,
    request_id: RequestId,
) -> Seq<Task> {
    match effect {
        timeline::Effect::Edit { event_id, new_body } => tasks::sent(
            app,
            ClientCommand::EditMessage { room_id, event_id, new_body, request_id },
        ),
        timeline::Effect::Redact { event_id } => tasks::sent(
            app,
            ClientCommand::RedactEvent { room_id, event_id, reason: None, request_id },
        ),
        timeline::Effect::ToggleReaction { event_id, key } => tasks::sent(
            app,
            ClientCommand::ToggleReaction { room_id, event_id, key, request_id },
        ),
        timeline::Effect::RetrySend => tasks::sent(app, ClientCommand::RetrySend { room_id }),
        timeline::Effect::SetNotificationMode(mode) => mode_told(app, room_id, mode, request_id),
        timeline::Effect::PaginateBackwards => tasks::sent(
            app,
            ClientCommand::PaginateBackwards { room_id, request_id },
        ),
        _ => Seq::empty(),
    }
}

/// What the timeline asks for, as tasks. One video plays at a time: the player
/// of the last one goes.
pub open spec fn timeline_tasks(
    app: App,
    effect: timeline::Effect,
    request_id: RequestId,
) -> Seq<Task> {
    match effect {
        timeline::Effect::EnsureEmojiFetched => seq![Task::ListPickerEmoji],
        timeline::Effect::PlayVideo { .. } => seq![Task::ClosePlayer, Task::FetchScale],
        timeline::Effect::StopVideo => seq![Task::ClosePlayer],
        timeline::Effect::OpenDirectMessage(user_id) => tasks::sent(
            app,
            ClientCommand::OpenDirectMessage {
                user_id,
                encrypted: app.edited.encryption.encrypt_direct_messages,
                request_id,
            },
        ),
        timeline::Effect::CreateRoomWith(user_id) => tasks::sent(
            app,
            ClientCommand::CreateRoomWith {
                user_id,
                encrypted: app.edited.encryption.encrypt_rooms,
                request_id,
            },
        ),
        _ => match app.timeline.room_id {
            Some(room_id) => room_tasks(app, room_id, effect, request_id),
            None => Seq::empty(),
        },
    }
}

/// What carrying out what the timeline asks for leaves.
pub open spec fn timeline_applied(
    before: App,
    after: App,
    effect: timeline::Effect,
    request_id: RequestId,
    r: Seq<Task>,
) -> bool {
    match effect {
        timeline::Effect::Composer(e) => composer_applied(before, after, e, request_id, r),
        timeline::Effect::ToggleReaction { event_id, key } => {
            &&& emoji_used(before, after, key@, seq![Task::SaveEmojiUsage])
            &&& r == seq![Task::SaveEmojiUsage] + timeline_tasks(before, effect, request_id)
        },
        timeline::Effect::MaybeMarkRead => if before.timeline.at_bottom {
            rooms::marked_read(before, after, r)
        } else {
            after == before && r.len() == 0
        },
        timeline::Effect::ZoomImage(url) => after == (App { zoomed_image: Some(url), ..before })
            && r.len() == 0,
        timeline::Effect::JoinCall => call_asked(before, after, true, request_id, r),
        timeline::Effect::LeaveCall => call_asked(before, after, false, request_id, r),
        timeline::Effect::DismissCallError => {
            &&& after == (App { call: call::State { error: None, ..before.call }, ..before })
            &&& r.len() == 0
        },
        _ => {
            &&& after.timeline == timeline_after(
                before.timeline,
                effect,
                before.cursor_position,
                can_send(before),
                request_id,
            )
            &&& after == (App { timeline: after.timeline, ..before })
            &&& r == timeline_tasks(before, effect, request_id)
        },
    }
}

/// Records what is carried out for the timeline.
fn note_timeline(
    t: &mut timeline::State,
    effect: timeline::Effect,
    cursor: Point,
    can_send: bool,
    id: RequestId,
)
    requires
        old(t).wf(),
    ensures
        final(t).wf(),
        *final(t) == timeline_after(*old(t), effect, cursor, can_send, id),
{
    match effect {
        timeline::Effect::Edit { .. } => {
            if can_send {
                t.pending_edit_request = Some(id);
            }
        },
        timeline::Effect::Redact { .. } => {
            if can_send {
                t.pending_redact_request = Some(id);
            }
        },
        timeline::Effect::PaginateBackwards => {
            if t.room_id.is_some() {
                t.pending_paginate_request = Some(id);
            } else {
                t.loading_older = false;
            }
        },
        timeline::Effect::PlayVideo { event_id, video, title } => {
            t.inline_video = Some(video::started(event_id, video, title));
        },
        timeline::Effect::StopVideo => {
            t.inline_video = None;
        },
        timeline::Effect::ToggleAutoscroll => {
            t.autoscroll =
            if t.autoscroll.is_some() {
                None
            } else {
                Some(cursor)
            };
        },
        _ => {},
    }
}

/// What is sent for the open room.
fn room_task_list(
    app: &App,
    room_id: String,
    effect: &timeline::Effect,
    request_id: RequestId,
) -> (r: Vec<Task>)
    ensures
        r@ == room_tasks(*app, room_id, *effect, request_id),
{
    match effect {
        timeline::Effect::Edit { event_id, new_body } => tasks::send_cmd(
            app,
            ClientCommand::EditMessage {
                room_id,
                event_id: event_id.clone(),
                new_body: new_body.clone(),
                request_id,
            },
        ),
        timeline::Effect::Redact { event_id } => tasks::send_cmd(
            app,
            ClientCommand::RedactEvent {
                room_id,
                event_id: event_id.clone(),
                reason: None,
                request_id,
            },
        ),
        timeline::Effect::ToggleReaction { event_id, key } => tasks::send_cmd(
            app,
            ClientCommand::ToggleReaction {
                room_id,
                event_id: event_id.clone(),
                key: key.clone(),
                request_id,
            },
        ),
        timeline::Effect::RetrySend => tasks::send_cmd(app, ClientCommand::RetrySend { room_id }),
        timeline::Effect::SetNotificationMode(mode) => match mode {
            Some(mode) => tasks::send_cmd(
                app,
                ClientCommand::SetRoomNotificationMode { room_id, mode: *mode, request_id },
            ),
            None => tasks::send_cmd(
                app,
                ClientCommand::ClearRoomNotificationMode { room_id, request_id },
            ),
        },
        timeline::Effect::PaginateBackwards => tasks::send_cmd(
            app,
            ClientCommand::PaginateBackwards { room_id, request_id },
        ),
        _ => tasks::nothing(),
    }
}

/// What the timeline asks for, as tasks.
fn timeline_task_list(app: &App, effect: &timeline::Effect, request_id: RequestId) -> (r: Vec<Task>)
    ensures
        r@ == timeline_tasks(*app, *effect, request_id),
{
    match effect {
        timeline::Effect::EnsureEmojiFetched => tasks::one(Task::ListPickerEmoji),
        timeline::Effect::PlayVideo { .. } => {
            let mut r = tasks::one(Task::ClosePlayer);
            r.push(Task::FetchScale);
            assert(r@ =~= seq![Task::ClosePlayer, Task::FetchScale]);
            r
        },
        timeline::Effect::StopVideo => tasks::one(Task::ClosePlayer),
        timeline::Effect::OpenDirectMessage(user_id) => tasks::send_cmd(
            app,
            ClientCommand::OpenDirectMessage {
                user_id: user_id.clone(),
                encrypted: app.edited.encryption.encrypt_direct_messages,
                request_id,
            },
        ),
        timeline::Effect::CreateRoomWith(user_id) => tasks::send_cmd(
            app,
            ClientCommand::CreateRoomWith {
                user_id: user_id.clone(),
                encrypted: app.edited.encryption.encrypt_rooms,
                request_id,
            },
        ),
        _ => match &app.timeline.room_id {
            Some(room_id) => room_task_list(app, room_id.clone(), effect, request_id),
            None => tasks::nothing(),
        },
    }
}

/// Counts the use of an emoji, and toggles the reaction.
fn react(app: &mut App, event_id: String, key: String, request_id: RequestId) -> (r: Vec<Task>)
    requires
        old(app).wf(),
    ensures
        final(app).wf(),
        timeline_applied(
            *old(app),
            *final(app),
            timeline::Effect::ToggleReaction { event_id, key },
            request_id,
            r@,
        ),
{
    let used = key.clone();
    let effect = timeline::Effect::ToggleReaction { event_id, key };
    let mut told = timeline_task_list(app, &effect, request_id);
    let ghost t = told@;
    let mut r = record_emoji_use(app, used);
    r.append(&mut told);
    assert(r@ =~= seq![Task::SaveEmojiUsage] + t);
    r
}

/// Carries out what the timeline asks for of its own.
fn apply_own_effect(app: &mut App, effect: timeline::Effect, request_id: RequestId) -> (r: Vec<
    Task,
>)
    requires
        old(app).wf(),
    ensures
        final(app).wf(),
        final(app).timeline == timeline_after(
            old(app).timeline,
            effect,
            old(app).cursor_position,
            can_send(*old(app)),
            request_id,
        ),
        *final(app) == (App { timeline: final(app).timeline, ..*old(app) }),
        r@ == timeline_tasks(*old(app), effect, request_id),
{
    let can_send = app.connected && app.timeline.room_id.is_some();
    let cursor = app.cursor_position;
    let r = timeline_task_list(app, &effect, request_id);
    note_timeline(&mut app.timeline, effect, cursor, can_send, request_id);
    r
}

/// Carries out what the timeline asks for.
pub fn apply_timeline_effect(app: &mut App, effect: timeline::Effect, request_id: RequestId) -> (r:
    Vec<Task>)
    requires
        old(app).wf(),
    ensures
        final(app).wf(),
        timeline_applied(*old(app), *final(app), effect, request_id, r@),
{
    match effect {
        timeline::Effect::Composer(e) => apply_composer_effect(app, e, request_id),
        timeline::Effect::ToggleReaction { event_id, key } => react(app, event_id, key, request_id),
        timeline::Effect::MaybeMarkRead => {
            if app.timeline.at_bottom {
                rooms::mark_open_room_read(app)
            } else {
                tasks::nothing()
            }
        },
        timeline::Effect::ZoomImage(url) => {
            app.zoomed_image = Some(url);
            tasks::nothing()
        },
        timeline::Effect::JoinCall => send_call_command(app, true, request_id),
        timeline::Effect::LeaveCall => send_call_command(app, false, request_id),
        timeline::Effect::DismissCallError => {
            app.call.error = None;
            tasks::nothing()
        },
        other => apply_own_effect(app, other, request_id),
    }
}

// ---------------------------------------------------------------------------
// The other screens.
// ---------------------------------------------------------------------------
/// What the login screen asks for, as tasks.
pub open spec fn login_tasks(effect: login::Effect) -> Seq<Task> {
    match effect {
        login::Effect::Nothing => Seq::empty(),
        login::Effect::Discover { homeserver } => seq![Task::Discover { homeserver }],
        login::Effect::AttemptPasswordLogin { homeserver, username, password } => seq![
            Task::PasswordLogin { homeserver, username, password },
        ],
        login::Effect::AttemptSsoLogin { homeserver, identity_provider_id } => seq![
            Task::SsoLogin { homeserver, identity_provider_id },
        ],
    }
}

/// Carries out what the login screen asks for.
pub fn apply_login_effect(effect: login::Effect) -> (r: Vec<Task>)
    ensures
        r@ == login_tasks(effect),
{
    match effect {
        login::Effect::Nothing => tasks::nothing(),
        login::Effect::Discover { homeserver } => tasks::one(Task::Discover { homeserver }),
        login::Effect::AttemptPasswordLogin { homeserver, username, password } => tasks::one(
            Task::PasswordLogin { homeserver, username, password },
        ),
        login::Effect::AttemptSsoLogin { homeserver, identity_provider_id } => tasks::one(
            Task::SsoLogin { homeserver, identity_provider_id },
        ),
    }
}

/// What the verification screen asks for, as tasks. An empty user id stands
/// for one's own: verify this device.
pub open spec fn verification_tasks(
    app: App,
    effect: verification::Effect,
    request_id: RequestId,
) -> Seq<Task> {
    match effect {
        verification::Effect::Nothing => Seq::empty(),
        verification::Effect::OpenUrl(url) => seq![Task::OpenUrl(url)],
        verification::Effect::RetryCrossSigningBootstrap => tasks::sent(
            app,
            ClientCommand::RetryCrossSigningBootstrap,
        ),
        verification::Effect::EnableRecovery { passphrase } => tasks::sent(
            app,
            ClientCommand::EnableRecovery { passphrase, request_id },
        ),
        verification::Effect::RestoreFromBackup { recovery_key } => tasks::sent(
            app,
            ClientCommand::RestoreFromBackup { recovery_key, request_id },
        ),
        verification::Effect::StartVerification { user_id } => if user_id@.len() > 0 {
            tasks::sent(app, ClientCommand::StartVerification { user_id })
        } else {
            match app.own_user_id {
                Some(own) => tasks::sent(app, ClientCommand::StartVerification { user_id: own }),
                None => Seq::empty(),
            }
        },
        verification::Effect::AcceptVerificationRequest => tasks::sent(
            app,
            ClientCommand::AcceptVerificationRequest,
        ),
        verification::Effect::ConfirmSasMatch => tasks::sent(app, ClientCommand::ConfirmSasMatch),
        verification::Effect::RejectSasMatch => tasks::sent(app, ClientCommand::RejectSasMatch),
        verification::Effect::VerificationCancel => tasks::sent(
            app,
            ClientCommand::VerificationCancel,
        ),
    }
}

/// Carries out what the verification screen asks for.
pub fn apply_verification_effect(
    app: &App,
    effect: verification::Effect,
    request_id: RequestId,
) -> (r: Vec<Task>)
    ensures
        r@ == verification_tasks(*app, effect, request_id),
{
    match effect {
        verification::Effect::Nothing => tasks::nothing(),
        verification::Effect::OpenUrl(url) => tasks::one(Task::OpenUrl(url)),
        verification::Effect::RetryCrossSigningBootstrap => tasks::send_cmd(
            app,
            ClientCommand::RetryCrossSigningBootstrap,
        ),
        verification::Effect::EnableRecovery { passphrase } => tasks::send_cmd(
            app,
            ClientCommand::EnableRecovery { passphrase, request_id },
        ),
        verification::Effect::RestoreFromBackup { recovery_key } => tasks::send_cmd(
            app,
            ClientCommand::RestoreFromBackup { recovery_key, request_id },
        ),
        verification::Effect::StartVerification { user_id } => {
            if user_id.as_str().unicode_len() > 0 {
                return tasks::send_cmd(app, ClientCommand::StartVerification { user_id });
            }
            match &app.own_user_id {
                Some(own) => tasks::send_cmd(
                    app,
                    ClientCommand::StartVerification { user_id: own.clone() },
                ),
                None => tasks::nothing(),
            }
        },
        verification::Effect::AcceptVerificationRequest => tasks::send_cmd(
            app,
            ClientCommand::AcceptVerificationRequest,
        ),
        verification::Effect::ConfirmSasMatch => tasks::send_cmd(
            app,
            ClientCommand::ConfirmSasMatch,
        ),
        verification::Effect::RejectSasMatch => tasks::send_cmd(app, ClientCommand::RejectSasMatch),
        verification::Effect::VerificationCancel => tasks::send_cmd(
            app,
            ClientCommand::VerificationCancel,
        ),
    }
}

/// What a message to the verification screen leaves, and what it asks for.
pub open spec fn verification_updated(
    before: App,
    after: App,
    message: verification::Message,
    request_id: RequestId,
    r: Seq<Task>,
) -> bool {
    &&& after == (App { verification: after.verification, ..before })
    &&& exists|effect: verification::Effect| #[trigger]
        verification::updated(before.verification, after.verification, message, effect) && r
            == verification_tasks(before, effect, request_id)
}

/// Hands a message to the verification screen.
pub fn update_verification(
    app: &mut App,
    message: verification::Message,
    request_id: RequestId,
) -> (r: Vec<Task>)
    requires
        old(app).wf(),
    ensures
        final(app).wf(),
        verification_updated(*old(app), *final(app), message, request_id, r@),
{
    let effect = verification::update(&mut app.verification, message);
    let ghost e = effect;
    let r = apply_verification_effect(app, effect, request_id);
    assert(verification::updated(old(app).verification, app.verification, message, e));
    assert(verification_tasks(*app, e, request_id) == verification_tasks(
        *old(app),
        e,
        request_id,
    ));
    r
}

/// What carrying out what the settings ask for leaves.
pub open spec fn settings_applied(
    before: App,
    after: App,
    effect: settings::Effect,
    request_id: RequestId,
    r: Seq<Task>,
) -> bool {
    match effect {
        settings::Effect::Nothing => after == before && r.len() == 0,
        settings::Effect::Logout => after == before && r == tasks::sent(
            before,
            ClientCommand::Logout,
        ),
        settings::Effect::SetDefaultNotificationMode { scope, mode } => after == before && r
            == tasks::sent(
            before,
            ClientCommand::SetDefaultNotificationMode { scope, mode, request_id },
        ),
        settings::Effect::Verification(m) => verification_updated(before, after, m, request_id, r),
    }
}

/// Carries out what the settings ask for.
pub fn apply_settings_effect(app: &mut App, effect: settings::Effect, request_id: RequestId) -> (r:
    Vec<Task>)
    requires
        old(app).wf(),
    ensures
        final(app).wf(),
        settings_applied(*old(app), *final(app), effect, request_id, r@),
{
    match effect {
        settings::Effect::Nothing => tasks::nothing(),
        settings::Effect::Logout => tasks::send_cmd(app, ClientCommand::Logout),
        settings::Effect::SetDefaultNotificationMode { scope, mode } => tasks::send_cmd(
            app,
            ClientCommand::SetDefaultNotificationMode { scope, mode, request_id },
        ),
        settings::Effect::Verification(m) => update_verification(app, m, request_id),
    }
}

// ---------------------------------------------------------------------------
// Laws.
// ---------------------------------------------------------------------------
/// Where typing is kept private nothing is ever said of it.
pub proof fn law_typing_follows_privacy(app: App, typing: bool)
    requires
        !app.edited.privacy.send_typing_notifications,
    ensures
        typing_told(app, typing).len() == 0,
{
}

/// What is sent is waited for: a message, a file and a sticker each leave
/// their request behind, and a draft is none of theirs to clear but its own.
pub proof fn law_sends_are_tracked_apart(
    before: App,
    after: App,
    effect: composer::Effect,
    id: RequestId,
    r: Seq<Task>,
)
    requires
        composer_applied(before, after, effect, id, r),
        can_send(before),
    ensures
        effect is Send ==> after.timeline.composer.pending_request == Some(id),
        effect is SendAttachment ==> after.timeline.composer.pending_attachment_request == Some(id)
            && after.timeline.composer.pending_request
            == before.timeline.composer.pending_request,
        effect is SendSticker ==> after.timeline.composer.pending_sticker_request == Some(id)
            && after.timeline.composer.pending_request
            == before.timeline.composer.pending_request,
        effect is Send || effect is SendAttachment || effect is SendSticker ==> r.len() == 1
            && r[0] is Send && after.timeline.composer.body == before.timeline.composer.body,
{
}

} // verus!
