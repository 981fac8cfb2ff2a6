//! What holds of the application as a whole: what each thing that is done in
//! it sends to the sync worker.

use vstd::prelude::*;

use crate::commands::ClientCommand;
use crate::events::{NotificationMode, RequestId};
use crate::screens::timeline;
use crate::screens::timeline::composer;
use crate::screens::timeline::NotifyChoice;
use crate::spellcheck::SpellError;
use crate::state::App;
use crate::text;
use crate::update;
use crate::update::effects;
use crate::update::tasks::{Message, Task};

verus! {

/// The commands among some tasks, in order.
pub open spec fn commands_of(r: Seq<Task>) -> Seq<ClientCommand> {
    r.filter(|t: Task| t is Send).map_values(|t: Task| t->Send_0)
}

// ---------------------------------------------------------------------------
// Commands among tasks.
// ---------------------------------------------------------------------------
pub proof fn lemma_commands_concat(a: Seq<Task>, b: Seq<Task>)
    ensures
        commands_of(a + b) == commands_of(a) + commands_of(b),
{
    let p = |t: Task| t is Send;
    Seq::filter_distributes_over_add(a, b, p);
    assert(commands_of(a + b) =~= commands_of(a) + commands_of(b));
}

pub proof fn lemma_one_task(t: Task)
    ensures
        t is Send ==> commands_of(seq![t]) == seq![t->Send_0],
        !(t is Send) ==> commands_of(seq![t]) == Seq::<ClientCommand>::empty(),
{
    reveal(Seq::filter);
    let one = seq![t];
    let p = |t: Task| t is Send;
    assert(one.drop_last() =~= Seq::<Task>::empty());
    assert(Seq::<Task>::empty().filter(p) =~= Seq::<Task>::empty());
    if t is Send {
        assert(one.filter(p) =~= seq![t]);
        assert(commands_of(one) =~= seq![t->Send_0]);
    } else {
        assert(one.filter(p) =~= Seq::<Task>::empty());
        assert(commands_of(one) =~= Seq::<ClientCommand>::empty());
    }
}

pub proof fn lemma_no_task()
    ensures
        commands_of(Seq::<Task>::empty()) == Seq::<ClientCommand>::empty(),
{
    reveal(Seq::filter);
    assert(commands_of(Seq::<Task>::empty()) =~= Seq::<ClientCommand>::empty());
}

/// What a message to the timeline asks for beyond its widgets and the video's
/// stage: the same commands, and no other task is lost.
proof fn lemma_timeline<E: Fn(&str) -> Option<SpellError>, G: Fn(&str) -> Vec<String>>(
    before: App,
    after: App,
    m: timeline::Message,
    id: RequestId,
    errors: E,
    guesses: G,
    r: Seq<Task>,
) -> (x: (timeline::State, timeline::Task, timeline::Effect, Seq<Task>))
    requires
        update::updated(before, after, Message::Timeline(m), id, errors, guesses, r),
    ensures
        timeline::updated(
            before.timeline,
            x.0,
            m,
            before.edited.configs.spellcheck,
            before.edited.configs.chat.show_membership_events,
            errors,
            guesses,
            x.1,
            x.2,
        ),
        effects::timeline_applied(App { timeline: x.0, ..before }, after, x.2, id, x.3),
        commands_of(r) == commands_of(x.3),
        r.len() > 0,
        r[0] == Task::Timeline(x.1),
        forall|k: int| 0 <= k < x.3.len() ==> r.contains(#[trigger] x.3[k]),
{
    let stage = after.timeline.inline_video is Some;
    let inner = if stage {
        r.drop_last()
    } else {
        r
    };
    let task = inner[0]->Timeline_0;
    let rest = inner.skip(1);
    let (t, effect) = choose|t: timeline::State, effect: timeline::Effect| #[trigger]
        timeline::updated(
            before.timeline,
            t,
            m,
            before.edited.configs.spellcheck,
            before.edited.configs.chat.show_membership_events,
            errors,
            guesses,
            task,
            effect,
        ) && effects::timeline_applied(App { timeline: t, ..before }, after, effect, id, rest);
    assert(inner =~= seq![inner[0]] + rest);
    lemma_commands_concat(seq![inner[0]], rest);
    lemma_one_task(inner[0]);
    assert(commands_of(inner) =~= commands_of(rest));
    if stage {
        assert(r =~= inner + seq![r.last()]);
        lemma_commands_concat(inner, seq![r.last()]);
        lemma_one_task(r.last());
        assert(commands_of(r) =~= commands_of(inner));
    }
    assert forall|k: int| 0 <= k < rest.len() implies r.contains(#[trigger] rest[k]) by {
        assert(r[k + 1] == rest[k]);
    }
    (t, task, effect, rest)
}

// ---------------------------------------------------------------------------
// Sending.
// ---------------------------------------------------------------------------
/// Enter sends the draft: one message to the open room, with the text of the
/// draft less the white space around it, the users that it mentions, in order,
/// and the message that it answers. The draft stays until the answer comes.
pub proof fn law_enter_sends_the_draft<
    E: Fn(&str) -> Option<SpellError>,
    G: Fn(&str) -> Vec<String>,
>(
    before: App,
    after: App,
    id: RequestId,
    errors: E,
    guesses: G,
    r: Seq<Task>,
    room: String,
)
    requires
        update::updated(
            before,
            after,
            Message::Timeline(timeline::Message::Composer(composer::Message::Send)),
            id,
            errors,
            guesses,
            r,
        ),
        before.connected,
        before.timeline.room_id == Some(room),
        before.timeline.composer.staged_attachments@.len() == 0,
        before.timeline.composer.pending_request is None,
        text::trimmed(before.timeline.composer.body@).len() > 0,
    ensures
        commands_of(r).len() == 1,
        commands_of(r)[0] is SendMessage,
        commands_of(r)[0]->SendMessage_room_id@ == room@,
        commands_of(r)[0]->SendMessage_body@ == text::trimmed(before.timeline.composer.body@),
        commands_of(r)[0]->SendMessage_mentioned_user_ids@.len()
            == before.timeline.composer.mentioned@.len(),
        forall|i: int|
            0 <= i < before.timeline.composer.mentioned@.len() ==> (
            #[trigger] commands_of(r)[0]->SendMessage_mentioned_user_ids@[i])@
                == before.timeline.composer.mentioned@[i].0@,
        before.timeline.composer.replying_to is None
            ==> commands_of(r)[0]->SendMessage_reply_to_event_id is None,
        before.timeline.composer.replying_to matches Some(p) ==> (
        commands_of(r)[0]->SendMessage_reply_to_event_id matches Some(e) && e@ == p.event_id@),
        commands_of(r)[0]->SendMessage_request_id == id,
        after.timeline.composer.pending_request == Some(id),
        after.timeline.composer.body == before.timeline.composer.body,
        after.timeline.composer.mentioned == before.timeline.composer.mentioned,
        after.timeline.composer.replying_to == before.timeline.composer.replying_to,
{
    let m = timeline::Message::Composer(composer::Message::Send);
    let (t, task, effect, rest) = lemma_timeline(before, after, m, id, errors, guesses, r);
    lemma_one_task(rest[0]);
    assert(rest =~= seq![rest[0]]);
    let c = commands_of(r)[0];
    let ids = c->SendMessage_mentioned_user_ids@;
    assert(text::views(ids) == composer::mention_ids(before.timeline.composer.mentioned@));
    assert forall|i: int| 0 <= i < before.timeline.composer.mentioned@.len() implies (
    #[trigger] ids[i])@ == before.timeline.composer.mentioned@[i].0@ by {
        assert(text::views(ids)[i] == ids[i]@);
    }
    assert(text::views(ids).len() == ids.len());
}

/// With files staged, Enter sends the first of them, with the draft as its
/// caption, and the draft makes room for the next.
pub proof fn law_enter_sends_the_first_file<
    E: Fn(&str) -> Option<SpellError>,
    G: Fn(&str) -> Vec<String>,
>(
    before: App,
    after: App,
    id: RequestId,
    errors: E,
    guesses: G,
    r: Seq<Task>,
    room: String,
)
    requires
        update::updated(
            before,
            after,
            Message::Timeline(timeline::Message::Composer(composer::Message::Send)),
            id,
            errors,
            guesses,
            r,
        ),
        before.connected,
        before.timeline.room_id == Some(room),
        before.timeline.composer.staged_attachments@.len() > 0,
        before.timeline.composer.pending_attachment_request is None,
    ensures
        commands_of(r).len() == 1,
        commands_of(r)[0] is SendAttachment,
        commands_of(r)[0]->SendAttachment_room_id@ == room@,
        commands_of(r)[0]->SendAttachment_filename@
            == before.timeline.composer.staged_attachments@[0].filename@,
        commands_of(r)[0]->SendAttachment_bytes@
            == before.timeline.composer.staged_attachments@[0].bytes@,
        commands_of(r)[0]->SendAttachment_mime@
            == before.timeline.composer.staged_attachments@[0].mime@,
        text::trimmed(before.timeline.composer.body@).len() == 0
            ==> commands_of(r)[0]->SendAttachment_caption is None,
        text::trimmed(before.timeline.composer.body@).len() > 0 ==> (
        commands_of(r)[0]->SendAttachment_caption matches Some(k) && k@ == text::trimmed(
            before.timeline.composer.body@,
        )),
        commands_of(r)[0]->SendAttachment_mentioned_user_ids@.len()
            == before.timeline.composer.mentioned@.len(),
        forall|i: int|
            0 <= i < before.timeline.composer.mentioned@.len() ==> (
            #[trigger] commands_of(r)[0]->SendAttachment_mentioned_user_ids@[i])@
                == before.timeline.composer.mentioned@[i].0@,
        before.timeline.composer.replying_to is None
            ==> commands_of(r)[0]->SendAttachment_reply_to_event_id is None,
        before.timeline.composer.replying_to matches Some(p) ==> (
        commands_of(r)[0]->SendAttachment_reply_to_event_id matches Some(e) && e@ == p.event_id@),
        commands_of(r)[0]->SendAttachment_request_id == id,
        after.timeline.composer.pending_attachment_request == Some(id),
        after.timeline.composer.body@.len() == 0,
        after.timeline.composer.mentioned@.len() == 0,
        after.timeline.composer.replying_to is None,
        after.timeline.composer.staged_attachments == before.timeline.composer.staged_attachments,
{
    let m = timeline::Message::Composer(composer::Message::Send);
    let (t, task, effect, rest) = lemma_timeline(before, after, m, id, errors, guesses, r);
    lemma_one_task(rest[0]);
    assert(rest =~= seq![rest[0]]);
    let c = commands_of(r)[0];
    let ids = c->SendAttachment_mentioned_user_ids@;
    assert(text::views(ids) == composer::mention_ids(before.timeline.composer.mentioned@));
    assert forall|i: int| 0 <= i < before.timeline.composer.mentioned@.len() implies (
    #[trigger] ids[i])@ == before.timeline.composer.mentioned@[i].0@ by {
        assert(text::views(ids)[i] == ids[i]@);
    }
    assert(text::views(ids).len() == ids.len());
}

/// While what was sent is under way, Enter sends nothing more of its kind; nor
/// does it send a blank draft without a file.
pub proof fn law_enter_sends_nothing_twice<
    E: Fn(&str) -> Option<SpellError>,
    G: Fn(&str) -> Vec<String>,
>(
    before: App,
    after: App,
    id: RequestId,
    errors: E,
    guesses: G,
    r: Seq<Task>,
)
    requires
        update::updated(
            before,
            after,
            Message::Timeline(timeline::Message::Composer(composer::Message::Send)),
            id,
            errors,
            guesses,
            r,
        ),
        if before.timeline.composer.staged_attachments@.len() > 0 {
            before.timeline.composer.pending_attachment_request is Some
        } else {
            ||| before.timeline.composer.pending_request is Some
            ||| text::trimmed(before.timeline.composer.body@).len() == 0
        },
    ensures
        commands_of(r).len() == 0,
        after.timeline.composer.body == before.timeline.composer.body,
        after.timeline.composer.pending_request == before.timeline.composer.pending_request,
{
    let m = timeline::Message::Composer(composer::Message::Send);
    let (t, task, effect, rest) = lemma_timeline(before, after, m, id, errors, guesses, r);
    lemma_no_task();
    assert(rest =~= Seq::<Task>::empty());
}

/// A sticker goes out as soon as it is picked, and leaves the draft alone.
pub proof fn law_a_picked_sticker_is_sent<
    E: Fn(&str) -> Option<SpellError>,
    G: Fn(&str) -> Vec<String>,
>(
    before: App,
    after: App,
    url: String,
    body: String,
    width: Option<u32>,
    height: Option<u32>,
    id: RequestId,
    errors: E,
    guesses: G,
    r: Seq<Task>,
    room: String,
)
    requires
        update::updated(
            before,
            after,
            Message::Timeline(
                timeline::Message::Composer(
                    composer::Message::StickerPicked { url, body, width, height },
                ),
            ),
            id,
            errors,
            guesses,
            r,
        ),
        before.connected,
        before.timeline.room_id == Some(room),
    ensures
        commands_of(r) == seq![
            ClientCommand::SendSticker {
                room_id: room,
                url,
                body,
                width,
                height,
                mimetype: None,
                request_id: id,
            },
        ],
        after.timeline.composer.pending_sticker_request == Some(id),
        after.timeline.composer.body == before.timeline.composer.body,
        after.timeline.composer.pending_request == before.timeline.composer.pending_request,
{
    let m = timeline::Message::Composer(
        composer::Message::StickerPicked { url, body, width, height },
    );
    let (t, task, effect, rest) = lemma_timeline(before, after, m, id, errors, guesses, r);
    lemma_one_task(rest[0]);
    assert(rest =~= seq![rest[0]]);
}

// ---------------------------------------------------------------------------
// Editing, deleting, reacting.
// ---------------------------------------------------------------------------
/// Confirming an edit sends the new text of the message that is being edited,
/// less the white space around it.
pub proof fn law_a_confirmed_edit_is_sent<
    E: Fn(&str) -> Option<SpellError>,
    G: Fn(&str) -> Vec<String>,
>(
    before: App,
    after: App,
    id: RequestId,
    errors: E,
    guesses: G,
    r: Seq<Task>,
    room: String,
    e: timeline::EditingState,
)
    requires
        update::updated(
            before,
            after,
            Message::Timeline(timeline::Message::ConfirmEdit),
            id,
            errors,
            guesses,
            r,
        ),
        before.connected,
        before.timeline.room_id == Some(room),
        before.timeline.editing == Some(e),
        text::trimmed(e.draft@).len() > 0,
    ensures
        commands_of(r).len() == 1,
        commands_of(r)[0] matches ClientCommand::EditMessage {
            room_id,
            event_id,
            new_body,
            request_id,
        } && room_id@ == room@ && event_id@ == e.event_id@ && new_body@ == text::trimmed(e.draft@)
            && request_id == id,
        after.timeline.pending_edit_request == Some(id),
        after.timeline.editing == Some(e),
{
    let m = timeline::Message::ConfirmEdit;
    let (t, task, effect, rest) = lemma_timeline(before, after, m, id, errors, guesses, r);
    lemma_one_task(rest[0]);
    assert(rest =~= seq![rest[0]]);
}

/// Confirming a deletion redacts that message; asking for one only asks.
pub proof fn law_a_confirmed_deletion_is_sent<
    E: Fn(&str) -> Option<SpellError>,
    G: Fn(&str) -> Vec<String>,
>(
    before: App,
    after: App,
    m: timeline::Message,
    target: String,
    id: RequestId,
    errors: E,
    guesses: G,
    r: Seq<Task>,
    room: String,
)
    requires
        update::updated(before, after, Message::Timeline(m), id, errors, guesses, r),
        m == timeline::Message::ConfirmDelete(target) || m == timeline::Message::RequestDelete(
            target,
        ),
        before.connected,
        before.timeline.room_id == Some(room),
    ensures
        m is ConfirmDelete ==> commands_of(r) == seq![
            ClientCommand::RedactEvent {
                room_id: room,
                event_id: target,
                reason: None,
                request_id: id,
            },
        ] && after.timeline.pending_redact_request == Some(id),
        m is RequestDelete ==> commands_of(r).len() == 0 && after.timeline.confirm_delete == Some(
            target,
        ),
{
    let (t, task, effect, rest) = lemma_timeline(before, after, m, id, errors, guesses, r);
    lemma_no_task();
    if m is ConfirmDelete {
        lemma_one_task(rest[0]);
        assert(rest =~= seq![rest[0]]);
    } else {
        assert(rest =~= Seq::<Task>::empty());
    }
}

/// Reacting toggles that reaction on that message, counts the emoji's use once
/// and closes the picker.
pub proof fn law_a_reaction_is_sent<
    E: Fn(&str) -> Option<SpellError>,
    G: Fn(&str) -> Vec<String>,
>(
    before: App,
    after: App,
    target: String,
    key: String,
    id: RequestId,
    errors: E,
    guesses: G,
    r: Seq<Task>,
    room: String,
)
    requires
        update::updated(
            before,
            after,
            Message::Timeline(timeline::Message::ReactWithEmoji { event_id: target, key }),
            id,
            errors,
            guesses,
            r,
        ),
        before.connected,
        before.timeline.room_id == Some(room),
    ensures
        commands_of(r) == seq![
            ClientCommand::ToggleReaction {
                room_id: room,
                event_id: target,
                key,
                request_id: id,
            },
        ],
        r.contains(Task::SaveEmojiUsage),
        after.timeline.reacting_to is None,
        after.emoji_usage@.contains_key(key@),
        !before.emoji_usage@.contains_key(key@) ==> after.emoji_usage@[key@] == 1,
        before.emoji_usage@.contains_key(key@) && before.emoji_usage@[key@] < u32::MAX
            ==> after.emoji_usage@[key@] == before.emoji_usage@[key@] + 1,
        forall|k: Seq<char>|
            k != key@ ==> #[trigger] after.emoji_usage@.contains_key(k)
                == before.emoji_usage@.contains_key(k),
        forall|k: Seq<char>|
            k != key@ && before.emoji_usage@.contains_key(k) ==> #[trigger] after.emoji_usage@[k]
                == before.emoji_usage@[k],
{
    let m = timeline::Message::ReactWithEmoji { event_id: target, key };
    let (t, task, effect, rest) = lemma_timeline(before, after, m, id, errors, guesses, r);
    assert(rest.len() == 2);
    assert(rest =~= seq![rest[0]] + seq![rest[1]]);
    lemma_commands_concat(seq![rest[0]], seq![rest[1]]);
    lemma_one_task(rest[0]);
    lemma_one_task(rest[1]);
    assert(commands_of(rest) =~= seq![rest[1]->Send_0]);
    assert(rest[0] is SaveEmojiUsage);
}

// ---------------------------------------------------------------------------
// The room.
// ---------------------------------------------------------------------------
/// What else the timeline sends for the open room: each choice of the
/// notification menu its own mode, or none for the account's; a retry; the
/// messages before the oldest.
pub proof fn law_what_the_timeline_asks_of_the_room<
    E: Fn(&str) -> Option<SpellError>,
    G: Fn(&str) -> Vec<String>,
>(
    before: App,
    after: App,
    m: timeline::Message,
    id: RequestId,
    errors: E,
    guesses: G,
    r: Seq<Task>,
    room: String,
)
    requires
        update::updated(before, after, Message::Timeline(m), id, errors, guesses, r),
        before.connected,
        before.timeline.room_id == Some(room),
        ({
            ||| m is NotificationModeSelected
            ||| m is RetrySend
            ||| m is LoadOlder && !before.timeline.loading_older && !before.timeline.reached_start
        }),
    ensures
        m == timeline::Message::NotificationModeSelected(NotifyChoice::Default) ==> commands_of(r)
            == seq![ClientCommand::ClearRoomNotificationMode { room_id: room, request_id: id }],
        m == timeline::Message::NotificationModeSelected(NotifyChoice::All) ==> commands_of(r)
            == seq![
            ClientCommand::SetRoomNotificationMode {
                room_id: room,
                mode: NotificationMode::AllMessages,
                request_id: id,
            },
        ],
        m == timeline::Message::NotificationModeSelected(NotifyChoice::Mentions) ==> commands_of(r)
            == seq![
            ClientCommand::SetRoomNotificationMode {
                room_id: room,
                mode: NotificationMode::MentionsAndKeywordsOnly,
                request_id: id,
            },
        ],
        m == timeline::Message::NotificationModeSelected(NotifyChoice::Mute) ==> commands_of(r)
            == seq![
            ClientCommand::SetRoomNotificationMode {
                room_id: room,
                mode: NotificationMode::Mute,
                request_id: id,
            },
        ],
        m is RetrySend ==> commands_of(r) == seq![ClientCommand::RetrySend { room_id: room }],
        m is LoadOlder ==> commands_of(r) == seq![
            ClientCommand::PaginateBackwards { room_id: room, request_id: id },
        ] && after.timeline.loading_older && after.timeline.pending_paginate_request == Some(id),
{
    let (t, task, effect, rest) = lemma_timeline(before, after, m, id, errors, guesses, r);
    lemma_one_task(rest[0]);
    assert(rest =~= seq![rest[0]]);
}

/// The member menu opens a direct message or a new room with that member,
/// encrypted as the settings say.
pub proof fn law_the_member_menu_reaches_its_member<
    E: Fn(&str) -> Option<SpellError>,
    G: Fn(&str) -> Vec<String>,
>(
    before: App,
    after: App,
    m: timeline::Message,
    user_id: String,
    id: RequestId,
    errors: E,
    guesses: G,
    r: Seq<Task>,
)
    requires
        update::updated(before, after, Message::Timeline(m), id, errors, guesses, r),
        before.connected,
        m == timeline::Message::MemberMenuDirectMessage(user_id) || m
            == timeline::Message::MemberMenuNewRoom(user_id),
    ensures
        m is MemberMenuDirectMessage ==> commands_of(r) == seq![
            ClientCommand::OpenDirectMessage {
                user_id,
                encrypted: before.edited.encryption.encrypt_direct_messages,
                request_id: id,
            },
        ],
        m is MemberMenuNewRoom ==> commands_of(r) == seq![
            ClientCommand::CreateRoomWith {
                user_id,
                encrypted: before.edited.encryption.encrypt_rooms,
                request_id: id,
            },
        ],
        after.timeline.member_menu is None,
{
    let (t, task, effect, rest) = lemma_timeline(before, after, m, id, errors, guesses, r);
    lemma_one_task(rest[0]);
    assert(rest =~= seq![rest[0]]);
}

/// Joining and leaving a call go to the open room, one at a time.
pub proof fn law_calls_are_asked_for_one_at_a_time<
    E: Fn(&str) -> Option<SpellError>,
    G: Fn(&str) -> Vec<String>,
>(
    before: App,
    after: App,
    m: timeline::Message,
    id: RequestId,
    errors: E,
    guesses: G,
    r: Seq<Task>,
    room: String,
)
    requires
        update::updated(before, after, Message::Timeline(m), id, errors, guesses, r),
        before.connected,
        before.timeline.room_id == Some(room),
        m is JoinCallClicked || m is LeaveCallClicked,
    ensures
        before.call.pending is Some ==> commands_of(r).len() == 0 && after.call == before.call,
        before.call.pending is None && m is JoinCallClicked ==> commands_of(r) == seq![
            ClientCommand::JoinCall { room_id: room, request_id: id },
        ] && after.call.pending == Some((id, room, true)),
        before.call.pending is None && m is LeaveCallClicked ==> commands_of(r) == seq![
            ClientCommand::LeaveCall { room_id: room, request_id: id },
        ] && after.call.pending == Some((id, room, false)),
{
    let (t, task, effect, rest) = lemma_timeline(before, after, m, id, errors, guesses, r);
    lemma_no_task();
    if before.call.pending is Some {
        assert(rest =~= Seq::<Task>::empty());
    } else {
        lemma_one_task(rest[0]);
        assert(rest =~= seq![rest[0]]);
    }
}

/// What is typed is told to the room where the settings allow it, and then it
/// says whether there is something in the draft; where they do not, nothing
/// is.
pub proof fn law_typing_is_told_as_the_settings_say<
    E: Fn(&str) -> Option<SpellError>,
    G: Fn(&str) -> Vec<String>,
>(
    before: App,
    after: App,
    edit: timeline::editor::Edit,
    content: timeline::editor::Content,
    id: RequestId,
    errors: E,
    guesses: G,
    r: Seq<Task>,
    room: String,
)
    requires
        update::updated(
            before,
            after,
            Message::Timeline(
                timeline::Message::Composer(
                    composer::Message::Action(timeline::editor::Action::Edit(edit), content),
                ),
            ),
            id,
            errors,
            guesses,
            r,
        ),
        before.connected,
        before.timeline.room_id == Some(room),
    ensures
        !before.edited.privacy.send_typing_notifications ==> commands_of(r).len() == 0,
        before.edited.privacy.send_typing_notifications ==> commands_of(r) == seq![
            ClientCommand::SetTyping {
                room_id: room,
                typing: text::trimmed(timeline::editor::flat(content.lines@)).len() > 0,
            },
        ],
{
    let m = timeline::Message::Composer(
        composer::Message::Action(timeline::editor::Action::Edit(edit), content),
    );
    let (t, task, effect, rest) = lemma_timeline(before, after, m, id, errors, guesses, r);
    lemma_no_task();
    if before.edited.privacy.send_typing_notifications {
        lemma_one_task(rest[0]);
        assert(rest =~= seq![rest[0]]);
    } else {
        assert(rest =~= Seq::<Task>::empty());
    }
}

/// A link that is clicked opens; an image that is clicked shows in the viewer;
/// a video plays in place of its card, in place of any other, and stops when
/// it is opened elsewhere.
pub proof fn law_clicks_open_what_they_are_on<
    E: Fn(&str) -> Option<SpellError>,
    G: Fn(&str) -> Vec<String>,
>(
    before: App,
    after: App,
    m: timeline::Message,
    id: RequestId,
    errors: E,
    guesses: G,
    r: Seq<Task>,
)
    requires
        update::updated(before, after, Message::Timeline(m), id, errors, guesses, r),
    ensures
        m matches timeline::Message::OpenUrl(url) ==> r[0] == Task::Timeline(
            timeline::Task::OpenUrl(url),
        ) && after == before,
        m matches timeline::Message::ZoomImage(url) ==> after.zoomed_image == Some(url),
        m matches timeline::Message::PlayVideo { event_id, video, title } ==> {
            &&& after.timeline.inline_video matches Some(v) && v.event_id == event_id && v.video
                == video && v.title == title && v.error is None
            &&& r.contains(Task::ClosePlayer)
            &&& r.contains(Task::FetchScale)
        },
        m is StopVideo ==> after.timeline.inline_video is None && r.contains(Task::ClosePlayer),
        m matches timeline::Message::OpenVideoExternally(url) ==> r[0] == Task::Timeline(
            timeline::Task::OpenUrl(url),
        ) && after.timeline.inline_video is None && r.contains(Task::ClosePlayer),
{
    let (t, task, effect, rest) = lemma_timeline(before, after, m, id, errors, guesses, r);
    match m {
        timeline::Message::PlayVideo { event_id, video, title } => {
            assert(rest[0] is ClosePlayer && rest[1] is FetchScale);
        },
        timeline::Message::StopVideo => {
            assert(rest[0] is ClosePlayer);
        },
        timeline::Message::OpenVideoExternally(url) => {
            assert(rest[0] is ClosePlayer);
        },
        _ => {},
    }
}

/// Without a worker to take them, no message to the timeline sends a command,
/// and nothing that can be sent is waited for.
pub proof fn law_nothing_is_sent_without_a_worker<
    E: Fn(&str) -> Option<SpellError>,
    G: Fn(&str) -> Vec<String>,
>(
    before: App,
    after: App,
    m: timeline::Message,
    id: RequestId,
    errors: E,
    guesses: G,
    r: Seq<Task>,
)
    requires
        update::updated(before, after, Message::Timeline(m), id, errors, guesses, r),
        !before.connected,
    ensures
        commands_of(r).len() == 0,
        m == timeline::Message::Composer(composer::Message::Send)
            ==> after.timeline.composer.pending_request
            == before.timeline.composer.pending_request,
{
    let (t, task, effect, rest) = lemma_timeline(before, after, m, id, errors, guesses, r);
    lemma_no_task();
    if rest.len() == 0 {
        assert(rest =~= Seq::<Task>::empty());
    } else if rest.len() == 1 {
        assert(rest =~= seq![rest[0]]);
        lemma_one_task(rest[0]);
    } else if rest.len() == 2 {
        assert(rest =~= seq![rest[0]] + seq![rest[1]]);
        lemma_commands_concat(seq![rest[0]], seq![rest[1]]);
        lemma_one_task(rest[0]);
        lemma_one_task(rest[1]);
    }
}

} // verus!
