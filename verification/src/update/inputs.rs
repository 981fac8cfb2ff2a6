//! What comes from the window, the disk and the network besides the worker.

use vstd::prelude::*;

use crate::commands::ClientCommand;
use crate::events::RequestId;
use crate::media;
use crate::previews;
use crate::previews::PreviewMaps;
use crate::screens::settings;
use crate::screens::settings::general;
use crate::screens::timeline;
use crate::screens::timeline::composer;
use crate::screens::timeline::video;
use crate::screens::timeline::video::VideoStep;
use crate::screens::timeline::{InlineVideo, Point, Rect};
use crate::state::{App, ResizeDrag, Route, Size};
use crate::steam::SteamAppData;
use crate::text;
use crate::tweets::TweetData;
use crate::update::effects;
use crate::update::tasks;
use crate::update::tasks::{Message, Task};

verus! {

/// Whether a message is one of these.
pub open spec fn concerns_inputs(message: Message) -> bool {
    match message {
        Message::EmojiWanted(_) => true,
        Message::EmojiSvgFetched(_, _) => true,
        Message::GifDecoded(_) => true,
        Message::TweetFetched(_, _) => true,
        Message::SteamFetched(_, _) => true,
        Message::WebImageFetched(_, _) => true,
        Message::PasteClipboard => true,
        Message::FileDropped(_) => true,
        Message::AttachmentsReadFor { .. } => true,
        Message::CloseZoom => true,
        Message::DownloadZoomedImage => true,
        Message::EscapePressed => true,
        Message::InlineVideoScale(_) => true,
        Message::InlineVideoOpened(_) => true,
        Message::InlineVideoBounds(_) => true,
        Message::ReclaimAppFocus => true,
        Message::WindowResized => true,
        Message::CursorMoved(_) => true,
        Message::AutoscrollTick => true,
        Message::AutoscrollEnd => true,
        Message::ToggleSettings(_) => true,
        Message::SettingsResizeStarted => true,
        Message::SettingsResizeDragged { .. } => true,
        Message::SettingsResizeReleased => true,
        _ => false,
    }
}

// ---------------------------------------------------------------------------
// Images and previews.
// ---------------------------------------------------------------------------
/// What a tweet that was looked up leaves: its images are asked for; without
/// it the homeserver is asked for a plain preview, once.
pub open spec fn tweet_heard(
    before: App,
    after: App,
    url: String,
    result: Result<TweetData, String>,
    r: Seq<Task>,
) -> bool {
    match result {
        Ok(tweet) => {
            let mid = App { media: before.media, ..after };
            &&& after.previews@ == (PreviewMaps {
                tweets: before.previews@.tweets.insert(url@, Some(tweet)),
                ..before.previews@
            })
            &&& mid == (App { previews: after.previews, ..before })
            &&& effects::web_wanted(mid, after, tweet.images_of(), r)
        },
        Err(_) => fell_back(before, after, url, r),
    }
}

/// What a store page that was looked up leaves.
pub open spec fn app_heard(
    before: App,
    after: App,
    url: String,
    result: Result<SteamAppData, String>,
    r: Seq<Task>,
) -> bool {
    match result {
        Ok(data) => {
            let mid = App { media: before.media, ..after };
            &&& after.previews@ == (PreviewMaps {
                apps: before.previews@.apps.insert(url@, Some(data)),
                ..before.previews@
            })
            &&& mid == (App { previews: after.previews, ..before })
            &&& effects::web_wanted(mid, after, media::opt_name(data.header_image), r)
        },
        Err(_) => fell_back(before, after, url, r),
    }
}

/// What a lookup that failed leaves.
pub open spec fn fell_back(before: App, after: App, url: String, r: Seq<Task>) -> bool {
    &&& after.previews@ == previews::fallen_back(before.previews@, url@)
    &&& after == (App { previews: after.previews, ..before })
    &&& r == if before.previews@.links.contains_key(url@) {
        Seq::empty()
    } else {
        tasks::sent(before, ClientCommand::FetchUrlPreview { url })
    }
}

/// Falls back to the homeserver's preview.
fn fall_back(app: &mut App, url: String) -> (r: Vec<Task>)
    requires
        old(app).wf(),
    ensures
        final(app).wf(),
        fell_back(*old(app), *final(app), url, r@),
{
    if previews::fall_back(&mut app.previews, &url) {
        tasks::send_cmd(app, ClientCommand::FetchUrlPreview { url })
    } else {
        tasks::nothing()
    }
}

/// Takes a tweet in that was looked up.
fn hear_tweet(app: &mut App, url: String, result: Result<TweetData, String>) -> (r: Vec<Task>)
    requires
        old(app).wf(),
    ensures
        final(app).wf(),
        tweet_heard(*old(app), *final(app), url, result, r@),
{
    match result {
        Ok(tweet) => {
            let images = tweet.all_image_urls();
            app.previews.tweets.insert(url, Some(tweet));
            let ghost mid = *app;
            let r = effects::want_web_images(app, images);
            assert(mid == (App { media: old(app).media, ..*app }));
            r
        },
        Err(_) => fall_back(app, url),
    }
}

/// Takes a store page in that was looked up.
fn hear_app(app: &mut App, url: String, result: Result<SteamAppData, String>) -> (r: Vec<Task>)
    requires
        old(app).wf(),
    ensures
        final(app).wf(),
        app_heard(*old(app), *final(app), url, result, r@),
{
    match result {
        Ok(data) => {
            let mut images: Vec<String> = Vec::new();
            if let Some(image) = &data.header_image {
                images.push(image.clone());
            }
            assert(text::views(images@) =~= media::opt_name(data.header_image));
            app.previews.apps.insert(url, Some(data));
            let ghost mid = *app;
            let r = effects::want_web_images(app, images);
            assert(mid == (App { media: old(app).media, ..*app }));
            r
        },
        Err(_) => fall_back(app, url),
    }
}

/// What an image that arrived, or did not, makes of the media.
pub open spec fn image_heard(before: media::State, after: media::State, message: Message) -> bool {
    match message {
        Message::EmojiSvgFetched(emoji, ok) => media::emoji_arrived(before, after, emoji@, ok),
        Message::GifDecoded(url) => {
            &&& after.pending_urls@ == before.pending_urls@.remove(url@)
            &&& after.cached@ == before.cached@.insert(url@)
            &&& after == (media::State {
                pending_urls: after.pending_urls,
                cached: after.cached,
                ..before
            })
        },
        Message::WebImageFetched(url, ok) => {
            &&& after.web_pending@ == before.web_pending@.remove(url@)
            &&& after.web_images@ == if ok {
                before.web_images@.insert(url@)
            } else {
                before.web_images@
            }
            &&& after == (media::State {
                web_pending: after.web_pending,
                web_images: after.web_images,
                ..before
            })
        },
        _ => after == before,
    }
}

/// Takes an image in that arrived, or did not.
fn hear_image(m: &mut media::State, message: Message)
    ensures
        image_heard(*old(m), *final(m), message),
{
    match message {
        Message::EmojiSvgFetched(emoji, ok) => {
            media::emoji_fetched(m, emoji, ok);
        },
        Message::GifDecoded(url) => {
            media::gif_decoded(m, url);
        },
        Message::WebImageFetched(url, ok) => {
            media::web_image_fetched(m, url, ok);
        },
        _ => {},
    }
}

// ---------------------------------------------------------------------------
// Attachments.
// ---------------------------------------------------------------------------
/// Whether the open room shows: what is pasted or dropped is meant for what is
/// on screen.
pub open spec fn room_shows(app: App) -> bool {
    app.route == Route::Main && !app.show_settings && app.space_explorer is None
}

/// What reading a room's attachments comes to, for the room on screen.
fn shown_room(app: &App) -> (r: Option<String>)
    ensures
        r == if room_shows(*app) {
            app.timeline.room_id
        } else {
            None
        },
{
    let main = match app.route {
        Route::Main => true,
        Route::Login => false,
    };
    if !main || app.show_settings || app.space_explorer.is_some() {
        None
    } else {
        text::clone_opt(&app.timeline.room_id)
    }
}

/// Whether these are the states of a composer that stages some files, one
/// after the other.
pub open spec fn picks_through(
    steps: Seq<composer::State>,
    before: composer::State,
    after: composer::State,
    files: Seq<(String, Vec<u8>)>,
) -> bool {
    &&& steps.len() == files.len() + 1
    &&& steps[0] == before
    &&& steps.last() == after
    &&& forall|i: int|
        0 <= i < files.len() ==> composer::picked(
            steps[i],
            steps[i + 1],
            (#[trigger] files[i]).0,
            files[i].1,
        )
}

/// Whether a composer has staged some files, one after the other.
pub open spec fn all_picked(
    before: composer::State,
    after: composer::State,
    files: Seq<(String, Vec<u8>)>,
) -> bool {
    exists|steps: Seq<composer::State>| #[trigger] picks_through(steps, before, after, files)
}

/// What could not be read, in words.
pub open spec fn unread_text(n: nat) -> Seq<char> {
    text::decimal(n) + " item"@ + (if n == 1 {
        ""@
    } else {
        "s"@
    }) + " couldn't be read (folders can't be attached)"@
}

/// A composer that says what could not be read.
pub open spec fn told_unread(
    before: composer::State,
    after: composer::State,
    failed: usize,
) -> bool {
    if failed == 0 {
        after == before
    } else {
        &&& after.error matches Some(e) && e@ == unread_text(failed as nat)
        &&& after == (composer::State { error: after.error, ..before })
    }
}

/// What files that were read make of the composer: those of another room are
/// dropped, and the composer says so.
pub open spec fn files_taken(
    before: composer::State,
    after: composer::State,
    open: bool,
    files: Seq<(String, Vec<u8>)>,
    failed: usize,
) -> bool {
    if !open {
        &&& after.error matches Some(e) && e@
            == "Attachment cancelled — the room changed while reading the files"@
        &&& after == (composer::State { error: after.error, ..before })
    } else {
        exists|mid: composer::State| #[trigger]
            told_unread(before, mid, failed) && all_picked(mid, after, files)
    }
}

/// Says what could not be read.
fn tell_unread(c: &mut composer::State, failed: usize)
    requires
        old(c).wf(),
    ensures
        final(c).wf(),
        told_unread(*old(c), *final(c), failed),
{
    if failed > 0 {
        let count = text::decimal_string(failed as u64);
        let mut line = text::join3(
            count.as_str(),
            " item",
            if failed == 1 {
                ""
            } else {
                "s"
            },
        );
        line.append(" couldn't be read (folders can't be attached)");
        assert(line@ =~= unread_text(failed as nat));
        c.error = Some(line);
    }
}

/// Stages some files.
fn pick_all(c: &mut composer::State, files: Vec<(String, Vec<u8>)>)
    requires
        old(c).wf(),
    ensures
        final(c).wf(),
        all_picked(*old(c), *final(c), files@),
{
    let ghost all = files@;
    let mut rest = files;
    let ghost mut steps: Seq<composer::State> = seq![*c];
    assert(rest@ =~= all.skip(0));
    while rest.len() > 0
        invariant
            c.wf(),
            1 <= steps.len() <= all.len() + 1,
            rest@ == all.skip(steps.len() - 1),
            picks_through(steps, *old(c), *c, all.take(steps.len() - 1)),
        decreases rest@.len(),
    {
        let ghost n = steps.len() - 1;
        let (filename, bytes) = rest.remove(0);
        composer::pick(c, filename, bytes);
        proof {
            let now = steps.push(*c);
            let some = all.take(n + 1);
            assert(all.skip(n)[0] == all[n]);
            assert(all[n] == (filename, bytes));
            assert forall|i: int| 0 <= i < some.len() implies composer::picked(
                now[i],
                now[i + 1],
                (#[trigger] some[i]).0,
                some[i].1,
            ) by {
                if i < n {
                    assert(all.take(n)[i] == some[i]);
                    assert(now[i] == steps[i] && now[i + 1] == steps[i + 1]);
                }
            }
            steps = now;
            assert(rest@ =~= all.skip(n + 1));
        }
    }
    proof {
        assert(all.take(steps.len() - 1) =~= all);
        assert(picks_through(steps, *old(c), *c, all));
    }
}

/// Takes files in that were read for a room.
fn take_files(
    c: &mut composer::State,
    open: bool,
    files: Vec<(String, Vec<u8>)>,
    failed: usize,
)
    requires
        old(c).wf(),
    ensures
        final(c).wf(),
        files_taken(*old(c), *final(c), open, files@, failed),
{
    if !open {
        c.error =
        Some("Attachment cancelled — the room changed while reading the files".to_owned());
        return ;
    }
    tell_unread(c, failed);
    let ghost mid = *c;
    pick_all(c, files);
    assert(told_unread(*old(c), mid, failed));
}

// ---------------------------------------------------------------------------
// The video.
// ---------------------------------------------------------------------------
/// Whether something lies over the timeline. The native player would draw over
/// it.
pub open spec fn overlay_open(app: App) -> bool {
    app.show_settings || app.zoomed_image is Some || app.space_explorer is Some
        || app.pending_room_action is Some
}

/// What the player is to do, as tasks.
pub open spec fn video_tasks(step: VideoStep) -> Seq<Task> {
    match step {
        VideoStep::Nothing => Seq::empty(),
        VideoStep::Open { video, full, visible, scale } => seq![
            Task::OpenPlayer { video, full, visible, scale },
        ],
        VideoStep::Sync { full, visible, scale } => seq![Task::SyncPlayer { full, visible, scale }],
        VideoStep::Close => seq![Task::ClosePlayer],
        VideoStep::Reprobe { hide } => if hide {
            seq![Task::HidePlayer, Task::ProbeStage]
        } else {
            seq![Task::ProbeStage]
        },
    }
}

/// What a probe of the stage leaves.
pub open spec fn stage_probed(
    before: App,
    after: App,
    found: Option<(Rect, Option<Rect>)>,
    r: Seq<Task>,
) -> bool {
    &&& after.timeline == (timeline::State {
        inline_video: after.timeline.inline_video,
        ..before.timeline
    })
    &&& after == (App { timeline: after.timeline, ..before })
    &&& exists|step: VideoStep| #[trigger]
        video::probed(
            before.timeline.inline_video,
            after.timeline.inline_video,
            overlay_open(before),
            found,
            step,
        ) && r == video_tasks(step)
}

/// What the player is to do, as tasks.
fn video_task_list(step: VideoStep) -> (r: Vec<Task>)
    ensures
        r@ == video_tasks(step),
{
    match step {
        VideoStep::Nothing => tasks::nothing(),
        VideoStep::Open { video, full, visible, scale } => tasks::one(
            Task::OpenPlayer { video, full, visible, scale },
        ),
        VideoStep::Sync { full, visible, scale } => tasks::one(
            Task::SyncPlayer { full, visible, scale },
        ),
        VideoStep::Close => tasks::one(Task::ClosePlayer),
        VideoStep::Reprobe { hide } => {
            if hide {
                let mut r = tasks::one(Task::HidePlayer);
                r.push(Task::ProbeStage);
                assert(r@ =~= seq![Task::HidePlayer, Task::ProbeStage]);
                r
            } else {
                tasks::one(Task::ProbeStage)
            }
        },
    }
}

/// Takes a probe of the stage in.
fn probe_stage(app: &mut App, found: Option<(Rect, Option<Rect>)>) -> (r: Vec<Task>)
    requires
        old(app).wf(),
    ensures
        final(app).wf(),
        stage_probed(*old(app), *final(app), found, r@),
{
    let overlay = app.show_settings || app.zoomed_image.is_some() || app.space_explorer.is_some()
        || app.pending_room_action.is_some();
    let step = video::inline_video_bounds(&mut app.timeline.inline_video, overlay, found);
    let ghost s = step;
    let r = video_task_list(step);
    assert(video::probed(
        old(app).timeline.inline_video,
        app.timeline.inline_video,
        overlay_open(*old(app)),
        found,
        s,
    ));
    r
}

/// The video once the scale is known, or the player failed.
pub open spec fn video_noted(v: Option<InlineVideo>, message: Message) -> Option<InlineVideo> {
    match v {
        Some(i) => match message {
            Message::InlineVideoScale(scale) => Some(InlineVideo { scale: Some(scale), ..i }),
            Message::InlineVideoOpened(Some(reason)) => Some(
                InlineVideo { error: Some(reason), ..i },
            ),
            _ => v,
        },
        None => None,
    }
}

/// Records the scale, or why the player failed.
fn note_video(v: &mut Option<InlineVideo>, message: Message)
    ensures
        *final(v) == video_noted(*old(v), message),
{
    if let Some(mut i) = v.take() {
        match message {
            Message::InlineVideoScale(scale) => {
                i.scale = Some(scale);
            },
            Message::InlineVideoOpened(Some(reason)) => {
                i.error = Some(reason);
            },
            _ => {},
        }
        *v = Some(i);
    }
}

// ---------------------------------------------------------------------------
// The window.
// ---------------------------------------------------------------------------
/// The timeline after a message from the window.
pub open spec fn timeline_touched(t: timeline::State, message: Message) -> timeline::State {
    match message {
        Message::EscapePressed => timeline::State { autoscroll: None, ..t },
        Message::AutoscrollEnd => timeline::State { autoscroll: None, ..t },
        Message::WindowResized => timeline::State { scroll_anchor: None, ..t },
        Message::InlineVideoScale(_) => timeline::State {
            inline_video: video_noted(t.inline_video, message),
            ..t
        },
        Message::InlineVideoOpened(_) => timeline::State {
            inline_video: video_noted(t.inline_video, message),
            ..t
        },
        _ => t,
    }
}

/// Changes the timeline after a message from the window.
fn touch_timeline(t: &mut timeline::State, message: Message)
    requires
        old(t).wf(),
    ensures
        final(t).wf(),
        *final(t) == timeline_touched(*old(t), message),
{
    match message {
        Message::EscapePressed => {
            t.autoscroll = None;
        },
        Message::AutoscrollEnd => {
            t.autoscroll = None;
        },
        Message::WindowResized => {
            t.scroll_anchor = None;
        },
        Message::InlineVideoScale(scale) => {
            note_video(&mut t.inline_video, Message::InlineVideoScale(scale));
        },
        Message::InlineVideoOpened(result) => {
            note_video(&mut t.inline_video, Message::InlineVideoOpened(result));
        },
        _ => {},
    }
}

/// A drag of the settings panel, after the cursor moved: the first move only
/// sets the anchor.
pub open spec fn dragged(app: App, cursor: Point, resized: Size) -> App {
    match app.settings_resize_drag {
        None => app,
        Some(drag) => match drag.anchor {
            None => App {
                settings_resize_drag: Some(ResizeDrag { anchor: Some(cursor), ..drag }),
                ..app
            },
            Some(_) => App { settings_panel_size: resized, ..app },
        },
    }
}

/// What asking for the bytes of the open image leaves.
pub open spec fn download_asked(before: App, after: App, id: RequestId, r: Seq<Task>) -> bool {
    match before.zoomed_image {
        Some(url) => {
            &&& after.media.download_requests@ == before.media.download_requests@.push(id)
            &&& after.media == (media::State {
                download_requests: after.media.download_requests,
                ..before.media
            })
            &&& after == (App { media: after.media, ..before })
            &&& r == tasks::sent(before, ClientCommand::FetchMedia { mxc_url: url, request_id: id })
        },
        None => after == before && r.len() == 0,
    }
}

/// Asks for the bytes of the open image.
fn ask_download(app: &mut App, id: RequestId) -> (r: Vec<Task>)
    requires
        old(app).wf(),
    ensures
        final(app).wf(),
        download_asked(*old(app), *final(app), id, r@),
{
    let url = match &app.zoomed_image {
        Some(url) => url.clone(),
        None => {
            return tasks::nothing();
        },
    };
    let r = tasks::send_cmd(app, ClientCommand::FetchMedia { mxc_url: url, request_id: id });
    app.media.download_requests.push(id);
    r
}

/// What a message from the window leaves, and what it asks for.
pub open spec fn window_updated(
    before: App,
    after: App,
    message: Message,
    r: Seq<Task>,
) -> bool {
    match message {
        Message::CloseZoom => after == (App { zoomed_image: None, ..before }) && r.len() == 0,
        Message::EscapePressed => {
            &&& after.timeline == timeline_touched(before.timeline, message)
            &&& after == (App { timeline: after.timeline, zoomed_image: None, ..before })
            &&& r.len() == 0
        },
        Message::InlineVideoOpened(result) => {
            &&& after.timeline == timeline_touched(before.timeline, message)
            &&& after == (App { timeline: after.timeline, ..before })
            &&& r == if result is Some {
                seq![Task::ClosePlayer]
            } else {
                Seq::empty()
            }
        },
        Message::ReclaimAppFocus => after == before && r == seq![Task::ReclaimFocus],
        Message::CursorMoved(position) => after == (App { cursor_position: position, ..before })
            && r.len() == 0,
        Message::AutoscrollTick => after == before && r == match before.timeline.autoscroll {
            Some(origin) => seq![Task::AutoscrollStep { origin, cursor: before.cursor_position }],
            None => Seq::empty(),
        },
        Message::ToggleSettings(autostart) => {
            &&& after.settings == if before.show_settings {
                before.settings
            } else {
                settings::State {
                    general: general::State {
                        confirm_logout: false,
                        confirm_log_clear: false,
                        autostart_enabled: autostart,
                        log_copy_status: general::LogCopyStatus::Idle,
                        log_clear_status: general::LogClearStatus::Idle,
                    },
                    ..before.settings
                }
            }
            &&& after == (App {
                show_settings: !before.show_settings,
                settings: after.settings,
                ..before
            })
            &&& r.len() == 0
        },
        Message::SettingsResizeStarted => {
            &&& after == (App {
                settings_resize_drag: Some(
                    ResizeDrag { size_at_start: before.settings_panel_size, anchor: None },
                ),
                ..before
            })
            &&& r.len() == 0
        },
        Message::SettingsResizeDragged { cursor, resized } => after == dragged(
            before,
            cursor,
            resized,
        ) && r.len() == 0,
        Message::SettingsResizeReleased => after == (App { settings_resize_drag: None, ..before })
            && r.len() == 0,
        _ => {
            &&& after.timeline == timeline_touched(before.timeline, message)
            &&& after == (App { timeline: after.timeline, ..before })
            &&& r.len() == 0
        },
    }
}

/// Whether a message is from the window.
pub open spec fn from_window(message: Message) -> bool {
    match message {
        Message::CloseZoom => true,
        Message::EscapePressed => true,
        Message::InlineVideoScale(_) => true,
        Message::InlineVideoOpened(_) => true,
        Message::ReclaimAppFocus => true,
        Message::WindowResized => true,
        Message::CursorMoved(_) => true,
        Message::AutoscrollTick => true,
        Message::AutoscrollEnd => true,
        Message::ToggleSettings(_) => true,
        Message::SettingsResizeStarted => true,
        Message::SettingsResizeDragged { .. } => true,
        Message::SettingsResizeReleased => true,
        _ => false,
    }
}

/// Moves the settings panel's grip.
fn drag(app: &mut App, cursor: Point, resized: Size)
    requires
        old(app).wf(),
    ensures
        final(app).wf(),
        *final(app) == dragged(*old(app), cursor, resized),
{
    if let Some(drag) = app.settings_resize_drag {
        if drag.anchor.is_none() {
            app.settings_resize_drag =
            Some(ResizeDrag { size_at_start: drag.size_at_start, anchor: Some(cursor) });
        } else {
            app.settings_panel_size = resized;
        }
    }
}

/// Takes a message from the window in.
fn update_window(app: &mut App, message: Message) -> (r: Vec<Task>)
    requires
        old(app).wf(),
        from_window(message),
    ensures
        final(app).wf(),
        window_updated(*old(app), *final(app), message, r@),
{
    match message {
        Message::CloseZoom => {
            app.zoomed_image = None;
            tasks::nothing()
        },
        Message::EscapePressed => {
            touch_timeline(&mut app.timeline, Message::EscapePressed);
            app.zoomed_image = None;
            tasks::nothing()
        },
        Message::InlineVideoOpened(result) => {
            let failed = result.is_some();
            touch_timeline(&mut app.timeline, Message::InlineVideoOpened(result));
            if failed {
                tasks::one(Task::ClosePlayer)
            } else {
                tasks::nothing()
            }
        },
        Message::ReclaimAppFocus => tasks::one(Task::ReclaimFocus),
        Message::CursorMoved(position) => {
            app.cursor_position = position;
            tasks::nothing()
        },
        Message::AutoscrollTick => match app.timeline.autoscroll {
            Some(origin) => tasks::one(
                Task::AutoscrollStep { origin, cursor: app.cursor_position },
            ),
            None => tasks::nothing(),
        },
        Message::ToggleSettings(autostart) => {
            if !app.show_settings {
                app.settings.general = general::State::new(autostart);
            }
            app.show_settings = !app.show_settings;
            tasks::nothing()
        },
        Message::SettingsResizeStarted => {
            app.settings_resize_drag =
            Some(ResizeDrag { size_at_start: app.settings_panel_size, anchor: None });
            tasks::nothing()
        },
        Message::SettingsResizeDragged { cursor, resized } => {
            drag(app, cursor, resized);
            tasks::nothing()
        },
        Message::SettingsResizeReleased => {
            app.settings_resize_drag = None;
            tasks::nothing()
        },
        other => {
            touch_timeline(&mut app.timeline, other);
            tasks::nothing()
        },
    }
}

// ---------------------------------------------------------------------------
// All inputs.
// ---------------------------------------------------------------------------
/// Whether a message is about images and previews.
pub open spec fn about_images(message: Message) -> bool {
    match message {
        Message::EmojiWanted(_) => true,
        Message::EmojiSvgFetched(_, _) => true,
        Message::GifDecoded(_) => true,
        Message::WebImageFetched(_, _) => true,
        Message::TweetFetched(_, _) => true,
        Message::SteamFetched(_, _) => true,
        _ => false,
    }
}

/// What a message about images and previews leaves, and what it asks for.
pub open spec fn images_updated(before: App, after: App, message: Message, r: Seq<Task>) -> bool {
    match message {
        Message::EmojiWanted(emojis) => effects::emoji_wanted(
            before,
            after,
            text::views(emojis@),
            r,
        ),
        Message::TweetFetched(url, result) => tweet_heard(before, after, url, result, r),
        Message::SteamFetched(url, result) => app_heard(before, after, url, result, r),
        _ => {
            &&& image_heard(before.media, after.media, message)
            &&& after == (App { media: after.media, ..before })
            &&& r.len() == 0
        },
    }
}

/// Reading what is meant for the room on screen, where there is one.
pub open spec fn reads(app: App, message: Message) -> Seq<Task> {
    match app.timeline.room_id {
        Some(room_id) => if !room_shows(app) {
            Seq::empty()
        } else {
            match message {
                Message::PasteClipboard => seq![Task::ReadClipboard { room_id }],
                Message::FileDropped(path) => seq![Task::ReadDropped { room_id, path }],
                _ => Seq::empty(),
            }
        },
        None => Seq::empty(),
    }
}

/// What files that were read for a room leave.
pub open spec fn attachments_taken(
    before: App,
    after: App,
    room_id: String,
    files: Seq<(String, Vec<u8>)>,
    failed: usize,
    r: Seq<Task>,
) -> bool {
    let open = timeline::is_this(before.timeline.room_id, room_id@);
    &&& files_taken(
        before.timeline.composer,
        after.timeline.composer,
        open,
        files,
        failed,
    )
    &&& after.timeline == (timeline::State {
        composer: after.timeline.composer,
        ..before.timeline
    })
    &&& after == (App { timeline: after.timeline, ..before })
    &&& r == if open && files.len() > 0 {
        seq![Task::FocusComposer]
    } else {
        Seq::empty()
    }
}

/// What an input leaves, and what it asks for.
pub open spec fn input_taken(
    before: App,
    after: App,
    message: Message,
    id: RequestId,
    r: Seq<Task>,
) -> bool {
    if from_window(message) {
        window_updated(before, after, message, r)
    } else if about_images(message) {
        images_updated(before, after, message, r)
    } else {
        match message {
            Message::PasteClipboard => after == before && r == reads(before, message),
            Message::FileDropped(_) => after == before && r == reads(before, message),
            Message::AttachmentsReadFor { room_id, files, failed } => attachments_taken(
                before,
                after,
                room_id,
                files@,
                failed,
                r,
            ),
            Message::DownloadZoomedImage => download_asked(before, after, id, r),
            Message::InlineVideoBounds(found) => stage_probed(before, after, found, r),
            _ => false,
        }
    }
}

/// Takes a message about images and previews in.
fn update_images(app: &mut App, message: Message) -> (r: Vec<Task>)
    requires
        old(app).wf(),
        about_images(message),
    ensures
        final(app).wf(),
        images_updated(*old(app), *final(app), message, r@),
{
    match message {
        Message::EmojiWanted(emojis) => effects::want_emoji(app, emojis),
        Message::TweetFetched(url, result) => hear_tweet(app, url, result),
        Message::SteamFetched(url, result) => hear_app(app, url, result),
        other => {
            hear_image(&mut app.media, other);
            tasks::nothing()
        },
    }
}

/// Whether a message is about images and previews.
fn is_about_images(message: &Message) -> (r: bool)
    ensures
        r == about_images(*message),
{
    match message {
        Message::EmojiWanted(_) => true,
        Message::EmojiSvgFetched(_, _) => true,
        Message::GifDecoded(_) => true,
        Message::WebImageFetched(_, _) => true,
        Message::TweetFetched(_, _) => true,
        Message::SteamFetched(_, _) => true,
        _ => false,
    }
}

/// Takes files in that were read for a room; says whether it is the open one.
fn attach(
    t: &mut timeline::State,
    room_id: String,
    files: Vec<(String, Vec<u8>)>,
    failed: usize,
) -> (open: bool)
    requires
        old(t).wf(),
    ensures
        final(t).wf(),
        open == timeline::is_this(old(t).room_id, room_id@),
        files_taken(old(t).composer, final(t).composer, open, files@, failed),
        *final(t) == (timeline::State { composer: final(t).composer, ..*old(t) }),
{
    let open = timeline::opt_is(&t.room_id, room_id.as_str());
    take_files(&mut t.composer, open, files, failed);
    open
}

/// Takes files in that were read for a room.
fn take_attachments(
    app: &mut App,
    room_id: String,
    files: Vec<(String, Vec<u8>)>,
    failed: usize,
) -> (r: Vec<Task>)
    requires
        old(app).wf(),
    ensures
        final(app).wf(),
        attachments_taken(*old(app), *final(app), room_id, files@, failed, r@),
{
    let some = files.len() > 0;
    let open = attach(&mut app.timeline, room_id, files, failed);
    if open && some {
        tasks::one(Task::FocusComposer)
    } else {
        tasks::nothing()
    }
}

/// Takes an input in.
pub fn take_input(app: &mut App, message: Message, id: RequestId) -> (r: Vec<Task>)
    requires
        old(app).wf(),
        concerns_inputs(message),
    ensures
        final(app).wf(),
        input_taken(*old(app), *final(app), message, id, r@),
{
    if is_about_images(&message) {
        return update_images(app, message);
    }
    match message {
        Message::PasteClipboard => match shown_room(app) {
            Some(room_id) => tasks::one(Task::ReadClipboard { room_id }),
            None => tasks::nothing(),
        },
        Message::FileDropped(path) => match shown_room(app) {
            Some(room_id) => tasks::one(Task::ReadDropped { room_id, path }),
            None => tasks::nothing(),
        },
        Message::AttachmentsReadFor { room_id, files, failed } => take_attachments(
            app,
            room_id,
            files,
            failed,
        ),
        Message::DownloadZoomedImage => ask_download(app, id),
        Message::InlineVideoBounds(found) => probe_stage(app, found),
        other => update_window(app, other),
    }
}

// ---------------------------------------------------------------------------
// Laws.
// ---------------------------------------------------------------------------
/// What is pasted or dropped never goes to a room that is not on screen.
pub proof fn law_nothing_is_attached_unseen(
    before: App,
    after: App,
    message: Message,
    id: RequestId,
    r: Seq<Task>,
)
    requires
        input_taken(before, after, message, id, r),
        message is PasteClipboard || message is FileDropped,
        !room_shows(before),
    ensures
        r.len() == 0,
        after == before,
{
}

/// Files that were read for a room that is no longer open are staged nowhere.
pub proof fn law_files_stay_with_their_room(
    before: composer::State,
    after: composer::State,
    files: Seq<(String, Vec<u8>)>,
    failed: usize,
)
    requires
        files_taken(before, after, false, files, failed),
    ensures
        after.staged_attachments == before.staged_attachments,
        after.body == before.body,
{
}

/// Opening the settings reads the tab's state anew; closing them changes
/// nothing of it.
pub proof fn law_settings_open_afresh(before: App, after: App, autostart: bool, r: Seq<Task>)
    requires
        window_updated(before, after, Message::ToggleSettings(autostart), r),
    ensures
        after.show_settings == !before.show_settings,
        after.show_settings ==> after.settings.general.autostart_enabled == autostart
            && !after.settings.general.confirm_logout,
        !after.show_settings ==> after.settings == before.settings,
        after.settings.appearance == before.settings.appearance,
{
}

} // verus!
