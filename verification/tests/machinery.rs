//! Media bookkeeping, event subscriptions, scrolling, uploads and the player.

use thornychat_ui::commands::ClientCommand;
use thornychat_ui::events::{EmbedVideo, Reaction, TimelineItem, TimelineItemContent};
use thornychat_ui::media;
use thornychat_ui::media::{Arrival, MediaKind};
use thornychat_ui::previews::{first_links, request_url_previews, Ask, Previews};
use thornychat_ui::screens::settings::manual::command_rows;
use thornychat_ui::screens::timeline::composer;
use thornychat_ui::screens::timeline::composer::Point;
use thornychat_ui::screens::timeline::scroll::{
    anchor_candidates, is_within, nearest_event_id, report, Geometry, Measured, ProbePurpose, Scroll,
};
use thornychat_ui::screens::timeline::upload::{upload_failed, upload_succeeded};
use thornychat_ui::screens::timeline::video::{
    inline_video_bounds, started, VideoStep, INLINE_VIDEO_MISS_LIMIT,
};
use thornychat_ui::screens::timeline::{
    notify_choices, update, Effect, Message, NotifyChoice, Rect, State, Task,
};
use thornychat_ui::slash::commands;
use thornychat_ui::spellcheck::SpellError;
use thornychat_ui::spellcheck_config::SpellcheckConfig;
use thornychat_ui::stickers::{harvest_stickers, CollectedSticker, MAX_COLLECTED_STICKERS};
use thornychat_ui::subscriptions::{
    autoscroll_cancel_events, cursor_events, settings_resize_events, video_focus_events,
    window_events, Button, InputEvent, Key, Signal,
};
use thornychat_ui::update::attachments::{dropped, paste, picked, Pasted, ReadPath};
use thornychat_ui::update::tasks as application;

const OFF: SpellcheckConfig = SpellcheckConfig { enabled: false, autocorrect: false };

fn no_error(_: &str) -> Option<SpellError> {
    None
}

fn no_guess(_: &str) -> Vec<String> {
    vec![]
}

fn say(state: &mut State, message: Message) -> (Task, Effect) {
    update(state, message, &OFF, true, &no_error, &no_guess)
}

fn item(id: &str, content: TimelineItemContent) -> TimelineItem {
    TimelineItem {
        event_id: Some(id.to_string()),
        sender: "@bob:x".to_string(),
        sender_display_name: None,
        sender_avatar_url: None,
        timestamp_ms: 0,
        content,
        in_reply_to: None,
        reactions: vec![],
        read_by: vec![],
        thread_reply_count: None,
        shield: None,
        send_failed: None,
    }
}

fn text(id: &str, body: &str) -> TimelineItem {
    item(id, TimelineItemContent::Text(body.to_string()))
}

fn sticker(id: &str, url: &str) -> TimelineItem {
    item(
        id,
        TimelineItemContent::Sticker {
            url: url.to_string(),
            body: "s".to_string(),
            width: None,
            height: None,
        },
    )
}

// Media.

#[test]
fn media_requests_are_matched_to_their_answers() {
    let mut state = media::State::default();
    let urls = vec!["mxc://a".to_string(), "mxc://b".to_string(), "mxc://a".to_string()];
    assert!(media::ensure_media_fetched(&mut state, false, &urls).is_empty());
    let asked = media::ensure_media_fetched(&mut state, true, &urls);
    let ids: Vec<(String, u128)> = asked
        .into_iter()
        .map(|c| match c {
            ClientCommand::FetchMedia { mxc_url, request_id } => (mxc_url, request_id),
            other => panic!("{:?}", other),
        })
        .collect();
    assert_eq!(ids.iter().map(|p| p.0.as_str()).collect::<Vec<_>>(), vec!["mxc://a", "mxc://b"]);
    assert!(media::ensure_media_fetched(&mut state, true, &urls).is_empty());
    let wrong = ids[0].1 ^ ids[1].1 ^ 1;
    assert!(matches!(media::media_fetched(&mut state, wrong, MediaKind::Svg), Arrival::Nothing));
    assert!(matches!(
        media::media_fetched(&mut state, ids[0].1, MediaKind::Gif),
        Arrival::Decode(url) if url == "mxc://a"
    ));
    media::gif_decoded(&mut state, "mxc://a".to_string());
    assert!(state.cached.contains("mxc://a"));
    media::media_fetch_failed(&mut state, ids[1].1);
    assert!(state.failed.contains("mxc://b"));
    assert!(state.is_known("mxc://b"));
}

#[test]
fn emoji_and_web_images_are_fetched_once() {
    let mut state = media::State::default();
    let wanted = vec!["😀".to_string(), "😀".to_string(), "❤".to_string()];
    assert_eq!(media::ensure_emoji_fetched(&mut state, wanted), vec!["😀", "❤"]);
    assert!(media::ensure_emoji_fetched(&mut state, vec!["😀".to_string()]).is_empty());
    media::emoji_fetched(&mut state, "😀".to_string(), true);
    media::emoji_fetched(&mut state, "❤".to_string(), false);
    assert!(state.is_emoji_known("😀") && state.is_emoji_known("❤"));
    let wanted = vec!["https://a".to_string(), "https://a".to_string()];
    assert_eq!(media::ensure_web_images(&mut state, wanted), vec!["https://a"]);
    media::web_image_fetched(&mut state, "https://a".to_string(), true);
    assert!(state.is_web_image_known("https://a"));
    assert_eq!(media::download_name("png"), "thornychat-image.png");
}

#[test]
fn reaction_keys_that_are_emoji_are_fetched() {
    let state = media::State::default();
    let mut one = text("$1", "hi 😀");
    one.reactions = vec![
        Reaction { key: "👍".to_string(), count: 1, reacted_by_me: false, senders: vec![] },
        Reaction { key: "mxc://x".to_string(), count: 1, reacted_by_me: false, senders: vec![] },
    ];
    let items = vec![one];
    assert_eq!(media::unicode_reaction_keys(&items, &vec![], &state), vec!["👍"]);
    assert_eq!(media::unicode_body_emojis(&items, &state), vec!["😀"]);
}

#[test]
fn the_sticker_collection_is_bounded_and_newest_first() {
    let mut collection: Vec<CollectedSticker> = vec![];
    let items: Vec<TimelineItem> =
        (0..MAX_COLLECTED_STICKERS + 5).map(|i| sticker("$", &format!("mxc://{i}"))).collect();
    assert!(harvest_stickers(&mut collection, &items));
    assert_eq!(collection.len(), MAX_COLLECTED_STICKERS);
    assert_eq!(collection[0].url, format!("mxc://{}", MAX_COLLECTED_STICKERS + 4));
    let kept: Vec<String> = collection.iter().map(|s| s.url.clone()).collect();
    let newest = vec![sticker("$", &kept[0])];
    assert!(!harvest_stickers(&mut collection, &newest));
}

#[test]
fn links_are_sorted_by_what_answers_for_them() {
    let items = vec![
        text("$1", "https://x.com/a/status/5"),
        text("$2", "https://s.team/a/620"),
        text("$3", "nothing"),
        text("$4", "https://example.org"),
    ];
    let links = first_links(&items);
    assert_eq!(links[2], None);
    let mut previews = Previews::new();
    assert!(request_url_previews(&mut previews, &links, false).is_empty());
    let asks = request_url_previews(&mut previews, &links, true);
    assert!(matches!(&asks[0], Ask::Tweet { .. }));
    assert!(matches!(&asks[1], Ask::Steam { .. }));
    assert!(matches!(&asks[2], Ask::Link { url } if url == "https://example.org"));
    assert!(request_url_previews(&mut previews, &links, true).is_empty());
}

// Events.

#[test]
fn input_events_become_signals() {
    let at = Point { x: 1, y: 2 };
    assert!(matches!(cursor_events(&InputEvent::CursorMoved(at)), Some(Signal::CursorMoved(p)) if p == at));
    assert!(cursor_events(&InputEvent::Resized).is_none());
    assert!(matches!(
        window_events(&InputEvent::FileDropped("a.txt".to_string())),
        Some(Signal::FileDropped(path)) if path == "a.txt"
    ));
    let key = |key: Key, command: bool| InputEvent::KeyPressed { key, command, alt: false };
    assert!(matches!(window_events(&key(Key::Escape, false)), Some(Signal::EscapePressed)));
    assert!(matches!(
        window_events(&key(Key::Character("v".to_string()), true)),
        Some(Signal::PasteClipboard)
    ));
    assert!(window_events(&key(Key::Character("v".to_string()), false)).is_none());
    assert!(matches!(
        settings_resize_events(&InputEvent::ButtonReleased(Button::Left)),
        Some(Signal::SettingsResizeReleased)
    ));
    assert!(autoscroll_cancel_events(&InputEvent::WheelScrolled).is_some());
    assert!(autoscroll_cancel_events(&InputEvent::CursorMoved(at)).is_none());
    assert!(video_focus_events(&InputEvent::ButtonPressed(Button::Left)).is_some());
}

// Scrolling.

fn geometry() -> Geometry {
    Geometry {
        content_height: 0,
        from_bottom: 0,
        bounds_height: 0,
        viewport_top: 0,
        viewport_center: 0,
    }
}

fn scroll(user_scrolled: bool, at_bottom: bool, now: u64) -> Scroll {
    Scroll {
        geometry: geometry(),
        reflowed: false,
        user_scrolled,
        moved_toward_bottom: false,
        at_bottom,
        near_edge: false,
        gap: false,
        near_top: false,
        fits: false,
        middle: 0,
        now,
    }
}

#[test]
fn a_report_compares_the_distances() {
    let at = |from_bottom: f32| Geometry {
        content_height: (1000.0f32).to_bits(),
        from_bottom: from_bottom.to_bits(),
        bounds_height: (400.0f32).to_bits(),
        viewport_top: 0,
        viewport_center: 0,
    };
    let seen = report(at(30.0), at(24.0), (60.5f32).to_bits(), false, true, 3, 9);
    assert!(seen.at_bottom && seen.near_edge && seen.gap && seen.moved_toward_bottom);
    assert!(!seen.near_top && !seen.fits);
    assert_eq!((seen.middle, seen.now), (3, 9));
    let seen = report(at(24.0), at(24.5), (60.0f32).to_bits(), true, false, 0, 0);
    assert!(!seen.at_bottom && seen.near_edge && seen.near_top && !seen.moved_toward_bottom);
    assert!(!report(at(0.0), at(150.5), 0, false, true, 0, 0).near_edge);
    assert!(!report(at(0.0), at(0.5), 0, false, true, 0, 0).gap);
}

#[test]
fn the_bottom_follows_every_report() {
    let mut state = State::new();
    state.items = vec![text("$1", "a")];
    say(&mut state, Message::Scrolled(scroll(true, false, 1)));
    assert!(!state.at_bottom);
    say(&mut state, Message::Scrolled(scroll(false, true, 2)));
    assert!(state.at_bottom);
}

#[test]
fn user_input_starts_a_generation_and_stale_probes_are_ignored() {
    let mut state = State::new();
    state.items = vec![text("$1", "a"), text("$2", "b")];
    let before = state.scroll_generation;
    say(&mut state, Message::Scrolled(scroll(true, false, 1)));
    assert_ne!(state.scroll_generation, before);
    let anchor = state.scroll_anchor.is_some();
    let stale = Message::AnchorProbed {
        event_id: "$1".to_string(),
        purpose: ProbePurpose::Refresh,
        generation: before,
        measured: Some(Measured { y: 0, nearer: true, moved: true }),
    };
    let (task, _) = say(&mut state, stale);
    assert!(matches!(task, Task::Nothing));
    assert_eq!(state.scroll_anchor.is_some(), anchor);
    let fresh = Message::AnchorProbed {
        event_id: "$1".to_string(),
        purpose: ProbePurpose::Refresh,
        generation: state.scroll_generation,
        measured: Some(Measured { y: 5, nearer: true, moved: true }),
    };
    say(&mut state, fresh);
    assert_eq!(state.scroll_anchor.as_ref().unwrap().event_id, "$1");
}

#[test]
fn anchors_are_distinct_and_near() {
    let mut no_id = text("$x", "x");
    no_id.event_id = None;
    let items = vec![no_id, text("$1", "a"), text("$2", "b"), text("$3", "c")];
    assert_eq!(nearest_event_id(&items, 0), Some("$1".to_string()));
    let found = anchor_candidates(&items, &Some("$2".to_string()), &None, false, 2);
    let mut sorted = found.clone();
    sorted.sort();
    sorted.dedup();
    assert_eq!(sorted.len(), found.len());
    assert!(found.contains(&"$2".to_string()));
    assert!(is_within(Some(10), 14, 5));
    assert!(!is_within(Some(10), 16, 5));
    assert!(!is_within(None, 5, 100));
}

#[test]
fn editing_a_message() {
    let mut state = State::new();
    let start =
        Message::StartEdit { event_id: "$1".to_string(), current_body: "old".to_string() };
    say(&mut state, start);
    say(&mut state, Message::EditDraftChanged(" new ".to_string()));
    match say(&mut state, Message::ConfirmEdit).1 {
        Effect::Edit { event_id, new_body } => {
            assert_eq!(event_id, "$1");
            assert_eq!(new_body.trim(), "new");
        },
        other => panic!("{:?}", other),
    }
    say(&mut state, Message::CancelEdit);
    assert!(state.editing.is_none());
    say(&mut state, Message::RequestDelete("$1".to_string()));
    assert_eq!(state.confirm_delete, Some("$1".to_string()));
    assert!(matches!(
        say(&mut state, Message::ConfirmDelete("$1".to_string())).1,
        Effect::Redact { event_id } if event_id == "$1"
    ));
    say(&mut state, Message::CancelDelete);
    assert_eq!(state.confirm_delete, None);
}

#[test]
fn a_double_click_on_a_member_opens_a_conversation() {
    let mut state = State::new();
    let click = |state: &mut State, now: u64| {
        say(state, Message::MemberClicked("@bob:x".to_string(), now)).1
    };
    assert!(matches!(click(&mut state, 0), Effect::Nothing));
    assert!(matches!(
        click(&mut state, 100_000_000),
        Effect::OpenDirectMessage(id) if id == "@bob:x"
    ));
    assert!(matches!(click(&mut state, 10_000_000_000), Effect::Nothing));
    assert!(matches!(click(&mut state, 20_000_000_000), Effect::Nothing));
}

#[test]
fn searching_recomputes_the_matches() {
    let mut state = State::new();
    state.items = vec![text("$1", "alpha"), text("$2", "beta")];
    say(&mut state, Message::ToggleSearch);
    say(&mut state, Message::SearchQueryChanged("BET".to_string()));
    assert_eq!(state.search_matches, vec![1]);
    say(&mut state, Message::ToggleSearch);
    assert!(state.search_matches.is_empty());
    assert_eq!(state.search_query, "");
}

#[test]
fn older_messages_are_asked_for_once() {
    let mut state = State::new();
    assert!(matches!(say(&mut state, Message::LoadOlder).1, Effect::PaginateBackwards));
    state.loading_older = true;
    assert!(matches!(say(&mut state, Message::LoadOlder).1, Effect::Nothing));
}

#[test]
fn notify_choices_and_modes_correspond() {
    for choice in notify_choices() {
        assert_eq!(NotifyChoice::from_mode(choice.to_mode()), choice);
        assert!(!choice.label().is_empty());
    }
}

// Uploads.

#[test]
fn a_batch_goes_out_in_order_and_a_failure_keeps_its_file() {
    let mut state = composer::State::default();
    composer::stage(&mut state, "a".to_string(), vec![1], "text/plain".to_string());
    composer::stage(&mut state, "b".to_string(), vec![2], "text/plain".to_string());
    composer::set_body(&mut state, "caption".to_string(), None);
    let (_, effect) =
        composer::update(&mut state, composer::Message::Send, &OFF, &no_error, &no_guess);
    assert!(matches!(effect, composer::Effect::SendAttachment { filename, .. } if filename == "a"));
    let (next, _) = upload_succeeded(&mut state);
    assert_eq!(next.unwrap().filename, "b");
    assert_eq!(state.staged_attachments.len(), 1);
    upload_failed(&mut state, "too big".to_string());
    assert_eq!(state.staged_attachments.len(), 1);
    assert_eq!(state.error, Some("too big".to_string()));
    assert_eq!(state.sending_remaining, 0);
}

#[test]
fn a_failed_caption_comes_back() {
    let mut state = composer::State::default();
    composer::stage(&mut state, "a".to_string(), vec![1], "text/plain".to_string());
    composer::set_body(&mut state, "caption".to_string(), None);
    composer::update(&mut state, composer::Message::Send, &OFF, &no_error, &no_guess);
    assert_eq!(state.body, "");
    upload_failed(&mut state, "offline".to_string());
    assert_eq!(state.body, "caption");
    // A draft that was begun meanwhile is not overwritten.
    composer::update(&mut state, composer::Message::Send, &OFF, &no_error, &no_guess);
    composer::set_body(&mut state, "next".to_string(), None);
    upload_failed(&mut state, "offline".to_string());
    assert_eq!(state.body, "next");
}

// The player.

fn video() -> EmbedVideo {
    EmbedVideo {
        platform: "YouTube".to_string(),
        id: "abc".to_string(),
        file_name: None,
        watch_url: "https://youtu.be/abc".to_string(),
    }
}

#[test]
fn the_player_follows_its_stage_and_rests() {
    let full = Rect { x: 1, y: 2, width: 3, height: 4 };
    let moved = Rect { x: 1, y: 9, width: 3, height: 4 };
    let mut inline = Some(started("$1".to_string(), video(), None));
    // The scale is not known yet: nothing is opened.
    assert!(matches!(
        inline_video_bounds(&mut inline, false, Some((full, Some(full)))),
        VideoStep::Nothing
    ));
    inline.as_mut().unwrap().scale = Some((1.0f32).to_bits());
    assert!(matches!(
        inline_video_bounds(&mut inline, false, Some((full, Some(full)))),
        VideoStep::Open { full: at, visible: Some(part), .. } if at == full && part == full
    ));
    // In place: nothing more to do.
    assert!(matches!(
        inline_video_bounds(&mut inline, false, Some((full, Some(full)))),
        VideoStep::Nothing
    ));
    assert!(matches!(
        inline_video_bounds(&mut inline, false, Some((moved, Some(moved)))),
        VideoStep::Sync { full: at, visible: Some(_), .. } if at == moved
    ));
    // An overlay hides the player.
    assert!(matches!(
        inline_video_bounds(&mut inline, true, Some((moved, Some(moved)))),
        VideoStep::Sync { visible: None, .. }
    ));
    // A stage that is not laid out hides it too, and is looked for again.
    assert!(matches!(
        inline_video_bounds(&mut inline, false, None),
        VideoStep::Reprobe { hide: true }
    ));
}

#[test]
fn a_lost_stage_ends_the_video() {
    let mut inline = Some(started("$1".to_string(), video(), None));
    for _ in 0..INLINE_VIDEO_MISS_LIMIT {
        assert!(matches!(
            inline_video_bounds(&mut inline, false, None),
            VideoStep::Reprobe { hide: false }
        ));
    }
    assert!(matches!(inline_video_bounds(&mut inline, false, None), VideoStep::Close));
    assert!(inline.is_none());
    assert!(matches!(inline_video_bounds(&mut inline, false, None), VideoStep::Nothing));
}

// Attachments and the manual.

#[test]
fn what_was_read_becomes_a_message() {
    let path = |name: Option<&str>, bytes: Option<Vec<u8>>| ReadPath {
        name: name.map(|n| n.to_string()),
        bytes,
    };
    let paths =
        vec![path(Some("a"), Some(vec![1])), path(Some("dir"), None), path(None, Some(vec![2]))];
    match paste("!r".to_string(), Pasted::Files(paths), false) {
        application::Message::AttachmentsReadFor { room_id, files, failed } => {
            assert_eq!(room_id, "!r");
            assert_eq!(files, vec![
                ("a".to_string(), vec![1]),
                ("attachment".to_string(), vec![2]),
            ]);
            assert_eq!(failed, 1);
        },
        other => panic!("{:?}", other),
    }
    assert!(matches!(
        paste("!r".to_string(), Pasted::Files(vec![]), true),
        application::Message::Noop
    ));
    // The editor takes text by itself; the menu cannot lean on that.
    assert!(matches!(
        paste("!r".to_string(), Pasted::Text("hi".to_string()), false),
        application::Message::Noop
    ));
    assert!(matches!(
        paste("!r".to_string(), Pasted::Text("hi".to_string()), true),
        application::Message::Timeline(Message::Composer(composer::Message::InsertText(t)))
            if t == "hi"
    ));
    assert!(matches!(
        dropped("!r".to_string(), path(Some("dir"), None)),
        application::Message::AttachmentsReadFor { files, failed: 1, .. } if files.is_empty()
    ));
    assert!(matches!(picked("!r".to_string(), vec![]), application::Message::Noop));
}

#[test]
fn the_manual_lists_every_command() {
    let rows = command_rows();
    assert_eq!(rows.len(), commands().len());
    let dm = rows.iter().find(|r| r.0 == "/dm").unwrap();
    assert_eq!(
        dm.1,
        "Open or start a direct message. Usage: /dm <@user:server>. (or /msg, /query)."
    );
    let leave = rows.iter().find(|r| r.0 == "/leave").unwrap();
    assert_eq!(leave.1, "Leave the room you're viewing. (or /part).");
}
