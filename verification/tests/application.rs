//! The application as a whole: messages in, tasks out.

use thornychat_ui::commands::ClientCommand;
use thornychat_ui::events::{
    CustomEmoji, EmojiPack, NotificationMode, RoomMember, RoomSummary, SyncState, TimelineItem,
    TimelineItemContent, UrlPreview,
};
use thornychat_ui::media::MediaKind;
use thornychat_ui::screens::settings::connectors::ConnectorsConfig;
use thornychat_ui::screens::settings::encryption::EncryptionConfig;
use thornychat_ui::screens::settings::general::{ChatConfig, Configs, LogConfig, WindowConfig};
use thornychat_ui::screens::settings::privacy::PrivacyConfig;
use thornychat_ui::screens::settings::Edited;
use thornychat_ui::screens::timeline::composer;
use thornychat_ui::screens::timeline::composer::{set_body, Point};
use thornychat_ui::screens::{dm_search, login, room_list, settings, space_explorer, timeline};
use thornychat_ui::spellcheck::SpellError;
use thornychat_ui::spellcheck_config::SpellcheckConfig;
use thornychat_ui::state::{load_last_room, App, Loaded, Route};
use thornychat_ui::string_map::StringMap;
use thornychat_ui::subscriptions::subscription;
use thornychat_ui::theme_config::ThemeConfig;
use thornychat_ui::update::tasks::{ClientEvent, Message, Task};
use thornychat_ui::update::{update, update_with};

fn edited() -> Edited {
    Edited {
        theme: ThemeConfig::default(),
        privacy: PrivacyConfig {
            send_read_receipts: false,
            send_typing_notifications: true,
            enable_link_previews: true,
        },
        encryption: EncryptionConfig::default(),
        configs: Configs {
            spellcheck: SpellcheckConfig { enabled: false, autocorrect: false },
            chat: ChatConfig { show_membership_events: true },
            window: WindowConfig { prefer_integrated_gpu: false, prefer_dx12_backend: false },
            log: LogConfig { level: 2 },
        },
    }
}

fn fresh(last_room: Option<&str>) -> App {
    App::new(
        "default".to_string(),
        Loaded {
            edited: edited(),
            autostart_enabled: false,
            emoji_usage: StringMap::new(),
            sticker_collection: vec![],
            last_room: last_room.map(|r| r.to_string()),
        },
    )
}

fn no_error(_: &str) -> Option<SpellError> {
    None
}

fn no_guess(_: &str) -> Vec<String> {
    vec![]
}

fn say(app: &mut App, message: Message, id: u128) -> Vec<Task> {
    update_with(app, message, id, &no_error, &no_guess)
}

fn client(app: &mut App, event: ClientEvent) -> Vec<Task> {
    say(app, Message::Client(event), 77)
}

fn commands(tasks: Vec<Task>) -> Vec<ClientCommand> {
    tasks
        .into_iter()
        .filter_map(|t| match t {
            Task::Send(command) => Some(command),
            _ => None,
        })
        .collect()
}

fn room(id: &str) -> RoomSummary {
    RoomSummary {
        room_id: id.to_string(),
        name: format!("name of {id}"),
        is_space: false,
        is_dm: false,
        is_encrypted: false,
        topic: None,
        avatar_url: None,
        unread_count: 0,
    }
}

fn item(id: &str, sender: &str, content: TimelineItemContent) -> TimelineItem {
    TimelineItem {
        event_id: Some(id.to_string()),
        sender: sender.to_string(),
        sender_display_name: None,
        sender_avatar_url: None,
        timestamp_ms: 0,
        content,
        in_reply_to: None,
        reactions: vec![],
        read_by: vec![],
        thread_reply_count: None,
        shield: None,
        send_failed: None,
    }
}

fn text(id: &str, body: &str) -> TimelineItem {
    item(id, "@bob:x", TimelineItemContent::Text(body.to_string()))
}

/// An application that is signed in, connected, and has a room open.
fn open() -> App {
    let mut app = fresh(None);
    say(&mut app, Message::LoginResult(Ok(Some("@me:x".to_string()))), 1);
    say(&mut app, Message::WorkerStarted, 2);
    client(&mut app, ClientEvent::RoomListUpdated(vec![room("!a"), room("!b")]));
    click(&mut app, "!a");
    app
}

fn click(app: &mut App, room_id: &str) -> Vec<Task> {
    say(app, Message::RoomList(room_list::Message::RoomClicked(room_id.to_string())), 3)
}

#[test]
fn signing_in_leads_to_the_rooms() {
    let mut app = fresh(None);
    assert!(matches!(app.route, Route::Login));
    say(&mut app, Message::LoginResult(Err("denied".to_string())), 1);
    assert!(matches!(app.route, Route::Login));
    assert!(login::status_text(&app.login.status).contains("denied"));
    say(&mut app, Message::LoginResult(Ok(Some("@me:x".to_string()))), 2);
    assert!(matches!(app.route, Route::Main));
    assert_eq!(app.own_user_id, Some("@me:x".to_string()));
    assert!(app.signed_in);
}

#[test]
fn nothing_is_sent_without_a_connection() {
    let mut app = fresh(None);
    say(&mut app, Message::LoginResult(Ok(None)), 1);
    assert!(commands(click(&mut app, "!a")).is_empty());
}

#[test]
fn opening_a_room_closes_the_other_one() {
    let mut app = open();
    assert_eq!(app.timeline.room_id, Some("!a".to_string()));
    set_body(&mut app.timeline.composer, "draft".to_string(), None);
    let sent = commands(click(&mut app, "!b"));
    assert!(sent
        .iter()
        .any(|c| matches!(c, ClientCommand::CloseRoom { room_id } if room_id == "!a")));
    assert!(sent
        .iter()
        .any(|c| matches!(c, ClientCommand::OpenRoom { room_id } if room_id == "!b")));
    assert_eq!(app.timeline.room_id, Some("!b".to_string()));
    // What was typed stays with its room.
    assert_eq!(app.timeline.composer.body, "");
    // Clicking the open room again changes nothing.
    assert!(commands(click(&mut app, "!b")).is_empty());
}

#[test]
fn the_last_room_is_reopened_once() {
    assert_eq!(load_last_room(&Some(" !b \n".to_string())), Some("!b".to_string()));
    assert_eq!(load_last_room(&Some("  ".to_string())), None);
    assert_eq!(load_last_room(&None), None);
    let mut app = fresh(Some("!b"));
    say(&mut app, Message::LoginResult(Ok(None)), 1);
    say(&mut app, Message::WorkerStarted, 2);
    client(&mut app, ClientEvent::RoomListUpdated(vec![room("!a"), room("!b")]));
    assert_eq!(app.timeline.room_id, Some("!b".to_string()));
    assert_eq!(app.pending_restore_room, None);
}

#[test]
fn a_message_goes_out_and_its_answer_clears_the_draft() {
    let mut app = open();
    set_body(&mut app.timeline.composer, "hello".to_string(), None);
    let send = || Message::Timeline(timeline::Message::Composer(composer::Message::Send));
    let sent = commands(say(&mut app, send(), 41));
    assert!(matches!(
        &sent[0],
        ClientCommand::SendMessage { room_id, body, request_id: 41, .. }
            if room_id == "!a" && body == "hello"
    ));
    client(&mut app, ClientEvent::CommandFailed { request_id: 5, error: "stray".to_string() });
    assert_eq!(app.timeline.composer.pending_request, Some(41));
    client(&mut app, ClientEvent::CommandFailed { request_id: 41, error: "offline".to_string() });
    assert_eq!(app.timeline.composer.body, "hello");
    assert_eq!(app.timeline.composer.error, Some("offline".to_string()));
    say(&mut app, send(), 42);
    client(&mut app, ClientEvent::CommandSucceeded { request_id: 42 });
    assert_eq!(app.timeline.composer.body, "");
    assert_eq!(app.timeline.composer.pending_request, None);
}

#[test]
fn fresh_requests_get_fresh_ids() {
    let mut app = open();
    let mut ids = vec![];
    for n in 0..4 {
        set_body(&mut app.timeline.composer, format!("hello {n}"), None);
        let message = Message::Timeline(timeline::Message::Composer(composer::Message::Send));
        for command in commands(update(&mut app, message, &no_error, &no_guess)) {
            if let ClientCommand::SendMessage { request_id, .. } = command {
                ids.push(request_id);
            }
        }
        let id = app.timeline.composer.pending_request.unwrap();
        client(&mut app, ClientEvent::CommandSucceeded { request_id: id });
    }
    assert_eq!(ids.len(), 4);
    for i in 0..4 {
        // A random identifier carries its version.
        assert_eq!((ids[i] >> 76) & 0xf, 4);
        for j in 0..i {
            assert_ne!(ids[i], ids[j]);
        }
    }
}

#[test]
fn files_go_out_one_by_one() {
    let mut app = open();
    let files = vec![("a.txt".to_string(), vec![1]), ("b.txt".to_string(), vec![2])];
    say(
        &mut app,
        Message::AttachmentsReadFor { room_id: "!a".to_string(), files, failed: 0 },
        1,
    );
    set_body(&mut app.timeline.composer, "caption".to_string(), None);
    let send = Message::Timeline(timeline::Message::Composer(composer::Message::Send));
    let sent = commands(say(&mut app, send, 10));
    assert!(matches!(
        &sent[0],
        ClientCommand::SendAttachment { filename, mime, caption: Some(c), request_id: 10, .. }
            if filename == "a.txt" && mime == "text/plain" && c == "caption"
    ));
    let sent = commands(client(&mut app, ClientEvent::CommandSucceeded { request_id: 10 }));
    assert!(matches!(
        &sent[0],
        ClientCommand::SendAttachment { filename, caption: None, .. } if filename == "b.txt"
    ));
    let second = app.timeline.composer.pending_attachment_request.unwrap();
    client(
        &mut app,
        ClientEvent::CommandFailed { request_id: second, error: "too big".to_string() },
    );
    assert_eq!(app.timeline.composer.staged_attachments.len(), 1);
    assert_eq!(app.timeline.composer.staged_attachments[0].filename, "b.txt");
    assert_eq!(app.timeline.composer.error, Some("too big".to_string()));
}

#[test]
fn files_for_another_room_are_not_staged() {
    let mut app = open();
    let files = vec![("a.txt".to_string(), vec![1])];
    say(
        &mut app,
        Message::AttachmentsReadFor { room_id: "!b".to_string(), files, failed: 0 },
        1,
    );
    assert!(app.timeline.composer.staged_attachments.is_empty());
}

#[test]
fn typing_is_told_only_where_it_is_allowed() {
    let mut app = open();
    let typed = |app: &mut App| {
        let content = timeline::editor::Content {
            lines: vec![timeline::editor::Line {
                text: "h".to_string(),
                ending: timeline::editor::LineEnding::Bare,
            }],
            cursor: timeline::editor::Position { line: 0, column: 1 },
        };
        let action =
            timeline::editor::Action::Edit(timeline::editor::Edit::Insert('h'));
        let message = composer::Message::Action(action, content);
        commands(say(app, Message::Timeline(timeline::Message::Composer(message)), 1))
    };
    assert!(matches!(&typed(&mut app)[..], [ClientCommand::SetTyping { typing: true, .. }]));
    app.edited.privacy.send_typing_notifications = false;
    assert!(typed(&mut app).is_empty());
}

#[test]
fn a_snapshot_shows_only_in_its_room_and_is_read_at_the_bottom() {
    let mut app = open();
    let update = |room_id: &str, items: Vec<TimelineItem>| ClientEvent::TimelineUpdated {
        room_id: room_id.to_string(),
        items,
    };
    assert!(client(&mut app, update("!b", vec![text("$1", "hi")])).is_empty());
    assert!(app.timeline.items.is_empty());
    let tasks =
        client(&mut app, update("!a", vec![text("$1", "see https://example.org/page")]));
    assert_eq!(app.timeline.items.len(), 1);
    assert_eq!(app.timeline.first_urls, vec![Some("https://example.org/page".to_string())]);
    let sent = commands(tasks);
    assert!(sent.iter().any(|c| matches!(c,
        ClientCommand::MarkRoomRead { room_id, public_receipt: false } if room_id == "!a")));
    assert!(sent.iter().any(|c| matches!(c,
        ClientCommand::FetchUrlPreview { url } if url == "https://example.org/page")));
    // The same link is not asked about twice.
    let again =
        commands(client(&mut app, update("!a", vec![text("$1", "see https://example.org/page")])));
    assert!(!again.iter().any(|c| matches!(c, ClientCommand::FetchUrlPreview { .. })));
}

#[test]
fn links_are_not_looked_up_where_previews_are_off() {
    let mut app = open();
    app.edited.privacy.enable_link_previews = false;
    let items = vec![text("$1", "https://example.org https://x.com/a/status/1")];
    let tasks =
        client(&mut app, ClientEvent::TimelineUpdated { room_id: "!a".to_string(), items });
    assert!(!tasks.iter().any(|t| matches!(t, Task::FetchTweet { .. })));
    assert!(!commands(tasks).iter().any(|c| matches!(c, ClientCommand::FetchUrlPreview { .. })));
}

#[test]
fn a_post_that_cannot_be_had_falls_back_to_its_page() {
    let mut app = open();
    let url = "https://x.com/a/status/1";
    let items = vec![text("$1", url)];
    let tasks =
        client(&mut app, ClientEvent::TimelineUpdated { room_id: "!a".to_string(), items });
    assert!(tasks.iter().any(|t| matches!(t, Task::FetchTweet { url: u, api_url }
        if u == url && api_url == "https://api.fxtwitter.com/status/1")));
    let failed = Message::TweetFetched(url.to_string(), Err("gone".to_string()));
    let sent = commands(say(&mut app, failed, 1));
    assert!(sent.iter().any(|c| matches!(c, ClientCommand::FetchUrlPreview { url: u } if u == url)));
    let preview = UrlPreview {
        url: url.to_string(),
        title: Some("T".to_string()),
        description: None,
        site_name: None,
        image_mxc: None,
        image_width: None,
        image_height: None,
    };
    client(&mut app, ClientEvent::UrlPreviewFetched(preview));
    assert!(app.previews.links.get(url).unwrap().is_some());
}

#[test]
fn media_is_asked_for_once_and_failures_are_remembered() {
    let mut app = open();
    let image = || {
        item(
            "$1",
            "@bob:x",
            TimelineItemContent::Image {
                url: "mxc://x/1".to_string(),
                caption: None,
                width: None,
                height: None,
            },
        )
    };
    let update = |items| ClientEvent::TimelineUpdated { room_id: "!a".to_string(), items };
    let asked: Vec<u128> = commands(client(&mut app, update(vec![image()])))
        .into_iter()
        .filter_map(|c| match c {
            ClientCommand::FetchMedia { mxc_url, request_id } if mxc_url == "mxc://x/1" => {
                Some(request_id)
            },
            _ => None,
        })
        .collect();
    assert_eq!(asked.len(), 1);
    let again = commands(client(&mut app, update(vec![image()])));
    assert!(!again.iter().any(|c| matches!(c, ClientCommand::FetchMedia { .. })));
    client(&mut app, ClientEvent::MediaFetchFailed { request_id: asked[0] });
    assert!(app.media.failed.contains("mxc://x/1"));
    let again = commands(client(&mut app, update(vec![image()])));
    assert!(!again.iter().any(|c| matches!(c, ClientCommand::FetchMedia { .. })));
}

#[test]
fn an_image_is_shown_when_it_arrives() {
    let mut app = open();
    let packs = vec![EmojiPack {
        name: "p".to_string(),
        emojis: vec![CustomEmoji {
            shortcode: "wave".to_string(),
            mxc_url: "mxc://x/wave".to_string(),
        }],
    }];
    let sent = commands(client(&mut app, ClientEvent::CustomEmojiPacksUpdated(packs)));
    let id = match &sent[..] {
        [ClientCommand::FetchMedia { request_id, .. }] => *request_id,
        other => panic!("{:?}", other),
    };
    assert_eq!(app.emoji_shortcode_index.get("wave").unwrap().mxc_url, "mxc://x/wave");
    let tasks = client(
        &mut app,
        ClientEvent::MediaFetched {
            request_id: id,
            kind: MediaKind::Raster,
            extension: "png".to_string(),
            bytes: vec![1, 2],
        },
    );
    assert!(matches!(&tasks[..], [Task::ShowMedia { url, bytes, .. }]
        if url == "mxc://x/wave" && bytes == &vec![1, 2]));
    assert!(app.media.cached.contains("mxc://x/wave"));
}

#[test]
fn stickers_are_collected_newest_first_and_once() {
    let mut app = open();
    let sticker = |id: &str, url: &str| {
        item(
            id,
            "@bob:x",
            TimelineItemContent::Sticker {
                url: url.to_string(),
                body: "s".to_string(),
                width: None,
                height: None,
            },
        )
    };
    let items = vec![sticker("$1", "mxc://a"), sticker("$2", "mxc://b"), sticker("$3", "mxc://a")];
    let tasks =
        client(&mut app, ClientEvent::TimelineUpdated { room_id: "!a".to_string(), items });
    assert!(tasks.iter().any(|t| matches!(t, Task::SaveStickers)));
    let urls: Vec<&str> = app.sticker_collection.iter().map(|s| s.url.as_str()).collect();
    assert_eq!(urls, vec!["mxc://b", "mxc://a"]);
}

#[test]
fn members_are_listed_in_order() {
    let mut app = open();
    let member = |id: &str, name: &str| RoomMember {
        user_id: id.to_string(),
        display_name: name.to_string(),
        avatar_url: None,
        power_level: 0,
    };
    client(
        &mut app,
        ClientEvent::RoomMembersUpdated {
            room_id: "!a".to_string(),
            members: vec![member("@b", "Bob"), member("@a", "ann")],
        },
    );
    let names: Vec<&str> = app
        .timeline
        .composer
        .member_candidates
        .iter()
        .map(|m| m.display_name.as_str())
        .collect();
    assert_eq!(names, vec!["ann", "Bob"]);
    assert_eq!(app.timeline.composer.member_candidates_lower, vec!["ann", "bob"]);
}

#[test]
fn leaving_a_room_forgets_it() {
    let mut app = open();
    say(&mut app, Message::RoomList(room_list::Message::RoomRightClicked("!a".to_string())), 1);
    assert!(app.pending_room_action.is_some());
    let tasks = say(&mut app, Message::ConfirmLeaveRoom("!a".to_string()), 9);
    assert!(app.pending_room_action.is_none());
    assert_eq!(app.timeline.room_id, None);
    assert!(tasks.iter().any(|t| matches!(t, Task::ClearLastRoom)));
    assert!(commands(tasks).iter().any(|c| matches!(c,
        ClientCommand::LeaveRoom { room_id, request_id: 9 } if room_id == "!a")));
}

#[test]
fn a_blank_name_is_not_sent() {
    let mut app = open();
    let ask = |app: &mut App, draft: &str| {
        say(app, Message::RoomList(room_list::Message::RoomRightClicked("!a".to_string())), 1);
        say(app, Message::RoomRenameDraftChanged(draft.to_string()), 2);
        commands(say(app, Message::ConfirmRoomRename("!a".to_string()), 3))
    };
    assert!(ask(&mut app, "   ").is_empty());
    let sent = ask(&mut app, " New name ");
    assert!(matches!(&sent[..], [ClientCommand::SetRoomName { name, .. }] if name == "New name"));
}

#[test]
fn signing_out_leaves_nothing_of_the_session() {
    let mut app = open();
    client(
        &mut app,
        ClientEvent::TimelineUpdated { room_id: "!a".to_string(), items: vec![text("$1", "hi")] },
    );
    client(&mut app, ClientEvent::LoggedOut);
    assert!(matches!(app.route, Route::Login));
    assert!(!app.signed_in);
    assert!(app.room_list.rooms.is_empty());
    assert!(app.timeline.items.is_empty());
    assert_eq!(app.own_user_id, None);
}

#[test]
fn escape_closes_what_is_open() {
    let mut app = open();
    say(&mut app, Message::Timeline(timeline::Message::ZoomImage("mxc://x".to_string())), 1);
    assert_eq!(app.zoomed_image, Some("mxc://x".to_string()));
    say(&mut app, Message::EscapePressed, 2);
    assert_eq!(app.zoomed_image, None);
}

#[test]
fn a_zoomed_image_is_downloaded_to_a_file() {
    let mut app = open();
    say(&mut app, Message::Timeline(timeline::Message::ZoomImage("mxc://x".to_string())), 1);
    let sent = commands(say(&mut app, Message::DownloadZoomedImage, 21));
    assert!(matches!(&sent[..],
        [ClientCommand::FetchMedia { mxc_url, request_id: 21 }] if mxc_url == "mxc://x"));
    let tasks = client(
        &mut app,
        ClientEvent::MediaFetched {
            request_id: 21,
            kind: MediaKind::Gif,
            extension: "gif".to_string(),
            bytes: vec![7],
        },
    );
    assert!(matches!(&tasks[..], [Task::SaveDownload { suggested, bytes }]
        if suggested.ends_with(".gif") && bytes == &vec![7]));
}

#[test]
fn settings_open_afresh_and_save() {
    let mut app = open();
    say(&mut app, Message::ToggleSettings(true), 1);
    assert!(app.show_settings);
    assert!(app.settings.general.autostart_enabled);
    let message = settings::Message::Privacy(settings::privacy::Message::ReadReceiptsToggled(true));
    let tasks = say(&mut app, Message::Settings(message), 2);
    assert!(app.edited.privacy.send_read_receipts);
    assert!(tasks
        .iter()
        .any(|t| matches!(t, Task::Settings(settings::Task::SavePrivacy))));
}

#[test]
fn a_space_is_explored() {
    let mut app = open();
    let mut space = room("!s");
    space.is_space = true;
    client(&mut app, ClientEvent::RoomListUpdated(vec![space]));
    let sent = commands(say(
        &mut app,
        Message::RoomList(room_list::Message::SpaceClicked("!s".to_string())),
        31,
    ));
    assert!(matches!(&sent[..],
        [ClientCommand::FetchSpaceHierarchy { space_id, from: None, request_id: 31 }]
            if space_id == "!s"));
    client(
        &mut app,
        ClientEvent::SpaceHierarchyFetched {
            request_id: 31,
            space_id: "!s".to_string(),
            children: vec![],
            next_batch: None,
        },
    );
    let level = &app.space_explorer.as_ref().unwrap().stack[0];
    assert!(matches!(space_explorer::footer(level), space_explorer::Footer::NoRooms));
    say(&mut app, Message::SpaceExplorer(space_explorer::Message::Close), 32);
    assert!(app.space_explorer.is_none());
}

#[test]
fn a_person_is_found_and_written_to() {
    let mut app = open();
    say(&mut app, Message::RoomList(room_list::Message::NewDirectMessageClicked), 1);
    let tasks =
        say(&mut app, Message::DmSearch(dm_search::Message::QueryChanged("ann".to_string())), 2);
    let generation = match &tasks[..] {
        [Task::WaitForTyping(generation)] => *generation,
        other => panic!("{:?}", other),
    };
    let sent =
        commands(say(&mut app, Message::DmSearch(dm_search::Message::Debounced(generation)), 3));
    assert!(matches!(&sent[..],
        [ClientCommand::SearchUsers { query, request_id: 3 }] if query == "ann"));
    let click = dm_search::Message::ResultClicked("@ann:x".to_string());
    let sent = commands(say(&mut app, Message::DmSearch(click), 4));
    assert!(matches!(&sent[..],
        [ClientCommand::OpenDirectMessage { user_id, .. }] if user_id == "@ann:x"));
}

#[test]
fn states_from_the_server_are_taken_over() {
    let mut app = open();
    client(&mut app, ClientEvent::SyncStateChanged(SyncState::Offline));
    assert!(matches!(app.sync_state, SyncState::Offline));
    client(
        &mut app,
        ClientEvent::RoomNotificationModeChanged {
            room_id: "!a".to_string(),
            mode: NotificationMode::Mute,
        },
    );
    assert!(matches!(app.notification_modes.get("!a"), Some(NotificationMode::Mute)));
    client(&mut app, ClientEvent::RoomNotificationModeCleared { room_id: "!a".to_string() });
    assert!(app.notification_modes.get("!a").is_none());
    client(
        &mut app,
        ClientEvent::TypingUpdated {
            room_id: "!a".to_string(),
            user_ids: vec!["@bob:x".to_string()],
        },
    );
    assert_eq!(app.timeline.typing_users, vec!["@bob:x".to_string()]);
}

#[test]
fn the_pointer_is_followed() {
    let mut app = open();
    let at = Point { x: (3.0f32).to_bits(), y: (4.0f32).to_bits() };
    say(&mut app, Message::CursorMoved(at), 1);
    assert_eq!(app.cursor_position, at);
}

#[test]
fn what_is_listened_to_follows_the_state() {
    let app = fresh(None);
    let mut config = ConnectorsConfig {
        steam_enabled: false,
        gog_enabled: false,
        epic_enabled: false,
        announce_stop: false,
        poll_interval_secs: 1,
    };
    let quiet = subscription(&app, &config, 15, false, true);
    assert_eq!(quiet.client, None);
    assert_eq!(quiet.connectors, None);
    assert!(!quiet.cursor && !quiet.autoscroll && !quiet.video_focus && !quiet.settings_resize);
    assert!(!quiet.ensure_window);
    config.steam_enabled = true;
    // No faster than allowed.
    assert_eq!(subscription(&app, &config, 15, false, true).connectors, Some(15));
    config.poll_interval_secs = 60;
    assert_eq!(subscription(&app, &config, 15, false, true).connectors, Some(60));
    let app = open();
    let busy = subscription(&app, &config, 15, true, false);
    assert_eq!(busy.client, Some("default".to_string()));
    assert!(busy.cursor && busy.ensure_window);
}
