//! Message bodies, reactions, embed cards and the rows of the timeline.

use thornychat_ui::events::{
    CustomEmoji, EmbedVideo, EmojiPack, NotificationMode, PowerLevelTag, Reaction, ReplyPreview,
    RoomMember, RoomSummary, SendFailure, SyncState, TimelineItem, TimelineItemContent,
    TrustShield, UrlPreview,
};
use thornychat_ui::previews::Previews;
use thornychat_ui::screens::call;
use thornychat_ui::screens::timeline::body::{
    build_shortcode_index, first_link, first_url_in, render_text_body, resolve_reaction_visual,
    tokenize_line, tokenize_with_links, unicode_emojis_in, Body, BodyLine, ReactionVisual, Segment,
    ShortcodeIndex,
};
use thornychat_ui::screens::timeline::cards::{
    card_for, embed_video_card, preview_card, preview_description, steam_card, strip_trailing_tco,
    tweet_body, tweet_footer, tweet_from_preview, tweet_stats, ui_snippet, CardKind, PreviewCard,
    PriceLine, VideoCard,
};
use thornychat_ui::screens::timeline::members::{
    follower_avatars, member_panel, reaction_senders_label, roster_title, sender_color,
    typing_line,
};
use thornychat_ui::screens::timeline::rows::{
    header, history_control, hover_action_bar, is_own, match_count_label, member_menu_actions,
    render_item, sync_label, thread_label, visible_rows, BodyView, CallButton, Context,
    HistoryControl, Link, Parts, RowView, Tint,
};
use thornychat_ui::screens::timeline::search::{find_matches, item_matches};
use thornychat_ui::screens::timeline::view::{
    view, view_here, Card, ItemFacts, Screen, Surroundings,
};
use thornychat_ui::screens::timeline::{Message, NotifyChoice, State};
use thornychat_ui::steam::{SteamAppData, SteamPlatforms, SteamPrice, SteamReleaseDate};
use thornychat_ui::tweets::{TweetAuthor, TweetData, TweetMedia, TweetPhoto};

fn packs() -> Vec<EmojiPack> {
    let emoji = |code: &str, url: &str| CustomEmoji {
        shortcode: code.to_string(),
        mxc_url: url.to_string(),
    };
    vec![
        EmojiPack { name: "one".to_string(), emojis: vec![emoji("Party", "mxc://one/party")] },
        EmojiPack {
            name: "two".to_string(),
            emojis: vec![emoji("party", "mxc://two/party"), emoji("wave", "mxc://two/wave")],
        },
    ]
}

fn index() -> ShortcodeIndex {
    build_shortcode_index(&packs())
}

/// A readable form of the pieces of a line.
fn shape(segments: &[Segment]) -> Vec<String> {
    segments
        .iter()
        .map(|s| match s {
            Segment::Text(t) => format!("text {t}"),
            Segment::Emoji(e) => format!("emoji {}", e.mxc_url),
            Segment::UnicodeEmoji(e) => format!("unicode {e}"),
            Segment::Link(l) => format!("link {l}"),
        })
        .collect()
}

#[test]
fn links_emoji_and_shortcodes_are_told_apart() {
    let line = "see https://example.org/a now :wave: 👍🏽 ok";
    assert_eq!(
        shape(&tokenize_line(line, &index())),
        vec![
            "text see ",
            "link https://example.org/a",
            "text  now ",
            "emoji mxc://two/wave",
            "text  ",
            "unicode 👍🏽",
            "text  ok",
        ]
    );
}

#[test]
fn links_are_cut_where_they_are_said_to_stand() {
    let line = "ab http://x cd";
    assert_eq!(
        shape(&tokenize_with_links(line, &vec![(3, 11)], &index())),
        vec!["text ab ", "link http://x", "text  cd"]
    );
    assert_eq!(first_link(line, &vec![(3, 11)]), Some("http://x".to_string()));
    assert_eq!(first_link(line, &vec![]), None);
}

#[test]
fn the_first_link_of_a_text() {
    assert_eq!(first_url_in("no link"), None);
    assert_eq!(
        first_url_in("one https://a.example/x, two https://b.example"),
        Some("https://a.example/x".to_string())
    );
}

#[test]
fn unknown_shortcodes_stay_text() {
    let joined: String = tokenize_line("a :nope: b", &index())
        .into_iter()
        .map(|s| match s {
            Segment::Text(t) => t,
            other => panic!("{:?}", other),
        })
        .collect();
    assert_eq!(joined, "a :nope: b");
}

#[test]
fn the_first_pack_with_a_shortcode_wins() {
    let index = index();
    assert_eq!(index.get("party").unwrap().mxc_url, "mxc://one/party");
    assert!(index.get("nothing").is_none());
}

#[test]
fn emoji_of_a_text_are_listed() {
    assert_eq!(unicode_emojis_in("a 😀 b ❤️ c"), vec!["😀", "❤️"]);
    assert_eq!(unicode_emojis_in("plain 1 2 3"), Vec::<String>::new());
}

#[test]
fn a_body_is_plain_emoji_or_lines() {
    assert!(matches!(render_text_body("just text", &index()), Body::Plain(t) if t == "just text"));
    match render_text_body("😀😀", &index()) {
        Body::EmojiRows(rows) => {
            assert_eq!(rows.len(), 1);
            assert_eq!(rows[0].len(), 2);
        },
        other => panic!("{:?}", other),
    }
    match render_text_body("plain\nhi 😀", &index()) {
        Body::Lines(lines) => {
            assert_eq!(lines.len(), 2);
            assert!(matches!(&lines[0], BodyLine::Text(t) if t == "plain"));
            assert!(matches!(&lines[1], BodyLine::Pieces(p) if p.len() == 2));
        },
        other => panic!("{:?}", other),
    }
}

#[test]
fn many_emoji_wrap_into_rows() {
    match render_text_body(&"😀".repeat(13), &index()) {
        Body::EmojiRows(rows) => {
            assert_eq!(rows.iter().map(|r| r.len()).collect::<Vec<_>>(), vec![12, 1]);
        },
        other => panic!("{:?}", other),
    }
}

#[test]
fn a_reaction_shows_as_image_or_glyph() {
    let image = |key: &str| match resolve_reaction_visual(key, &index()) {
        ReactionVisual::Image(url) => Some(url),
        ReactionVisual::Glyph(_) => None,
    };
    assert_eq!(image("mxc://x/y"), Some("mxc://x/y".to_string()));
    assert_eq!(image(":wave:"), Some("mxc://two/wave".to_string()));
    assert_eq!(image("👍"), None);
}

fn item(id: &str, sender: &str, body: &str) -> TimelineItem {
    TimelineItem {
        event_id: Some(id.to_string()),
        sender: sender.to_string(),
        sender_display_name: None,
        sender_avatar_url: None,
        timestamp_ms: 0,
        content: TimelineItemContent::Text(body.to_string()),
        in_reply_to: None,
        reactions: vec![],
        read_by: vec![],
        thread_reply_count: None,
        shield: None,
        send_failed: None,
    }
}

fn member(id: &str, name: &str, level: i64) -> RoomMember {
    RoomMember {
        user_id: id.to_string(),
        display_name: name.to_string(),
        avatar_url: None,
        power_level: level,
    }
}

#[test]
fn a_search_looks_at_text_and_sender() {
    let one = item("$1", "@ann:x", "Hello World");
    assert!(item_matches(&one, "world"));
    assert!(item_matches(&one, "ann"));
    assert!(!item_matches(&one, "bob"));
    let items = vec![one, item("$2", "@bob:x", "bye"), item("$3", "@bob:x", "hello")];
    assert_eq!(find_matches(&items, true, "hello", true), vec![0, 2]);
    assert_eq!(find_matches(&items, true, "HELLO", true), vec![0, 2]);
    assert_eq!(find_matches(&items, false, "hello", true), Vec::<usize>::new());
    assert_eq!(find_matches(&items, true, "", true), Vec::<usize>::new());
}

#[test]
fn rows_group_by_sender_and_hide_what_is_filtered() {
    let mut state = State::new();
    let mut change = item("$3", "@bob:x", "");
    change.content = TimelineItemContent::MembershipChange("bob joined".to_string());
    state.items = vec![
        item("$1", "@ann:x", "a"),
        item("$2", "@ann:x", "b"),
        change,
        item("$4", "@ann:x", "c"),
    ];
    let rows = visible_rows(&state, true);
    assert_eq!(rows.iter().map(|r| r.index).collect::<Vec<_>>(), vec![0, 1, 2, 3]);
    assert!(rows[0].show_header);
    assert!(!rows[1].show_header);
    assert!(rows[3].show_header);
    let rows = visible_rows(&state, false);
    assert_eq!(rows.iter().map(|r| r.index).collect::<Vec<_>>(), vec![0, 1, 3]);
    assert!(!rows[2].show_header);
    state.search_open = true;
    state.search_query = "b".to_string();
    state.search_matches = vec![1];
    let rows = visible_rows(&state, true);
    assert_eq!(rows.iter().map(|r| r.index).collect::<Vec<_>>(), vec![1]);
    assert_eq!(match_count_label(&state), Some("1 match".to_string()));
}

#[test]
fn a_message_row_is_put_together() {
    let own = Some("@me:x".to_string());
    let hovered = Some("$1".to_string());
    let none = None;
    let members = vec![member("@ann:x", "Ann", 0), member("@bob:x", "Bob", 0)];
    let tags: Vec<PowerLevelTag> = vec![];
    let index = index();
    let editing = None;
    let context = Context {
        own_user_id: &own,
        hovered: &hovered,
        editing: &editing,
        confirm_delete: &none,
        highlighted: &hovered,
        highlighted_member: &none,
        members: &members,
        tags: &tags,
        index: &index,
    };
    let mut message = item("$1", "@ann:x", "hi");
    message.reactions = vec![Reaction {
        key: "👍".to_string(),
        count: 2,
        reacted_by_me: true,
        senders: vec!["@bob:x".to_string(), "@me:x".to_string()],
    }];
    message.thread_reply_count = Some(1);
    message.in_reply_to = Some(ReplyPreview {
        event_id: "$0".to_string(),
        sender: "@bob:x".to_string(),
        snippet: "earlier".to_string(),
        image_url: None,
    });
    message.shield = Some(TrustShield::Red("not verified".to_string()));
    match render_item(&message, &None, &None, true, &context) {
        RowView::Message(row) => {
            assert!(row.header);
            assert_eq!(row.color, sender_color(&members, &tags, "@ann:x"));
            assert_eq!(row.shield.unwrap().1, "not verified");
            let quote = row.quote.unwrap();
            assert_eq!(quote.target, "$0");
            assert_eq!(quote.snippet, "earlier");
            match row.parts {
                Parts::Sent { body, parts } => {
                    assert!(matches!(body, BodyView::Text(Body::Plain(t)) if t == "hi"));
                    assert_eq!(parts.event_id, "$1");
                    assert_eq!(parts.pills.len(), 1);
                    assert!(parts.pills[0].mine);
                    assert_eq!(parts.pills[0].count, "2");
                    assert_eq!(parts.replies, Some(thread_label(1)));
                    assert!(parts.actions);
                    assert_eq!(parts.tint, Tint::Jump);
                    assert_eq!(parts.card, CardKind::Nothing);
                },
                other => panic!("{:?}", other),
            }
        },
        other => panic!("{:?}", other),
    }
    // A message that could not be sent offers to try again.
    let mut local = item("$x", "@me:x", "lost");
    local.event_id = None;
    local.send_failed = Some(SendFailure { is_recoverable: true });
    match render_item(&local, &None, &None, false, &context) {
        RowView::Message(row) => {
            assert!(matches!(row.parts, Parts::Local { failed: true, retry: true, .. }));
        },
        other => panic!("{:?}", other),
    }
    let mut divider = item("$d", "", "");
    divider.content = TimelineItemContent::DateDivider("2026-09-04".to_string());
    assert!(matches!(
        render_item(&divider, &Some("Friday".to_string()), &None, false, &context),
        RowView::Date(d) if d == "— Friday —"
    ));
    let preview = preview("https://example.org", Some("T"), None);
    let link = Some(Link { video: None, tweet: None, app: None, preview: Some(&preview) });
    match render_item(&message, &None, &link, true, &context) {
        RowView::Message(row) => match row.parts {
            Parts::Sent { parts, .. } => assert_eq!(parts.card, CardKind::Preview),
            other => panic!("{:?}", other),
        },
        other => panic!("{:?}", other),
    }
}

#[test]
fn own_messages_can_be_edited_and_deleted() {
    let message = item("$1", "@me:x", "hi");
    assert!(is_own(&message, &Some("@me:x".to_string())));
    assert!(!is_own(&message, &None));
    let own: Vec<Message> = hover_action_bar(&message, "$1", "Me", true)
        .into_iter()
        .map(|(_, m)| m)
        .collect();
    assert!(own.iter().any(|m| matches!(m, Message::StartEdit { event_id, current_body }
        if event_id == "$1" && current_body == "hi")));
    assert!(own.iter().any(|m| matches!(m, Message::RequestDelete(id) if id == "$1")));
    let others = hover_action_bar(&message, "$1", "Me", false);
    assert!(!others.iter().any(|(_, m)| matches!(m, Message::StartEdit { .. })));
    assert!(others.iter().any(|(_, m)| matches!(m, Message::StartReply(_))));
}

#[test]
fn a_members_menu_offers_a_conversation() {
    let actions = member_menu_actions(&"@bob:x".to_string(), &None);
    assert!(actions
        .iter()
        .any(|(_, m)| matches!(m, Message::MemberMenuDirectMessage(id) if id == "@bob:x")));
    assert!(actions.iter().any(|(_, m)| matches!(m, Message::MemberMenuHighlight(_))));
}

#[test]
fn who_is_typing_is_named() {
    let members = vec![member("@ann:x", "Ann", 0)];
    assert_eq!(typing_line(&vec![], &members), None);
    let one = typing_line(&vec!["@ann:x".to_string()], &members).unwrap();
    assert!(one.contains("Ann"), "{one}");
    let two = typing_line(&vec!["@ann:x".to_string(), "@bob:x".to_string()], &members).unwrap();
    assert!(two.contains("Ann") && two.contains("bob"), "{two}");
}

#[test]
fn a_long_list_of_reactors_is_cut() {
    let senders: Vec<String> = (0..15).map(|i| format!("@u{i}:x")).collect();
    let label = reaction_senders_label(&senders, &vec![]);
    assert!(label.starts_with("u0, u1, "), "{label}");
    assert!(label.ends_with("and 3 more"), "{label}");
    let short = reaction_senders_label(&senders[..2].to_vec(), &vec![]);
    assert_eq!(short, "u0, u1");
}

#[test]
fn followers_of_the_newest_message_show_without_oneself() {
    let mut last = item("$2", "@ann:x", "b");
    last.read_by = vec!["@me:x".to_string(), "@bob:x".to_string()];
    let items = vec![item("$1", "@ann:x", "a"), last];
    let shown = follower_avatars(&items, &Some("@me:x".to_string()), &vec![]);
    assert_eq!(shown.faces.len(), 1);
    assert_eq!(shown.faces[0].name, "bob");
    assert_eq!(shown.extra, 0);
}

#[test]
fn members_are_grouped_by_their_tags() {
    let members =
        vec![member("@ann:x", "Ann", 100), member("@bob:x", "Bob", 0), member("@cy:x", "Cy", 50)];
    let tags = vec![
        PowerLevelTag { level: 100, name: "Admin".to_string(), color: Some("#ff0000".to_string()) },
        PowerLevelTag { level: 50, name: "Mod".to_string(), color: None },
    ];
    let groups = member_panel(&members, &tags);
    let mut listed: Vec<usize> = groups.iter().flat_map(|g| g.members.clone()).collect();
    assert!(groups[0].label.contains("Admin"), "{}", groups[0].label);
    assert_eq!(groups[0].members, vec![0]);
    listed.sort();
    assert_eq!(listed, vec![0, 1, 2]);
    assert_eq!(roster_title(&members), "3 Members");
    assert_eq!(
        sender_color(&members, &tags, "@ann:x"),
        thornychat_ui::color::rgb(255, 0, 0)
    );
}

fn preview(url: &str, title: Option<&str>, description: Option<&str>) -> UrlPreview {
    UrlPreview {
        url: url.to_string(),
        title: title.map(|t| t.to_string()),
        description: description.map(|t| t.to_string()),
        site_name: None,
        image_mxc: None,
        image_width: None,
        image_height: None,
    }
}

#[test]
fn a_posts_page_preview_is_taken_apart() {
    let page = preview(
        "https://x.com/ann/status/1",
        Some("Ann (@ann) on X"),
        Some("“hello there https://t.co/abc” — Ann (@ann) March 1, 2026"),
    );
    assert!(matches!(preview_card(&page), PreviewCard::Tweet { .. } | PreviewCard::Plain { .. }));
    assert_eq!(strip_trailing_tco("hello https://t.co/abc"), "hello");
    assert_eq!(strip_trailing_tco("hello"), "hello");
    let other = preview("https://example.org", Some("Title"), Some("Text"));
    assert!(tweet_from_preview(&other).is_none());
    match preview_card(&other) {
        PreviewCard::Plain { title, description, .. } => {
            assert_eq!(title, Some("Title".to_string()));
            assert_eq!(description, Some("Text".to_string()));
        },
        other => panic!("{:?}", other),
    }
    let long = preview_description(&"x".repeat(200));
    assert_eq!(long.chars().count(), 181);
    assert!(long.ends_with('…'));
}

fn tweet() -> TweetData {
    TweetData {
        text: "hi".to_string(),
        author: TweetAuthor {
            name: "Ann".to_string(),
            screen_name: "ann".to_string(),
            avatar_url: None,
            verification: None,
        },
        replies: Some(1),
        retweets: None,
        likes: Some(1500),
        views: Some(2_000_000),
        created_timestamp: None,
        media: Some(TweetMedia {
            photos: (0..3).map(|i| TweetPhoto { url: format!("p{i}") }).collect(),
            videos: vec![],
        }),
        quote: None,
    }
}

#[test]
fn a_post_shows_its_photos_and_counts() {
    let view = tweet_body(&tweet(), &Some("12:00".to_string()), false);
    assert_eq!(view.name, "Ann");
    assert!(view.handle.contains("ann"));
    let urls: Vec<String> = view.photos.iter().flat_map(|r| r.urls.clone()).collect();
    assert_eq!(urls, vec!["p0", "p1", "p2"]);
    let footer = tweet_footer(&Some("12:00".to_string()), Some(2_000_000));
    assert!(footer.contains("12:00") && footer.contains("2.0M"), "{footer}");
    assert_eq!(view.footer, Some(footer));
    let stats = tweet_stats(&tweet());
    assert!(stats.contains("1.5K"), "{stats}");
    assert_eq!(view.stats, Some(stats));
    assert!(tweet_body(&tweet(), &None, true).stats.is_none());
}

#[test]
fn the_most_telling_card_is_picked() {
    let page = preview("https://example.org", Some("T"), None);
    assert_eq!(card_for(true, Some(&tweet()), None, Some(&page)), CardKind::Video);
    assert_eq!(card_for(false, Some(&tweet()), None, Some(&page)), CardKind::Tweet);
    assert_eq!(card_for(false, None, None, Some(&page)), CardKind::Preview);
    assert_eq!(card_for(false, None, None, None), CardKind::Nothing);
}

#[test]
fn a_video_card_plays_in_place() {
    let video = EmbedVideo {
        platform: "YouTube".to_string(),
        id: "abc".to_string(),
        file_name: None,
        watch_url: "https://youtu.be/abc".to_string(),
    };
    match embed_video_card(&video, &None, &Some("$1".to_string()), &None) {
        VideoCard::Still { play: Some(Message::PlayVideo { event_id, video: played, .. }), .. } => {
            assert_eq!(event_id, "$1");
            assert_eq!(played.id, "abc");
        },
        other => panic!("{:?}", other),
    }
    let mut page = preview("https://youtu.be/abc", None, None);
    page.image_mxc = Some("mxc://still".to_string());
    match embed_video_card(&video, &Some(page), &None, &None) {
        VideoCard::Still { thumbnail, play: None, .. } => {
            assert_eq!(thumbnail, Some("mxc://still".to_string()));
        },
        other => panic!("{:?}", other),
    }
}

#[test]
fn a_store_card_shows_the_price() {
    let mut app = SteamAppData {
        name: "Portal 2".to_string(),
        short_description: Some("Puzzles".to_string()),
        header_image: Some("https://art".to_string()),
        is_free: false,
        platforms: Some(SteamPlatforms { windows: true, mac: false, linux: true }),
        price_overview: Some(SteamPrice {
            discount_percent: 75,
            initial_formatted: "9,75€".to_string(),
            final_formatted: "2,43€".to_string(),
        }),
        release_date: Some(SteamReleaseDate { coming_soon: false, date: "2011".to_string() }),
    };
    let card = steam_card(&app);
    assert_eq!(card.title, "Buy Portal 2");
    assert_eq!(card.art, Some("https://art".to_string()));
    assert!(matches!(&card.price, PriceLine::Price(p) if p == "2,43€"));
    assert_eq!(card.struck, Some("9,75€".to_string()));
    assert!(card.badge.unwrap().contains("75"));
    assert!(card.platforms.unwrap().contains("Windows"));
    app.price_overview = None;
    app.is_free = true;
    assert!(matches!(steam_card(&app).price, PriceLine::Free("Free To Play")));
}

#[test]
fn a_snippet_names_what_has_no_text() {
    assert_eq!(ui_snippet(&TimelineItemContent::Text("one\ntwo".to_string())), "one two");
    assert!(!ui_snippet(&TimelineItemContent::Redacted).is_empty());
}

#[test]
fn the_header_and_the_controls() {
    let mut state = State::new();
    state.room_id = Some("!r".to_string());
    let room = RoomSummary {
        room_id: "!r".to_string(),
        name: "Room".to_string(),
        is_space: false,
        is_dm: false,
        is_encrypted: true,
        topic: Some("t\nu".to_string()),
        avatar_url: None,
        unread_count: 0,
    };
    let shown = header(&state, Some(&room), Some(NotificationMode::Mute), false, false);
    assert_eq!(shown.title, Some("Room".to_string()));
    assert!(shown.encrypted);
    assert!(shown.muted);
    assert!(matches!(shown.call, CallButton::Enabled));
    assert!(matches!(
        header(&state, Some(&room), None, false, true).call,
        CallButton::Disabled
    ));
    assert!(matches!(header(&state, Some(&room), None, true, false).call, CallButton::Nothing));
    state.items = vec![item("$1", "@a:x", "a")];
    state.loading_older = true;
    assert!(matches!(history_control(&state), HistoryControl::Loading));
    state.loading_older = false;
    assert!(matches!(history_control(&state), HistoryControl::LoadOlder));
    state.reached_start = true;
    assert!(matches!(history_control(&state), HistoryControl::Beginning));
    assert_eq!(sync_label(&SyncState::Syncing), None);
    assert!(sync_label(&SyncState::Offline).is_some());
}

#[test]
fn the_screen_is_put_together() {
    let mut state = State::new();
    let calls = call::State::default();
    let mut previews = Previews::new();
    let index = index();
    let own = Some("@me:x".to_string());
    let facts = vec![];
    let sync_state = SyncState::Offline;
    let empty = Surroundings {
        room: None,
        mode: None,
        calls: &calls,
        sync_state: &sync_state,
        own_user_id: &own,
        previews: &previews,
        index: &index,
        show_membership_events: true,
    };
    assert!(matches!(
        view(&state, &facts, &empty),
        Screen::Invitation("Select a room to view its messages")
    ));
    let url = "https://x.com/ann/status/1".to_string();
    let mut posted = tweet();
    // 4 September 2026, 12:30 UTC.
    posted.created_timestamp = Some(1_788_525_000);
    previews.tweets.insert(url.clone(), Some(posted));
    state.room_id = Some("!r".to_string());
    state.items = vec![item("$1", "@ann:x", "plain"), item("$2", "@ann:x", &url)];
    state.first_urls = vec![None, Some(url)];
    state.composer.member_candidates = vec![member("@ann:x", "Ann", 0)];
    state.composer.replying_to = Some(ReplyPreview {
        event_id: "$1".to_string(),
        sender: "Ann".to_string(),
        snippet: "plain".to_string(),
        image_url: None,
    });
    state.member_menu = Some("@ann:x".to_string());
    state.notify_menu_open = true;
    state.at_bottom = false;
    let around = Surroundings {
        room: None,
        mode: Some(NotificationMode::Mute),
        calls: &calls,
        sync_state: &sync_state,
        own_user_id: &own,
        previews: &previews,
        index: &index,
        show_membership_events: true,
    };
    let facts = vec![
        ItemFacts { offset: Some(3600), post_offset: None, video: None },
        ItemFacts { offset: Some(3600), post_offset: Some(-7200), video: None },
    ];
    let shown = match view(&state, &facts, &around) {
        Screen::Room(shown) => shown,
        other => panic!("{:?}", other),
    };
    assert_eq!(shown.rows.len(), 2);
    assert_eq!(shown.rows[0].event_id, Some("$1".to_string()));
    assert!(matches!(shown.rows[0].card, Card::Nothing));
    assert!(shown.rows[0].click.is_none());
    match &shown.rows[1].click {
        Some(Message::OpenUrl(opened)) => assert_eq!(opened, "https://x.com/ann/status/1"),
        other => panic!("{:?}", other),
    }
    assert_eq!(shown.rows[0].time, Some("01:00".to_string()));
    assert_eq!(shown.rows[1].time, None);
    match &shown.rows[1].card {
        Card::Tweet(card) => {
            assert_eq!(
                card.footer,
                Some("10:30 · Sep  4, 2026 · 2.0M Views".to_string())
            );
        },
        other => panic!("{:?}", other),
    }
    assert!(shown.jump_to_latest);
    assert!(shown.sync.unwrap().starts_with("Offline"));
    assert_eq!(shown.composer.reply.unwrap().title, "Replying to Ann");
    let (title, groups) = shown.members.unwrap();
    assert_eq!(title, "1 Members");
    assert_eq!(groups.len(), 1);
    assert_eq!(shown.member_menu.unwrap().len(), 3);
    let choices = shown.notify.unwrap();
    assert_eq!(
        choices.iter().filter(|c| c.1).map(|c| c.0).collect::<Vec<_>>(),
        vec![NotifyChoice::Mute]
    );
    assert!(shown.reacting.is_none());
    // Whatever the time zone, a row with a header shows some time of day.
    match view_here(&state, vec![None, None], &around) {
        Screen::Room(shown) => assert_eq!(shown.rows[0].time.as_ref().unwrap().len(), 5),
        other => panic!("{:?}", other),
    }
    // The menu shows only beside the roster.
    state.hide_members = true;
    match view(&state, &facts, &around) {
        Screen::Room(shown) => assert!(shown.members.is_none() && shown.member_menu.is_none()),
        other => panic!("{:?}", other),
    }
}
