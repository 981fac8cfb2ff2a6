//! Links, embeds, colours, sizes and the small collections.

use thornychat_ui::color::{name_palette_color, parse_hex_color, rgb, Color};
use thornychat_ui::events::{friendly_user_id, RoomMember};
use thornychat_ui::floats::{
    compact_count, image_display_size, is_at_most, is_below, is_nan, sticker_display_size,
};
use thornychat_ui::local_time::{
    clock_label, format_timestamp, local_day, stamp_label, tweet_time, whole_seconds,
};
use thornychat_ui::mime::is_image;
use thornychat_ui::screens::settings::appearance;
use thornychat_ui::screens::settings::appearance::{color_row, ColorRole, Preset};
use thornychat_ui::sorting::sort_members;
use thornychat_ui::steam::{app_of, steam_api_url, ApiEntry, SteamAppData};
use thornychat_ui::string_map::StringMap;
use thornychat_ui::synthetic_input::{chord, Edit, Key};
use thornychat_ui::text::{cut, flatten_lines, split_lines, trim};
use thornychat_ui::theme_config::{
    suggested_file_name, ThemeColor, ThemeConfig, DEFAULT_CORNER_RADIUS, DEFAULT_UI_SCALE,
    MAX_UI_SCALE, MIN_UI_SCALE,
};
use thornychat_ui::tweets::{
    tweet_api_url, tweet_of, ApiResponse, TweetAuthor, TweetData, TweetMedia, TweetPhoto,
    TweetVerification, TweetVideo,
};
use thornychat_ui::twemoji::{cache_name, cdn_url, codepoints};
use thornychat_ui::word_set::WordSet;

#[test]
fn a_post_is_recognised_on_every_mirror() {
    let api = Some("https://api.fxtwitter.com/status/123".to_string());
    assert_eq!(tweet_api_url("https://x.com/a/status/123"), api);
    assert_eq!(tweet_api_url("http://www.Twitter.com/a/status/123?s=20"), api);
    assert_eq!(tweet_api_url("https://mobile.twitter.com/i/web/status/123abc#x"), api);
    assert_eq!(tweet_api_url("https://xcancel.com//a//status/123/photo/1"), api);
    assert_eq!(tweet_api_url("https://x.com/a/status/abc"), None);
    assert_eq!(tweet_api_url("https://x.com/a/status"), None);
    assert_eq!(tweet_api_url("https://x.com/a"), None);
    assert_eq!(tweet_api_url("https://example.com/a/status/123"), None);
    assert_eq!(tweet_api_url("x.com/a/status/123"), None);
    assert_eq!(tweet_api_url("https://x.com"), None);
}

#[test]
fn a_store_page_is_recognised() {
    let api = Some("https://store.steampowered.com/api/appdetails?appids=620".to_string());
    assert_eq!(steam_api_url("https://store.steampowered.com/app/620/Portal_2/"), api);
    assert_eq!(steam_api_url("https://store.steampowered.com/agecheck/app/620"), api);
    assert_eq!(steam_api_url("https://s.team/a/620?x=1"), api);
    assert_eq!(steam_api_url("https://s.team/b/620"), None);
    assert_eq!(steam_api_url("https://store.steampowered.com/app/620x"), None);
    assert_eq!(steam_api_url("https://store.steampowered.com/bundle/620"), None);
    assert_eq!(steam_api_url("https://example.com/app/620"), None);
}

fn app(name: &str) -> SteamAppData {
    SteamAppData {
        name: name.to_string(),
        short_description: None,
        header_image: None,
        is_free: false,
        platforms: None,
        price_overview: None,
        release_date: None,
    }
}

#[test]
fn a_store_answer_needs_success_and_data() {
    let good = app_of(Some(ApiEntry { success: true, data: Some(app("Portal 2")) }));
    assert_eq!(good.unwrap().name, "Portal 2");
    assert!(app_of(Some(ApiEntry { success: false, data: Some(app("x")) })).is_err());
    assert!(app_of(Some(ApiEntry { success: true, data: None })).is_err());
    assert!(app_of(None).is_err());
}

fn tweet(text: &str) -> TweetData {
    TweetData {
        text: text.to_string(),
        author: TweetAuthor {
            name: "Ann".to_string(),
            screen_name: "ann".to_string(),
            avatar_url: Some("avatar".to_string()),
            verification: Some(TweetVerification { verified: true }),
        },
        replies: None,
        retweets: None,
        likes: None,
        views: None,
        created_timestamp: None,
        media: Some(TweetMedia {
            photos: vec![TweetPhoto { url: "photo".to_string() }],
            videos: vec![
                TweetVideo { thumbnail_url: Some("still".to_string()) },
                TweetVideo { thumbnail_url: None },
            ],
        }),
        quote: None,
    }
}

#[test]
fn a_post_answer_needs_the_right_code() {
    assert_eq!(
        tweet_of(ApiResponse { code: 200, tweet: Some(tweet("hi")) }).unwrap().text,
        "hi"
    );
    assert!(tweet_of(ApiResponse { code: 404, tweet: Some(tweet("hi")) }).is_err());
    assert!(tweet_of(ApiResponse { code: 200, tweet: None }).is_err());
}

#[test]
fn every_image_of_a_post_is_listed() {
    let mut outer = tweet("outer");
    let mut inner = tweet("inner");
    inner.author.avatar_url = None;
    outer.quote = Some(Box::new(inner));
    assert!(outer.author.is_verified());
    assert_eq!(outer.photo_urls(), vec!["photo"]);
    assert_eq!(outer.video_thumbnail_urls(), vec!["still"]);
    let all = outer.all_image_urls();
    assert_eq!(all.iter().filter(|u| u.as_str() == "avatar").count(), 1);
    assert_eq!(all.iter().filter(|u| u.as_str() == "photo").count(), 2);
    assert_eq!(all.len(), 5);
}

#[test]
fn emoji_file_names_keep_the_selector_only_in_joined_sequences() {
    assert_eq!(codepoints("❤\u{fe0f}"), "2764");
    assert_eq!(codepoints("🏃\u{200d}♂\u{fe0f}"), "1f3c3-200d-2642-fe0f");
    assert_eq!(codepoints(""), "");
    assert_eq!(
        cdn_url("2764"),
        "https://cdn.jsdelivr.net/gh/jdecked/twemoji@latest/assets/svg/2764.svg"
    );
    assert_eq!(cache_name("😀"), "1f600.svg");
}

#[test]
fn tag_colours_are_read() {
    assert_eq!(parse_hex_color(" #c0ffee "), Some(rgb(0xc0, 0xff, 0xee)));
    assert_eq!(parse_hex_color("#FA0"), Some(rgb(0xff, 0xaa, 0)));
    assert_eq!(
        parse_hex_color("#01020380"),
        Some(Color { r: 1, g: 2, b: 3, a: 0x80 })
    );
    assert_eq!(parse_hex_color("C0FFEE"), None);
    assert_eq!(parse_hex_color("#é0ffe"), None);
    assert_eq!(parse_hex_color("#c0ffe"), None);
    assert_eq!(parse_hex_color("#c0ffeg"), None);
    assert_eq!(parse_hex_color("#+1+2+3"), None);
    assert_eq!(parse_hex_color(""), None);
}

#[test]
fn a_name_keeps_its_colour() {
    let first = name_palette_color("@ann:x");
    assert_eq!(name_palette_color("@ann:x"), first);
    let mut seen = vec![];
    for i in 0..64 {
        let c = name_palette_color(&format!("@user{i}:x"));
        if !seen.contains(&c) {
            seen.push(c);
        }
    }
    assert!(seen.len() > 1);
}

#[test]
fn theme_colours_read_back() {
    for c in [ThemeColor::new(0, 0, 0), ThemeColor::new(255, 128, 1), ThemeColor::new(18, 52, 86)] {
        assert_eq!(ThemeColor::parse_hex(&c.to_hex()), Some(c));
    }
    assert_eq!(ThemeColor::new(18, 52, 86).to_hex(), "#123456");
    assert_eq!(ThemeColor::new(18, 52, 86).color(), rgb(18, 52, 86));
    assert_eq!(ThemeColor::parse_hex("#FA0"), Some(ThemeColor::new(0xff, 0xaa, 0)));
    assert_eq!(ThemeColor::parse_hex(" fa0 "), Some(ThemeColor::new(0xff, 0xaa, 0)));
    assert_eq!(ThemeColor::parse_hex("##FA0"), None);
    assert_eq!(ThemeColor::parse_hex("+1+2+3"), None);
    assert_eq!(ThemeColor::parse_hex("rod"), None);
}

#[test]
fn a_theme_is_held_in_range() {
    let mut theme = ThemeConfig::default();
    theme.ui_scale = (3.0f32).to_bits();
    theme.corner_radius = (-1.0f32).to_bits();
    let theme = theme.sanitized();
    assert_eq!(f32::from_bits(theme.ui_scale), 1.5);
    assert_eq!(f32::from_bits(theme.corner_radius), 0.0);
    let mut theme = ThemeConfig::thornychat_light();
    theme.ui_scale = f32::NAN.to_bits();
    theme.corner_radius = f32::INFINITY.to_bits();
    let theme = theme.sanitized();
    assert_eq!(theme.ui_scale, DEFAULT_UI_SCALE);
    assert_eq!(theme.corner_radius, DEFAULT_CORNER_RADIUS);
    let (scale, radius) = (theme.ui_scale, theme.corner_radius);
    let again = theme.sanitized();
    assert_eq!((again.ui_scale, again.corner_radius), (scale, radius));
    assert_eq!(f32::from_bits(MIN_UI_SCALE), 0.8);
    assert_eq!(f32::from_bits(MAX_UI_SCALE), 1.5);
}

#[test]
fn a_theme_file_is_named_after_its_theme() {
    assert_eq!(suggested_file_name("My Own Theme"), "my-own-theme.json");
}

#[test]
fn colour_roles_are_independent() {
    let mut theme = ThemeConfig::default();
    let roles = ColorRole::all();
    assert_eq!(roles.len(), 9);
    for (i, role) in roles.iter().enumerate() {
        let before: Vec<ThemeColor> = roles.iter().map(|r| r.get(&theme)).collect();
        role.set(&mut theme, ThemeColor::new(i as u8, 7, 7));
        for (j, other) in roles.iter().enumerate() {
            if i == j {
                assert_eq!(other.get(&theme), ThemeColor::new(i as u8, 7, 7));
            } else {
                assert_eq!(other.get(&theme), before[j]);
            }
        }
    }
}

#[test]
fn a_valid_colour_is_taken_and_an_invalid_one_is_kept_in_the_field() {
    let mut theme = ThemeConfig::default();
    let mut state = appearance::State::synced_from(&theme);
    let role = ColorRole::Accent;
    assert!(color_row(role, &state, &theme).0);
    let before = role.get(&theme);
    let typed = appearance::Message::HexChanged(role, "#12".to_string());
    assert!(matches!(appearance::update(&mut state, &mut theme, typed), appearance::Task::Nothing));
    assert_eq!(role.get(&theme), before);
    assert!(!color_row(role, &state, &theme).0);
    let typed = appearance::Message::HexChanged(role, "#123456".to_string());
    assert!(matches!(appearance::update(&mut state, &mut theme, typed), appearance::Task::Save));
    assert_eq!(role.get(&theme), ThemeColor::new(0x12, 0x34, 0x56));
    let light = appearance::Message::PresetSelected(Preset::ThornyChatLight);
    appearance::update(&mut state, &mut theme, light);
    assert!(Preset::ThornyChatLight.is_active(&theme));
    assert!(color_row(role, &state, &theme).0);
}

/// The boxes are what single-precision arithmetic gives.
#[test]
fn display_sizes_match_floating_point() {
    let sides = [
        1u32, 2, 3, 7, 23, 24, 25, 100, 159, 160, 161, 239, 240, 241, 333, 359, 360, 361, 500, 720,
        999, 1000, 1080, 1920, 4096, 65535, 65537, 1_000_003, 16_777_217, 33_554_433, 4_294_967_295,
    ];
    for &w in &sides {
        for &h in &sides {
            let scale = (240.0 / w as f32).min(360.0 / h as f32).min(1.0);
            let expected = (
                ((w as f32 * scale).round() as u16).max(1),
                ((h as f32 * scale).round() as u16).max(1),
            );
            // A tiny square keeps its shape when it is enlarged.
            let expected = if w == h { (expected.0.max(24), expected.1.max(24)) } else { expected };
            assert_eq!(image_display_size(Some(w), Some(h)), expected, "{w} x {h}");
            let scale = (160.0 / w as f32).min(160.0 / h as f32).min(1.0);
            let expected = (
                ((w as f32 * scale).round() as u16).max(1),
                ((h as f32 * scale).round() as u16).max(1),
            );
            assert_eq!(sticker_display_size(Some(w), Some(h)), expected, "{w} x {h}");
        }
    }
    assert_eq!(sticker_display_size(Some(10), Some(10)), (10, 10));
    assert_eq!(sticker_display_size(Some(320), Some(20)), (160, 10));
    assert_eq!(image_display_size(Some(240), Some(10)), (240, 10));
    assert_eq!(image_display_size(Some(10), Some(10)), (24, 24));
    assert_eq!(image_display_size(Some(24), Some(24)), (24, 24));
    assert_eq!(image_display_size(Some(12), Some(20)), (12, 20));
    assert_eq!(image_display_size(Some(480), Some(1440)), (120, 360));
    assert_eq!(image_display_size(None, Some(5)), (240, 180));
    assert_eq!(image_display_size(Some(0), Some(5)), (240, 180));
    assert_eq!(sticker_display_size(None, None), (128, 128));
}

#[test]
fn compact_counts_match_floating_point_formatting() {
    let mut samples: Vec<u64> =
        vec![0, 999, 1000, 1049, 1050, 1051, 9949, 9950, 9999, 10_000, 10_500, 11_500, 999_499,
             999_500, 999_999, 1_000_000, 1_250_000, 9_950_000, 10_500_000, u64::MAX];
    let mut x: u64 = 88_172_645_463_325_252;
    for i in 0..300 {
        x ^= x << 13;
        x ^= x >> 7;
        x ^= x << 17;
        samples.push(x >> (i % 64));
    }
    for n in samples {
        let expected = if n >= 1_000_000 {
            let v = n as f64 / 1_000_000.0;
            if v >= 10.0 { format!("{v:.0}M") } else { format!("{v:.1}M") }
        } else if n >= 1_000 {
            let v = n as f64 / 1_000.0;
            if v >= 10.0 { format!("{v:.0}K") } else { format!("{v:.1}K") }
        } else {
            n.to_string()
        };
        assert_eq!(compact_count(n), expected);
    }
}

#[test]
fn only_image_types_are_images() {
    assert!(is_image("image/png"));
    assert!(!is_image("application/octet-stream"));
}

#[test]
fn a_chord_presses_and_releases() {
    for edit in [Edit::Copy, Edit::Cut] {
        let strokes = chord(edit);
        assert_eq!(strokes.len(), 4);
        let downs: Vec<&Key> = strokes.iter().filter(|s| s.down).map(|s| &s.key).collect();
        let ups: Vec<&Key> = strokes.iter().filter(|s| !s.down).map(|s| &s.key).collect();
        assert_eq!(downs.len(), 2);
        assert_eq!(ups.len(), 2);
        assert!(matches!(downs[0], Key::Control));
        assert!(matches!(ups[1], Key::Control));
    }
}

#[test]
fn lines_split_and_flatten() {
    assert_eq!(split_lines("a\nb"), vec!["a", "b"]);
    assert_eq!(flatten_lines("a\nb"), "a b");
    assert_eq!(trim("  a b\t"), "a b");
    assert_eq!(cut("abc", 3), "abc");
    assert_eq!(cut("abcd", 3), "abc…");
}

#[test]
fn a_user_id_reads_as_its_local_part() {
    assert_eq!(friendly_user_id("@ann:x.org"), "ann");
    assert_eq!(friendly_user_id("ann"), "ann");
}

fn member(id: &str, name: &str) -> RoomMember {
    RoomMember {
        user_id: id.to_string(),
        display_name: name.to_string(),
        avatar_url: None,
        power_level: 0,
    }
}

#[test]
fn members_are_sorted_by_lowercase_name_and_ties_keep_their_order() {
    let (sorted, lower) =
        sort_members(&vec![member("@b", "bob"), member("@a2", "Ann"), member("@a1", "ann")]);
    let ids: Vec<&str> = sorted.iter().map(|m| m.user_id.as_str()).collect();
    assert_eq!(ids, vec!["@a2", "@a1", "@b"]);
    assert_eq!(lower, vec!["ann", "ann", "bob"]);
}

#[test]
fn the_last_write_to_a_key_counts() {
    let mut map: StringMap<u32> = StringMap::new();
    map.insert("a".to_string(), 1);
    map.insert("b".to_string(), 2);
    map.insert("a".to_string(), 3);
    assert_eq!(map.get("a"), Some(&3));
    map.remove("a");
    assert_eq!(map.get("a"), None);
    assert!(map.contains_key("b"));
}

#[test]
fn a_word_set_holds_each_word_once() {
    let mut set = WordSet::new();
    set.insert("a".to_string());
    set.insert("a".to_string());
    set.insert("b".to_string());
    assert!(set.same(&WordSet::from_words(vec!["b".to_string(), "a".to_string()])));
    set.remove("a");
    assert!(!set.contains("a"));
    set.remove("b");
    assert!(set.is_empty());
}

#[test]
fn times_read_as_the_zone_says() {
    // 4 September 2026, 23:30:30.5 UTC.
    let ms: u64 = 1_788_564_630_500;
    assert_eq!(clock_label(ms, Some(0)), "23:30");
    assert_eq!(clock_label(ms, Some(3600)), "00:30");
    assert_eq!(clock_label(ms, None), "");
    assert_eq!(local_day(ms, Some(0)), Some("2026-09-04".to_string()));
    assert_eq!(local_day(ms, Some(3600)), Some("2026-09-05".to_string()));
    assert_eq!(local_day(ms, Some(-86_399)), Some("2026-09-03".to_string()));
    assert_eq!(local_day(ms, None), None);
    assert_eq!(stamp_label(1_788_564_630, Some(3600)), "00:30 · Sep  5, 2026");
    assert_eq!(stamp_label(951_782_400, Some(0)), "00:00 · Feb 29, 2000");
    assert_eq!(stamp_label(i64::MAX, Some(0)), "");
    // Before 1970, the day still begins at midnight.
    assert_eq!(stamp_label(-1, Some(0)), "23:59 · Dec 31, 1969");
    // A year of more than four digits has a sign.
    assert_eq!(local_day(253_402_300_800_000, Some(0)), Some("+10000-01-01".to_string()));
}

#[test]
fn milliseconds_round_down() {
    assert_eq!(whole_seconds(1999), 1);
    assert_eq!(whole_seconds(u64::MAX), -1);
    assert_eq!(whole_seconds(u64::MAX - 999), -1);
    assert_eq!(whole_seconds(u64::MAX - 1000), -2);
    for ms in [0u64, 1, 1500, i64::MAX as u64, i64::MAX as u64 + 1, u64::MAX - 12_345] {
        assert_eq!(whole_seconds(ms), (ms as i64).div_euclid(1000));
    }
}

#[test]
fn the_reader_sees_some_time() {
    let clock = format_timestamp(1_788_564_630_500);
    assert_eq!(clock.len(), 5);
    assert_eq!(&clock[2..3], ":");
    assert!(tweet_time(1_788_564_630).ends_with(", 2026"));
    assert_eq!(tweet_time(i64::MAX), "");
}

#[test]
fn bit_patterns_compare_as_their_numbers() {
    let numbers = [
        0.0f32, -0.0, 0.5, -0.5, 24.0, 24.000002, 23.999998, 150.0, -150.0, 1e-40, -1e-40, 3.4e38,
        f32::INFINITY, f32::NEG_INFINITY, f32::NAN, -f32::NAN,
    ];
    for a in numbers {
        assert_eq!(is_nan(a.to_bits()), a.is_nan());
        for b in numbers {
            assert_eq!(is_at_most(a.to_bits(), b.to_bits()), a <= b, "{a} <= {b}");
            assert_eq!(is_below(a.to_bits(), b.to_bits()), a < b, "{a} < {b}");
        }
    }
}
