//! The screens beside the timeline: sign-in, rooms, calls, spaces, people,
//! verification and settings.

use thornychat_ui::events::{
    CallParticipant, CallState, LoginFlows, NotificationMode, NotificationScope,
    RecoveryEnableStage, RoomMember, RoomSummary, SasState, SpaceChildSummary, SpaceJoinRule,
    SsoProvider, UserSearchResult,
};
use thornychat_ui::screens::settings::connectors::ConnectorsConfig;
use thornychat_ui::screens::settings::encryption::EncryptionConfig;
use thornychat_ui::screens::settings::general::{ChatConfig, Configs, LogConfig, WindowConfig};
use thornychat_ui::screens::settings::notifications::{mode_choices, ModeChoice};
use thornychat_ui::screens::settings::privacy::PrivacyConfig;
use thornychat_ui::screens::settings::{connectors, encryption, notifications, privacy};
use thornychat_ui::screens::{call, dm_search, login, room_list, settings, space_explorer};
use thornychat_ui::screens::verification;
use thornychat_ui::spellcheck_config::SpellcheckConfig;
use thornychat_ui::string_map::StringMap;
use thornychat_ui::theme_config::ThemeConfig;

// Signing in.

#[test]
fn a_password_is_handed_on_and_not_kept() {
    let mut state = login::State::default();
    login::update(&mut state, login::Message::HomeserverChanged("x.org".to_string()));
    assert!(matches!(
        login::update(&mut state, login::Message::ContinueFromHomeserver),
        login::Effect::Discover { homeserver } if homeserver == "x.org"
    ));
    assert!(matches!(state.status, login::Status::Discovering));
    let flows =
        LoginFlows { supports_password: true, supports_sso: false, sso_providers: vec![] };
    login::update(&mut state, login::Message::FlowsDiscovered(flows));
    assert!(matches!(state.step, login::Step::ChooseMethod(_)));
    login::update(&mut state, login::Message::UsernameChanged("ann".to_string()));
    login::update(&mut state, login::Message::PasswordChanged("secret".to_string()));
    match login::update(&mut state, login::Message::SubmitPassword) {
        login::Effect::AttemptPasswordLogin { homeserver, username, password } => {
            assert_eq!((homeserver.as_str(), username.as_str()), ("x.org", "ann"));
            assert_eq!(password, "secret");
        },
        other => panic!("{:?}", other),
    }
    assert_eq!(state.password, "");
    login::update(&mut state, login::Message::LoginFailed("denied".to_string()));
    assert!(login::status_text(&state.status).contains("denied"));
}

#[test]
fn each_provider_gets_a_button() {
    let flows = LoginFlows {
        supports_password: false,
        supports_sso: true,
        sso_providers: vec![SsoProvider { id: "gh".to_string(), name: "GitHub".to_string() }],
    };
    let buttons = login::sso_buttons(&flows);
    assert_eq!(buttons.len(), 1);
    assert!(buttons[0].label.contains("GitHub"));
    assert_eq!(buttons[0].provider, Some("gh".to_string()));
    let bare = LoginFlows { supports_password: true, supports_sso: true, sso_providers: vec![] };
    assert_eq!(login::sso_buttons(&bare).len(), 1);
    assert_eq!(login::sso_buttons(&bare)[0].provider, None);
}

// The room list.

fn room(id: &str, is_space: bool, is_dm: bool) -> RoomSummary {
    RoomSummary {
        room_id: id.to_string(),
        name: format!("name of {id}"),
        is_space,
        is_dm,
        is_encrypted: false,
        topic: None,
        avatar_url: None,
        unread_count: 0,
    }
}

#[test]
fn every_room_shows_once() {
    let mut state = room_list::State::default();
    state.rooms = vec![
        room("!space", true, false),
        room("!child", false, false),
        room("!dm", false, true),
        room("!loose", false, false),
    ];
    state.space_children.insert("!space".to_string(), vec!["!child".to_string()]);
    let sections = room_list::sections(&state);
    assert_eq!(sections.spaces.len(), 1);
    assert_eq!(sections.spaces[0].space, 0);
    assert_eq!(sections.spaces[0].children, vec![1]);
    assert_eq!(sections.direct, vec![2]);
    assert_eq!(sections.rooms, vec![3]);
    assert_eq!(room_list::find_room(&state.rooms, "!dm"), Some(2));
    assert_eq!(room_list::find_room(&state.rooms, "!no"), None);
}

#[test]
fn a_room_row_shows_mute_selection_and_unread() {
    let mut state = room_list::State::default();
    state.selected_room_id = Some("!a".to_string());
    let mut modes = StringMap::new();
    modes.insert("!a".to_string(), NotificationMode::Mute);
    let mut shown = room("!a", false, false);
    shown.unread_count = 3;
    let row = room_list::room_row(&state, &shown, &modes, true);
    assert!(row.selected && row.muted && row.in_call);
    // A muted room does not count.
    assert_eq!(row.badge, None);
    shown.room_id = "!b".to_string();
    let row = room_list::room_row(&state, &shown, &modes, false);
    assert!(!row.selected && !row.muted && !row.in_call);
    assert_eq!(row.badge, Some("3".to_string()));
}

// Calls.

fn participant(id: &str) -> CallParticipant {
    CallParticipant { user_id: id.to_string() }
}

#[test]
fn one_call_request_at_a_time_and_failures_stay_in_their_room() {
    let mut state = call::State::default();
    assert!(call::request(&mut state, "!a".to_string(), true, 1));
    assert!(state.pending_for("!a"));
    assert!(!call::request(&mut state, "!b".to_string(), true, 2));
    assert!(!call::fail(&mut state, 9, "other".to_string()));
    assert!(call::fail(&mut state, 1, "no answer".to_string()));
    assert!(!state.pending_for("!a"));
    let members: Vec<RoomMember> = vec![];
    assert!(matches!(
        call::banner(&state, "!a", &members),
        Some(call::Banner::Failed(e)) if e.contains("no answer")
    ));
    assert!(call::banner(&state, "!b", &members).is_none());
}

#[test]
fn a_running_call_shows_who_is_in_it() {
    let mut state = call::State::default();
    let participants =
        vec![participant("@ann:x"), participant("@bob:x"), participant("@ann:x")];
    state.calls.insert("!a".to_string(), CallState { participants, joined: false });
    assert!(state.has_active_call("!a"));
    match call::banner(&state, "!a", &vec![]) {
        Some(call::Banner::Call(shown)) => {
            assert_eq!(shown.faces.len(), 2);
            assert!(matches!(shown.action, call::BannerAction::Join));
        },
        other => panic!("{:?}", other),
    }
    call::request(&mut state, "!a".to_string(), true, 1);
    match call::banner(&state, "!a", &vec![]) {
        Some(call::Banner::Call(shown)) => {
            assert!(matches!(shown.action, call::BannerAction::Waiting));
        },
        other => panic!("{:?}", other),
    }
    assert!(call::succeed(&mut state, 1));
}

// Finding people.

#[test]
fn only_the_newest_keystroke_searches() {
    let mut search = Some(dm_search::State::default());
    let first = match dm_search::update(
        &mut search,
        dm_search::Message::QueryChanged("a".to_string()),
        1,
    ) {
        dm_search::Step::Wait(generation) => generation,
        other => panic!("{:?}", other),
    };
    let second = match dm_search::update(
        &mut search,
        dm_search::Message::QueryChanged("an".to_string()),
        2,
    ) {
        dm_search::Step::Wait(generation) => generation,
        other => panic!("{:?}", other),
    };
    assert!(matches!(
        dm_search::update(&mut search, dm_search::Message::Debounced(first), 3),
        dm_search::Step::Nothing
    ));
    assert!(matches!(
        dm_search::update(&mut search, dm_search::Message::Debounced(second), 4),
        dm_search::Step::Search { query } if query == "an"
    ));
    let found = UserSearchResult {
        user_id: "@ann:x".to_string(),
        display_name: None,
        avatar_url: None,
    };
    assert!(!dm_search::receive(&mut search, 3, vec![], false));
    assert!(dm_search::receive(&mut search, 4, vec![found], true));
    let state = search.as_ref().unwrap();
    assert!(matches!(dm_search::listing(state), dm_search::Listing::Results { more: true }));
    assert!(matches!(
        dm_search::update(
            &mut search,
            dm_search::Message::ResultClicked("@ann:x".to_string()),
            5
        ),
        dm_search::Step::OpenDirectMessage(id) if id == "@ann:x"
    ));
}

#[test]
fn a_failed_search_says_so() {
    let mut search = Some(dm_search::State::default());
    let wait =
        dm_search::update(&mut search, dm_search::Message::QueryChanged("a".to_string()), 1);
    let generation = match wait {
        dm_search::Step::Wait(generation) => generation,
        other => panic!("{:?}", other),
    };
    dm_search::update(&mut search, dm_search::Message::Debounced(generation), 7);
    let mut state = search.unwrap();
    assert!(matches!(dm_search::listing(&state), dm_search::Listing::Searching));
    assert!(!state.handle_failure(8, "offline"));
    assert!(state.handle_failure(7, "offline"));
    assert!(matches!(dm_search::listing(&state), dm_search::Listing::Failed));
    assert!(dm_search::failure_line("offline").contains("offline"));
}

// Exploring a space.

fn child(id: &str, is_space: bool) -> SpaceChildSummary {
    SpaceChildSummary {
        room_id: id.to_string(),
        name: Some(format!("name of {id}")),
        canonical_alias: None,
        topic: Some("x".repeat(100)),
        avatar_url: None,
        num_joined_members: 2,
        is_space,
        joined: false,
        join_rule: SpaceJoinRule::Public,
        via: vec!["x.org".to_string()],
    }
}

#[test]
fn pages_arrive_and_stale_ones_are_dropped() {
    let mut state = space_explorer::State::open("!s".to_string(), "Space".to_string(), 1);
    assert!(matches!(space_explorer::footer(&state.stack[0]), space_explorer::Footer::Loading));
    state.apply_page(9, "!s", vec![child("!x", false)], None);
    assert_eq!(state.stack[0].children.len(), 0);
    state.apply_page(1, "!s", vec![child("!a", false), child("!t", true)], Some("p2".to_string()));
    assert_eq!(state.stack[0].children.len(), 2);
    assert!(matches!(space_explorer::footer(&state.stack[0]), space_explorer::Footer::LoadMore));
    let mut explorer = Some(state);
    assert!(matches!(
        space_explorer::update(&mut explorer, space_explorer::Message::LoadMore, 2),
        space_explorer::Step::Fetch { space_id, from: Some(from) }
            if space_id == "!s" && from == "p2"
    ));
}

#[test]
fn going_back_leaves_the_space_again() {
    let mut explorer =
        Some(space_explorer::State::open("!s".to_string(), "Space".to_string(), 1));
    explorer.as_mut().unwrap().apply_page(1, "!s", vec![child("!t", true)], None);
    let enter = space_explorer::Message::EnterSpace {
        space_id: "!t".to_string(),
        name: "Inner".to_string(),
    };
    assert!(matches!(
        space_explorer::update(&mut explorer, enter, 2),
        space_explorer::Step::Fetch { space_id, from: None } if space_id == "!t"
    ));
    assert_eq!(explorer.as_ref().unwrap().stack.len(), 2);
    space_explorer::update(&mut explorer, space_explorer::Message::Back, 3);
    assert_eq!(explorer.as_ref().unwrap().stack.len(), 1);
    assert_eq!(explorer.as_ref().unwrap().stack[0].children.len(), 1);
}

#[test]
fn one_join_at_a_time() {
    let mut explorer =
        Some(space_explorer::State::open("!s".to_string(), "Space".to_string(), 1));
    let join = |id: &str| space_explorer::Message::Join {
        room_id: id.to_string(),
        via: vec!["x.org".to_string()],
    };
    assert!(matches!(
        space_explorer::update(&mut explorer, join("!a"), 2),
        space_explorer::Step::Join { room_id, via }
            if room_id == "!a" && via == vec!["x.org".to_string()]
    ));
    assert!(matches!(
        space_explorer::update(&mut explorer, join("!b"), 3),
        space_explorer::Step::Nothing
    ));
    let state = explorer.as_mut().unwrap();
    let row = space_explorer::child_row(state, &child("!a", false));
    assert!(matches!(row.trailing, space_explorer::Trailing::Joining));
    assert!(state.handle_success(2));
    let row = space_explorer::child_row(state, &child("!a", false));
    assert!(matches!(row.trailing, space_explorer::Trailing::Joined));
    let row = space_explorer::child_row(state, &child("!b", false));
    assert!(matches!(row.trailing, space_explorer::Trailing::Join { enabled: true }));
    let mut closed = child("!c", false);
    closed.join_rule = SpaceJoinRule::InviteOnly;
    let row = space_explorer::child_row(state, &closed);
    assert!(matches!(row.trailing, space_explorer::Trailing::InviteOnly));
    assert_eq!(space_explorer::topic_snippet(&"x".repeat(100)).chars().count(), 91);
}

#[test]
fn a_refused_join_shows_at_its_room() {
    let mut explorer =
        Some(space_explorer::State::open("!s".to_string(), "Space".to_string(), 1));
    let join = space_explorer::Message::Join { room_id: "!a".to_string(), via: vec![] };
    space_explorer::update(&mut explorer, join, 2);
    let state = explorer.as_mut().unwrap();
    assert!(state.handle_failure(2, "banned"));
    let row = space_explorer::child_row(state, &child("!a", false));
    assert!(row.error.unwrap().contains("banned"));
    assert!(space_explorer::child_row(state, &child("!b", false)).error.is_none());
    assert!(state.handle_failure(1, "offline"));
    assert!(matches!(space_explorer::footer(&state.stack[0]), space_explorer::Footer::Failed));
}

// Verification.

#[test]
fn recovery_is_set_up_once() {
    let mut state = verification::State::default();
    assert!(matches!(
        verification::update(&mut state, verification::Message::ConfirmEnableRecovery),
        verification::Effect::EnableRecovery { passphrase: None }
    ));
    assert!(matches!(
        verification::update(&mut state, verification::Message::ConfirmEnableRecovery),
        verification::Effect::Nothing
    ));
    assert_ne!(
        verification::stage_label(RecoveryEnableStage::Starting),
        verification::stage_label(RecoveryEnableStage::BackingUp)
    );
}

#[test]
fn a_request_can_be_accepted_or_declined() {
    let asked = SasState::RequestReceived { from_user_id: "@bob:x".to_string() };
    let card = verification::sas_card(&asked);
    assert!(card.title.contains("@bob:x"), "{}", card.title);
    assert!(matches!(card.buttons, verification::SasButtons::AcceptOrDecline));
    let emojis = SasState::EmojisReady(vec![("🐶".to_string(), "Dog".to_string())]);
    let card = verification::sas_card(&emojis);
    assert!(card.emojis);
    assert!(matches!(card.buttons, verification::SasButtons::MatchOrNot));
    let mut state = verification::State::default();
    state.sas = Some(asked);
    assert!(matches!(
        verification::update(&mut state, verification::Message::AcceptVerification),
        verification::Effect::AcceptVerificationRequest
    ));
    assert!(matches!(
        verification::update(&mut state, verification::Message::DeclineVerification),
        verification::Effect::VerificationCancel
    ));
    assert!(state.sas.is_none());
}

#[test]
fn a_new_recovery_key_is_shown_until_it_is_saved() {
    let mut state = verification::State::default();
    state.recovery_key_to_confirm = Some("key".to_string());
    assert!(matches!(
        verification::recovery_settings_view(&state),
        verification::RecoveryView::SaveKey(key) if key == "key"
    ));
    verification::update(&mut state, verification::Message::RecoveryKeySaved);
    assert!(matches!(
        verification::recovery_settings_view(&state),
        verification::RecoveryView::Sections { .. }
    ));
}

// Settings.

#[test]
fn nothing_is_shared_by_default() {
    let privacy = PrivacyConfig::default();
    assert!(!privacy.send_read_receipts);
    assert!(!privacy.send_typing_notifications);
    assert!(!privacy.enable_link_previews);
    let mut privacy = privacy;
    assert!(privacy::update(&mut privacy, privacy::Message::TypingToggled(true)));
    assert!(privacy.send_typing_notifications);
    assert!(!privacy::update(&mut privacy, privacy::Message::Saved));
    let mut encryption = EncryptionConfig::default();
    let rooms = encryption.encrypt_rooms;
    assert!(encryption::update(&mut encryption, encryption::Message::RoomsToggled(!rooms)));
    assert_eq!(encryption.encrypt_rooms, !rooms);
}

#[test]
fn notification_choices_and_modes_correspond() {
    for choice in mode_choices() {
        assert_eq!(ModeChoice::from_mode(choice.to_mode()), choice);
        assert!(!choice.label().is_empty());
    }
    assert!(matches!(
        notifications::update(notifications::Message::DirectDefaultChanged(ModeChoice::Mute)),
        settings::Effect::SetDefaultNotificationMode {
            scope: NotificationScope::DirectMessages,
            mode: NotificationMode::Mute,
        }
    ));
}

#[test]
fn a_connector_is_watched_once_it_is_on() {
    let mut config = ConnectorsConfig {
        steam_enabled: false,
        gog_enabled: false,
        epic_enabled: false,
        announce_stop: false,
        poll_interval_secs: 60,
    };
    assert!(!config.any_enabled());
    assert!(connectors::update(&mut config, connectors::Message::GogToggled(true)));
    assert!(config.any_enabled());
    connectors::update(&mut config, connectors::Message::AnnounceStopToggled(true));
    assert!(config.announce_stop);
}

#[test]
fn the_panel_hands_messages_to_its_tabs() {
    let theme = ThemeConfig::default();
    let mut state = settings::State::new(&theme, true);
    assert!(state.general.autostart_enabled);
    let mut edited = settings::Edited {
        theme,
        privacy: PrivacyConfig::default(),
        encryption: EncryptionConfig::default(),
        configs: Configs {
            spellcheck: SpellcheckConfig { enabled: true, autocorrect: true },
            chat: ChatConfig { show_membership_events: true },
            window: WindowConfig { prefer_integrated_gpu: false, prefer_dx12_backend: false },
            log: LogConfig { level: 0 },
        },
    };
    settings::update(
        &mut state,
        &mut edited,
        settings::Message::TabSelected(settings::Tab::Privacy),
    );
    assert_eq!(state.tab, settings::Tab::Privacy);
    let (task, _) = settings::update(
        &mut state,
        &mut edited,
        settings::Message::Privacy(privacy::Message::LinkPreviewsToggled(true)),
    );
    assert!(matches!(task, settings::Task::SavePrivacy));
    assert!(edited.privacy.enable_link_previews);
    assert!(settings::tabs().contains(&settings::Tab::Appearance));
}
