//! The state of the application.

use vstd::prelude::*;

use crate::events::{EmojiPack, NotificationMode, SyncState};
use crate::media;
use crate::previews;
use crate::previews::Previews;
use crate::screens::call;
use crate::screens::dm_search;
use crate::screens::login;
use crate::screens::room_list;
use crate::screens::settings;
use crate::screens::settings::Edited;
use crate::screens::space_explorer;
use crate::screens::timeline;
use crate::screens::timeline::body::ShortcodeIndex;
use crate::screens::timeline::Point;
use crate::screens::verification;
use crate::string_map::StringMap;
use crate::text;

pub use crate::stickers::{CollectedSticker, MAX_COLLECTED_STICKERS};

verus! {

/// The open question whether to leave, forget or rename a room.
#[derive(Debug)]
pub struct RoomActionPrompt {
    pub room_id: String,
    pub room_name: String,
    pub is_dm: bool,
    /// The room's new name, as it is typed.
    pub rename_draft: String,
}

/// A size, as the bit patterns of `f32`s.
#[derive(Debug, Clone, Copy, PartialEq, Eq, Structural)]
pub struct Size {
    pub width: u32,
    pub height: u32,
}

/// The width of the settings panel: 760.0 as an `f32`.
pub const DEFAULT_SETTINGS_WIDTH: u32 = 0x443E_0000;

/// The height of the settings panel: 640.0 as an `f32`.
pub const DEFAULT_SETTINGS_HEIGHT: u32 = 0x4420_0000;

/// A drag of the settings panel's grip.
#[derive(Debug, Clone, Copy, PartialEq, Eq, Structural)]
pub struct ResizeDrag {
    pub size_at_start: Size,
    /// Where the drag is measured from: the first move sets it, since a press
    /// comes without a position.
    pub anchor: Option<Point>,
}

/// What shows.
#[derive(Debug, Clone, Copy, PartialEq, Eq, Structural)]
pub enum Route {
    /// No session: the login screen.
    Login,
    /// The rooms and the timeline.
    Main,
}

/// The application.
#[derive(Debug)]
pub struct App {
    pub route: Route,
    pub profile: String,
    /// Whether there is a session. It starts the sync worker.
    pub signed_in: bool,
    /// Whether the sync worker takes commands.
    pub connected: bool,
    pub sync_state: SyncState,
    pub own_user_id: Option<String>,
    pub login: login::State,
    pub room_list: room_list::State,
    pub timeline: timeline::State,
    pub verification: verification::State,
    pub settings: settings::State,
    pub call: call::State,
    pub media: media::State,
    pub emoji_packs: Vec<EmojiPack>,
    /// The rooms with an override; others follow the account.
    pub notification_modes: StringMap<NotificationMode>,
    /// The account's defaults, for direct messages and for group chats.
    pub default_notification_modes: (NotificationMode, NotificationMode),
    /// The theme and the settings.
    pub edited: Edited,
    pub show_settings: bool,
    pub cursor_position: Point,
    pub settings_panel_size: Size,
    pub settings_resize_drag: Option<ResizeDrag>,
    /// The image that is open in the viewer.
    pub zoomed_image: Option<String>,
    pub pending_room_action: Option<RoomActionPrompt>,
    pub space_explorer: Option<space_explorer::State>,
    pub dm_search: Option<dm_search::State>,
    pub previews: Previews,
    /// How often each emoji was used.
    pub emoji_usage: StringMap<u32>,
    pub emoji_shortcode_index: ShortcodeIndex,
    /// Most recent first.
    pub sticker_collection: Vec<CollectedSticker>,
    /// The room to reopen once the sync brings it.
    pub pending_restore_room: Option<String>,
}

/// What was stored, and what the system says.
#[derive(Debug)]
pub struct Loaded {
    pub edited: Edited,
    pub autostart_enabled: bool,
    pub emoji_usage: StringMap<u32>,
    pub sticker_collection: Vec<CollectedSticker>,
    /// The contents of the file that names the last room.
    pub last_room: Option<String>,
}

/// The room that a file names: nothing where it is blank.
pub open spec fn named_room(contents: Option<Seq<char>>) -> Option<Seq<char>> {
    match contents {
        Some(s) => if text::trimmed(s).len() > 0 {
            Some(text::trimmed(s))
        } else {
            None
        },
        None => None,
    }
}

/// The room that was open when the application was last left. A file that is
/// missing or blank names none.
pub fn load_last_room(contents: &Option<String>) -> (r: Option<String>)
    ensures
        text::opt_view(r) == named_room(text::opt_view(*contents)),
{
    match contents {
        Some(s) => {
            let room_id = text::trim(s.as_str());
            if room_id.unicode_len() > 0 {
                Some(room_id.to_owned())
            } else {
                None
            }
        },
        None => None,
    }
}

impl App {
    /// The parts are in order.
    pub open spec fn wf(&self) -> bool {
        &&& self.timeline.wf()
        &&& self.settings.wf()
        &&& self.space_explorer matches Some(s) ==> s.wf()
    }

    /// Nothing has happened yet but what was loaded.
    pub open spec fn is_new(&self, profile: String, loaded: Loaded) -> bool {
        &&& self.route == Route::Login
        &&& self.profile == profile
        &&& !self.signed_in
        &&& !self.connected
        &&& self.sync_state is Connecting
        &&& self.own_user_id is None
        &&& self.login.fresh()
        &&& self.room_list.fresh()
        &&& self.timeline.fresh()
        &&& self.verification.fresh()
        &&& self.settings.appearance.shows(loaded.edited.theme)
        &&& self.settings.general.autostart_enabled == loaded.autostart_enabled
        &&& self.call.fresh()
        &&& self.media.fresh()
        &&& self.emoji_packs@.len() == 0
        &&& self.notification_modes@ == Map::<Seq<char>, NotificationMode>::empty()
        &&& self.default_notification_modes == (
            NotificationMode::AllMessages,
            NotificationMode::AllMessages,
        )
        &&& self.edited == loaded.edited
        &&& !self.show_settings
        &&& self.cursor_position == (Point { x: 0, y: 0 })
        &&& self.settings_panel_size == (Size {
            width: DEFAULT_SETTINGS_WIDTH,
            height: DEFAULT_SETTINGS_HEIGHT,
        })
        &&& self.settings_resize_drag is None
        &&& self.zoomed_image is None
        &&& self.pending_room_action is None
        &&& self.space_explorer is None
        &&& self.dm_search is None
        &&& self.previews@ == (previews::PreviewMaps {
            links: Map::empty(),
            tweets: Map::empty(),
            apps: Map::empty(),
        })
        &&& self.emoji_usage == loaded.emoji_usage
        &&& self.emoji_shortcode_index.entries@.len() == 0
        &&& self.sticker_collection == loaded.sticker_collection
        &&& text::opt_view(self.pending_restore_room) == named_room(
            text::opt_view(loaded.last_room),
        )
    }

    /// The application as it starts.
    pub fn new(profile: String, loaded: Loaded) -> (r: Self)
        ensures
            r.wf(),
            r.is_new(profile, loaded),
    {
        let pending_restore_room = load_last_room(&loaded.last_room);
        let settings = settings::State::new(&loaded.edited.theme, loaded.autostart_enabled);
        App {
            route: Route::Login,
            profile,
            signed_in: false,
            connected: false,
            sync_state: SyncState::Connecting,
            own_user_id: None,
            login: login::State::default(),
            room_list: room_list::State::default(),
            timeline: timeline::State::new(),
            verification: verification::State::default(),
            settings,
            call: call::State::default(),
            media: media::State::default(),
            emoji_packs: Vec::new(),
            notification_modes: StringMap::new(),
            default_notification_modes: (
                NotificationMode::AllMessages,
                NotificationMode::AllMessages,
            ),
            edited: loaded.edited,
            show_settings: false,
            cursor_position: Point { x: 0, y: 0 },
            settings_panel_size: Size {
                width: DEFAULT_SETTINGS_WIDTH,
                height: DEFAULT_SETTINGS_HEIGHT,
            },
            settings_resize_drag: None,
            zoomed_image: None,
            pending_room_action: None,
            space_explorer: None,
            dm_search: None,
            previews: Previews::new(),
            emoji_usage: loaded.emoji_usage,
            emoji_shortcode_index: ShortcodeIndex::new(),
            sticker_collection: loaded.sticker_collection,
            pending_restore_room,
        }
    }

    /// Takes a session over, restored or new.
    pub fn adopt_client(&mut self, user_id: Option<String>)
        ensures
            *final(self) == (App {
                own_user_id: user_id,
                signed_in: true,
                route: Route::Main,
                ..*old(self)
            }),
    {
        self.own_user_id = user_id;
        self.signed_in = true;
        self.route = Route::Main;
    }
}

} // verus!
