//! The message timeline of the open room: the composer, reactions, inline
//! edit and delete of one's own messages, search, the member list, and the
//! scroll position.

pub mod body;
pub mod cards;
pub mod composer;
pub mod editor;
pub mod members;
pub mod rows;
pub mod scroll;
pub mod search;
pub mod spell;
pub mod upload;
pub mod video;
pub mod view;

use vstd::prelude::*;

use crate::events::{
    EmbedVideo, NotificationMode, PowerLevelTag, ReplyPreview, RequestId, TimelineItem,
};
use crate::spellcheck::SpellError;
use crate::spellcheck_config::SpellcheckConfig;
use crate::text;

pub use crate::screens::timeline::composer::Point;
pub use crate::screens::timeline::scroll::{
    Geometry, Measured, ProbePurpose, Scroll, ScrollAnchor,
};

verus! {

/// The options of the room's notification menu. `Default` means "no override
/// for this room": follow the account.
#[derive(Debug, Clone, Copy, PartialEq, Eq, Structural)]
pub enum NotifyChoice {
    Default,
    All,
    Mentions,
    Mute,
}

/// A message being edited in place.
#[derive(Debug)]
pub struct EditingState {
    pub event_id: String,
    pub draft: String,
}

/// A rectangle of the window, as the bit patterns of `f32`s.
#[derive(Debug, Clone, Copy, PartialEq, Eq, Structural)]
pub struct Rect {
    pub x: u32,
    pub y: u32,
    pub width: u32,
    pub height: u32,
}

/// A video playing inline in place of its link card.
#[derive(Debug)]
pub struct InlineVideo {
    /// The message whose card is playing.
    pub event_id: String,
    pub video: EmbedVideo,
    /// The card's title at click time.
    pub title: Option<String>,
    /// Why the player could not start.
    pub error: Option<String>,
    /// The window's scale factor, once known, as the bit pattern of an `f32`.
    pub scale: Option<u32>,
    /// Whether the native player exists.
    pub live: bool,
    /// The geometry last handed to the player: the whole stage, and what of
    /// it is visible.
    pub synced: Option<(Rect, Option<Rect>)>,
    /// How many probes in a row did not find the stage.
    pub misses: u32,
}

/// The timeline of the open room.
#[derive(Debug)]
pub struct State {
    pub room_id: Option<String>,
    pub items: Vec<TimelineItem>,
    pub composer: composer::State,
    /// The items that match the active search, by index.
    pub search_matches: Vec<usize>,
    /// The first URL of each item's text, index-parallel to `items`.
    pub first_urls: Vec<Option<String>>,
    pub editing: Option<EditingState>,
    pub confirm_delete: Option<String>,
    pub pending_edit_request: Option<RequestId>,
    pub pending_redact_request: Option<RequestId>,
    pub typing_users: Vec<String>,
    pub action_error: Option<String>,
    /// The message whose reaction picker is open.
    pub reacting_to: Option<String>,
    /// Where the open picker anchors; unknown until its probe lands.
    pub reaction_anchor_y: Option<u32>,
    pub search_open: bool,
    pub search_query: String,
    pub notify_menu_open: bool,
    pub reached_start: bool,
    pub loading_older: bool,
    pub pending_paginate_request: Option<RequestId>,
    pub hide_members: bool,
    /// The room's named power levels, highest first.
    pub power_tags: Vec<PowerLevelTag>,
    /// The member highlighted in the list.
    pub selected_member: Option<String>,
    /// The member whose messages are tinted.
    pub highlighted_member: Option<String>,
    /// The member whose actions menu is open.
    pub member_menu: Option<String>,
    /// Where that menu is pinned: frozen when it opened.
    pub member_menu_anchor_y: u32,
    pub member_cursor: Option<Point>,
    /// The last click in the list: on whom, and when, in nanoseconds.
    pub last_member_click: Option<(String, u64)>,
    /// Whether the view is at the newest message: the sole gate for read
    /// receipts.
    pub at_bottom: bool,
    /// The message tinted after a jump.
    pub highlighted_event_id: Option<String>,
    /// A jump deferred until the list has its full length again.
    pub pending_jump: Option<String>,
    pub hovered_event_id: Option<String>,
    pub last_seen_newest: Option<String>,
    /// Hide the "new messages" divider: this client marked the room read.
    pub suppress_unread_divider: bool,
    pub scroll_anchor: Option<ScrollAnchor>,
    pub geometry: Geometry,
    /// Bumped on every scroll and every correction. A probe issued under an
    /// older generation measured a world that has since moved.
    pub scroll_generation: u64,
    /// Whether the latest scroll input moved toward the bottom.
    pub descending: bool,
    /// When it happened, in nanoseconds.
    pub last_scroll_input: Option<u64>,
    pub inline_video: Option<InlineVideo>,
    /// Where an active autoscroll started.
    pub autoscroll: Option<Point>,
}

/// What the timeline reacts to.
#[derive(Debug)]
pub enum Message {
    Composer(composer::Message),
    StartEdit { event_id: String, current_body: String },
    EditDraftChanged(String),
    ConfirmEdit,
    CancelEdit,
    RequestDelete(String),
    ConfirmDelete(String),
    CancelDelete,
    ToggleReactionPicker(String),
    ReactWithEmoji { event_id: String, key: String },
    /// Retry the room's failed sends.
    RetrySend,
    ItemHovered(String),
    ItemUnhovered(String),
    ToggleSearch,
    ToggleMembers,
    ToggleNotifyMenu,
    /// A member was clicked, at this time in nanoseconds.
    MemberClicked(String, u64),
    MemberRightClicked(String),
    MemberCursorMoved(Point),
    MemberMenuDirectMessage(String),
    MemberMenuNewRoom(String),
    MemberMenuHighlight(String),
    SearchQueryChanged(String),
    NotificationModeSelected(NotifyChoice),
    LoadOlder,
    Scrolled(Scroll),
    /// A probe of a message's row resolved: nothing where the row is not on
    /// screen, or clipped at the viewport's top edge.
    AnchorProbed {
        event_id: String,
        purpose: ProbePurpose,
        generation: u64,
        measured: Option<Measured>,
    },
    /// The reaction picker's probe resolved: where the picker opens.
    ReactionAnchorProbed { event_id: String, y: u32 },
    StartReply(ReplyPreview),
    /// A quote was clicked: go to the quoted message.
    JumpToEvent(String),
    JumpToLatest,
    ZoomImage(String),
    OpenUrl(String),
    PlayVideo { event_id: String, video: EmbedVideo, title: Option<String> },
    StopVideo,
    OpenVideoExternally(String),
    JoinCallClicked,
    LeaveCallClicked,
    DismissCallError,
    AutoscrollToggle,
}

/// What is to be carried out beyond the timeline.
#[derive(Debug)]
pub enum Effect {
    Nothing,
    Composer(composer::Effect),
    Edit { event_id: String, new_body: String },
    Redact { event_id: String },
    ToggleReaction { event_id: String, key: String },
    /// Re-enable the open room's send queue.
    RetrySend,
    EnsureEmojiFetched,
    /// `None` clears the room's override.
    SetNotificationMode(Option<NotificationMode>),
    PaginateBackwards,
    ZoomImage(String),
    OpenDirectMessage(String),
    CreateRoomWith(String),
    PlayVideo { event_id: String, video: EmbedVideo, title: Option<String> },
    StopVideo,
    /// The newest message came into view: mark the room read.
    MaybeMarkRead,
    JoinCall,
    LeaveCall,
    DismissCallError,
    ToggleAutoscroll,
}

/// What the widgets are to do after an update.
#[derive(Debug)]
pub enum Task {
    Nothing,
    Composer(composer::Followup),
    /// Measure these messages' rows, and pin the current scroll position as
    /// fixed pixels where `repin` is set.
    Probe { event_ids: Vec<String>, purpose: ProbePurpose, generation: u64, repin: bool },
    /// Scroll to the newest message.
    ToBottom,
    /// Scroll to where the item is estimated to be.
    ToItem { index: usize, len: usize },
    /// Scroll by as far as the probed row has moved.
    UndoDisplacement,
    /// Measure the row that the reaction picker opens at.
    ProbeReaction(String),
    OpenUrl(String),
}

/// How soon a second click on the same member must follow.
pub const MEMBER_DOUBLE_CLICK_NS: u64 = 400_000_000;

// ---------------------------------------------------------------------------
// Notification choices.
// ---------------------------------------------------------------------------
impl NotifyChoice {
    /// What the option reads.
    pub open spec fn label_of(self) -> Seq<char> {
        match self {
            NotifyChoice::Default => "Default"@,
            NotifyChoice::All => "All messages"@,
            NotifyChoice::Mentions => "Mentions only"@,
            NotifyChoice::Mute => "Mute"@,
        }
    }

    /// What the option reads.
    pub fn label(&self) -> (r: &'static str)
        ensures
            r@ == self.label_of(),
    {
        match self {
            NotifyChoice::Default => "Default",
            NotifyChoice::All => "All messages",
            NotifyChoice::Mentions => "Mentions only",
            NotifyChoice::Mute => "Mute",
        }
    }

    /// The option for a room's override.
    pub open spec fn of_mode(mode: Option<NotificationMode>) -> NotifyChoice {
        match mode {
            None => NotifyChoice::Default,
            Some(NotificationMode::AllMessages) => NotifyChoice::All,
            Some(NotificationMode::MentionsAndKeywordsOnly) => NotifyChoice::Mentions,
            Some(NotificationMode::Mute) => NotifyChoice::Mute,
        }
    }

    /// The override that the option stands for.
    pub open spec fn mode_of(self) -> Option<NotificationMode> {
        match self {
            NotifyChoice::Default => None,
            NotifyChoice::All => Some(NotificationMode::AllMessages),
            NotifyChoice::Mentions => Some(NotificationMode::MentionsAndKeywordsOnly),
            NotifyChoice::Mute => Some(NotificationMode::Mute),
        }
    }

    /// The option for a room's override.
    pub fn from_mode(mode: Option<NotificationMode>) -> (r: Self)
        ensures
            r == Self::of_mode(mode),
    {
        match mode {
            None => NotifyChoice::Default,
            Some(NotificationMode::AllMessages) => NotifyChoice::All,
            Some(NotificationMode::MentionsAndKeywordsOnly) => NotifyChoice::Mentions,
            Some(NotificationMode::Mute) => NotifyChoice::Mute,
        }
    }

    /// The override that the option stands for.
    pub fn to_mode(self) -> (r: Option<NotificationMode>)
        ensures
            r == self.mode_of(),
    {
        match self {
            NotifyChoice::Default => None,
            NotifyChoice::All => Some(NotificationMode::AllMessages),
            NotifyChoice::Mentions => Some(NotificationMode::MentionsAndKeywordsOnly),
            NotifyChoice::Mute => Some(NotificationMode::Mute),
        }
    }
}

/// The options of the menu, in order.
pub fn notify_choices() -> (r: Vec<NotifyChoice>)
    ensures
        r@ == seq![
            NotifyChoice::Default,
            NotifyChoice::All,
            NotifyChoice::Mentions,
            NotifyChoice::Mute,
        ],
{
    let r = vec![
        NotifyChoice::Default,
        NotifyChoice::All,
        NotifyChoice::Mentions,
        NotifyChoice::Mute,
    ];
    assert(r@ =~= seq![
        NotifyChoice::Default,
        NotifyChoice::All,
        NotifyChoice::Mentions,
        NotifyChoice::Mute,
    ]);
    r
}

/// An option and the override it stands for determine each other.
pub proof fn law_choices_and_modes_correspond(choice: NotifyChoice, mode: Option<NotificationMode>)
    ensures
        NotifyChoice::of_mode(choice.mode_of()) == choice,
        NotifyChoice::of_mode(mode).mode_of() == mode,
{
}

// ---------------------------------------------------------------------------
// The model.
// ---------------------------------------------------------------------------
impl State {
    /// The composer is in order.
    pub open spec fn wf(&self) -> bool {
        self.composer.wf()
    }

    /// No room, nothing loaded, nothing under way.
    pub open spec fn fresh(&self) -> bool {
        &&& self.room_id is None
        &&& self.items@.len() == 0
        &&& self.composer.fresh()
        &&& self.search_matches@.len() == 0
        &&& self.first_urls@.len() == 0
        &&& self.editing is None
        &&& self.confirm_delete is None
        &&& self.pending_edit_request is None
        &&& self.pending_redact_request is None
        &&& self.typing_users@.len() == 0
        &&& self.action_error is None
        &&& self.reacting_to is None
        &&& self.reaction_anchor_y is None
        &&& !self.search_open
        &&& self.search_query@.len() == 0
        &&& !self.notify_menu_open
        &&& !self.reached_start
        &&& !self.loading_older
        &&& self.pending_paginate_request is None
        &&& !self.hide_members
        &&& self.power_tags@.len() == 0
        &&& self.selected_member is None
        &&& self.highlighted_member is None
        &&& self.member_menu is None
        &&& self.member_menu_anchor_y == 0
        &&& self.member_cursor is None
        &&& self.last_member_click is None
        &&& !self.at_bottom
        &&& self.highlighted_event_id is None
        &&& self.pending_jump is None
        &&& self.hovered_event_id is None
        &&& self.last_seen_newest is None
        &&& !self.suppress_unread_divider
        &&& self.scroll_anchor is None
        &&& self.geometry == (Geometry {
            content_height: 0,
            from_bottom: 0,
            bounds_height: 0,
            viewport_top: 0,
            viewport_center: 0,
        })
        &&& self.scroll_generation == 0
        &&& !self.descending
        &&& self.last_scroll_input is None
        &&& self.inline_video is None
        &&& self.autoscroll is None
    }
}

/// Whether an optional string is exactly this one.
pub open spec fn is_this(o: Option<String>, s: Seq<char>) -> bool {
    text::opt_view(o) == Some(s)
}

/// Whether an optional string is exactly this one.
pub fn opt_is(o: &Option<String>, s: &str) -> (r: bool)
    ensures
        r == is_this(*o, s@),
{
    match o {
        Some(x) => text::str_eq(x.as_str(), s),
        None => false,
    }
}

/// The query and the items decide which items match; nothing else changes.
pub open spec fn refiltered(
    before: State,
    after: State,
    show_membership_events: bool,
) -> bool {
    &&& text::ints(after.search_matches@) == search::hits(
        before.items@,
        before.search_open,
        before.search_query@,
        show_membership_events,
    )
    &&& after == (State { search_matches: after.search_matches, ..before })
}

/// What toggling the search leaves: a closed search has no query, and the
/// anchor's place in the rebuilt list means nothing.
pub open spec fn search_toggled(
    before: State,
    after: State,
    show_membership_events: bool,
) -> bool {
    &&& after.search_open == !before.search_open
    &&& after.search_query@ == if before.search_open {
        Seq::empty()
    } else {
        before.search_query@
    }
    &&& text::ints(after.search_matches@) == search::hits(
        before.items@,
        after.search_open,
        after.search_query@,
        show_membership_events,
    )
    &&& after == (State {
        search_open: after.search_open,
        search_query: after.search_query,
        search_matches: after.search_matches,
        scroll_anchor: None,
        ..before
    })
}

/// What a change of the query leaves.
pub open spec fn requeried(
    before: State,
    after: State,
    query: String,
    show_membership_events: bool,
) -> bool {
    &&& text::ints(after.search_matches@) == search::hits(
        before.items@,
        before.search_open,
        query@,
        show_membership_events,
    )
    &&& after == (State {
        search_query: query,
        search_matches: after.search_matches,
        scroll_anchor: None,
        ..before
    })
}

/// Whether two clicks on the same member make a double click.
pub open spec fn double_click(last: Option<(String, u64)>, user_id: Seq<char>, now: u64) -> bool {
    last matches Some((prev, at)) && prev@ == user_id && now - at < MEMBER_DOUBLE_CLICK_NS
}

/// Turns the choice of a string off where it is made, and on otherwise.
pub open spec fn flipped(o: Option<String>, s: String) -> Option<String> {
    if is_this(o, s@) {
        None
    } else {
        Some(s)
    }
}

/// What a click on a member leaves: a double click opens a direct message, a
/// single one toggles the highlight in the list.
pub open spec fn member_clicked(
    before: State,
    after: State,
    user_id: String,
    now: u64,
    effect: Effect,
) -> bool {
    if double_click(before.last_member_click, user_id@, now) {
        &&& after == (State { member_menu: None, last_member_click: None, ..before })
        &&& effect == Effect::OpenDirectMessage(user_id)
    } else {
        &&& after == (State {
            member_menu: None,
            last_member_click: Some((user_id, now)),
            selected_member: flipped(before.selected_member, user_id),
            ..before
        })
        &&& effect is Nothing
    }
}

/// What a right click on a member leaves: its menu opens, or closes where it
/// was open.
pub open spec fn member_menu_toggled(before: State, after: State, user_id: String) -> bool {
    if is_this(before.member_menu, user_id@) {
        after == (State { member_menu: None, ..before })
    } else {
        after == (State {
            selected_member: Some(user_id),
            member_menu: Some(user_id),
            member_menu_anchor_y: match before.member_cursor {
                Some(p) => p.y,
                None => 0,
            },
            ..before
        })
    }
}

/// Whether input happened shortly before `now`.
pub open spec fn recently(s: State, now: u64) -> bool {
    scroll::within(s.last_scroll_input, now, scroll::SCROLL_GRACE_NS)
}

/// The state with what a scroll reports taken over: the geometry always, the
/// direction and the time on real input.
pub open spec fn with_scroll(s: State, v: Scroll) -> State {
    State {
        geometry: v.geometry,
        pending_jump: None,
        at_bottom: v.at_bottom,
        descending: if v.user_scrolled {
            v.moved_toward_bottom
        } else {
            s.descending
        },
        last_scroll_input: if v.user_scrolled {
            Some(v.now)
        } else {
            s.last_scroll_input
        },
        ..s
    }
}

/// The probe candidates of a state.
pub open spec fn candidates_of(s: State, v: Scroll) -> Seq<Seq<char>> {
    scroll::candidates(s.items@, s.hovered_event_id, s.scroll_anchor, v.fits, v.middle as int)
}

/// Whether the task probes exactly these messages.
pub open spec fn probes(
    task: Task,
    ids: Seq<Seq<char>>,
    why: ProbePurpose,
    under: u64,
    pin: bool,
) -> bool {
    task matches Task::Probe { event_ids, purpose, generation, repin } && text::views(event_ids@)
        == ids && purpose == why && generation == under && repin == pin
}

/// Where a deferred jump goes, if there is one and its message is loaded.
pub open spec fn jump_target(s: State) -> Option<int> {
    match s.pending_jump {
        Some(id) => scroll::position(s.items@, id@),
        None => None,
    }
}

/// What a moved offset leaves: a new generation, and the anchor measured
/// afresh, or dropped where the bottom holds the view or nothing can be
/// probed. Near the top more history is loaded, on pure input only.
pub open spec fn rescrolled(
    before: State,
    after: State,
    v: Scroll,
    task: Task,
    effect: Effect,
) -> bool {
    let g = scroll::next_generation(before.scroll_generation);
    let ids = if v.at_bottom {
        Seq::empty()
    } else {
        candidates_of(before, v)
    };
    let arrived = !before.at_bottom && v.at_bottom;
    let load = !v.reflowed && v.near_top && !before.loading_older && !before.reached_start;
    &&& after == (State {
        scroll_generation: g,
        scroll_anchor: if ids.len() == 0 {
            None
        } else {
            before.scroll_anchor
        },
        loading_older: before.loading_older || load,
        ..with_scroll(before, v)
    })
    &&& probes(
        task,
        ids,
        ProbePurpose::Refresh,
        g,
        v.user_scrolled && v.reflowed && !recently(before, v.now),
    )
    &&& effect == if load {
        Effect::PaginateBackwards
    } else if arrived {
        Effect::MaybeMarkRead
    } else {
        Effect::Nothing
    }
}

/// What a reflow under a stationary user leaves. Near the live edge a gap is
/// closed, unless the user is leaving; while descending nothing is corrected;
/// otherwise the anchor's displacement is measured, or a new anchor found.
pub open spec fn reflowed(
    before: State,
    after: State,
    v: Scroll,
    task: Task,
    effect: Effect,
) -> bool {
    let mid = with_scroll(before, v);
    let recent = recently(before, v.now);
    &&& effect is Nothing
    &&& if v.near_edge {
        &&& after == mid
        &&& if v.gap && !(recent && !before.descending) {
            task is ToBottom
        } else {
            task is Nothing
        }
    } else if before.descending && recent {
        after == mid && task is Nothing
    } else if v.at_bottom {
        after == mid && task is Nothing
    } else {
        match before.scroll_anchor {
            Some(a) if a.generation == before.scroll_generation => {
                &&& after == mid
                &&& probes(
                    task,
                    seq![a.event_id@],
                    ProbePurpose::Correct,
                    before.scroll_generation,
                    false,
                )
            },
            _ => {
                let g = scroll::next_generation(before.scroll_generation);
                &&& after == (State { scroll_generation: g, ..mid })
                &&& probes(task, candidates_of(before, v), ProbePurpose::Refresh, g, false)
            },
        }
    }
}

/// What a report of the list leaves.
pub open spec fn scrolled(
    before: State,
    after: State,
    v: Scroll,
    task: Task,
    effect: Effect,
) -> bool {
    match jump_target(before) {
        Some(i) => {
            &&& after == (State { geometry: v.geometry, pending_jump: None, ..before })
            &&& task == (Task::ToItem { index: i as usize, len: before.items@.len() as usize })
            &&& effect is Nothing
        },
        None => if v.user_scrolled || !v.reflowed {
            rescrolled(before, after, v, task, effect)
        } else {
            reflowed(before, after, v, task, effect)
        },
    }
}

/// Whether the anchor was measured under this generation.
pub open spec fn anchor_is_of(s: State, generation: u64) -> bool {
    s.scroll_anchor matches Some(a) && a.generation == generation
}

/// The state without an anchor of another generation.
pub open spec fn without_stale_anchor(s: State, generation: u64) -> State {
    if s.scroll_anchor is Some && !anchor_is_of(s, generation) {
        State { scroll_anchor: None, ..s }
    } else {
        s
    }
}

/// What a resolved probe leaves. A probe of an older generation changes
/// nothing but to drop an anchor as old. A fresh measurement becomes the
/// anchor where none of this generation lies nearer to the center. A
/// displacement is undone once: the generation moves on.
pub open spec fn probed(
    before: State,
    after: State,
    event_id: String,
    purpose: ProbePurpose,
    generation: u64,
    measured: Option<Measured>,
    task: Task,
) -> bool {
    if generation != before.scroll_generation {
        after == without_stale_anchor(before, before.scroll_generation) && task is Nothing
    } else {
        match (purpose, measured) {
            (ProbePurpose::Refresh, Some(m)) => {
                &&& task is Nothing
                &&& after == if !anchor_is_of(before, generation) || m.nearer {
                    State {
                        scroll_anchor: Some(ScrollAnchor { event_id, y: m.y, generation }),
                        ..before
                    }
                } else {
                    before
                }
            },
            (ProbePurpose::Refresh, None) => {
                after == without_stale_anchor(before, generation) && task is Nothing
            },
            (ProbePurpose::Correct, Some(m)) => {
                let current = before.scroll_anchor matches Some(a) && a.event_id@ == event_id@;
                if current && m.moved {
                    &&& after == (State {
                        scroll_generation: scroll::next_generation(before.scroll_generation),
                        ..before
                    })
                    &&& task is UndoDisplacement
                } else {
                    after == before && task is Nothing
                }
            },
            (ProbePurpose::Correct, None) => {
                after == (State { scroll_anchor: None, ..before }) && task is Nothing
            },
        }
    }
}

/// What a click on a quote leaves. An open search is closed, and the jump
/// waits for the list to have its full length; a message that is not loaded
/// asks for older history.
pub open spec fn jumped(
    before: State,
    after: State,
    event_id: String,
    task: Task,
    effect: Effect,
) -> bool {
    let closed = before.search_open;
    let at = scroll::position(before.items@, event_id@);
    let load = at is None && !before.loading_older && !before.reached_start;
    &&& closed ==> after.search_query@.len() == 0 && after.search_matches@.len() == 0
    &&& after == (State {
        search_open: false,
        search_query: if closed {
            after.search_query
        } else {
            before.search_query
        },
        search_matches: if closed {
            after.search_matches
        } else {
            before.search_matches
        },
        scroll_anchor: if closed {
            None
        } else {
            before.scroll_anchor
        },
        highlighted_event_id: if at is Some {
            Some(event_id)
        } else {
            before.highlighted_event_id
        },
        pending_jump: if at is Some && closed {
            Some(event_id)
        } else {
            before.pending_jump
        },
        loading_older: before.loading_older || load,
        ..before
    })
    &&& task == match at {
        Some(i) if !closed => Task::ToItem { index: i as usize, len: before.items@.len() as usize },
        _ => Task::Nothing,
    }
    &&& effect == if load {
        Effect::PaginateBackwards
    } else {
        Effect::Nothing
    }
}

/// What editing, deleting, reacting and replying leave.
pub open spec fn edit_updated(
    before: State,
    after: State,
    message: Message,
    task: Task,
    effect: Effect,
) -> bool {
    match message {
        Message::StartEdit { event_id, current_body } => {
            &&& after == (State {
                editing: Some(EditingState { event_id, draft: current_body }),
                ..before
            })
            &&& task is Nothing && effect is Nothing
        },
        Message::EditDraftChanged(draft) => {
            &&& after == (State {
                editing: match before.editing {
                    Some(e) => Some(EditingState { draft, ..e }),
                    None => None,
                },
                ..before
            })
            &&& task is Nothing && effect is Nothing
        },
        Message::ConfirmEdit => {
            &&& after == before
            &&& task is Nothing
            &&& match before.editing {
                Some(e) if text::trimmed(e.draft@).len() > 0 => effect matches Effect::Edit {
                    event_id,
                    new_body,
                } && event_id == e.event_id && new_body@ == text::trimmed(e.draft@),
                _ => effect is Nothing,
            }
        },
        Message::CancelEdit => {
            &&& after == (State { editing: None, ..before })
            &&& task is Nothing && effect is Nothing
        },
        Message::RequestDelete(event_id) => {
            &&& after == (State { confirm_delete: Some(event_id), ..before })
            &&& task is Nothing && effect is Nothing
        },
        Message::ConfirmDelete(event_id) => {
            &&& after == before
            &&& task is Nothing && effect == (Effect::Redact { event_id })
        },
        Message::CancelDelete => {
            &&& after == (State { confirm_delete: None, ..before })
            &&& task is Nothing && effect is Nothing
        },
        Message::ToggleReactionPicker(event_id) => {
            &&& after == (State {
                reacting_to: flipped(before.reacting_to, event_id),
                reaction_anchor_y: None,
                ..before
            })
            &&& if is_this(before.reacting_to, event_id@) {
                task is Nothing && effect is Nothing
            } else {
                task == Task::ProbeReaction(event_id) && effect is EnsureEmojiFetched
            }
        },
        Message::ReactionAnchorProbed { event_id, y } => {
            &&& after == if is_this(before.reacting_to, event_id@) {
                State { reaction_anchor_y: Some(y), ..before }
            } else {
                before
            }
            &&& task is Nothing && effect is Nothing
        },
        Message::ReactWithEmoji { event_id, key } => {
            &&& after == (State { reacting_to: None, ..before })
            &&& task is Nothing && effect == (Effect::ToggleReaction { event_id, key })
        },
        Message::RetrySend => after == before && task is Nothing && effect is RetrySend,
        Message::StartReply(preview) => {
            &&& after == (State {
                composer: composer::State { replying_to: Some(preview), ..before.composer },
                ..before
            })
            &&& task is Nothing && effect is Nothing
        },
        _ => false,
    }
}

/// What the member list and the notification menu leave.
pub open spec fn member_updated(
    before: State,
    after: State,
    message: Message,
    task: Task,
    effect: Effect,
) -> bool {
    match message {
        Message::ToggleMembers => {
            &&& after == (State {
                hide_members: !before.hide_members,
                scroll_anchor: None,
                ..before
            })
            &&& task is Nothing && effect is Nothing
        },
        Message::ToggleNotifyMenu => {
            &&& after == (State { notify_menu_open: !before.notify_menu_open, ..before })
            &&& task is Nothing && effect is Nothing
        },
        Message::MemberClicked(user_id, now) => {
            &&& member_clicked(before, after, user_id, now, effect)
            &&& task is Nothing
        },
        Message::MemberRightClicked(user_id) => {
            &&& member_menu_toggled(before, after, user_id)
            &&& task is Nothing && effect is Nothing
        },
        Message::MemberCursorMoved(point) => {
            &&& after == (State { member_cursor: Some(point), ..before })
            &&& task is Nothing && effect is Nothing
        },
        Message::MemberMenuDirectMessage(user_id) => {
            &&& after == (State { member_menu: None, ..before })
            &&& task is Nothing && effect == Effect::OpenDirectMessage(user_id)
        },
        Message::MemberMenuNewRoom(user_id) => {
            &&& after == (State { member_menu: None, ..before })
            &&& task is Nothing && effect == Effect::CreateRoomWith(user_id)
        },
        Message::MemberMenuHighlight(user_id) => {
            &&& after == (State {
                member_menu: None,
                highlighted_member: flipped(before.highlighted_member, user_id),
                ..before
            })
            &&& task is Nothing && effect is Nothing
        },
        Message::NotificationModeSelected(choice) => {
            &&& after == (State { notify_menu_open: false, ..before })
            &&& task is Nothing && effect == Effect::SetNotificationMode(choice.mode_of())
        },
        _ => false,
    }
}

/// What searching, scrolling and jumping leave.
pub open spec fn list_updated(
    before: State,
    after: State,
    message: Message,
    show_membership_events: bool,
    task: Task,
    effect: Effect,
) -> bool {
    match message {
        Message::ItemHovered(event_id) => {
            &&& after == (State { hovered_event_id: Some(event_id), ..before })
            &&& task is Nothing && effect is Nothing
        },
        Message::ItemUnhovered(event_id) => {
            &&& after == if is_this(before.hovered_event_id, event_id@) {
                State { hovered_event_id: None, ..before }
            } else {
                before
            }
            &&& task is Nothing && effect is Nothing
        },
        Message::ToggleSearch => {
            &&& search_toggled(before, after, show_membership_events)
            &&& task is Nothing && effect is Nothing
        },
        Message::SearchQueryChanged(query) => {
            &&& requeried(before, after, query, show_membership_events)
            &&& task is Nothing && effect is Nothing
        },
        Message::LoadOlder => {
            &&& task is Nothing
            &&& if before.loading_older || before.reached_start {
                after == before && effect is Nothing
            } else {
                after == (State { loading_older: true, ..before }) && effect is PaginateBackwards
            }
        },
        Message::Scrolled(v) => scrolled(before, after, v, task, effect),
        Message::AnchorProbed { event_id, purpose, generation, measured } => {
            &&& probed(before, after, event_id, purpose, generation, measured, task)
            &&& effect is Nothing
        },
        Message::JumpToEvent(event_id) => jumped(before, after, event_id, task, effect),
        Message::JumpToLatest => {
            &&& after == (State {
                scroll_anchor: None,
                scroll_generation: scroll::next_generation(before.scroll_generation),
                ..before
            })
            &&& task is ToBottom && effect is Nothing
        },
        _ => false,
    }
}

/// What is handed on as it is.
pub open spec fn outward_updated(
    before: State,
    after: State,
    message: Message,
    task: Task,
    effect: Effect,
) -> bool {
    match message {
        Message::ZoomImage(url) => {
            after == before && task is Nothing && effect == Effect::ZoomImage(url)
        },
        Message::OpenUrl(url) => after == before && task == Task::OpenUrl(url) && effect is Nothing,
        Message::PlayVideo { event_id, video, title } => {
            after == before && task is Nothing && effect == (Effect::PlayVideo {
                event_id,
                video,
                title,
            })
        },
        Message::StopVideo => after == before && task is Nothing && effect is StopVideo,
        Message::OpenVideoExternally(url) => {
            after == before && task == Task::OpenUrl(url) && effect is StopVideo
        },
        Message::JoinCallClicked => after == before && task is Nothing && effect is JoinCall,
        Message::LeaveCallClicked => after == before && task is Nothing && effect is LeaveCall,
        Message::DismissCallError => {
            after == before && task is Nothing && effect is DismissCallError
        },
        Message::AutoscrollToggle => {
            after == before && task is Nothing && effect is ToggleAutoscroll
        },
        _ => false,
    }
}

/// Which part of the timeline a message concerns.
pub enum Concern {
    Composer,
    Editing,
    Members,
    List,
    Outward,
}

/// Which part of the timeline a message concerns.
pub open spec fn concern(message: Message) -> Concern {
    match message {
        Message::Composer(_) => Concern::Composer,
        Message::StartEdit { .. } => Concern::Editing,
        Message::EditDraftChanged(..) => Concern::Editing,
        Message::ConfirmEdit => Concern::Editing,
        Message::CancelEdit => Concern::Editing,
        Message::RequestDelete(..) => Concern::Editing,
        Message::ConfirmDelete(..) => Concern::Editing,
        Message::CancelDelete => Concern::Editing,
        Message::ToggleReactionPicker(..) => Concern::Editing,
        Message::ReactionAnchorProbed { .. } => Concern::Editing,
        Message::ReactWithEmoji { .. } => Concern::Editing,
        Message::RetrySend => Concern::Editing,
        Message::StartReply(..) => Concern::Editing,
        Message::ToggleMembers => Concern::Members,
        Message::ToggleNotifyMenu => Concern::Members,
        Message::MemberClicked(..) => Concern::Members,
        Message::MemberRightClicked(..) => Concern::Members,
        Message::MemberCursorMoved(..) => Concern::Members,
        Message::MemberMenuDirectMessage(..) => Concern::Members,
        Message::MemberMenuNewRoom(..) => Concern::Members,
        Message::MemberMenuHighlight(..) => Concern::Members,
        Message::NotificationModeSelected(..) => Concern::Members,
        Message::ItemHovered(..) => Concern::List,
        Message::ItemUnhovered(..) => Concern::List,
        Message::ToggleSearch => Concern::List,
        Message::SearchQueryChanged(..) => Concern::List,
        Message::LoadOlder => Concern::List,
        Message::Scrolled(..) => Concern::List,
        Message::AnchorProbed { .. } => Concern::List,
        Message::JumpToEvent(..) => Concern::List,
        Message::JumpToLatest => Concern::List,
        Message::ZoomImage(..) => Concern::Outward,
        Message::OpenUrl(..) => Concern::Outward,
        Message::PlayVideo { .. } => Concern::Outward,
        Message::StopVideo => Concern::Outward,
        Message::OpenVideoExternally(..) => Concern::Outward,
        Message::JoinCallClicked => Concern::Outward,
        Message::LeaveCallClicked => Concern::Outward,
        Message::DismissCallError => Concern::Outward,
        Message::AutoscrollToggle => Concern::Outward,
    }
}

/// What a message leaves of the timeline, and what is to be carried out.
pub open spec fn updated<E: Fn(&str) -> Option<SpellError>, G: Fn(&str) -> Vec<String>>(
    before: State,
    after: State,
    message: Message,
    cfg: SpellcheckConfig,
    show_membership_events: bool,
    errors: E,
    guesses: G,
    task: Task,
    effect: Effect,
) -> bool {
    match concern(message) {
        Concern::Composer => message matches Message::Composer(m)
            && task matches Task::Composer(followup) && effect matches Effect::Composer(e)
            && composer::updated(
            before.composer,
            after.composer,
            m,
            cfg,
            errors,
            guesses,
            followup,
            e,
        ) && after == (State { composer: after.composer, ..before }),
        Concern::Editing => edit_updated(before, after, message, task, effect),
        Concern::Members => member_updated(before, after, message, task, effect),
        Concern::List => list_updated(
            before,
            after,
            message,
            show_membership_events,
            task,
            effect,
        ),
        Concern::Outward => outward_updated(before, after, message, task, effect),
    }
}

/// Whether the editor snapshot of a message, if it has one, is in order.
pub open spec fn acceptable(message: Message) -> bool {
    message matches Message::Composer(composer::Message::Action(_, content)) ==> content.wf()
}

// ---------------------------------------------------------------------------
// The functions.
// ---------------------------------------------------------------------------
impl State {
    /// No room open.
    pub fn new() -> (r: Self)
        ensures
            r.wf(),
            r.fresh(),
    {
        State {
            room_id: None,
            items: Vec::new(),
            composer: composer::State::new(),
            search_matches: Vec::new(),
            first_urls: Vec::new(),
            editing: None,
            confirm_delete: None,
            pending_edit_request: None,
            pending_redact_request: None,
            typing_users: Vec::new(),
            action_error: None,
            reacting_to: None,
            reaction_anchor_y: None,
            search_open: false,
            search_query: String::new(),
            notify_menu_open: false,
            reached_start: false,
            loading_older: false,
            pending_paginate_request: None,
            hide_members: false,
            power_tags: Vec::new(),
            selected_member: None,
            highlighted_member: None,
            member_menu: None,
            member_menu_anchor_y: 0,
            member_cursor: None,
            last_member_click: None,
            at_bottom: false,
            highlighted_event_id: None,
            pending_jump: None,
            hovered_event_id: None,
            last_seen_newest: None,
            suppress_unread_divider: false,
            scroll_anchor: None,
            geometry: Geometry {
                content_height: 0,
                from_bottom: 0,
                bounds_height: 0,
                viewport_top: 0,
                viewport_center: 0,
            },
            scroll_generation: 0,
            descending: false,
            last_scroll_input: None,
            inline_video: None,
            autoscroll: None,
        }
    }
}

impl Default for State {
    /// No room open.
    fn default() -> (r: Self)
        ensures
            r.wf(),
            r.fresh(),
    {
        State::new()
    }
}

/// Recomputes which items match the active search: on query edits, search
/// toggles and timeline snapshots.
pub fn recompute_search_matches(state: &mut State, show_membership_events: bool)
    ensures
        refiltered(*old(state), *final(state), show_membership_events),
{
    state.search_matches = search::find_matches(
        &state.items,
        state.search_open,
        state.search_query.as_str(),
        show_membership_events,
    );
}

/// A click on a member.
fn click_member(state: &mut State, user_id: String, now: u64) -> (effect: Effect)
    ensures
        member_clicked(*old(state), *final(state), user_id, now, effect),
{
    state.member_menu = None;
    let is_double = match &state.last_member_click {
        Some((prev, at)) => text::str_eq(prev.as_str(), user_id.as_str()) && scroll::is_within(
            Some(*at),
            now,
            MEMBER_DOUBLE_CLICK_NS,
        ),
        None => false,
    };
    if is_double {
        state.last_member_click = None;
        return Effect::OpenDirectMessage(user_id);
    }
    state.last_member_click = Some((user_id.clone(), now));
    state.selected_member = if opt_is(&state.selected_member, user_id.as_str()) {
        None
    } else {
        Some(user_id)
    };
    Effect::Nothing
}

/// A right click on a member.
fn right_click_member(state: &mut State, user_id: String)
    ensures
        member_menu_toggled(*old(state), *final(state), user_id),
{
    if opt_is(&state.member_menu, user_id.as_str()) {
        state.member_menu = None;
        return;
    }
    state.selected_member = Some(user_id.clone());
    state.member_menu = Some(user_id);
    state.member_menu_anchor_y = match &state.member_cursor {
        Some(p) => p.y,
        None => 0,
    };
}

/// The offset moved: real input, or a clamp from shrinking content.
fn rescroll(state: &mut State, v: Scroll, recent: bool, arrived: bool) -> (r: (Task, Effect))
    ensures
        ({
            let before = *old(state);
            let g = scroll::next_generation(before.scroll_generation);
            let ids = if v.at_bottom {
                Seq::empty()
            } else {
                candidates_of(before, v)
            };
            let load = !v.reflowed && v.near_top && !before.loading_older && !before.reached_start;
            &&& *final(state) == (State {
                scroll_generation: g,
                scroll_anchor: if ids.len() == 0 {
                    None
                } else {
                    before.scroll_anchor
                },
                loading_older: before.loading_older || load,
                ..before
            })
            &&& probes(
                r.0,
                ids,
                ProbePurpose::Refresh,
                g,
                v.user_scrolled && v.reflowed && !recent,
            )
            &&& r.1 == if load {
                Effect::PaginateBackwards
            } else if arrived {
                Effect::MaybeMarkRead
            } else {
                Effect::Nothing
            }
        }),
{
    state.scroll_generation = scroll::bump(state.scroll_generation);
    let event_ids = if v.at_bottom {
        Vec::new()
    } else {
        scroll::anchor_candidates(
            &state.items,
            &state.hovered_event_id,
            &state.scroll_anchor,
            v.fits,
            v.middle,
        )
    };
    assert(v.at_bottom ==> text::views(event_ids@) =~= Seq::<Seq<char>>::empty());
    if event_ids.len() == 0 {
        state.scroll_anchor = None;
    }
    // An offset that moved in the same frame as the content, with no input
    // anywhere near, is derived from the content size: pin it down.
    let task = Task::Probe {
        event_ids,
        purpose: ProbePurpose::Refresh,
        generation: state.scroll_generation,
        repin: v.user_scrolled && v.reflowed && !recent,
    };
    // An offset clamped by a shrunken timeline is not the user asking for
    // older history.
    if !v.reflowed && v.near_top && !state.loading_older && !state.reached_start {
        state.loading_older = true;
        return (task, Effect::PaginateBackwards);
    }
    if arrived {
        return (task, Effect::MaybeMarkRead);
    }
    (task, Effect::Nothing)
}

/// The list reflowed under a stationary user.
fn reflow(state: &mut State, v: Scroll, recent: bool) -> (task: Task)
    ensures
        ({
            let mid = *old(state);
            let after = *final(state);
            if v.near_edge {
                &&& after == mid
                &&& if v.gap && !(recent && !mid.descending) {
                    task is ToBottom
                } else {
                    task is Nothing
                }
            } else if mid.descending && recent {
                after == mid && task is Nothing
            } else if v.at_bottom {
                after == mid && task is Nothing
            } else {
                match mid.scroll_anchor {
                    Some(a) if a.generation == mid.scroll_generation => {
                        &&& after == mid
                        &&& probes(
                            task,
                            seq![a.event_id@],
                            ProbePurpose::Correct,
                            mid.scroll_generation,
                            false,
                        )
                    },
                    _ => {
                        let g = scroll::next_generation(mid.scroll_generation);
                        &&& after == (State { scroll_generation: g, ..mid })
                        &&& probes(task, candidates_of(mid, v), ProbePurpose::Refresh, g, false)
                    },
                }
            }
        }),
{
    if v.near_edge {
        let leaving = recent && !state.descending;
        if v.gap && !leaving {
            return Task::ToBottom;
        }
        return Task::Nothing;
    }
    // Holding the current post steady is right while reading; during a
    // descent it would shove the user back up by every arriving message.
    if state.descending && recent {
        return Task::Nothing;
    }
    if v.at_bottom {
        return Task::Nothing;
    }
    if let Some(anchor) = &state.scroll_anchor {
        if anchor.generation == state.scroll_generation {
            let event_ids = vec![anchor.event_id.clone()];
            assert(text::views(event_ids@) =~= seq![anchor.event_id@]);
            return Task::Probe {
                event_ids,
                purpose: ProbePurpose::Correct,
                generation: state.scroll_generation,
                repin: false,
            };
        }
    }
    // Nothing to correct this reflow against: find an anchor for the next.
    state.scroll_generation = scroll::bump(state.scroll_generation);
    let event_ids = scroll::anchor_candidates(
        &state.items,
        &state.hovered_event_id,
        &state.scroll_anchor,
        v.fits,
        v.middle,
    );
    Task::Probe {
        event_ids,
        purpose: ProbePurpose::Refresh,
        generation: state.scroll_generation,
        repin: false,
    }
}

/// A report of the list.
fn scroll_list(state: &mut State, v: Scroll) -> (r: (Task, Effect))
    ensures
        scrolled(*old(state), *final(state), v, r.0, r.1),
{
    // Evaluated before the time of the latest input is refreshed below.
    let recent = scroll::is_within(state.last_scroll_input, v.now, scroll::SCROLL_GRACE_NS);
    state.geometry = v.geometry;
    if let Some(event_id) = state.pending_jump.take() {
        if let Some(index) = scroll::find_item(&state.items, event_id.as_str()) {
            return (Task::ToItem { index, len: state.items.len() }, Effect::Nothing);
        }
    }
    // Pure geometry, and the condition for read receipts: it must reflect every
    // event, whatever caused it.
    let arrived = !state.at_bottom && v.at_bottom;
    state.at_bottom = v.at_bottom;
    if v.user_scrolled {
        state.descending = v.moved_toward_bottom;
        state.last_scroll_input = Some(v.now);
    }
    if v.user_scrolled || !v.reflowed {
        return rescroll(state, v, recent, arrived);
    }
    let task = reflow(state, v, recent);
    (task, Effect::Nothing)
}

/// A probe of a message's row resolved.
fn probe_landed(
    state: &mut State,
    event_id: String,
    purpose: ProbePurpose,
    generation: u64,
    measured: Option<Measured>,
) -> (task: Task)
    ensures
        probed(*old(state), *final(state), event_id, purpose, generation, measured, task),
{
    let current = match &state.scroll_anchor {
        Some(a) => a.generation == state.scroll_generation,
        None => false,
    };
    if generation != state.scroll_generation {
        if !current {
            state.scroll_anchor = None;
        }
        return Task::Nothing;
    }
    match (purpose, measured) {
        (ProbePurpose::Refresh, Some(m)) => {
            // Several candidates race: keep the one nearest to the center.
            if !current || m.nearer {
                state.scroll_anchor = Some(ScrollAnchor { event_id, y: m.y, generation });
            }
            Task::Nothing
        },
        (ProbePurpose::Refresh, None) => {
            if !current {
                state.scroll_anchor = None;
            }
            Task::Nothing
        },
        (ProbePurpose::Correct, Some(m)) => {
            let ours = match &state.scroll_anchor {
                Some(a) => text::str_eq(a.event_id.as_str(), event_id.as_str()),
                None => false,
            };
            if ours && m.moved {
                // A second probe in flight cannot apply this correction again.
                state.scroll_generation = scroll::bump(state.scroll_generation);
                return Task::UndoDisplacement;
            }
            Task::Nothing
        },
        (ProbePurpose::Correct, None) => {
            state.scroll_anchor = None;
            Task::Nothing
        },
    }
}

/// A quote was clicked.
fn jump(state: &mut State, event_id: String) -> (r: (Task, Effect))
    ensures
        jumped(*old(state), *final(state), event_id, r.0, r.1),
{
    let was_searching = state.search_open;
    if was_searching {
        state.search_open = false;
        state.search_query = String::new();
        state.search_matches = Vec::new();
        state.scroll_anchor = None;
    }
    match scroll::find_item(&state.items, event_id.as_str()) {
        Some(index) => {
            state.highlighted_event_id = Some(event_id.clone());
            if was_searching {
                // What is known of the geometry describes the filtered list.
                state.pending_jump = Some(event_id);
                return (Task::Nothing, Effect::Nothing);
            }
            (Task::ToItem { index, len: state.items.len() }, Effect::Nothing)
        },
        None => {
            // Older than what is loaded: pull one batch of history.
            if !state.loading_older && !state.reached_start {
                state.loading_older = true;
                return (Task::Nothing, Effect::PaginateBackwards);
            }
            (Task::Nothing, Effect::Nothing)
        },
    }
}

/// The composer answers this message.
fn start_reply(state: &mut State, preview: ReplyPreview)
    requires
        old(state).wf(),
    ensures
        final(state).wf(),
        *final(state) == (State {
            composer: composer::State { replying_to: Some(preview), ..old(state).composer },
            ..*old(state)
        }),
{
    state.composer.replying_to = Some(preview);
}

/// The draft of the message being edited is this.
fn change_draft(state: &mut State, draft: String)
    ensures
        *final(state) == (State {
            editing: match old(state).editing {
                Some(e) => Some(EditingState { draft, ..e }),
                None => None,
            },
            ..*old(state)
        }),
{
    if let Some(editing) = state.editing.take() {
        state.editing = Some(EditingState { event_id: editing.event_id, draft });
    }
}

/// Editing, deleting, reacting and replying.
fn update_edit(
    state: &mut State,
    message: Message,
) -> (r: (Task, Effect))
    requires
        old(state).wf(),
        concern(message) == Concern::Editing,
    ensures
        final(state).wf(),
        edit_updated(
            *old(state),
            *final(state),
            message,
            r.0,
            r.1,
        ),
{
    match message {
        Message::StartEdit { event_id, current_body } => {
            state.editing = Some(EditingState { event_id, draft: current_body });
            (Task::Nothing, Effect::Nothing)
        },
        Message::EditDraftChanged(draft) => {
            change_draft(state, draft);
            (Task::Nothing, Effect::Nothing)
        },
        Message::ConfirmEdit => {
            if let Some(editing) = &state.editing {
                let new_body = text::trim(editing.draft.as_str()).to_owned();
                if new_body.as_str().unicode_len() > 0 {
                    let event_id = editing.event_id.clone();
                    return (Task::Nothing, Effect::Edit { event_id, new_body });
                }
            }
            (Task::Nothing, Effect::Nothing)
        },
        Message::CancelEdit => {
            state.editing = None;
            (Task::Nothing, Effect::Nothing)
        },
        Message::RequestDelete(event_id) => {
            state.confirm_delete = Some(event_id);
            (Task::Nothing, Effect::Nothing)
        },
        Message::ConfirmDelete(event_id) => (Task::Nothing, Effect::Redact { event_id }),
        Message::CancelDelete => {
            state.confirm_delete = None;
            (Task::Nothing, Effect::Nothing)
        },
        Message::ToggleReactionPicker(event_id) => {
            state.reaction_anchor_y = None;
            if opt_is(&state.reacting_to, event_id.as_str()) {
                state.reacting_to = None;
                return (Task::Nothing, Effect::Nothing);
            }
            state.reacting_to = Some(event_id.clone());
            (Task::ProbeReaction(event_id), Effect::EnsureEmojiFetched)
        },
        Message::ReactionAnchorProbed { event_id, y } => {
            // A stale probe must not position the current picker.
            if opt_is(&state.reacting_to, event_id.as_str()) {
                state.reaction_anchor_y = Some(y);
            }
            (Task::Nothing, Effect::Nothing)
        },
        Message::ReactWithEmoji { event_id, key } => {
            state.reacting_to = None;
            (Task::Nothing, Effect::ToggleReaction { event_id, key })
        },
        Message::RetrySend => (Task::Nothing, Effect::RetrySend),
        Message::StartReply(preview) => {
            start_reply(state, preview);
            (Task::Nothing, Effect::Nothing)
        },
        _ => (Task::Nothing, Effect::Nothing),
    }
}

/// The member list and the notification menu.
fn update_member(
    state: &mut State,
    message: Message,
) -> (r: (Task, Effect))
    requires
        old(state).wf(),
        concern(message) == Concern::Members,
    ensures
        final(state).wf(),
        member_updated(
            *old(state),
            *final(state),
            message,
            r.0,
            r.1,
        ),
{
    match message {
        Message::ToggleMembers => {
            state.hide_members = !state.hide_members;
            // The list's width changes, and with it every row's position.
            state.scroll_anchor = None;
            (Task::Nothing, Effect::Nothing)
        },
        Message::ToggleNotifyMenu => {
            state.notify_menu_open = !state.notify_menu_open;
            (Task::Nothing, Effect::Nothing)
        },
        Message::MemberClicked(user_id, now) => {
            let effect = click_member(state, user_id, now);
            (Task::Nothing, effect)
        },
        Message::MemberRightClicked(user_id) => {
            right_click_member(state, user_id);
            (Task::Nothing, Effect::Nothing)
        },
        Message::MemberCursorMoved(point) => {
            state.member_cursor = Some(point);
            (Task::Nothing, Effect::Nothing)
        },
        Message::MemberMenuDirectMessage(user_id) => {
            state.member_menu = None;
            (Task::Nothing, Effect::OpenDirectMessage(user_id))
        },
        Message::MemberMenuNewRoom(user_id) => {
            state.member_menu = None;
            (Task::Nothing, Effect::CreateRoomWith(user_id))
        },
        Message::MemberMenuHighlight(user_id) => {
            state.member_menu = None;
            state.highlighted_member = if opt_is(&state.highlighted_member, user_id.as_str()) {
                None
            } else {
                Some(user_id)
            };
            (Task::Nothing, Effect::Nothing)
        },
        Message::NotificationModeSelected(choice) => {
            state.notify_menu_open = false;
            (Task::Nothing, Effect::SetNotificationMode(choice.to_mode()))
        },
        _ => (Task::Nothing, Effect::Nothing),
    }
}

/// Searching, scrolling and jumping.
fn update_list(
    state: &mut State,
    message: Message,
    show_membership_events: bool,
) -> (r: (Task, Effect))
    requires
        old(state).wf(),
        concern(message) == Concern::List,
    ensures
        final(state).wf(),
        list_updated(
            *old(state),
            *final(state),
            message,
            show_membership_events,
            r.0,
            r.1,
        ),
{
    match message {
        Message::ItemHovered(event_id) => {
            state.hovered_event_id = Some(event_id);
            (Task::Nothing, Effect::Nothing)
        },
        Message::ItemUnhovered(event_id) => {
            // Only if another item has not taken over already.
            if opt_is(&state.hovered_event_id, event_id.as_str()) {
                state.hovered_event_id = None;
            }
            (Task::Nothing, Effect::Nothing)
        },
        Message::ToggleSearch => {
            state.search_open = !state.search_open;
            if !state.search_open {
                state.search_query = String::new();
            }
            recompute_search_matches(state, show_membership_events);
            state.scroll_anchor = None;
            (Task::Nothing, Effect::Nothing)
        },
        Message::SearchQueryChanged(query) => {
            state.search_query = query;
            recompute_search_matches(state, show_membership_events);
            state.scroll_anchor = None;
            (Task::Nothing, Effect::Nothing)
        },
        Message::LoadOlder => {
            if state.loading_older || state.reached_start {
                return (Task::Nothing, Effect::Nothing);
            }
            state.loading_older = true;
            (Task::Nothing, Effect::PaginateBackwards)
        },
        Message::Scrolled(v) => scroll_list(state, v),
        Message::AnchorProbed { event_id, purpose, generation, measured } => {
            let task = probe_landed(state, event_id, purpose, generation, measured);
            (task, Effect::Nothing)
        },
        Message::JumpToEvent(event_id) => jump(state, event_id),
        Message::JumpToLatest => {
            // A probe in flight, issued while scrolled up, cannot land a
            // correction on top of the jump.
            state.scroll_anchor = None;
            state.scroll_generation = scroll::bump(state.scroll_generation);
            (Task::ToBottom, Effect::Nothing)
        },
        _ => (Task::Nothing, Effect::Nothing),
    }
}

/// What is handed on as it is.
fn update_outward(
    state: &mut State,
    message: Message,
) -> (r: (Task, Effect))
    requires
        old(state).wf(),
        concern(message) == Concern::Outward,
    ensures
        final(state).wf(),
        outward_updated(
            *old(state),
            *final(state),
            message,
            r.0,
            r.1,
        ),
{
    match message {
        Message::ZoomImage(url) => (Task::Nothing, Effect::ZoomImage(url)),
        Message::OpenUrl(url) => (Task::OpenUrl(url), Effect::Nothing),
        Message::PlayVideo { event_id, video, title } => {
            (Task::Nothing, Effect::PlayVideo { event_id, video, title })
        },
        Message::StopVideo => (Task::Nothing, Effect::StopVideo),
        Message::OpenVideoExternally(url) => (Task::OpenUrl(url), Effect::StopVideo),
        Message::JoinCallClicked => (Task::Nothing, Effect::JoinCall),
        Message::LeaveCallClicked => (Task::Nothing, Effect::LeaveCall),
        Message::DismissCallError => (Task::Nothing, Effect::DismissCallError),
        Message::AutoscrollToggle => (Task::Nothing, Effect::ToggleAutoscroll),
        _ => (Task::Nothing, Effect::Nothing),
    }
}

/// Applies a message to the timeline.
pub fn update<E: Fn(&str) -> Option<SpellError>, G: Fn(&str) -> Vec<String>>(
    state: &mut State,
    message: Message,
    cfg: &SpellcheckConfig,
    show_membership_events: bool,
    errors: &E,
    guesses: &G,
) -> (r: (Task, Effect))
    requires
        old(state).wf(),
        acceptable(message),
        forall|q: &str| call_requires(*errors, (q,)),
        forall|q: &str| call_requires(*guesses, (q,)),
    ensures
        final(state).wf(),
        updated(
            *old(state),
            *final(state),
            message,
            *cfg,
            show_membership_events,
            *errors,
            *guesses,
            r.0,
            r.1,
        ),
{
    match message {
        Message::Composer(m) => {
            let (followup, effect) = composer::update(
                &mut state.composer,
                m,
                cfg,
                errors,
                guesses,
            );
            (Task::Composer(followup), Effect::Composer(effect))
        },
        Message::StartEdit { .. }
        | Message::EditDraftChanged(..)
        | Message::ConfirmEdit
        | Message::CancelEdit
        | Message::RequestDelete(..)
        | Message::ConfirmDelete(..)
        | Message::CancelDelete
        | Message::ToggleReactionPicker(..)
        | Message::ReactionAnchorProbed { .. }
        | Message::ReactWithEmoji { .. }
        | Message::RetrySend
        | Message::StartReply(..) => update_edit(state, message),
        Message::ToggleMembers
        | Message::ToggleNotifyMenu
        | Message::MemberClicked(..)
        | Message::MemberRightClicked(..)
        | Message::MemberCursorMoved(..)
        | Message::MemberMenuDirectMessage(..)
        | Message::MemberMenuNewRoom(..)
        | Message::MemberMenuHighlight(..)
        | Message::NotificationModeSelected(..) => update_member(state, message),
        Message::ItemHovered(..)
        | Message::ItemUnhovered(..)
        | Message::ToggleSearch
        | Message::SearchQueryChanged(..)
        | Message::LoadOlder
        | Message::Scrolled(..)
        | Message::AnchorProbed { .. }
        | Message::JumpToEvent(..)
        | Message::JumpToLatest => update_list(state, message, show_membership_events),
        Message::ZoomImage(..)
        | Message::OpenUrl(..)
        | Message::PlayVideo { .. }
        | Message::StopVideo
        | Message::OpenVideoExternally(..)
        | Message::JoinCallClicked
        | Message::LeaveCallClicked
        | Message::DismissCallError
        | Message::AutoscrollToggle => update_outward(state, message),
    }
}

// ---------------------------------------------------------------------------
// Laws.
// ---------------------------------------------------------------------------
/// A probe issued before the latest scroll or correction never moves the view
/// and never becomes the anchor.
pub proof fn law_stale_probes_are_ignored(
    before: State,
    after: State,
    event_id: String,
    purpose: ProbePurpose,
    generation: u64,
    measured: Option<Measured>,
    task: Task,
)
    requires
        probed(before, after, event_id, purpose, generation, measured, task),
        generation != before.scroll_generation,
    ensures
        task is Nothing,
        after.scroll_generation == before.scroll_generation,
        after.scroll_anchor is None || after.scroll_anchor == before.scroll_anchor,
{
}

/// A displacement is undone once: the probe that undoes it moves the
/// generation on, so that another probe of the same generation is ignored.
pub proof fn law_a_correction_is_made_once(
    before: State,
    mid: State,
    after: State,
    event_id: String,
    generation: u64,
    measured: Option<Measured>,
    other: Option<Measured>,
    first: Task,
    second: Task,
)
    requires
        probed(before, mid, event_id, ProbePurpose::Correct, generation, measured, first),
        first is UndoDisplacement,
        probed(mid, after, event_id, ProbePurpose::Correct, generation, other, second),
    ensures
        second is Nothing,
{
}

/// Real input is never corrected against: after it, no measurement of an
/// earlier generation is acted upon.
pub proof fn law_input_starts_a_generation(
    before: State,
    after: State,
    v: Scroll,
    task: Task,
    effect: Effect,
)
    requires
        scrolled(before, after, v, task, effect),
        v.user_scrolled,
        jump_target(before) is None,
    ensures
        after.scroll_generation != before.scroll_generation,
        !(task is UndoDisplacement) && !(task is ToBottom),
{
}

/// Whether the view is at the newest message reflects every report, except
/// the one that a deferred jump uses up.
pub proof fn law_at_bottom_follows_every_report(
    before: State,
    after: State,
    v: Scroll,
    task: Task,
    effect: Effect,
)
    requires
        scrolled(before, after, v, task, effect),
        jump_target(before) is None,
    ensures
        after.at_bottom == v.at_bottom,
        effect is MaybeMarkRead ==> after.at_bottom && !before.at_bottom,
{
}

/// Opening the search searches for what is in its field, closing it clears the
/// field, and a new query is searched for at once: the matches are always
/// those of the field over what is loaded.
pub proof fn law_the_search_follows_its_field<
    E: Fn(&str) -> Option<SpellError>,
    G: Fn(&str) -> Vec<String>,
>(
    before: State,
    after: State,
    message: Message,
    cfg: SpellcheckConfig,
    show: bool,
    errors: E,
    guesses: G,
    task: Task,
    effect: Effect,
    i: usize,
)
    requires
        updated(before, after, message, cfg, show, errors, guesses, task, effect),
        message is ToggleSearch || message is SearchQueryChanged,
    ensures
        message is ToggleSearch ==> after.search_open == !before.search_open,
        message is ToggleSearch && before.search_open ==> after.search_query@.len() == 0
            && after.search_matches@.len() == 0,
        message matches Message::SearchQueryChanged(q) ==> after.search_query@ == q@
            && after.search_open == before.search_open,
        after.search_matches@.contains(i) == {
            &&& after.search_open
            &&& text::lowered(text::trimmed(after.search_query@)).len() > 0
            &&& i < before.items@.len()
            &&& show || !(before.items@[i as int].content is MembershipChange)
            &&& search::matches_query(
                before.items@[i as int],
                text::lowered(text::trimmed(after.search_query@)),
            )
        },
        after.items == before.items,
        effect is Nothing,
{
    search::law_every_match_is_found(
        before.items@,
        after.search_open,
        after.search_query@,
        show,
        after.search_matches@,
        i,
    );
    assert(text::ints(after.search_matches@).len() == after.search_matches@.len());
}

/// A quote that is clicked goes to its message where that is loaded, and marks
/// it; with a search open the search closes first; where it is not loaded,
/// older messages are asked for, once.
pub proof fn law_a_clicked_quote_goes_to_its_message<
    E: Fn(&str) -> Option<SpellError>,
    G: Fn(&str) -> Vec<String>,
>(
    before: State,
    after: State,
    target: String,
    cfg: SpellcheckConfig,
    show: bool,
    errors: E,
    guesses: G,
    task: Task,
    effect: Effect,
    i: int,
)
    requires
        updated(before, after, Message::JumpToEvent(target), cfg, show, errors, guesses, task, effect),
    ensures
        !after.search_open,
        0 <= i < before.items@.len() && is_this(before.items@[i].event_id, target@) && (forall|
            j: int,
        |
            0 <= j < i ==> !is_this((#[trigger] before.items@[j]).event_id, target@)) ==> {
            &&& after.highlighted_event_id == Some(target)
            &&& effect is Nothing
            &&& !before.search_open ==> task is ToItem && task->index == i as usize
            &&& before.search_open ==> after.pending_jump == Some(target)
        },
        (forall|j: int|
            0 <= j < before.items@.len() ==> !is_this((#[trigger] before.items@[j]).event_id, target@))
            ==> {
            &&& after.highlighted_event_id == before.highlighted_event_id
            &&& (effect is PaginateBackwards) == (!before.loading_older && !before.reached_start)
        },
{
    lemma_position(before.items@, target@, 0);
}

proof fn lemma_position(items: Seq<TimelineItem>, id: Seq<char>, from: int)
    requires
        0 <= from,
    ensures
        match scroll::position_from(items, id, from) {
            Some(k) => from <= k < items.len() && is_this(items[k].event_id, id) && forall|j: int|
                from <= j < k ==> !is_this((#[trigger] items[j]).event_id, id),
            None => forall|j: int|
                from <= j < items.len() ==> !is_this((#[trigger] items[j]).event_id, id),
        },
    decreases items.len() - from,
{
    if from < items.len() {
        lemma_position(items, id, from + 1);
    }
}

/// Two clicks on a member within four tenths of a second open a direct
/// message with that member; a single one selects the member, or undoes that.
pub proof fn law_a_double_click_writes_to_a_member<
    E: Fn(&str) -> Option<SpellError>,
    G: Fn(&str) -> Vec<String>,
>(
    s0: State,
    s1: State,
    s2: State,
    user: String,
    t1: u64,
    t2: u64,
    cfg: SpellcheckConfig,
    show: bool,
    errors: E,
    guesses: G,
    k1: Task,
    k2: Task,
    e1: Effect,
    e2: Effect,
)
    requires
        s0.last_member_click is None,
        t1 <= t2,
        updated(s0, s1, Message::MemberClicked(user, t1), cfg, show, errors, guesses, k1, e1),
        updated(s1, s2, Message::MemberClicked(user, t2), cfg, show, errors, guesses, k2, e2),
    ensures
        e1 is Nothing,
        s0.selected_member is None ==> s1.selected_member == Some(user),
        is_this(s0.selected_member, user@) ==> s1.selected_member is None,
        t2 - t1 < 400_000_000 ==> e2 == Effect::OpenDirectMessage(user) && s2.selected_member
            == s1.selected_member && s2.last_member_click is None,
        t2 - t1 >= 400_000_000 ==> e2 is Nothing && (s0.selected_member is None
            ==> s2.selected_member is None),
{
}

/// What the member menu and the small buttons do.
pub proof fn law_what_the_member_list_does<
    E: Fn(&str) -> Option<SpellError>,
    G: Fn(&str) -> Vec<String>,
>(
    before: State,
    after: State,
    message: Message,
    cfg: SpellcheckConfig,
    show: bool,
    errors: E,
    guesses: G,
    task: Task,
    effect: Effect,
)
    requires
        updated(before, after, message, cfg, show, errors, guesses, task, effect),
    ensures
        message matches Message::MemberRightClicked(user) ==> after.member_menu == if is_this(
            before.member_menu,
            user@,
        ) {
            None
        } else {
            Some(user)
        },
        message matches Message::MemberMenuHighlight(user) ==> after.highlighted_member == (
        if is_this(before.highlighted_member, user@) {
            None
        } else {
            Some(user)
        }) && after.member_menu is None,
        message matches Message::MemberMenuDirectMessage(user) ==> effect
            == Effect::OpenDirectMessage(user),
        message matches Message::MemberMenuNewRoom(user) ==> effect == Effect::CreateRoomWith(user),
        message is ToggleMembers ==> after.hide_members == !before.hide_members,
        message is ToggleNotifyMenu ==> after.notify_menu_open == !before.notify_menu_open,
        message is NotificationModeSelected ==> !after.notify_menu_open,
        message matches Message::StartReply(p) ==> after.composer.replying_to == Some(p)
            && after.composer.body == before.composer.body,
        message matches Message::StartEdit { event_id, current_body } ==> after.editing == Some(
            EditingState { event_id, draft: current_body },
        ),
        message is CancelEdit ==> after.editing is None && effect is Nothing,
        message is CancelDelete ==> after.confirm_delete is None && effect is Nothing,
        message matches Message::ItemHovered(e) ==> after.hovered_event_id == Some(e),
        message matches Message::ItemUnhovered(e) ==> is_this(before.hovered_event_id, e@)
            ==> after.hovered_event_id is None,
        message matches Message::ItemUnhovered(e) ==> !is_this(before.hovered_event_id, e@)
            ==> after.hovered_event_id == before.hovered_event_id,
        message matches Message::ToggleReactionPicker(e) ==> after.reacting_to == if is_this(
            before.reacting_to,
            e@,
        ) {
            None
        } else {
            Some(e)
        },
        message is JumpToLatest ==> task is ToBottom,
        message is LoadOlder && !before.loading_older && !before.reached_start ==> effect
            is PaginateBackwards && after.loading_older,
        message is LoadOlder && (before.loading_older || before.reached_start) ==> effect is Nothing
            && after == before,
{
}

/// An edit goes out as it was last typed: what is typed replaces the draft of
/// the message that is being edited, and nothing else does.
pub proof fn law_an_edit_is_what_was_typed<
    E: Fn(&str) -> Option<SpellError>,
    G: Fn(&str) -> Vec<String>,
>(
    s0: State,
    s1: State,
    s2: State,
    s3: State,
    target: String,
    first: String,
    last: String,
    cfg: SpellcheckConfig,
    show: bool,
    errors: E,
    guesses: G,
    k: Task,
    effect: Effect,
)
    requires
        updated(
            s0,
            s1,
            Message::StartEdit { event_id: target, current_body: first },
            cfg,
            show,
            errors,
            guesses,
            k,
            Effect::Nothing,
        ),
        updated(
            s1,
            s2,
            Message::EditDraftChanged(last),
            cfg,
            show,
            errors,
            guesses,
            k,
            Effect::Nothing,
        ),
        updated(s2, s3, Message::ConfirmEdit, cfg, show, errors, guesses, k, effect),
        text::trimmed(last@).len() > 0,
    ensures
        effect is Edit,
        effect->Edit_event_id@ == target@,
        effect->new_body@ == text::trimmed(last@),
{
}

/// The list loads older messages only where the view moved by itself to near
/// the top, there is more to load and nothing is being loaded; arriving at the
/// bottom marks the room read.
pub proof fn law_what_scrolling_asks_for<
    E: Fn(&str) -> Option<SpellError>,
    G: Fn(&str) -> Vec<String>,
>(
    before: State,
    after: State,
    v: Scroll,
    cfg: SpellcheckConfig,
    show: bool,
    errors: E,
    guesses: G,
    task: Task,
    effect: Effect,
)
    requires
        updated(before, after, Message::Scrolled(v), cfg, show, errors, guesses, task, effect),
        before.pending_jump is None,
    ensures
        (effect is PaginateBackwards) == (!v.reflowed && v.near_top && !before.loading_older
            && !before.reached_start),
        !(effect is PaginateBackwards) ==> (effect is MaybeMarkRead) == ((v.user_scrolled
            || !v.reflowed) && !before.at_bottom && v.at_bottom),
        after.at_bottom == v.at_bottom,
        after.geometry == v.geometry,
        task is ToBottom ==> v.near_edge && v.gap && v.reflowed && !v.user_scrolled,
{
}

} // verus!
