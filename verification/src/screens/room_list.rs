//! The sidebar: each joined space with its joined rooms beneath it, then the
//! direct messages, then the rooms that no space lists.

use vstd::prelude::*;

use crate::events::{NotificationMode, RoomSummary};
use crate::string_map::StringMap;
use crate::text;

verus! {

/// The sidebar's state.
#[derive(Debug)]
pub struct State {
    pub rooms: Vec<RoomSummary>,
    /// The children of each space, joined or not.
    pub space_children: StringMap<Vec<String>>,
    pub selected_room_id: Option<String>,
}

impl State {
    /// No rooms.
    pub open spec fn fresh(&self) -> bool {
        &&& self.rooms@.len() == 0
        &&& self.space_children@ == Map::<Seq<char>, Vec<String>>::empty()
        &&& self.selected_room_id is None
    }
}

impl Default for State {
    fn default() -> (r: Self)
        ensures
            r.fresh(),
    {
        State { rooms: Vec::new(), space_children: StringMap::new(), selected_room_id: None }
    }
}

/// What the sidebar reacts to.
#[derive(Debug)]
pub enum Message {
    RoomClicked(String),
    /// A space has no timeline: it opens in the explorer.
    SpaceClicked(String),
    /// Offer to leave, forget or rename the room.
    RoomRightClicked(String),
    NewRoomClicked,
    NewDirectMessageClicked,
}

// ---------------------------------------------------------------------------
// The sections.
// ---------------------------------------------------------------------------
/// Whether a space lists a room.
pub open spec fn lists(
    children: Map<Seq<char>, Vec<String>>,
    space: RoomSummary,
    room_id: Seq<char>,
) -> bool {
    &&& space.is_space
    &&& children.contains_key(space.room_id@)
    &&& text::views(children[space.room_id@]@).contains(room_id)
}

/// The first space at or after `i` that lists a room: the one that it shows
/// under, so that it shows once.
pub open spec fn owner_from(
    rooms: Seq<RoomSummary>,
    children: Map<Seq<char>, Vec<String>>,
    room_id: Seq<char>,
    i: int,
) -> Option<int>
    decreases rooms.len() - i,
{
    if i < 0 || i >= rooms.len() {
        None
    } else if lists(children, rooms[i], room_id) {
        Some(i)
    } else {
        owner_from(rooms, children, room_id, i + 1)
    }
}

/// Where a room shows.
pub enum Place {
    /// As a header of its own.
    Header,
    /// Among the direct messages, even where a space lists it.
    Direct,
    /// Under a space.
    Under(int),
    /// Among the rooms.
    Loose,
}

/// Where a room shows.
pub open spec fn place_of(s: State, i: int) -> Place {
    let room = s.rooms@[i];
    if room.is_space {
        Place::Header
    } else if room.is_dm {
        Place::Direct
    } else {
        match owner_from(s.rooms@, s.space_children@, room.room_id@, 0) {
            Some(k) => Place::Under(k),
            None => Place::Loose,
        }
    }
}

/// The first `n` rooms that show at the place, in order.
pub open spec fn placed(s: State, place: Place, n: int) -> Seq<int>
    decreases n,
{
    if n <= 0 {
        Seq::empty()
    } else {
        let before = placed(s, place, n - 1);
        if place_of(s, n - 1) == place {
            before.push(n - 1)
        } else {
            before
        }
    }
}

/// All rooms that show at the place, in order.
pub open spec fn at_place(s: State, place: Place) -> Seq<int> {
    placed(s, place, s.rooms@.len() as int)
}

/// A space and the rooms beneath it, by index.
#[derive(Debug)]
pub struct SpaceGroup {
    pub space: usize,
    pub children: Vec<usize>,
}

/// The sections of the sidebar, by index.
#[derive(Debug)]
pub struct Sections {
    pub spaces: Vec<SpaceGroup>,
    pub direct: Vec<usize>,
    pub rooms: Vec<usize>,
}

/// Whether these are the sections of the sidebar.
pub open spec fn are_sections(x: Sections, s: State) -> bool {
    let headers = at_place(s, Place::Header);
    &&& x.spaces@.len() == headers.len()
    &&& forall|k: int|
        0 <= k < headers.len() ==> (#[trigger] x.spaces@[k]).space == headers[k] && text::ints(
            x.spaces@[k].children@,
        ) == at_place(s, Place::Under(headers[k]))
    &&& text::ints(x.direct@) == at_place(s, Place::Direct)
    &&& text::ints(x.rooms@) == at_place(s, Place::Loose)
}

/// The space that a room shows under.
fn owner(state: &State, room_id: &str) -> (r: Option<usize>)
    ensures
        match (r, owner_from(state.rooms@, state.space_children@, room_id@, 0)) {
            (Some(i), Some(k)) => i == k,
            (None, None) => true,
            _ => false,
        },
{
    let mut i: usize = 0;
    while i < state.rooms.len()
        invariant
            i <= state.rooms@.len(),
            owner_from(state.rooms@, state.space_children@, room_id@, 0) == owner_from(
                state.rooms@,
                state.space_children@,
                room_id@,
                i as int,
            ),
        decreases state.rooms@.len() - i,
    {
        let space = &state.rooms[i];
        if space.is_space {
            if let Some(children) = state.space_children.get(space.room_id.as_str()) {
                if text::holds(children, room_id) {
                    return Some(i);
                }
            }
        }
        i = i + 1;
    }
    None
}

/// Where a room shows, for the code that sorts rooms.
#[derive(Debug, Clone, Copy, PartialEq, Eq, Structural)]
enum Spot {
    Header,
    Direct,
    Under(usize),
    Loose,
}

impl Spot {
    /// The place that this is.
    spec fn place(self) -> Place {
        match self {
            Spot::Header => Place::Header,
            Spot::Direct => Place::Direct,
            Spot::Under(k) => Place::Under(k as int),
            Spot::Loose => Place::Loose,
        }
    }
}

/// Where each room shows.
fn spots(state: &State) -> (r: Vec<Spot>)
    ensures
        r@.len() == state.rooms@.len(),
        forall|i: int| 0 <= i < r@.len() ==> (#[trigger] r@[i]).place() == place_of(*state, i),
{
    let mut r: Vec<Spot> = Vec::new();
    let mut i: usize = 0;
    while i < state.rooms.len()
        invariant
            i <= state.rooms@.len(),
            r@.len() == i,
            forall|k: int| 0 <= k < i ==> (#[trigger] r@[k]).place() == place_of(*state, k),
        decreases state.rooms@.len() - i,
    {
        let room = &state.rooms[i];
        let spot = if room.is_space {
            Spot::Header
        } else if room.is_dm {
            Spot::Direct
        } else {
            match owner(state, room.room_id.as_str()) {
                Some(k) => Spot::Under(k),
                None => Spot::Loose,
            }
        };
        r.push(spot);
        i = i + 1;
    }
    r
}

/// The rooms that show at a place.
fn collect(state: &State, spots: &Vec<Spot>, spot: Spot) -> (r: Vec<usize>)
    requires
        spots@.len() == state.rooms@.len(),
        forall|i: int|
            0 <= i < spots@.len() ==> (#[trigger] spots@[i]).place() == place_of(*state, i),
    ensures
        text::ints(r@) == at_place(*state, spot.place()),
        forall|i: int| 0 <= i < r@.len() ==> (#[trigger] r@[i]) < state.rooms@.len(),
{
    let mut r: Vec<usize> = Vec::new();
    let mut i: usize = 0;
    assert(text::ints(r@) =~= placed(*state, spot.place(), 0));
    while i < spots.len()
        invariant
            i <= spots@.len(),
            spots@.len() == state.rooms@.len(),
            forall|k: int|
                0 <= k < spots@.len() ==> (#[trigger] spots@[k]).place() == place_of(*state, k),
            text::ints(r@) == placed(*state, spot.place(), i as int),
            forall|k: int| 0 <= k < r@.len() ==> (#[trigger] r@[k]) < i,
        decreases spots@.len() - i,
    {
        let here = match (spots[i], spot) {
            (Spot::Header, Spot::Header) => true,
            (Spot::Direct, Spot::Direct) => true,
            (Spot::Under(a), Spot::Under(b)) => a == b,
            (Spot::Loose, Spot::Loose) => true,
            _ => false,
        };
        assert(here == (place_of(*state, i as int) == spot.place()));
        if here {
            let ghost before = text::ints(r@);
            r.push(i);
            assert(text::ints(r@) =~= before.push(i as int));
        }
        i = i + 1;
    }
    r
}

/// The sections of the sidebar. Each space stands above its rooms; a room that
/// several spaces list shows under the first of them.
pub fn sections(state: &State) -> (r: Sections)
    ensures
        are_sections(r, *state),
{
    let spots = spots(state);
    let headers = collect(state, &spots, Spot::Header);
    let mut spaces: Vec<SpaceGroup> = Vec::new();
    let mut i: usize = 0;
    let ghost all = at_place(*state, Place::Header);
    assert(text::ints(headers@) == all);
    while i < headers.len()
        invariant
            i <= headers@.len(),
            all == at_place(*state, Place::Header),
            text::ints(headers@) == all,
            spots@.len() == state.rooms@.len(),
            forall|k: int|
                0 <= k < spots@.len() ==> (#[trigger] spots@[k]).place() == place_of(*state, k),
            spaces@.len() == i,
            forall|k: int|
                0 <= k < i ==> (#[trigger] spaces@[k]).space == all[k] && text::ints(
                    spaces@[k].children@,
                ) == at_place(*state, Place::Under(all[k])),
        decreases headers@.len() - i,
    {
        let space: usize = headers[i];
        assert(text::ints(headers@)[i as int] == space);
        let children = collect(state, &spots, Spot::Under(space));
        spaces.push(SpaceGroup { space, children });
        i = i + 1;
    }
    Sections {
        spaces,
        direct: collect(state, &spots, Spot::Direct),
        rooms: collect(state, &spots, Spot::Loose),
    }
}

// ---------------------------------------------------------------------------
// The rows.
// ---------------------------------------------------------------------------
/// A room's row.
#[derive(Debug)]
pub struct RoomRow {
    pub name: String,
    pub selected: bool,
    /// Muted rooms are dimmed, and have no badge.
    pub muted: bool,
    pub in_call: bool,
    pub badge: Option<String>,
}

/// Whether this is a room's row.
pub open spec fn is_room_row(
    r: RoomRow,
    s: State,
    room: RoomSummary,
    modes: Map<Seq<char>, NotificationMode>,
    in_call: bool,
) -> bool {
    &&& r.name == room.name
    &&& r.selected == (text::opt_view(s.selected_room_id) == Some(room.room_id@))
    &&& r.muted == (modes.contains_key(room.room_id@) && modes[room.room_id@]
        == NotificationMode::Mute)
    &&& r.in_call == in_call
    &&& text::opt_view(r.badge) == if room.unread_count > 0 && !r.muted {
        Some(text::decimal(room.unread_count as nat))
    } else {
        None
    }
}

/// A room's row.
pub fn room_row(
    state: &State,
    room: &RoomSummary,
    modes: &StringMap<NotificationMode>,
    in_call: bool,
) -> (r: RoomRow)
    ensures
        is_room_row(r, *state, *room, modes@, in_call),
{
    let selected = match &state.selected_room_id {
        Some(id) => text::str_eq(id.as_str(), room.room_id.as_str()),
        None => false,
    };
    let muted = match modes.get(room.room_id.as_str()) {
        Some(mode) => *mode == NotificationMode::Mute,
        None => false,
    };
    RoomRow {
        name: room.name.clone(),
        selected,
        muted,
        in_call,
        badge: if room.unread_count > 0 && !muted {
            Some(text::decimal_string(room.unread_count))
        } else {
            None
        },
    }
}

/// The index of the first room at or after `i` with the id.
pub open spec fn room_from(rooms: Seq<RoomSummary>, room_id: Seq<char>, i: int) -> Option<int>
    decreases rooms.len() - i,
{
    if i < 0 || i >= rooms.len() {
        None
    } else if rooms[i].room_id@ == room_id {
        Some(i)
    } else {
        room_from(rooms, room_id, i + 1)
    }
}

/// The index of the first room with the id.
pub fn find_room(rooms: &Vec<RoomSummary>, room_id: &str) -> (r: Option<usize>)
    ensures
        match (r, room_from(rooms@, room_id@, 0)) {
            (Some(i), Some(k)) => i == k && i < rooms@.len(),
            (None, None) => true,
            _ => false,
        },
{
    let mut i: usize = 0;
    while i < rooms.len()
        invariant
            i <= rooms@.len(),
            room_from(rooms@, room_id@, 0) == room_from(rooms@, room_id@, i as int),
        decreases rooms@.len() - i,
    {
        if text::str_eq(rooms[i].room_id.as_str(), room_id) {
            return Some(i);
        }
        i = i + 1;
    }
    None
}

// ---------------------------------------------------------------------------
// Laws.
// ---------------------------------------------------------------------------
/// Every room of the list shows at one place, and there exactly once.
pub proof fn law_every_room_shows_once(s: State, place: Place, i: int)
    requires
        0 <= i < s.rooms@.len(),
    ensures
        at_place(s, place).contains(i) <==> place_of(s, i) == place,
        at_place(s, place).no_duplicates(),
{
    lemma_placed(s, place, s.rooms@.len() as int);
}

/// What shows at a place, and only that, each once and in order.
proof fn lemma_placed(s: State, place: Place, n: int)
    requires
        0 <= n,
    ensures
        forall|i: int|
            #[trigger] placed(s, place, n).contains(i) <==> 0 <= i < n && place_of(s, i) == place,
        placed(s, place, n).no_duplicates(),
    decreases n,
{
    if n > 0 {
        lemma_placed(s, place, n - 1);
        let before = placed(s, place, n - 1);
        let all = placed(s, place, n);
        assert forall|i: int| #[trigger] all.contains(i) <==> 0 <= i < n && place_of(s, i)
            == place by {
            if all.contains(i) {
                let k = choose|k: int| 0 <= k < all.len() && all[k] == i;
                if k < before.len() {
                    assert(before[k] == i);
                    assert(before.contains(i));
                }
            }
            if 0 <= i < n && place_of(s, i) == place {
                if i < n - 1 {
                    assert(before.contains(i));
                    let k = choose|k: int| 0 <= k < before.len() && before[k] == i;
                    assert(all[k] == i);
                } else {
                    assert(all[before.len() as int] == i);
                }
            }
        }
        assert(all.no_duplicates()) by {
            assert forall|a: int, b: int|
                0 <= a < all.len() && 0 <= b < all.len() && a != b implies all[a] != all[b] by {
                if a < before.len() {
                    assert(before.contains(before[a]));
                }
                if b < before.len() {
                    assert(before.contains(before[b]));
                }
            }
        }
    }
}

/// A room shows under a space that lists it, and under no space where none
/// does.
pub proof fn law_rooms_show_under_their_space(s: State, i: int)
    requires
        0 <= i < s.rooms@.len(),
    ensures
        match place_of(s, i) {
            Place::Under(k) => 0 <= k < s.rooms@.len() && lists(
                s.space_children@,
                s.rooms@[k],
                s.rooms@[i].room_id@,
            ),
            Place::Loose => forall|k: int|
                0 <= k < s.rooms@.len() ==> !lists(
                    s.space_children@,
                    #[trigger] s.rooms@[k],
                    s.rooms@[i].room_id@,
                ),
            _ => true,
        },
{
    lemma_owner(s.rooms@, s.space_children@, s.rooms@[i].room_id@, 0);
}

/// The space that a room shows under lists it.
proof fn lemma_owner(
    rooms: Seq<RoomSummary>,
    children: Map<Seq<char>, Vec<String>>,
    room_id: Seq<char>,
    i: int,
)
    requires
        0 <= i,
    ensures
        match owner_from(rooms, children, room_id, i) {
            Some(k) => i <= k < rooms.len() && lists(children, rooms[k], room_id),
            None => forall|k: int|
                i <= k < rooms.len() ==> !lists(children, #[trigger] rooms[k], room_id),
        },
    decreases rooms.len() - i,
{
    if i < rooms.len() {
        lemma_owner(rooms, children, room_id, i + 1);
    }
}

/// Whether the space is the first that lists the room.
pub open spec fn first_to_list(s: State, k: int, room_id: Seq<char>) -> bool {
    &&& 0 <= k < s.rooms@.len()
    &&& lists(s.space_children@, s.rooms@[k], room_id)
    &&& forall|j: int|
        0 <= j < k ==> !lists(s.space_children@, #[trigger] s.rooms@[j], room_id)
}

proof fn lemma_first_owner(s: State, room_id: Seq<char>, i: int)
    requires
        0 <= i,
        forall|j: int|
            0 <= j < i && j < s.rooms@.len() ==> !lists(
                s.space_children@,
                #[trigger] s.rooms@[j],
                room_id,
            ),
    ensures
        owner_from(s.rooms@, s.space_children@, room_id, i) matches Some(k) ==> first_to_list(
            s,
            k,
            room_id,
        ),
    decreases s.rooms@.len() - i,
{
    if i < s.rooms@.len() && !lists(s.space_children@, s.rooms@[i], room_id) {
        lemma_first_owner(s, room_id, i + 1);
    }
}

proof fn lemma_ints_contains(v: Seq<usize>, i: usize)
    ensures
        v.contains(i) == text::ints(v).contains(i as int),
{
    let h = text::ints(v);
    if v.contains(i) {
        let k = choose|k: int| 0 <= k < v.len() && v[k] == i;
        assert(h[k] == i as int);
    }
    if h.contains(i as int) {
        let k = choose|k: int| 0 <= k < h.len() && h[k] == i as int;
        assert(v[k] == i);
    }
}

/// A direct message shows among the direct messages, even where a space lists
/// it; any other room shows under the first space that lists it, and among the
/// rooms where none does; no space shows among them.
pub proof fn law_where_a_room_shows(x: Sections, s: State, i: usize)
    requires
        are_sections(x, s),
        i < s.rooms@.len(),
    ensures
        x.direct@.contains(i) == (!s.rooms@[i as int].is_space && s.rooms@[i as int].is_dm),
        x.rooms@.contains(i) == {
            &&& !s.rooms@[i as int].is_space
            &&& !s.rooms@[i as int].is_dm
            &&& forall|k: int|
                0 <= k < s.rooms@.len() ==> !lists(
                    s.space_children@,
                    #[trigger] s.rooms@[k],
                    s.rooms@[i as int].room_id@,
                )
        },
        forall|g: int|
            0 <= g < x.spaces@.len() ==> (#[trigger] x.spaces@[g]).children@.contains(i) == {
                &&& !s.rooms@[i as int].is_space
                &&& !s.rooms@[i as int].is_dm
                &&& first_to_list(s, x.spaces@[g].space as int, s.rooms@[i as int].room_id@)
            },
        (exists|g: int| 0 <= g < x.spaces@.len() && (#[trigger] x.spaces@[g]).space == i)
            == s.rooms@[i as int].is_space,
{
    let room_id = s.rooms@[i as int].room_id@;
    lemma_ints_contains(x.direct@, i);
    lemma_ints_contains(x.rooms@, i);
    law_every_room_shows_once(s, Place::Direct, i as int);
    law_every_room_shows_once(s, Place::Loose, i as int);
    law_every_room_shows_once(s, Place::Header, i as int);
    law_rooms_show_under_their_space(s, i as int);
    lemma_first_owner(s, room_id, 0);
    let headers = at_place(s, Place::Header);
    assert forall|g: int|
        0 <= g < x.spaces@.len() implies (#[trigger] x.spaces@[g]).children@.contains(i) == {
        &&& !s.rooms@[i as int].is_space
        &&& !s.rooms@[i as int].is_dm
        &&& first_to_list(s, x.spaces@[g].space as int, room_id)
    } by {
        let k = headers[g];
        lemma_ints_contains(x.spaces@[g].children@, i);
        law_every_room_shows_once(s, Place::Under(k), i as int);
        if first_to_list(s, k, room_id) {
            lemma_owner(s.rooms@, s.space_children@, room_id, 0);
            let o = owner_from(s.rooms@, s.space_children@, room_id, 0);
            assert(lists(s.space_children@, s.rooms@[k], room_id));
            assert(o is Some);
            assert(lists(s.space_children@, s.rooms@[o->0], room_id));
            assert(o->0 == k);
        }
    }
    if s.rooms@[i as int].is_space {
        let g = choose|g: int| 0 <= g < headers.len() && headers[g] == i as int;
        assert(x.spaces@[g].space == i);
    }
    if exists|g: int| 0 <= g < x.spaces@.len() && (#[trigger] x.spaces@[g]).space == i {
        let g = choose|g: int| 0 <= g < x.spaces@.len() && (#[trigger] x.spaces@[g]).space == i;
        assert(headers[g] == i as int);
        assert(headers.contains(i as int));
    }
}

/// A row says what its room is: its name, whether it is open, whether it is
/// muted, and how many messages are unread, which a muted room does not say.
pub proof fn law_what_a_room_says(
    r: RoomRow,
    s: State,
    room: RoomSummary,
    modes: Map<Seq<char>, NotificationMode>,
    in_call: bool,
)
    requires
        is_room_row(r, s, room, modes, in_call),
    ensures
        r.name@ == room.name@,
        r.in_call == in_call,
        r.selected ==> s.selected_room_id is Some && s.selected_room_id->0@ == room.room_id@,
        s.selected_room_id matches Some(id) && id@ == room.room_id@ ==> r.selected,
        !modes.contains_key(room.room_id@) ==> !r.muted,
        modes.contains_key(room.room_id@) ==> r.muted == (modes[room.room_id@] is Mute),
        r.badge is Some ==> r.badge->0@ == text::decimal(room.unread_count as nat)
            && room.unread_count > 0,
        room.unread_count > 0 && !modes.contains_key(room.room_id@) ==> r.badge is Some,
        room.unread_count > 0 && modes.contains_key(room.room_id@) ==> r.badge is Some == !(
        modes[room.room_id@] is Mute),
{
}

/// The room with an id is the first that has it, and there is none exactly
/// where no room has it.
pub proof fn law_a_room_is_found_by_its_id(rooms: Seq<RoomSummary>, room_id: Seq<char>)
    ensures
        match room_from(rooms, room_id, 0) {
            Some(i) => 0 <= i < rooms.len() && rooms[i].room_id@ == room_id && forall|j: int|
                0 <= j < i ==> (#[trigger] rooms[j]).room_id@ != room_id,
            None => forall|j: int|
                0 <= j < rooms.len() ==> (#[trigger] rooms[j]).room_id@ != room_id,
        },
{
    lemma_room_from(rooms, room_id, 0);
}

proof fn lemma_room_from(rooms: Seq<RoomSummary>, room_id: Seq<char>, i: int)
    requires
        0 <= i,
    ensures
        match room_from(rooms, room_id, i) {
            Some(k) => i <= k < rooms.len() && rooms[k].room_id@ == room_id && forall|j: int|
                i <= j < k ==> (#[trigger] rooms[j]).room_id@ != room_id,
            None => forall|j: int|
                i <= j < rooms.len() ==> (#[trigger] rooms[j]).room_id@ != room_id,
        },
    decreases rooms.len() - i,
{
    if i < rooms.len() {
        lemma_room_from(rooms, room_id, i + 1);
    }
}

} // verus!
