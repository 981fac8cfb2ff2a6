//! The banner of a room's call: who is in it, and joining or leaving.

use vstd::prelude::*;

use crate::events::{CallParticipant, CallState, RequestId, RoomMember};
use crate::screens::timeline::members;
use crate::screens::timeline::members::Face;
use crate::string_map::StringMap;
use crate::text;

verus! {

/// The calls of all rooms, and the request that is under way.
#[derive(Debug)]
pub struct State {
    /// The latest state of each room's call. One without participants is a
    /// call that has ended.
    pub calls: StringMap<CallState>,
    /// The request under way: its id, its room, and whether it joins.
    pub pending: Option<(RequestId, String, bool)>,
    /// The last failure: its room, and what went wrong.
    pub error: Option<(String, String)>,
}

impl State {
    /// No calls.
    pub open spec fn fresh(&self) -> bool {
        &&& self.calls@ == Map::<Seq<char>, CallState>::empty()
        &&& self.pending is None
        &&& self.error is None
    }

    /// Whether someone is in the room's call.
    pub open spec fn active(&self, room_id: Seq<char>) -> bool {
        self.calls@.contains_key(room_id) && self.calls@[room_id].participants@.len() > 0
    }

    /// Whether this device is in the room's call.
    pub open spec fn joined(&self, room_id: Seq<char>) -> bool {
        self.calls@.contains_key(room_id) && self.calls@[room_id].joined
    }

    /// The direction of the room's request, where one is under way.
    pub open spec fn direction(&self, room_id: Seq<char>) -> Option<bool> {
        match self.pending {
            Some(p) => if p.1@ == room_id {
                Some(p.2)
            } else {
                None
            },
            None => None,
        }
    }

    /// The room's failure.
    pub open spec fn failure(&self, room_id: Seq<char>) -> Option<Seq<char>> {
        match self.error {
            Some(e) => if e.0@ == room_id {
                Some(e.1@)
            } else {
                None
            },
            None => None,
        }
    }

    /// The users in the room's call, each once.
    pub open spec fn callers(&self, room_id: Seq<char>) -> Seq<Seq<char>> {
        if self.calls@.contains_key(room_id) {
            uniques(user_ids(self.calls@[room_id].participants@))
        } else {
            Seq::empty()
        }
    }

    /// Whether the room has a call that someone is in.
    pub fn has_active_call(&self, room_id: &str) -> (r: bool)
        ensures
            r == self.active(room_id@),
    {
        match self.calls.get(room_id) {
            Some(c) => c.participants.len() > 0,
            None => false,
        }
    }

    /// Whether a request for the room is under way.
    pub fn pending_for(&self, room_id: &str) -> (r: bool)
        ensures
            r == (self.direction(room_id@) is Some),
    {
        match &self.pending {
            Some(p) => text::str_eq(p.1.as_str(), room_id),
            None => false,
        }
    }
}

impl Default for State {
    fn default() -> (r: Self)
        ensures
            r.fresh(),
    {
        State { calls: StringMap::new(), pending: None, error: None }
    }
}

/// What a request to join or leave makes of the state: one at a time.
pub open spec fn requested(
    before: State,
    after: State,
    room_id: String,
    join: bool,
    request_id: RequestId,
) -> bool {
    if before.pending is Some {
        after == before
    } else {
        after == (State { pending: Some((request_id, room_id, join)), error: None, ..before })
    }
}

/// Records a request to join or leave a room's call; says whether it goes
/// out.
pub fn request(state: &mut State, room_id: String, join: bool, request_id: RequestId) -> (r: bool)
    ensures
        requested(*old(state), *final(state), room_id, join, request_id),
        r == (old(state).pending is None),
{
    if state.pending.is_some() {
        return false;
    }
    state.pending = Some((request_id, room_id, join));
    state.error = None;
    true
}

/// Whether the request under way is this one.
pub open spec fn waits_for(s: State, request_id: RequestId) -> bool {
    s.pending matches Some(p) && p.0 == request_id
}

/// Takes the success of the request under way; says whether it was that.
pub fn succeed(state: &mut State, request_id: RequestId) -> (r: bool)
    ensures
        r == waits_for(*old(state), request_id),
        *final(state) == if r {
            State { pending: None, ..*old(state) }
        } else {
            *old(state)
        },
{
    let ours = match &state.pending {
        Some(p) => p.0 == request_id,
        None => false,
    };
    if ours {
        state.pending = None;
    }
    ours
}

/// What a failure makes of the state: it is kept with its room.
pub open spec fn refused(before: State, after: State, request_id: RequestId, error: String) -> bool {
    if waits_for(before, request_id) {
        before.pending matches Some(p) && after == (State {
            pending: None,
            error: Some((p.1, error)),
            ..before
        })
    } else {
        after == before
    }
}

/// Takes the failure of the request under way; says whether it was that.
pub fn fail(state: &mut State, request_id: RequestId, error: String) -> (r: bool)
    ensures
        r == waits_for(*old(state), request_id),
        refused(*old(state), *final(state), request_id, error),
{
    let ours = match &state.pending {
        Some(p) => p.0 == request_id,
        None => false,
    };
    if ours {
        if let Some((_, room_id, _)) = state.pending.take() {
            state.error = Some((room_id, error));
        }
    }
    ours
}

/// The users of some devices.
pub open spec fn user_ids(ps: Seq<CallParticipant>) -> Seq<Seq<char>> {
    ps.map_values(|p: CallParticipant| p.user_id@)
}

/// Some texts, each at its first place only.
pub open spec fn uniques(ids: Seq<Seq<char>>) -> Seq<Seq<char>>
    decreases ids.len(),
{
    if ids.len() == 0 {
        Seq::empty()
    } else {
        let before = uniques(ids.drop_last());
        if before.contains(ids.last()) {
            before
        } else {
            before.push(ids.last())
        }
    }
}

/// How many faces a banner shows.
pub const MAX_FACES: usize = 8;

/// What the banner offers.
#[derive(Debug, Clone, Copy, PartialEq, Eq, Structural)]
pub enum BannerAction {
    /// A request is under way.
    Waiting,
    Leave,
    Join,
}

/// The banner of a call.
#[derive(Debug)]
pub struct CallBanner {
    pub label: &'static str,
    pub faces: Vec<Face>,
    /// How many more there are.
    pub more: Option<String>,
    pub count: Option<String>,
    pub action: BannerAction,
}

/// A banner.
#[derive(Debug)]
pub enum Banner {
    /// What went wrong, and a way to dismiss it.
    Failed(String),
    Call(CallBanner),
}

/// What the banner says. Which way a request goes is taken from the request:
/// the call's own state may already show its outcome.
pub open spec fn label_of(direction: Option<bool>, active: bool, joined: bool) -> Seq<char> {
    match direction {
        Some(false) => "Leaving call…"@,
        Some(true) => if active {
            "Joining call…"@
        } else {
            "Starting call…"@
        },
        None => if joined {
            "In call — signaling only, no audio yet"@
        } else {
            "Call in progress"@
        },
    }
}

/// Whether a face is a caller's: a member shows as such, anyone else by the
/// user id.
pub open spec fn is_caller(f: Face, members: Seq<RoomMember>, user_id: Seq<char>) -> bool {
    match members::member_at(members, user_id) {
        Some(i) => f.name@ == members[i].display_name@ && f.avatar_url == members[i].avatar_url,
        None => f.name@ == user_id && f.avatar_url is None,
    }
}

/// Whether this is the banner of a room's call.
pub open spec fn is_call_banner(
    b: CallBanner,
    s: State,
    room_id: Seq<char>,
    members: Seq<RoomMember>,
) -> bool {
    let ids = s.callers(room_id);
    &&& b.label@ == label_of(s.direction(room_id), s.active(room_id), s.joined(room_id))
    &&& b.faces@.len() == if ids.len() > MAX_FACES {
        MAX_FACES as nat
    } else {
        ids.len()
    }
    &&& forall|i: int|
        0 <= i < b.faces@.len() ==> is_caller(#[trigger] b.faces@[i], members, ids[i])
    &&& text::opt_view(b.more) == if ids.len() > MAX_FACES {
        Some("+"@ + text::decimal((ids.len() - MAX_FACES) as nat))
    } else {
        None
    }
    &&& text::opt_view(b.count) == if ids.len() > 0 {
        Some(text::decimal(ids.len()) + " in call"@)
    } else {
        None
    }
    &&& b.action == if s.direction(room_id) is Some {
        BannerAction::Waiting
    } else if s.joined(room_id) {
        BannerAction::Leave
    } else {
        BannerAction::Join
    }
}

/// Whether a room has a banner.
pub open spec fn has_banner(s: State, room_id: Seq<char>) -> bool {
    s.active(room_id) || s.joined(room_id) || s.direction(room_id) is Some || s.failure(
        room_id,
    ) is Some
}

/// The users in a call, each once.
fn unique_users(ps: &Vec<CallParticipant>) -> (r: Vec<String>)
    ensures
        text::views(r@) == uniques(user_ids(ps@)),
{
    let ghost ids = user_ids(ps@);
    let mut r: Vec<String> = Vec::new();
    let mut i: usize = 0;
    assert(ids.take(0).len() == 0);
    assert(text::views(r@) =~= uniques(ids.take(0)));
    while i < ps.len()
        invariant
            i <= ps@.len(),
            ids == user_ids(ps@),
            text::views(r@) == uniques(ids.take(i as int)),
        decreases ps@.len() - i,
    {
        let id = ps[i].user_id.as_str();
        let ghost next = ids.take(i + 1);
        assert(next.drop_last() =~= ids.take(i as int));
        assert(next.last() == id@);
        if !text::holds(&r, id) {
            let ghost before = text::views(r@);
            r.push(id.to_owned());
            assert(text::views(r@) =~= before.push(id@));
        }
        i = i + 1;
    }
    assert(ids.take(ps@.len() as int) =~= ids);
    r
}

/// A caller's face.
fn caller_face(members: &Vec<RoomMember>, user_id: &str) -> (r: Face)
    ensures
        is_caller(r, members@, user_id@),
{
    match members::member_by_id(members, user_id) {
        Some(m) => Face { name: m.display_name.clone(), avatar_url: text::clone_opt(&m.avatar_url) },
        None => Face { name: user_id.to_owned(), avatar_url: None },
    }
}

/// The banner of a room: its failure before anything else, then its call, or
/// the request that is under way. A failure shows in its own room only.
pub fn banner(state: &State, room_id: &str, members: &Vec<RoomMember>) -> (r: Option<Banner>)
    ensures
        match r {
            None => !has_banner(*state, room_id@),
            Some(Banner::Failed(e)) => state.failure(room_id@) == Some(e@),
            Some(Banner::Call(b)) => has_banner(*state, room_id@) && state.failure(room_id@) is None
                && is_call_banner(b, *state, room_id@, members@),
        },
{
    if let Some(e) = &state.error {
        if text::str_eq(e.0.as_str(), room_id) {
            return Some(Banner::Failed(e.1.clone()));
        }
    }
    let direction: Option<bool> = match &state.pending {
        Some(p) => if text::str_eq(p.1.as_str(), room_id) {
            Some(p.2)
        } else {
            None
        },
        None => None,
    };
    let joined = match state.calls.get(room_id) {
        Some(c) => c.joined,
        None => false,
    };
    let active = state.has_active_call(room_id);
    if !active && !joined && direction.is_none() {
        return None;
    }
    let label: &'static str = match direction {
        Some(joining) => if !joining {
            "Leaving call…"
        } else if active {
            "Joining call…"
        } else {
            "Starting call…"
        },
        None => if joined {
            "In call — signaling only, no audio yet"
        } else {
            "Call in progress"
        },
    };
    let ids = match state.calls.get(room_id) {
        Some(c) => unique_users(&c.participants),
        None => Vec::new(),
    };
    let ghost callers = state.callers(room_id@);
    assert(text::views(ids@) =~= callers);
    let n: usize = ids.len();
    let mut faces: Vec<Face> = Vec::new();
    let mut i: usize = 0;
    while i < n && i < MAX_FACES
        invariant
            n == ids@.len(),
            i <= n,
            i <= MAX_FACES,
            faces@.len() == i,
            text::views(ids@) == callers,
            forall|k: int|
                0 <= k < i ==> is_caller(#[trigger] faces@[k], members@, callers[k]),
        decreases n - i,
    {
        assert(callers[i as int] == ids@[i as int]@);
        faces.push(caller_face(members, ids[i].as_str()));
        i = i + 1;
    }
    let more = if n > MAX_FACES {
        let extra = text::decimal_string((n - MAX_FACES) as u64);
        Some(text::join2("+", extra.as_str()))
    } else {
        None
    };
    let count = if n > 0 {
        let total = text::decimal_string(n as u64);
        Some(text::join2(total.as_str(), " in call"))
    } else {
        None
    };
    let action = if direction.is_some() {
        BannerAction::Waiting
    } else if joined {
        BannerAction::Leave
    } else {
        BannerAction::Join
    };
    Some(Banner::Call(CallBanner { label, faces, more, count, action }))
}

// ---------------------------------------------------------------------------
// Laws.
// ---------------------------------------------------------------------------
/// A user who is in a call from several devices shows once, and everyone who
/// is in it shows.
pub proof fn law_callers_show_once(ids: Seq<Seq<char>>)
    ensures
        uniques(ids).no_duplicates(),
        forall|id: Seq<char>| uniques(ids).contains(id) <==> ids.contains(id),
    decreases ids.len(),
{
    if ids.len() > 0 {
        let front = ids.drop_last();
        law_callers_show_once(front);
        let before = uniques(front);
        let all = uniques(ids);
        assert(ids =~= front.push(ids.last()));
        assert forall|id: Seq<char>| all.contains(id) <==> ids.contains(id) by {
            if all.contains(id) {
                let k = choose|k: int| 0 <= k < all.len() && all[k] == id;
                if k < before.len() {
                    assert(before[k] == id);
                    assert(front.contains(id));
                    let j = choose|j: int| 0 <= j < front.len() && front[j] == id;
                    assert(ids[j] == id);
                } else {
                    assert(ids[ids.len() - 1] == id);
                }
            }
            if ids.contains(id) {
                let k = choose|k: int| 0 <= k < ids.len() && ids[k] == id;
                if k < front.len() {
                    assert(front[k] == id);
                    assert(front.contains(id));
                    assert(before.contains(id));
                    let j = choose|j: int| 0 <= j < before.len() && before[j] == id;
                    assert(all[j] == id);
                } else if before.contains(id) {
                    assert(all == before);
                } else {
                    assert(all[before.len() as int] == id);
                }
            }
        }
        assert(all.no_duplicates()) by {
            if !before.contains(ids.last()) {
                assert forall|a: int, b: int|
                    0 <= a < all.len() && 0 <= b < all.len() && a != b implies all[a] != all[b] by {
                    if a < before.len() && b < before.len() {
                        assert(before[a] != before[b]);
                    } else if a < before.len() {
                        assert(before.contains(before[a]));
                    } else {
                        assert(before.contains(before[b]));
                    }
                }
            }
        }
    }
}

/// A failure in one room leaves every other room's banner as it is.
pub proof fn law_failures_stay_in_their_room(s: State, room_id: Seq<char>)
    requires
        s.error matches Some(e) && e.0@ != room_id,
    ensures
        s.failure(room_id) is None,
        has_banner(s, room_id) == has_banner(State { error: None, ..s }, room_id),
{
}

/// A request is about its own room and goes its own way; its answer ends it,
/// and a refusal shows in that room and in no other.
pub proof fn law_a_request_ends_with_its_answer(
    s0: State,
    s1: State,
    s2: State,
    room_id: String,
    join: bool,
    id: RequestId,
    why: String,
    elsewhere: Seq<char>,
)
    requires
        s0.pending is None,
        requested(s0, s1, room_id, join, id),
        refused(s1, s2, id, why),
        elsewhere != room_id@,
    ensures
        s1.direction(room_id@) == Some(join),
        s1.direction(elsewhere) is None,
        s1.failure(room_id@) is None,
        waits_for(s1, id),
        forall|other: RequestId| other != id ==> !#[trigger] waits_for(s1, other),
        s2.direction(room_id@) is None,
        s2.failure(room_id@) == Some(why@),
        s2.failure(elsewhere) is None,
        s2.calls == s0.calls,
{
}

/// What the banner offers follows what is so: to leave a call that one is in,
/// to join one that one is not in, and nothing while a request is under way.
pub proof fn law_what_the_banner_offers(
    b: CallBanner,
    s: State,
    room_id: Seq<char>,
    members: Seq<RoomMember>,
)
    requires
        is_call_banner(b, s, room_id, members),
    ensures
        s.pending is None && s.calls@.contains_key(room_id) && s.calls@[room_id].joined
            ==> b.action == BannerAction::Leave && b.label@
            == "In call — signaling only, no audio yet"@,
        s.pending is None && s.calls@.contains_key(room_id) && !s.calls@[room_id].joined
            ==> b.action == BannerAction::Join && b.label@ == "Call in progress"@,
        s.pending matches Some(p) && p.1@ == room_id ==> b.action == BannerAction::Waiting,
        s.pending matches Some(p) && p.1@ == room_id && !p.2 ==> b.label@ == "Leaving call…"@,
        s.pending matches Some(p) && p.1@ == room_id && p.2 && !s.calls@.contains_key(room_id)
            ==> b.label@ == "Starting call…"@,
        s.pending matches Some(p) && p.1@ == room_id && p.2 && s.calls@.contains_key(room_id)
            && s.calls@[room_id].participants@.len() > 0 ==> b.label@ == "Joining call…"@,
        b.faces@.len() <= 8,
        forall|i: int|
            0 <= i < b.faces@.len() ==> is_caller(
                #[trigger] b.faces@[i],
                members,
                s.callers(room_id)[i],
            ),
        s.callers(room_id).len() > 0 ==> b.count is Some && b.count->0@ == text::decimal(
            s.callers(room_id).len(),
        ) + " in call"@,
        s.callers(room_id).len() > 8 ==> b.more is Some && b.more->0@ == "+"@ + text::decimal(
            (s.callers(room_id).len() - 8) as nat,
        ),
        s.callers(room_id).len() <= 8 ==> b.more is None && b.faces@.len() == s.callers(
            room_id,
        ).len(),
{
}

} // verus!
