//! Exploring a space: its children, joined or not. Subspaces are entered one
//! level at a time, onto a stack; levels that were fetched show again at once.

use vstd::prelude::*;

use crate::events::{RequestId, SpaceChildSummary, SpaceJoinRule};
use crate::text;
use crate::word_set::WordSet;

verus! {

/// One level: a space whose children are listed.
#[derive(Debug)]
pub struct Level {
    pub space_id: String,
    pub name: String,
    pub children: Vec<SpaceChildSummary>,
    /// Where the next page starts; none behind the last one.
    pub next_batch: Option<String>,
    /// The fetch under way.
    pub pending_request: Option<RequestId>,
    pub error: Option<String>,
}

impl Level {
    /// A level whose first page was asked for.
    pub open spec fn is_loading(
        self,
        space_id: String,
        name: String,
        request_id: RequestId,
    ) -> bool {
        &&& self.children@.len() == 0
        &&& self == (Level {
            space_id,
            name,
            children: self.children,
            next_batch: None,
            pending_request: Some(request_id),
            error: None,
        })
    }

    /// A level whose first page was asked for.
    pub fn loading(space_id: String, name: String, request_id: RequestId) -> (r: Self)
        ensures
            r.is_loading(space_id, name, request_id),
    {
        Level {
            space_id,
            name,
            children: Vec::new(),
            next_batch: None,
            pending_request: Some(request_id),
            error: None,
        }
    }
}

/// The explorer's state.
#[derive(Debug)]
pub struct State {
    /// The levels; the last one shows.
    pub stack: Vec<Level>,
    /// The join under way: one at a time.
    pub pending_join: Option<(RequestId, String)>,
    /// The rooms joined from here: their rows show it at once.
    pub joined: WordSet,
    /// The last failed join: its room, and what went wrong.
    pub join_error: Option<(String, String)>,
}

/// The first level at or after `i` that waits for the request.
pub open spec fn waiting_from(stack: Seq<Level>, request_id: RequestId, i: int) -> Option<int>
    decreases stack.len() - i,
{
    if i < 0 || i >= stack.len() {
        None
    } else if stack[i].pending_request == Some(request_id) {
        Some(i)
    } else {
        waiting_from(stack, request_id, i + 1)
    }
}

/// The first level at or after `i` that waits for the request, and is of the
/// space.
pub open spec fn page_from(
    stack: Seq<Level>,
    request_id: RequestId,
    space_id: Seq<char>,
    i: int,
) -> Option<int>
    decreases stack.len() - i,
{
    if i < 0 || i >= stack.len() {
        None
    } else if stack[i].pending_request == Some(request_id) && stack[i].space_id@ == space_id {
        Some(i)
    } else {
        page_from(stack, request_id, space_id, i + 1)
    }
}

/// Whether a level has taken a page in.
pub open spec fn paged(
    before: Level,
    after: Level,
    children: Seq<SpaceChildSummary>,
    next_batch: Option<String>,
) -> bool {
    &&& after.children@ == before.children@ + children
    &&& after == (Level {
        children: after.children,
        next_batch,
        pending_request: None,
        error: None,
        ..before
    })
}

/// Whether only the level at `k` changed, and how.
pub open spec fn only_level(before: State, after: State, k: int, level: Level) -> bool {
    &&& after == (State { stack: after.stack, ..before })
    &&& after.stack@ == before.stack@.update(k, level)
}

impl State {
    /// There is a level to show.
    pub open spec fn wf(&self) -> bool {
        self.stack@.len() > 0
    }

    /// Whether the join under way is this request.
    pub open spec fn joins(&self, request_id: RequestId) -> bool {
        self.pending_join matches Some(p) && p.0 == request_id
    }

    /// The explorer as it opens at a space, its first page asked for.
    pub fn open(space_id: String, name: String, request_id: RequestId) -> (r: Self)
        ensures
            r.wf(),
            r.stack@.len() == 1,
            r.stack@[0].is_loading(space_id, name, request_id),
            r.pending_join is None,
            r.joined@ == Set::<Seq<char>>::empty(),
            r.join_error is None,
    {
        let mut stack: Vec<Level> = Vec::new();
        stack.push(Level::loading(space_id, name, request_id));
        State { stack, pending_join: None, joined: WordSet::new(), join_error: None }
    }

    /// Takes a page in: it goes behind what its level has. A page that no
    /// level waits for is dropped.
    pub fn apply_page(
        &mut self,
        request_id: RequestId,
        space_id: &str,
        children: Vec<SpaceChildSummary>,
        next_batch: Option<String>,
    )
        ensures
            match page_from(old(self).stack@, request_id, space_id@, 0) {
                Some(k) => {
                    &&& 0 <= k < old(self).stack@.len()
                    &&& only_level(*old(self), *final(self), k, final(self).stack@[k])
                    &&& paged(
                        old(self).stack@[k],
                        final(self).stack@[k],
                        children@,
                        next_batch,
                    )
                },
                None => *final(self) == *old(self),
            },
    {
        let mut i: usize = 0;
        while i < self.stack.len()
            invariant
                i <= self.stack@.len(),
                *self == *old(self),
                page_from(self.stack@, request_id, space_id@, 0) == page_from(
                    self.stack@,
                    request_id,
                    space_id@,
                    i as int,
                ),
            decreases self.stack@.len() - i,
        {
            let waits = match self.stack[i].pending_request {
                Some(id) => id == request_id,
                None => false,
            };
            if waits && text::str_eq(self.stack[i].space_id.as_str(), space_id) {
                let mut more = children;
                let level = &mut self.stack[i];
                level.pending_request = None;
                level.error = None;
                level.children.append(&mut more);
                level.next_batch = next_batch;
                return ;
            }
            i = i + 1;
        }
    }

    /// Takes the success of a join; says whether it was the explorer's.
    pub fn handle_success(&mut self, request_id: RequestId) -> (r: bool)
        ensures
            r == old(self).joins(request_id),
            !r ==> *final(self) == *old(self),
            r ==> {
                &&& old(self).pending_join matches Some(p) && final(self).joined@
                    == old(self).joined@.insert(p.1@)
                &&& *final(self) == (State {
                    pending_join: None,
                    joined: final(self).joined,
                    ..*old(self)
                })
            },
    {
        let ours = match &self.pending_join {
            Some(p) => p.0 == request_id,
            None => false,
        };
        if ours {
            if let Some((_, room_id)) = self.pending_join.take() {
                self.joined.insert(room_id);
            }
        }
        ours
    }

    /// Takes the failure of a join or of a fetch; says whether it was the
    /// explorer's.
    pub fn handle_failure(&mut self, request_id: RequestId, error: &str) -> (r: bool)
        ensures
            r == (old(self).joins(request_id) || waiting_from(
                old(self).stack@,
                request_id,
                0,
            ) is Some),
            failed(*old(self), *final(self), request_id, error@),
    {
        let ours = match &self.pending_join {
            Some(p) => p.0 == request_id,
            None => false,
        };
        if ours {
            if let Some((_, room_id)) = self.pending_join.take() {
                self.join_error = Some((room_id, error.to_owned()));
            }
            return true;
        }
        let mut i: usize = 0;
        while i < self.stack.len()
            invariant
                i <= self.stack@.len(),
                *self == *old(self),
                !self.joins(request_id),
                waiting_from(self.stack@, request_id, 0) == waiting_from(
                    self.stack@,
                    request_id,
                    i as int,
                ),
            decreases self.stack@.len() - i,
        {
            let waits = match self.stack[i].pending_request {
                Some(id) => id == request_id,
                None => false,
            };
            if waits {
                let level = &mut self.stack[i];
                level.pending_request = None;
                level.error = Some(error.to_owned());
                return true;
            }
            i = i + 1;
        }
        false
    }
}

/// What a failure leaves: a failed join shows in its room's row, a failed
/// fetch at its level.
pub open spec fn failed(before: State, after: State, request_id: RequestId, error: Seq<char>) -> bool {
    if before.joins(request_id) {
        &&& before.pending_join matches Some(p) && (after.join_error matches Some(e) && e.0 == p.1
            && e.1@ == error)
        &&& after == (State { pending_join: None, join_error: after.join_error, ..before })
    } else {
        match waiting_from(before.stack@, request_id, 0) {
            Some(k) => {
                &&& 0 <= k < before.stack@.len()
                &&& only_level(before, after, k, after.stack@[k])
                &&& after.stack@[k].error matches Some(e) && e@ == error
                &&& after.stack@[k] == (Level {
                    pending_request: None,
                    error: after.stack@[k].error,
                    ..before.stack@[k]
                })
            },
            None => after == before,
        }
    }
}

/// What the explorer reacts to.
#[derive(Debug)]
pub enum Message {
    Close,
    /// One level up; from the first one, out.
    Back,
    EnterSpace { space_id: String, name: String },
    Join { room_id: String, via: Vec<String> },
    /// Open a joined room.
    Open(String),
    LoadMore,
    /// Fetch the level anew, from its first page.
    Retry,
}

/// What is to be carried out.
#[derive(Debug)]
pub enum Step {
    Nothing,
    Fetch { space_id: String, from: Option<String> },
    Join { room_id: String, via: Vec<String> },
    Open(String),
}

/// Whether only the last level changed, and how.
pub open spec fn only_last(before: State, after: State, level: Level) -> bool {
    only_level(before, after, before.stack@.len() - 1, level)
}

/// What a message makes of the explorer, and what it asks for. `request_id`
/// is the id of the request that goes out.
pub open spec fn updated(
    before: Option<State>,
    after: Option<State>,
    message: Message,
    request_id: RequestId,
    step: Step,
) -> bool {
    match message {
        Message::Close => after is None && step is Nothing,
        Message::Open(room_id) => after is None && step == Step::Open(room_id),
        _ => match before {
            None => after is None && step is Nothing,
            Some(s) => changed(s, after, message, request_id, step),
        },
    }
}

/// What a message makes of an open explorer.
pub open spec fn changed(
    s: State,
    after: Option<State>,
    message: Message,
    request_id: RequestId,
    step: Step,
) -> bool {
    let last = s.stack@[s.stack@.len() - 1];
    match message {
        Message::Back => {
            &&& step is Nothing
            &&& if s.stack@.len() == 1 {
                after is None
            } else {
                after matches Some(t) && t == (State { stack: t.stack, ..s }) && t.stack@
                    == s.stack@.drop_last()
            }
        },
        Message::EnterSpace { space_id, name } => {
            &&& after matches Some(t) && t == (State { stack: t.stack, ..s }) && t.stack@.len()
                == s.stack@.len() + 1 && t.stack@.drop_last() == s.stack@
                && t.stack@.last().is_loading(space_id, name, request_id)
            &&& step == (Step::Fetch { space_id, from: None })
        },
        Message::Join { room_id, via } => if s.pending_join is Some {
            after == Some(s) && step is Nothing
        } else {
            &&& after == Some(
                State { pending_join: Some((request_id, room_id)), join_error: None, ..s },
            )
            &&& step == (Step::Join { room_id, via })
        },
        Message::LoadMore => match (last.pending_request, last.next_batch) {
            (None, Some(from)) => {
                &&& after matches Some(t) && only_last(
                    s,
                    t,
                    Level { pending_request: Some(request_id), ..last },
                )
                &&& step == (Step::Fetch { space_id: last.space_id, from: Some(from) })
            },
            _ => after == Some(s) && step is Nothing,
        },
        Message::Retry => {
            &&& after matches Some(t) && only_last(s, t, t.stack@.last())
                && t.stack@.last().is_loading(last.space_id, last.name, request_id)
            &&& step == (Step::Fetch { space_id: last.space_id, from: None })
        },
        Message::Close => true,
        Message::Open(_) => true,
    }
}

/// Fetches the next page of the last level.
fn load_more(s: &mut State, request_id: RequestId) -> (step: Step)
    requires
        old(s).wf(),
    ensures
        final(s).wf(),
        changed(*old(s), Some(*final(s)), Message::LoadMore, request_id, step),
{
    let k: usize = s.stack.len() - 1;
    if s.stack[k].pending_request.is_some() {
        return Step::Nothing;
    }
    let from = match &s.stack[k].next_batch {
        Some(from) => from.clone(),
        None => {
            return Step::Nothing;
        },
    };
    let space_id = s.stack[k].space_id.clone();
    let level = &mut s.stack[k];
    level.pending_request = Some(request_id);
    Step::Fetch { space_id, from: Some(from) }
}

/// Fetches the last level anew.
fn retry(s: &mut State, request_id: RequestId) -> (step: Step)
    requires
        old(s).wf(),
    ensures
        final(s).wf(),
        changed(*old(s), Some(*final(s)), Message::Retry, request_id, step),
{
    let k: usize = s.stack.len() - 1;
    let space_id = s.stack[k].space_id.clone();
    let level = &mut s.stack[k];
    level.children = Vec::new();
    level.next_batch = None;
    level.error = None;
    level.pending_request = Some(request_id);
    Step::Fetch { space_id, from: None }
}

/// Reacts to a message. Only one join runs at a time; a level whose fetch
/// failed starts over from its first page.
pub fn update(explorer: &mut Option<State>, message: Message, request_id: RequestId) -> (step: Step)
    requires
        *old(explorer) matches Some(s) ==> s.wf(),
    ensures
        *final(explorer) matches Some(s) ==> s.wf(),
        updated(*old(explorer), *final(explorer), message, request_id, step),
{
    match message {
        Message::Close => {
            *explorer = None;
            return Step::Nothing;
        },
        Message::Open(room_id) => {
            *explorer = None;
            return Step::Open(room_id);
        },
        _ => {},
    }
    let mut s = match explorer.take() {
        Some(s) => s,
        None => {
            return Step::Nothing;
        },
    };
    let step = match message {
        Message::Back => {
            s.stack.pop();
            if s.stack.len() == 0 {
                return Step::Nothing;
            }
            Step::Nothing
        },
        Message::EnterSpace { space_id, name } => {
            let id = space_id.clone();
            let ghost before = s.stack@;
            s.stack.push(Level::loading(space_id, name, request_id));
            assert(s.stack@.drop_last() =~= before);
            Step::Fetch { space_id: id, from: None }
        },
        Message::Join { room_id, via } => {
            if s.pending_join.is_some() {
                Step::Nothing
            } else {
                s.pending_join = Some((request_id, room_id.clone()));
                s.join_error = None;
                Step::Join { room_id, via }
            }
        },
        Message::LoadMore => load_more(&mut s, request_id),
        Message::Retry => retry(&mut s, request_id),
        Message::Close => Step::Nothing,
        Message::Open(_) => Step::Nothing,
    };
    *explorer = Some(s);
    step
}

// ---------------------------------------------------------------------------
// What shows.
// ---------------------------------------------------------------------------
/// How much of a topic a row shows.
pub const TOPIC: usize = 90;

/// Some words with a space between them.
pub open spec fn sentence(words: Seq<Seq<char>>) -> Seq<char>
    decreases words.len(),
{
    if words.len() == 0 {
        Seq::empty()
    } else if words.len() == 1 {
        words[0]
    } else {
        sentence(words.drop_last()) + seq![' '] + words.last()
    }
}

/// A topic on one line: its words, cut.
pub open spec fn topic_line(topic: Seq<char>) -> Seq<char> {
    text::cut_to(sentence(text::pieces(topic, text::spaces())), TOPIC as int)
}

/// A topic on one line, cut: topics are often essays of many lines.
pub fn topic_snippet(topic: &str) -> (r: String)
    ensures
        r@ == topic_line(topic@),
{
    let v = text::chars(topic);
    let words = text::space_runs(&v);
    let ghost all = text::pieces(topic@, text::spaces());
    let mut line = String::new();
    let mut i: usize = 0;
    proof {
        text::lemma_runs(v@, text::spaces(), 0);
        assert(all.take(0).len() == 0);
    }
    while i < words.len()
        invariant
            v@ == topic@,
            all == text::pieces(topic@, text::spaces()),
            all.len() == words@.len(),
            i <= words@.len(),
            forall|k: int|
                0 <= k < words@.len() ==> (#[trigger] words@[k]).0 <= words@[k].1 <= v@.len()
                    && all[k] == v@.subrange(words@[k].0 as int, words@[k].1 as int),
            line@ == sentence(all.take(i as int)),
        decreases words@.len() - i,
    {
        let (a, b) = words[i];
        let word = topic.substring_char(a, b);
        if i > 0 {
            line.push(' ');
        }
        line.append(word);
        proof {
            let next = all.take(i + 1);
            assert(words@[i as int].0 == a);
            assert(all[i as int] == v@.subrange(a as int, b as int));
            assert(next.drop_last() =~= all.take(i as int));
            assert(next.last() == word@);
            if i > 0 {
                assert(line@ =~= sentence(all.take(i as int)) + seq![' '] + word@);
            } else {
                assert(line@ =~= word@);
            }
        }
        i = i + 1;
    }
    assert(all.take(words@.len() as int) =~= all);
    text::cut(line.as_str(), TOPIC)
}

/// The name that a child shows.
pub open spec fn child_name(child: SpaceChildSummary) -> String {
    match child.name {
        Some(s) => s,
        None => match child.canonical_alias {
            Some(s) => s,
            None => child.room_id,
        },
    }
}

/// Whether a child is joined.
pub open spec fn is_joined(s: State, child: SpaceChildSummary) -> bool {
    child.joined || s.joined@.contains(child.room_id@)
}

/// How many members a child has, in words.
pub open spec fn members_text(n: nat) -> Seq<char> {
    text::decimal(n) + " member"@ + if n == 1 {
        ""@
    } else {
        "s"@
    }
}

/// What is said of a child behind its members: the topic, or the alias where
/// it is not the name already.
pub open spec fn detail(child: SpaceChildSummary) -> Option<Seq<char>> {
    match child.topic {
        Some(t) => if topic_line(t@).len() > 0 {
            Some(topic_line(t@))
        } else {
            alias_detail(child)
        },
        None => alias_detail(child),
    }
}

/// The alias, where it is not the name already.
pub open spec fn alias_detail(child: SpaceChildSummary) -> Option<Seq<char>> {
    match child.canonical_alias {
        Some(a) => if a@ != child_name(child)@ {
            Some(a@)
        } else {
            None
        },
        None => None,
    }
}

/// What stands at the end of a child's row.
#[derive(Debug, Clone, Copy, PartialEq, Eq, Structural)]
pub enum Trailing {
    Joining,
    Joined,
    /// The join button, which rests while another join is under way.
    Join { enabled: bool },
    ByRequest,
    InviteOnly,
}

/// What a click on a child's row does.
#[derive(Debug, Clone, Copy, PartialEq, Eq, Structural)]
pub enum Click {
    Enter,
    Open,
    Nothing,
}

/// A child's row.
#[derive(Debug)]
pub struct ChildRow {
    pub title: String,
    pub is_space: bool,
    pub secondary: String,
    pub error: Option<String>,
    pub trailing: Trailing,
    pub click: Click,
}

/// What stands at the end of a child's row.
pub open spec fn trailing_of(s: State, child: SpaceChildSummary) -> Trailing {
    if s.pending_join matches Some(p) && p.1@ == child.room_id@ {
        Trailing::Joining
    } else if is_joined(s, child) {
        Trailing::Joined
    } else {
        match child.join_rule {
            SpaceJoinRule::Public => Trailing::Join { enabled: s.pending_join is None },
            SpaceJoinRule::Restricted => Trailing::Join { enabled: s.pending_join is None },
            SpaceJoinRule::Knock => Trailing::ByRequest,
            SpaceJoinRule::InviteOnly => Trailing::InviteOnly,
        }
    }
}

/// Whether this is a child's row.
pub open spec fn is_child_row(r: ChildRow, s: State, child: SpaceChildSummary) -> bool {
    &&& r.title@ == child_name(child)@
    &&& r.is_space == child.is_space
    &&& r.secondary@ == match detail(child) {
        Some(d) => members_text(child.num_joined_members as nat) + " · "@ + d,
        None => members_text(child.num_joined_members as nat),
    }
    &&& text::opt_view(r.error) == match s.join_error {
        Some(e) => if e.0@ == child.room_id@ {
            Some("Join failed: "@ + e.1@)
        } else {
            None
        },
        None => None,
    }
    &&& r.trailing == trailing_of(s, child)
    &&& r.click == if child.is_space {
        Click::Enter
    } else if is_joined(s, child) {
        Click::Open
    } else {
        Click::Nothing
    }
}

/// What is said of a child behind its members.
fn detail_of(child: &SpaceChildSummary, name: &str) -> (r: Option<String>)
    requires
        name@ == child_name(*child)@,
    ensures
        text::opt_view(r) == detail(*child),
{
    if let Some(topic) = &child.topic {
        let line = topic_snippet(topic.as_str());
        if line.as_str().unicode_len() > 0 {
            return Some(line);
        }
    }
    match &child.canonical_alias {
        Some(alias) => if text::str_eq(alias.as_str(), name) {
            None
        } else {
            Some(alias.clone())
        },
        None => None,
    }
}

/// A child's row: subspaces are entered, joined rooms open, and the others
/// offer to be joined where anyone may.
pub fn child_row(state: &State, child: &SpaceChildSummary) -> (r: ChildRow)
    ensures
        is_child_row(r, *state, *child),
{
    let title = match &child.name {
        Some(s) => s.clone(),
        None => match &child.canonical_alias {
            Some(s) => s.clone(),
            None => child.room_id.clone(),
        },
    };
    let joined = child.joined || state.joined.contains(child.room_id.as_str());
    let pending = match &state.pending_join {
        Some(p) => text::str_eq(p.1.as_str(), child.room_id.as_str()),
        None => false,
    };
    let count = text::decimal_string(child.num_joined_members);
    let members = text::join3(
        count.as_str(),
        " member",
        if child.num_joined_members == 1 {
            ""
        } else {
            "s"
        },
    );
    let secondary = match detail_of(child, title.as_str()) {
        Some(d) => text::join3(members.as_str(), " · ", d.as_str()),
        None => members,
    };
    let error = match &state.join_error {
        Some(e) => if text::str_eq(e.0.as_str(), child.room_id.as_str()) {
            Some(text::join2("Join failed: ", e.1.as_str()))
        } else {
            None
        },
        None => None,
    };
    let trailing = if pending {
        Trailing::Joining
    } else if joined {
        Trailing::Joined
    } else {
        match child.join_rule {
            SpaceJoinRule::Public => Trailing::Join { enabled: state.pending_join.is_none() },
            SpaceJoinRule::Restricted => Trailing::Join { enabled: state.pending_join.is_none() },
            SpaceJoinRule::Knock => Trailing::ByRequest,
            SpaceJoinRule::InviteOnly => Trailing::InviteOnly,
        }
    };
    let click = if child.is_space {
        Click::Enter
    } else if joined {
        Click::Open
    } else {
        Click::Nothing
    };
    ChildRow { title, is_space: child.is_space, secondary, error, trailing, click }
}

/// What follows a level's rows.
#[derive(Debug, Clone, Copy, PartialEq, Eq, Structural)]
pub enum Footer {
    /// The level could not be loaded: this stands in place of its rows.
    Failed,
    Loading,
    NoRooms,
    LoadMore,
    Nothing,
}

/// What follows a level's rows.
pub fn footer(level: &Level) -> (r: Footer)
    ensures
        r == if level.error is Some {
            Footer::Failed
        } else if level.pending_request is Some {
            Footer::Loading
        } else if level.children@.len() == 0 {
            Footer::NoRooms
        } else if level.next_batch is Some {
            Footer::LoadMore
        } else {
            Footer::Nothing
        },
{
    if level.error.is_some() {
        Footer::Failed
    } else if level.pending_request.is_some() {
        Footer::Loading
    } else if level.children.len() == 0 {
        Footer::NoRooms
    } else if level.next_batch.is_some() {
        Footer::LoadMore
    } else {
        Footer::Nothing
    }
}

/// The line of a level that could not be loaded.
pub fn failure_line(error: &str) -> (r: String)
    ensures
        r@ == "Couldn't load this space: "@ + error@,
{
    text::join2("Couldn't load this space: ", error)
}

// ---------------------------------------------------------------------------
// Laws.
// ---------------------------------------------------------------------------
/// A level that is entered and left again changes nothing: what was fetched
/// before shows again at once.
pub proof fn law_back_undoes_enter(
    s: State,
    mid: State,
    after: Option<State>,
    space_id: String,
    name: String,
    id: RequestId,
    other: RequestId,
    a: Step,
    b: Step,
)
    requires
        s.wf(),
        updated(Some(s), Some(mid), Message::EnterSpace { space_id, name }, id, a),
        updated(Some(mid), after, Message::Back, other, b),
    ensures
        after matches Some(t) && t.stack@ == s.stack@ && t == (State { stack: t.stack, ..s }),
{
}

/// While a join is under way no other starts.
pub proof fn law_one_join_at_a_time(
    s: State,
    after: Option<State>,
    room_id: String,
    via: Vec<String>,
    id: RequestId,
    step: Step,
)
    requires
        s.pending_join is Some,
        updated(Some(s), after, Message::Join { room_id, via }, id, step),
    ensures
        after == Some(s),
        step is Nothing,
{
}

/// A page whose level is gone, or waits for another request, changes nothing.
pub proof fn law_stale_pages_are_dropped(s: State, request_id: RequestId, space_id: Seq<char>)
    requires
        forall|i: int|
            0 <= i < s.stack@.len() ==> (#[trigger] s.stack@[i]).pending_request != Some(
                request_id,
            ),
    ensures
        page_from(s.stack@, request_id, space_id, 0) is None,
        waiting_from(s.stack@, request_id, 0) is None,
{
    lemma_no_page(s.stack@, request_id, space_id, 0);
}

/// No level waits.
proof fn lemma_no_page(stack: Seq<Level>, request_id: RequestId, space_id: Seq<char>, i: int)
    requires
        0 <= i,
        forall|k: int|
            0 <= k < stack.len() ==> (#[trigger] stack[k]).pending_request != Some(request_id),
    ensures
        page_from(stack, request_id, space_id, i) is None,
        waiting_from(stack, request_id, i) is None,
    decreases stack.len() - i,
{
    if i < stack.len() {
        lemma_no_page(stack, request_id, space_id, i + 1);
    }
}

/// A space that is entered is fetched from its first page under its own name,
/// and its page shows there; what was on the way stays as it was.
pub proof fn law_a_space_that_is_entered_is_fetched(
    s: State,
    after: Option<State>,
    space_id: String,
    name: String,
    id: RequestId,
    step: Step,
)
    requires
        s.wf(),
        updated(Some(s), after, Message::EnterSpace { space_id, name }, id, step),
    ensures
        step is Fetch,
        step->Fetch_space_id@ == space_id@,
        step->from is None,
        after is Some,
        after->0.stack@.len() == s.stack@.len() + 1,
        after->0.stack@[s.stack@.len() as int].space_id@ == space_id@,
        after->0.stack@[s.stack@.len() as int].name@ == name@,
        after->0.stack@[s.stack@.len() as int].children@.len() == 0,
        after->0.stack@[s.stack@.len() as int].pending_request == Some(id),
        forall|i: int|
            0 <= i < s.stack@.len() ==> #[trigger] after->0.stack@[i] == s.stack@[i],
{
    let t = after->0;
    assert forall|i: int| 0 <= i < s.stack@.len() implies #[trigger] t.stack@[i] == s.stack@[i] by {
        assert(t.stack@.drop_last()[i] == t.stack@[i]);
    }
}

/// The next page is fetched from where the last one ended, of the level that
/// shows, and only while nothing is fetched there; a level that is fetched
/// anew starts over.
pub proof fn law_pages_follow_each_other(
    s: State,
    after: Option<State>,
    message: Message,
    id: RequestId,
    step: Step,
)
    requires
        s.wf(),
        updated(Some(s), after, message, id, step),
        message is LoadMore || message is Retry,
    ensures
        message is LoadMore ==> {
            let last = s.stack@[s.stack@.len() - 1];
            if last.pending_request is None && last.next_batch is Some {
                &&& step is Fetch
                &&& step->Fetch_space_id@ == last.space_id@
                &&& step->from == last.next_batch
                &&& after->0.stack@[s.stack@.len() - 1].children == last.children
                &&& after->0.stack@[s.stack@.len() - 1].pending_request == Some(id)
            } else {
                step is Nothing && after == Some(s)
            }
        },
        message is Retry ==> {
            let last = s.stack@[s.stack@.len() - 1];
            &&& step is Fetch
            &&& step->Fetch_space_id@ == last.space_id@
            &&& step->from is None
            &&& after->0.stack@[s.stack@.len() - 1].children@.len() == 0
            &&& after->0.stack@[s.stack@.len() - 1].error is None
            &&& after->0.stack@[s.stack@.len() - 1].pending_request == Some(id)
        },
{
}

/// A join goes to its room, by way of the servers that were named for it; a
/// room that is opened closes the explorer.
pub proof fn law_a_join_goes_to_its_room(
    s: State,
    after: Option<State>,
    message: Message,
    id: RequestId,
    step: Step,
)
    requires
        s.wf(),
        updated(Some(s), after, message, id, step),
    ensures
        message matches Message::Join { room_id, via } ==> s.pending_join is None ==> {
            &&& step is Join
            &&& step->Join_room_id@ == room_id@
            &&& step->via@ == via@
            &&& after is Some
            &&& after->0.pending_join == Some((id, room_id))
            &&& after->0.join_error is None
        },
        message matches Message::Open(room_id) ==> step is Open && step->Open_0@ == room_id@ && after
            is None,
        message is Close ==> step is Nothing && after is None,
        message is Back && s.stack@.len() == 1 ==> after is None,
{
}

/// A page goes behind what its level has already, and says where the next one
/// starts.
pub proof fn law_a_page_is_appended(
    before: Level,
    after: Level,
    children: Seq<SpaceChildSummary>,
    next: Option<String>,
    i: int,
)
    requires
        paged(before, after, children, next),
    ensures
        after.children@.len() == before.children@.len() + children.len(),
        0 <= i < before.children@.len() ==> after.children@[i] == before.children@[i],
        0 <= i < children.len() ==> after.children@[before.children@.len() + i] == children[i],
        after.next_batch == next,
        after.pending_request is None,
        after.error is None,
        after.space_id == before.space_id && after.name == before.name,
{
}

/// A child's row says what the child is and what can be done with it: it goes
/// by its name, else by its alias, else by its id; a space is entered, a
/// joined room opens; joining is offered where anyone may, unless a join is
/// under way.
pub proof fn law_what_a_child_offers(r: ChildRow, s: State, child: SpaceChildSummary)
    requires
        is_child_row(r, s, child),
    ensures
        child.name matches Some(n) ==> r.title@ == n@,
        child.name is None && child.canonical_alias is Some ==> r.title@
            == child.canonical_alias->0@,
        child.name is None && child.canonical_alias is None ==> r.title@ == child.room_id@,
        r.is_space == child.is_space,
        r.click is Enter == child.is_space,
        r.click is Open == (!child.is_space && (child.joined || s.joined@.contains(
            child.room_id@,
        ))),
        s.pending_join is None ==> !(r.trailing is Joining),
        s.pending_join matches Some(p) ==> (r.trailing is Joining) == (p.1@ == child.room_id@),
        s.pending_join is None ==> (r.trailing is Joined) == (child.joined || s.joined@.contains(
            child.room_id@,
        )),
        s.pending_join is None && !child.joined && !s.joined@.contains(child.room_id@) ==> {
            &&& child.join_rule is Public || child.join_rule is Restricted ==> r.trailing == (
            Trailing::Join { enabled: true })
            &&& child.join_rule is Knock ==> r.trailing == Trailing::ByRequest
            &&& child.join_rule is InviteOnly ==> r.trailing == Trailing::InviteOnly
        },
        s.pending_join is Some && r.trailing is Join ==> !r.trailing->enabled,
        s.join_error is None ==> r.error is None,
        s.join_error matches Some(e) ==> (r.error is Some) == (e.0@ == child.room_id@) && (e.0@
            == child.room_id@ ==> r.error->0@ == "Join failed: "@ + e.1@),
        child.num_joined_members == 1 && child.topic is None && child.canonical_alias is None
            ==> r.secondary@ == text::decimal(1) + " member"@,
        child.num_joined_members != 1 && child.topic is None && child.canonical_alias is None
            ==> r.secondary@ == text::decimal(child.num_joined_members as nat) + " members"@,
{
    reveal_strlit(" member");
    reveal_strlit(" members");
    reveal_strlit("s");
    reveal_strlit("");
    let d = text::decimal(child.num_joined_members as nat);
    assert(d + " member"@ + "s"@ =~= d + " members"@);
    assert(d + " member"@ + ""@ =~= d + " member"@);
}

} // verus!
