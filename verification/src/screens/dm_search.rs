//! Searching the user directory for someone to write to.
//!
//! Two guards keep the results honest while someone types: only the newest
//! keystroke's timer starts a search, and only the newest search's response
//! is taken.

use vstd::prelude::*;

use crate::events;
use crate::events::{RequestId, UserSearchResult};
use crate::screens::timeline::scroll;
use crate::text;

verus! {

/// The overlay's state.
#[derive(Debug)]
pub struct State {
    pub query: String,
    /// Bumped on every keystroke.
    pub generation: u64,
    /// The newest search: the responses of others are stale.
    pub last_request_id: Option<RequestId>,
    pub results: Vec<UserSearchResult>,
    pub pending: bool,
    pub error: Option<String>,
    /// Whether there are more matches than the server sent.
    pub limited: bool,
}

impl State {
    /// An empty field, and no search.
    pub open spec fn fresh(&self) -> bool {
        &&& self.query@.len() == 0
        &&& self.generation == 0
        &&& self.last_request_id is None
        &&& self.results@.len() == 0
        &&& !self.pending
        &&& self.error is None
        &&& !self.limited
    }

    /// Whether the request is the newest search.
    pub fn handle_success(&self, request_id: RequestId) -> (r: bool)
        ensures
            r == (self.last_request_id == Some(request_id)),
    {
        match self.last_request_id {
            Some(id) => id == request_id,
            None => false,
        }
    }

    /// Takes the failure of the newest search; says whether it was that.
    pub fn handle_failure(&mut self, request_id: RequestId, error: &str) -> (r: bool)
        ensures
            r == (old(self).last_request_id == Some(request_id)),
            !r ==> *final(self) == *old(self),
            r ==> {
                &&& !final(self).pending
                &&& final(self).error matches Some(e) && e@ == error@
                &&& final(self).results@.len() == 0
                &&& *final(self) == (State {
                    pending: false,
                    error: final(self).error,
                    results: final(self).results,
                    ..*old(self)
                })
            },
    {
        let ours = self.handle_success(request_id);
        if ours {
            self.pending = false;
            self.error = Some(error.to_owned());
            self.results = Vec::new();
        }
        ours
    }
}

impl Default for State {
    fn default() -> (r: Self)
        ensures
            r.fresh(),
    {
        State {
            query: String::new(),
            generation: 0,
            last_request_id: None,
            results: Vec::new(),
            pending: false,
            error: None,
            limited: false,
        }
    }
}

/// What the overlay reacts to.
#[derive(Debug)]
pub enum Message {
    Close,
    QueryChanged(String),
    /// The timer of a keystroke ran out.
    Debounced(u64),
    /// Open the direct messages with the user.
    ResultClicked(String),
}

/// What is to be carried out.
#[derive(Debug)]
pub enum Step {
    Nothing,
    /// Report [`Message::Debounced`] with this generation, a moment from now.
    Wait(u64),
    Search { query: String },
    OpenDirectMessage(String),
}

/// What a message makes of the overlay, and what it asks for. `request_id` is
/// the id of the search that goes out.
pub open spec fn updated(
    before: Option<State>,
    after: Option<State>,
    message: Message,
    request_id: RequestId,
    step: Step,
) -> bool {
    match message {
        Message::Close => after is None && step is Nothing,
        Message::ResultClicked(user_id) => after is None && step == Step::OpenDirectMessage(user_id),
        Message::QueryChanged(query) => match before {
            None => after is None && step is Nothing,
            Some(s) => after matches Some(t) && typed(s, t, query, step),
        },
        Message::Debounced(generation) => match before {
            None => after is None && step is Nothing,
            Some(s) => if generation != s.generation || text::trimmed(s.query@).len() == 0 {
                after == Some(s) && step is Nothing
            } else {
                &&& after == Some(State { last_request_id: Some(request_id), pending: true, ..s })
                &&& step == (Step::Search { query: s.query })
            },
        },
    }
}

/// What a keystroke leaves: a new generation, whose timer starts. An empty
/// field is cleared at once, without asking the server.
pub open spec fn typed(before: State, after: State, query: String, step: Step) -> bool {
    let generation = scroll::next_generation(before.generation);
    if text::trimmed(query@).len() == 0 {
        &&& after.results@.len() == 0
        &&& after == (State {
            query,
            generation,
            last_request_id: None,
            results: after.results,
            pending: false,
            error: None,
            ..before
        })
        &&& step is Nothing
    } else {
        &&& after == (State { query, generation, error: None, ..before })
        &&& step == Step::Wait(generation)
    }
}

/// Reacts to a message.
pub fn update(search: &mut Option<State>, message: Message, request_id: RequestId) -> (step: Step)
    ensures
        updated(*old(search), *final(search), message, request_id, step),
{
    match message {
        Message::Close => {
            *search = None;
            return Step::Nothing;
        },
        Message::ResultClicked(user_id) => {
            *search = None;
            return Step::OpenDirectMessage(user_id);
        },
        Message::QueryChanged(query) => {
            let mut s = match search.take() {
                Some(s) => s,
                None => {
                    return Step::Nothing;
                },
            };
            let blank = text::trim(query.as_str()).unicode_len() == 0;
            s.query = query;
            s.error = None;
            s.generation = scroll::bump(s.generation);
            let generation: u64 = s.generation;
            if blank {
                s.results = Vec::new();
                s.pending = false;
                s.last_request_id = None;
            }
            *search = Some(s);
            if blank {
                Step::Nothing
            } else {
                Step::Wait(generation)
            }
        },
        Message::Debounced(generation) => {
            let mut s = match search.take() {
                Some(s) => s,
                None => {
                    return Step::Nothing;
                },
            };
            if generation != s.generation || text::trim(s.query.as_str()).unicode_len() == 0 {
                *search = Some(s);
                return Step::Nothing;
            }
            s.last_request_id = Some(request_id);
            s.pending = true;
            let query = s.query.clone();
            *search = Some(s);
            Step::Search { query }
        },
    }
}

/// What results make of the overlay: only those of the newest search count.
pub open spec fn received(
    before: Option<State>,
    after: Option<State>,
    request_id: RequestId,
    results: Vec<UserSearchResult>,
    limited: bool,
) -> bool {
    match before {
        Some(s) => if s.last_request_id == Some(request_id) {
            after == Some(State { results, limited, pending: false, error: None, ..s })
        } else {
            after == before
        },
        None => after is None,
    }
}

/// Takes the results of the newest search; says whether they were that.
pub fn receive(
    search: &mut Option<State>,
    request_id: RequestId,
    results: Vec<UserSearchResult>,
    limited: bool,
) -> (taken: bool)
    ensures
        received(*old(search), *final(search), request_id, results, limited),
        taken == (*old(search) matches Some(s) && s.last_request_id == Some(request_id)),
{
    let mut s = match search.take() {
        Some(s) => s,
        None => {
            return false;
        },
    };
    let ours = s.handle_success(request_id);
    if ours {
        s.results = results;
        s.limited = limited;
        s.pending = false;
        s.error = None;
    }
    *search = Some(s);
    ours
}

/// What stands under the search field.
#[derive(Debug, Clone, Copy, PartialEq, Eq, Structural)]
pub enum Listing {
    /// Nothing was searched for.
    Empty,
    Failed,
    Searching,
    NoMatches,
    Results { more: bool },
}

/// What stands under the search field.
pub open spec fn listing_of(s: State) -> Listing {
    if s.error is Some {
        Listing::Failed
    } else if s.pending {
        Listing::Searching
    } else if s.results@.len() > 0 {
        Listing::Results { more: s.limited }
    } else if text::trimmed(s.query@).len() > 0 {
        Listing::NoMatches
    } else {
        Listing::Empty
    }
}

/// What stands under the search field. That nothing matches is said only once
/// something was typed.
pub fn listing(state: &State) -> (r: Listing)
    ensures
        r == listing_of(*state),
{
    if state.error.is_some() {
        Listing::Failed
    } else if state.pending {
        Listing::Searching
    } else if state.results.len() > 0 {
        Listing::Results { more: state.limited }
    } else if text::trim(state.query.as_str()).unicode_len() > 0 {
        Listing::NoMatches
    } else {
        Listing::Empty
    }
}

/// The line of a failed search.
pub fn failure_line(error: &str) -> (r: String)
    ensures
        r@ == "Search failed: "@ + error@,
{
    text::join2("Search failed: ", error)
}

/// The name that a result shows.
pub open spec fn name_of(result: UserSearchResult) -> Seq<char> {
    match result.display_name {
        Some(s) => if text::trimmed(s@).len() > 0 {
            s@
        } else {
            events::friendly(result.user_id@)
        },
        None => events::friendly(result.user_id@),
    }
}

/// The name that a result shows: the display name, or the readable part of
/// the user id where it is missing or blank.
pub fn result_name(result: &UserSearchResult) -> (r: &str)
    ensures
        r@ == name_of(*result),
{
    if let Some(s) = &result.display_name {
        if text::trim(s.as_str()).unicode_len() > 0 {
            return s.as_str();
        }
    }
    events::friendly_user_id(result.user_id.as_str())
}

// ---------------------------------------------------------------------------
// Laws.
// ---------------------------------------------------------------------------
/// A timer that a newer keystroke has overtaken starts no search.
pub proof fn law_only_the_newest_keystroke_searches(
    s0: State,
    s1: Option<State>,
    s2: Option<State>,
    query: String,
    a: Step,
    b: Step,
    id: RequestId,
    other: RequestId,
)
    requires
        updated(Some(s0), s1, Message::QueryChanged(query), id, a),
        updated(s1, s2, Message::Debounced(s0.generation), other, b),
    ensures
        s2 == s1,
        b is Nothing,
{
}

/// A slow response cannot overwrite a newer one: once a search has gone out,
/// the results of an earlier one change nothing.
pub proof fn law_stale_results_are_ignored(
    s0: State,
    s1: Option<State>,
    s2: Option<State>,
    id: RequestId,
    earlier: RequestId,
    step: Step,
    results: Vec<UserSearchResult>,
    limited: bool,
)
    requires
        updated(Some(s0), s1, Message::Debounced(s0.generation), id, step),
        step is Search,
        earlier != id,
        received(s1, s2, earlier, results, limited),
    ensures
        s2 == s1,
{
}

/// What is typed last is what is searched for once its timer has run out, and
/// the results of that search are what shows.
pub proof fn law_what_was_typed_is_searched_for(
    s0: State,
    s1: Option<State>,
    s2: Option<State>,
    s3: Option<State>,
    query: String,
    a: Step,
    b: Step,
    id: RequestId,
    results: Vec<UserSearchResult>,
    limited: bool,
)
    requires
        text::trimmed(query@).len() > 0,
        updated(Some(s0), s1, Message::QueryChanged(query), id, a),
        a is Wait,
        updated(s1, s2, Message::Debounced(a->Wait_0), id, b),
        received(s2, s3, id, results, limited),
    ensures
        b is Search,
        b->query@ == query@,
        s1 matches Some(t) && t.query@ == query@ && t.error is None,
        s2 matches Some(t) && t.pending && t.last_request_id == Some(id),
        s3 matches Some(t) && t.results == results && t.limited == limited && !t.pending
            && t.error is None && t.query@ == query@,
        results@.len() > 0 ==> listing_of(s3->0) == (Listing::Results { more: limited }),
        results@.len() == 0 ==> listing_of(s3->0) == Listing::NoMatches,
{
}

/// A keystroke always starts a timer, but for one that leaves the field blank:
/// that clears what was found, and nothing is asked for.
pub proof fn law_a_blank_field_is_cleared(
    s0: State,
    s1: Option<State>,
    query: String,
    id: RequestId,
    step: Step,
)
    requires
        updated(Some(s0), s1, Message::QueryChanged(query), id, step),
    ensures
        s1 is Some,
        text::trimmed(query@).len() > 0 ==> step is Wait,
        text::trimmed(query@).len() == 0 ==> {
            &&& step is Nothing
            &&& s1->0.results@.len() == 0
            &&& !s1->0.pending
            &&& s1->0.last_request_id is None
            &&& listing_of(s1->0) == Listing::Empty
        },
{
}

/// Picking a result closes the overlay and opens the direct messages with that
/// user; closing opens nothing.
pub proof fn law_a_picked_user_is_written_to(
    before: Option<State>,
    after: Option<State>,
    message: Message,
    id: RequestId,
    step: Step,
)
    requires
        updated(before, after, message, id, step),
        message is ResultClicked || message is Close,
    ensures
        after is None,
        message matches Message::ResultClicked(user) ==> step is OpenDirectMessage
            && step->OpenDirectMessage_0@ == user@,
        message is Close ==> step is Nothing,
{
}

/// A result shows its display name, unless that is blank or missing.
pub proof fn law_a_result_shows_its_name(
    r: UserSearchResult,
    local: Seq<char>,
    server: Seq<char>,
)
    ensures
        r.display_name matches Some(n) ==> text::trimmed(n@).len() > 0 ==> name_of(r) == n@,
        (r.display_name is None || text::trimmed(r.display_name->0@).len() == 0) && r.user_id@
            == seq!['@'] + local + seq![':'] + server && !local.contains(':') && !(local.len() >= 4
            && local.take(4) == "irc_"@) ==> name_of(r) == local,
{
    if !local.contains(':') {
        events::law_a_user_reads_as_the_local_part(local, server);
    }
}

} // verus!
