//! The rows of the timeline: which items show, which of them start a group of
//! their sender's, and what each row holds.

use vstd::prelude::*;

use crate::color::Color;
use crate::events::{
    EmbedVideo, NotificationMode, PowerLevelTag, ReplyPreview, RoomMember, RoomSummary, SyncState,
    TimelineItem, TimelineItemContent, TrustShield, UrlPreview,
};
use crate::floats;
use crate::screens::timeline::body;
use crate::screens::timeline::body::{Body, ReactionVisual, ShortcodeIndex};
use crate::screens::timeline::cards;
use crate::screens::timeline::cards::CardKind;
use crate::screens::timeline::members;
use crate::screens::timeline::search;
use crate::screens::timeline::{EditingState, Message, NotifyChoice, State};
use crate::steam::SteamAppData;
use crate::text;
use crate::tweets::TweetData;

verus! {

// ---------------------------------------------------------------------------
// Which items show.
// ---------------------------------------------------------------------------
/// A row: the index of its item, and whether it starts a group, with the
/// sender's avatar and name.
#[derive(Debug, Clone, Copy, PartialEq, Eq, Structural)]
pub struct Row {
    pub index: usize,
    pub show_header: bool,
}

/// Whether an item is a divider.
pub open spec fn divider(item: TimelineItem) -> bool {
    item.content is DateDivider || item.content is NewMessagesDivider
}

/// What is shown of a timeline.
pub struct Filter {
    pub searching: bool,
    pub matches: Seq<int>,
    pub no_unread_divider: bool,
    pub show_membership_events: bool,
}

/// Whether a search is under way.
pub open spec fn searching(state: State) -> bool {
    state.search_open && text::trimmed(state.search_query@).len() > 0
}

/// What is shown of the open room.
pub open spec fn filter_of(state: State, show_membership_events: bool) -> Filter {
    Filter {
        searching: searching(state),
        matches: text::ints(state.search_matches@),
        no_unread_divider: state.suppress_unread_divider,
        show_membership_events,
    }
}

/// Whether an item shows: not outside the matches of a search, not the divider
/// of messages that have been read, not a hidden change of membership.
pub open spec fn shows(items: Seq<TimelineItem>, f: Filter, i: int) -> bool {
    &&& f.searching ==> f.matches.contains(i)
    &&& !(f.no_unread_divider && items[i].content is NewMessagesDivider)
    &&& !search::hidden_change(items[i], f.show_membership_events)
}

/// Whether an item continues the group of the sender before it.
pub open spec fn continues(item: TimelineItem, f: Filter, before: Option<Seq<char>>) -> bool {
    &&& before == Some(item.sender@)
    &&& item.in_reply_to is None
    &&& !f.searching
}

/// The rows of the items from `i` on, behind a message of `before`.
pub open spec fn rows_from(
    items: Seq<TimelineItem>,
    f: Filter,
    i: int,
    before: Option<Seq<char>>,
) -> Seq<(int, bool)>
    decreases items.len() - i,
{
    if i < 0 || i >= items.len() {
        Seq::empty()
    } else if !shows(items, f, i) {
        rows_from(items, f, i + 1, before)
    } else if divider(items[i]) {
        seq![(i, true)] + rows_from(items, f, i + 1, None)
    } else {
        seq![(i, !continues(items[i], f, before))] + rows_from(
            items,
            f,
            i + 1,
            Some(items[i].sender@),
        )
    }
}

/// Some rows, with integers for indices.
pub open spec fn row_pairs(rows: Seq<Row>) -> Seq<(int, bool)> {
    rows.map_values(|r: Row| (r.index as int, r.show_header))
}

/// Whether a search is under way.
pub fn is_searching(state: &State) -> (r: bool)
    ensures
        r == searching(*state),
{
    state.search_open && text::trim(state.search_query.as_str()).unicode_len() > 0
}

/// Whether an index is among some.
fn holds_index(v: &Vec<usize>, i: usize) -> (r: bool)
    ensures
        r == text::ints(v@).contains(i as int),
{
    let mut k: usize = 0;
    while k < v.len()
        invariant
            k <= v@.len(),
            forall|j: int| 0 <= j < k ==> v@[j] != i,
        decreases v@.len() - k,
    {
        if v[k] == i {
            assert(text::ints(v@)[k as int] == i);
            return true;
        }
        k = k + 1;
    }
    assert(!text::ints(v@).contains(i as int)) by {
        if text::ints(v@).contains(i as int) {
            let j = choose|j: int| 0 <= j < v@.len() && text::ints(v@)[j] == i as int;
            assert(v@[j] == i);
        }
    }
    false
}

/// The rows of the open room. Messages of one sender in a row make a group:
/// only the first shows the avatar and the header. What is hidden does not
/// part a group; a divider, a reply and a search do.
pub fn visible_rows(state: &State, show_membership_events: bool) -> (r: Vec<Row>)
    ensures
        row_pairs(r@) == rows_from(
            state.items@,
            filter_of(*state, show_membership_events),
            0,
            None,
        ),
{
    let searching = is_searching(state);
    let ghost f = filter_of(*state, show_membership_events);
    let ghost all = rows_from(state.items@, f, 0, None);
    let mut out: Vec<Row> = Vec::new();
    let mut before: Option<&str> = None;
    let mut i: usize = 0;
    assert(row_pairs(out@) + all =~= all);
    while i < state.items.len()
        invariant
            i <= state.items@.len(),
            f == filter_of(*state, show_membership_events),
            searching == f.searching,
            all == row_pairs(out@) + rows_from(
                state.items@,
                f,
                i as int,
                match before {
                    Some(s) => Some(s@),
                    None => None,
                },
            ),
        decreases state.items@.len() - i,
    {
        let item = &state.items[i];
        let hidden = (searching && !holds_index(&state.search_matches, i)) || (
        state.suppress_unread_divider && matches!(
            item.content,
            TimelineItemContent::NewMessagesDivider
        )) || (!show_membership_events && search::is_membership_change(item));
        assert(hidden == !shows(state.items@, f, i as int));
        if !hidden {
            let ghost rows = row_pairs(out@);
            let ghost rest = rows_from(
                state.items@,
                f,
                i as int,
                match before {
                    Some(s) => Some(s@),
                    None => None,
                },
            );
            let is_divider = match item.content {
                TimelineItemContent::DateDivider(_) => true,
                TimelineItemContent::NewMessagesDivider => true,
                _ => false,
            };
            let show_header = if is_divider {
                before = None;
                true
            } else {
                let same = match before {
                    Some(s) => text::str_eq(s, item.sender.as_str()),
                    None => false,
                };
                let grouped = same && item.in_reply_to.is_none() && !searching;
                before = Some(item.sender.as_str());
                !grouped
            };
            out.push(Row { index: i, show_header });
            proof {
                let tail = rows_from(
                    state.items@,
                    f,
                    i + 1,
                    match before {
                        Some(s) => Some(s@),
                        None => None,
                    },
                );
                assert(rest == seq![(i as int, show_header)] + tail);
                assert(row_pairs(out@) =~= rows.push((i as int, show_header)));
                assert(rows + (seq![(i as int, show_header)] + tail) =~= rows.push(
                    (i as int, show_header),
                ) + tail);
            }
        }
        i = i + 1;
    }
    assert(all =~= row_pairs(out@));
    out
}

// ---------------------------------------------------------------------------
// What a row holds.
// ---------------------------------------------------------------------------
/// The message that a reply quotes.
#[derive(Debug)]
pub struct Quote {
    pub who: String,
    pub snippet: String,
    pub image_url: Option<String>,
    /// The message that a click goes to.
    pub target: String,
}

/// The body of a message.
#[derive(Debug)]
pub enum BodyView {
    Text(Body),
    /// What the sender does, behind the sender's name.
    Emote(String),
    /// An image in its box, which opens larger on a click.
    Image { url: String, width: u16, height: u16, caption: Option<String> },
    Sticker { url: String, width: u16, height: u16 },
    File { label: String, caption: Option<String> },
    Removed,
}

/// A reaction under a message.
#[derive(Debug)]
pub struct Pill {
    pub key: String,
    pub visual: ReactionVisual,
    pub count: String,
    pub mine: bool,
    pub tooltip: String,
}

/// How a message is tinted.
#[derive(Debug, Clone, Copy, PartialEq, Eq, Structural)]
pub enum Tint {
    Nothing,
    /// The target of a jump.
    Jump,
    /// A message of the highlighted member.
    Member,
}

/// What a message has of its own once the server knows it.
#[derive(Debug)]
pub struct SentParts {
    pub event_id: String,
    /// Whether the sender's name stands in front of the body.
    pub inline_name: bool,
    pub card: CardKind,
    pub replies: Option<String>,
    pub pills: Vec<Pill>,
    /// Whether the row asks if the message is to be deleted.
    pub confirming: bool,
    /// Whether the floating actions show.
    pub actions: bool,
    pub tint: Tint,
}

/// What follows the head of a message.
#[derive(Debug)]
pub enum Parts {
    /// A message that the server does not know yet, or that did not go out.
    /// Only a recoverable failure offers to retry.
    Local { body: BodyView, failed: bool, retry: bool },
    /// The message is being edited in place.
    Editing(String),
    Sent { body: BodyView, parts: SentParts },
}

/// A message's row.
#[derive(Debug)]
pub struct MessageRow {
    pub sender: String,
    pub color: Color,
    /// Whether the sender's avatar shows; its column stays either way.
    pub avatar: bool,
    /// The avatar's image; the name's initial stands in for one.
    pub avatar_url: Option<String>,
    /// Whether the line with the name and the time shows.
    pub header: bool,
    /// The glyph behind the name, and what it means.
    pub shield: Option<(&'static str, String)>,
    pub quote: Option<Quote>,
    pub parts: Parts,
}

/// What a row shows.
#[derive(Debug)]
pub enum RowView {
    /// A line across the timeline.
    Date(String),
    NewMessages(&'static str),
    Change(String),
    Message(MessageRow),
}

/// What is known of a message's first link.
pub struct Link<'a> {
    pub video: Option<&'a EmbedVideo>,
    pub tweet: Option<&'a TweetData>,
    pub app: Option<&'a SteamAppData>,
    pub preview: Option<&'a UrlPreview>,
}

/// What the rows are drawn from, besides their items.
pub struct Context<'a> {
    pub own_user_id: &'a Option<String>,
    pub hovered: &'a Option<String>,
    pub editing: &'a Option<EditingState>,
    pub confirm_delete: &'a Option<String>,
    pub highlighted: &'a Option<String>,
    pub highlighted_member: &'a Option<String>,
    pub members: &'a Vec<RoomMember>,
    pub tags: &'a Vec<PowerLevelTag>,
    pub index: &'a ShortcodeIndex,
}

/// A label between dashes.
pub open spec fn dashed(label: Seq<char>) -> Seq<char> {
    "— "@ + label + " —"@
}

/// Whether this is a message's body.
pub open spec fn is_body_view(v: BodyView, c: TimelineItemContent, index: ShortcodeIndex) -> bool {
    match c {
        TimelineItemContent::Text(b) => v matches BodyView::Text(x) && body::is_body(x, b@, index),
        TimelineItemContent::Emote(b) => v matches BodyView::Emote(x) && x@ == b@,
        TimelineItemContent::Image { url, caption, width, height } => {
            v matches BodyView::Image { url: u, width: w, height: h, caption: k } && u == url && k
                == caption && (w as nat, h as nat) == floats::image_box(width, height)
        },
        TimelineItemContent::Sticker { url, width, height, .. } => {
            v matches BodyView::Sticker { url: u, width: w, height: h } && u == url && (
            w as nat,
            h as nat,
            ) == floats::sticker_box(width, height)
        },
        TimelineItemContent::File { filename, caption, .. } => {
            v matches BodyView::File { label, caption: k } && label@ == "[file: "@ + filename@
                + "]"@ && k == caption
        },
        _ => v is Removed,
    }
}

/// Whether this is the quote of a reply.
pub open spec fn is_quote(q: Quote, r: ReplyPreview) -> bool {
    &&& q.who@ == if r.sender@.len() == 0 {
        "…"@
    } else {
        r.sender@
    }
    &&& q.snippet == r.snippet
    &&& q.image_url == r.image_url
    &&& q.target == r.event_id
}

/// Whether this shows a reaction.
pub open spec fn is_pill(p: Pill, r: crate::events::Reaction, c: Context) -> bool {
    &&& p.key == r.key
    &&& body::shows_reaction(p.visual, r.key@, *c.index)
    &&& p.count@ == text::decimal(r.count as nat)
    &&& p.mine == r.reacted_by_me
    &&& p.tooltip@ == members::reactors_text(
        members::names_of(c.members@, text::views(r.senders@)),
    )
}

/// Whether a message is being edited.
pub open spec fn edits(editing: Option<EditingState>, event_id: Seq<char>) -> bool {
    editing matches Some(e) && e.event_id@ == event_id
}

/// The card under a message.
pub open spec fn card_kind(c: TimelineItemContent, link: Option<Link>) -> CardKind {
    match (c, link) {
        (TimelineItemContent::Text(_), Some(l)) => cards::kind_of(
            l.video is Some,
            l.tweet is Some,
            l.app is Some,
            l.preview matches Some(p) && cards::worth_showing(*p),
        ),
        _ => CardKind::Nothing,
    }
}

/// The label of a thread's replies.
pub open spec fn replies_label(n: nat) -> Seq<char> {
    text::decimal(n) + " repl"@ + if n == 1 {
        "y"@
    } else {
        "ies"@
    }
}

/// How a message is tinted: as the target of a jump before anything else.
pub open spec fn tint_of(item: TimelineItem, event_id: Seq<char>, c: Context) -> Tint {
    if text::opt_view(*c.highlighted) == Some(event_id) {
        Tint::Jump
    } else if text::opt_view(*c.highlighted_member) == Some(item.sender@) {
        Tint::Member
    } else {
        Tint::Nothing
    }
}

/// Whether these are a message's parts.
pub open spec fn are_sent_parts(
    p: SentParts,
    item: TimelineItem,
    link: Option<Link>,
    c: Context,
) -> bool {
    let id = item.event_id->0@;
    &&& p.event_id@ == id
    &&& p.inline_name == item.content is Emote
    &&& p.card == card_kind(item.content, link)
    &&& text::opt_view(p.replies) == match item.thread_reply_count {
        Some(n) => Some(replies_label(n as nat)),
        None => None,
    }
    &&& p.pills@.len() == item.reactions@.len()
    &&& forall|i: int|
        0 <= i < p.pills@.len() ==> is_pill(#[trigger] p.pills@[i], item.reactions@[i], c)
    &&& p.confirming == (text::opt_view(*c.confirm_delete) == Some(id))
    &&& p.actions == (text::opt_view(*c.hovered) == Some(id) && !edits(*c.editing, id)
        && !p.confirming)
    &&& p.tint == tint_of(item, id, c)
}

/// Whether this is the glyph behind a sender's name.
pub open spec fn is_shield(s: Option<(&'static str, String)>, of: Option<TrustShield>) -> bool {
    match of {
        None => s is None,
        Some(TrustShield::Red(m)) => s matches Some(p) && p.0@ == "⚠"@ && p.1 == m,
        Some(TrustShield::Grey(m)) => s matches Some(p) && p.0@ == "ⓘ"@ && p.1 == m,
    }
}

/// Whether this is a message's row.
pub open spec fn is_message_row(
    r: MessageRow,
    item: TimelineItem,
    link: Option<Link>,
    show_header: bool,
    c: Context,
) -> bool {
    &&& r.sender@ == search::sender_name(item)
    &&& r.color == members::name_color(c.members@, c.tags@, item.sender@)
    &&& r.avatar == show_header
    &&& r.avatar_url == item.sender_avatar_url
    &&& r.header == (show_header && !(item.content is Emote))
    &&& is_shield(r.shield, item.shield)
    &&& match (r.quote, item.in_reply_to) {
        (Some(q), Some(p)) => is_quote(q, p),
        (None, None) => true,
        _ => false,
    }
    &&& match item.event_id {
        None => r.parts matches Parts::Local { body, failed, retry } && is_body_view(
            body,
            item.content,
            *c.index,
        ) && failed == (item.send_failed is Some) && retry == (item.send_failed matches Some(f)
            && f.is_recoverable),
        Some(id) => if edits(*c.editing, id@) {
            r.parts matches Parts::Editing(draft) && draft == c.editing->0.draft
        } else {
            r.parts matches Parts::Sent { body, parts } && is_body_view(
                body,
                item.content,
                *c.index,
            ) && are_sent_parts(parts, item, link, c)
        },
    }
}

/// Whether this is what an item's row shows.
pub open spec fn is_row_view(
    v: RowView,
    item: TimelineItem,
    local_date: Option<String>,
    link: Option<Link>,
    show_header: bool,
    c: Context,
) -> bool {
    match item.content {
        TimelineItemContent::DateDivider(date) => v matches RowView::Date(s) && s@ == dashed(
            match local_date {
                Some(d) => d@,
                None => date@,
            },
        ),
        TimelineItemContent::NewMessagesDivider => {
            v matches RowView::NewMessages(s) && s@ == "— new messages —"@
        },
        TimelineItemContent::MembershipChange(d) => v matches RowView::Change(s) && s@ == dashed(
            d@,
        ),
        _ => v matches RowView::Message(r) && is_message_row(r, item, link, show_header, c),
    }
}

/// A message's body.
fn body_view(content: &TimelineItemContent, index: &ShortcodeIndex) -> (r: BodyView)
    ensures
        is_body_view(r, *content, *index),
{
    match content {
        TimelineItemContent::Text(b) => BodyView::Text(body::render_text_body(b.as_str(), index)),
        TimelineItemContent::Emote(b) => BodyView::Emote(b.clone()),
        TimelineItemContent::Image { url, caption, width, height } => {
            let (w, h) = floats::image_display_size(*width, *height);
            BodyView::Image {
                url: url.clone(),
                width: w,
                height: h,
                caption: text::clone_opt(caption),
            }
        },
        TimelineItemContent::Sticker { url, width, height, .. } => {
            let (w, h) = floats::sticker_display_size(*width, *height);
            BodyView::Sticker { url: url.clone(), width: w, height: h }
        },
        TimelineItemContent::File { filename, caption, .. } => BodyView::File {
            label: text::join3("[file: ", filename.as_str(), "]"),
            caption: text::clone_opt(caption),
        },
        TimelineItemContent::MembershipChange(_) => BodyView::Removed,
        TimelineItemContent::Redacted => BodyView::Removed,
        TimelineItemContent::DateDivider(_) => BodyView::Removed,
        TimelineItemContent::NewMessagesDivider => BodyView::Removed,
    }
}

/// Whether an optional text is this one.
fn is_text(o: &Option<String>, s: &str) -> (r: bool)
    ensures
        r == (text::opt_view(*o) == Some(s@)),
{
    match o {
        Some(x) => text::str_eq(x.as_str(), s),
        None => false,
    }
}

/// The quote of a reply.
fn quote_of(reply: &ReplyPreview) -> (r: Quote)
    ensures
        is_quote(r, *reply),
{
    let who = if reply.sender.as_str().unicode_len() == 0 {
        "…".to_owned()
    } else {
        reply.sender.clone()
    };
    Quote {
        who,
        snippet: reply.snippet.clone(),
        image_url: text::clone_opt(&reply.image_url),
        target: reply.event_id.clone(),
    }
}

/// The reactions under a message.
fn pills_of(item: &TimelineItem, c: &Context) -> (r: Vec<Pill>)
    ensures
        r@.len() == item.reactions@.len(),
        forall|i: int|
            0 <= i < r@.len() ==> is_pill(#[trigger] r@[i], item.reactions@[i], *c),
{
    let mut r: Vec<Pill> = Vec::new();
    let mut i: usize = 0;
    while i < item.reactions.len()
        invariant
            i <= item.reactions@.len(),
            r@.len() == i,
            forall|k: int| 0 <= k < i ==> is_pill(#[trigger] r@[k], item.reactions@[k], *c),
        decreases item.reactions@.len() - i,
    {
        let reaction = &item.reactions[i];
        r.push(
            Pill {
                key: reaction.key.clone(),
                visual: body::resolve_reaction_visual(reaction.key.as_str(), c.index),
                count: text::decimal_string(reaction.count as u64),
                mine: reaction.reacted_by_me,
                tooltip: members::reaction_senders_label(&reaction.senders, c.members),
            },
        );
        i = i + 1;
    }
    r
}

/// The card under a message.
fn card_of(content: &TimelineItemContent, link: &Option<Link>) -> (r: CardKind)
    ensures
        r == card_kind(*content, *link),
{
    match (content, link) {
        (TimelineItemContent::Text(_), Some(l)) => cards::card_for(
            l.video.is_some(),
            l.tweet,
            l.app,
            l.preview,
        ),
        _ => CardKind::Nothing,
    }
}

/// The label of a thread's replies.
pub fn thread_label(count: u32) -> (r: String)
    ensures
        r@ == replies_label(count as nat),
{
    let n = text::decimal_string(count as u64);
    text::join3(
        n.as_str(),
        " repl",
        if count == 1 {
            "y"
        } else {
            "ies"
        },
    )
}

/// A message's parts once the server knows it.
fn sent_parts(item: &TimelineItem, event_id: &String, link: &Option<Link>, c: &Context) -> (r:
    SentParts)
    requires
        item.event_id == Some(*event_id),
    ensures
        are_sent_parts(r, *item, *link, *c),
{
    let id = event_id.as_str();
    let confirming = is_text(c.confirm_delete, id);
    let editing = match c.editing {
        Some(e) => text::str_eq(e.event_id.as_str(), id),
        None => false,
    };
    let tint = if is_text(c.highlighted, id) {
        Tint::Jump
    } else if is_text(c.highlighted_member, item.sender.as_str()) {
        Tint::Member
    } else {
        Tint::Nothing
    };
    SentParts {
        event_id: event_id.clone(),
        inline_name: matches!(item.content, TimelineItemContent::Emote(_)),
        card: card_of(&item.content, link),
        replies: match item.thread_reply_count {
            Some(n) => Some(thread_label(n)),
            None => None,
        },
        pills: pills_of(item, c),
        confirming,
        actions: is_text(c.hovered, id) && !editing && !confirming,
        tint,
    }
}

/// What follows the head of a message.
fn parts_of(item: &TimelineItem, link: &Option<Link>, c: &Context) -> (r: Parts)
    ensures
        match item.event_id {
            None => r matches Parts::Local { body, failed, retry } && is_body_view(
                body,
                item.content,
                *c.index,
            ) && failed == (item.send_failed is Some) && retry == (item.send_failed matches Some(f)
                && f.is_recoverable),
            Some(id) => if edits(*c.editing, id@) {
                r matches Parts::Editing(draft) && draft == c.editing->0.draft
            } else {
                r matches Parts::Sent { body, parts } && is_body_view(
                    body,
                    item.content,
                    *c.index,
                ) && are_sent_parts(parts, *item, *link, *c)
            },
        },
{
    let event_id = match &item.event_id {
        Some(id) => id,
        None => {
            return Parts::Local {
                body: body_view(&item.content, c.index),
                failed: item.send_failed.is_some(),
                retry: match item.send_failed {
                    Some(f) => f.is_recoverable,
                    None => false,
                },
            };
        },
    };
    if let Some(e) = c.editing {
        if text::str_eq(e.event_id.as_str(), event_id.as_str()) {
            return Parts::Editing(e.draft.clone());
        }
    }
    Parts::Sent {
        body: body_view(&item.content, c.index),
        parts: sent_parts(item, event_id, link, c),
    }
}

/// What an item's row shows. `local_date` is the day of a date divider in the
/// reader's time zone, where it is known: days part at local midnight.
pub fn render_item(
    item: &TimelineItem,
    local_date: &Option<String>,
    link: &Option<Link>,
    show_header: bool,
    c: &Context,
) -> (r: RowView)
    ensures
        is_row_view(r, *item, *local_date, *link, show_header, *c),
{
    match &item.content {
        TimelineItemContent::DateDivider(date) => {
            let label = match local_date {
                Some(d) => d.as_str(),
                None => date.as_str(),
            };
            return RowView::Date(text::join3("— ", label, " —"));
        },
        TimelineItemContent::NewMessagesDivider => {
            return RowView::NewMessages("— new messages —");
        },
        TimelineItemContent::MembershipChange(d) => {
            return RowView::Change(text::join3("— ", d.as_str(), " —"));
        },
        _ => {},
    }
    let is_emote = matches!(item.content, TimelineItemContent::Emote(_));
    let shield: Option<(&'static str, String)> = match &item.shield {
        Some(TrustShield::Red(m)) => Some(("⚠", m.clone())),
        Some(TrustShield::Grey(m)) => Some(("ⓘ", m.clone())),
        None => None,
    };
    RowView::Message(
        MessageRow {
            sender: search::sender_of(item).to_owned(),
            color: members::sender_color(c.members, c.tags, item.sender.as_str()),
            avatar: show_header,
            avatar_url: text::clone_opt(&item.sender_avatar_url),
            header: show_header && !is_emote,
            shield,
            quote: match &item.in_reply_to {
                Some(reply) => Some(quote_of(reply)),
                None => None,
            },
            parts: parts_of(item, link, c),
        },
    )
}

// ---------------------------------------------------------------------------
// The floating actions.
// ---------------------------------------------------------------------------
/// The image of a message that its quote shows.
pub open spec fn quoted_image(c: TimelineItemContent) -> Option<String> {
    match c {
        TimelineItemContent::Image { url, .. } => Some(url),
        TimelineItemContent::Sticker { url, .. } => Some(url),
        _ => None,
    }
}

/// Whether a message starts a reply to an item.
pub open spec fn starts_reply(
    m: Message,
    item: TimelineItem,
    event_id: Seq<char>,
    sender: Seq<char>,
) -> bool {
    &&& m matches Message::StartReply(p)
    &&& p.event_id@ == event_id
    &&& p.sender@ == sender
    &&& p.snippet@ == cards::snippet_of(item.content)
    &&& p.image_url == quoted_image(item.content)
}

/// Whether these are the actions of an item.
pub open spec fn are_actions(
    a: Seq<(&'static str, Message)>,
    item: TimelineItem,
    event_id: Seq<char>,
    sender: Seq<char>,
    is_own: bool,
) -> bool {
    let editable = is_own && item.content is Text;
    &&& a.len() == 2 + (if editable {
        1int
    } else {
        0
    }) + if is_own {
        1int
    } else {
        0
    }
    &&& a[0].0@ == "React"@
    &&& a[0].1 matches Message::ToggleReactionPicker(id) && id@ == event_id
    &&& a[1].0@ == "Reply"@
    &&& starts_reply(a[1].1, item, event_id, sender)
    &&& editable ==> a[2].0@ == "Edit"@ && (a[2].1 matches Message::StartEdit {
        event_id: id,
        current_body,
    } && id@ == event_id && current_body == item.content->Text_0)
    &&& is_own ==> a.last().0@ == "Delete"@ && (a.last().1 matches Message::RequestDelete(id)
        && id@ == event_id)
}

/// The floating actions of a message: react and reply; on one's own messages
/// also delete, and edit where the message is text.
pub fn hover_action_bar(item: &TimelineItem, event_id: &str, sender: &str, is_own: bool) -> (r: Vec<
    (&'static str, Message),
>)
    ensures
        are_actions(r@, *item, event_id@, sender@, is_own),
{
    let mut r: Vec<(&'static str, Message)> = Vec::new();
    r.push(("React", Message::ToggleReactionPicker(event_id.to_owned())));
    let image_url = match &item.content {
        TimelineItemContent::Image { url, .. } => Some(url.clone()),
        TimelineItemContent::Sticker { url, .. } => Some(url.clone()),
        _ => None,
    };
    let preview = ReplyPreview {
        event_id: event_id.to_owned(),
        sender: sender.to_owned(),
        snippet: cards::ui_snippet(&item.content),
        image_url,
    };
    r.push(("Reply", Message::StartReply(preview)));
    if is_own {
        if let TimelineItemContent::Text(b) = &item.content {
            r.push(
                (
                    "Edit",
                    Message::StartEdit { event_id: event_id.to_owned(), current_body: b.clone() },
                ),
            );
        }
        r.push(("Delete", Message::RequestDelete(event_id.to_owned())));
    }
    r
}

/// Whether a message is the reader's own.
pub fn is_own(item: &TimelineItem, own_user_id: &Option<String>) -> (r: bool)
    ensures
        r == (text::opt_view(*own_user_id) == Some(item.sender@)),
{
    is_text(own_user_id, item.sender.as_str())
}

/// The menu of a member: write to them, make a room with them, tint their
/// messages or not.
pub fn member_menu_actions(user_id: &String, highlighted_member: &Option<String>) -> (r: Vec<
    (&'static str, Message),
>)
    ensures
        r@.len() == 3,
        r@[0].0@ == "Direct message"@,
        r@[0].1 == Message::MemberMenuDirectMessage(*user_id),
        r@[1].0@ == "New room with them"@,
        r@[1].1 == Message::MemberMenuNewRoom(*user_id),
        r@[2].0@ == if text::opt_view(*highlighted_member) == Some(user_id@) {
            "Clear highlight"@
        } else {
            "Highlight messages"@
        },
        r@[2].1 == Message::MemberMenuHighlight(*user_id),
{
    let mut r: Vec<(&'static str, Message)> = Vec::new();
    r.push(("Direct message", Message::MemberMenuDirectMessage(user_id.clone())));
    r.push(("New room with them", Message::MemberMenuNewRoom(user_id.clone())));
    r.push(
        (
            members::highlight_label(user_id.as_str(), highlighted_member),
            Message::MemberMenuHighlight(user_id.clone()),
        ),
    );
    r
}

// ---------------------------------------------------------------------------
// Around the rows.
// ---------------------------------------------------------------------------
/// What stands above the oldest message.
#[derive(Debug, Clone, Copy, PartialEq, Eq, Structural)]
pub enum HistoryControl {
    /// A search shows no control.
    Nothing,
    Beginning,
    Loading,
    LoadOlder,
}

/// What stands above the oldest message.
pub open spec fn history_of(state: State) -> HistoryControl {
    if searching(state) {
        HistoryControl::Nothing
    } else if state.reached_start {
        HistoryControl::Beginning
    } else if state.loading_older {
        HistoryControl::Loading
    } else {
        HistoryControl::LoadOlder
    }
}

/// What stands above the oldest message.
pub fn history_control(state: &State) -> (r: HistoryControl)
    ensures
        r == history_of(*state),
{
    if is_searching(state) {
        HistoryControl::Nothing
    } else if state.reached_start {
        HistoryControl::Beginning
    } else if state.loading_older {
        HistoryControl::Loading
    } else {
        HistoryControl::LoadOlder
    }
}

/// What the line above the composer says of the connection: nothing while it
/// works.
pub open spec fn sync_text(s: SyncState) -> Option<Seq<char>> {
    match s {
        SyncState::Syncing => None,
        SyncState::Connecting => Some("Connecting…"@),
        SyncState::Offline => Some("Offline — you'll reconnect automatically"@),
        SyncState::Error(_) => Some("Connection error"@),
    }
}

/// What the line above the composer says of the connection.
pub fn sync_label(s: &SyncState) -> (r: Option<&'static str>)
    ensures
        match (r, sync_text(*s)) {
            (Some(a), Some(b)) => a@ == b,
            (None, None) => true,
            _ => false,
        },
{
    match s {
        SyncState::Syncing => None,
        SyncState::Connecting => Some("Connecting…"),
        SyncState::Offline => Some("Offline — you'll reconnect automatically"),
        SyncState::Error(_) => Some("Connection error"),
    }
}

/// The number of matches beside the search field, while searching.
pub open spec fn matches_text(state: State) -> Option<Seq<char>> {
    if !searching(state) {
        None
    } else if state.search_matches@.len() == 1 {
        Some(text::decimal(1) + " match"@)
    } else {
        Some(text::decimal(state.search_matches@.len()) + " matches"@)
    }
}

/// The number of matches beside the search field, while searching.
pub fn match_count_label(state: &State) -> (r: Option<String>)
    ensures
        text::opt_view(r) == matches_text(*state),
{
    if !is_searching(state) {
        return None;
    }
    let n: usize = state.search_matches.len();
    let count = text::decimal_string(n as u64);
    Some(
        text::join2(
            count.as_str(),
            if n == 1 {
                " match"
            } else {
                " matches"
            },
        ),
    )
}

/// Whether the member list shows.
pub fn members_shown(state: &State) -> (r: bool)
    ensures
        r == (!state.hide_members && state.composer.member_candidates@.len() > 0),
{
    !state.hide_members && state.composer.member_candidates.len() > 0
}

/// The call button of the header.
#[derive(Debug, Clone, Copy, PartialEq, Eq, Structural)]
pub enum CallButton {
    /// A call is on: its banner offers to join or leave.
    Nothing,
    /// A request is under way.
    Disabled,
    Enabled,
}

/// How much of a topic the header shows.
pub const HEADER_TOPIC: usize = 80;

/// The header of a room.
#[derive(Debug)]
pub struct HeaderView {
    pub title: Option<String>,
    pub encrypted: bool,
    pub topic: Option<String>,
    pub call: CallButton,
    /// Whether the bell shows that the room is muted.
    pub muted: bool,
    /// Whether the search button closes the search.
    pub search_open: bool,
}

/// Whether this is the header of a room.
pub open spec fn is_header(
    h: HeaderView,
    room: Option<RoomSummary>,
    mode: Option<NotificationMode>,
    in_call: bool,
    call_pending: bool,
    search_open: bool,
) -> bool {
    &&& text::opt_view(h.title) == match room {
        Some(r) => Some(r.name@),
        None => None,
    }
    &&& h.encrypted == (room matches Some(r) && r.is_encrypted)
    &&& text::opt_view(h.topic) == match room {
        Some(r) => match r.topic {
            Some(t) => Some(text::cut_to(t@, HEADER_TOPIC as int)),
            None => None,
        },
        None => None,
    }
    &&& h.call == if in_call {
        CallButton::Nothing
    } else if call_pending {
        CallButton::Disabled
    } else {
        CallButton::Enabled
    }
    &&& h.muted == (mode == Some(NotificationMode::Mute))
    &&& h.search_open == search_open
}

/// The header of a room: the name, the topic, and the buttons. A call is
/// started from here only while there is none.
pub fn header(
    state: &State,
    room: Option<&RoomSummary>,
    mode: Option<NotificationMode>,
    in_call: bool,
    call_pending: bool,
) -> (r: HeaderView)
    ensures
        is_header(
            r,
            match room {
                Some(x) => Some(*x),
                None => None,
            },
            mode,
            in_call,
            call_pending,
            state.search_open,
        ),
{
    let mut title: Option<String> = None;
    let mut encrypted = false;
    let mut topic: Option<String> = None;
    if let Some(room) = room {
        title = Some(room.name.clone());
        encrypted = room.is_encrypted;
        if let Some(t) = &room.topic {
            topic = Some(text::cut(t.as_str(), HEADER_TOPIC));
        }
    }
    HeaderView {
        title,
        encrypted,
        topic,
        call: if in_call {
            CallButton::Nothing
        } else if call_pending {
            CallButton::Disabled
        } else {
            CallButton::Enabled
        },
        muted: NotifyChoice::from_mode(mode) == NotifyChoice::Mute,
        search_open: state.search_open,
    }
}

// ---------------------------------------------------------------------------
// Laws.
// ---------------------------------------------------------------------------
/// Whether some rows are of items from `i` on that show, in their order.
pub open spec fn in_order(
    rows: Seq<(int, bool)>,
    items: Seq<TimelineItem>,
    f: Filter,
    i: int,
) -> bool {
    &&& forall|a: int|
        0 <= a < rows.len() ==> i <= (#[trigger] rows[a]).0 < items.len() && shows(
            items,
            f,
            rows[a].0,
        )
    &&& forall|a: int, b: int|
        0 <= a < b < rows.len() ==> (#[trigger] rows[a]).0 < (#[trigger] rows[b]).0
}

/// The rows keep the order of the items, and show each at most once.
pub proof fn law_rows_keep_the_order(
    items: Seq<TimelineItem>,
    f: Filter,
    i: int,
    before: Option<Seq<char>>,
)
    requires
        0 <= i,
    ensures
        in_order(rows_from(items, f, i, before), items, f, i),
    decreases items.len() - i,
{
    if i < items.len() {
        let all = rows_from(items, f, i, before);
        if !shows(items, f, i) {
            law_rows_keep_the_order(items, f, i + 1, before);
        } else {
            let next = if divider(items[i]) {
                None
            } else {
                Some(items[i].sender@)
            };
            law_rows_keep_the_order(items, f, i + 1, next);
            let rest = rows_from(items, f, i + 1, next);
            assert(all[0].0 == i);
            assert(all.skip(1) =~= rest);
            assert(forall|a: int| 1 <= a < all.len() ==> #[trigger] all[a] == rest[a - 1]);
        }
    }
}

/// A row without a header continues its sender's group: the row right above
/// it, whatever is hidden between the two, is a message of the same sender.
/// So no message ever shows under another sender's name.
pub proof fn law_a_row_without_header_follows_its_sender(
    items: Seq<TimelineItem>,
    f: Filter,
    a: int,
)
    requires
        0 <= a < rows_from(items, f, 0, None).len(),
        !rows_from(items, f, 0, None)[a].1,
    ensures
        a > 0,
        ({
            let rows = rows_from(items, f, 0, None);
            let above = items[rows[a - 1].0];
            !divider(above) && above.sender@ == items[rows[a].0].sender@
        }),
{
    lemma_group(items, f, 0, None, a);
}

/// A row without a header continues the group before it.
proof fn lemma_group(
    items: Seq<TimelineItem>,
    f: Filter,
    i: int,
    before: Option<Seq<char>>,
    a: int,
)
    requires
        0 <= i,
        0 <= a < rows_from(items, f, i, before).len(),
        !rows_from(items, f, i, before)[a].1,
    ensures
        ({
            let rows = rows_from(items, f, i, before);
            if a == 0 {
                before == Some(items[rows[0].0].sender@)
            } else {
                !divider(items[rows[a - 1].0]) && items[rows[a - 1].0].sender@
                    == items[rows[a].0].sender@
            }
        }),
    decreases items.len() - i,
{
    if !shows(items, f, i) {
        lemma_group(items, f, i + 1, before, a);
    } else {
        let all = rows_from(items, f, i, before);
        let next = if divider(items[i]) {
            None
        } else {
            Some(items[i].sender@)
        };
        let rest = rows_from(items, f, i + 1, next);
        assert(all[0].0 == i);
        assert(all.skip(1) =~= rest);
        if a > 0 {
            assert(all[a] == rest[a - 1]);
            lemma_group(items, f, i + 1, next, a - 1);
            if a > 1 {
                assert(all[a - 1] == rest[a - 2]);
            }
        }
    }
}

/// A message shows under its sender's display name wherever there is one, and
/// under the local part of the user id only without one.
pub proof fn law_a_message_shows_its_sender(
    v: RowView,
    item: TimelineItem,
    local_date: Option<String>,
    link: Option<Link>,
    show_header: bool,
    c: Context,
)
    requires
        is_row_view(v, item, local_date, link, show_header, c),
        v is Message,
    ensures
        item.sender_display_name matches Some(n) ==> v->Message_0.sender@ == n@,
        forall|local: Seq<char>, server: Seq<char>|
            item.sender_display_name is None && item.sender@ == #[trigger] (seq!['@'] + local
                + seq![':'] + server) && !local.contains(':') && !(local.len() >= 4 && local.take(4)
                == "irc_"@) ==> v->Message_0.sender@ == local,
{
    assert forall|local: Seq<char>, server: Seq<char>|
        item.sender_display_name is None && item.sender@ == #[trigger] (seq!['@'] + local
            + seq![':'] + server) && !local.contains(':') && !(local.len() >= 4 && local.take(4)
            == "irc_"@) implies v->Message_0.sender@ == local by {
        crate::events::law_a_user_reads_as_the_local_part(local, server);
    }
}

/// What the row of a message has in it, apart from edits in place.
pub open spec fn body_shown(v: RowView) -> Option<BodyView> {
    match v {
        RowView::Message(r) => match r.parts {
            Parts::Local { body, .. } => Some(body),
            Parts::Sent { body, .. } => Some(body),
            Parts::Editing(_) => None,
        },
        _ => None,
    }
}

/// A row shows what its message holds: the text, the image with its caption,
/// the sticker, the file's name and caption. Only what was removed shows as
/// removed.
pub proof fn law_a_row_shows_its_message(
    v: RowView,
    item: TimelineItem,
    local_date: Option<String>,
    link: Option<Link>,
    show_header: bool,
    c: Context,
    b: BodyView,
)
    requires
        is_row_view(v, item, local_date, link, show_header, c),
        body_shown(v) == Some(b),
    ensures
        match item.content {
            TimelineItemContent::Text(s) => b matches BodyView::Text(x) && (x matches Body::Plain(t)
                ==> t@ == s@),
            TimelineItemContent::Emote(s) => b matches BodyView::Emote(x) && x@ == s@,
            TimelineItemContent::Image { url, caption, .. } => b matches BodyView::Image {
                url: u,
                caption: k,
                ..
            } && u@ == url@ && text::opt_view(k) == text::opt_view(caption),
            TimelineItemContent::Sticker { url, .. } => b matches BodyView::Sticker { url: u, .. }
                && u@ == url@,
            TimelineItemContent::File { filename, caption, .. } => b matches BodyView::File {
                label,
                caption: k,
            } && label@ == "[file: "@ + filename@ + "]"@ && text::opt_view(k) == text::opt_view(
                caption,
            ),
            TimelineItemContent::Redacted => b is Removed,
            _ => false,
        },
{
    if let TimelineItemContent::Text(s) = item.content {
        if let BodyView::Text(x) = b {
            body::law_how_a_body_is_shown(x, s@, *c.index);
        }
    }
}

/// A message that the server does not know shows whether it failed, and offers
/// to send it again only where that can help; one that it knows shows its
/// replies, its reactions in order, and who it answers.
pub proof fn law_a_row_shows_what_became_of_its_message(
    r: MessageRow,
    item: TimelineItem,
    local_date: Option<String>,
    link: Option<Link>,
    show_header: bool,
    c: Context,
)
    requires
        is_row_view(RowView::Message(r), item, local_date, link, show_header, c),
    ensures
        r.parts is Local == item.event_id is None,
        r.parts matches Parts::Local { body, failed, retry } ==> failed == item.send_failed is Some
            && (retry ==> failed) && (item.send_failed matches Some(f) ==> retry
            == f.is_recoverable),
        r.parts matches Parts::Editing(draft) ==> c.editing matches Some(e) && item.event_id is Some
            && e.event_id@ == item.event_id->0@ && draft@ == e.draft@,
        r.parts matches Parts::Sent { body, parts } ==> {
            &&& item.event_id is Some
            &&& parts.event_id@ == item.event_id->0@
            &&& parts.pills@.len() == item.reactions@.len()
            &&& forall|i: int|
                #![trigger parts.pills@[i]]
                0 <= i < parts.pills@.len() ==> parts.pills@[i].key@ == item.reactions@[i].key@
                    && parts.pills@[i].mine == item.reactions@[i].reacted_by_me
                    && parts.pills@[i].count@ == text::decimal(item.reactions@[i].count as nat)
            &&& item.thread_reply_count is None == parts.replies is None
            &&& item.thread_reply_count == Some(1u32) ==> parts.replies->0@ == text::decimal(1)
                + " reply"@
            &&& forall|n: u32|
                n != 1 && #[trigger] item.thread_reply_count == Some(n) ==> parts.replies->0@
                    == text::decimal(n as nat) + " replies"@
        },
        r.quote is Some == item.in_reply_to is Some,
        item.in_reply_to matches Some(p) ==> r.quote->0.target@ == p.event_id@
            && r.quote->0.snippet@ == p.snippet@ && (p.sender@.len() > 0 ==> r.quote->0.who@
            == p.sender@),
{
    reveal_strlit(" repl");
    reveal_strlit("y");
    reveal_strlit("ies");
    reveal_strlit(" reply");
    reveal_strlit(" replies");
    if let Parts::Sent { body, parts } = r.parts {
        assert forall|i: int|
            #![trigger parts.pills@[i]]
            0 <= i < parts.pills@.len() implies parts.pills@[i].key@ == item.reactions@[i].key@
            && parts.pills@[i].mine == item.reactions@[i].reacted_by_me && parts.pills@[i].count@
            == text::decimal(item.reactions@[i].count as nat) by {
            assert(is_pill(parts.pills@[i], item.reactions@[i], c));
        }
        if let Some(n) = item.thread_reply_count {
            let d = text::decimal(n as nat);
            assert(d + " repl"@ + "y"@ =~= d + " reply"@);
            assert(d + " repl"@ + "ies"@ =~= d + " replies"@);
        }
    }
}

/// An item shows exactly where nothing hides it: it is among the matches of a
/// search that is under way, it is not the divider of messages that have been
/// read, and it is not a change of membership while those are hidden.
pub proof fn law_which_items_show(
    state: State,
    show_membership_events: bool,
    rows: Seq<Row>,
    i: usize,
)
    requires
        row_pairs(rows) == rows_from(
            state.items@,
            filter_of(state, show_membership_events),
            0,
            None,
        ),
    ensures
        (exists|a: int| 0 <= a < rows.len() && (#[trigger] rows[a]).index == i) == {
            &&& i < state.items@.len()
            &&& state.search_open && text::trimmed(state.search_query@).len() > 0 ==>
                state.search_matches@.contains(i)
            &&& state.suppress_unread_divider ==> !(state.items@[i as int].content
                is NewMessagesDivider)
            &&& !show_membership_events ==> !(state.items@[i as int].content is MembershipChange)
        },
{
    let f = filter_of(state, show_membership_events);
    let ps = rows_from(state.items@, f, 0, None);
    lemma_rows_exactly(state.items@, f, 0, None, i as int);
    assert(f.matches.contains(i as int) == state.search_matches@.contains(i)) by {
        let m = state.search_matches@;
        if m.contains(i) {
            let k = choose|k: int| 0 <= k < m.len() && m[k] == i;
            assert(text::ints(m)[k] == i as int);
        }
        if f.matches.contains(i as int) {
            let k = choose|k: int| 0 <= k < m.len() && text::ints(m)[k] == i as int;
            assert(m[k] == i);
        }
    }
    if exists|a: int| 0 <= a < rows.len() && (#[trigger] rows[a]).index == i {
        let a = choose|a: int| 0 <= a < rows.len() && (#[trigger] rows[a]).index == i;
        assert(row_pairs(rows)[a].0 == i as int);
        assert(ps[a].0 == i as int);
    }
    if has_row(ps, i as int) {
        let a = choose|a: int| 0 <= a < ps.len() && (#[trigger] ps[a]).0 == i as int;
        assert(row_pairs(rows)[a].0 == rows[a].index as int);
    }
}

/// Whether some row is of the item with this index.
spec fn has_row(rows: Seq<(int, bool)>, i: int) -> bool {
    exists|a: int| 0 <= a < rows.len() && (#[trigger] rows[a]).0 == i
}

proof fn lemma_rows_exactly(
    items: Seq<TimelineItem>,
    f: Filter,
    from: int,
    before: Option<Seq<char>>,
    i: int,
)
    requires
        0 <= from,
    ensures
        has_row(rows_from(items, f, from, before), i) == (from <= i < items.len() && shows(
            items,
            f,
            i,
        )),
    decreases items.len() - from,
{
    let all = rows_from(items, f, from, before);
    if from < items.len() {
        if !shows(items, f, from) {
            lemma_rows_exactly(items, f, from + 1, before, i);
        } else {
            let next = if divider(items[from]) {
                None
            } else {
                Some(items[from].sender@)
            };
            let rest = rows_from(items, f, from + 1, next);
            lemma_rows_exactly(items, f, from + 1, next, i);
            assert(all[0].0 == from);
            assert(all.skip(1) =~= rest);
            if has_row(rest, i) {
                let a = choose|a: int| 0 <= a < rest.len() && (#[trigger] rest[a]).0 == i;
                assert(all[a + 1].0 == i);
            }
            if has_row(all, i) {
                let a = choose|a: int| 0 <= a < all.len() && (#[trigger] all[a]).0 == i;
                if a > 0 {
                    assert(rest[a - 1].0 == i);
                }
            }
        }
    }
}

/// A row starts a group exactly where it is a divider, a reply or a hit of a
/// search, where nothing is above it, or where what is above it is a divider
/// or of another sender.
pub proof fn law_which_rows_start_a_group(
    state: State,
    show_membership_events: bool,
    rows: Seq<Row>,
    a: int,
)
    requires
        row_pairs(rows) == rows_from(
            state.items@,
            filter_of(state, show_membership_events),
            0,
            None,
        ),
        0 <= a < rows.len(),
    ensures
        rows[a].show_header == {
            let item = state.items@[rows[a].index as int];
            let above = state.items@[rows[a - 1].index as int];
            ||| item.content is DateDivider
            ||| item.content is NewMessagesDivider
            ||| item.in_reply_to is Some
            ||| state.search_open && text::trimmed(state.search_query@).len() > 0
            ||| a == 0
            ||| above.content is DateDivider
            ||| above.content is NewMessagesDivider
            ||| above.sender@ != item.sender@
        },
{
    let f = filter_of(state, show_membership_events);
    let ps = rows_from(state.items@, f, 0, None);
    assert(row_pairs(rows)[a] == (rows[a].index as int, rows[a].show_header));
    if a > 0 {
        assert(row_pairs(rows)[a - 1] == (rows[a - 1].index as int, rows[a - 1].show_header));
    }
    lemma_header(state.items@, f, 0, None, a);
}

proof fn lemma_header(
    items: Seq<TimelineItem>,
    f: Filter,
    i: int,
    before: Option<Seq<char>>,
    a: int,
)
    requires
        0 <= i,
        0 <= a < rows_from(items, f, i, before).len(),
    ensures
        ({
            let rows = rows_from(items, f, i, before);
            let item = items[rows[a].0];
            rows[a].1 == (divider(item) || item.in_reply_to is Some || f.searching || if a == 0 {
                before != Some(item.sender@)
            } else {
                divider(items[rows[a - 1].0]) || items[rows[a - 1].0].sender@ != item.sender@
            })
        }),
    decreases items.len() - i,
{
    if !shows(items, f, i) {
        lemma_header(items, f, i + 1, before, a);
    } else {
        let all = rows_from(items, f, i, before);
        let next = if divider(items[i]) {
            None
        } else {
            Some(items[i].sender@)
        };
        let rest = rows_from(items, f, i + 1, next);
        assert(all[0].0 == i);
        assert(all.skip(1) =~= rest);
        if a > 0 {
            assert(all[a] == rest[a - 1]);
            lemma_header(items, f, i + 1, next, a - 1);
            if a > 1 {
                assert(all[a - 1] == rest[a - 2]);
            }
        }
    }
}

/// The actions of a message do what they read, and do it to that message: a
/// reply quotes it, an edit starts from its text, and only one's own can be
/// deleted or, where they are text, edited.
pub proof fn law_what_the_actions_do(
    a: Seq<(&'static str, Message)>,
    item: TimelineItem,
    event_id: Seq<char>,
    sender: Seq<char>,
    own: bool,
)
    requires
        are_actions(a, item, event_id, sender, own),
    ensures
        !own ==> a.len() == 2,
        own && item.content is Text ==> a.len() == 4,
        own && !(item.content is Text) ==> a.len() == 3,
        a[0].1 is ToggleReactionPicker && a[0].1->ToggleReactionPicker_0@ == event_id,
        a[1].1 is StartReply && a[1].1->StartReply_0.event_id@ == event_id
            && a[1].1->StartReply_0.sender@ == sender,
        item.content matches TimelineItemContent::Image { url, .. }
            ==> a[1].1->StartReply_0.image_url == Some(url),
        item.content matches TimelineItemContent::Sticker { url, .. }
            ==> a[1].1->StartReply_0.image_url == Some(url),
        item.content is Text || item.content is File ==> a[1].1->StartReply_0.image_url is None,
        own ==> (item.content matches TimelineItemContent::Text(b) ==> a[2].1 is StartEdit
            && a[2].1->StartEdit_event_id@ == event_id && a[2].1->current_body@ == b@),
        own ==> a[a.len() - 1].1 is RequestDelete && a[a.len() - 1].1->RequestDelete_0@ == event_id,
{
}

/// What stands above the oldest message follows what is known of the history.
pub proof fn law_what_stands_above_the_oldest_message(state: State)
    ensures
        state.search_open && text::trimmed(state.search_query@).len() > 0 ==> history_of(state)
            is Nothing,
        !state.search_open ==> (history_of(state) is Beginning) == state.reached_start,
        !state.search_open && !state.reached_start ==> (history_of(state) is Loading)
            == state.loading_older,
        !state.search_open && !state.reached_start && !state.loading_older ==> history_of(state)
            is LoadOlder,
{
}

/// The header of a room says what the room is called and is about, whether it
/// is encrypted and muted, and offers a call while there is none.
pub proof fn law_what_the_header_says(
    h: HeaderView,
    room: RoomSummary,
    mode: Option<NotificationMode>,
    in_call: bool,
    call_pending: bool,
    search_open: bool,
)
    requires
        is_header(h, Some(room), mode, in_call, call_pending, search_open),
    ensures
        h.title is Some && h.title->0@ == room.name@,
        h.encrypted == room.is_encrypted,
        room.topic is None ==> h.topic is None,
        room.topic matches Some(t) ==> h.topic is Some && (t@.len() <= 80 ==> h.topic->0@ == t@),
        in_call ==> h.call is Nothing,
        !in_call && call_pending ==> h.call is Disabled,
        !in_call && !call_pending ==> h.call is Enabled,
        mode matches Some(m) ==> h.muted == (m is Mute),
        mode is None ==> !h.muted,
        h.search_open == search_open,
{
}

/// The lines around the messages: how many match, and what is wrong with the
/// connection.
pub proof fn law_what_the_lines_say(state: State)
    ensures
        !state.search_open ==> matches_text(state) is None,
        state.search_open && text::trimmed(state.search_query@).len() > 0
            && state.search_matches@.len() == 1 ==> matches_text(state) == Some(
            text::decimal(1) + " match"@,
        ),
        state.search_open && text::trimmed(state.search_query@).len() > 0
            && state.search_matches@.len() != 1 ==> matches_text(state) == Some(
            text::decimal(state.search_matches@.len()) + " matches"@,
        ),
        sync_text(SyncState::Syncing) is None,
        sync_text(SyncState::Connecting) == Some("Connecting…"@),
        sync_text(SyncState::Offline) == Some("Offline — you'll reconnect automatically"@),
{
}

/// A message is tinted where a jump led to it, else where its sender is the
/// highlighted member, else not; it asks for its deletion, shows its actions
/// and its card where that message, and no other, is meant.
pub proof fn law_which_message_is_meant(
    p: SentParts,
    item: TimelineItem,
    link: Option<Link>,
    c: Context,
    id: String,
)
    requires
        are_sent_parts(p, item, link, c),
        item.event_id == Some(id),
    ensures
        (p.tint is Jump) == (*c.highlighted matches Some(h) && h@ == id@),
        !(p.tint is Jump) ==> (p.tint is Member) == (*c.highlighted_member matches Some(m) && m@
            == item.sender@),
        p.confirming == (*c.confirm_delete matches Some(d) && d@ == id@),
        p.actions ==> *c.hovered is Some && c.hovered->0@ == id@ && !p.confirming,
        *c.hovered matches Some(h) && h@ == id@ && !p.confirming && *c.editing is None
            ==> p.actions,
        p.inline_name == (item.content is Emote),
        !(item.content is Text) ==> p.card is Nothing,
        link is None ==> p.card is Nothing,
        item.content is Text && link is Some ==> (p.card is Video) == (link->0.video is Some),
        item.content is Text && link is Some && link->0.video is None ==> (p.card is Tweet) == (
        link->0.tweet is Some),
        item.content is Text && link is Some && link->0.video is None && link->0.tweet is None
            ==> (p.card is Steam) == (link->0.app is Some),
{
}

} // verus!
