//! What the timeline's screen shows: the header, the rows, the composer and
//! the layers above them.

use vstd::prelude::*;

use crate::events::{
    EmbedVideo, NotificationMode, RoomSummary, SyncState, TimelineItemContent, UrlPreview,
};
use crate::local_time;
use crate::previews::Previews;
use crate::screens::call;
use crate::screens::call::Banner;
use crate::screens::timeline::body::ShortcodeIndex;
use crate::screens::timeline::cards;
use crate::screens::timeline::cards::{CardKind, PreviewCard, SteamCard, TweetView, VideoCard};
use crate::screens::timeline::composer;
use crate::screens::timeline::composer::Chip;
use crate::screens::timeline::members;
use crate::screens::timeline::members::{Followers, Group};
use crate::screens::timeline::rows;
use crate::screens::timeline::rows::{
    Context, HeaderView, HistoryControl, Link, Parts, Row, RowView,
};
use crate::screens::timeline::{notify_choices, InlineVideo, Message, NotifyChoice, State};
use crate::string_map::StringMap;
use crate::text;
use crate::tweets::TweetData;

verus! {

// ---------------------------------------------------------------------------
// The composer.
// ---------------------------------------------------------------------------
/// The bar above the input while a reply is written.
#[derive(Debug)]
pub struct ReplyBar {
    pub title: String,
    pub snippet: String,
    pub image_url: Option<String>,
}

/// What the composer shows. Each part keeps its place whether it shows or not,
/// so that the input never loses its focus.
#[derive(Debug)]
pub struct ComposerView {
    pub error: Option<String>,
    pub reply: Option<ReplyBar>,
    pub chips: Vec<Chip>,
    /// The members that the completion list offers, as indices of the roster.
    pub mentions: Vec<usize>,
    /// The alternatives for the flagged word.
    pub suggestions: Option<Vec<String>>,
    pub placeholder: &'static str,
}

/// Whether this is what the composer shows.
pub open spec fn is_composer_view(v: ComposerView, s: composer::State) -> bool {
    &&& v.error == s.error
    &&& match (v.reply, s.replying_to) {
        (Some(bar), Some(p)) => bar.title@ == "Replying to "@ + p.sender@ && bar.snippet
            == p.snippet && bar.image_url == p.image_url,
        (None, None) => true,
        _ => false,
    }
    &&& v.chips@.len() == s.staged_attachments@.len()
    &&& forall|i: int|
        0 <= i < v.chips@.len() ==> composer::is_chip(
            #[trigger] v.chips@[i],
            s.staged_attachments@[i],
            i == 0 && s.pending_attachment_request is Some,
        )
    &&& v.mentions@.map_values(|i: usize| i as int) == composer::offered_mentions(s)
    &&& match (v.suggestions, s.spell.flagged) {
        (Some(row), Some(flagged)) => row@ == flagged.suggestions@,
        (None, None) => true,
        _ => false,
    }
    &&& v.placeholder@ == if s.staged_attachments@.len() == 0 {
        "Message... (@mention, markdown supported)"@
    } else {
        "Add a caption… (optional) — Enter sends the attachment"@
    }
}

/// What the composer shows.
pub fn composer_view(state: &composer::State) -> (r: ComposerView)
    ensures
        is_composer_view(r, *state),
{
    let reply = match &state.replying_to {
        Some(p) => Some(
            ReplyBar {
                title: text::join2("Replying to ", p.sender.as_str()),
                snippet: p.snippet.clone(),
                image_url: text::clone_opt(&p.image_url),
            },
        ),
        None => None,
    };
    let suggestions = match &state.spell.flagged {
        Some(flagged) => Some(text::clone_strings(&flagged.suggestions)),
        None => None,
    };
    ComposerView {
        error: text::clone_opt(&state.error),
        reply,
        chips: composer::chips(state),
        mentions: composer::mention_candidates(state),
        suggestions,
        placeholder: composer::placeholder(state),
    }
}

// ---------------------------------------------------------------------------
// The rows.
// ---------------------------------------------------------------------------
/// What is known of a link, or of nothing.
pub open spec fn known<V>(m: Map<Seq<char>, Option<V>>, url: Seq<char>) -> Option<V> {
    if m.contains_key(url) {
        m[url]
    } else {
        None
    }
}

/// Whether the link is what is known of an URL: the video behind it, and what
/// the look-ups brought.
pub open spec fn is_link(l: Link, url: Seq<char>, video: Option<EmbedVideo>, p: Previews) -> bool {
    &&& match (l.video, video) {
        (Some(a), Some(b)) => *a == b,
        (None, None) => true,
        _ => false,
    }
    &&& match (l.tweet, known(p.tweets@, url)) {
        (Some(a), Some(b)) => *a == b,
        (None, None) => true,
        _ => false,
    }
    &&& match (l.app, known(p.apps@, url)) {
        (Some(a), Some(b)) => *a == b,
        (None, None) => true,
        _ => false,
    }
    &&& match (l.preview, known(p.links@, url)) {
        (Some(a), Some(b)) => *a == b,
        (None, None) => true,
        _ => false,
    }
}

/// What was looked up for an URL.
fn look_up<'a, V>(map: &'a StringMap<Option<V>>, url: &str) -> (r: Option<&'a V>)
    ensures
        match (r, known(map@, url@)) {
            (Some(a), Some(b)) => *a == b,
            (None, None) => true,
            _ => false,
        },
{
    match map.get(url) {
        Some(found) => match found {
            Some(v) => Some(v),
            None => None,
        },
        None => None,
    }
}

/// What is known of an URL.
pub fn link_of<'a>(url: &str, video: &'a Option<EmbedVideo>, previews: &'a Previews) -> (r: Link<'a>)
    ensures
        is_link(r, url@, *video, *previews),
{
    let video = match video {
        Some(v) => Some(v),
        None => None,
    };
    Link {
        video,
        tweet: look_up(&previews.tweets, url),
        app: look_up(&previews.apps, url),
        preview: look_up(&previews.links, url),
    }
}

/// What is known of each item besides: how far the reader's time zone was from
/// UTC when it was sent, and when the post behind its first link was made; and
/// the video behind that link.
#[derive(Debug)]
pub struct ItemFacts {
    pub offset: Option<i32>,
    pub post_offset: Option<i32>,
    pub video: Option<EmbedVideo>,
}

/// How far the time zone was from UTC when the item was sent.
pub open spec fn offset_of(facts: Seq<ItemFacts>, i: int) -> Option<i32> {
    if i < facts.len() {
        facts[i].offset
    } else {
        None
    }
}

/// How far the time zone was from UTC when the post behind an item's first
/// link was made.
pub open spec fn post_offset_of(facts: Seq<ItemFacts>, i: int) -> Option<i32> {
    if i < facts.len() {
        facts[i].post_offset
    } else {
        None
    }
}

/// The video behind an item's first link, where there is one.
pub open spec fn video_of(facts: Seq<ItemFacts>, i: int) -> Option<EmbedVideo> {
    if i < facts.len() {
        facts[i].video
    } else {
        None
    }
}

/// The first link of an item.
pub open spec fn url_of(state: State, i: int) -> Option<String> {
    if i < state.first_urls@.len() {
        state.first_urls@[i]
    } else {
        None
    }
}

/// The card of a message's first link.
#[derive(Debug)]
pub enum Card {
    Nothing,
    Video(VideoCard),
    Tweet(TweetView),
    Steam(SteamCard),
    Preview(PreviewCard),
}

/// Which card a row has.
pub open spec fn kind_in(row: RowView) -> CardKind {
    match row {
        RowView::Message(m) => match m.parts {
            Parts::Sent { parts, .. } => parts.card,
            _ => CardKind::Nothing,
        },
        _ => CardKind::Nothing,
    }
}

/// Whether this is the time of a post, where one is known.
pub open spec fn is_post_time(time: Option<String>, secs: Option<i64>, offset: Option<i32>) -> bool {
    match (time, secs) {
        (Some(s), Some(t)) => local_time::is_stamp_label(s@, t, offset),
        (None, None) => true,
        _ => false,
    }
}

/// Whether this is the card of a post, with its time at an offset.
pub open spec fn is_tweet_card(c: TweetView, t: TweetData, offset: Option<i32>) -> bool {
    exists|time: Option<String>| #[trigger]
        cards::is_tweet_view(c, t, time, false) && is_post_time(time, t.created_timestamp, offset)
}

/// Whether this is the card of that kind for an URL.
pub open spec fn is_card(
    card: Card,
    kind: CardKind,
    url: Seq<char>,
    video: Option<EmbedVideo>,
    p: Previews,
    event_id: Option<String>,
    inline: Option<InlineVideo>,
    offset: Option<i32>,
) -> bool {
    match (kind, video, known(p.tweets@, url), known(p.apps@, url), known(p.links@, url)) {
        (CardKind::Video, Some(v), _, _, preview) => card matches Card::Video(c)
            && cards::is_video_card(c, v, preview, event_id, inline),
        (CardKind::Tweet, _, Some(t), _, _) => card matches Card::Tweet(c) && is_tweet_card(
            c,
            t,
            offset,
        ),
        (CardKind::Steam, _, _, Some(a), _) => card matches Card::Steam(c)
            && cards::is_steam_card(c, a),
        (CardKind::Preview, _, _, _, Some(l)) => card matches Card::Preview(c)
            && cards::is_preview_card(c, l),
        _ => card is Nothing,
    }
}

/// The card of that kind for an URL.
fn card_of(
    kind: CardKind,
    url: &str,
    video: &Option<EmbedVideo>,
    previews: &Previews,
    event_id: &Option<String>,
    inline: &Option<InlineVideo>,
    offset: Option<i32>,
) -> (r: Card)
    ensures
        is_card(r, kind, url@, *video, *previews, *event_id, *inline, offset),
{
    match kind {
        CardKind::Nothing => Card::Nothing,
        CardKind::Video => match video {
            Some(v) => {
                let nothing: Option<UrlPreview> = None;
                let preview = match previews.links.get(url) {
                    Some(p) => p,
                    None => &nothing,
                };
                Card::Video(cards::embed_video_card(v, preview, event_id, inline))
            },
            None => Card::Nothing,
        },
        CardKind::Tweet => match look_up(&previews.tweets, url) {
            Some(t) => {
                let time = match t.created_timestamp {
                    Some(secs) => Some(local_time::stamp_label(secs, offset)),
                    None => None,
                };
                let card = cards::tweet_body(t, &time, false);
                assert(cards::is_tweet_view(card, *t, time, false));
                Card::Tweet(card)
            },
            None => Card::Nothing,
        },
        CardKind::Steam => match look_up(&previews.apps, url) {
            Some(a) => Card::Steam(cards::steam_card(a)),
            None => Card::Nothing,
        },
        CardKind::Preview => match look_up(&previews.links, url) {
            Some(l) => Card::Preview(cards::preview_card(l)),
            None => Card::Nothing,
        },
    }
}

/// Which card a row has.
fn card_kind_in(row: &RowView) -> (r: CardKind)
    ensures
        r == kind_in(*row),
{
    match row {
        RowView::Message(m) => match &m.parts {
            Parts::Sent { parts, .. } => parts.card,
            _ => CardKind::Nothing,
        },
        _ => CardKind::Nothing,
    }
}

/// Whether the row has the line with the sender's name and the time.
pub open spec fn has_header(row: RowView) -> bool {
    row matches RowView::Message(m) && m.header
}

/// What a click on a card asks for: the page that a post's, a store's or a
/// preview's card stands for. A video's card has its own controls.
pub open spec fn click_on(
    kind: CardKind,
    url: String,
    p: Previews,
) -> Option<Message> {
    match (kind, known(p.tweets@, url@), known(p.apps@, url@), known(p.links@, url@)) {
        (CardKind::Tweet, Some(_), _, _) => Some(Message::OpenUrl(url)),
        (CardKind::Steam, _, Some(_), _) => Some(Message::OpenUrl(url)),
        (CardKind::Preview, _, _, Some(l)) => Some(Message::OpenUrl(l.url)),
        _ => None,
    }
}

/// What a click on a card asks for.
fn click_of(kind: CardKind, url: &String, previews: &Previews) -> (r: Option<Message>)
    ensures
        r == click_on(kind, *url, *previews),
{
    match kind {
        CardKind::Tweet => match look_up(&previews.tweets, url.as_str()) {
            Some(_) => Some(Message::OpenUrl(url.clone())),
            None => None,
        },
        CardKind::Steam => match look_up(&previews.apps, url.as_str()) {
            Some(_) => Some(Message::OpenUrl(url.clone())),
            None => None,
        },
        CardKind::Preview => match look_up(&previews.links, url.as_str()) {
            Some(l) => Some(Message::OpenUrl(l.url.clone())),
            None => None,
        },
        _ => None,
    }
}

/// A row with what it shows, the time in its header, and the card of its first
/// link. A message that the server knows can be found again by its id.
#[derive(Debug)]
pub struct Placed {
    pub event_id: Option<String>,
    pub row: RowView,
    pub time: Option<String>,
    pub card: Card,
    /// What a click on the card asks for.
    pub click: Option<Message>,
}

/// Whether this is the row of the item with index `i`.
pub open spec fn is_placed(
    v: Placed,
    state: State,
    i: int,
    show_header: bool,
    facts: Seq<ItemFacts>,
    previews: Previews,
    c: Context,
) -> bool {
    &&& v.event_id == state.items@[i].event_id
    &&& exists|link: Option<Link>, day: Option<String>|
        {
            &&& #[trigger] rows::is_row_view(v.row, state.items@[i], day, link, show_header, c)
            &&& state.items@[i].content is DateDivider ==> local_time::is_local_day(
                day,
                state.items@[i].timestamp_ms,
                offset_of(facts, i),
            )
            &&& match (link, url_of(state, i)) {
                (Some(l), Some(url)) => is_link(l, url@, video_of(facts, i), previews),
                (None, None) => true,
                _ => false,
            }
        }
    &&& match v.time {
        Some(time) => has_header(v.row) && local_time::is_clock_label(
            time@,
            state.items@[i].timestamp_ms,
            offset_of(facts, i),
        ),
        None => !has_header(v.row),
    }
    &&& match url_of(state, i) {
        Some(url) => is_card(
            v.card,
            kind_in(v.row),
            url@,
            video_of(facts, i),
            previews,
            state.items@[i].event_id,
            state.inline_video,
            post_offset_of(facts, i),
        ),
        None => v.card is Nothing,
    }
    &&& v.click == match url_of(state, i) {
        Some(url) => click_on(kind_in(v.row), url, previews),
        None => None,
    }
}

/// Whether the row has the line with the sender's name and the time.
fn is_headed(row: &RowView) -> (r: bool)
    ensures
        r == has_header(*row),
{
    match row {
        RowView::Message(m) => m.header,
        _ => false,
    }
}

/// The row of the item with index `i`.
fn place(
    state: &State,
    i: usize,
    show_header: bool,
    facts: &Vec<ItemFacts>,
    previews: &Previews,
    c: &Context,
) -> (r: Placed)
    requires
        i < state.items@.len(),
    ensures
        is_placed(r, *state, i as int, show_header, facts@, *previews, *c),
{
    let item = &state.items[i];
    let nothing: Option<String> = None;
    let no_video: Option<EmbedVideo> = None;
    let (offset, post_offset, video) = if i < facts.len() {
        (facts[i].offset, facts[i].post_offset, &facts[i].video)
    } else {
        (None, None, &no_video)
    };
    let day = match &item.content {
        TimelineItemContent::DateDivider(_) => local_time::local_day(item.timestamp_ms, offset),
        _ => None,
    };
    let url = if i < state.first_urls.len() {
        &state.first_urls[i]
    } else {
        &nothing
    };
    let link = match url {
        Some(u) => Some(link_of(u.as_str(), video, previews)),
        None => None,
    };
    let row = rows::render_item(item, &day, &link, show_header, c);
    let time = if is_headed(&row) {
        Some(local_time::clock_label(item.timestamp_ms, offset))
    } else {
        None
    };
    let kind = card_kind_in(&row);
    let click = match url {
        Some(u) => click_of(kind, u, previews),
        None => None,
    };
    let card = match url {
        Some(u) => card_of(
            kind,
            u.as_str(),
            video,
            previews,
            &item.event_id,
            &state.inline_video,
            post_offset,
        ),
        None => Card::Nothing,
    };
    let r = Placed { event_id: text::clone_opt(&item.event_id), row, time, card, click };
    assert(rows::is_row_view(
        r.row,
        state.items@[i as int],
        day,
        link,
        show_header,
        *c,
    ));
    r
}

/// Whether these are the rows of the timeline: those of the items that show,
/// in their order.
pub open spec fn are_rows(
    v: Seq<Placed>,
    state: State,
    show_membership_events: bool,
    facts: Seq<ItemFacts>,
    previews: Previews,
    c: Context,
) -> bool {
    let shown = rows::rows_from(
        state.items@,
        rows::filter_of(state, show_membership_events),
        0,
        None,
    );
    &&& v.len() == shown.len()
    &&& forall|k: int|
        0 <= k < v.len() ==> is_placed(
            #[trigger] v[k],
            state,
            shown[k].0,
            shown[k].1,
            facts,
            previews,
            c,
        )
}

/// The rows of the timeline.
fn place_rows(
    state: &State,
    show_membership_events: bool,
    facts: &Vec<ItemFacts>,
    previews: &Previews,
    c: &Context,
) -> (r: Vec<Placed>)
    ensures
        are_rows(r@, *state, show_membership_events, facts@, *previews, *c),
{
    let shown = rows::visible_rows(state, show_membership_events);
    let ghost pairs = rows::row_pairs(shown@);
    let mut r: Vec<Placed> = Vec::new();
    let mut k: usize = 0;
    while k < shown.len()
        invariant
            k <= shown@.len(),
            pairs == rows::row_pairs(shown@),
            pairs == rows::rows_from(
                state.items@,
                rows::filter_of(*state, show_membership_events),
                0,
                None,
            ),
            r@.len() == k,
            forall|j: int|
                0 <= j < k ==> is_placed(
                    #[trigger] r@[j],
                    *state,
                    pairs[j].0,
                    pairs[j].1,
                    facts@,
                    *previews,
                    *c,
                ),
        decreases shown@.len() - k,
    {
        let row: Row = shown[k];
        proof {
            rows::law_rows_keep_the_order(
                state.items@,
                rows::filter_of(*state, show_membership_events),
                0,
                None,
            );
            assert(pairs[k as int] == (row.index as int, row.show_header));
        }
        r.push(place(state, row.index, row.show_header, facts, previews, c));
        k = k + 1;
    }
    r
}

// ---------------------------------------------------------------------------
// The reader's time zone.
// ---------------------------------------------------------------------------
/// When the post behind an item's first link was made.
pub open spec fn posted_at(state: State, previews: Previews, i: int) -> Option<i64> {
    match url_of(state, i) {
        Some(url) => match known(previews.tweets@, url@) {
            Some(t) => t.created_timestamp,
            None => None,
        },
        None => None,
    }
}

/// Whether the facts fit the item with index `i`: its offsets are known
/// wherever the time zone has one.
pub open spec fn fits(f: ItemFacts, state: State, previews: Previews, i: int) -> bool {
    &&& local_time::in_calendar(local_time::second_of(state.items@[i].timestamp_ms))
        ==> f.offset is Some
    &&& f.offset matches Some(o) ==> local_time::is_offset(o as int)
    &&& match posted_at(state, previews, i) {
        Some(secs) => {
            &&& local_time::in_calendar(secs as int) ==> f.post_offset is Some
            &&& f.post_offset matches Some(o) ==> local_time::is_offset(o as int)
        },
        None => f.post_offset is None,
    }
}

/// Gathers what the machine's time zone says of the items. The videos behind
/// their first links are handed in.
pub fn gather(state: &State, videos: Vec<Option<EmbedVideo>>, previews: &Previews) -> (r: Vec<
    ItemFacts,
>)
    ensures
        r@.len() == state.items@.len(),
        forall|i: int|
            0 <= i < r@.len() ==> fits(#[trigger] r@[i], *state, *previews, i) && r@[i].video
                == if i < videos@.len() {
                videos@[i]
            } else {
                None
            },
{
    let ghost all = videos@;
    let mut videos = videos;
    let mut r: Vec<ItemFacts> = Vec::new();
    let mut i: usize = 0;
    while i < state.items.len()
        invariant
            i <= state.items@.len(),
            r@.len() == i,
            videos@.len() == if i < all.len() {
                all.len() - i
            } else {
                0
            },
            forall|k: int| 0 <= k < videos@.len() ==> #[trigger] videos@[k] == all[k + i],
            forall|k: int|
                0 <= k < i ==> fits(#[trigger] r@[k], *state, *previews, k) && r@[k].video == if k
                    < all.len() {
                    all[k]
                } else {
                    None
                },
        decreases state.items@.len() - i,
    {
        let video = if videos.len() > 0 {
            assert(videos@[0] == all[i as int]);
            videos.remove(0)
        } else {
            None
        };
        let offset = local_time::offset_at_millis(state.items[i].timestamp_ms);
        let posted = if i < state.first_urls.len() {
            match &state.first_urls[i] {
                Some(url) => match look_up(&previews.tweets, url.as_str()) {
                    Some(t) => t.created_timestamp,
                    None => None,
                },
                None => None,
            }
        } else {
            None
        };
        let post_offset = match posted {
            Some(secs) => local_time::offset_at(secs),
            None => None,
        };
        r.push(ItemFacts { offset, post_offset, video });
        i = i + 1;
    }
    r
}

// ---------------------------------------------------------------------------
// The screen.
// ---------------------------------------------------------------------------
/// What the screen shows of an open room.
#[derive(Debug)]
pub struct RoomView {
    pub header: HeaderView,
    pub banner: Option<Banner>,
    /// The choices of the notification menu, and which of them is in force.
    pub notify: Option<Vec<(NotifyChoice, bool)>>,
    /// The search field's text, and how many messages match.
    pub search: Option<(String, Option<String>)>,
    pub history: HistoryControl,
    pub rows: Vec<Placed>,
    pub sync: Option<&'static str>,
    pub error: Option<String>,
    pub composer: ComposerView,
    pub typing: Option<String>,
    pub followers: Followers,
    /// Whether the emoji and sticker picker floats above the composer.
    pub picker: bool,
    /// The message whose reaction picker shows, and where it is anchored.
    pub reacting: Option<(String, u32)>,
    /// Whether the way back to the newest message is offered.
    pub jump_to_latest: bool,
    /// The line above the roster, and its sections.
    pub members: Option<(String, Vec<Group>)>,
    /// The entries of a member's menu, which shows only beside the roster.
    pub member_menu: Option<Vec<(&'static str, Message)>>,
}

/// What the screen shows.
#[derive(Debug)]
pub enum Screen {
    /// No room is open.
    Invitation(&'static str),
    Room(RoomView),
}

/// What the screen is made from, besides the timeline's own state.
pub struct Surroundings<'a> {
    pub room: Option<&'a RoomSummary>,
    pub mode: Option<NotificationMode>,
    pub calls: &'a call::State,
    pub sync_state: &'a SyncState,
    pub own_user_id: &'a Option<String>,
    pub previews: &'a Previews,
    pub index: &'a ShortcodeIndex,
    pub show_membership_events: bool,
}

/// What a row is made from.
pub open spec fn context_of<'a>(state: &'a State, s: Surroundings<'a>) -> Context<'a> {
    Context {
        own_user_id: s.own_user_id,
        hovered: &state.hovered_event_id,
        editing: &state.editing,
        confirm_delete: &state.confirm_delete,
        highlighted: &state.highlighted_event_id,
        highlighted_member: &state.highlighted_member,
        members: &state.composer.member_candidates,
        tags: &state.power_tags,
        index: s.index,
    }
}

/// Whether these are the choices of the notification menu.
pub open spec fn are_choices(v: Seq<(NotifyChoice, bool)>, mode: Option<NotificationMode>) -> bool {
    let current = NotifyChoice::of_mode(mode);
    v == seq![
        (NotifyChoice::Default, current == NotifyChoice::Default),
        (NotifyChoice::All, current == NotifyChoice::All),
        (NotifyChoice::Mentions, current == NotifyChoice::Mentions),
        (NotifyChoice::Mute, current == NotifyChoice::Mute),
    ]
}

/// Whether the roster shows.
pub open spec fn roster_shows(state: State) -> bool {
    !state.hide_members && state.composer.member_candidates@.len() > 0
}

/// Whether these are the entries of the member's menu.
pub open spec fn are_menu_entries(
    v: Seq<(&'static str, Message)>,
    user_id: String,
    highlighted: Option<String>,
) -> bool {
    &&& v.len() == 3
    &&& v[0].0@ == "Direct message"@ && v[0].1 == Message::MemberMenuDirectMessage(user_id)
    &&& v[1].0@ == "New room with them"@ && v[1].1 == Message::MemberMenuNewRoom(user_id)
    &&& v[2].0@ == if text::opt_view(highlighted) == Some(user_id@) {
        "Clear highlight"@
    } else {
        "Highlight messages"@
    }
    &&& v[2].1 == Message::MemberMenuHighlight(user_id)
}

/// Whether this is what shows above the messages.
pub open spec fn is_top(v: RoomView, state: State, room_id: Seq<char>, s: Surroundings) -> bool {
    &&& rows::is_header(
        v.header,
        match s.room {
            Some(x) => Some(*x),
            None => None,
        },
        s.mode,
        s.calls.active(room_id),
        s.calls.direction(room_id) is Some,
        state.search_open,
    )
    &&& match v.banner {
        None => !call::has_banner(*s.calls, room_id),
        Some(Banner::Failed(e)) => s.calls.failure(room_id) == Some(e@),
        Some(Banner::Call(b)) => call::has_banner(*s.calls, room_id) && s.calls.failure(
            room_id,
        ) is None && call::is_call_banner(
            b,
            *s.calls,
            room_id,
            state.composer.member_candidates@,
        ),
    }
    &&& match v.notify {
        Some(choices) => state.notify_menu_open && are_choices(choices@, s.mode),
        None => !state.notify_menu_open,
    }
    &&& match v.search {
        Some(search) => state.search_open && search.0 == state.search_query && text::opt_view(
            search.1,
        ) == rows::matches_text(state),
        None => !state.search_open,
    }
}

/// Whether this is what shows below the messages.
pub open spec fn is_bottom(v: RoomView, state: State, s: Surroundings) -> bool {
    &&& match (v.sync, rows::sync_text(*s.sync_state)) {
        (Some(a), Some(b)) => a@ == b,
        (None, None) => true,
        _ => false,
    }
    &&& v.error == state.action_error
    &&& is_composer_view(v.composer, state.composer)
    &&& text::opt_view(v.typing) == members::typing_text(
        state.composer.member_candidates@,
        text::views(state.typing_users@),
    )
    &&& members::shows_followers(
        v.followers,
        state.composer.member_candidates@,
        members::followers_of(state.items@, text::opt_view(*s.own_user_id)),
    )
}

/// Whether this is what floats above the messages, or stands beside them.
pub open spec fn are_layers(v: RoomView, state: State) -> bool {
    &&& v.picker == state.composer.show_emoji_picker
    &&& v.reacting == match (state.reacting_to, state.reaction_anchor_y) {
        (Some(id), Some(y)) => Some((id, y)),
        _ => None,
    }
    &&& v.jump_to_latest == !state.at_bottom
    &&& match v.members {
        Some(roster) => {
            let groups = roster.1;
            let wanted = members::peopled(
                state.composer.member_candidates@,
                state.power_tags@,
                0,
            );
            roster_shows(state) && roster.0@ == text::decimal(
                state.composer.member_candidates@.len(),
            ) + " Members"@ && groups@.len() == wanted.len() && forall|i: int|
                0 <= i < groups@.len() ==> members::is_group(
                    #[trigger] groups@[i],
                    state.composer.member_candidates@,
                    state.power_tags@,
                    wanted[i],
                )
        },
        None => !roster_shows(state),
    }
    &&& match v.member_menu {
        Some(entries) => roster_shows(state) && state.member_menu is Some && are_menu_entries(
            entries@,
            state.member_menu->0,
            state.highlighted_member,
        ),
        None => !roster_shows(state) || state.member_menu is None,
    }
}

/// Whether this is what the screen shows.
pub open spec fn is_view(v: Screen, state: State, facts: Seq<ItemFacts>, s: Surroundings) -> bool {
    match state.room_id {
        None => v matches Screen::Invitation(line) && line@
            == "Select a room to view its messages"@,
        Some(room_id) => v matches Screen::Room(r) && is_top(r, state, room_id@, s) && is_bottom(
            r,
            state,
            s,
        ) && are_layers(r, state) && r.history == rows::history_of(state) && are_rows(
            r.rows@,
            state,
            s.show_membership_events,
            facts,
            *s.previews,
            context_of(&state, s),
        ),
    }
}

/// The choices of the notification menu.
fn notify_menu(mode: Option<NotificationMode>) -> (r: Vec<(NotifyChoice, bool)>)
    ensures
        are_choices(r@, mode),
{
    let current = NotifyChoice::from_mode(mode);
    let choices = notify_choices();
    let r = vec![
        (choices[0], current == choices[0]),
        (choices[1], current == choices[1]),
        (choices[2], current == choices[2]),
        (choices[3], current == choices[3]),
    ];
    assert(r@ =~= seq![
        (NotifyChoice::Default, current == NotifyChoice::Default),
        (NotifyChoice::All, current == NotifyChoice::All),
        (NotifyChoice::Mentions, current == NotifyChoice::Mentions),
        (NotifyChoice::Mute, current == NotifyChoice::Mute),
    ]);
    r
}

/// What the screen shows. The composer's picker, the reaction picker and the
/// way back to the newest message are layers, so that none of them moves the
/// messages.
pub fn view(state: &State, facts: &Vec<ItemFacts>, s: &Surroundings) -> (r: Screen)
    requires
        state.power_tags@.len() < usize::MAX,
    ensures
        is_view(r, *state, facts@, *s),
{
    let room_id = match &state.room_id {
        Some(id) => id,
        None => {
            return Screen::Invitation("Select a room to view its messages");
        },
    };
    let header = rows::header(
        state,
        s.room,
        s.mode,
        s.calls.has_active_call(room_id.as_str()),
        s.calls.pending_for(room_id.as_str()),
    );
    let banner = call::banner(s.calls, room_id.as_str(), &state.composer.member_candidates);
    let notify = if state.notify_menu_open {
        Some(notify_menu(s.mode))
    } else {
        None
    };
    let search = if state.search_open {
        Some((state.search_query.clone(), rows::match_count_label(state)))
    } else {
        None
    };
    let context = Context {
        own_user_id: s.own_user_id,
        hovered: &state.hovered_event_id,
        editing: &state.editing,
        confirm_delete: &state.confirm_delete,
        highlighted: &state.highlighted_event_id,
        highlighted_member: &state.highlighted_member,
        members: &state.composer.member_candidates,
        tags: &state.power_tags,
        index: s.index,
    };
    let placed = place_rows(state, s.show_membership_events, facts, s.previews, &context);
    let reacting = match (&state.reacting_to, state.reaction_anchor_y) {
        (Some(id), Some(y)) => Some((id.clone(), y)),
        _ => None,
    };
    let shown = rows::members_shown(state);
    let roster = if shown {
        Some(
            (
                members::roster_title(&state.composer.member_candidates),
                members::member_panel(&state.composer.member_candidates, &state.power_tags),
            ),
        )
    } else {
        None
    };
    let member_menu = match &state.member_menu {
        Some(user_id) => if shown {
            Some(rows::member_menu_actions(user_id, &state.highlighted_member))
        } else {
            None
        },
        None => None,
    };
    Screen::Room(
        RoomView {
            header,
            banner,
            notify,
            search,
            history: rows::history_control(state),
            rows: placed,
            sync: rows::sync_label(s.sync_state),
            error: text::clone_opt(&state.action_error),
            composer: composer_view(&state.composer),
            typing: members::typing_line(&state.typing_users, &state.composer.member_candidates),
            followers: members::follower_avatars(
                &state.items,
                s.own_user_id,
                &state.composer.member_candidates,
            ),
            picker: state.composer.show_emoji_picker,
            reacting,
            jump_to_latest: !state.at_bottom,
            members: roster,
            member_menu,
        },
    )
}

/// Whether this is what the screen shows in some time zone.
pub open spec fn shows_somewhere(
    v: Screen,
    state: State,
    videos: Seq<Option<EmbedVideo>>,
    s: Surroundings,
) -> bool {
    exists|facts: Seq<ItemFacts>| #[trigger]
        is_view(v, state, facts, s) && facts.len() == state.items@.len() && forall|i: int|
            0 <= i < facts.len() ==> fits(#[trigger] facts[i], state, *s.previews, i)
                && facts[i].video == if i < videos.len() {
                videos[i]
            } else {
                None
            }
}

/// What the screen shows in the reader's own time zone.
pub fn view_here(state: &State, videos: Vec<Option<EmbedVideo>>, s: &Surroundings) -> (r: Screen)
    requires
        state.power_tags@.len() < usize::MAX,
    ensures
        shows_somewhere(r, *state, videos@, *s),
{
    let facts = gather(state, videos, s.previews);
    let r = view(state, &facts, s);
    assert(is_view(r, *state, facts@, *s));
    r
}

// ---------------------------------------------------------------------------
// Laws.
// ---------------------------------------------------------------------------
/// Without a room the screen says so; with one it shows that room: the error,
/// the button to the newest message while it is out of view, and a composer
/// that says what is answered.
pub proof fn law_what_the_screen_shows(
    v: Screen,
    state: State,
    facts: Seq<ItemFacts>,
    s: Surroundings,
)
    requires
        is_view(v, state, facts, s),
    ensures
        (v is Room) == (state.room_id is Some),
        v matches Screen::Room(r) ==> {
            &&& r.error == state.action_error
            &&& r.jump_to_latest == !state.at_bottom
            &&& r.picker == state.composer.show_emoji_picker
            &&& (r.notify is Some) == state.notify_menu_open
            &&& (r.search is Some) == state.search_open
            &&& r.search matches Some(x) ==> x.0@ == state.search_query@
            &&& (r.composer.reply is Some) == (state.composer.replying_to is Some)
            &&& state.composer.replying_to matches Some(p) ==> r.composer.reply->0.title@
                == "Replying to "@ + p.sender@ && r.composer.reply->0.snippet@ == p.snippet@
            &&& r.composer.error == state.composer.error
            &&& r.composer.chips@.len() == state.composer.staged_attachments@.len()
            &&& (r.composer.suggestions is Some) == (state.composer.spell.flagged is Some)
            &&& state.typing_users@.len() == 0 ==> r.typing is None
            &&& state.hide_members ==> r.members is None && r.member_menu is None
        },
{
    if let Screen::Room(r) = v {
        assert(text::views(state.typing_users@).len() == state.typing_users@.len());
    }
}

/// The notification menu marks the choice that the room follows, and only
/// that.
pub proof fn law_the_menu_marks_the_choice(
    v: Seq<(NotifyChoice, bool)>,
    mode: Option<NotificationMode>,
)
    requires
        are_choices(v, mode),
    ensures
        v.len() == 4,
        v[0].1 == (mode is None),
        v[1].1 == (mode == Some(NotificationMode::AllMessages)),
        v[2].1 == (mode == Some(NotificationMode::MentionsAndKeywordsOnly)),
        v[3].1 == (mode == Some(NotificationMode::Mute)),
{
}

/// A click on a card opens the page that the card is about; a video has its
/// own controls.
pub proof fn law_a_clicked_card_opens_its_page(kind: CardKind, url: String, p: Previews)
    ensures
        kind is Video || kind is Nothing ==> click_on(kind, url, p) is None,
        kind is Tweet && p.tweets@.contains_key(url@) && p.tweets@[url@] is Some ==> click_on(
            kind,
            url,
            p,
        ) == Some(Message::OpenUrl(url)),
        kind is Steam && p.apps@.contains_key(url@) && p.apps@[url@] is Some ==> click_on(
            kind,
            url,
            p,
        ) == Some(Message::OpenUrl(url)),
        kind is Preview && p.links@.contains_key(url@) && p.links@[url@] is Some ==> click_on(
            kind,
            url,
            p,
        ) == Some(Message::OpenUrl(p.links@[url@]->0.url)),
{
}

} // verus!
