//! A new snapshot of the open room's timeline.

use vstd::prelude::*;

use crate::commands::ClientCommand;
use crate::events::TimelineItem;
use crate::media;
use crate::previews;
use crate::previews::Ask;
use crate::screens::timeline;
use crate::screens::timeline::search;
use crate::steam;
use crate::stickers;
use crate::text;
use crate::tweets;
use crate::update::effects;
use crate::update::tasks;
use crate::update::tasks::Task;
use crate::state::App;

verus! {

// ---------------------------------------------------------------------------
// The timeline itself.
// ---------------------------------------------------------------------------
/// The first event id at or after `i`.
pub open spec fn first_id(items: Seq<TimelineItem>, i: int) -> Option<Seq<char>>
    decreases items.len() - i,
{
    if i < 0 || i >= items.len() {
        None
    } else {
        match items[i].event_id {
            Some(id) => Some(id@),
            None => first_id(items, i + 1),
        }
    }
}

/// The last event id among the first `n` items.
pub open spec fn last_id(items: Seq<TimelineItem>, n: int) -> Option<Seq<char>>
    decreases n,
{
    if n <= 0 {
        None
    } else {
        match items[n - 1].event_id {
            Some(id) => Some(id@),
            None => last_id(items, n - 1),
        }
    }
}

/// Whether an item has the id.
pub open spec fn has_event(items: Seq<TimelineItem>, id: Seq<char>) -> bool {
    exists|i: int|
        0 <= i < items.len() && text::opt_view((#[trigger] items[i]).event_id) == Some(id)
}

/// Whether a snapshot starts over: the oldest event that was loaded is not in
/// it. Whatever else a snapshot does, it keeps that one.
pub open spec fn starts_over(before: Seq<TimelineItem>, items: Seq<TimelineItem>) -> bool {
    first_id(before, 0) matches Some(id) && !has_event(items, id)
}

/// Whether the newest event is another one than was seen last.
pub open spec fn newer(t: timeline::State, items: Seq<TimelineItem>) -> bool {
    last_id(items, items.len() as int) != text::opt_view(t.last_seen_newest)
}

/// What a snapshot makes of the timeline. One that starts over leaves the view
/// at the newest message. There, what comes is read at once; further up, what
/// is new makes the divider meaningful again.
pub open spec fn snapshot_taken(
    before: timeline::State,
    after: timeline::State,
    items: Vec<TimelineItem>,
    show_membership_events: bool,
) -> bool {
    let over = starts_over(before.items@, items@);
    let bottom = before.at_bottom || over;
    &&& previews::opt_views(after.first_urls@) == previews::item_links(items@)
    &&& text::ints(after.search_matches@) == search::hits(
        items@,
        before.search_open,
        before.search_query@,
        show_membership_events,
    )
    &&& text::opt_view(after.last_seen_newest) == last_id(items@, items@.len() as int)
    &&& after == (timeline::State {
        items,
        first_urls: after.first_urls,
        search_matches: after.search_matches,
        last_seen_newest: after.last_seen_newest,
        scroll_anchor: if over {
            None
        } else {
            before.scroll_anchor
        },
        at_bottom: bottom,
        suppress_unread_divider: bottom || (before.suppress_unread_divider && !newer(
            before,
            items@,
        )),
        ..before
    })
}

/// The first event id.
fn oldest(items: &Vec<TimelineItem>) -> (r: Option<&String>)
    ensures
        match (r, first_id(items@, 0)) {
            (Some(s), Some(id)) => s@ == id,
            (None, None) => true,
            _ => false,
        },
{
    let mut i: usize = 0;
    while i < items.len()
        invariant
            i <= items@.len(),
            first_id(items@, 0) == first_id(items@, i as int),
        decreases items@.len() - i,
    {
        if let Some(id) = &items[i].event_id {
            return Some(id);
        }
        i = i + 1;
    }
    None
}

/// The last event id.
fn newest(items: &Vec<TimelineItem>) -> (r: Option<String>)
    ensures
        text::opt_view(r) == last_id(items@, items@.len() as int),
{
    let mut n: usize = items.len();
    while n > 0
        invariant
            n <= items@.len(),
            last_id(items@, items@.len() as int) == last_id(items@, n as int),
        decreases n,
    {
        if let Some(id) = &items[n - 1].event_id {
            return Some(id.clone());
        }
        n = n - 1;
    }
    None
}

/// Whether an item has the id.
fn holds_event(items: &Vec<TimelineItem>, id: &str) -> (r: bool)
    ensures
        r == has_event(items@, id@),
{
    let mut i: usize = 0;
    while i < items.len()
        invariant
            i <= items@.len(),
            forall|k: int|
                0 <= k < i ==> text::opt_view((#[trigger] items@[k]).event_id) != Some(id@),
        decreases items@.len() - i,
    {
        if timeline::opt_is(&items[i].event_id, id) {
            assert(text::opt_view(items@[i as int].event_id) == Some(id@));
            return true;
        }
        i = i + 1;
    }
    false
}

/// Takes a snapshot in; says whether it starts over.
pub fn take_snapshot(
    t: &mut timeline::State,
    items: Vec<TimelineItem>,
    first_urls: Vec<Option<String>>,
    show_membership_events: bool,
) -> (over: bool)
    requires
        old(t).wf(),
        previews::opt_views(first_urls@) == previews::item_links(items@),
    ensures
        final(t).wf(),
        snapshot_taken(*old(t), *final(t), items, show_membership_events),
        over == starts_over(old(t).items@, items@),
{
    let over = match oldest(&t.items) {
        Some(id) => !holds_event(&items, id.as_str()),
        None => false,
    };
    let last = newest(&items);
    let changed = match (&last, &t.last_seen_newest) {
        (Some(a), Some(b)) => !text::str_eq(a.as_str(), b.as_str()),
        (None, None) => false,
        _ => true,
    };
    let matches = search::find_matches(
        &items,
        t.search_open,
        t.search_query.as_str(),
        show_membership_events,
    );
    let bottom = t.at_bottom || over;
    let suppress = bottom || (t.suppress_unread_divider && !changed);
    t.items = items;
    t.first_urls = first_urls;
    t.search_matches = matches;
    t.last_seen_newest = last;
    if over {
        t.scroll_anchor = None;
    }
    t.at_bottom = bottom;
    t.suppress_unread_divider = suppress;
    over
}

// ---------------------------------------------------------------------------
// What it asks for.
// ---------------------------------------------------------------------------
/// Whether a task fetches a link's preview.
pub open spec fn preview_task(t: Task, link: Seq<char>) -> bool {
    match (tweets::tweet_endpoint(link), steam::app_endpoint(link)) {
        (Some(api), _) => t matches Task::FetchTweet { url, api_url } && url@ == link && api_url@
            == api,
        (None, Some(api)) => t matches Task::FetchSteam { url, api_url } && url@ == link && api_url@
            == api,
        (None, None) => t matches Task::Send(ClientCommand::FetchUrlPreview { url }) && url@
            == link,
    }
}

/// Whether a link's preview can be fetched: without a worker only where its
/// host has an API of its own.
pub open spec fn fetchable(link: Seq<char>, connected: bool) -> bool {
    connected || tweets::tweet_endpoint(link) is Some || steam::app_endpoint(link) is Some
}

/// Those of some links whose previews can be fetched.
pub open spec fn fetchable_links(links: Seq<Seq<char>>, connected: bool) -> Seq<Seq<char>>
    decreases links.len(),
{
    if links.len() == 0 {
        Seq::empty()
    } else {
        let before = fetchable_links(links.drop_last(), connected);
        if fetchable(links.last(), connected) {
            before.push(links.last())
        } else {
            before
        }
    }
}

/// Whether these fetch the previews of some links, one for one.
pub open spec fn fetch_previews(r: Seq<Task>, links: Seq<Seq<char>>) -> bool {
    &&& r.len() == links.len()
    &&& forall|k: int| 0 <= k < r.len() ==> preview_task(#[trigger] r[k], links[k])
}

/// The tasks of some previews.
fn preview_tasks(asks: Vec<Ask>, connected: bool, Ghost(links): Ghost<Seq<Seq<char>>>) -> (r: Vec<
    Task,
>)
    requires
        previews::ask_for_all(asks@, links),
    ensures
        fetch_previews(r@, fetchable_links(links, connected)),
{
    let mut r: Vec<Task> = Vec::new();
    let mut i: usize = 0;
    assert(links.take(0).len() == 0);
    while i < asks.len()
        invariant
            i <= asks@.len(),
            previews::ask_for_all(asks@, links),
            fetch_previews(r@, fetchable_links(links.take(i as int), connected)),
        decreases asks@.len() - i,
    {
        let ghost next = links.take(i + 1);
        let ghost made = r@;
        proof {
            assert(next.drop_last() =~= links.take(i as int));
            assert(next.last() == links[i as int]);
            assert(previews::asks_for(asks@[i as int], links[i as int]));
        }
        match &asks[i] {
            Ask::Tweet { url, api_url } => {
                r.push(Task::FetchTweet { url: url.clone(), api_url: api_url.clone() });
            },
            Ask::Steam { url, api_url } => {
                r.push(Task::FetchSteam { url: url.clone(), api_url: api_url.clone() });
            },
            Ask::Link { url } => {
                if connected {
                    r.push(Task::Send(ClientCommand::FetchUrlPreview { url: url.clone() }));
                }
            },
        }
        proof {
            let told = fetchable_links(next, connected);
            assert forall|k: int| 0 <= k < r@.len() implies preview_task(
                #[trigger] r@[k],
                told[k],
            ) by {
                if k < made.len() {
                    assert(r@[k] == made[k]);
                    assert(told[k] == fetchable_links(links.take(i as int), connected)[k]);
                }
            }
        }
        i = i + 1;
    }
    assert(links.take(asks@.len() as int) =~= links);
    r
}

/// The links whose previews a snapshot asks for.
pub open spec fn wanted_links(before: App, items: Seq<TimelineItem>) -> Seq<Seq<char>> {
    if before.edited.privacy.enable_link_previews {
        previews::to_ask(
            before.previews@,
            previews::item_links(items),
            items.len() as int,
        )
    } else {
        Seq::empty()
    }
}

/// The emoji that a snapshot shows and that are not known: its reactions',
/// then its texts'.
pub open spec fn wanted_emoji(before: App, items: Seq<TimelineItem>) -> Seq<Seq<char>> {
    let known = before.media.known_emoji();
    media::outside(media::item_keys(items, before.emoji_packs@, items.len() as int), known)
        + media::outside(media::body_emoji(items, items.len() as int), known)
}

/// The media that a snapshot shows and that is not known.
pub open spec fn wanted_media(before: App, items: Seq<TimelineItem>) -> Seq<Seq<char>> {
    media::outside(media::media_of(items, items.len() as int), before.media.known())
}

/// The previews after a snapshot.
pub open spec fn previews_after(before: App, items: Seq<TimelineItem>) -> previews::PreviewMaps {
    if before.edited.privacy.enable_link_previews {
        previews::all_marked(before.previews@, previews::item_links(items), items.len() as int)
    } else {
        before.previews@
    }
}

/// What a snapshot makes of the application but for its images.
pub open spec fn snapshot_kept(before: App, after: App, items: Vec<TimelineItem>) -> bool {
    &&& snapshot_taken(
        before.timeline,
        after.timeline,
        items,
        before.edited.configs.chat.show_membership_events,
    )
    &&& after.sticker_collection@ == stickers::harvested(before.sticker_collection@, items@)
    &&& after.previews@ == previews_after(before, items@)
    &&& after == (App {
        timeline: after.timeline,
        sticker_collection: after.sticker_collection,
        previews: after.previews,
        media: after.media,
        ..before
    })
}

/// What a snapshot makes of the images, and which it asks for.
pub open spec fn images_wanted(
    before: App,
    after: App,
    items: Seq<TimelineItem>,
    media_tasks: Seq<Task>,
    emoji_tasks: Seq<Task>,
) -> bool {
    let start = before.media;
    let mid = media::State {
        pending: after.media.pending,
        pending_urls: after.media.pending_urls,
        ..start
    };
    let commands = effects::fetch_commands(
        after.media.pending@.skip(start.pending@.len() as int),
    );
    &&& media::media_asked(start, mid, before.connected, wanted_media(before, items), commands)
    &&& media_tasks == tasks::sends(commands)
    &&& media::emoji_asked(
        mid,
        after.media,
        wanted_emoji(before, items),
        media::missing(wanted_emoji(before, items), start.known_emoji()),
    )
    &&& effects::fetch_emoji(
        emoji_tasks,
        media::missing(wanted_emoji(before, items), start.known_emoji()),
    )
}

/// The tasks of a snapshot: the previews, the view, the images, the receipt,
/// and the stickers.
pub open spec fn snapshot_tasks(
    before: App,
    room_id: String,
    items: Seq<TimelineItem>,
    preview_tasks: Seq<Task>,
    media_tasks: Seq<Task>,
    emoji_tasks: Seq<Task>,
) -> Seq<Task> {
    let over = starts_over(before.timeline.items@, items);
    preview_tasks + (if over {
        seq![Task::ScrollToBottom]
    } else {
        Seq::empty()
    }) + media_tasks + emoji_tasks + (if before.timeline.at_bottom || over {
        tasks::sent(
            before,
            ClientCommand::MarkRoomRead {
                room_id,
                public_receipt: before.edited.privacy.send_read_receipts,
            },
        )
    } else {
        Seq::empty()
    }) + if stickers::unseen(items, before.sticker_collection@, items.len() as int).len() > 0 {
        seq![Task::SaveStickers]
    } else {
        Seq::empty()
    }
}

/// What a snapshot leaves, and what it asks for: nothing where another room is
/// open.
pub open spec fn timeline_updated(
    before: App,
    after: App,
    room_id: String,
    items: Vec<TimelineItem>,
    r: Seq<Task>,
) -> bool {
    if !timeline::is_this(before.timeline.room_id, room_id@) {
        after == before && r.len() == 0
    } else {
        &&& snapshot_kept(before, after, items)
        &&& exists|p: Seq<Task>, m: Seq<Task>, e: Seq<Task>|
            #![trigger fetch_previews(p, fetchable_links(wanted_links(before, items@), before.connected)), images_wanted(before, after, items@, m, e)]
            fetch_previews(
                p,
                fetchable_links(wanted_links(before, items@), before.connected),
            ) && images_wanted(before, after, items@, m, e) && r == snapshot_tasks(
                before,
                before.timeline.room_id->0,
                items@,
                p,
                m,
                e,
            )
    }
}

/// The texts of two lists, one behind the other.
fn join_lists(a: Vec<String>, b: Vec<String>) -> (r: Vec<String>)
    ensures
        text::views(r@) == text::views(a@) + text::views(b@),
{
    let mut r = a;
    let mut rest = b;
    let ghost x = r@;
    let ghost y = rest@;
    r.append(&mut rest);
    assert(text::views(r@) =~= text::views(x) + text::views(y));
    r
}

/// Asks for the images of a snapshot.
fn want_images(app: &mut App, urls: Vec<String>, emojis: Vec<String>) -> (r: (Vec<Task>, Vec<Task>))
    requires
        old(app).wf(),
    ensures
        final(app).wf(),
        *final(app) == (App { media: final(app).media, ..*old(app) }),
        ({
            let start = old(app).media;
            let mid = media::State {
                pending: final(app).media.pending,
                pending_urls: final(app).media.pending_urls,
                ..start
            };
            let commands = effects::fetch_commands(
                final(app).media.pending@.skip(start.pending@.len() as int),
            );
            let asked = media::missing(text::views(emojis@), start.known_emoji());
            &&& media::media_asked(start, mid, old(app).connected, text::views(urls@), commands)
            &&& r.0@ == tasks::sends(commands)
            &&& media::emoji_asked(mid, final(app).media, text::views(emojis@), asked)
            &&& effects::fetch_emoji(r.1@, asked)
        }),
{
    let m = effects::want_media(app, &urls);
    let ghost mid = *app;
    let e = effects::want_emoji(app, emojis);
    proof {
        let start = old(app).media;
        let shown = media::State {
            pending: app.media.pending,
            pending_urls: app.media.pending_urls,
            ..start
        };
        assert(mid.media == shown);
    }
    (m, e)
}

/// Marks the open room read, where the view is at its newest message.
fn read_if_at_bottom(app: &App) -> (r: Vec<Task>)
    requires
        app.timeline.room_id is Some,
    ensures
        r@ == if app.timeline.at_bottom {
            tasks::sent(
                *app,
                ClientCommand::MarkRoomRead {
                    room_id: app.timeline.room_id->0,
                    public_receipt: app.edited.privacy.send_read_receipts,
                },
            )
        } else {
            Seq::empty()
        },
{
    if !app.timeline.at_bottom {
        return tasks::nothing();
    }
    match &app.timeline.room_id {
        Some(room_id) => tasks::send_cmd(
            app,
            ClientCommand::MarkRoomRead {
                room_id: room_id.clone(),
                public_receipt: app.edited.privacy.send_read_receipts,
            },
        ),
        None => tasks::nothing(),
    }
}

/// Takes a snapshot in but for its images: the tasks of its previews, whether
/// it starts over, and whether it held new stickers.
fn keep_snapshot(app: &mut App, items: Vec<TimelineItem>) -> (r: (Vec<Task>, bool, bool))
    requires
        old(app).wf(),
    ensures
        final(app).wf(),
        snapshot_kept(*old(app), *final(app), items),
        final(app).media == old(app).media,
        fetch_previews(
            r.0@,
            fetchable_links(wanted_links(*old(app), items@), old(app).connected),
        ),
        r.1 == starts_over(old(app).timeline.items@, items@),
        r.2 == (stickers::unseen(items@, old(app).sticker_collection@, items@.len() as int).len()
            > 0),
{
    let harvested = stickers::harvest_stickers(&mut app.sticker_collection, &items);
    let links = previews::first_links(&items);
    assert(links@.len() == previews::opt_views(links@).len() && items@.len()
        == previews::item_links(items@).len());
    let enabled = app.edited.privacy.enable_link_previews;
    let asks = previews::request_url_previews(&mut app.previews, &links, enabled);
    let connected = app.connected;
    let p = preview_tasks(asks, connected, Ghost(wanted_links(*old(app), items@)));
    let show = app.edited.configs.chat.show_membership_events;
    let over = take_snapshot(&mut app.timeline, items, links, show);
    (p, over, harvested)
}

/// The tasks of a snapshot, in order.
fn assemble(
    previews: Vec<Task>,
    over: bool,
    images: (Vec<Task>, Vec<Task>),
    read: Vec<Task>,
    harvested: bool,
) -> (r: Vec<Task>)
    ensures
        r@ == previews@ + (if over {
            seq![Task::ScrollToBottom]
        } else {
            Seq::empty()
        }) + images.0@ + images.1@ + read@ + if harvested {
            seq![Task::SaveStickers]
        } else {
            Seq::empty()
        },
{
    let (mut m, mut e) = images;
    let mut receipt = read;
    let mut r = previews;
    if over {
        r.push(Task::ScrollToBottom);
    }
    r.append(&mut m);
    r.append(&mut e);
    r.append(&mut receipt);
    if harvested {
        r.push(Task::SaveStickers);
    }
    assert(r@ =~= previews@ + (if over {
        seq![Task::ScrollToBottom]
    } else {
        Seq::empty()
    }) + images.0@ + images.1@ + read@ + if harvested {
        seq![Task::SaveStickers]
    } else {
        Seq::empty()
    });
    r
}

/// Takes a snapshot of the open room's timeline in. One of another room is
/// dropped.
pub fn update_timeline(app: &mut App, room_id: String, items: Vec<TimelineItem>) -> (r: Vec<Task>)
    requires
        old(app).wf(),
    ensures
        final(app).wf(),
        timeline_updated(*old(app), *final(app), room_id, items, r@),
{
    if !timeline::opt_is(&app.timeline.room_id, room_id.as_str()) {
        return tasks::nothing();
    }
    let urls = media::image_urls_in_timeline(&items, &app.media);
    let keys = media::unicode_reaction_keys(&items, &app.emoji_packs, &app.media);
    let typed = media::unicode_body_emojis(&items, &app.media);
    let emojis = join_lists(keys, typed);
    let (p, over, harvested) = keep_snapshot(app, items);
    let ghost mid = *app;
    let images = want_images(app, urls, emojis);
    let read = read_if_at_bottom(app);
    proof {
        assert(images_wanted(*old(app), *app, items@, images.0@, images.1@));
        assert(snapshot_kept(*old(app), *app, items));
    }
    let ghost a = p@;
    let ghost m = images.0@;
    let ghost e = images.1@;
    let r = assemble(p, over, images, read, harvested);
    proof {
        assert(fetch_previews(
            a,
            fetchable_links(wanted_links(*old(app), items@), old(app).connected),
        ));
        assert(r@ == snapshot_tasks(*old(app), old(app).timeline.room_id->0, items@, a, m, e));
    }
    r
}

// ---------------------------------------------------------------------------
// Laws.
// ---------------------------------------------------------------------------
/// A snapshot of a room that is not open changes nothing.
pub proof fn law_other_rooms_do_not_show(
    before: App,
    after: App,
    room_id: String,
    items: Vec<TimelineItem>,
    r: Seq<Task>,
)
    requires
        timeline_updated(before, after, room_id, items, r),
        !timeline::is_this(before.timeline.room_id, room_id@),
    ensures
        after == before,
        r.len() == 0,
{
}

/// The first links stay index-parallel to the items.
pub proof fn law_links_stay_parallel(
    before: timeline::State,
    after: timeline::State,
    items: Vec<TimelineItem>,
    show_membership_events: bool,
)
    requires
        snapshot_taken(before, after, items, show_membership_events),
    ensures
        after.first_urls@.len() == after.items@.len(),
{
    assert(previews::opt_views(after.first_urls@).len() == previews::item_links(items@).len());
}

/// At the newest message everything is read as it comes: the divider never
/// shows there.
pub proof fn law_the_bottom_is_read(
    before: timeline::State,
    after: timeline::State,
    items: Vec<TimelineItem>,
    show_membership_events: bool,
)
    requires
        snapshot_taken(before, after, items, show_membership_events),
        after.at_bottom,
    ensures
        after.suppress_unread_divider,
{
}

/// Further up, a new message makes the divider show again, and anything less
/// than that leaves it as it is.
pub proof fn law_new_messages_show_the_divider(
    before: timeline::State,
    after: timeline::State,
    items: Vec<TimelineItem>,
    show_membership_events: bool,
)
    requires
        snapshot_taken(before, after, items, show_membership_events),
        !after.at_bottom,
    ensures
        newer(before, items@) ==> !after.suppress_unread_divider,
        !newer(before, items@) ==> after.suppress_unread_divider
            == before.suppress_unread_divider,
{
}

/// Where previews are switched off, no snapshot asks for one.
pub proof fn law_previews_follow_privacy(before: App, items: Seq<TimelineItem>)
    requires
        !before.edited.privacy.enable_link_previews,
    ensures
        wanted_links(before, items).len() == 0,
        previews_after(before, items) == before.previews@,
{
}

} // verus!
