//! Which images are there, on their way, or not to be had. The images
//! themselves are kept by whoever draws them.

use vstd::prelude::*;

use crate::commands;
use crate::commands::ClientCommand;
use crate::events::{
    CustomEmoji, EmojiPack, Reaction, RequestId, TimelineItem, TimelineItemContent,
};
use crate::screens::timeline::body;
use crate::text;
use crate::word_set::WordSet;

verus! {

/// What is known of images.
#[derive(Debug)]
pub struct State {
    /// The media that is there, by URL.
    pub cached: WordSet,
    /// The fetches under way.
    pub pending: Vec<(RequestId, String)>,
    /// What is on its way, by URL.
    pub pending_urls: WordSet,
    /// What could not be had: it is not asked for again.
    pub failed: WordSet,
    pub emoji: WordSet,
    pub emoji_pending: WordSet,
    pub emoji_failed: WordSet,
    pub web_images: WordSet,
    pub web_pending: WordSet,
    /// The fetches whose bytes go to a file.
    pub download_requests: Vec<RequestId>,
}

impl State {
    /// Nothing is there.
    pub open spec fn fresh(&self) -> bool {
        let none = Set::<Seq<char>>::empty();
        &&& self.cached@ == none
        &&& self.pending@.len() == 0
        &&& self.pending_urls@ == none
        &&& self.failed@ == none
        &&& self.emoji@ == none
        &&& self.emoji_pending@ == none
        &&& self.emoji_failed@ == none
        &&& self.web_images@ == none
        &&& self.web_pending@ == none
        &&& self.download_requests@.len() == 0
    }

    /// The media that is not to be asked for: it is there, on its way, or not
    /// to be had.
    pub open spec fn known(&self) -> Set<Seq<char>> {
        self.cached@ + self.pending_urls@ + self.failed@
    }

    /// The emoji that are not to be asked for.
    pub open spec fn known_emoji(&self) -> Set<Seq<char>> {
        self.emoji@ + self.emoji_pending@ + self.emoji_failed@
    }

    /// The web images that are not to be asked for.
    pub open spec fn known_web(&self) -> Set<Seq<char>> {
        self.web_images@ + self.web_pending@
    }

    /// Whether media is not to be asked for.
    pub fn is_known(&self, url: &str) -> (r: bool)
        ensures
            r == self.known().contains(url@),
    {
        self.cached.contains(url) || self.pending_urls.contains(url) || self.failed.contains(url)
    }

    /// Whether an emoji is not to be asked for.
    pub fn is_emoji_known(&self, emoji: &str) -> (r: bool)
        ensures
            r == self.known_emoji().contains(emoji@),
    {
        self.emoji.contains(emoji) || self.emoji_pending.contains(emoji)
            || self.emoji_failed.contains(emoji)
    }

    /// Whether a web image is not to be asked for.
    pub fn is_web_image_known(&self, url: &str) -> (r: bool)
        ensures
            r == self.known_web().contains(url@),
    {
        self.web_images.contains(url) || self.web_pending.contains(url)
    }
}

impl Default for State {
    fn default() -> (r: Self)
        ensures
            r.fresh(),
    {
        State {
            cached: WordSet::new(),
            pending: Vec::new(),
            pending_urls: WordSet::new(),
            failed: WordSet::new(),
            emoji: WordSet::new(),
            emoji_pending: WordSet::new(),
            emoji_failed: WordSet::new(),
            web_images: WordSet::new(),
            web_pending: WordSet::new(),
            download_requests: Vec::new(),
        }
    }
}

// ---------------------------------------------------------------------------
// Asking for what is missing.
// ---------------------------------------------------------------------------
/// Those of some names that are to be asked for: what is not known, each once,
/// in order.
pub open spec fn missing(names: Seq<Seq<char>>, known: Set<Seq<char>>) -> Seq<Seq<char>>
    decreases names.len(),
{
    if names.len() == 0 {
        Seq::empty()
    } else {
        let before = missing(names.drop_last(), known);
        if known.contains(names.last()) || before.contains(names.last()) {
            before
        } else {
            before.push(names.last())
        }
    }
}

/// What was marked on the way is what was asked for.
proof fn lemma_marked(known: Set<Seq<char>>, asked: Seq<Seq<char>>, x: Seq<char>)
    ensures
        known + asked.push(x).to_set() == (known + asked.to_set()).insert(x),
        (known + asked.to_set()).contains(x) == (known.contains(x) || asked.contains(x)),
{
    let a = asked.push(x);
    assert forall|q: Seq<char>| a.contains(q) == (asked.contains(q) || q == x) by {
        if asked.contains(q) {
            let k = choose|k: int| 0 <= k < asked.len() && asked[k] == q;
            assert(a[k] == q);
        }
        if q == x {
            assert(a[asked.len() as int] == q);
        }
        if a.contains(q) && q != x {
            let k = choose|k: int| 0 <= k < a.len() && a[k] == q;
            assert(asked[k] == q);
        }
    }
    assert(known + a.to_set() =~= (known + asked.to_set()).insert(x));
}

/// Whether these commands fetch these URLs, under the ids that are recorded.
pub open spec fn fetches(
    commands: Seq<ClientCommand>,
    recorded: Seq<(RequestId, String)>,
    urls: Seq<Seq<char>>,
) -> bool {
    &&& commands.len() == urls.len()
    &&& recorded.len() == urls.len()
    &&& forall|k: int|
        0 <= k < urls.len() ==> (#[trigger] recorded[k]).1@ == urls[k] && commands[k] == (
        ClientCommand::FetchMedia { mxc_url: recorded[k].1, request_id: recorded[k].0 })
}

/// What asking for media leaves.
pub open spec fn media_asked(
    before: State,
    after: State,
    connected: bool,
    urls: Seq<Seq<char>>,
    commands: Seq<ClientCommand>,
) -> bool {
    if !connected {
        after == before && commands.len() == 0
    } else {
        let wanted = missing(urls, before.known());
        &&& after.pending_urls@ == before.pending_urls@ + wanted.to_set()
        &&& after.pending@.len() == before.pending@.len() + wanted.len()
        &&& after.pending@.take(before.pending@.len() as int) == before.pending@
        &&& fetches(commands, after.pending@.skip(before.pending@.len() as int), wanted)
        &&& after == (State {
            pending: after.pending,
            pending_urls: after.pending_urls,
            ..before
        })
    }
}

/// Asks for the media that is not known, while there is a worker to ask. What
/// is asked for counts as known at once, so that nothing is asked for twice.
pub fn ensure_media_fetched(state: &mut State, connected: bool, urls: &Vec<String>) -> (r: Vec<
    ClientCommand,
>)
    ensures
        media_asked(*old(state), *final(state), connected, text::views(urls@), r@),
{
    let mut r: Vec<ClientCommand> = Vec::new();
    if !connected {
        return r;
    }
    let ghost all = text::views(urls@);
    let ghost known = state.known();
    let ghost first = state.pending@;
    let mut i: usize = 0;
    proof {
        assert(all.take(0).len() == 0);
        let none = missing(all.take(0), known);
        assert(none.len() == 0);
        assert(state.pending_urls@ + none.to_set() =~= state.pending_urls@);
        assert(known + none.to_set() =~= known);
        assert(state.pending@.take(first.len() as int) =~= first);
        assert(state.pending@.skip(first.len() as int).len() == 0);
    }
    while i < urls.len()
        invariant
            i <= urls@.len(),
            all == text::views(urls@),
            known == old(state).known(),
            first == old(state).pending@,
            state.known() == known + missing(all.take(i as int), known).to_set(),
            state.pending_urls@ == old(state).pending_urls@ + missing(
                all.take(i as int),
                known,
            ).to_set(),
            state.pending@.len() == first.len() + r@.len(),
            state.pending@.take(first.len() as int) == first,
            fetches(
                r@,
                state.pending@.skip(first.len() as int),
                missing(all.take(i as int), known),
            ),
            *state == (State {
                pending: state.pending,
                pending_urls: state.pending_urls,
                ..*old(state)
            }),
        decreases urls@.len() - i,
    {
        let ghost asked = missing(all.take(i as int), known);
        let ghost next = all.take(i + 1);
        let ghost x = urls@[i as int]@;
        proof {
            assert(next.drop_last() =~= all.take(i as int));
            assert(next.last() == x);
            lemma_marked(known, asked, x);
        }
        if !state.is_known(urls[i].as_str()) {
            let request_id: RequestId = commands::new_request_id();
            let ghost before = state.pending@;
            let ghost was = *state;
            let url = urls[i].clone();
            state.pending.push((request_id, url.clone()));
            state.pending_urls.insert(url.clone());
            let ghost made = r@;
            r.push(ClientCommand::FetchMedia { mxc_url: url, request_id });
            proof {
                assert(missing(next, known) == asked.push(x));
                lemma_marked(old(state).pending_urls@, asked, x);
                assert(state.pending@.take(first.len() as int) =~= first);
                let rec = state.pending@.skip(first.len() as int);
                let old_rec = before.skip(first.len() as int);
                assert(rec =~= old_rec.push((request_id, url)));
                assert forall|k: int| 0 <= k < asked.push(x).len() implies (
                #[trigger] rec[k]).1@ == asked.push(x)[k] && r@[k] == (ClientCommand::FetchMedia {
                    mxc_url: rec[k].1,
                    request_id: rec[k].0,
                }) by {
                    if k < asked.len() {
                        assert(rec[k] == old_rec[k]);
                        assert(r@[k] == made[k]);
                    }
                }
                assert(state.known() =~= was.known().insert(x));
            }
        }
        i = i + 1;
    }
    assert(all.take(urls@.len() as int) =~= all);
    r
}

/// What asking for emoji leaves.
pub open spec fn emoji_asked(
    before: State,
    after: State,
    emojis: Seq<Seq<char>>,
    asked: Seq<Seq<char>>,
) -> bool {
    &&& asked == missing(emojis, before.known_emoji())
    &&& after.emoji_pending@ == before.emoji_pending@ + asked.to_set()
    &&& after == (State { emoji_pending: after.emoji_pending, ..before })
}

/// Says which emoji are to be fetched: what is not known, each once.
pub fn ensure_emoji_fetched(state: &mut State, emojis: Vec<String>) -> (r: Vec<String>)
    ensures
        emoji_asked(*old(state), *final(state), text::views(emojis@), text::views(r@)),
{
    let mut r: Vec<String> = Vec::new();
    let ghost all = text::views(emojis@);
    let ghost known = state.known_emoji();
    let mut i: usize = 0;
    proof {
        assert(all.take(0).len() == 0);
        let none = missing(all.take(0), known);
        assert(text::views(r@) =~= none);
        assert(state.emoji_pending@ + none.to_set() =~= state.emoji_pending@);
        assert(known + none.to_set() =~= known);
    }
    while i < emojis.len()
        invariant
            i <= emojis@.len(),
            all == text::views(emojis@),
            known == old(state).known_emoji(),
            text::views(r@) == missing(all.take(i as int), known),
            state.known_emoji() == known + text::views(r@).to_set(),
            state.emoji_pending@ == old(state).emoji_pending@ + text::views(r@).to_set(),
            *state == (State { emoji_pending: state.emoji_pending, ..*old(state) }),
        decreases emojis@.len() - i,
    {
        let ghost asked = text::views(r@);
        let ghost next = all.take(i + 1);
        let ghost x = emojis@[i as int]@;
        proof {
            assert(next.drop_last() =~= all.take(i as int));
            assert(next.last() == x);
            lemma_marked(known, asked, x);
        }
        if !state.is_emoji_known(emojis[i].as_str()) {
            let ghost was = *state;
            state.emoji_pending.insert(emojis[i].clone());
            r.push(emojis[i].clone());
            proof {
                assert(text::views(r@) =~= asked.push(x));
                lemma_marked(old(state).emoji_pending@, asked, x);
                assert(state.known_emoji() =~= was.known_emoji().insert(x));
            }
        }
        i = i + 1;
    }
    assert(all.take(emojis@.len() as int) =~= all);
    r
}

/// What asking for web images leaves.
pub open spec fn web_asked(
    before: State,
    after: State,
    urls: Seq<Seq<char>>,
    asked: Seq<Seq<char>>,
) -> bool {
    &&& asked == missing(urls, before.known_web())
    &&& after.web_pending@ == before.web_pending@ + asked.to_set()
    &&& after == (State { web_pending: after.web_pending, ..before })
}

/// Says which web images are to be fetched: what is not known, each once.
pub fn ensure_web_images(state: &mut State, urls: Vec<String>) -> (r: Vec<String>)
    ensures
        web_asked(*old(state), *final(state), text::views(urls@), text::views(r@)),
{
    let mut r: Vec<String> = Vec::new();
    let ghost all = text::views(urls@);
    let ghost known = state.known_web();
    let mut i: usize = 0;
    proof {
        assert(all.take(0).len() == 0);
        let none = missing(all.take(0), known);
        assert(text::views(r@) =~= none);
        assert(state.web_pending@ + none.to_set() =~= state.web_pending@);
        assert(known + none.to_set() =~= known);
    }
    while i < urls.len()
        invariant
            i <= urls@.len(),
            all == text::views(urls@),
            known == old(state).known_web(),
            text::views(r@) == missing(all.take(i as int), known),
            state.known_web() == known + text::views(r@).to_set(),
            state.web_pending@ == old(state).web_pending@ + text::views(r@).to_set(),
            *state == (State { web_pending: state.web_pending, ..*old(state) }),
        decreases urls@.len() - i,
    {
        let ghost asked = text::views(r@);
        let ghost next = all.take(i + 1);
        let ghost x = urls@[i as int]@;
        proof {
            assert(next.drop_last() =~= all.take(i as int));
            assert(next.last() == x);
            lemma_marked(known, asked, x);
        }
        if !state.is_web_image_known(urls[i].as_str()) {
            let ghost was = *state;
            state.web_pending.insert(urls[i].clone());
            r.push(urls[i].clone());
            proof {
                assert(text::views(r@) =~= asked.push(x));
                lemma_marked(old(state).web_pending@, asked, x);
                assert(state.known_web() =~= was.known_web().insert(x));
            }
        }
        i = i + 1;
    }
    assert(all.take(urls@.len() as int) =~= all);
    r
}

// ---------------------------------------------------------------------------
// What a timeline shows.
// ---------------------------------------------------------------------------
/// Those of some names that are outside a set, in order.
pub open spec fn outside(names: Seq<Seq<char>>, known: Set<Seq<char>>) -> Seq<Seq<char>>
    decreases names.len(),
{
    if names.len() == 0 {
        Seq::empty()
    } else {
        let before = outside(names.drop_last(), known);
        if known.contains(names.last()) {
            before
        } else {
            before.push(names.last())
        }
    }
}

/// One name more.
proof fn lemma_outside(names: Seq<Seq<char>>, known: Set<Seq<char>>, x: Seq<char>)
    ensures
        outside(names.push(x), known) == if known.contains(x) {
            outside(names, known)
        } else {
            outside(names, known).push(x)
        },
{
    assert(names.push(x).drop_last() =~= names);
}

/// A name, where there is one.
pub open spec fn opt_name(o: Option<String>) -> Seq<Seq<char>> {
    match o {
        Some(s) => seq![s@],
        None => Seq::empty(),
    }
}

/// The media that an item's own content shows.
pub open spec fn content_media(c: TimelineItemContent) -> Seq<Seq<char>> {
    match c {
        TimelineItemContent::Image { url, .. } => seq![url@],
        TimelineItemContent::Sticker { url, .. } => seq![url@],
        _ => Seq::empty(),
    }
}

/// The media among the first `n` reactions: their keys are URLs.
pub open spec fn reaction_media(rs: Seq<Reaction>, n: int) -> Seq<Seq<char>>
    decreases n,
{
    if n <= 0 {
        Seq::empty()
    } else {
        let before = reaction_media(rs, n - 1);
        if body::is_mxc(rs[n - 1].key@) {
            before.push(rs[n - 1].key@)
        } else {
            before
        }
    }
}

/// The media that an item shows: its content, its reactions, the sender's
/// avatar, and the image that it quotes.
pub open spec fn item_media(item: TimelineItem) -> Seq<Seq<char>> {
    content_media(item.content) + reaction_media(
        item.reactions@,
        item.reactions@.len() as int,
    ) + opt_name(item.sender_avatar_url) + match item.in_reply_to {
        Some(r) => opt_name(r.image_url),
        None => Seq::empty(),
    }
}

/// The media that the first `n` items show.
pub open spec fn media_of(items: Seq<TimelineItem>, n: int) -> Seq<Seq<char>>
    decreases n,
{
    if n <= 0 {
        Seq::empty()
    } else {
        media_of(items, n - 1) + item_media(items[n - 1])
    }
}

/// Adds a name that is outside what is known.
fn push_unknown(
    out: &mut Vec<String>,
    state: &State,
    url: &String,
    Ghost(names): Ghost<Seq<Seq<char>>>,
)
    requires
        text::views(old(out)@) == outside(names, state.known()),
    ensures
        text::views(final(out)@) == outside(names.push(url@), state.known()),
{
    proof {
        lemma_outside(names, state.known(), url@);
    }
    if !state.is_known(url.as_str()) {
        let ghost before = text::views(out@);
        out.push(url.clone());
        assert(text::views(out@) =~= before.push(url@));
    }
}

/// Adds the media of an item.
fn push_item_media(
    out: &mut Vec<String>,
    state: &State,
    item: &TimelineItem,
    Ghost(names): Ghost<Seq<Seq<char>>>,
)
    requires
        text::views(old(out)@) == outside(names, state.known()),
    ensures
        text::views(final(out)@) == outside(names + item_media(*item), state.known()),
{
    let ghost mut acc = names;
    match &item.content {
        TimelineItemContent::Image { url, .. } => {
            push_unknown(out, state, url, Ghost(acc));
            proof {
                acc = acc.push(url@);
            }
        },
        TimelineItemContent::Sticker { url, .. } => {
            push_unknown(out, state, url, Ghost(acc));
            proof {
                acc = acc.push(url@);
            }
        },
        _ => {},
    }
    assert(acc =~= names + content_media(item.content));
    let ghost base = acc;
    let mut i: usize = 0;
    assert(acc =~= base + reaction_media(item.reactions@, 0));
    while i < item.reactions.len()
        invariant
            i <= item.reactions@.len(),
            acc == base + reaction_media(item.reactions@, i as int),
            text::views(out@) == outside(acc, state.known()),
        decreases item.reactions@.len() - i,
    {
        if body::is_media_key(item.reactions[i].key.as_str()) {
            push_unknown(out, state, &item.reactions[i].key, Ghost(acc));
            proof {
                let k = item.reactions@[i as int].key@;
                assert(acc.push(k) =~= base + reaction_media(item.reactions@, i as int).push(k));
                acc = acc.push(k);
            }
        }
        i = i + 1;
    }
    let ghost done = acc;
    if let Some(url) = &item.sender_avatar_url {
        push_unknown(out, state, url, Ghost(acc));
        proof {
            acc = acc.push(url@);
        }
    }
    assert(acc =~= done + opt_name(item.sender_avatar_url));
    let ghost faces = acc;
    if let Some(reply) = &item.in_reply_to {
        if let Some(url) = &reply.image_url {
            push_unknown(out, state, url, Ghost(acc));
            proof {
                acc = acc.push(url@);
            }
        }
    }
    assert(acc =~= names + item_media(*item));
}

/// The media of a timeline that is not known, as often as it occurs.
pub fn image_urls_in_timeline(items: &Vec<TimelineItem>, state: &State) -> (r: Vec<String>)
    ensures
        text::views(r@) == outside(media_of(items@, items@.len() as int), state.known()),
{
    let mut r: Vec<String> = Vec::new();
    let mut i: usize = 0;
    assert(text::views(r@) =~= outside(media_of(items@, 0), state.known()));
    while i < items.len()
        invariant
            i <= items@.len(),
            text::views(r@) == outside(media_of(items@, i as int), state.known()),
        decreases items@.len() - i,
    {
        push_item_media(&mut r, state, &items[i], Ghost(media_of(items@, i as int)));
        i = i + 1;
    }
    r
}

/// The images of some packs.
pub fn image_urls_in_packs(packs: &Vec<EmojiPack>) -> (r: Vec<String>)
    ensures
        text::views(r@) == pack_media(packs@, packs@.len() as int),
{
    let mut r: Vec<String> = Vec::new();
    let mut i: usize = 0;
    assert(text::views(r@) =~= pack_media(packs@, 0));
    while i < packs.len()
        invariant
            i <= packs@.len(),
            text::views(r@) == pack_media(packs@, i as int),
        decreases packs@.len() - i,
    {
        let pack = &packs[i];
        let ghost before = text::views(r@);
        let mut k: usize = 0;
        assert(emoji_urls(pack.emojis@).take(0) =~= Seq::<Seq<char>>::empty());
        assert(text::views(r@) =~= before + emoji_urls(pack.emojis@).take(0));
        while k < pack.emojis.len()
            invariant
                k <= pack.emojis@.len(),
                text::views(r@) == before + emoji_urls(pack.emojis@).take(k as int),
            decreases pack.emojis@.len() - k,
        {
            let ghost so_far = text::views(r@);
            r.push(pack.emojis[k].mxc_url.clone());
            proof {
                let x = pack.emojis@[k as int].mxc_url@;
                let us = emoji_urls(pack.emojis@);
                assert(us.take(k + 1) =~= us.take(k as int).push(x));
                assert(text::views(r@) =~= so_far.push(x));
                assert(before + us.take(k as int).push(x) =~= (before + us.take(k as int)).push(x));
            }
            k = k + 1;
        }
        assert(emoji_urls(pack.emojis@).take(pack.emojis@.len() as int) =~= emoji_urls(
            pack.emojis@,
        ));
        i = i + 1;
    }
    r
}

/// The images of some emoji.
pub open spec fn emoji_urls(es: Seq<CustomEmoji>) -> Seq<Seq<char>> {
    es.map_values(|e: CustomEmoji| e.mxc_url@)
}

/// The images of the first `n` packs.
pub open spec fn pack_media(packs: Seq<EmojiPack>, n: int) -> Seq<Seq<char>>
    decreases n,
{
    if n <= 0 {
        Seq::empty()
    } else {
        pack_media(packs, n - 1) + emoji_urls(packs[n - 1].emojis@)
    }
}

/// Whether an emoji of the packs has exactly this shortcode.
pub open spec fn has_shortcode(packs: Seq<EmojiPack>, code: Seq<char>) -> bool {
    exists|i: int, k: int|
        0 <= i < packs.len() && 0 <= k < packs[i].emojis@.len() && (
        #[trigger] packs[i].emojis@[k]).shortcode@ == code
}

/// Whether an emoji of the packs has exactly this shortcode.
fn knows_shortcode(packs: &Vec<EmojiPack>, code: &str) -> (r: bool)
    ensures
        r == has_shortcode(packs@, code@),
{
    let mut i: usize = 0;
    while i < packs.len()
        invariant
            i <= packs@.len(),
            forall|a: int, k: int|
                0 <= a < i && 0 <= k < packs@[a].emojis@.len() ==> (
                #[trigger] packs@[a].emojis@[k]).shortcode@ != code@,
        decreases packs@.len() - i,
    {
        let pack = &packs[i];
        let mut k: usize = 0;
        while k < pack.emojis.len()
            invariant
                i < packs@.len(),
                *pack == packs@[i as int],
                k <= pack.emojis@.len(),
                forall|b: int| 0 <= b < k ==> (#[trigger] pack.emojis@[b]).shortcode@ != code@,
            decreases pack.emojis@.len() - k,
        {
            if text::str_eq(pack.emojis[k].shortcode.as_str(), code) {
                assert(packs@[i as int].emojis@[k as int].shortcode@ == code@);
                return true;
            }
            k = k + 1;
        }
        assert forall|a: int, b: int|
            0 <= a < i + 1 && 0 <= b < packs@[a].emojis@.len() implies (
        #[trigger] packs@[a].emojis@[b]).shortcode@ != code@ by {
            if a == i {
                assert(pack.emojis@[b].shortcode@ != code@);
            }
        }
        i = i + 1;
    }
    false
}

/// Whether a reaction's key stands for itself: it is neither a URL nor the
/// shortcode of an emoji of the packs.
pub open spec fn plain_key(key: Seq<char>, packs: Seq<EmojiPack>) -> bool {
    !body::is_mxc(key) && !has_shortcode(packs, body::bare_code(key))
}

/// The plain keys among the first `n` reactions.
pub open spec fn plain_keys(rs: Seq<Reaction>, packs: Seq<EmojiPack>, n: int) -> Seq<Seq<char>>
    decreases n,
{
    if n <= 0 {
        Seq::empty()
    } else {
        let before = plain_keys(rs, packs, n - 1);
        if plain_key(rs[n - 1].key@, packs) {
            before.push(rs[n - 1].key@)
        } else {
            before
        }
    }
}

/// The plain keys under the first `n` items.
pub open spec fn item_keys(items: Seq<TimelineItem>, packs: Seq<EmojiPack>, n: int) -> Seq<
    Seq<char>,
>
    decreases n,
{
    if n <= 0 {
        Seq::empty()
    } else {
        item_keys(items, packs, n - 1) + plain_keys(
            items[n - 1].reactions@,
            packs,
            items[n - 1].reactions@.len() as int,
        )
    }
}

/// Adds an emoji that is outside what is known.
fn push_unknown_emoji(
    out: &mut Vec<String>,
    state: &State,
    emoji: &String,
    Ghost(names): Ghost<Seq<Seq<char>>>,
)
    requires
        text::views(old(out)@) == outside(names, state.known_emoji()),
    ensures
        text::views(final(out)@) == outside(names.push(emoji@), state.known_emoji()),
{
    proof {
        lemma_outside(names, state.known_emoji(), emoji@);
    }
    if !state.is_emoji_known(emoji.as_str()) {
        let ghost before = text::views(out@);
        out.push(emoji.clone());
        assert(text::views(out@) =~= before.push(emoji@));
    }
}

/// The reactions' keys that are assumed to be plain emoji, and are not known.
pub fn unicode_reaction_keys(
    items: &Vec<TimelineItem>,
    packs: &Vec<EmojiPack>,
    state: &State,
) -> (r: Vec<String>)
    ensures
        text::views(r@) == outside(
            item_keys(items@, packs@, items@.len() as int),
            state.known_emoji(),
        ),
{
    let mut r: Vec<String> = Vec::new();
    let mut i: usize = 0;
    assert(text::views(r@) =~= outside(item_keys(items@, packs@, 0), state.known_emoji()));
    while i < items.len()
        invariant
            i <= items@.len(),
            text::views(r@) == outside(
                item_keys(items@, packs@, i as int),
                state.known_emoji(),
            ),
        decreases items@.len() - i,
    {
        let reactions = &items[i].reactions;
        let ghost base = item_keys(items@, packs@, i as int);
        let ghost mut acc = base;
        let mut k: usize = 0;
        assert(acc =~= base + plain_keys(reactions@, packs@, 0));
        while k < reactions.len()
            invariant
                k <= reactions@.len(),
                acc == base + plain_keys(reactions@, packs@, k as int),
                text::views(r@) == outside(acc, state.known_emoji()),
            decreases reactions@.len() - k,
        {
            let key = &reactions[k].key;
            if !body::is_media_key(key.as_str()) && !knows_shortcode(
                packs,
                body::trim_colons(key.as_str()),
            ) {
                push_unknown_emoji(&mut r, state, key, Ghost(acc));
                proof {
                    assert(acc.push(key@) =~= base + plain_keys(reactions@, packs@, k as int).push(
                        key@,
                    ));
                    acc = acc.push(key@);
                }
            }
            k = k + 1;
        }
        i = i + 1;
    }
    r
}

/// The emoji that an item's text holds.
pub open spec fn text_emoji(c: TimelineItemContent) -> Seq<Seq<char>> {
    match c {
        TimelineItemContent::Text(b) => body::emojis_of(b@),
        _ => Seq::empty(),
    }
}

/// The emoji that the texts of the first `n` items hold.
pub open spec fn body_emoji(items: Seq<TimelineItem>, n: int) -> Seq<Seq<char>>
    decreases n,
{
    if n <= 0 {
        Seq::empty()
    } else {
        body_emoji(items, n - 1) + text_emoji(items[n - 1].content)
    }
}

/// The emoji typed in a timeline's messages that are not known.
pub fn unicode_body_emojis(items: &Vec<TimelineItem>, state: &State) -> (r: Vec<String>)
    ensures
        text::views(r@) == outside(body_emoji(items@, items@.len() as int), state.known_emoji()),
{
    let mut r: Vec<String> = Vec::new();
    let mut i: usize = 0;
    assert(text::views(r@) =~= outside(body_emoji(items@, 0), state.known_emoji()));
    while i < items.len()
        invariant
            i <= items@.len(),
            text::views(r@) == outside(body_emoji(items@, i as int), state.known_emoji()),
        decreases items@.len() - i,
    {
        let ghost base = body_emoji(items@, i as int);
        match &items[i].content {
            TimelineItemContent::Text(b) => {
                let found = body::unicode_emojis_in(b.as_str());
                let ghost all = text::views(found@);
                let ghost mut acc = base;
                let mut k: usize = 0;
                assert(acc =~= base + all.take(0));
                while k < found.len()
                    invariant
                        k <= found@.len(),
                        all == text::views(found@),
                        acc == base + all.take(k as int),
                        text::views(r@) == outside(acc, state.known_emoji()),
                    decreases found@.len() - k,
                {
                    push_unknown_emoji(&mut r, state, &found[k], Ghost(acc));
                    proof {
                        let x = found@[k as int]@;
                        assert(all.take(k + 1) =~= all.take(k as int).push(x));
                        assert(acc.push(x) =~= base + all.take(k + 1));
                        acc = acc.push(x);
                    }
                    k = k + 1;
                }
                assert(all.take(found@.len() as int) =~= all);
            },
            _ => {
                assert(base + text_emoji(items@[i as int].content) =~= base);
            },
        }
        i = i + 1;
    }
    r
}

// ---------------------------------------------------------------------------
// What arrives.
// ---------------------------------------------------------------------------
/// What a fetched file is, by its bytes.
#[derive(Debug, Clone, Copy, PartialEq, Eq, Structural)]
pub enum MediaKind {
    Svg,
    Gif,
    Raster,
    /// A container that nothing here decodes.
    Unsupported,
}

/// What is to be done with the bytes that arrived.
#[derive(Debug)]
pub enum Arrival {
    /// No one waits for them.
    Nothing,
    /// They go to a file.
    Save,
    /// They are the image behind this URL.
    Show(String),
    /// They are an animation: decoding it takes a while.
    Decode(String),
}

/// The first entry at or after `i` with the id.
pub open spec fn entry_from(pending: Seq<(RequestId, String)>, id: RequestId, i: int) -> Option<int>
    decreases pending.len() - i,
{
    if i < 0 || i >= pending.len() {
        None
    } else if pending[i].0 == id {
        Some(i)
    } else {
        entry_from(pending, id, i + 1)
    }
}

/// The first place at or after `i` of an id.
pub open spec fn id_from(ids: Seq<RequestId>, id: RequestId, i: int) -> Option<int>
    decreases ids.len() - i,
{
    if i < 0 || i >= ids.len() {
        None
    } else if ids[i] == id {
        Some(i)
    } else {
        id_from(ids, id, i + 1)
    }
}

/// Takes the fetch out that an id stands for.
fn take_pending(pending: &mut Vec<(RequestId, String)>, id: RequestId) -> (r: Option<String>)
    ensures
        match entry_from(old(pending)@, id, 0) {
            Some(k) => 0 <= k < old(pending)@.len() && r == Some(old(pending)@[k].1)
                && final(pending)@ == old(pending)@.remove(k),
            None => r is None && *final(pending) == *old(pending),
        },
{
    let mut i: usize = 0;
    while i < pending.len()
        invariant
            i <= pending@.len(),
            *pending == *old(pending),
            entry_from(pending@, id, 0) == entry_from(pending@, id, i as int),
        decreases pending@.len() - i,
    {
        if pending[i].0 == id {
            let (_, url) = pending.remove(i);
            return Some(url);
        }
        i = i + 1;
    }
    None
}

/// Takes an id out; says whether it was there.
fn take_id(ids: &mut Vec<RequestId>, id: RequestId) -> (r: bool)
    ensures
        match id_from(old(ids)@, id, 0) {
            Some(k) => r && 0 <= k < old(ids)@.len() && final(ids)@ == old(ids)@.remove(k),
            None => !r && *final(ids) == *old(ids),
        },
{
    let mut i: usize = 0;
    while i < ids.len()
        invariant
            i <= ids@.len(),
            *ids == *old(ids),
            id_from(ids@, id, 0) == id_from(ids@, id, i as int),
        decreases ids@.len() - i,
    {
        if ids[i] == id {
            ids.remove(i);
            return true;
        }
        i = i + 1;
    }
    false
}

/// What a download that came to its end leaves.
pub open spec fn download_ended(before: State, after: State, k: int) -> bool {
    &&& after.download_requests@ == before.download_requests@.remove(k)
    &&& after == (State { download_requests: after.download_requests, ..before })
}

/// What media that arrived leaves. An animation counts as on its way until it
/// is decoded; what nothing decodes counts as not to be had.
pub open spec fn arrived(before: State, after: State, url: Seq<char>, kind: MediaKind) -> bool {
    &&& after.pending_urls@ == if kind == MediaKind::Gif {
        before.pending_urls@.insert(url)
    } else {
        before.pending_urls@.remove(url)
    }
    &&& after.cached@ == if kind == MediaKind::Svg || kind == MediaKind::Raster {
        before.cached@.insert(url)
    } else {
        before.cached@
    }
    &&& after.failed@ == if kind == MediaKind::Unsupported {
        before.failed@.insert(url)
    } else {
        before.failed@
    }
}

/// What a fetch that went through leaves, and what is done with its bytes.
pub open spec fn fetched(
    before: State,
    after: State,
    id: RequestId,
    kind: MediaKind,
    r: Arrival,
) -> bool {
    match id_from(before.download_requests@, id, 0) {
        Some(k) => download_ended(before, after, k) && r is Save,
        None => match entry_from(before.pending@, id, 0) {
            None => after == before && r is Nothing,
            Some(k) => {
                let url = before.pending@[k].1;
                &&& after.pending@ == before.pending@.remove(k)
                &&& arrived(before, after, url@, kind)
                &&& after == (State {
                    pending: after.pending,
                    pending_urls: after.pending_urls,
                    cached: after.cached,
                    failed: after.failed,
                    ..before
                })
                &&& r == match kind {
                    MediaKind::Gif => Arrival::Decode(url),
                    MediaKind::Unsupported => Arrival::Nothing,
                    _ => Arrival::Show(url),
                }
            },
        },
    }
}

/// Takes a fetch that went through in.
pub fn media_fetched(state: &mut State, id: RequestId, kind: MediaKind) -> (r: Arrival)
    ensures
        fetched(*old(state), *final(state), id, kind, r),
{
    if take_id(&mut state.download_requests, id) {
        return Arrival::Save;
    }
    let url = match take_pending(&mut state.pending, id) {
        Some(url) => url,
        None => {
            return Arrival::Nothing;
        },
    };
    state.pending_urls.remove(url.as_str());
    match kind {
        MediaKind::Gif => {
            state.pending_urls.insert(url.clone());
            assert(state.pending_urls@ =~= old(state).pending_urls@.insert(url@));
            Arrival::Decode(url)
        },
        MediaKind::Unsupported => {
            state.failed.insert(url);
            Arrival::Nothing
        },
        MediaKind::Svg => {
            state.cached.insert(url.clone());
            Arrival::Show(url)
        },
        MediaKind::Raster => {
            state.cached.insert(url.clone());
            Arrival::Show(url)
        },
    }
}

/// What a fetch that failed leaves: its URL is not asked for again. A failed
/// download says nothing of the image on screen.
pub open spec fn fetch_failed(before: State, after: State, id: RequestId) -> bool {
    match id_from(before.download_requests@, id, 0) {
        Some(k) => download_ended(before, after, k),
        None => match entry_from(before.pending@, id, 0) {
            None => after == before,
            Some(k) => {
                let url = before.pending@[k].1@;
                &&& after.pending@ == before.pending@.remove(k)
                &&& after.pending_urls@ == before.pending_urls@.remove(url)
                &&& after.failed@ == before.failed@.insert(url)
                &&& after == (State {
                    pending: after.pending,
                    pending_urls: after.pending_urls,
                    failed: after.failed,
                    ..before
                })
            },
        },
    }
}

/// Takes a fetch that failed in.
pub fn media_fetch_failed(state: &mut State, id: RequestId)
    ensures
        fetch_failed(*old(state), *final(state), id),
{
    if take_id(&mut state.download_requests, id) {
        return ;
    }
    if let Some(url) = take_pending(&mut state.pending, id) {
        state.pending_urls.remove(url.as_str());
        state.failed.insert(url);
    }
}

/// Takes an animation in that was decoded, or that shows as a still.
pub fn gif_decoded(state: &mut State, url: String)
    ensures
        final(state).pending_urls@ == old(state).pending_urls@.remove(url@),
        final(state).cached@ == old(state).cached@.insert(url@),
        *final(state) == (State {
            pending_urls: final(state).pending_urls,
            cached: final(state).cached,
            ..*old(state)
        }),
{
    state.pending_urls.remove(url.as_str());
    state.cached.insert(url);
}

/// What an emoji's image that came to its end leaves: one that is not to be
/// had is not asked for again.
pub open spec fn emoji_arrived(before: State, after: State, emoji: Seq<char>, ok: bool) -> bool {
    &&& after.emoji_pending@ == before.emoji_pending@.remove(emoji)
    &&& after.emoji@ == if ok {
        before.emoji@.insert(emoji)
    } else {
        before.emoji@
    }
    &&& after.emoji_failed@ == if ok {
        before.emoji_failed@
    } else {
        before.emoji_failed@.insert(emoji)
    }
    &&& after == (State {
        emoji_pending: after.emoji_pending,
        emoji: after.emoji,
        emoji_failed: after.emoji_failed,
        ..before
    })
}

/// Takes an emoji's image in, or that there is none.
pub fn emoji_fetched(state: &mut State, emoji: String, ok: bool)
    ensures
        emoji_arrived(*old(state), *final(state), emoji@, ok),
{
    state.emoji_pending.remove(emoji.as_str());
    if ok {
        state.emoji.insert(emoji);
    } else {
        state.emoji_failed.insert(emoji);
    }
}

/// Takes a web image in. One that failed may be asked for again.
pub fn web_image_fetched(state: &mut State, url: String, ok: bool)
    ensures
        final(state).web_pending@ == old(state).web_pending@.remove(url@),
        final(state).web_images@ == if ok {
            old(state).web_images@.insert(url@)
        } else {
            old(state).web_images@
        },
        *final(state) == (State {
            web_pending: final(state).web_pending,
            web_images: final(state).web_images,
            ..*old(state)
        }),
{
    state.web_pending.remove(url.as_str());
    if ok {
        state.web_images.insert(url);
    }
}

/// The name that a downloaded image is saved under.
pub fn download_name(extension: &str) -> (r: String)
    ensures
        r@ == "thornychat-image."@ + extension@,
{
    text::join2("thornychat-image.", extension)
}

// ---------------------------------------------------------------------------
// Laws.
// ---------------------------------------------------------------------------
/// Nothing is asked for twice: once something was asked for, asking for the
/// same again asks for nothing.
pub proof fn law_nothing_is_asked_for_twice(names: Seq<Seq<char>>, known: Set<Seq<char>>)
    ensures
        missing(names, known).no_duplicates(),
        forall|x: Seq<char>|
            missing(names, known).contains(x) <==> names.contains(x) && !known.contains(x),
        missing(names, known + missing(names, known).to_set()).len() == 0,
    decreases names.len(),
{
    lemma_missing(names, known);
    lemma_all_known(names, known + missing(names, known).to_set());
}

/// What is asked for: all that is not known, each once.
proof fn lemma_missing(names: Seq<Seq<char>>, known: Set<Seq<char>>)
    ensures
        missing(names, known).no_duplicates(),
        forall|x: Seq<char>|
            missing(names, known).contains(x) <==> names.contains(x) && !known.contains(x),
    decreases names.len(),
{
    if names.len() > 0 {
        let front = names.drop_last();
        let last = names.last();
        lemma_missing(front, known);
        let before = missing(front, known);
        let all = missing(names, known);
        assert(names =~= front.push(last));
        assert forall|x: Seq<char>| names.contains(x) == (front.contains(x) || x == last) by {
            if front.contains(x) {
                let k = choose|k: int| 0 <= k < front.len() && front[k] == x;
                assert(names[k] == x);
            }
            if x == last {
                assert(names[names.len() - 1] == x);
            }
            if names.contains(x) && x != last {
                let k = choose|k: int| 0 <= k < names.len() && names[k] == x;
                assert(front[k] == x);
            }
        }
        assert forall|x: Seq<char>| all.contains(x) == (before.contains(x) || (x == last
            && !known.contains(x))) by {
            if before.contains(x) {
                let k = choose|k: int| 0 <= k < before.len() && before[k] == x;
                assert(all[k] == x);
            }
            if all.contains(x) && !before.contains(x) {
                let k = choose|k: int| 0 <= k < all.len() && all[k] == x;
                if k < before.len() {
                    assert(before[k] == x);
                }
            }
            if x == last && !known.contains(x) && !before.contains(x) {
                assert(all[before.len() as int] == x);
            }
        }
        assert(all.no_duplicates()) by {
            assert forall|a: int, b: int|
                0 <= a < all.len() && 0 <= b < all.len() && a != b implies all[a] != all[b] by {
                if a < before.len() {
                    assert(before.contains(before[a]));
                }
                if b < before.len() {
                    assert(before.contains(before[b]));
                }
            }
        }
    }
}

/// Where everything is known nothing is asked for.
proof fn lemma_all_known(names: Seq<Seq<char>>, known: Set<Seq<char>>)
    requires
        forall|x: Seq<char>| names.contains(x) ==> known.contains(x),
    ensures
        missing(names, known).len() == 0,
    decreases names.len(),
{
    if names.len() > 0 {
        let front = names.drop_last();
        assert(names.contains(names.last())) by {
            assert(names[names.len() - 1] == names.last());
        }
        assert forall|x: Seq<char>| front.contains(x) implies known.contains(x) by {
            let k = choose|k: int| 0 <= k < front.len() && front[k] == x;
            assert(names[k] == x);
            assert(names.contains(x));
        }
        lemma_all_known(front, known);
    }
}

/// A fetch that failed is not tried again: its URL stays known.
pub proof fn law_a_failed_fetch_is_remembered(before: State, after: State, id: RequestId)
    requires
        fetch_failed(before, after, id),
        id_from(before.download_requests@, id, 0) is None,
        entry_from(before.pending@, id, 0) is Some,
    ensures
        after.known().contains(before.pending@[entry_from(before.pending@, id, 0)->0].1@),
{
}

proof fn lemma_entry_from(pending: Seq<(RequestId, String)>, id: RequestId, i: int, k: int)
    requires
        0 <= i <= k < pending.len(),
        pending[k].0 == id,
        forall|j: int| 0 <= j < k ==> (#[trigger] pending[j]).0 != id,
    ensures
        entry_from(pending, id, i) == Some(k),
    decreases k - i,
{
    if i < k {
        lemma_entry_from(pending, id, i + 1, k);
    }
}

proof fn lemma_no_id(ids: Seq<RequestId>, id: RequestId, i: int)
    requires
        0 <= i,
        !ids.contains(id),
    ensures
        id_from(ids, id, i) is None,
    decreases ids.len() - i,
{
    if i < ids.len() {
        assert(ids.contains(ids[i]));
        lemma_no_id(ids, id, i + 1);
    }
}

/// Media that arrives is taken for what was asked for under its id: an image
/// shows and counts as had, an animation is decoded first, and what cannot be
/// shown counts as not to be had. Either way it is on its way no more.
pub proof fn law_what_arrives_is_what_was_asked_for(
    before: State,
    after: State,
    id: RequestId,
    kind: MediaKind,
    r: Arrival,
    k: int,
)
    requires
        fetched(before, after, id, kind, r),
        !before.download_requests@.contains(id),
        0 <= k < before.pending@.len(),
        before.pending@[k].0 == id,
        forall|j: int| 0 <= j < k ==> (#[trigger] before.pending@[j]).0 != id,
    ensures
        kind == MediaKind::Raster || kind == MediaKind::Svg ==> r == Arrival::Show(
            before.pending@[k].1,
        ) && after.cached@.contains(before.pending@[k].1@),
        kind == MediaKind::Gif ==> r == Arrival::Decode(before.pending@[k].1),
        kind == MediaKind::Unsupported ==> r is Nothing && after.failed@.contains(
            before.pending@[k].1@,
        ),
        kind != MediaKind::Gif ==> !after.pending_urls@.contains(before.pending@[k].1@),
        after.pending@.len() == before.pending@.len() - 1,
        forall|u: Seq<char>|
            u != before.pending@[k].1@ ==> #[trigger] after.cached@.contains(u)
                == before.cached@.contains(u),
        forall|u: Seq<char>|
            u != before.pending@[k].1@ ==> #[trigger] after.failed@.contains(u)
                == before.failed@.contains(u),
{
    lemma_no_id(before.download_requests@, id, 0);
    lemma_entry_from(before.pending@, id, 0, k);
}

/// A download that arrives is saved and leaves what shows alone.
pub proof fn law_a_download_is_saved(
    before: State,
    after: State,
    id: RequestId,
    kind: MediaKind,
    r: Arrival,
)
    requires
        fetched(before, after, id, kind, r),
        before.download_requests@.contains(id),
    ensures
        r is Save,
        after.cached == before.cached && after.pending == before.pending && after.failed
            == before.failed,
        after.download_requests@.len() == before.download_requests@.len() - 1,
{
    lemma_has_id(before.download_requests@, id, 0);
}

proof fn lemma_has_id(ids: Seq<RequestId>, id: RequestId, i: int)
    requires
        0 <= i,
        exists|k: int| i <= k < ids.len() && ids[k] == id,
    ensures
        id_from(ids, id, i) matches Some(k) && i <= k < ids.len() && ids[k] == id,
    decreases ids.len() - i,
{
    if i < ids.len() && ids[i] != id {
        lemma_has_id(ids, id, i + 1);
    }
}

/// While there is a worker, everything that shows and is not known is asked
/// for, and then counts as on its way; without one nothing is.
pub proof fn law_missing_media_is_asked_for(
    before: State,
    after: State,
    connected: bool,
    urls: Seq<Seq<char>>,
    commands: Seq<ClientCommand>,
    url: Seq<char>,
)
    requires
        media_asked(before, after, connected, urls, commands),
    ensures
        !connected ==> after == before && commands.len() == 0,
        connected && urls.contains(url) && !before.cached@.contains(url)
            && !before.pending_urls@.contains(url) && !before.failed@.contains(url) ==> {
            &&& after.pending_urls@.contains(url)
            &&& exists|k: int|
                0 <= k < commands.len() && (#[trigger] commands[k]) is FetchMedia
                    && commands[k]->mxc_url@ == url
        },
        forall|k: int|
            0 <= k < commands.len() ==> (#[trigger] commands[k]) is FetchMedia && urls.contains(
                commands[k]->mxc_url@,
            ) && !before.cached@.contains(commands[k]->mxc_url@) && !before.failed@.contains(
                commands[k]->mxc_url@,
            ),
{
    if connected {
        let wanted = missing(urls, before.known());
        lemma_missing(urls, before.known());
        let rec = after.pending@.skip(before.pending@.len() as int);
        if wanted.contains(url) {
            let k = choose|k: int| 0 <= k < wanted.len() && wanted[k] == url;
            assert(rec[k].1@ == wanted[k]);
            assert(commands[k]->mxc_url@ == url);
            assert(wanted.to_set().contains(url));
        }
        assert forall|k: int| 0 <= k < commands.len() implies (#[trigger] commands[k]) is FetchMedia
            && urls.contains(commands[k]->mxc_url@) && !before.cached@.contains(
            commands[k]->mxc_url@,
        ) && !before.failed@.contains(commands[k]->mxc_url@) by {
            assert(rec[k].1@ == wanted[k]);
            assert(wanted.contains(wanted[k]));
            assert(urls.contains(wanted[k]) && !before.known().contains(wanted[k]));
            assert(commands[k]->mxc_url@ == wanted[k]);
        }
    }
}

proof fn lemma_has(a: Seq<Seq<char>>, b: Seq<Seq<char>>, x: Seq<char>)
    ensures
        (a + b).contains(x) == (a.contains(x) || b.contains(x)),
{
    let c = a + b;
    if c.contains(x) {
        let k = choose|k: int| 0 <= k < c.len() && c[k] == x;
        if k < a.len() {
            assert(a[k] == x);
        } else {
            assert(b[k - a.len()] == x);
        }
    }
    if a.contains(x) {
        let k = choose|k: int| 0 <= k < a.len() && a[k] == x;
        assert(c[k] == x);
    }
    if b.contains(x) {
        let k = choose|k: int| 0 <= k < b.len() && b[k] == x;
        assert(c[a.len() + k] == x);
    }
}

proof fn lemma_media_of(items: Seq<TimelineItem>, n: int, i: int, x: Seq<char>)
    requires
        0 <= i < n <= items.len(),
        item_media(items[i]).contains(x),
    ensures
        media_of(items, n).contains(x),
    decreases n,
{
    lemma_has(media_of(items, n - 1), item_media(items[n - 1]), x);
    if i < n - 1 {
        lemma_media_of(items, n - 1, i, x);
    }
}

/// Every image that a message shows is among the media of its timeline: the
/// picture or sticker itself, the sender's avatar, the quoted image, and each
/// reaction whose key is a media URL.
pub proof fn law_every_image_that_shows_is_wanted(items: Seq<TimelineItem>, i: int, k: int)
    requires
        0 <= i < items.len(),
    ensures
        items[i].content matches TimelineItemContent::Image { url, .. } ==> media_of(
            items,
            items.len() as int,
        ).contains(url@),
        items[i].content matches TimelineItemContent::Sticker { url, .. } ==> media_of(
            items,
            items.len() as int,
        ).contains(url@),
        items[i].sender_avatar_url matches Some(a) ==> media_of(items, items.len() as int).contains(
            a@,
        ),
        items[i].in_reply_to matches Some(q) ==> (q.image_url matches Some(u) ==> media_of(
            items,
            items.len() as int,
        ).contains(u@)),
        0 <= k < items[i].reactions@.len() && body::is_mxc(items[i].reactions@[k].key@)
            ==> media_of(items, items.len() as int).contains(items[i].reactions@[k].key@),
{
    let n = items.len() as int;
    let item = items[i];
    let c = content_media(item.content);
    let rs = reaction_media(item.reactions@, item.reactions@.len() as int);
    let av = opt_name(item.sender_avatar_url);
    let q = match item.in_reply_to {
        Some(r) => opt_name(r.image_url),
        None => Seq::empty(),
    };
    assert(item_media(item) == c + rs + av + q);
    match item.content {
        TimelineItemContent::Image { url, .. } => {
            assert(c[0] == url@);
            lemma_has(c, rs, url@);
            lemma_has(c + rs, av, url@);
            lemma_has(c + rs + av, q, url@);
            lemma_media_of(items, n, i, url@);
        },
        TimelineItemContent::Sticker { url, .. } => {
            assert(c[0] == url@);
            lemma_has(c, rs, url@);
            lemma_has(c + rs, av, url@);
            lemma_has(c + rs + av, q, url@);
            lemma_media_of(items, n, i, url@);
        },
        _ => {},
    }
    if let Some(a) = item.sender_avatar_url {
        assert(av[0] == a@);
        lemma_has(c + rs, av, a@);
        lemma_has(c + rs + av, q, a@);
        lemma_media_of(items, n, i, a@);
    }
    if let Some(r) = item.in_reply_to {
        if let Some(u) = r.image_url {
            assert(q[0] == u@);
            lemma_has(c + rs + av, q, u@);
            lemma_media_of(items, n, i, u@);
        }
    }
    if 0 <= k < item.reactions@.len() && body::is_mxc(item.reactions@[k].key@) {
        let x = item.reactions@[k].key@;
        lemma_reaction_media(item.reactions@, item.reactions@.len() as int, k);
        lemma_has(c, rs, x);
        lemma_has(c + rs, av, x);
        lemma_has(c + rs + av, q, x);
        lemma_media_of(items, n, i, x);
    }
}

proof fn lemma_reaction_media(rs: Seq<Reaction>, n: int, k: int)
    requires
        0 <= k < n <= rs.len(),
        body::is_mxc(rs[k].key@),
    ensures
        reaction_media(rs, n).contains(rs[k].key@),
    decreases n,
{
    let before = reaction_media(rs, n - 1);
    let all = reaction_media(rs, n);
    if k == n - 1 {
        assert(all[before.len() as int] == rs[k].key@);
    } else {
        lemma_reaction_media(rs, n - 1, k);
        let j = choose|j: int| 0 <= j < before.len() && before[j] == rs[k].key@;
        assert(all[j] == rs[k].key@);
    }
}

/// The emoji of a pack are all wanted.
pub proof fn law_every_pack_emoji_is_wanted(packs: Seq<EmojiPack>, n: int, p: int, i: int)
    requires
        0 <= p < n <= packs.len(),
        0 <= i < packs[p].emojis@.len(),
    ensures
        pack_media(packs, n).contains(packs[p].emojis@[i].mxc_url@),
    decreases n,
{
    let x = packs[p].emojis@[i].mxc_url@;
    let last = emoji_urls(packs[n - 1].emojis@);
    lemma_has(pack_media(packs, n - 1), last, x);
    if p == n - 1 {
        assert(last[i] == x);
    } else {
        law_every_pack_emoji_is_wanted(packs, n - 1, p, i);
    }
}

} // verus!
