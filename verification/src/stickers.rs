//! The stickers that were seen or used: a collection that grows with use.

use vstd::prelude::*;

use crate::events::{TimelineItem, TimelineItemContent};
use crate::text;

verus! {

/// How many stickers are kept: the most recent ones.
pub const MAX_COLLECTED_STICKERS: usize = 120;

/// A sticker to use again.
#[derive(Debug)]
pub struct CollectedSticker {
    pub url: String,
    /// The alternative text, which goes out with it again.
    pub body: String,
    pub width: Option<u32>,
    pub height: Option<u32>,
}

/// Whether a sticker of the collection has the URL.
pub open spec fn has_url(stickers: Seq<CollectedSticker>, url: Seq<char>) -> bool {
    exists|i: int| 0 <= i < stickers.len() && (#[trigger] stickers[i]).url@ == url
}

/// The sticker that an item shows.
pub open spec fn sticker_of(c: TimelineItemContent) -> Option<CollectedSticker> {
    match c {
        TimelineItemContent::Sticker { url, body, width, height } => Some(
            CollectedSticker { url, body, width, height },
        ),
        _ => None,
    }
}

/// The stickers of the first `n` items that are not in the collection, each
/// once, in order.
pub open spec fn unseen(
    items: Seq<TimelineItem>,
    collection: Seq<CollectedSticker>,
    n: int,
) -> Seq<CollectedSticker>
    decreases n,
{
    if n <= 0 {
        Seq::empty()
    } else {
        let before = unseen(items, collection, n - 1);
        match sticker_of(items[n - 1].content) {
            Some(s) => if has_url(collection, s.url@) || has_url(before, s.url@) {
                before
            } else {
                before.push(s)
            },
            None => before,
        }
    }
}

/// A collection, cut to its size.
pub open spec fn kept(stickers: Seq<CollectedSticker>) -> Seq<CollectedSticker> {
    if stickers.len() > MAX_COLLECTED_STICKERS {
        stickers.take(MAX_COLLECTED_STICKERS as int)
    } else {
        stickers
    }
}

/// A collection with the new stickers of a timeline in front, the newest
/// first: items run from the oldest to the newest.
pub open spec fn harvested(
    collection: Seq<CollectedSticker>,
    items: Seq<TimelineItem>,
) -> Seq<CollectedSticker> {
    let fresh = unseen(items, collection, items.len() as int);
    if fresh.len() == 0 {
        collection
    } else {
        kept(fresh.reverse() + collection)
    }
}

/// Whether a sticker of the collection has the URL.
fn knows_url(stickers: &Vec<CollectedSticker>, url: &str) -> (r: bool)
    ensures
        r == has_url(stickers@, url@),
{
    let mut i: usize = 0;
    while i < stickers.len()
        invariant
            i <= stickers@.len(),
            forall|k: int| 0 <= k < i ==> (#[trigger] stickers@[k]).url@ != url@,
        decreases stickers@.len() - i,
    {
        if text::str_eq(stickers[i].url.as_str(), url) {
            assert(stickers@[i as int].url@ == url@);
            return true;
        }
        i = i + 1;
    }
    false
}

/// Adds the stickers of a timeline that are new to the collection; says
/// whether there were any.
pub fn harvest_stickers(collection: &mut Vec<CollectedSticker>, items: &Vec<TimelineItem>) -> (r:
    bool)
    ensures
        final(collection)@ == harvested(old(collection)@, items@),
        r == (unseen(items@, old(collection)@, items@.len() as int).len() > 0),
        !r ==> *final(collection) == *old(collection),
{
    let mut fresh: Vec<CollectedSticker> = Vec::new();
    let ghost first = collection@;
    let mut i: usize = 0;
    while i < items.len()
        invariant
            i <= items@.len(),
            *collection == *old(collection),
            first == collection@,
            fresh@ == unseen(items@, first, i as int),
        decreases items@.len() - i,
    {
        if let TimelineItemContent::Sticker { url, body, width, height } = &items[i].content {
            if !knows_url(collection, url.as_str()) && !knows_url(&fresh, url.as_str()) {
                fresh.push(
                    CollectedSticker {
                        url: url.clone(),
                        body: body.clone(),
                        width: *width,
                        height: *height,
                    },
                );
            }
        }
        i = i + 1;
    }
    if fresh.len() == 0 {
        return false;
    }
    let ghost all = fresh@;
    let mut r: Vec<CollectedSticker> = Vec::new();
    while fresh.len() > 0
        invariant
            fresh@.len() <= all.len(),
            fresh@ == all.take(fresh@.len() as int),
            r@ == all.skip(fresh@.len() as int).reverse(),
        decreases fresh@.len(),
    {
        let ghost n = fresh@.len() as int;
        if let Some(s) = fresh.pop() {
            let ghost before = r@;
            r.push(s);
            proof {
                assert(s == all[n - 1]);
                assert(fresh@ =~= all.take(n - 1));
                assert(all.skip(n - 1).reverse() =~= before.push(s));
            }
        }
    }
    assert(all.skip(0) =~= all);
    let mut rest: Vec<CollectedSticker> = Vec::new();
    std::mem::swap(collection, &mut rest);
    r.append(&mut rest);
    assert(r@ =~= all.reverse() + first);
    if r.len() > MAX_COLLECTED_STICKERS {
        r.truncate(MAX_COLLECTED_STICKERS);
        assert(r@ =~= kept(all.reverse() + first));
    }
    *collection = r;
    true
}

// ---------------------------------------------------------------------------
// Laws.
// ---------------------------------------------------------------------------
/// Whether no two stickers have the same URL.
pub open spec fn distinct(stickers: Seq<CollectedSticker>) -> bool {
    forall|i: int, j: int|
        0 <= i < j < stickers.len() ==> (#[trigger] stickers[i]).url@ != (
        #[trigger] stickers[j]).url@
}

/// No sticker is collected twice, and a collection that grew stays within its
/// size.
pub proof fn law_stickers_are_collected_once(
    collection: Seq<CollectedSticker>,
    items: Seq<TimelineItem>,
)
    requires
        distinct(collection),
    ensures
        distinct(harvested(collection, items)),
        collection.len() <= MAX_COLLECTED_STICKERS ==> harvested(collection, items).len()
            <= MAX_COLLECTED_STICKERS,
{
    let n = items.len() as int;
    let fresh = unseen(items, collection, n);
    lemma_unseen(items, collection, n);
    if fresh.len() > 0 {
        let all = fresh.reverse() + collection;
        assert forall|i: int, j: int| 0 <= i < j < all.len() implies (#[trigger] all[i]).url@ != (
        #[trigger] all[j]).url@ by {
            if j < fresh.len() {
                assert(all[i] == fresh[fresh.len() - 1 - i]);
                assert(all[j] == fresh[fresh.len() - 1 - j]);
            } else if i < fresh.len() {
                assert(all[i] == fresh[fresh.len() - 1 - i]);
                assert(all[j] == collection[j - fresh.len()]);
            } else {
                assert(all[i] == collection[i - fresh.len()]);
                assert(all[j] == collection[j - fresh.len()]);
            }
        }
    }
}

/// New stickers are new, and differ from each other.
proof fn lemma_unseen(items: Seq<TimelineItem>, collection: Seq<CollectedSticker>, n: int)
    ensures
        distinct(unseen(items, collection, n)),
        forall|i: int|
            0 <= i < unseen(items, collection, n).len() ==> !has_url(
                collection,
                (#[trigger] unseen(items, collection, n)[i]).url@,
            ),
    decreases n,
{
    if n > 0 {
        lemma_unseen(items, collection, n - 1);
        let before = unseen(items, collection, n - 1);
        let all = unseen(items, collection, n);
        if all != before {
            assert(all =~= before.push(sticker_of(items[n - 1].content)->0));
            assert forall|i: int| 0 <= i < all.len() implies !has_url(
                collection,
                (#[trigger] all[i]).url@,
            ) by {
                if i < before.len() {
                    assert(all[i] == before[i]);
                }
            }
            assert forall|i: int, j: int| 0 <= i < j < all.len() implies (#[trigger] all[i]).url@
                != (#[trigger] all[j]).url@ by {
                assert(all[i] == before[i]);
                if j < before.len() {
                    assert(all[j] == before[j]);
                }
            }
        }
    }
}

/// The same timeline again adds nothing, as long as nothing was dropped.
pub proof fn law_harvesting_settles(collection: Seq<CollectedSticker>, items: Seq<TimelineItem>)
    requires
        ({
            let fresh = unseen(items, collection, items.len() as int);
            fresh.len() == 0 || fresh.len() + collection.len() <= MAX_COLLECTED_STICKERS
        }),
    ensures
        unseen(items, harvested(collection, items), items.len() as int).len() == 0,
{
    let n = items.len() as int;
    let fresh = unseen(items, collection, n);
    let after = harvested(collection, items);
    if fresh.len() > 0 {
        assert(after == fresh.reverse() + collection);
        assert forall|u: Seq<char>| has_url(fresh, u) || has_url(collection, u) implies has_url(
            after,
            u,
        ) by {
            if has_url(fresh, u) {
                let i = choose|i: int| 0 <= i < fresh.len() && (#[trigger] fresh[i]).url@ == u;
                assert(after[fresh.len() - 1 - i] == fresh[i]);
            } else {
                let i = choose|i: int|
                    0 <= i < collection.len() && (#[trigger] collection[i]).url@ == u;
                assert(after[fresh.len() + i] == collection[i]);
            }
        }
        lemma_nothing_new(items, collection, after, n, n);
    }
}

/// What is in the collection, or new to it, is no longer new to one that
/// holds both.
proof fn lemma_nothing_new(
    items: Seq<TimelineItem>,
    collection: Seq<CollectedSticker>,
    after: Seq<CollectedSticker>,
    m: int,
    n: int,
)
    requires
        m <= n,
        forall|u: Seq<char>|
            has_url(unseen(items, collection, n), u) || has_url(collection, u) ==> has_url(
                after,
                u,
            ),
    ensures
        unseen(items, after, m).len() == 0,
    decreases m,
{
    if m > 0 {
        lemma_nothing_new(items, collection, after, m - 1, n);
        match sticker_of(items[m - 1].content) {
            Some(s) => {
                lemma_seen(items, collection, s, m, n);
            },
            None => {},
        }
    }
}

/// A sticker of the first `n` items is in the collection, or new to it.
proof fn lemma_seen(
    items: Seq<TimelineItem>,
    collection: Seq<CollectedSticker>,
    s: CollectedSticker,
    m: int,
    n: int,
)
    requires
        0 < m <= n,
        sticker_of(items[m - 1].content) == Some(s),
    ensures
        has_url(unseen(items, collection, n), s.url@) || has_url(collection, s.url@),
    decreases n,
{
    let before = unseen(items, collection, n - 1);
    let all = unseen(items, collection, n);
    if m == n {
        if !has_url(collection, s.url@) && !has_url(before, s.url@) {
            assert(all[before.len() as int].url@ == s.url@);
        }
    } else {
        lemma_seen(items, collection, s, m, n - 1);
        if has_url(before, s.url@) {
            let i = choose|i: int| 0 <= i < before.len() && (#[trigger] before[i]).url@ == s.url@;
            assert(all[i] == before[i]);
        }
    }
}

proof fn lemma_collected(
    items: Seq<TimelineItem>,
    collection: Seq<CollectedSticker>,
    n: int,
    i: int,
)
    requires
        0 <= i < n <= items.len(),
        sticker_of(items[i].content) is Some,
    ensures
        has_url(collection, sticker_of(items[i].content)->0.url@) || has_url(
            unseen(items, collection, n),
            sticker_of(items[i].content)->0.url@,
        ),
    decreases n,
{
    let before = unseen(items, collection, n - 1);
    let all = unseen(items, collection, n);
    let url = sticker_of(items[i].content)->0.url@;
    if i == n - 1 {
        if !has_url(collection, url) && !has_url(before, url) {
            assert(all[before.len() as int].url@ == url);
        }
    } else {
        lemma_collected(items, collection, n - 1, i);
        if has_url(before, url) {
            let k = choose|k: int| 0 <= k < before.len() && (#[trigger] before[k]).url@ == url;
            assert(all[k].url@ == url);
        }
    }
}

/// Every sticker that shows is collected, where there is room; the newest that
/// was not known comes first, as it was sent; and the collection before keeps
/// its order behind the new ones.
pub proof fn law_stickers_that_show_are_collected(
    collection: Seq<CollectedSticker>,
    items: Seq<TimelineItem>,
    i: int,
    url: String,
    body: String,
    width: Option<u32>,
    height: Option<u32>,
)
    requires
        0 <= i < items.len(),
        items[i].content == (TimelineItemContent::Sticker { url, body, width, height }),
        collection.len() + unseen(items, collection, items.len() as int).len()
            <= MAX_COLLECTED_STICKERS,
    ensures
        has_url(harvested(collection, items), url@),
        i == items.len() - 1 && !has_url(collection, url@) && !has_url(
            unseen(items, collection, i),
            url@,
        ) ==> harvested(collection, items)[0] == (CollectedSticker { url, body, width, height }),
        harvested(collection, items).len() >= collection.len(),
        forall|k: int|
            0 <= k < collection.len() ==> #[trigger] harvested(
                collection,
                items,
            )[harvested(collection, items).len() - collection.len() + k] == collection[k],
{
    let n = items.len() as int;
    let fresh = unseen(items, collection, n);
    let after = harvested(collection, items);
    lemma_collected(items, collection, n, i);
    if fresh.len() > 0 {
        assert(after == fresh.reverse() + collection);
        if has_url(fresh, url@) {
            let k = choose|k: int| 0 <= k < fresh.len() && (#[trigger] fresh[k]).url@ == url@;
            assert(after[fresh.len() - 1 - k] == fresh[k]);
        }
    }
    if has_url(collection, url@) {
        let k = choose|k: int| 0 <= k < collection.len() && (#[trigger] collection[k]).url@ == url@;
        assert(after[after.len() - collection.len() + k] == collection[k]);
    }
}

} // verus!
