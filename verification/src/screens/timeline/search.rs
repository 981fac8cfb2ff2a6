//! Search over the loaded timeline: message text, captions, file names and
//! sender names, ignoring case.

use vstd::prelude::*;

use crate::events;
use crate::events::{TimelineItem, TimelineItemContent};
use crate::text;

verus! {

/// The text of an item that a search looks at.
pub open spec fn content_text(c: TimelineItemContent) -> Option<Seq<char>> {
    match c {
        TimelineItemContent::Text(body) => Some(body@),
        TimelineItemContent::Emote(body) => Some(body@),
        TimelineItemContent::Image { caption, .. } => match caption {
            Some(s) => Some(s@),
            None => None,
        },
        TimelineItemContent::Sticker { body, .. } => Some(body@),
        TimelineItemContent::File { filename, .. } => Some(filename@),
        TimelineItemContent::MembershipChange(desc) => Some(desc@),
        _ => None,
    }
}

/// The name that an item's sender goes by.
pub open spec fn sender_name(item: TimelineItem) -> Seq<char> {
    match item.sender_display_name {
        Some(s) => s@,
        None => events::friendly(item.sender@),
    }
}

/// Whether an item matches a lowercased query.
pub open spec fn matches_query(item: TimelineItem, query: Seq<char>) -> bool {
    ||| content_text(item.content) matches Some(t) && text::occurs(text::lowered(t), query)
    ||| text::occurs(text::lowered(sender_name(item)), query)
}

/// Whether an item is hidden because membership changes are.
pub open spec fn hidden_change(item: TimelineItem, show_membership_events: bool) -> bool {
    !show_membership_events && item.content is MembershipChange
}

/// The items from `i` on that match, by index.
pub open spec fn hits_from(
    items: Seq<TimelineItem>,
    query: Seq<char>,
    show_membership_events: bool,
    i: int,
) -> Seq<int>
    decreases items.len() - i,
{
    if i < 0 || i >= items.len() {
        Seq::empty()
    } else if !hidden_change(items[i], show_membership_events) && matches_query(items[i], query) {
        seq![i] + hits_from(items, query, show_membership_events, i + 1)
    } else {
        hits_from(items, query, show_membership_events, i + 1)
    }
}

/// The matching items of an active search, by index; none without one.
pub open spec fn hits(
    items: Seq<TimelineItem>,
    open: bool,
    query: Seq<char>,
    show_membership_events: bool,
) -> Seq<int> {
    let q = text::lowered(text::trimmed(query));
    if !open || q.len() == 0 {
        Seq::empty()
    } else {
        hits_from(items, q, show_membership_events, 0)
    }
}

/// The text of an item that a search looks at.
fn text_of(c: &TimelineItemContent) -> (r: Option<&str>)
    ensures
        match (r, content_text(*c)) {
            (Some(s), Some(t)) => s@ == t,
            (None, None) => true,
            _ => false,
        },
{
    match c {
        TimelineItemContent::Text(body) => Some(body.as_str()),
        TimelineItemContent::Emote(body) => Some(body.as_str()),
        TimelineItemContent::Image { caption, .. } => match caption {
            Some(s) => Some(s.as_str()),
            None => None,
        },
        TimelineItemContent::Sticker { body, .. } => Some(body.as_str()),
        TimelineItemContent::File { filename, .. } => Some(filename.as_str()),
        TimelineItemContent::MembershipChange(desc) => Some(desc.as_str()),
        TimelineItemContent::Redacted => None,
        TimelineItemContent::DateDivider(_) => None,
        TimelineItemContent::NewMessagesDivider => None,
    }
}

/// The name that an item's sender goes by.
pub fn sender_of(item: &TimelineItem) -> (r: &str)
    ensures
        r@ == sender_name(*item),
{
    match &item.sender_display_name {
        Some(s) => s.as_str(),
        None => events::friendly_user_id(item.sender.as_str()),
    }
}

/// Whether an item matches a lowercased query.
pub fn item_matches(item: &TimelineItem, query_lower: &str) -> (r: bool)
    ensures
        r == matches_query(*item, query_lower@),
{
    if let Some(t) = text_of(&item.content) {
        if text::contains_str(t.to_lowercase().as_str(), query_lower) {
            return true;
        }
    }
    text::contains_str(sender_of(item).to_lowercase().as_str(), query_lower)
}

/// Whether an item is a change of membership.
pub fn is_membership_change(item: &TimelineItem) -> (r: bool)
    ensures
        r == (item.content is MembershipChange),
{
    match &item.content {
        TimelineItemContent::MembershipChange(_) => true,
        _ => false,
    }
}

/// The matching items of an active search, by index. Hidden membership
/// changes stay out, so that the match count and the timeline agree.
pub fn find_matches(
    items: &Vec<TimelineItem>,
    open: bool,
    query: &str,
    show_membership_events: bool,
) -> (r: Vec<usize>)
    ensures
        text::ints(r@) == hits(items@, open, query@, show_membership_events),
{
    let mut r: Vec<usize> = Vec::new();
    let q = text::trim(query).to_lowercase();
    if !open || q.as_str().unicode_len() == 0 {
        assert(text::ints(r@) =~= Seq::<int>::empty());
        return r;
    }
    let ghost all = hits_from(items@, q@, show_membership_events, 0);
    let mut i: usize = 0;
    assert(text::ints(r@) =~= Seq::<int>::empty());
    assert(all =~= text::ints(r@) + hits_from(items@, q@, show_membership_events, 0));
    while i < items.len()
        invariant
            i <= items@.len(),
            all == text::ints(r@) + hits_from(items@, q@, show_membership_events, i as int),
        decreases items@.len() - i,
    {
        let hidden = !show_membership_events && is_membership_change(&items[i]);
        if !hidden && item_matches(&items[i], q.as_str()) {
            let ghost before = text::ints(r@);
            r.push(i);
            proof {
                let rest = hits_from(items@, q@, show_membership_events, i + 1);
                assert(text::ints(r@) =~= before.push(i as int));
                assert(before.push(i as int) + rest =~= before + (seq![i as int] + rest));
            }
        }
        i = i + 1;
    }
    assert(all =~= text::ints(r@));
    r
}

/// Every match is an item of the list, and they come in order, each once.
pub proof fn law_hits_are_ordered(
    items: Seq<TimelineItem>,
    open: bool,
    query: Seq<char>,
    show_membership_events: bool,
)
    ensures
        ({
            let h = hits(items, open, query, show_membership_events);
            &&& forall|k: int| 0 <= k < h.len() ==> 0 <= #[trigger] h[k] < items.len()
            &&& forall|j: int, k: int| 0 <= j < k < h.len() ==> #[trigger] h[j] < #[trigger] h[k]
        }),
{
    lemma_hits(items, text::lowered(text::trimmed(query)), show_membership_events, 0);
}

proof fn lemma_hits(
    items: Seq<TimelineItem>,
    query: Seq<char>,
    show_membership_events: bool,
    i: int,
)
    requires
        0 <= i,
    ensures
        ({
            let h = hits_from(items, query, show_membership_events, i);
            &&& forall|k: int| 0 <= k < h.len() ==> i <= #[trigger] h[k] < items.len()
            &&& forall|j: int, k: int| 0 <= j < k < h.len() ==> #[trigger] h[j] < #[trigger] h[k]
        }),
    decreases items.len() - i,
{
    if i < items.len() {
        lemma_hits(items, query, show_membership_events, i + 1);
        let rest = hits_from(items, query, show_membership_events, i + 1);
        let h = hits_from(items, query, show_membership_events, i);
        if h != rest {
            assert(h =~= seq![i] + rest);
            assert forall|k: int| 0 <= k < h.len() implies i <= #[trigger] h[k] < items.len() by {
                if k > 0 {
                    assert(h[k] == rest[k - 1]);
                }
            }
            assert forall|j: int, k: int| 0 <= j < k < h.len() implies #[trigger] h[j]
                < #[trigger] h[k] by {
                assert(h[k] == rest[k - 1]);
                if j > 0 {
                    assert(h[j] == rest[j - 1]);
                }
            }
        }
    }
}

/// Whether the text is one that an item is found by: what it says, or the name
/// of who says it. The display name is that name wherever there is one; only
/// without one is it taken from the user id.
pub open spec fn found_by(item: TimelineItem, t: Seq<char>) -> bool {
    ||| match item.content {
        TimelineItemContent::Text(body) => t == body@,
        TimelineItemContent::Emote(body) => t == body@,
        TimelineItemContent::Image { caption: Some(caption), .. } => t == caption@,
        TimelineItemContent::Sticker { body, .. } => t == body@,
        TimelineItemContent::File { filename, .. } => t == filename@,
        TimelineItemContent::MembershipChange(change) => t == change@,
        _ => false,
    }
    ||| item.sender_display_name matches Some(n) && t == n@
    ||| item.sender_display_name is None && t == events::friendly(item.sender@)
}

/// An item matches exactly where the query stands somewhere in the lower case
/// of a text that it is found by.
pub proof fn law_what_a_search_finds(item: TimelineItem, query: Seq<char>, r: bool)
    requires
        r == matches_query(item, query),
    ensures
        forall|t: Seq<char>, a: Seq<char>, b: Seq<char>|
            found_by(item, t) && text::lowered(t) == #[trigger] (a + query + b) && #[trigger]
                text::lowered(t) == text::lowered(t) ==> r,
        r ==> exists|t: Seq<char>, a: Seq<char>, b: Seq<char>|
            found_by(item, t) && #[trigger] text::lowered(t) == #[trigger] (a + query + b),
{
    assert forall|t: Seq<char>, a: Seq<char>, b: Seq<char>|
        found_by(item, t) && text::lowered(t) == #[trigger] (a + query + b) && #[trigger]
            text::lowered(t) == text::lowered(t) implies r by {
        lemma_occurs(text::lowered(t), a, query, b);
    }
    if r {
        let t = if content_text(item.content) matches Some(t) && text::occurs(
            text::lowered(t),
            query,
        ) {
            content_text(item.content)->0
        } else {
            sender_name(item)
        };
        let l = text::lowered(t);
        assert(found_by(item, t));
        assert(text::occurs(l, query));
        let i = choose|i: int| text::occurs_at(l, query, i);
        let a = l.take(i);
        let b = l.skip(i + query.len());
        assert(l =~= a + query + b);
        assert(text::lowered(t) == a + query + b);
    }
}

proof fn lemma_occurs(s: Seq<char>, a: Seq<char>, q: Seq<char>, b: Seq<char>)
    requires
        s == a + q + b,
    ensures
        text::occurs(s, q),
{
    let i = a.len() as int;
    assert(s.subrange(i, i + q.len()) =~= q);
    assert(text::occurs_at(s, q, i));
}

/// A query that stands in the lower case of the sender's display name finds
/// the item, whatever the item says.
pub proof fn law_a_display_name_is_found(
    item: TimelineItem,
    n: String,
    a: Seq<char>,
    query: Seq<char>,
    b: Seq<char>,
    r: bool,
)
    requires
        r == matches_query(item, query),
        item.sender_display_name == Some(n),
        text::lowered(n@) == a + query + b,
    ensures
        r,
{
    lemma_occurs(text::lowered(n@), a, query, b);
}

/// An open search with something in it finds exactly the items that match,
/// less the changes of membership where those are hidden; any other search
/// finds nothing.
pub proof fn law_every_match_is_found(
    items: Seq<TimelineItem>,
    open: bool,
    query: Seq<char>,
    show_membership_events: bool,
    r: Seq<usize>,
    i: usize,
)
    requires
        text::ints(r) == hits(items, open, query, show_membership_events),
    ensures
        r.contains(i) == {
            &&& open
            &&& text::lowered(text::trimmed(query)).len() > 0
            &&& i < items.len()
            &&& show_membership_events || !(items[i as int].content is MembershipChange)
            &&& matches_query(items[i as int], text::lowered(text::trimmed(query)))
        },
{
    let q = text::lowered(text::trimmed(query));
    let h = hits(items, open, query, show_membership_events);
    assert(r.contains(i) == h.contains(i as int)) by {
        if r.contains(i) {
            let k = choose|k: int| 0 <= k < r.len() && r[k] == i;
            assert(text::ints(r)[k] == i as int);
        }
        if h.contains(i as int) {
            let k = choose|k: int| 0 <= k < h.len() && h[k] == i as int;
            assert(text::ints(r)[k] == r[k] as int);
            assert(r[k] == i);
        }
    }
    if open && q.len() > 0 {
        lemma_hits_exactly(items, q, show_membership_events, 0, i as int);
    }
}

proof fn lemma_hits_exactly(
    items: Seq<TimelineItem>,
    query: Seq<char>,
    show_membership_events: bool,
    from: int,
    i: int,
)
    requires
        0 <= from,
    ensures
        hits_from(items, query, show_membership_events, from).contains(i) == {
            &&& from <= i < items.len()
            &&& show_membership_events || !(items[i].content is MembershipChange)
            &&& matches_query(items[i], query)
        },
    decreases items.len() - from,
{
    if from < items.len() {
        lemma_hits_exactly(items, query, show_membership_events, from + 1, i);
        let rest = hits_from(items, query, show_membership_events, from + 1);
        let h = hits_from(items, query, show_membership_events, from);
        if !hidden_change(items[from], show_membership_events) && matches_query(
            items[from],
            query,
        ) {
            assert(h == seq![from] + rest);
            if rest.contains(i) {
                let k = choose|k: int| 0 <= k < rest.len() && rest[k] == i;
                assert(h[k + 1] == i);
            }
            if i == from {
                assert(h[0] == i);
            }
            if h.contains(i) && i != from {
                let k = choose|k: int| 0 <= k < h.len() && h[k] == i;
                assert(rest[k - 1] == i);
            }
        }
    }
}

} // verus!
