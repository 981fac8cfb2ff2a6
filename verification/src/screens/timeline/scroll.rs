//! Which messages hold the view in place while the list reflows.
//!
//! A message on screen acts as the anchor: it is probed for where it actually
//! sits, and the view is scrolled by however far it moved.

use vstd::prelude::*;

use crate::events::TimelineItem;
use crate::floats;
use crate::text;

verus! {

/// What the list's viewport measured last, as the bit patterns of `f32`s.
#[derive(Debug, Clone, Copy, PartialEq, Eq, Structural)]
pub struct Geometry {
    pub content_height: u32,
    pub from_bottom: u32,
    pub bounds_height: u32,
    pub viewport_top: u32,
    pub viewport_center: u32,
}

/// A message acting as the anchor: where its top edge was last measured, and
/// the scroll generation that the measurement belongs to. An older generation
/// predates the user's latest input; restoring it would revert that input.
#[derive(Debug)]
pub struct ScrollAnchor {
    pub event_id: String,
    pub y: u32,
    pub generation: u64,
}

/// Why an anchor probe was issued: after a scroll it re-learns the anchor,
/// after a reflow it measures the displacement to undo.
#[derive(Debug, Clone, Copy, PartialEq, Eq, Structural)]
pub enum ProbePurpose {
    Refresh,
    Correct,
}

/// What the list reported about a scroll or a reflow.
#[derive(Debug, Clone, Copy, PartialEq, Eq, Structural)]
pub struct Scroll {
    pub geometry: Geometry,
    /// The content height changed.
    pub reflowed: bool,
    /// The distance from the bottom changed.
    pub user_scrolled: bool,
    /// It shrank.
    pub moved_toward_bottom: bool,
    /// At most 24 pixels from the bottom.
    pub at_bottom: bool,
    /// At most 150 pixels from the bottom.
    pub near_edge: bool,
    /// More than half a pixel from the bottom.
    pub gap: bool,
    /// At most 60 pixels from the top.
    pub near_top: bool,
    /// The whole list fits on screen.
    pub fits: bool,
    /// The item estimated at the middle of the viewport.
    pub middle: usize,
    /// The time, in nanoseconds since some fixed instant.
    pub now: u64,
}

/// How far from the bottom still counts as the bottom: 24.0 as an `f32`.
pub const AT_BOTTOM: u32 = 0x41C0_0000;

/// How far from the bottom the view sticks to it: 150.0 as an `f32`.
pub const NEAR_EDGE: u32 = 0x4316_0000;

/// What is no gap yet: 0.5 as an `f32`.
pub const NO_GAP: u32 = 0x3F00_0000;

/// How far from the top older messages are loaded: 60.0 as an `f32`.
pub const NEAR_TOP: u32 = 0x4270_0000;

/// Whether this is the report of what was measured. Distances are compared
/// as the numbers they are; those that are no numbers compare as false.
pub open spec fn reports(r: Scroll, before: Geometry, after: Geometry, from_top: u32) -> bool {
    &&& r.geometry == after
    &&& r.moved_toward_bottom == floats::below(after.from_bottom, before.from_bottom)
    &&& r.at_bottom == floats::not_above(after.from_bottom, AT_BOTTOM)
    &&& r.near_edge == floats::not_above(after.from_bottom, NEAR_EDGE)
    &&& r.gap == floats::below(NO_GAP, after.from_bottom)
    &&& r.near_top == floats::not_above(from_top, NEAR_TOP)
    &&& r.fits == floats::not_above(after.content_height, after.bounds_height)
}

/// The report of what was measured. How far the content and the view moved,
/// and which item is in the middle, takes arithmetic: those are handed in.
pub fn report(
    before: Geometry,
    after: Geometry,
    from_top: u32,
    reflowed: bool,
    user_scrolled: bool,
    middle: usize,
    now: u64,
) -> (r: Scroll)
    ensures
        reports(r, before, after, from_top),
        r.reflowed == reflowed,
        r.user_scrolled == user_scrolled,
        r.middle == middle,
        r.now == now,
{
    Scroll {
        geometry: after,
        reflowed,
        user_scrolled,
        moved_toward_bottom: floats::is_below(after.from_bottom, before.from_bottom),
        at_bottom: floats::is_at_most(after.from_bottom, AT_BOTTOM),
        near_edge: floats::is_at_most(after.from_bottom, NEAR_EDGE),
        gap: floats::is_below(NO_GAP, after.from_bottom),
        near_top: floats::is_at_most(from_top, NEAR_TOP),
        fits: floats::is_at_most(after.content_height, after.bounds_height),
        middle,
        now,
    }
}

/// What a probe of an anchor's row measured.
#[derive(Debug, Clone, Copy, PartialEq, Eq, Structural)]
pub struct Measured {
    /// The row's top edge.
    pub y: u32,
    /// It lies nearer to the viewport's center than the anchor does.
    pub nearer: bool,
    /// It lies more than a pixel from where the anchor was measured.
    pub moved: bool,
}

/// How long scroll input counts as recent.
pub const SCROLL_GRACE_NS: u64 = 1_500_000_000;

/// Whether less than `window` has passed since `at`.
pub open spec fn within(at: Option<u64>, now: u64, window: u64) -> bool {
    match at {
        Some(t) => now - t < window,
        None => false,
    }
}

/// Whether less than `window` has passed since `at`.
pub fn is_within(at: Option<u64>, now: u64, window: u64) -> (r: bool)
    ensures
        r == within(at, now, window),
{
    match at {
        Some(t) => now < t || now - t < window,
        None => false,
    }
}

/// The generation after this one.
pub open spec fn next_generation(g: u64) -> u64 {
    if g == u64::MAX {
        0
    } else {
        (g + 1) as u64
    }
}

/// The generation after this one.
pub fn bump(g: u64) -> (r: u64)
    ensures
        r == next_generation(g),
{
    if g == u64::MAX {
        0
    } else {
        g + 1
    }
}

// ---------------------------------------------------------------------------
// Finding messages.
// ---------------------------------------------------------------------------
/// The event id of an item, where there is one.
pub open spec fn id_at(items: Seq<TimelineItem>, i: int) -> Option<Seq<char>> {
    if 0 <= i < items.len() {
        text::opt_view(items[i].event_id)
    } else {
        None
    }
}

/// The first item at or after `i` with the event id.
pub open spec fn position_from(items: Seq<TimelineItem>, id: Seq<char>, i: int) -> Option<int>
    decreases items.len() - i,
{
    if i < 0 || i >= items.len() {
        None
    } else if id_at(items, i) == Some(id) {
        Some(i)
    } else {
        position_from(items, id, i + 1)
    }
}

/// The first item with the event id.
pub open spec fn position(items: Seq<TimelineItem>, id: Seq<char>) -> Option<int> {
    position_from(items, id, 0)
}

/// Whether the item has this event id.
pub fn has_id(item: &TimelineItem, id: &str) -> (r: bool)
    ensures
        r == (text::opt_view(item.event_id) == Some(id@)),
{
    match &item.event_id {
        Some(e) => text::str_eq(e.as_str(), id),
        None => false,
    }
}

/// The first item with the event id.
pub fn find_item(items: &Vec<TimelineItem>, id: &str) -> (r: Option<usize>)
    ensures
        match (r, position(items@, id@)) {
            (Some(i), Some(k)) => i == k && i < items@.len(),
            (None, None) => true,
            _ => false,
        },
{
    let mut i: usize = 0;
    while i < items.len()
        invariant
            i <= items@.len(),
            position(items@, id@) == position_from(items@, id@, i as int),
        decreases items@.len() - i,
    {
        if has_id(&items[i], id) {
            return Some(i);
        }
        i = i + 1;
    }
    None
}

/// The event id nearest to `index`, looking at distance `d` and further:
/// below first, then above.
pub open spec fn nearest_from(items: Seq<TimelineItem>, index: int, d: int) -> Option<Seq<char>>
    decreases items.len() - d,
{
    if d >= items.len() {
        None
    } else {
        let below = index - d;
        let above = index + d;
        if d > 0 && !(0 <= below < items.len()) && !(0 <= above < items.len()) {
            None
        } else if id_at(items, below) is Some {
            id_at(items, below)
        } else if id_at(items, above) is Some {
            id_at(items, above)
        } else {
            nearest_from(items, index, d + 1)
        }
    }
}

/// The event id of the item at `index`, or of the nearest item that has one.
pub open spec fn nearest(items: Seq<TimelineItem>, index: int) -> Option<Seq<char>> {
    nearest_from(items, index, 0)
}

/// The event id of an item, where there is one.
fn get_id(items: &Vec<TimelineItem>, i: usize) -> (r: Option<String>)
    ensures
        text::opt_view(r) == id_at(items@, i as int),
{
    if i < items.len() {
        text::clone_opt(&items[i].event_id)
    } else {
        None
    }
}

/// The event id of the item at `index`, or of the nearest item that has one
/// (dividers and local echoes do not), searching outward in both directions.
pub fn nearest_event_id(items: &Vec<TimelineItem>, index: usize) -> (r: Option<String>)
    ensures
        text::opt_view(r) == nearest(items@, index as int),
{
    let n: usize = items.len();
    let mut d: usize = 0;
    while d < n
        invariant
            n == items@.len(),
            d <= n,
            nearest(items@, index as int) == nearest_from(items@, index as int, d as int),
        decreases n - d,
    {
        let low = d <= index && index - d < n;
        let high = index < n && d < n - index;
        if d > 0 && !low && !high {
            return None;
        }
        if low {
            let id = get_id(items, index - d);
            if id.is_some() {
                return id;
            }
        }
        if high {
            let id = get_id(items, index + d);
            if id.is_some() {
                return id;
            }
        }
        d = d + 1;
    }
    None
}

// ---------------------------------------------------------------------------
// Anchor candidates.
// ---------------------------------------------------------------------------
/// The list with one more id, unless it is there already.
pub open spec fn with_new(out: Seq<Seq<char>>, id: Option<Seq<char>>) -> Seq<Seq<char>> {
    match id {
        Some(x) => if out.contains(x) {
            out
        } else {
            out.push(x)
        },
        None => out,
    }
}

/// The number moved into `[0, last]`.
pub open spec fn clamped(i: int, last: int) -> int {
    if i < 0 {
        0
    } else if i > last {
        last
    } else {
        i
    }
}

/// The list with the messages at each of the offsets from `base` added.
pub open spec fn spread(
    items: Seq<TimelineItem>,
    base: int,
    offsets: Seq<i64>,
    k: int,
    out: Seq<Seq<char>>,
) -> Seq<Seq<char>>
    decreases offsets.len() - k,
{
    if k < 0 || k >= offsets.len() {
        out
    } else {
        let at = clamped(base + offsets[k], items.len() - 1);
        spread(items, base, offsets, k + 1, with_new(out, nearest(items, at)))
    }
}

/// The neighbourhood of an anchor.
pub open spec fn near_offsets() -> Seq<i64> {
    seq![0i64, -1i64, 1i64, -2i64, 2i64, -4i64, 4i64, -8i64, 8i64]
}

/// The neighbourhood of an estimate.
pub open spec fn wide_offsets() -> Seq<i64> {
    seq![
        0i64,
        -2i64,
        2i64,
        -5i64,
        5i64,
        -10i64,
        10i64,
        -20i64,
        20i64,
        -40i64,
        40i64,
        -80i64,
        80i64,
    ]
}

/// The candidates for a fresh anchor.
pub open spec fn candidates(
    items: Seq<TimelineItem>,
    hovered: Option<String>,
    anchor: Option<ScrollAnchor>,
    fits: bool,
    middle: int,
) -> Seq<Seq<char>> {
    let first = with_new(Seq::empty(), text::opt_view(hovered));
    if items.len() == 0 {
        first
    } else {
        match anchor {
            Some(a) if position(items, a.event_id@) is Some => spread(
                items,
                position(items, a.event_id@)->0,
                near_offsets(),
                0,
                first,
            ),
            _ => if fits {
                first
            } else if hovered is None {
                spread(items, middle, wide_offsets(), 0, first)
            } else {
                spread(items, middle, seq![0i64], 0, first)
            },
        }
    }
}

/// Whether the list holds the id.
pub fn holds(out: &Vec<String>, id: &str) -> (r: bool)
    ensures
        r == text::views(out@).contains(id@),
{
    let mut i: usize = 0;
    while i < out.len()
        invariant
            i <= out@.len(),
            forall|k: int| 0 <= k < i ==> (#[trigger] out@[k])@ != id@,
        decreases out@.len() - i,
    {
        if text::str_eq(out[i].as_str(), id) {
            assert(text::views(out@)[i as int] == id@);
            return true;
        }
        i = i + 1;
    }
    assert forall|k: int| 0 <= k < text::views(out@).len() implies text::views(out@)[k] != id@ by {
        assert(out@[k]@ != id@);
    }
    false
}

/// Adds an id to the list, unless it is there already.
fn push_new(out: &mut Vec<String>, id: Option<String>)
    ensures
        text::views(final(out)@) == with_new(text::views(old(out)@), text::opt_view(id)),
{
    if let Some(id) = id {
        if !holds(out, id.as_str()) {
            let ghost before = text::views(out@);
            let ghost x = id@;
            out.push(id);
            assert(text::views(out@) =~= before.push(x));
        }
    }
}

/// Adds the messages at each of the offsets from `base`.
fn push_spread(
    items: &Vec<TimelineItem>,
    base: usize,
    offsets: &Vec<i64>,
    out: &mut Vec<String>,
)
    requires
        items@.len() > 0,
    ensures
        text::views(final(out)@) == spread(
            items@,
            base as int,
            offsets@,
            0,
            text::views(old(out)@),
        ),
{
    let n: usize = items.len();
    let last: i128 = n as i128 - 1;
    let ghost whole = spread(items@, base as int, offsets@, 0, text::views(out@));
    let mut k: usize = 0;
    while k < offsets.len()
        invariant
            0 < n == items@.len(),
            last == n - 1,
            k <= offsets@.len(),
            whole == spread(items@, base as int, offsets@, k as int, text::views(out@)),
        decreases offsets@.len() - k,
    {
        let at: i128 = base as i128 + offsets[k] as i128;
        let index: usize = if at < 0 {
            0
        } else if at > last {
            last as usize
        } else {
            at as usize
        };
        assert(index == clamped(base + offsets@[k as int], items@.len() - 1));
        push_new(out, nearest_event_id(items, index));
        k = k + 1;
    }
}

/// Probe candidates for a fresh anchor: the hovered message first, which is on
/// screen by definition; then the neighbourhood of the current anchor, or a
/// spread around the estimated middle of the viewport. Candidates only have
/// to land some message that is on screen: the probe measures its true
/// position. With nothing hovered the spread is wide; with a hovered message
/// in hand the estimate alone suffices.
pub fn anchor_candidates(
    items: &Vec<TimelineItem>,
    hovered: &Option<String>,
    anchor: &Option<ScrollAnchor>,
    fits: bool,
    middle: usize,
) -> (r: Vec<String>)
    ensures
        text::views(r@) == candidates(items@, *hovered, *anchor, fits, middle as int),
{
    let mut out: Vec<String> = Vec::new();
    assert(text::views(out@) =~= Seq::<Seq<char>>::empty());
    push_new(&mut out, text::clone_opt(hovered));
    if items.len() == 0 {
        return out;
    }
    if let Some(a) = anchor {
        if let Some(i) = find_item(items, a.event_id.as_str()) {
            let near: Vec<i64> = vec![0i64, -1i64, 1i64, -2i64, 2i64, -4i64, 4i64, -8i64, 8i64];
            assert(near@ =~= near_offsets());
            push_spread(items, i, &near, &mut out);
            return out;
        }
    }
    if fits {
        return out;
    }
    let offsets: Vec<i64> = if hovered.is_none() {
        let wide: Vec<i64> = vec![
            0i64,
            -2i64,
            2i64,
            -5i64,
            5i64,
            -10i64,
            10i64,
            -20i64,
            20i64,
            -40i64,
            40i64,
            -80i64,
            80i64,
        ];
        assert(wide@ =~= wide_offsets());
        wide
    } else {
        let one: Vec<i64> = vec![0i64];
        assert(one@ =~= seq![0i64]);
        one
    };
    push_spread(items, middle, &offsets, &mut out);
    out
}

// ---------------------------------------------------------------------------
// Laws.
// ---------------------------------------------------------------------------
/// No message is probed twice, and a hovered one is probed first.
pub proof fn law_candidates_are_distinct(
    items: Seq<TimelineItem>,
    hovered: Option<String>,
    anchor: Option<ScrollAnchor>,
    fits: bool,
    middle: int,
)
    ensures
        candidates(items, hovered, anchor, fits, middle).no_duplicates(),
        hovered matches Some(h) ==> candidates(items, hovered, anchor, fits, middle).len() > 0
            && candidates(items, hovered, anchor, fits, middle)[0] == h@,
{
    let first = with_new(Seq::empty(), text::opt_view(hovered));
    assert(first.no_duplicates());
    if items.len() > 0 {
        match anchor {
            Some(a) if position(items, a.event_id@) is Some => {
                lemma_spread(items, position(items, a.event_id@)->0, near_offsets(), 0, first);
            },
            _ => {
                if hovered is None {
                    lemma_spread(items, middle, wide_offsets(), 0, first);
                } else {
                    lemma_spread(items, middle, seq![0i64], 0, first);
                }
            },
        }
    }
}

proof fn lemma_spread(
    items: Seq<TimelineItem>,
    base: int,
    offsets: Seq<i64>,
    k: int,
    out: Seq<Seq<char>>,
)
    requires
        out.no_duplicates(),
        0 <= k,
    ensures
        spread(items, base, offsets, k, out).no_duplicates(),
        out.len() <= spread(items, base, offsets, k, out).len(),
        out.len() > 0 ==> spread(items, base, offsets, k, out)[0] == out[0],
    decreases offsets.len() - k,
{
    if k < offsets.len() {
        let at = clamped(base + offsets[k], items.len() - 1);
        let next = with_new(out, nearest(items, at));
        if nearest(items, at) is Some && !out.contains(nearest(items, at)->0) {
            let x = nearest(items, at)->0;
            assert forall|i: int, j: int|
                0 <= i < next.len() && 0 <= j < next.len() && i != j implies next[i]
                != next[j] by {
                if i < out.len() && j < out.len() {
                } else if i == out.len() {
                    assert(out.contains(out[j]));
                } else {
                    assert(out.contains(out[i]));
                }
            }
        }
        lemma_spread(items, base, offsets, k + 1, next);
    }
}

/// Every message that the search outward finds is one of the list's.
pub proof fn law_the_nearest_id_is_listed(items: Seq<TimelineItem>, index: int)
    ensures
        nearest(items, index) matches Some(id) ==> position(items, id) is Some,
        0 <= index < items.len() && id_at(items, index) is Some ==> nearest(items, index)
            == id_at(items, index),
{
    lemma_nearest_listed(items, index, 0);
}

proof fn lemma_nearest_listed(items: Seq<TimelineItem>, index: int, d: int)
    requires
        0 <= d,
    ensures
        nearest_from(items, index, d) matches Some(id) ==> position(items, id) is Some,
    decreases items.len() - d,
{
    if d < items.len() {
        if id_at(items, index - d) is Some {
            lemma_position(items, id_at(items, index - d)->0, index - d, 0);
        } else if id_at(items, index + d) is Some {
            lemma_position(items, id_at(items, index + d)->0, index + d, 0);
        } else {
            lemma_nearest_listed(items, index, d + 1);
        }
    }
}

/// An id that stands somewhere is found.
pub proof fn lemma_position(items: Seq<TimelineItem>, id: Seq<char>, k: int, i: int)
    requires
        0 <= i <= k < items.len(),
        id_at(items, k) == Some(id),
    ensures
        position_from(items, id, i) matches Some(j) && i <= j <= k && id_at(items, j) == Some(id),
    decreases k - i,
{
    if id_at(items, i) != Some(id) {
        lemma_position(items, id, k, i + 1);
    }
}

/// Where nothing is hovered, the first message that is probed is the anchor
/// itself, as long as it is loaded.
pub proof fn law_the_anchor_is_probed_first(
    items: Seq<TimelineItem>,
    a: ScrollAnchor,
    fits: bool,
    middle: int,
    i: int,
)
    requires
        0 <= i < items.len(),
        text::opt_view(items[i].event_id) == Some(a.event_id@),
    ensures
        candidates(items, None, Some(a), fits, middle).len() > 0,
        candidates(items, None, Some(a), fits, middle)[0] == a.event_id@,
{
    let id = a.event_id@;
    lemma_first_position(items, id, i, 0);
    let k = position(items, id)->0;
    law_the_nearest_id_is_listed(items, k);
    assert(clamped(k + near_offsets()[0], items.len() - 1) == k);
    let first = with_new(Seq::<Seq<char>>::empty(), None);
    let next = with_new(first, Some(id));
    assert(next == seq![id]);
    assert(spread(items, k, near_offsets(), 0, first) == spread(items, k, near_offsets(), 1, next));
    lemma_spread_keeps(items, k, near_offsets(), 1, next);
}

proof fn lemma_first_position(items: Seq<TimelineItem>, id: Seq<char>, i: int, from: int)
    requires
        0 <= from <= i < items.len(),
        id_at(items, i) == Some(id),
    ensures
        position_from(items, id, from) matches Some(k) && 0 <= k < items.len() && id_at(items, k)
            == Some(id),
    decreases i - from,
{
    if id_at(items, from) != Some(id) {
        lemma_first_position(items, id, i, from + 1);
    }
}

proof fn lemma_spread_keeps(
    items: Seq<TimelineItem>,
    base: int,
    offsets: Seq<i64>,
    k: int,
    out: Seq<Seq<char>>,
)
    requires
        0 <= k,
        out.len() > 0,
    ensures
        spread(items, base, offsets, k, out).len() > 0,
        spread(items, base, offsets, k, out)[0] == out[0],
    decreases offsets.len() - k,
{
    if k < offsets.len() {
        let at = clamped(base + offsets[k], items.len() - 1);
        lemma_spread_keeps(items, base, offsets, k + 1, with_new(out, nearest(items, at)));
    }
}

/// Input counts as recent for as long as its window lasts, and a generation is
/// never its own successor.
pub proof fn law_time_and_generations_pass(at: u64, now: u64, window: u64, g: u64)
    requires
        at <= now,
        window > 0,
    ensures
        within(Some(at), now, window) == (now - at < window),
        !within(None, now, window),
        next_generation(g) != g,
        g < u64::MAX ==> next_generation(g) == g + 1,
{
}

} // verus!
