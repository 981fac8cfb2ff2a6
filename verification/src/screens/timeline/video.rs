//! The video that plays inline: a native player glued to the stage that its
//! message reserves. Every probe of the stage tells where the player belongs.

use vstd::prelude::*;

use crate::events::EmbedVideo;
use crate::floats;
use crate::screens::timeline::{InlineVideo, Rect};

verus! {

/// How many probes in a row may miss the stage before the video stops. A
/// fresh stage is laid out a moment later; one that stays away is gone.
pub const INLINE_VIDEO_MISS_LIMIT: u32 = 30;

/// 1.0 as an `f32`.
pub const UNSCALED: u32 = 0x3F80_0000;

/// What is to be done with the native player.
#[derive(Debug)]
pub enum VideoStep {
    Nothing,
    /// Create it.
    Open { video: EmbedVideo, full: Rect, visible: Option<Rect>, scale: u32 },
    /// Move it.
    Sync { full: Rect, visible: Option<Rect>, scale: u32 },
    Close,
    /// Probe again, and hide the player meanwhile where there is one.
    Reprobe { hide: bool },
}

/// Whether a bit pattern is that of a zero.
pub open spec fn zero(bits: u32) -> bool {
    bits == 0 || bits == 0x8000_0000
}

/// Whether two `f32`s are equal.
pub open spec fn same_number(a: u32, b: u32) -> bool {
    &&& !floats::not_a_number(a)
    &&& !floats::not_a_number(b)
    &&& a == b || (zero(a) && zero(b))
}

/// Whether two rectangles are equal.
pub open spec fn same_rect(a: Rect, b: Rect) -> bool {
    &&& same_number(a.x, b.x)
    &&& same_number(a.y, b.y)
    &&& same_number(a.width, b.width)
    &&& same_number(a.height, b.height)
}

/// Whether two visible parts are equal.
pub open spec fn same_part(a: Option<Rect>, b: Option<Rect>) -> bool {
    match (a, b) {
        (Some(x), Some(y)) => same_rect(x, y),
        (None, None) => true,
        _ => false,
    }
}

/// Whether the player already stands where a probe found the stage.
pub open spec fn in_place(v: InlineVideo, full: Rect, visible: Option<Rect>) -> bool {
    v.synced matches Some(at) && same_rect(at.0, full) && same_part(at.1, visible)
}

/// Whether two `f32`s are equal.
fn numbers_equal(a: u32, b: u32) -> (r: bool)
    ensures
        r == same_number(a, b),
{
    !floats::is_nan(a) && !floats::is_nan(b) && (a == b || ((a == 0 || a == 0x8000_0000) && (b == 0 || b == 0x8000_0000)))
}

/// Whether two rectangles are equal.
fn rects_equal(a: Rect, b: Rect) -> (r: bool)
    ensures
        r == same_rect(a, b),
{
    numbers_equal(a.x, b.x) && numbers_equal(a.y, b.y) && numbers_equal(a.width, b.width)
        && numbers_equal(a.height, b.height)
}

/// Whether the player already stands where a probe found the stage.
fn stands(synced: Option<(Rect, Option<Rect>)>, full: Rect, visible: Option<Rect>) -> (r: bool)
    ensures
        r == (synced matches Some(at) && same_rect(at.0, full) && same_part(at.1, visible)),
{
    match synced {
        Some((f, v)) => rects_equal(f, full) && match (v, visible) {
            (Some(x), Some(y)) => rects_equal(x, y),
            (None, None) => true,
            _ => false,
        },
        None => false,
    }
}

/// What of the stage the player may cover: nothing under an overlay, which
/// the player would draw over.
pub open spec fn uncovered(visible: Option<Rect>, overlay_open: bool) -> Option<Rect> {
    if overlay_open {
        None
    } else {
        visible
    }
}

/// What a probe that found the stage leaves.
pub open spec fn stage_found(
    v: InlineVideo,
    after: InlineVideo,
    full: Rect,
    visible: Option<Rect>,
    step: VideoStep,
) -> bool {
    let seen = InlineVideo { misses: 0, ..v };
    if v.live {
        if in_place(v, full, visible) {
            after == seen && step is Nothing
        } else {
            &&& after == (InlineVideo { synced: Some((full, visible)), ..seen })
            &&& step == (VideoStep::Sync {
                full,
                visible,
                scale: match v.scale {
                    Some(s) => s,
                    None => UNSCALED,
                },
            })
        }
    } else {
        match (v.error, v.scale) {
            (None, Some(scale)) => {
                &&& after == (InlineVideo { live: true, synced: Some((full, visible)), ..seen })
                &&& step == (VideoStep::Open { video: v.video, full, visible, scale })
            },
            _ => after == seen && step is Nothing,
        }
    }
}

/// What a probe leaves, and what is to be done with the player.
pub open spec fn probed(
    before: Option<InlineVideo>,
    after: Option<InlineVideo>,
    overlay_open: bool,
    found: Option<(Rect, Option<Rect>)>,
    step: VideoStep,
) -> bool {
    match (before, found) {
        (None, _) => after is None && step is Nothing,
        (Some(v), Some(at)) => after matches Some(w) && stage_found(
            v,
            w,
            at.0,
            uncovered(at.1, overlay_open),
            step,
        ),
        (Some(v), None) => if v.misses >= INLINE_VIDEO_MISS_LIMIT {
            after is None && step is Close
        } else {
            &&& after == Some(
                InlineVideo {
                    misses: (v.misses + 1) as u32,
                    synced: if v.live {
                        None
                    } else {
                        v.synced
                    },
                    ..v
                },
            )
            &&& step == (VideoStep::Reprobe { hide: v.live })
        },
    }
}

/// Takes a probe of the stage in: the player is created once both the stage
/// and the window's scale are known, and moved whenever the stage has moved.
/// Where nothing moved nothing is done, so that probing comes to rest.
pub fn inline_video_bounds(
    inline: &mut Option<InlineVideo>,
    overlay_open: bool,
    found: Option<(Rect, Option<Rect>)>,
) -> (step: VideoStep)
    ensures
        probed(*old(inline), *final(inline), overlay_open, found, step),
{
    let mut v = match inline.take() {
        Some(v) => v,
        None => {
            return VideoStep::Nothing;
        },
    };
    let step = match found {
        Some((full, part)) => {
            let visible = if overlay_open {
                None
            } else {
                part
            };
            v.misses = 0;
            if v.live {
                if stands(v.synced, full, visible) {
                    VideoStep::Nothing
                } else {
                    v.synced = Some((full, visible));
                    let scale: u32 = match v.scale {
                        Some(s) => s,
                        None => UNSCALED,
                    };
                    VideoStep::Sync { full, visible, scale }
                }
            } else if v.error.is_some() {
                VideoStep::Nothing
            } else {
                match v.scale {
                    Some(scale) => {
                        v.live = true;
                        v.synced = Some((full, visible));
                        VideoStep::Open { video: v.video.copy(), full, visible, scale }
                    },
                    None => VideoStep::Nothing,
                }
            }
        },
        None => {
            if v.misses >= INLINE_VIDEO_MISS_LIMIT {
                return VideoStep::Close;
            }
            v.misses = v.misses + 1;
            let hide = v.live;
            if hide {
                v.synced = None;
            }
            VideoStep::Reprobe { hide }
        },
    };
    *inline = Some(v);
    step
}

/// A video that was asked for: its player comes with the first probe.
pub fn started(event_id: String, video: EmbedVideo, title: Option<String>) -> (r: InlineVideo)
    ensures
        r == (InlineVideo {
            event_id,
            video,
            title,
            error: None,
            scale: None,
            live: false,
            synced: None,
            misses: 0,
        }),
{
    InlineVideo {
        event_id,
        video,
        title,
        error: None,
        scale: None,
        live: false,
        synced: None,
        misses: 0,
    }
}

// ---------------------------------------------------------------------------
// Laws.
// ---------------------------------------------------------------------------
/// A player that was moved stays: the next probe that finds the stage where
/// it was does nothing. So probing comes to rest.
pub proof fn law_probing_comes_to_rest(
    a: Option<InlineVideo>,
    b: Option<InlineVideo>,
    c: Option<InlineVideo>,
    overlay_open: bool,
    full: Rect,
    part: Option<Rect>,
    first: VideoStep,
    second: VideoStep,
)
    requires
        probed(a, b, overlay_open, Some((full, part)), first),
        probed(b, c, overlay_open, Some((full, part)), second),
        same_rect(full, full),
        part matches Some(p) ==> same_rect(p, p),
        first is Sync || first is Open,
    ensures
        second is Nothing,
        c == b,
{
}

/// There is only ever one player: it is created once, and never while it
/// lives.
pub proof fn law_one_player_at_a_time(
    before: Option<InlineVideo>,
    after: Option<InlineVideo>,
    overlay_open: bool,
    found: Option<(Rect, Option<Rect>)>,
    step: VideoStep,
)
    requires
        probed(before, after, overlay_open, found, step),
        step is Open,
    ensures
        before matches Some(v) && !v.live,
        after matches Some(w) && w.live,
{
}

/// Nothing plays on unseen forever: a run of misses that is long enough ends
/// the video.
pub proof fn law_a_lost_stage_ends_the_video(
    before: InlineVideo,
    after: Option<InlineVideo>,
    overlay_open: bool,
    step: VideoStep,
)
    requires
        probed(Some(before), after, overlay_open, None, step),
    ensures
        before.misses >= INLINE_VIDEO_MISS_LIMIT ==> after is None && step is Close,
        before.misses < INLINE_VIDEO_MISS_LIMIT ==> (after matches Some(w) && w.misses
            == before.misses + 1 && step is Reprobe),
{
}

/// Under an overlay the player covers nothing.
pub proof fn law_overlays_hide_the_player(
    before: Option<InlineVideo>,
    after: Option<InlineVideo>,
    found: Option<(Rect, Option<Rect>)>,
    step: VideoStep,
)
    requires
        probed(before, after, true, found, step),
    ensures
        step matches VideoStep::Sync { full, visible, scale } ==> visible is None,
        step matches VideoStep::Open { video, full, visible, scale } ==> visible is None,
{
}

/// Once the window's scale is known, a video that did not fail opens where its
/// stage was found; one that plays follows its stage.
pub proof fn law_the_player_follows_its_stage(
    v: InlineVideo,
    after: Option<InlineVideo>,
    full: Rect,
    visible: Option<Rect>,
    step: VideoStep,
)
    requires
        probed(Some(v), after, false, Some((full, visible)), step),
    ensures
        after is Some && after->0.misses == 0 && after->0.video == v.video && after->0.event_id
            == v.event_id,
        !v.live && v.error is None && v.scale is Some ==> step == (VideoStep::Open {
            video: v.video,
            full,
            visible,
            scale: v.scale->0,
        }),
        !v.live && (v.error is Some || v.scale is None) ==> step is Nothing,
        v.live && v.scale is Some && v.synced is None ==> step == (VideoStep::Sync {
            full,
            visible,
            scale: v.scale->0,
        }) && after->0.synced == Some((full, visible)),
        v.live && v.synced == Some((full, visible)) && same_rect(full, full) && visible is None
            ==> step is Nothing,
{
}

} // verus!
