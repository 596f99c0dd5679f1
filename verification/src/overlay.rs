//! Overlay pill geometry and copy-chip visibility. No window handles.

use crate::chars::str_eq;
use vstd::prelude::*;
use vstd::string::*;

verus! {

pub const PILL_W: i32 = 168;

pub const PILL_H: i32 = 44;

pub const MARGIN: i32 = 16;

/// Logical pixels above the screen bottom, so that the pill clears the Windows
/// taskbar (about 40) and the macOS Dock (about 68 to 80) on Retina displays.
pub const BOTTOM_MARGIN: i32 = 108;

pub const COPY_CHIP_SECS: u64 = 10;

pub const COPY_CHIP_MS: u64 = COPY_CHIP_SECS * 1000;

/// An offset below zero (or zero on a fresh install) means the center of the
/// docked edge.
pub const OFFSET_CENTER: i32 = -1;

/// Whether a coordinate can be held.
pub open spec fn fits(v: int) -> bool {
    i32::MIN <= v <= i32::MAX
}

pub open spec fn larger(a: int, b: int) -> int {
    if a < b {
        b
    } else {
        a
    }
}

pub open spec fn smaller(a: int, b: int) -> int {
    if b < a {
        b
    } else {
        a
    }
}

/// `v` between `lo` and `hi`; `hi` wins where they cross.
pub open spec fn clamped(v: int, lo: int, hi: int) -> int {
    smaller(larger(v, lo), hi)
}

/// Half of `v`, rounded toward zero.
pub open spec fn half(v: int) -> int {
    if v >= 0 {
        v / 2
    } else {
        -((-v) / 2)
    }
}

fn max(a: i32, b: i32) -> (r: i32)
    ensures
        r == larger(a as int, b as int),
{
    if a < b {
        b
    } else {
        a
    }
}

fn min(a: i32, b: i32) -> (r: i32)
    ensures
        r == smaller(a as int, b as int),
{
    if b < a {
        b
    } else {
        a
    }
}

fn clamp(v: i32, lo: i32, hi: i32) -> (r: i32)
    ensures
        r == clamped(v as int, lo as int, hi as int),
{
    min(max(v, lo), hi)
}

fn halve(v: i32) -> (r: i32)
    ensures
        r == half(v as int),
{
    if v >= 0 {
        v / 2
    } else if v == i32::MIN {
        -1_073_741_824
    } else {
        -((-v) / 2)
    }
}

/// The offset that centers a pill on a screen side, at least the margin.
pub open spec fn center(screen: int, pill: int) -> int {
    larger(half(screen - pill), MARGIN as int)
}

pub fn centered_offset(screen: i32, pill: i32) -> (r: i32)
    requires
        fits(screen - pill),
    ensures
        r == center(screen as int, pill as int),
{
    max(halve(screen - pill), MARGIN)
}

/// The last place for a pill along a side.
pub open spec fn last_place(screen: int, pill: int) -> int {
    larger(screen - pill - MARGIN, MARGIN as int)
}

/// The last place for a pill above the taskbar or the Dock.
pub open spec fn lowest_place(screen_h: int, pill_h: int) -> int {
    larger(screen_h - pill_h - BOTTOM_MARGIN, MARGIN as int)
}

/// Where an offset puts a pill along a side.
pub open spec fn place(offset: int, screen: int, pill: int) -> int {
    clamped(
        if offset <= 0 {
            center(screen, pill)
        } else {
            offset
        },
        MARGIN as int,
        last_place(screen, pill),
    )
}

fn along_axis(offset: i32, screen: i32, pill: i32) -> (r: i32)
    requires
        fits(screen - pill),
        fits(screen - pill - MARGIN),
    ensures
        r == place(offset as int, screen as int, pill as int),
{
    let last = max(screen - pill - MARGIN, MARGIN);
    if offset <= 0 {
        clamp(centered_offset(screen, pill), MARGIN, last)
    } else {
        clamp(offset, MARGIN, last)
    }
}

#[derive(Debug, Clone, Copy, PartialEq, Eq, Structural)]
pub enum DockEdge {
    Top,
    Bottom,
    Left,
    Right,
}

impl DockEdge {
    /// The name of an edge.
    pub open spec fn name(self) -> Seq<char> {
        match self {
            DockEdge::Top => "top"@,
            DockEdge::Bottom => "bottom"@,
            DockEdge::Left => "left"@,
            DockEdge::Right => "right"@,
        }
    }

    pub fn as_str(self) -> (r: &'static str)
        ensures
            r@ == self.name(),
    {
        match self {
            DockEdge::Top => "top",
            DockEdge::Bottom => "bottom",
            DockEdge::Left => "left",
            DockEdge::Right => "right",
        }
    }

    /// The edge of a name.
    pub fn parse(s: &str) -> (r: Option<Self>)
        ensures
            r == edge_named(s@),
    {
        if str_eq(s, "top") {
            Some(DockEdge::Top)
        } else if str_eq(s, "bottom") {
            Some(DockEdge::Bottom)
        } else if str_eq(s, "left") {
            Some(DockEdge::Left)
        } else if str_eq(s, "right") {
            Some(DockEdge::Right)
        } else {
            None
        }
    }
}

/// The edge of a name.
pub open spec fn edge_named(s: Seq<char>) -> Option<DockEdge> {
    if s == "top"@ {
        Some(DockEdge::Top)
    } else if s == "bottom"@ {
        Some(DockEdge::Bottom)
    } else if s == "left"@ {
        Some(DockEdge::Left)
    } else if s == "right"@ {
        Some(DockEdge::Right)
    } else {
        None
    }
}

/// Each edge is found under its own name.
pub proof fn lemma_edge_names(edge: DockEdge)
    ensures
        edge_named(edge.name()) == Some(edge),
{
    reveal_strlit("top");
    reveal_strlit("bottom");
    reveal_strlit("left");
    reveal_strlit("right");
    assert("top"@.len() == 3);
    assert("bottom"@.len() == 6);
    assert("left"@.len() == 4);
    assert("right"@.len() == 5);
}

#[derive(Debug, Clone, Copy, PartialEq, Eq, Structural)]
pub struct OverlayPose {
    pub x: i32,
    pub y: i32,
    pub edge: DockEdge,
    pub offset: i32,
}

/// The last place for a pill above the screen bottom.
fn max_bottom_y(screen_h: i32, pill_h: i32) -> (r: i32)
    requires
        fits(screen_h - pill_h),
        fits(screen_h - pill_h - BOTTOM_MARGIN),
    ensures
        r == lowest_place(screen_h as int, pill_h as int),
{
    max(screen_h - pill_h - BOTTOM_MARGIN, MARGIN)
}

/// How far the center of a pill at `(x, y)` is from an edge of the screen.
pub open spec fn distance(
    edge: DockEdge,
    x: int,
    y: int,
    screen_w: int,
    screen_h: int,
    pill_w: int,
    pill_h: int,
) -> int {
    match edge {
        DockEdge::Top => y + half(pill_h),
        DockEdge::Bottom => screen_h - (y + half(pill_h)),
        DockEdge::Left => x + half(pill_w),
        DockEdge::Right => screen_w - (x + half(pill_w)),
    }
}

/// The nearest edge; where two are as near, the first of top, bottom, left and
/// right.
pub open spec fn nearest_edge(
    x: int,
    y: int,
    screen_w: int,
    screen_h: int,
    pill_w: int,
    pill_h: int,
) -> DockEdge {
    let d = |e: DockEdge| distance(e, x, y, screen_w, screen_h, pill_w, pill_h);
    if d(DockEdge::Top) <= d(DockEdge::Bottom) && d(DockEdge::Top) <= d(DockEdge::Left) && d(
        DockEdge::Top,
    ) <= d(DockEdge::Right) {
        DockEdge::Top
    } else if d(DockEdge::Bottom) <= d(DockEdge::Left) && d(DockEdge::Bottom) <= d(
        DockEdge::Right,
    ) {
        DockEdge::Bottom
    } else if d(DockEdge::Left) <= d(DockEdge::Right) {
        DockEdge::Left
    } else {
        DockEdge::Right
    }
}

/// The place along the nearest edge that a dragged pill snaps to.
pub open spec fn snapped_offset(
    edge: DockEdge,
    x: int,
    y: int,
    screen_w: int,
    screen_h: int,
    pill_w: int,
    pill_h: int,
) -> int {
    match edge {
        DockEdge::Top | DockEdge::Bottom => clamped(x, MARGIN as int, last_place(screen_w, pill_w)),
        DockEdge::Left | DockEdge::Right => clamped(
            y,
            MARGIN as int,
            lowest_place(screen_h, pill_h),
        ),
    }
}

/// The origin of a pill at the place `at` along `edge`.
pub open spec fn docked(
    edge: DockEdge,
    at: int,
    screen_w: int,
    screen_h: int,
    pill_w: int,
    pill_h: int,
) -> (int, int) {
    match edge {
        DockEdge::Top => (at, MARGIN as int),
        DockEdge::Bottom => (at, lowest_place(screen_h, pill_h)),
        DockEdge::Left => (MARGIN as int, at),
        DockEdge::Right => (last_place(screen_w, pill_w), at),
    }
}

/// Snaps a dragged origin to the nearest screen edge.
pub fn snap_to_edge(
    x: i32,
    y: i32,
    screen_w: i32,
    screen_h: i32,
    pill_w: i32,
    pill_h: i32,
) -> (r: OverlayPose)
    requires
        fits(screen_w - pill_w),
        fits(screen_w - pill_w - MARGIN),
        fits(screen_h - pill_h),
        fits(screen_h - pill_h - BOTTOM_MARGIN),
        fits(x + half(pill_w as int)),
        fits(y + half(pill_h as int)),
        fits(screen_w - (x + half(pill_w as int))),
        fits(screen_h - (y + half(pill_h as int))),
    ensures
        r.edge == nearest_edge(
            x as int,
            y as int,
            screen_w as int,
            screen_h as int,
            pill_w as int,
            pill_h as int,
        ),
        r.offset == snapped_offset(
            r.edge,
            x as int,
            y as int,
            screen_w as int,
            screen_h as int,
            pill_w as int,
            pill_h as int,
        ),
        (r.x as int, r.y as int) == docked(
            r.edge,
            r.offset as int,
            screen_w as int,
            screen_h as int,
            pill_w as int,
            pill_h as int,
        ),
{
    let max_x = max(screen_w - pill_w - MARGIN, MARGIN);
    let max_y = max_bottom_y(screen_h, pill_h);
    let cx = x + halve(pill_w);
    let cy = y + halve(pill_h);
    let d_top = cy;
    let d_bottom = screen_h - cy;
    let d_left = cx;
    let d_right = screen_w - cx;
    let nearest = min(min(min(d_top, d_bottom), d_left), d_right);
    if nearest == d_top {
        let ox = clamp(x, MARGIN, max_x);
        OverlayPose { x: ox, y: MARGIN, edge: DockEdge::Top, offset: ox }
    } else if nearest == d_bottom {
        let ox = clamp(x, MARGIN, max_x);
        OverlayPose { x: ox, y: max_y, edge: DockEdge::Bottom, offset: ox }
    } else if nearest == d_left {
        let oy = clamp(y, MARGIN, max_y);
        OverlayPose { x: MARGIN, y: oy, edge: DockEdge::Left, offset: oy }
    } else {
        let oy = clamp(y, MARGIN, max_y);
        OverlayPose { x: max_x, y: oy, edge: DockEdge::Right, offset: oy }
    }
}

/// The place along an edge that an offset stands for.
pub open spec fn place_on(
    edge: DockEdge,
    offset: int,
    screen_w: int,
    screen_h: int,
    pill_w: int,
    pill_h: int,
) -> int {
    match edge {
        DockEdge::Top | DockEdge::Bottom => place(offset, screen_w, pill_w),
        DockEdge::Left | DockEdge::Right => place(offset, screen_h, pill_h),
    }
}

/// The origin of a pill that is docked at an edge.
pub fn pose_to_xy(
    edge: DockEdge,
    offset: i32,
    screen_w: i32,
    screen_h: i32,
    pill_w: i32,
    pill_h: i32,
) -> (r: (i32, i32))
    requires
        fits(screen_w - pill_w),
        fits(screen_w - pill_w - MARGIN),
        fits(screen_h - pill_h),
        fits(screen_h - pill_h - BOTTOM_MARGIN),
    ensures
        (r.0 as int, r.1 as int) == docked(
            edge,
            place_on(
                edge,
                offset as int,
                screen_w as int,
                screen_h as int,
                pill_w as int,
                pill_h as int,
            ),
            screen_w as int,
            screen_h as int,
            pill_w as int,
            pill_h as int,
        ),
{
    let max_x = max(screen_w - pill_w - MARGIN, MARGIN);
    let max_y = max_bottom_y(screen_h, pill_h);
    match edge {
        DockEdge::Top => (along_axis(offset, screen_w, pill_w), MARGIN),
        DockEdge::Bottom => (along_axis(offset, screen_w, pill_w), max_y),
        DockEdge::Left => (MARGIN, along_axis(offset, screen_h, pill_h)),
        DockEdge::Right => (max_x, along_axis(offset, screen_h, pill_h)),
    }
}

/// What a pill snapped to is where its edge and offset put it again, on the
/// same screen.
pub proof fn lemma_pose_round_trip(
    edge: DockEdge,
    x: int,
    y: int,
    screen_w: int,
    screen_h: int,
    pill_w: int,
    pill_h: int,
)
    ensures
        ({
            let offset = snapped_offset(edge, x, y, screen_w, screen_h, pill_w, pill_h);
            place_on(edge, offset, screen_w, screen_h, pill_w, pill_h) == offset
        }),
{
}

/// The nearest edge is as near as any.
pub proof fn lemma_nearest(
    edge: DockEdge,
    x: int,
    y: int,
    screen_w: int,
    screen_h: int,
    pill_w: int,
    pill_h: int,
)
    ensures
        distance(
            nearest_edge(x, y, screen_w, screen_h, pill_w, pill_h),
            x,
            y,
            screen_w,
            screen_h,
            pill_w,
            pill_h,
        ) <= distance(edge, x, y, screen_w, screen_h, pill_w, pill_h),
{
}

/// A pill stays inside the margins, and clear of the bottom, on any screen that
/// is large enough for it.
pub proof fn lemma_pill_on_screen(
    edge: DockEdge,
    offset: int,
    screen_w: int,
    screen_h: int,
    pill_w: int,
    pill_h: int,
)
    requires
        screen_w - pill_w >= 2 * MARGIN,
        screen_h - pill_h >= MARGIN + BOTTOM_MARGIN,
    ensures
        ({
            let at = place_on(edge, offset, screen_w, screen_h, pill_w, pill_h);
            let p = docked(edge, at, screen_w, screen_h, pill_w, pill_h);
            &&& MARGIN <= p.0 <= screen_w - pill_w - MARGIN
            &&& MARGIN <= p.1 <= screen_h - pill_h - MARGIN
            &&& (edge == DockEdge::Bottom ==> p.1 == screen_h - pill_h - BOTTOM_MARGIN)
        }),
{
}

/// Whether the copy chip is still to be seen.
pub fn copy_chip_visible(pasted_unix_ms: u64, now_unix_ms: u64, window_ms: u64) -> (r: bool)
    ensures
        r == (pasted_unix_ms <= now_unix_ms < pasted_unix_ms + window_ms),
{
    now_unix_ms >= pasted_unix_ms && now_unix_ms - pasted_unix_ms < window_ms
}

} // verus!
