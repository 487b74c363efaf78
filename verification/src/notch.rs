//! Where the notch window goes on a screen without a physical notch.

use vstd::prelude::*;

use crate::model::AppConfig;

verus! {

/// Pill size at startup; matches the collapsed width in the frontend.
pub const INITIAL_WIDTH: u32 = 268;
pub const INITIAL_HEIGHT: u32 = 34;

/// The parts of the config that decide WHERE the window goes, as opposed to
/// how big it is.
#[derive(Clone, Copy, Debug)]
pub struct Placement {
    pub top_offset: i32,
    pub horizontal_offset: i32,
}

impl Placement {
    pub fn of(config: &AppConfig) -> (res: Self)
        ensures
            res.top_offset == config.top_offset,
            res.horizontal_offset == config.horizontal_offset,
    {
        Placement { top_offset: config.top_offset, horizontal_offset: config.horizontal_offset }
    }
}

/// Integer halving that rounds toward zero, as `/ 2` does on machine integers.
pub open spec fn half_toward_zero(v: int) -> int {
    if v >= 0 {
        v / 2
    } else {
        -((-v) / 2)
    }
}

/// The left edge of the window inside the work area: centered in the room
/// left over, nudged by the offset, then kept within the work area. When the
/// window is wider than the work area the left edge wins.
pub open spec fn left_within(free: int, offset: int) -> int {
    let hi = if free > 0 {
        free
    } else {
        0
    };
    let want = half_toward_zero(free) + offset;
    if want < 0 {
        0
    } else if want > hi {
        hi
    } else {
        want
    }
}

/// The screen x of the notch window: `origin_x` is the work area's left edge,
/// `work_width` its width, `window_width` the window's width and `offset`
/// the configured horizontal offset, all in physical pixels.
pub fn horizontal_x(origin_x: i32, work_width: u32, window_width: i32, offset: i32) -> (res: i32)
    requires
        work_width <= i32::MAX,
        i32::MIN <= work_width - window_width <= i32::MAX,
        i32::MIN <= half_toward_zero(work_width - window_width) + offset <= i32::MAX,
        i32::MIN <= origin_x + left_within(work_width - window_width, offset as int) <= i32::MAX,
    ensures
        res == origin_x + left_within(work_width - window_width, offset as int),
{
    let free: i64 = work_width as i64 - window_width as i64;
    let half: i64 = if free >= 0 {
        free / 2
    } else {
        -((-free) / 2)
    };
    let want: i64 = half + offset as i64;
    let hi: i64 = if free > 0 {
        free
    } else {
        0
    };
    let left: i64 = if want < 0 {
        0
    } else if want > hi {
        hi
    } else {
        want
    };
    (origin_x as i64 + left) as i32
}

/// The notch never leaves the work area while it fits in it, and an offset
/// of zero keeps it centered.
pub proof fn law_notch_stays_in_work_area(free: int, offset: int)
    ensures
        0 <= left_within(free, offset),
        free >= 0 ==> left_within(free, offset) <= free,
        free >= 0 ==> left_within(free, 0) == free / 2,
{
}

/// What the cursor watcher saw on one tick.
#[derive(Clone, Copy, Debug, PartialEq, Eq, Structural)]
pub enum HoverSample {
    /// The app shows the widget, so the notch is off screen.
    WidgetMode,
    /// No hot zone has been placed yet, or the cursor could not be read.
    Unknown,
    /// The cursor is inside (`true`) or outside (`false`) the hot zone.
    At(bool),
}

/// One tick of the cursor watcher: from whether the cursor was inside the hot
/// zone and what this tick saw, whether it is inside now and the hover event
/// to send, if any. An event goes out only when inside/outside changes; in
/// widget mode the watcher owes the frontend a leave if the cursor was inside.
pub fn hover_step(was_inside: bool, sample: HoverSample) -> (res: (bool, Option<bool>))
    ensures
        sample == HoverSample::WidgetMode ==> res.0 == false,
        sample == HoverSample::Unknown ==> res.0 == was_inside,
        sample matches HoverSample::At(inside) ==> res.0 == inside,
        res.1 is Some <==> res.0 != was_inside,
        res.1 is Some ==> res.1->0 == res.0,
{
    match sample {
        HoverSample::WidgetMode => {
            if was_inside {
                (false, Some(false))
            } else {
                (false, None)
            }
        },
        HoverSample::Unknown => (was_inside, None),
        HoverSample::At(inside) => {
            if inside != was_inside {
                (inside, Some(inside))
            } else {
                (was_inside, None)
            }
        },
    }
}

} // verus!
