//! Where the drawer rests: bottom-centre of the monitor's work area, on top
//! of the taskbar, sliding up from just below it.
use vstd::prelude::*;

verus! {

/// The part of a monitor not covered by the taskbar, in screen pixels.
#[derive(Debug, Clone, Copy, PartialEq, Eq, Structural)]
pub struct WorkArea {
    pub left: i32,
    pub top: i32,
    pub right: i32,
    pub bottom: i32,
}

/// The drawer's window positions.
#[derive(Debug, Clone, Copy, PartialEq, Eq, Structural)]
pub struct DrawerLayout {
    /// Final resting position (flush against the top edge of the taskbar).
    pub shown_x: i32,
    pub shown_y: i32,
    /// Off-screen starting position the drawer slides up from.
    pub hidden_x: i32,
    pub hidden_y: i32,
}

/// The work area assumed when the monitor cannot be asked: 1920 x 1080 at
/// the origin.
pub open spec fn default_work_area() -> WorkArea {
    WorkArea { left: 0, top: 0, right: 1920, bottom: 1080 }
}

/// The work area used: the monitor's, or the default one.
pub open spec fn work_or_default(work: Option<WorkArea>) -> WorkArea {
    match work {
        Some(w) => w,
        None => default_work_area(),
    }
}

/// Integer halving that rounds toward zero, as `/ 2` does on `i32`.
pub open spec fn half(x: int) -> int {
    if x >= 0 {
        x / 2
    } else {
        -((-x) / 2)
    }
}

/// Every intermediate value of the placement fits in an `i32`.
pub open spec fn layout_fits(work: WorkArea, window_w: i32, window_h: i32) -> bool {
    let work_w = work.right - work.left;
    &&& i32::MIN <= work_w <= i32::MAX
    &&& i32::MIN <= work_w - window_w <= i32::MAX
    &&& i32::MIN <= work.left + half(work_w - window_w) <= i32::MAX
    &&& i32::MIN <= work.bottom - window_h <= i32::MAX
    &&& work.bottom + 4 <= i32::MAX
}

/// The drawer's positions for a window of `window_w` x `window_h` over
/// `work`: centred horizontally, its bottom edge on the work area's bottom
/// edge when shown, and four pixels below that edge when hidden.
pub open spec fn layout_spec(work: WorkArea, window_w: i32, window_h: i32) -> DrawerLayout {
    let shown_x = work.left + half(work.right - work.left - window_w);
    DrawerLayout {
        shown_x: shown_x as i32,
        shown_y: (work.bottom - window_h) as i32,
        hidden_x: shown_x as i32,
        hidden_y: (work.bottom + 4) as i32,
    }
}

/// Computes where the drawer window sits over the monitor's work area
/// (`None` when it could not be read, which falls back to 1920 x 1080), and
/// the off-screen position it animates from.
pub fn compute_layout(work: Option<WorkArea>, window_w: i32, window_h: i32) -> (r: DrawerLayout)
    requires
        layout_fits(work_or_default(work), window_w, window_h),
    ensures
        r == layout_spec(work_or_default(work), window_w, window_h),
{
    let area = match work {
        Some(w) => w,
        None => WorkArea { left: 0, top: 0, right: 1920, bottom: 1080 },
    };
    let work_w = area.right - area.left;
    let d = work_w - window_w;
    let q = d / 2;
    assert(q == half(d as int));
    let shown_x = area.left + q;
    let shown_y = area.bottom - window_h;
    DrawerLayout { shown_x, shown_y, hidden_x: shown_x, hidden_y: area.bottom + 4 }
}

/// The drawer slides straight up: it is hidden and shown at the same `x`,
/// shown resting exactly on the work area's bottom edge and hidden just
/// below it, and centred (to within rounding toward zero).
pub proof fn lemma_layout_shape(work: WorkArea, window_w: i32, window_h: i32)
    requires
        layout_fits(work, window_w, window_h),
    ensures
        ({
            let l = layout_spec(work, window_w, window_h);
            &&& l.hidden_x == l.shown_x
            &&& l.shown_y + window_h == work.bottom
            &&& l.hidden_y == work.bottom + 4
            &&& l.hidden_y > l.shown_y + window_h
            &&& {
                let left_gap = l.shown_x - work.left;
                let right_gap = work.right - (l.shown_x + window_w);
                -1 <= left_gap - right_gap <= 1
            }
        }),
{
}

} // verus!
