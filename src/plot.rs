use vstd::prelude::*;
use crate::axis::{AxisRange, Ratio, UNITS_PER_ONE, fits_i64};
use crate::items::PlotItem;
use crate::shapes::{Shape, shapes_view};
use crate::ticks::{MIN_TICKS, best_increment, nice_increment, tick_values, ticks_of};
use crate::transform::{PixelPoint, Point, Rect, Transform};

verus! {

/// Half the span of the range that a new plot shows on each axis.
pub const DEFAULT_HALF_SPAN: i64 = 10 * UNITS_PER_ONE;

pub const LEFT_MARGIN: i32 = 40;

pub const RIGHT_MARGIN: i32 = 10;

pub const TOP_MARGIN: i32 = 10;

pub const BOTTOM_MARGIN: i32 = 40;

/// Room added above the plotting area for a title, and below it for an
/// x-axis label.
pub const LABEL_MARGIN: i32 = 10;

/// Scroll deltas come in hundredths of a scroll unit and are clamped to
/// this size (ten units).
pub const MAX_SCROLL: i32 = 1000;

/// One hundredth of a scroll unit zooms by one part in this many.
pub const SCROLL_STEPS: i32 = 10_000;

pub open spec fn default_range() -> AxisRange {
    AxisRange { start: (-DEFAULT_HALF_SPAN) as i64, end: DEFAULT_HALF_SPAN }
}

/// What a plot remembers between frames.
#[derive(Clone, Copy, Debug, PartialEq, Eq, Structural)]
pub struct PlotMemory {
    /// The pointer position of the previous frame while a drag goes on.
    pub last_drag_pos: Option<PixelPoint>,
    pub x_range: AxisRange,
    pub y_range: AxisRange,
    /// Whether a frame has been shown; the configured ranges apply only
    /// before the first one.
    pub shown: bool,
}

impl PlotMemory {
    pub open spec fn wf(self) -> bool {
        self.x_range.wf() && self.y_range.wf()
    }

    pub open spec fn spec_default() -> PlotMemory {
        PlotMemory {
            last_drag_pos: None,
            x_range: default_range(),
            y_range: default_range(),
            shown: false,
        }
    }
}

impl Default for PlotMemory {
    fn default() -> (r: PlotMemory)
        ensures
            r == PlotMemory::spec_default(),
            r.wf(),
    {
        PlotMemory {
            last_drag_pos: None,
            x_range: AxisRange::new(-DEFAULT_HALF_SPAN, DEFAULT_HALF_SPAN),
            y_range: AxisRange::new(-DEFAULT_HALF_SPAN, DEFAULT_HALF_SPAN),
            shown: false,
        }
    }
}

/// The rectangle left for plot items once the margins are taken off `full`.
pub open spec fn spec_plot_area(full: Rect, has_title: bool, has_x_label: bool) -> (
    int,
    int,
    int,
    int,
) {
    let top = if has_title {
        TOP_MARGIN + LABEL_MARGIN
    } else {
        TOP_MARGIN as int
    };
    let bottom = if has_x_label {
        BOTTOM_MARGIN + LABEL_MARGIN
    } else {
        BOTTOM_MARGIN as int
    };
    (full.left + LEFT_MARGIN, full.top + top, full.right - RIGHT_MARGIN, full.bottom - bottom)
}

/// The plotting rectangle inside `full`; `None` when the margins leave no
/// room.
pub fn plot_area(full: &Rect, has_title: bool, has_x_label: bool) -> (r: Option<Rect>)
    ensures
        ({
            let (l, t, rt, b) = spec_plot_area(*full, has_title, has_x_label);
            &&& r.is_some() == (l < rt && t < b)
            &&& r.is_some() ==> r.unwrap().left == l && r.unwrap().top == t && r.unwrap().right
                == rt && r.unwrap().bottom == b
        }),
{
    let top_margin: i64 = if has_title {
        (TOP_MARGIN + LABEL_MARGIN) as i64
    } else {
        TOP_MARGIN as i64
    };
    let bottom_margin: i64 = if has_x_label {
        (BOTTOM_MARGIN + LABEL_MARGIN) as i64
    } else {
        BOTTOM_MARGIN as i64
    };
    let l = full.left as i64 + LEFT_MARGIN as i64;
    let t = full.top as i64 + top_margin;
    let rt = full.right as i64 - RIGHT_MARGIN as i64;
    let b = full.bottom as i64 - bottom_margin;
    if l < rt && t < b {
        Some(Rect { left: l as i32, top: t as i32, right: rt as i32, bottom: b as i32 })
    } else {
        None
    }
}

/// The half-span actually used for `half`: at least one step.
pub open spec fn half_span(half: int) -> int {
    if half < 1 {
        1
    } else {
        half
    }
}

/// The bounds centred on the middle of `r` with half-span `half` fit in
/// `i64`.
pub open spec fn centered_fits(r: AxisRange, half: int) -> bool {
    let k = half_span(half);
    fits_i64(r.spec_middle() - k) && fits_i64(r.spec_middle() + k)
}

/// The range centred on the middle of `r` with half-span `half` (at least
/// one step), or `r` itself where those bounds do not fit.
pub open spec fn centered(r: AxisRange, half: int) -> AxisRange {
    let k = half_span(half);
    let m = r.spec_middle();
    if centered_fits(r, half) {
        AxisRange { start: (m - k) as i64, end: (m + k) as i64 }
    } else {
        r
    }
}

/// The half-span that gives the axis along the shorter side of `rect` the
/// same scale as the other axis: `y.extent * w / (2 * h)` for x on a tall
/// rectangle, `x.extent * h / (2 * w)` for y otherwise, rounded down.
pub open spec fn locked_half(x: AxisRange, y: AxisRange, rect: Rect) -> int {
    let w = rect.right - rect.left;
    let h = rect.bottom - rect.top;
    if h > w {
        (y.spec_extent() * w) / (2 * h)
    } else {
        (x.spec_extent() * h) / (2 * w)
    }
}

/// Equal scale on both axes: the axis along the shorter side of `rect` is
/// recomputed around its own middle from the other axis's extent, so that
/// one data unit spans as many pixels in x as in y.
pub open spec fn aspect_locked(x: AxisRange, y: AxisRange, rect: Rect) -> (AxisRange, AxisRange) {
    let w = rect.right - rect.left;
    let h = rect.bottom - rect.top;
    if h > w {
        (centered(x, locked_half(x, y, rect)), y)
    } else {
        (x, centered(y, locked_half(x, y, rect)))
    }
}

/// The recomputed axis fits in `i64`.
pub open spec fn aspect_lock_fits(x: AxisRange, y: AxisRange, rect: Rect) -> bool {
    if rect.bottom - rect.top > rect.right - rect.left {
        centered_fits(x, locked_half(x, y, rect))
    } else {
        centered_fits(y, locked_half(x, y, rect))
    }
}

/// Data units per pixel agree on both axes to within rounding:
/// `x.extent * h` and `y.extent * w` differ by less than two pixels' worth
/// of the longer side.
pub open spec fn scales_match(x: AxisRange, y: AxisRange, rect: Rect) -> bool {
    let w = rect.right - rect.left;
    let h = rect.bottom - rect.top;
    let longer = if h > w {
        h
    } else {
        w
    };
    let diff = x.spec_extent() * h - y.spec_extent() * w;
    -2 * longer < diff < 2 * longer
}

fn center_range(r: &AxisRange, half: i128) -> (c: AxisRange)
    requires
        r.wf(),
        0 <= half < 0x4000_0000_0000_0000,
    ensures
        c == centered(*r, half as int),
        c.wf(),
{
    let k: i128 = if half < 1 {
        1
    } else {
        half
    };
    let m = r.middle() as i128;
    if m - k >= i64::MIN as i128 && m + k <= i64::MAX as i128 {
        AxisRange { start: (m - k) as i64, end: (m + k) as i64 }
    } else {
        *r
    }
}

pub fn lock_aspect(x: &AxisRange, y: &AxisRange, rect: &Rect) -> (r: (AxisRange, AxisRange))
    requires
        x.wf(),
        y.wf(),
        rect.wf(),
    ensures
        r == aspect_locked(*x, *y, *rect),
        r.0.wf() && r.1.wf(),
        aspect_lock_fits(*x, *y, *rect) ==> scales_match(r.0, r.1, *rect),
{
    let w = rect.width() as i128;
    let h = rect.height() as i128;
    let ex = x.extent() as i128;
    let ey = y.extent() as i128;
    if h > w {
        proof {
            lemma_locked_half(ey as int, w as int, h as int);
        }
        (center_range(x, (ey * w) / (2 * h)), *y)
    } else {
        proof {
            lemma_locked_half(ex as int, h as int, w as int);
        }
        (*x, center_range(y, (ex * h) / (2 * w)))
    }
}

/// For `k = e * a / (2 * b)` with `a <= b`: it is small enough to centre a
/// range on, and a range of half-span `max(k, 1)` has `2 * max(k, 1) * b`
/// within `2 * b` of `e * a`.
proof fn lemma_locked_half(e: int, a: int, b: int)
    requires
        0 < e < 0x8000_0000_0000_0000,
        0 < a <= b,
        b < 0x1_0000_0000,
    ensures
        0 < e * a < 0x1_0000_0000_0000_0000_0000_0000,
        0 <= (e * a) / (2 * b) < 0x4000_0000_0000_0000,
        -2 * b < 2 * half_span((e * a) / (2 * b)) * b - e * a < 2 * b,
{
    let k = (e * a) / (2 * b);
    assert(0 < e * a <= e * b) by (nonlinear_arith)
        requires
            0 < e,
            0 < a <= b,
    ;
    assert(e * b < 0x1_0000_0000_0000_0000_0000_0000) by (nonlinear_arith)
        requires
            0 < e < 0x8000_0000_0000_0000,
            0 < b < 0x1_0000_0000,
    ;
    crate::arith::lemma_floor_div(e * a, 2 * b);
    assert(0 <= k) by (nonlinear_arith)
        requires
            e * a < 2 * b * k + 2 * b,
            e * a > 0,
            b > 0,
    ;
    assert(2 * k <= e) by (nonlinear_arith)
        requires
            2 * b * k <= e * a,
            e * a <= e * b,
            b > 0,
    ;
    if k < 1 {
        assert(-2 * b < 2 * b - e * a < 2 * b) by (nonlinear_arith)
            requires
                k == 0,
                e * a < 2 * b * k + 2 * b,
                e * a > 0,
        ;
    } else {
        assert(-2 * b < 2 * k * b - e * a <= 0) by (nonlinear_arith)
            requires
                2 * b * k <= e * a < 2 * b * k + 2 * b,
        ;
    }
}

/// `r` shifted by `delta`, or `r` itself where the shift does not fit.
pub open spec fn panned(r: AxisRange, delta: int) -> AxisRange {
    if fits_i64(delta) && fits_i64(r.start + delta) && fits_i64(r.end + delta) {
        AxisRange { start: (r.start + delta) as i64, end: (r.end + delta) as i64 }
    } else {
        r
    }
}

/// The drag step. While the pointer is pressed, both ranges move by the data
/// distance from the pointer's current position to its previous one (read
/// with the ranges as they were before the move), so the content follows
/// the pointer; the current position is remembered. Without a press the
/// remembered position is dropped.
pub open spec fn dragged(m: PlotMemory, rect: Rect, pressed: Option<PixelPoint>) -> PlotMemory {
    match pressed {
        None => PlotMemory { last_drag_pos: None, ..m },
        Some(pos) => {
            let t = Transform { x_range: m.x_range, y_range: m.y_range, rect };
            let moved = match m.last_drag_pos {
                Some(last) => match (t.spec_to_plot(last.spec_screen()), t.spec_to_plot(pos.spec_screen())) {
                    (Some(a), Some(b)) => (panned(m.x_range, a.x - b.x), panned(m.y_range, a.y - b.y)),
                    _ => (m.x_range, m.y_range),
                },
                None => (m.x_range, m.y_range),
            };
            PlotMemory { last_drag_pos: Some(pos), x_range: moved.0, y_range: moved.1, shown: m.shown }
        },
    }
}

fn pan(r: &AxisRange, delta: i128) -> (p: AxisRange)
    requires
        r.wf(),
    ensures
        p == panned(*r, delta as int),
        p.wf(),
{
    if delta < i64::MIN as i128 || delta > i64::MAX as i128 {
        return *r;
    }
    let mut moved = *r;
    let _ = moved.translate(delta as i64);
    moved
}

pub fn drag(m: &PlotMemory, rect: &Rect, pressed: Option<PixelPoint>) -> (r: PlotMemory)
    requires
        m.wf(),
        rect.wf(),
    ensures
        r == dragged(*m, *rect, pressed),
        r.wf(),
{
    match pressed {
        None => PlotMemory { last_drag_pos: None, ..*m },
        Some(pos) => {
            let t = Transform { x_range: m.x_range, y_range: m.y_range, rect: *rect };
            let mut x = m.x_range;
            let mut y = m.y_range;
            if let Some(last) = m.last_drag_pos {
                let a = t.pointer_to_plot(&last);
                let b = t.pointer_to_plot(&pos);
                if let (Some(a), Some(b)) = (a, b) {
                    x = pan(&m.x_range, a.x as i128 - b.x as i128);
                    y = pan(&m.y_range, a.y as i128 - b.y as i128);
                }
            }
            PlotMemory { last_drag_pos: Some(pos), x_range: x, y_range: y, shown: m.shown }
        },
    }
}

pub open spec fn clamp_scroll(s: int) -> int {
    if s < -MAX_SCROLL {
        -MAX_SCROLL as int
    } else if s > MAX_SCROLL {
        MAX_SCROLL as int
    } else {
        s
    }
}

/// `r` zoomed, or `r` itself where the result cannot be stored.
pub open spec fn zoomed_or_same(r: AxisRange, amount: Ratio, center: Ratio) -> AxisRange {
    if r.zoom_fits(amount, center) {
        AxisRange {
            start: r.zoomed(amount, center).0 as i64,
            end: r.zoomed(amount, center).1 as i64,
        }
    } else {
        r
    }
}

/// The zoom step. A scroll with the pointer inside `rect` zooms both axes by
/// `-scroll / SCROLL_STEPS` (scroll clamped to `MAX_SCROLL`), each around the
/// pointer's fractional position along it (measured from the left, and from
/// the bottom), so the data under the pointer stays put. Panels more than
/// `i32::MAX` pixels across do not zoom.
pub open spec fn scroll_zoomed(
    m: PlotMemory,
    rect: Rect,
    pointer: Option<PixelPoint>,
    scroll: int,
) -> PlotMemory {
    let s = clamp_scroll(scroll);
    let w = rect.right - rect.left;
    let h = rect.bottom - rect.top;
    match pointer {
        Some(p) => if rect.spec_contains(p) && s != 0 && w <= i32::MAX && h <= i32::MAX {
            let amount = Ratio { num: -s as i32, den: SCROLL_STEPS };
            let cx = Ratio { num: (p.x - rect.left) as i32, den: w as i32 };
            let cy = Ratio { num: (rect.bottom - p.y) as i32, den: h as i32 };
            PlotMemory {
                x_range: zoomed_or_same(m.x_range, amount, cx),
                y_range: zoomed_or_same(m.y_range, amount, cy),
                ..m
            }
        } else {
            m
        },
        None => m,
    }
}

fn zoom_or_keep(r: &AxisRange, amount: Ratio, center: Ratio) -> (z: AxisRange)
    requires
        r.wf(),
        amount.wf(),
        amount.num > -amount.den,
        center.is_unit_fraction(),
    ensures
        z == zoomed_or_same(*r, amount, center),
        z.wf(),
{
    let mut z = *r;
    let _ = z.zoom(amount, center);
    z
}

pub fn scroll_zoom(m: &PlotMemory, rect: &Rect, pointer: Option<PixelPoint>, scroll: i32) -> (r:
    PlotMemory)
    requires
        m.wf(),
        rect.wf(),
    ensures
        r == scroll_zoomed(*m, *rect, pointer, scroll as int),
        r.wf(),
{
    let s: i32 = if scroll < -MAX_SCROLL {
        -MAX_SCROLL
    } else if scroll > MAX_SCROLL {
        MAX_SCROLL
    } else {
        scroll
    };
    let w = rect.width();
    let h = rect.height();
    match pointer {
        Some(p) => {
            if rect.contains(p) && s != 0 && w <= i32::MAX as i64 && h <= i32::MAX as i64 {
                let amount = Ratio { num: -s, den: SCROLL_STEPS };
                let cx = Ratio { num: (p.x as i64 - rect.left as i64) as i32, den: w as i32 };
                let cy = Ratio { num: (rect.bottom as i64 - p.y as i64) as i32, den: h as i32 };
                PlotMemory {
                    x_range: zoom_or_keep(&m.x_range, amount, cx),
                    y_range: zoom_or_keep(&m.y_range, amount, cy),
                    ..*m
                }
            } else {
                *m
            }
        },
        None => *m,
    }
}

/// One axis of a plot as configured: its label and the range it starts with.
#[derive(Debug)]
pub struct Axis {
    pub label: String,
    pub range: AxisRange,
}

impl Default for Axis {
    fn default() -> (r: Axis)
        ensures
            r.label@ == Seq::<char>::empty(),
            r.range == default_range(),
    {
        Axis { label: String::new(), range: AxisRange::new(-DEFAULT_HALF_SPAN, DEFAULT_HALF_SPAN) }
    }
}

/// What one frame reads from the host: the panel's rectangle, the pointer
/// position while it is pressed on the panel, the pointer position in
/// general, and the vertical scroll delta in hundredths of a scroll unit.
#[derive(Clone, Copy, Debug, PartialEq, Eq, Structural)]
pub struct FrameInput {
    pub rect: Rect,
    pub pressed: Option<PixelPoint>,
    pub pointer: Option<PixelPoint>,
    pub scroll: i32,
}

/// The handle through which items are added during a frame. Each item is
/// turned into pixel-space shapes at once, with this frame's transform.
#[derive(Debug)]
pub struct PlotUi {
    pub transform: Transform,
    pub mouse_position: Option<Point>,
    pub hovered: bool,
    pub shapes: Vec<Shape>,
}

impl PlotUi {
    pub fn add(&mut self, item: PlotItem)
        requires
            old(self).transform.wf(),
            item.wf(),
        ensures
            final(self).transform == old(self).transform,
            final(self).mouse_position == old(self).mouse_position,
            final(self).hovered == old(self).hovered,
            shapes_view(final(self).shapes@) == shapes_view(old(self).shapes@) + item.spec_shapes(
                old(self).transform,
            ),
    {
        let ghost before = shapes_view(self.shapes@);
        let ghost added = item.spec_shapes(self.transform);
        let mut painted = item.paint(&self.transform);
        let ghost painted_view = shapes_view(painted@);
        self.shapes.append(&mut painted);
        assert(shapes_view(self.shapes@) =~= before + painted_view);
    }

    /// The pointer position in data space, if there is a pointer.
    pub fn plot_mouse_position(&self) -> (r: Option<Point>)
        ensures
            r == self.mouse_position,
    {
        self.mouse_position
    }

    /// Whether the pointer is over the plotting rectangle.
    pub fn plot_hovered(&self) -> (r: bool)
        ensures
            r == self.hovered,
    {
        self.hovered
    }
}

/// What a frame hands back for painting.
#[derive(Debug)]
pub struct Frame {
    /// The rectangle inside the margins where items are drawn.
    pub plot_rect: Rect,
    /// The spacing shared by the ticks of both axes.
    pub increment: Option<u64>,
    pub x_ticks: Vec<i64>,
    pub y_ticks: Vec<i64>,
    /// The data position to print in the corner, when the readout is on and
    /// the pointer is over the plot.
    pub cursor: Option<Point>,
    pub ui: PlotUi,
}

/// A plot being configured for one frame. The ranges given here apply only
/// to the first frame a plot shows; after that its memory keeps the ranges
/// as panning and zooming left them.
#[derive(Debug)]
pub struct Plot {
    pub label: String,
    pub title: Option<String>,
    pub show_cursor_pos: bool,
    /// Preferred panel size, in points.
    pub width: u32,
    pub height: u32,
    pub x_axis: Axis,
    pub y_axis: Axis,
}

impl Plot {
    pub open spec fn wf(&self) -> bool {
        self.x_axis.range.wf() && self.y_axis.range.wf()
    }

    /// The plotting rectangle for a panel, by the margins this plot needs.
    pub open spec fn spec_area(&self, full: Rect) -> (int, int, int, int) {
        spec_plot_area(full, self.title.is_some(), self.x_axis.label@.len() > 0)
    }

    pub open spec fn has_area(&self, full: Rect) -> bool {
        let (l, t, r, b) = self.spec_area(full);
        l < r && t < b
    }

    pub open spec fn area_rect(&self, full: Rect) -> Rect {
        let (l, t, r, b) = self.spec_area(full);
        Rect { left: l as i32, top: t as i32, right: r as i32, bottom: b as i32 }
    }

    /// The memory after one frame on `area`: the configured ranges if this
    /// is the first frame, then the aspect lock, the drag and the zoom.
    pub open spec fn stepped(&self, m: PlotMemory, area: Rect, input: FrameInput) -> PlotMemory {
        let m0 = if m.shown {
            m
        } else {
            PlotMemory { x_range: self.x_axis.range, y_range: self.y_axis.range, ..m }
        };
        let locked = aspect_locked(m0.x_range, m0.y_range, area);
        let m1 = PlotMemory { x_range: locked.0, y_range: locked.1, shown: true, ..m0 };
        scroll_zoomed(dragged(m1, area, input.pressed), area, input.pointer, input.scroll as int)
    }

    /// The memory after one frame; unchanged when the panel leaves no
    /// plotting rectangle.
    pub open spec fn memory_after(&self, m: PlotMemory, input: FrameInput) -> PlotMemory {
        if self.has_area(input.rect) {
            self.stepped(m, self.area_rect(input.rect), input)
        } else {
            m
        }
    }

    /// What `f` holds after a frame that left memory `after`.
    pub open spec fn frame_ok(&self, f: &Frame, after: PlotMemory, input: FrameInput) -> bool {
        let area = self.area_rect(input.rect);
        let t = Transform { x_range: after.x_range, y_range: after.y_range, rect: area };
        let smaller = if after.x_range.spec_extent() <= after.y_range.spec_extent() {
            after.x_range.spec_extent()
        } else {
            after.y_range.spec_extent()
        };
        let hovered = match input.pointer {
            Some(p) => area.spec_contains(p),
            None => false,
        };
        let mouse = match input.pointer {
            Some(p) => t.spec_to_plot(p.spec_screen()),
            None => None,
        };
        &&& f.plot_rect == area
        &&& f.ui.transform == t
        &&& t.wf()
        &&& best_increment(f.increment, smaller, MIN_TICKS as int)
        &&& f.increment.is_some() ==> ticks_of(f.x_ticks@, after.x_range, f.increment.unwrap() as int)
            && ticks_of(f.y_ticks@, after.y_range, f.increment.unwrap() as int)
        &&& f.increment.is_none() ==> f.x_ticks@.len() == 0 && f.y_ticks@.len() == 0
        &&& f.ui.hovered == hovered
        &&& f.ui.mouse_position == mouse
        &&& f.cursor == if self.show_cursor_pos && hovered {
            mouse
        } else {
            None
        }
        &&& f.ui.shapes@.len() == 0
    }

    pub fn title(self, title: String) -> (r: Plot)
        ensures
            r == (Plot { title: Some(title), ..self }),
    {
        Plot { title: Some(title), ..self }
    }

    pub fn size(self, width: u32, height: u32) -> (r: Plot)
        ensures
            r == (Plot { width, height, ..self }),
    {
        Plot { width, height, ..self }
    }

    pub fn x_axis_range(self, range: AxisRange) -> (r: Plot)
        requires
            range.wf(),
        ensures
            r == (Plot { x_axis: Axis { range, ..self.x_axis }, ..self }),
    {
        Plot { x_axis: Axis { range, ..self.x_axis }, ..self }
    }

    pub fn y_axis_range(self, range: AxisRange) -> (r: Plot)
        requires
            range.wf(),
        ensures
            r == (Plot { y_axis: Axis { range, ..self.y_axis }, ..self }),
    {
        Plot { y_axis: Axis { range, ..self.y_axis }, ..self }
    }

    /// Show the cursor position in the bottom right corner.
    pub fn show_cursor_position(self, on: bool) -> (r: Plot)
        ensures
            r == (Plot { show_cursor_pos: on, ..self }),
    {
        Plot { show_cursor_pos: on, ..self }
    }

    /// Runs one frame against `memory`: lays out the plotting rectangle,
    /// applies the configured ranges on the first frame, locks the aspect
    /// ratio, pans by the drag and zooms by the scroll, and returns the
    /// transform, the ticks and a `PlotUi` for adding items. Without room
    /// for a plotting rectangle nothing happens and `None` comes back.
    pub fn step(&self, memory: &mut PlotMemory, input: &FrameInput) -> (r: Option<Frame>)
        requires
            self.wf(),
            old(memory).wf(),
        ensures
            final(memory).wf(),
            *final(memory) == self.memory_after(*old(memory), *input),
            r.is_some() == self.has_area(input.rect),
            r.is_some() ==> self.frame_ok(&r.unwrap(), *final(memory), *input),
    {
        let area = match plot_area(&input.rect, self.title.is_some(), !self.x_axis.label.as_str().is_empty()) {
            Some(a) => a,
            None => {
                return None;
            },
        };
        proof {
            assert(area == self.area_rect(input.rect));
        }
        let m0 = if memory.shown {
            *memory
        } else {
            PlotMemory { x_range: self.x_axis.range, y_range: self.y_axis.range, ..*memory }
        };
        let locked = lock_aspect(&m0.x_range, &m0.y_range, &area);
        let m1 = PlotMemory { x_range: locked.0, y_range: locked.1, shown: true, ..m0 };
        let m2 = drag(&m1, &area, input.pressed);
        let m3 = scroll_zoom(&m2, &area, input.pointer, input.scroll);
        *memory = m3;
        let t = Transform { x_range: m3.x_range, y_range: m3.y_range, rect: area };
        let ex = m3.x_range.extent();
        let ey = m3.y_range.extent();
        let smaller = if ex <= ey {
            ex
        } else {
            ey
        };
        let increment = nice_increment(smaller, MIN_TICKS);
        let (x_ticks, y_ticks) = match increment {
            Some(inc) => (tick_values(&m3.x_range, inc), tick_values(&m3.y_range, inc)),
            None => (Vec::new(), Vec::new()),
        };
        let (mouse, hovered) = match input.pointer {
            Some(p) => (t.pointer_to_plot(&p), area.contains(p)),
            None => (None, false),
        };
        let cursor = if self.show_cursor_pos && hovered {
            mouse
        } else {
            None
        };
        Some(
            Frame {
                plot_rect: area,
                increment,
                x_ticks,
                y_ticks,
                cursor,
                ui: PlotUi { transform: t, mouse_position: mouse, hovered, shapes: Vec::new() },
            },
        )
    }
}

impl Plot {
    /// A plot named `label` with the default configuration.
    pub open spec fn spec_fresh(&self, label: Seq<char>) -> bool {
        &&& self.label@ == label
        &&& self.title.is_none()
        &&& self.show_cursor_pos
        &&& self.width == 100 && self.height == 100
        &&& self.x_axis.label@.len() == 0 && self.x_axis.range == default_range()
        &&& self.y_axis.label@.len() == 0 && self.y_axis.range == default_range()
    }

    /// Runs one frame of this plot against the memory `ctx` keeps for its
    /// label (a fresh memory if it has none) and stores the memory back.
    pub fn show(self, ctx: &mut PlotCtx, input: &FrameInput) -> (r: Option<Frame>)
        requires
            self.wf(),
            old(ctx).wf(),
        ensures
            final(ctx).wf(),
            ({
                let before = old(ctx).spec_memory(self.label@);
                let after = self.memory_after(before, *input);
                &&& final(ctx)@ == old(ctx)@.insert(self.label@, after)
                &&& r.is_some() == self.has_area(input.rect)
                &&& r.is_some() ==> self.frame_ok(&r.unwrap(), after, *input)
            }),
    {
        let mut memory = ctx.memory(&self.label);
        let r = self.step(&mut memory, input);
        ctx.store(&self.label, memory);
        r
    }
}

/// A plot's name together with its memory.
#[derive(Debug)]
struct PlotEntry {
    label: String,
    memory: PlotMemory,
}

/// The memories of all plots of a session, by label. A memory is made the
/// first time its label is asked for and kept from then on.
pub struct PlotCtx {
    entries: Vec<PlotEntry>,
    memories: Ghost<Map<Seq<char>, PlotMemory>>,
}

impl View for PlotCtx {
    type V = Map<Seq<char>, PlotMemory>;

    closed spec fn view(&self) -> Map<Seq<char>, PlotMemory> {
        self.memories@
    }
}

impl PlotCtx {
    /// One entry per label, each agreeing with the map, and every memory
    /// well formed.
    pub closed spec fn wf(&self) -> bool {
        &&& forall|i: int, j: int|
            0 <= i < j < self.entries@.len() ==> self.entries@[i].label@
                != self.entries@[j].label@
        &&& forall|i: int|
            0 <= i < self.entries@.len() ==> self.memories@.contains_key(
                #[trigger] self.entries@[i].label@,
            ) && self.memories@[self.entries@[i].label@] == self.entries@[i].memory
        &&& forall|k: Seq<char>|
            #[trigger] self.memories@.contains_key(k) ==> exists|i: int|
                0 <= i < self.entries@.len() && self.entries@[i].label@ == k
        &&& forall|k: Seq<char>| #[trigger] self.memories@.contains_key(k) ==> self.memories@[k].wf()
    }

    /// The memory kept for `label`, or a fresh one.
    pub open spec fn spec_memory(&self, label: Seq<char>) -> PlotMemory {
        if self@.contains_key(label) {
            self@[label]
        } else {
            PlotMemory::spec_default()
        }
    }

    pub fn new() -> (r: PlotCtx)
        ensures
            r.wf(),
            r@ == Map::<Seq<char>, PlotMemory>::empty(),
    {
        PlotCtx { entries: Vec::new(), memories: Ghost(Map::empty()) }
    }

    fn find(&self, label: &String) -> (r: Option<usize>)
        requires
            self.wf(),
        ensures
            r.is_some() == self@.contains_key(label@),
            r.is_some() ==> r.unwrap() < self.entries@.len() && self.entries@[r.unwrap() as int].label@
                == label@,
    {
        let mut i: usize = 0;
        while i < self.entries.len()
            invariant
                self.wf(),
                i <= self.entries@.len(),
                forall|j: int| 0 <= j < i ==> self.entries@[j].label@ != label@,
            decreases self.entries@.len() - i,
        {
            if self.entries[i].label == *label {
                return Some(i);
            }
            i = i + 1;
        }
        None
    }

    /// The memory kept for `label`, or a fresh one where there is none.
    pub fn memory(&self, label: &String) -> (r: PlotMemory)
        requires
            self.wf(),
        ensures
            r == self.spec_memory(label@),
            r.wf(),
    {
        match self.find(label) {
            Some(i) => self.entries[i].memory,
            None => PlotMemory::default(),
        }
    }

    fn store(&mut self, label: &String, memory: PlotMemory)
        requires
            old(self).wf(),
            memory.wf(),
        ensures
            final(self).wf(),
            final(self)@ == old(self)@.insert(label@, memory),
    {
        match self.find(label) {
            Some(i) => {
                let ghost old_entries = self.entries@;
                self.entries.set(i, PlotEntry { label: label.clone(), memory });
                proof {
                    self.memories@ = self.memories@.insert(label@, memory);
                    assert forall|k: Seq<char>| #[trigger] self.memories@.contains_key(k) implies exists|j: int|
                        0 <= j < self.entries@.len() && self.entries@[j].label@ == k by {
                        if k != label@ {
                            let j = choose|j: int| 0 <= j < old_entries.len() && old_entries[j].label@ == k;
                            assert(self.entries@[j].label@ == k);
                        } else {
                            assert(self.entries@[i as int].label@ == k);
                        }
                    }
                }
            },
            None => {
                let ghost old_entries = self.entries@;
                self.entries.push(PlotEntry { label: label.clone(), memory });
                proof {
                    self.memories@ = self.memories@.insert(label@, memory);
                    assert forall|k: Seq<char>| #[trigger] self.memories@.contains_key(k) implies exists|j: int|
                        0 <= j < self.entries@.len() && self.entries@[j].label@ == k by {
                        if k != label@ {
                            let j = choose|j: int| 0 <= j < old_entries.len() && old_entries[j].label@ == k;
                            assert(self.entries@[j].label@ == k);
                        } else {
                            assert(self.entries@[old_entries.len() as int].label@ == k);
                        }
                    }
                }
            },
        }
    }

    /// A plot named `label`, with the default configuration. Its memory is
    /// made here if the label is new.
    pub fn plot(&mut self, label: &str) -> (r: Plot)
        requires
            old(self).wf(),
        ensures
            final(self).wf(),
            final(self)@ == old(self)@.insert(label@, old(self).spec_memory(label@)),
            r.spec_fresh(label@),
            r.wf(),
    {
        let name = label.to_owned();
        let memory = self.memory(&name);
        self.store(&name, memory);
        Plot {
            label: name,
            title: None,
            show_cursor_pos: true,
            width: 100,
            height: 100,
            x_axis: Axis::default(),
            y_axis: Axis::default(),
        }
    }
}

impl Default for PlotCtx {
    fn default() -> (r: PlotCtx)
        ensures
            r.wf(),
            r@ == Map::<Seq<char>, PlotMemory>::empty(),
    {
        PlotCtx::new()
    }
}

} // verus!
