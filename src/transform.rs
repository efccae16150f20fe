use vstd::prelude::*;
use crate::axis::{AxisRange, PixelRange, SUBPIXELS, fits_i64};

verus! {

/// A position in data space, in fixed-point data units.
#[derive(Clone, Copy, Debug, PartialEq, Eq, Structural)]
pub struct Point {
    pub x: i64,
    pub y: i64,
}

/// A direction in data space, in fixed-point data units.
#[derive(Clone, Copy, Debug, PartialEq, Eq, Structural)]
pub struct Offset {
    pub x: i64,
    pub y: i64,
}

/// A whole-pixel position, as the pointer reports it.
#[derive(Clone, Copy, Debug, PartialEq, Eq, Structural)]
pub struct PixelPoint {
    pub x: i32,
    pub y: i32,
}

impl PixelPoint {
    pub open spec fn spec_screen(self) -> ScreenPoint {
        ScreenPoint { x: (self.x * SUBPIXELS) as i128, y: (self.y * SUBPIXELS) as i128 }
    }

    /// The same position in sub-pixel steps.
    pub fn to_screen(&self) -> (r: ScreenPoint)
        ensures
            r == self.spec_screen(),
    {
        ScreenPoint {
            x: self.x as i128 * SUBPIXELS as i128,
            y: self.y as i128 * SUBPIXELS as i128,
        }
    }
}

/// A screen position in sub-pixel steps (`SUBPIXELS` to a pixel). Data far
/// outside the view maps far outside the panel, so the coordinates are wide
/// enough to stay exact.
#[derive(Clone, Copy, Debug, PartialEq, Eq, Structural)]
pub struct ScreenPoint {
    pub x: i128,
    pub y: i128,
}

/// An axis-aligned pixel rectangle; `y` grows downward.
#[derive(Clone, Copy, Debug, PartialEq, Eq, Structural)]
pub struct Rect {
    pub left: i32,
    pub top: i32,
    pub right: i32,
    pub bottom: i32,
}

impl Rect {
    pub open spec fn wf(self) -> bool {
        self.left < self.right && self.top < self.bottom
    }

    pub open spec fn spec_x_range(self) -> PixelRange {
        PixelRange { start: self.left, end: self.right }
    }

    pub open spec fn spec_y_range(self) -> PixelRange {
        PixelRange { start: self.top, end: self.bottom }
    }

    /// Inclusive on all four edges.
    pub open spec fn spec_contains(self, p: PixelPoint) -> bool {
        self.left <= p.x <= self.right && self.top <= p.y <= self.bottom
    }

    pub fn x_range(&self) -> (r: PixelRange)
        ensures
            r == self.spec_x_range(),
    {
        PixelRange { start: self.left, end: self.right }
    }

    pub fn y_range(&self) -> (r: PixelRange)
        ensures
            r == self.spec_y_range(),
    {
        PixelRange { start: self.top, end: self.bottom }
    }

    pub fn contains(&self, p: PixelPoint) -> (r: bool)
        ensures
            r == self.spec_contains(p),
    {
        self.left <= p.x && p.x <= self.right && self.top <= p.y && p.y <= self.bottom
    }

    pub fn width(&self) -> (r: i64)
        ensures
            r == self.right - self.left,
    {
        self.right as i64 - self.left as i64
    }

    pub fn height(&self) -> (r: i64)
        ensures
            r == self.bottom - self.top,
    {
        self.bottom as i64 - self.top as i64
    }
}

/// The two-way mapping between data space and the screen over `rect`, for
/// the visible ranges of both axes. The y axis is flipped: larger data values
/// are drawn higher up. An empty side of `rect` counts as one pixel.
#[derive(Clone, Copy, Debug, PartialEq, Eq, Structural)]
pub struct Transform {
    pub x_range: AxisRange,
    pub y_range: AxisRange,
    pub rect: Rect,
}

impl Transform {
    pub open spec fn wf(self) -> bool {
        self.x_range.wf() && self.y_range.wf()
    }

    pub open spec fn spec_to_pixels(self, p: Point) -> ScreenPoint {
        ScreenPoint {
            x: self.x_range.pixel_at(self.rect.spec_x_range(), p.x as int, false) as i128,
            y: self.y_range.pixel_at(self.rect.spec_y_range(), p.y as int, true) as i128,
        }
    }

    /// The data position of a screen position, where all coordinates fit in
    /// `i64`.
    pub open spec fn spec_to_plot(self, p: ScreenPoint) -> Option<Point> {
        let x = self.x_range.data_at(self.rect.spec_x_range(), p.x as int, false);
        let y = self.y_range.data_at(self.rect.spec_y_range(), p.y as int, true);
        if fits_i64(p.x as int) && fits_i64(p.y as int) && fits_i64(x) && fits_i64(y) {
            Some(Point { x: x as i64, y: y as i64 })
        } else {
            None
        }
    }

    pub fn plot_to_pixels(&self, p: &Point) -> (r: ScreenPoint)
        requires
            self.wf(),
        ensures
            r == self.spec_to_pixels(*p),
    {
        let x = self.x_range.axis_to_pixel(self.rect.x_range(), p.x as i128, false);
        let y = self.y_range.axis_to_pixel(self.rect.y_range(), p.y as i128, true);
        ScreenPoint { x, y }
    }

    /// The pixel position of `p + d`, exact even where the sum leaves `i64`.
    pub open spec fn spec_offset_to_pixels(self, p: Point, d: Offset) -> ScreenPoint {
        ScreenPoint {
            x: self.x_range.pixel_at(self.rect.spec_x_range(), p.x + d.x, false) as i128,
            y: self.y_range.pixel_at(self.rect.spec_y_range(), p.y + d.y, true) as i128,
        }
    }

    pub fn offset_to_pixels(&self, p: &Point, d: &Offset) -> (r: ScreenPoint)
        requires
            self.wf(),
        ensures
            r == self.spec_offset_to_pixels(*p, *d),
    {
        let x = self.x_range.axis_to_pixel(self.rect.x_range(), p.x as i128 + d.x as i128, false);
        let y = self.y_range.axis_to_pixel(self.rect.y_range(), p.y as i128 + d.y as i128, true);
        ScreenPoint { x, y }
    }

    pub fn pixels_to_plot(&self, p: &ScreenPoint) -> (r: Option<Point>)
        requires
            self.wf(),
        ensures
            r == self.spec_to_plot(*p),
    {
        if p.x < i64::MIN as i128 || p.x > i64::MAX as i128 || p.y < i64::MIN as i128 || p.y
            > i64::MAX as i128 {
            return None;
        }
        let x = self.x_range.pixel_to_axis(self.rect.x_range(), p.x as i64, false);
        let y = self.y_range.pixel_to_axis(self.rect.y_range(), p.y as i64, true);
        match (x, y) {
            (Some(x), Some(y)) => Some(Point { x, y }),
            _ => None,
        }
    }

    /// The data position under the pointer.
    pub fn pointer_to_plot(&self, p: &PixelPoint) -> (r: Option<Point>)
        requires
            self.wf(),
        ensures
            r == self.spec_to_plot(p.spec_screen()),
    {
        self.pixels_to_plot(&p.to_screen())
    }
}

} // verus!
