use vstd::prelude::*;
use crate::arith::{
    ceil_div, trunc_div, ceil_div_i128, floor_div_i128, trunc_div_i128, lemma_ceil_div,
    lemma_floor_div, lemma_trunc_div,
};

verus! {

/// A fraction `num / den` with a positive denominator.
#[derive(Clone, Copy, Debug, PartialEq, Eq, Structural)]
pub struct Ratio {
    pub num: i32,
    pub den: i32,
}

impl Ratio {
    pub open spec fn wf(self) -> bool {
        self.den > 0
    }

    /// A fraction in `[0, 1]`.
    pub open spec fn is_unit_fraction(self) -> bool {
        self.den > 0 && 0 <= self.num <= self.den
    }
}

/// Screen positions are fixed-point too: one pixel is this many steps.
pub const SUBPIXELS: i64 = 65536;

/// A span of whole pixels, from `start` to `end`; `end` may lie before
/// `start`, and the range then runs backward.
#[derive(Clone, Copy, Debug, PartialEq, Eq, Structural)]
pub struct PixelRange {
    pub start: i32,
    pub end: i32,
}

impl PixelRange {
    pub open spec fn wf(self) -> bool {
        self.start < self.end
    }

    pub open spec fn spec_reversed(self) -> bool {
        self.end < self.start
    }

    /// The number of pixels from `start` to `end`, whichever way the range
    /// runs; an empty range counts as one pixel, so that nothing divides by
    /// zero.
    pub open spec fn spec_width(self) -> int {
        if self.end > self.start {
            self.end - self.start
        } else if self.end < self.start {
            self.start - self.end
        } else {
            1
        }
    }

    /// The screen position of `start`, in sub-pixel steps.
    pub open spec fn spec_origin(self) -> int {
        self.start * SUBPIXELS
    }

    /// The width in sub-pixel steps.
    pub open spec fn spec_span(self) -> int {
        self.spec_width() * SUBPIXELS
    }

    /// How far screen position `pos` lies from `start` toward `end`.
    pub open spec fn spec_along(self, pos: int) -> int {
        if self.spec_reversed() {
            self.spec_origin() - pos
        } else {
            pos - self.spec_origin()
        }
    }

    /// The screen position `x` sub-pixel steps from `start` toward `end`.
    pub open spec fn spec_at_offset(self, x: int) -> int {
        if self.spec_reversed() {
            self.spec_origin() - x
        } else {
            self.spec_origin() + x
        }
    }

    fn origin(&self) -> (r: i128)
        ensures
            r == self.spec_origin(),
            -0x8000_0000_0000 <= r <= 0x8000_0000_0000,
    {
        self.start as i128 * SUBPIXELS as i128
    }

    fn along(&self, pos: i64) -> (r: i128)
        ensures
            r == self.spec_along(pos as int),
            -0x8001_0000_0000_0000 < r < 0x8001_0000_0000_0000,
    {
        let origin = self.origin();
        if self.end < self.start {
            origin - pos as i128
        } else {
            pos as i128 - origin
        }
    }

    fn at_offset(&self, x: i128) -> (r: i128)
        requires
            -0x4_0000_0000_0000_0000_0000_0000_0000 <= x < 0x4_0000_0000_0000_0000_0000_0000_0000,
        ensures
            r == self.spec_at_offset(x as int),
    {
        let origin = self.origin();
        if self.end < self.start {
            origin - x
        } else {
            origin + x
        }
    }

    fn span(&self) -> (r: i128)
        ensures
            r == self.spec_span(),
            0 < r < 0x1_0000_0000_0000,
    {
        let w: i128 = if self.end > self.start {
            self.end as i128 - self.start as i128
        } else if self.end < self.start {
            self.start as i128 - self.end as i128
        } else {
            1
        };
        assert(0 < w * 65536 < 0x1_0000_0000_0000) by (nonlinear_arith)
            requires
                0 < w < 0x1_0000_0000,
        ;
        w * SUBPIXELS as i128
    }
}

pub open spec fn fits_i64(v: int) -> bool {
    i64::MIN <= v <= i64::MAX
}

/// Number of fixed-point steps in one tenth of a data unit.
pub const TENTH: i64 = 100_000;

/// Number of fixed-point steps in one data unit.
pub const UNITS_PER_ONE: i64 = 10 * TENTH;

/// The visible interval of one axis, in fixed-point data units.
#[derive(Clone, Copy, Debug, PartialEq, Eq, Structural)]
pub struct AxisRange {
    pub start: i64,
    pub end: i64,
}

impl AxisRange {
    /// A usable range: non-empty, with an extent that fits in `i64`.
    pub open spec fn wf(self) -> bool {
        self.start < self.end && self.end - self.start <= i64::MAX
    }

    pub open spec fn spec_extent(self) -> int {
        self.end - self.start
    }

    /// Mean of the bounds, rounded down.
    pub open spec fn spec_middle(self) -> int {
        (self.start + self.end) / 2
    }

    pub fn new(start: i64, end: i64) -> (r: AxisRange)
        requires
            start < end,
            end - start <= i64::MAX,
        ensures
            r.start == start,
            r.end == end,
            r.wf(),
    {
        AxisRange { start, end }
    }

    pub fn extent(&self) -> (r: i64)
        requires
            self.wf(),
        ensures
            r == self.spec_extent(),
    {
        self.end - self.start
    }

    pub fn middle(&self) -> (r: i64)
        requires
            self.wf(),
        ensures
            r == self.spec_middle(),
    {
        self.start + (self.end - self.start) / 2
    }

    /// The range shifted by `delta`.
    pub open spec fn translated(self, delta: int) -> (int, int) {
        (self.start + delta, self.end + delta)
    }

    /// Shifts both bounds by `delta` (a pan), when the shifted bounds fit in
    /// `i64`; otherwise the range stays as it was and `false` comes back.
    pub fn translate(&mut self, delta: i64) -> (fits: bool)
        requires
            old(self).wf(),
        ensures
            fits == (fits_i64(old(self).translated(delta as int).0) && fits_i64(
                old(self).translated(delta as int).1,
            )),
            fits ==> final(self).start == old(self).translated(delta as int).0 && final(self).end
                == old(self).translated(delta as int).1,
            !fits ==> *final(self) == *old(self),
            final(self).wf(),
    {
        let s = self.start as i128 + delta as i128;
        let e = self.end as i128 + delta as i128;
        if s < i64::MIN as i128 || e > i64::MAX as i128 {
            return false;
        }
        self.start = s as i64;
        self.end = e as i64;
        true
    }

    /// How far the start moves outward under `zoom`, rounded toward zero.
    pub open spec fn zoom_shift_start(self, amount: Ratio, center: Ratio) -> int {
        trunc_div(
            amount.num * center.num * self.spec_extent(),
            amount.den * center.den,
        )
    }

    /// How far the end moves outward under `zoom`, rounded toward zero.
    pub open spec fn zoom_shift_end(self, amount: Ratio, center: Ratio) -> int {
        trunc_div(
            amount.num * (center.den - center.num) * self.spec_extent(),
            amount.den * center.den,
        )
    }

    /// The bounds after zooming by `amount` around the fractional position
    /// `center`: `start -= amount * center * extent` and
    /// `end += amount * (1 - center) * extent`.
    pub open spec fn zoomed(self, amount: Ratio, center: Ratio) -> (int, int) {
        (
            self.start - self.zoom_shift_start(amount, center),
            self.end + self.zoom_shift_end(amount, center),
        )
    }

    /// The zoomed bounds can be stored as a well-formed range.
    pub open spec fn zoom_fits(self, amount: Ratio, center: Ratio) -> bool {
        let (s, e) = self.zoomed(amount, center);
        fits_i64(s) && fits_i64(e) && e - s <= i64::MAX
    }

    /// Grows (positive `amount`) or shrinks (negative `amount`) the range,
    /// keeping the point at fractional position `center` in place. When the
    /// result cannot be stored the range stays as it was and `false` comes
    /// back.
    pub fn zoom(&mut self, amount: Ratio, center: Ratio) -> (fits: bool)
        requires
            old(self).wf(),
            amount.wf(),
            amount.num > -amount.den,
            center.is_unit_fraction(),
        ensures
            fits == old(self).zoom_fits(amount, center),
            fits ==> final(self).start == old(self).zoomed(amount, center).0 && final(self).end
                == old(self).zoomed(amount, center).1,
            !fits ==> *final(self) == *old(self),
            final(self).wf(),
    {
        let ext = self.extent();
        let an = amount.num as i128;
        let ad = amount.den as i128;
        let cn = center.num as i128;
        let cd = center.den as i128;
        proof {
            assert(0 < ad * cd <= 0x4000_0000_0000_0000) by (nonlinear_arith)
                requires
                    0 < ad <= 0x8000_0000,
                    0 < cd <= 0x8000_0000,
            ;
            assert(-0x4000_0000_0000_0000 <= an * cn <= 0x4000_0000_0000_0000) by (nonlinear_arith)
                requires
                    -0x8000_0000 <= an <= 0x8000_0000,
                    0 <= cn <= 0x8000_0000,
            ;
            assert(-0x4000_0000_0000_0000 <= an * (cd - cn) <= 0x4000_0000_0000_0000)
                by (nonlinear_arith)
                requires
                    -0x8000_0000 <= an <= 0x8000_0000,
                    0 <= cd - cn <= 0x8000_0000,
            ;
        }
        let den = ad * cd;
        let p1 = an * cn;
        let p2 = an * (cd - cn);
        proof {
            assert(-0x4000_0000_0000_0000_0000_0000_0000_0000 < p1 * ext
                < 0x4000_0000_0000_0000_0000_0000_0000_0000) by (nonlinear_arith)
                requires
                    -0x4000_0000_0000_0000 <= p1 <= 0x4000_0000_0000_0000,
                    0 < ext < 0x8000_0000_0000_0000,
            ;
            assert(-0x4000_0000_0000_0000_0000_0000_0000_0000 < p2 * ext
                < 0x4000_0000_0000_0000_0000_0000_0000_0000) by (nonlinear_arith)
                requires
                    -0x4000_0000_0000_0000 <= p2 <= 0x4000_0000_0000_0000,
                    0 < ext < 0x8000_0000_0000_0000,
            ;
        }
        let ds = trunc_div_i128(p1 * ext as i128, den);
        let de = trunc_div_i128(p2 * ext as i128, den);
        proof {
            assert(an * cn * ext == p1 * ext);
            assert(an * (cd - cn) * ext == p2 * ext);
            lemma_zoom_bounds(*self, amount, center);
        }
        let s = self.start as i128 - ds;
        let e = self.end as i128 + de;
        if s < i64::MIN as i128 || e > i64::MAX as i128 || e - s > i64::MAX as i128 {
            return false;
        }
        self.start = s as i64;
        self.end = e as i64;
        true
    }
}

impl AxisRange {
    /// The data value at screen position `pos` (in sub-pixel steps) along
    /// `pixels`: its offset from the range's first pixel toward the last,
    /// scaled by `extent / span` and rounded up, counted from `start`, or
    /// back from `end` when the axis is flipped.
    pub open spec fn data_at(self, pixels: PixelRange, pos: int, flip: bool) -> int {
        let off = ceil_div(pixels.spec_along(pos) * self.spec_extent(), pixels.spec_span());
        if flip {
            self.end - off
        } else {
            self.start + off
        }
    }

    /// The screen position (in sub-pixel steps) at which data value `value`
    /// is drawn: its offset from `start` (from `end` when flipped) scaled by
    /// `span / extent` and rounded down, counted from the range's first
    /// pixel toward its last.
    pub open spec fn pixel_at(self, pixels: PixelRange, value: int, flip: bool) -> int {
        let d = if flip {
            self.end - value
        } else {
            value - self.start
        };
        pixels.spec_at_offset((d * pixels.spec_span()) / self.spec_extent())
    }

    /// Maps a screen position (in sub-pixel steps) into data space; `None`
    /// where the data value does not fit in `i64`.
    pub fn pixel_to_axis(&self, pixels: PixelRange, pos: i64, flip: bool) -> (r: Option<i64>)
        requires
            self.wf(),
        ensures
            r.is_some() == fits_i64(self.data_at(pixels, pos as int, flip)),
            r.is_some() ==> r.unwrap() == self.data_at(pixels, pos as int, flip),
    {
        let x = pixels.along(pos);
        let span = pixels.span();
        let ext = self.extent() as i128;
        proof {
            assert(-0x4100_0000_0000_0000_0000_0000_0000_0000 < x * ext
                < 0x4100_0000_0000_0000_0000_0000_0000_0000) by (nonlinear_arith)
                requires
                    -0x8001_0000_0000_0000 < x < 0x8001_0000_0000_0000,
                    0 < ext < 0x8000_0000_0000_0000,
            ;
        }
        let off = ceil_div_i128(x * ext, span);
        proof {
            lemma_ceil_div(x * ext, span as int);
            assert(-0x4100_0000_0000_0000_0000_0000_0000_0001 < off
                < 0x4100_0000_0000_0000_0000_0000_0000_0001) by (nonlinear_arith)
                requires
                    span > 0,
                    span * off - span < x * ext <= span * off,
                    -0x4100_0000_0000_0000_0000_0000_0000_0000 < x * ext
                        < 0x4100_0000_0000_0000_0000_0000_0000_0000,
            ;
        }
        let v = if flip {
            self.end as i128 - off
        } else {
            self.start as i128 + off
        };
        if v < i64::MIN as i128 || v > i64::MAX as i128 {
            None
        } else {
            Some(v as i64)
        }
    }

    /// Maps a data value to its screen position, in sub-pixel steps. The
    /// result lies outside `pixels` for values outside the range.
    pub fn axis_to_pixel(&self, pixels: PixelRange, value: i128, flip: bool) -> (r: i128)
        requires
            self.wf(),
            -0x1_0000_0000_0000_0000 <= value <= 0x1_0000_0000_0000_0000,
        ensures
            r == self.pixel_at(pixels, value as int, flip),
    {
        let d = if flip {
            self.end as i128 - value
        } else {
            value - self.start as i128
        };
        let span = pixels.span();
        let ext = self.extent() as i128;
        proof {
            assert(-0x4_0000_0000_0000_0000_0000_0000_0000 < d * span
                < 0x4_0000_0000_0000_0000_0000_0000_0000) by (nonlinear_arith)
                requires
                    -0x2_0000_0000_0000_0000 < d < 0x2_0000_0000_0000_0000,
                    0 < span < 0x1_0000_0000_0000,
            ;
        }
        let q = floor_div_i128(d * span, ext);
        proof {
            lemma_floor_div(d * span, ext as int);
            assert(-0x4_0000_0000_0000_0000_0000_0000_0000 <= q < 0x4_0000_0000_0000_0000_0000_0000_0000)
                by (nonlinear_arith)
                requires
                    ext > 0,
                    ext * q <= d * span < ext * q + ext,
                    -0x4_0000_0000_0000_0000_0000_0000_0000 < d * span
                        < 0x4_0000_0000_0000_0000_0000_0000_0000,
            ;
        }
        pixels.at_offset(q)
    }
}

/// Mapping a screen position on the range into data space and back never
/// lands short of it, and lands further toward the range's last pixel by
/// less than `span / extent` sub-pixel steps, the screen size of one data
/// step; so it gives the same position whenever a data step is no wider
/// than a sub-pixel step (`span <= extent`).
pub proof fn lemma_pixel_round_trip(r: AxisRange, pixels: PixelRange, pos: int, flip: bool)
    requires
        r.wf(),
        0 <= pixels.spec_along(pos) <= pixels.spec_span(),
    ensures
        ({
            let back = r.pixel_at(pixels, r.data_at(pixels, pos, flip), flip);
            let err = pixels.spec_along(back) - pixels.spec_along(pos);
            &&& 0 <= err
            &&& err * r.spec_extent() < pixels.spec_span()
            &&& pixels.spec_span() <= r.spec_extent() ==> back == pos
        }),
{
    let x = pixels.spec_along(pos);
    let w = pixels.spec_span();
    let ext = r.spec_extent();
    let off = ceil_div(x * ext, w);
    lemma_ceil_div(x * ext, w);
    let d = if flip {
        r.end - r.data_at(pixels, pos, flip)
    } else {
        r.data_at(pixels, pos, flip) - r.start
    };
    assert(d == off);
    let q = (off * w) / ext;
    lemma_floor_div(off * w, ext);
    assert(pixels.spec_along(pixels.spec_at_offset(q)) == q);
    assert(x <= q && (q - x) * ext < w) by (nonlinear_arith)
        requires
            w > 0,
            ext > 0,
            w * off - w < x * ext <= w * off,
            ext * q <= off * w < ext * q + ext,
    ;
    if w <= ext {
        assert(q - x < 1) by (nonlinear_arith)
            requires
                (q - x) * ext < w,
                w <= ext,
                ext > 0,
        ;
    }
}

/// Drawing a data value and reading the screen position back gives the
/// value again, to within less than `extent / span` data steps (the data
/// size of one sub-pixel step), toward `start` (toward `end` when flipped);
/// exactly whenever a sub-pixel step is no wider than a data step
/// (`extent <= span`).
pub proof fn lemma_data_round_trip(r: AxisRange, pixels: PixelRange, value: int, flip: bool)
    requires
        r.wf(),
    ensures
        ({
            let back = r.data_at(pixels, r.pixel_at(pixels, value, flip), flip);
            let err = if flip {
                back - value
            } else {
                value - back
            };
            &&& 0 <= err
            &&& err * pixels.spec_span() < r.spec_extent()
            &&& r.spec_extent() <= pixels.spec_span() ==> back == value
        }),
{
    let w = pixels.spec_span();
    let ext = r.spec_extent();
    let d = if flip {
        r.end - value
    } else {
        value - r.start
    };
    let q = (d * w) / ext;
    lemma_floor_div(d * w, ext);
    assert(pixels.spec_along(r.pixel_at(pixels, value, flip)) == q);
    let c = ceil_div(q * ext, w);
    lemma_ceil_div(q * ext, w);
    assert(0 <= d - c && (d - c) * w < ext) by (nonlinear_arith)
        requires
            w > 0,
            ext > 0,
            ext * q <= d * w < ext * q + ext,
            w * c - w < q * ext <= w * c,
    ;
    if ext <= w {
        assert(d - c < 1) by (nonlinear_arith)
            requires
                (d - c) * w < ext,
                ext <= w,
                w > 0,
        ;
    }
}

/// Larger data values are drawn further toward the range's last pixel
/// (toward its first when flipped), never out of order, and strictly apart
/// whenever a data step is at least one sub-pixel step wide
/// (`extent <= span`).
pub proof fn lemma_pixel_order(r: AxisRange, pixels: PixelRange, v1: int, v2: int)
    requires
        r.wf(),
        v1 < v2,
    ensures
        pixels.spec_along(r.pixel_at(pixels, v1, false)) <= pixels.spec_along(
            r.pixel_at(pixels, v2, false),
        ),
        pixels.spec_along(r.pixel_at(pixels, v2, true)) <= pixels.spec_along(
            r.pixel_at(pixels, v1, true),
        ),
        r.spec_extent() <= pixels.spec_span() ==> pixels.spec_along(r.pixel_at(pixels, v1, false))
            < pixels.spec_along(r.pixel_at(pixels, v2, false)) && pixels.spec_along(
            r.pixel_at(pixels, v2, true),
        ) < pixels.spec_along(r.pixel_at(pixels, v1, true)),
{
    let w = pixels.spec_span();
    let ext = r.spec_extent();
    lemma_floor_steps(v1 - r.start, v2 - r.start, w, ext);
    lemma_floor_steps(r.end - v2, r.end - v1, w, ext);
}

proof fn lemma_floor_steps(a: int, b: int, w: int, ext: int)
    requires
        a < b,
        w > 0,
        ext > 0,
    ensures
        (a * w) / ext <= (b * w) / ext,
        ext <= w ==> (a * w) / ext < (b * w) / ext,
{
    let qa = (a * w) / ext;
    let qb = (b * w) / ext;
    lemma_floor_div(a * w, ext);
    lemma_floor_div(b * w, ext);
    assert(a * w + w <= b * w) by (nonlinear_arith)
        requires
            a < b,
            w > 0,
    ;
    assert(qa <= qb) by (nonlinear_arith)
        requires
            ext * qa <= a * w < ext * qa + ext,
            ext * qb <= b * w < ext * qb + ext,
            a * w + w <= b * w,
            w > 0,
            ext > 0,
    ;
    if ext <= w {
        assert(qa < qb) by (nonlinear_arith)
            requires
                ext * qa <= a * w < ext * qa + ext,
                ext * qb <= b * w < ext * qb + ext,
                a * w + w <= b * w,
                ext <= w,
                ext > 0,
        ;
    }
}

/// A pan keeps the extent exactly and moves the middle by the pan distance.
pub proof fn lemma_translate_keeps_extent(r: AxisRange, delta: int)
    requires
        r.wf(),
    ensures
        r.translated(delta).1 - r.translated(delta).0 == r.spec_extent(),
        (r.translated(delta).0 + r.translated(delta).1) / 2 == r.spec_middle() + delta,
{
    assert(r.translated(delta).0 + r.translated(delta).1 == r.start + r.end + 2 * delta);
}

/// `center.den` times the data value at fractional position `center`.
pub open spec fn anchor_scaled(start: int, end: int, center: Ratio) -> int {
    center.den * start + center.num * (end - start)
}

/// Zooming keeps the point at fractional position `center` in place, to
/// within less than one data step: the rounding of the two shifts is all it
/// moves.
pub proof fn lemma_zoom_keeps_anchor(r: AxisRange, amount: Ratio, center: Ratio)
    requires
        r.wf(),
        amount.wf(),
        amount.num > -amount.den,
        center.is_unit_fraction(),
    ensures
        ({
            let (s, e) = r.zoomed(amount, center);
            let moved = anchor_scaled(s, e, center) - anchor_scaled(r.start as int, r.end as int, center);
            -center.den < moved < center.den
        }),
{
    let an = amount.num as int;
    let ad = amount.den as int;
    let cn = center.num as int;
    let cd = center.den as int;
    let ext = r.spec_extent();
    let ds = r.zoom_shift_start(amount, center);
    let de = r.zoom_shift_end(amount, center);
    let (s, e) = r.zoomed(amount, center);
    assert(anchor_scaled(s, e, center) - anchor_scaled(r.start as int, r.end as int, center) == cn * de - (cd
        - cn) * ds) by (nonlinear_arith)
        requires
            s == r.start - ds,
            e == r.end + de,
            ext == r.end - r.start,
            anchor_scaled(s, e, center) == cd * s + cn * (e - s),
            anchor_scaled(r.start as int, r.end as int, center) == cd * r.start + cn * ext,
    ;
    lemma_anchor_error(an, ad, cn, cd, ext, ds, de);
}

proof fn lemma_anchor_error(an: int, ad: int, cn: int, cd: int, ext: int, ds: int, de: int)
    requires
        ad > 0,
        0 <= cn <= cd,
        cd > 0,
        ext > 0,
        ds == trunc_div(an * cn * ext, ad * cd),
        de == trunc_div(an * (cd - cn) * ext, ad * cd),
    ensures
        -cd < cn * de - (cd - cn) * ds < cd,
{
    let d = ad * cd;
    let p1 = an * cn * ext;
    let p2 = an * (cd - cn) * ext;
    assert(d > 0) by (nonlinear_arith)
        requires
            ad > 0,
            cd > 0,
            d == ad * cd,
    ;
    lemma_trunc_div(p1, d);
    lemma_trunc_div(p2, d);
    let r1 = p1 - d * ds;
    let r2 = p2 - d * de;
    let m = cn * de - (cd - cn) * ds;
    assert(cn * p2 == (cd - cn) * p1) by (nonlinear_arith)
        requires
            p1 == an * cn * ext,
            p2 == an * (cd - cn) * ext,
    ;
    assert(d * m == cn * (d * de) - (cd - cn) * (d * ds)) by (nonlinear_arith)
        requires
            m == cn * de - (cd - cn) * ds,
    ;
    assert(cn * (d * de) == cn * p2 - cn * r2) by (nonlinear_arith)
        requires
            r2 == p2 - d * de,
    ;
    assert((cd - cn) * (d * ds) == (cd - cn) * p1 - (cd - cn) * r1) by (nonlinear_arith)
        requires
            r1 == p1 - d * ds,
    ;
    if an >= 0 {
        assert(p1 >= 0 && p2 >= 0) by (nonlinear_arith)
            requires
                an >= 0,
                cn >= 0,
                cd - cn >= 0,
                ext > 0,
                p1 == an * cn * ext,
                p2 == an * (cd - cn) * ext,
        ;
        assert(-cd * d < (cd - cn) * r1 - cn * r2 < cd * d) by (nonlinear_arith)
            requires
                0 <= r1 < d,
                0 <= r2 < d,
                0 <= cn <= cd,
                cd > 0,
        ;
    } else {
        assert(p1 <= 0 && p2 <= 0) by (nonlinear_arith)
            requires
                an < 0,
                cn >= 0,
                cd - cn >= 0,
                ext > 0,
                p1 == an * cn * ext,
                p2 == an * (cd - cn) * ext,
        ;
        assert(-cd * d < (cd - cn) * r1 - cn * r2 < cd * d) by (nonlinear_arith)
            requires
                -d < r1 <= 0,
                -d < r2 <= 0,
                0 <= cn <= cd,
                cd > 0,
        ;
    }
    assert(-cd < m < cd) by (nonlinear_arith)
        requires
            d > 0,
            d * m == (cd - cn) * r1 - cn * r2,
            -cd * d < (cd - cn) * r1 - cn * r2 < cd * d,
    ;
}

/// The zoomed range stays non-empty when `amount > -1`.
proof fn lemma_zoom_bounds(r: AxisRange, amount: Ratio, center: Ratio)
    requires
        r.wf(),
        amount.wf(),
        amount.num > -amount.den,
        center.is_unit_fraction(),
    ensures
        r.zoomed(amount, center).0 < r.zoomed(amount, center).1,
{
    let an = amount.num as int;
    let ad = amount.den as int;
    let cn = center.num as int;
    let cd = center.den as int;
    let ext = r.spec_extent();
    let ds = r.zoom_shift_start(amount, center);
    let de = r.zoom_shift_end(amount, center);
    lemma_zoom_shifts(an, ad, cn, cd, ext, ds, de);
}

proof fn lemma_zoom_shifts(an: int, ad: int, cn: int, cd: int, ext: int, ds: int, de: int)
    requires
        ad > 0,
        an > -ad,
        0 <= cn <= cd,
        cd > 0,
        ext > 0,
        ds == trunc_div(an * cn * ext, ad * cd),
        de == trunc_div(an * (cd - cn) * ext, ad * cd),
    ensures
        ext + ds + de > 0,
{
    let d = ad * cd;
    let p1 = an * cn * ext;
    let p2 = an * (cd - cn) * ext;
    assert(d > 0) by (nonlinear_arith)
        requires
            ad > 0,
            cd > 0,
            d == ad * cd,
    ;
    lemma_trunc_div(p1, d);
    lemma_trunc_div(p2, d);
    assert(p1 + p2 == an * cd * ext) by (nonlinear_arith)
        requires
            p1 == an * cn * ext,
            p2 == an * (cd - cn) * ext,
    ;
    assert(d * ext + an * cd * ext > 0) by (nonlinear_arith)
        requires
            d == ad * cd,
            cd > 0,
            ext > 0,
            ad + an > 0,
    ;
    if an >= 0 {
        assert(p1 >= 0 && p2 >= 0) by (nonlinear_arith)
            requires
                an >= 0,
                cn >= 0,
                cd - cn >= 0,
                ext > 0,
                p1 == an * cn * ext,
                p2 == an * (cd - cn) * ext,
        ;
        assert(ds >= 0 && de >= 0) by (nonlinear_arith)
            requires
                d > 0,
                d * ds > p1 - d,
                d * de > p2 - d,
                p1 >= 0,
                p2 >= 0,
        ;
    } else {
        assert(p1 <= 0 && p2 <= 0) by (nonlinear_arith)
            requires
                an < 0,
                cn >= 0,
                cd - cn >= 0,
                ext > 0,
                p1 == an * cn * ext,
                p2 == an * (cd - cn) * ext,
        ;
        assert(ext + ds + de > 0) by (nonlinear_arith)
            requires
                d > 0,
                d * ds >= p1,
                d * de >= p2,
                p1 + p2 == an * cd * ext,
                d * ext + an * cd * ext > 0,
        ;
    }
}

} // verus!
