use eplot::axis::{AxisRange, PixelRange, Ratio, SUBPIXELS, UNITS_PER_ONE};
use eplot::labels::value_label;
use eplot::ticks::{nice_increment, tick_values, MIN_TICKS};

const U: i64 = UNITS_PER_ONE;
const S: i64 = SUBPIXELS;

fn symmetric(half: i64) -> AxisRange {
    AxisRange::new(-half * U, half * U)
}

#[test]
fn axis_to_pixel_scenario() {
    let r = symmetric(10);
    let px = PixelRange { start: 0, end: 800 };
    assert_eq!(r.axis_to_pixel(px, 0, false), 400 * S as i128);
    assert_eq!(r.axis_to_pixel(px, (-10 * U) as i128, false), 0);
    assert_eq!(r.axis_to_pixel(px, (10 * U) as i128, false), 800 * S as i128);
}

#[test]
fn axis_to_pixel_flipped() {
    let r = symmetric(10);
    let px = PixelRange { start: 0, end: 800 };
    assert_eq!(r.axis_to_pixel(px, (10 * U) as i128, true), 0);
    assert_eq!(r.axis_to_pixel(px, (-10 * U) as i128, true), 800 * S as i128);
    assert_eq!(r.axis_to_pixel(px, (5 * U) as i128, true), 200 * S as i128);
}

#[test]
fn axis_to_pixel_keeps_sub_pixel_part() {
    let r = AxisRange::new(0, 100 * U);
    let px = PixelRange { start: 0, end: 800 };
    // 0.124999 units is just under one pixel in.
    let p = r.axis_to_pixel(px, 124_999, false);
    assert!(p > 0 && p < S as i128);
    assert!(r.axis_to_pixel(px, 125_000, false) == S as i128);
}

#[test]
fn pixel_to_axis_values() {
    let r = symmetric(10);
    let px = PixelRange { start: 0, end: 800 };
    assert_eq!(r.pixel_to_axis(px, 400 * S, false), Some(0));
    assert_eq!(r.pixel_to_axis(px, 0, false), Some(-10 * U));
    assert_eq!(r.pixel_to_axis(px, 200 * S, true), Some(5 * U));
    assert_eq!(r.pixel_to_axis(px, S, false), Some(-10 * U + 25_000));
    assert_eq!(r.pixel_to_axis(px, 1, false), Some(-10 * U + 1));
}

#[test]
fn pixel_round_trip_every_pixel() {
    let r = AxisRange::new(-3 * U + 17, 7 * U - 5);
    let px = PixelRange { start: 13, end: 613 };
    // span / extent is just under 4 sub-pixel steps.
    for flip in [false, true] {
        for p in 13..=613i64 {
            let pos = p * S;
            let v = r.pixel_to_axis(px, pos, flip).unwrap();
            let back = r.axis_to_pixel(px, v as i128, flip);
            assert!(back >= pos as i128 && back - (pos as i128) < 4);
        }
    }
}

#[test]
fn data_round_trip_exact_on_fine_screen() {
    let r = AxisRange::new(-3 * U + 17, 7 * U - 5);
    let px = PixelRange { start: 13, end: 613 };
    for flip in [false, true] {
        for v in (-3 * U + 17..7 * U - 5).step_by(9_973) {
            let pos = r.axis_to_pixel(px, v as i128, flip);
            assert_eq!(r.pixel_to_axis(px, pos as i64, flip), Some(v));
        }
    }
}

#[test]
fn data_round_trip_within_a_sub_pixel() {
    // 100 units over 800 pixels: one sub-pixel step is about 1.9 data steps.
    let r = AxisRange::new(0, 100 * U);
    let px = PixelRange { start: 0, end: 800 };
    for v in [124_999i64, 1, 77_777_777, 100 * U - 1] {
        let back = r.pixel_to_axis(px, r.axis_to_pixel(px, v as i128, false) as i64, false).unwrap();
        assert!(back <= v && v - back < 2);
        let back = r.pixel_to_axis(px, r.axis_to_pixel(px, v as i128, true) as i64, true).unwrap();
        assert!(back >= v && back - v < 2);
    }
}

#[test]
fn round_trip_coarse_axis_overshoots_by_less_than_a_step() {
    // Two pixels per data step: the first pixel maps to step 1, drawn at pixel 2.
    let r = AxisRange::new(0, 1);
    let px = PixelRange { start: 0, end: 2 };
    let v = r.pixel_to_axis(px, S, false).unwrap();
    assert_eq!(v, 1);
    assert_eq!(r.axis_to_pixel(px, v as i128, false), 2 * S as i128);
}

#[test]
fn empty_pixel_range_counts_as_one_pixel() {
    let r = symmetric(10);
    let px = PixelRange { start: 5, end: 5 };
    assert_eq!(r.axis_to_pixel(px, (10 * U) as i128, false), 6 * S as i128);
    assert_eq!(r.pixel_to_axis(px, 6 * S, false), Some(10 * U));
}

#[test]
fn reversed_pixel_range_runs_backward() {
    let r = AxisRange::new(0, 10 * U);
    let px = PixelRange { start: 10, end: 0 };
    assert_eq!(r.axis_to_pixel(px, 0, false), 10 * S as i128);
    assert_eq!(r.axis_to_pixel(px, (10 * U) as i128, false), 0);
    assert_eq!(r.axis_to_pixel(px, (4 * U) as i128, false), 6 * S as i128);
    assert_eq!(r.pixel_to_axis(px, 0, false), Some(10 * U));
    assert_eq!(r.pixel_to_axis(px, 10 * S, false), Some(0));
    assert_eq!(r.pixel_to_axis(px, 6 * S, true), Some(6 * U));
    for p in 0..=10i64 {
        let v = r.pixel_to_axis(px, p * S, false).unwrap();
        let back = r.axis_to_pixel(px, v as i128, false);
        assert!(back <= (p * S) as i128 && (p * S) as i128 - back < 8);
    }
}

#[test]
fn pixel_to_axis_out_of_range_is_none() {
    let r = AxisRange::new(0, i64::MAX);
    let px = PixelRange { start: 0, end: 1 };
    assert_eq!(r.pixel_to_axis(px, 3 * S, false), None);
    assert_eq!(r.pixel_to_axis(px, S, false), Some(i64::MAX));
}

#[test]
fn translate_keeps_extent() {
    let mut r = AxisRange::new(-7 * U, 13 * U);
    let extent = r.extent();
    let middle = r.middle();
    assert!(r.translate(2 * U));
    assert_eq!(r.extent(), extent);
    assert_eq!(r.middle(), middle + 2 * U);
    assert_eq!(r, AxisRange::new(-5 * U, 15 * U));
}

#[test]
fn translate_overflow_keeps_range() {
    let mut r = AxisRange::new(0, 10);
    assert!(!r.translate(i64::MAX - 5));
    assert_eq!(r, AxisRange::new(0, 10));
}

#[test]
fn middle_and_extent() {
    let r = AxisRange::new(-3, 4);
    assert_eq!(r.extent(), 7);
    assert_eq!(r.middle(), 0);
    let r = AxisRange::new(i64::MIN, -1);
    assert_eq!(r.extent(), i64::MAX);
}

#[test]
fn zoom_scenario_shrinks_around_middle() {
    let mut r = symmetric(10);
    assert!(r.zoom(Ratio { num: -1, den: 10 }, Ratio { num: 1, den: 2 }));
    assert_eq!(r, symmetric(9));
}

#[test]
fn zoom_out_grows() {
    let mut r = symmetric(10);
    assert!(r.zoom(Ratio { num: 1, den: 10 }, Ratio { num: 1, den: 2 }));
    assert_eq!(r, symmetric(11));
}

#[test]
fn zoom_keeps_anchor() {
    let mut r = AxisRange::new(-10 * U, 10 * U);
    // The point a quarter of the way along is -5.
    assert!(r.zoom(Ratio { num: -7, den: 100 }, Ratio { num: 1, den: 4 }));
    let anchor_times_4 = 4 * r.start as i128 + (r.end - r.start) as i128;
    assert!((anchor_times_4 - 4 * (-5 * U) as i128).abs() < 4);
    assert_eq!(r.extent(), 20 * U - 1_400_000);
}

#[test]
fn zoom_at_edge_anchor() {
    let mut r = AxisRange::new(0, 100);
    assert!(r.zoom(Ratio { num: -1, den: 2 }, Ratio { num: 0, den: 1 }));
    assert_eq!(r, AxisRange::new(0, 50));
}

#[test]
fn zoom_that_overflows_keeps_range() {
    let mut r = AxisRange::new(i64::MAX - 100, i64::MAX);
    assert!(!r.zoom(Ratio { num: 1, den: 1 }, Ratio { num: 0, den: 1 }));
    assert_eq!(r, AxisRange::new(i64::MAX - 100, i64::MAX));
}

#[test]
fn nice_increment_nearest() {
    // Rough step 4: band [2, 6] holds 2 and 5; 5 is nearer.
    assert_eq!(nice_increment(20 * U, MIN_TICKS), Some(5 * U as u64));
    // Rough step 3: band [1.5, 4.5] holds only 2.
    assert_eq!(nice_increment(15 * U, MIN_TICKS), Some(2 * U as u64));
    // Rough step 2: band [1, 3] holds 1 and 2; 2 is exact.
    assert_eq!(nice_increment(10 * U, MIN_TICKS), Some(2 * U as u64));
    // Rough step 7: band [3.5, 10.5] holds 5 and 10; 5 is nearer.
    assert_eq!(nice_increment(35 * U, MIN_TICKS), Some(5 * U as u64));
}

#[test]
fn nice_increment_is_in_band_and_nice() {
    for extent in [4i64, 7, 99, 1_000, 123_456, 9_876_543_210, i64::MAX] {
        let inc = nice_increment(extent, MIN_TICKS).unwrap() as i128;
        let e = extent as i128;
        let k = MIN_TICKS as i128;
        assert!(e <= 2 * k * inc && 2 * k * inc <= 3 * e);
        let mut m = inc;
        while m % 10 == 0 {
            m /= 10;
        }
        assert!(m == 1 || m == 2 || m == 5);
    }
}

#[test]
fn nice_increment_tiny_extent() {
    assert_eq!(nice_increment(3, MIN_TICKS), None);
    assert_eq!(nice_increment(4, MIN_TICKS), Some(1));
    assert_eq!(nice_increment(1, 1), Some(1));
}

#[test]
fn ticks_symmetric_range() {
    let ticks = tick_values(&symmetric(10), 5 * U as u64);
    assert_eq!(ticks, vec![-10 * U, -5 * U, 0, 5 * U, 10 * U]);
}

#[test]
fn ticks_start_on_boundary() {
    let ticks = tick_values(&AxisRange::new(5 * U, 16 * U), 5 * U as u64);
    assert_eq!(ticks, vec![5 * U, 10 * U, 15 * U]);
}

#[test]
fn ticks_small_negative_start() {
    let ticks = tick_values(&AxisRange::new(-U / 2, 2 * U), U as u64);
    assert_eq!(ticks, vec![0, U, 2 * U]);
}

#[test]
fn ticks_keep_zero_just_inside_start() {
    let ticks = tick_values(&AxisRange::new(-5, 95), 20);
    assert_eq!(ticks, vec![0, 20, 40, 60, 80]);
    let ticks = tick_values(&AxisRange::new(-45, -1), 20);
    assert_eq!(ticks, vec![-40, -20]);
}

#[test]
fn ticks_none_in_range() {
    let ticks = tick_values(&AxisRange::new(1, 3), 10);
    assert!(ticks.is_empty());
}

#[test]
fn value_labels_one_decimal() {
    assert_eq!(value_label(0), "0.0");
    assert_eq!(value_label(-10 * U), "-10.0");
    assert_eq!(value_label(5 * U), "5.0");
    assert_eq!(value_label(12_345_678), "12.3");
    assert_eq!(value_label(12_350_000), "12.4");
    assert_eq!(value_label(-49_999), "0.0");
    assert_eq!(value_label(-50_000), "-0.1");
    assert_eq!(value_label(250 * U + 40_000), "250.0");
    assert_eq!(value_label(i64::MAX), "9223372036854.8");
    assert_eq!(value_label(i64::MIN), "-9223372036854.8");
}
