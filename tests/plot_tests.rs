use eplot::axis::{AxisRange, SUBPIXELS, UNITS_PER_ONE};
use eplot::items::{Line, PlotItem, Polygon, Quiver, Scatter, Text, YReference};
use eplot::plot::{drag, lock_aspect, plot_area, scroll_zoom, FrameInput, PlotCtx, PlotMemory};
use eplot::shapes::{Align, Anchor, Color, MarkerShape, Shape, Stroke};
use eplot::transform::{Offset, PixelPoint, Point, Rect, ScreenPoint, Transform};

const U: i64 = UNITS_PER_ONE;

fn square_transform() -> Transform {
    Transform {
        x_range: AxisRange::new(-10 * U, 10 * U),
        y_range: AxisRange::new(-10 * U, 10 * U),
        rect: Rect { left: 0, top: 0, right: 800, bottom: 800 },
    }
}

/// A whole-pixel screen position.
fn sp(x: i128, y: i128) -> ScreenPoint {
    ScreenPoint { x: x * SUBPIXELS as i128, y: y * SUBPIXELS as i128 }
}

fn pt(x: i64, y: i64) -> Point {
    Point { x: x * U, y: y * U }
}

/// A panel whose plotting rectangle, without title or axis label, is
/// (0, 0)..(800, 800).
fn panel() -> Rect {
    Rect { left: -40, top: -10, right: 810, bottom: 840 }
}

#[test]
fn transform_maps_both_axes() {
    let t = square_transform();
    assert_eq!(t.plot_to_pixels(&pt(0, 0)), sp(400, 400));
    assert_eq!(t.plot_to_pixels(&pt(2, 2)), sp(480, 320));
    assert_eq!(t.plot_to_pixels(&pt(-10, -10)), sp(0, 800));
    assert_eq!(t.pointer_to_plot(&PixelPoint { x: 480, y: 320 }), Some(pt(2, 2)));
    assert_eq!(t.pixels_to_plot(&sp(480, 320)), Some(pt(2, 2)));
    let p = Point { x: 124_999, y: -3_333_333 };
    let back = t.pixels_to_plot(&t.plot_to_pixels(&p)).unwrap();
    assert!((back.x - p.x).abs() < 2 && (back.y - p.y).abs() < 2);
    assert_eq!(t.pixels_to_plot(&ScreenPoint { x: i128::MAX, y: 0 }), None);
    assert_eq!(t.offset_to_pixels(&pt(1, 1), &Offset { x: U, y: -U }), sp(480, 400));
}

#[test]
fn drag_follows_pointer() {
    let rect = Rect { left: 0, top: 0, right: 800, bottom: 800 };
    let mut m = PlotMemory::default();
    // (480, 320) is data (2, 2); (400, 400) is data (0, 0).
    m.last_drag_pos = Some(PixelPoint { x: 480, y: 320 });
    let after = drag(&m, &rect, Some(PixelPoint { x: 400, y: 400 }));
    assert_eq!(after.x_range, AxisRange::new(-8 * U, 12 * U));
    assert_eq!(after.y_range, AxisRange::new(-8 * U, 12 * U));
    assert_eq!(after.last_drag_pos, Some(PixelPoint { x: 400, y: 400 }));
}

#[test]
fn drag_starts_and_ends() {
    let rect = Rect { left: 0, top: 0, right: 800, bottom: 800 };
    let m = PlotMemory::default();
    let pressed = drag(&m, &rect, Some(PixelPoint { x: 10, y: 20 }));
    assert_eq!(pressed.x_range, m.x_range);
    assert_eq!(pressed.y_range, m.y_range);
    assert_eq!(pressed.last_drag_pos, Some(PixelPoint { x: 10, y: 20 }));
    let released = drag(&pressed, &rect, None);
    assert_eq!(released.last_drag_pos, None);
    assert_eq!(released.x_range, m.x_range);
}

#[test]
fn drag_across_one_frame_through_show() {
    let mut ctx = PlotCtx::new();
    let first = FrameInput {
        rect: panel(),
        pressed: Some(PixelPoint { x: 480, y: 320 }),
        pointer: Some(PixelPoint { x: 480, y: 320 }),
        scroll: 0,
    };
    assert!(ctx.plot("drag").show(&mut ctx, &first).is_some());
    let second = FrameInput {
        rect: panel(),
        pressed: Some(PixelPoint { x: 400, y: 400 }),
        pointer: Some(PixelPoint { x: 400, y: 400 }),
        scroll: 0,
    };
    let frame = ctx.plot("drag").show(&mut ctx, &second).unwrap();
    let m = ctx.memory(&"drag".to_string());
    assert_eq!(m.x_range, AxisRange::new(-8 * U, 12 * U));
    assert_eq!(m.y_range, AxisRange::new(-8 * U, 12 * U));
    assert_eq!(frame.ui.plot_mouse_position(), Some(pt(2, 2)));
    assert!(frame.ui.plot_hovered());
}

#[test]
fn scroll_zooms_around_pointer() {
    let rect = Rect { left: 0, top: 0, right: 800, bottom: 800 };
    let m = PlotMemory::default();
    // Pointer at the middle; scroll 10 (in hundredths) zooms in by a tenth.
    let z = scroll_zoom(&m, &rect, Some(PixelPoint { x: 400, y: 400 }), 1000);
    assert_eq!(z.x_range, AxisRange::new(-9 * U, 9 * U));
    assert_eq!(z.y_range, AxisRange::new(-9 * U, 9 * U));
    // A larger scroll is clamped to the same step.
    let z2 = scroll_zoom(&m, &rect, Some(PixelPoint { x: 400, y: 400 }), 50_000);
    assert_eq!(z2, z);
    // Pointer at the left and bottom edges: those bounds stay put.
    let z3 = scroll_zoom(&m, &rect, Some(PixelPoint { x: 0, y: 800 }), -1000);
    assert_eq!(z3.x_range, AxisRange::new(-10 * U, 12 * U));
    assert_eq!(z3.y_range, AxisRange::new(-10 * U, 12 * U));
}

#[test]
fn scroll_outside_or_zero_does_nothing() {
    let rect = Rect { left: 0, top: 0, right: 800, bottom: 800 };
    let m = PlotMemory::default();
    assert_eq!(scroll_zoom(&m, &rect, Some(PixelPoint { x: 900, y: 400 }), 10), m);
    assert_eq!(scroll_zoom(&m, &rect, Some(PixelPoint { x: 400, y: 400 }), 0), m);
    assert_eq!(scroll_zoom(&m, &rect, None, 10), m);
}

#[test]
fn aspect_lock_tall_panel() {
    let rect = Rect { left: 0, top: 0, right: 400, bottom: 800 };
    let (x, y) = lock_aspect(&AxisRange::new(-10 * U, 10 * U), &AxisRange::new(-10 * U, 10 * U), &rect);
    assert_eq!(x, AxisRange::new(-5 * U, 5 * U));
    assert_eq!(y, AxisRange::new(-10 * U, 10 * U));
}

#[test]
fn aspect_lock_scales_from_other_axis() {
    // 100 wide, 200 tall; x spans 200 units and y 20: x becomes 10 units.
    let rect = Rect { left: 0, top: 0, right: 100, bottom: 200 };
    let (x, y) = lock_aspect(&AxisRange::new(0, 200 * U), &AxisRange::new(0, 20 * U), &rect);
    assert_eq!(x, AxisRange::new(95 * U, 105 * U));
    assert_eq!(y, AxisRange::new(0, 20 * U));
    assert_eq!(x.extent() as i128 * 200, y.extent() as i128 * 100);
}

#[test]
fn aspect_lock_wide_panel() {
    let rect = Rect { left: 0, top: 0, right: 800, bottom: 200 };
    let (x, y) = lock_aspect(&AxisRange::new(0, 40 * U), &AxisRange::new(-2 * U, 2 * U), &rect);
    assert_eq!(x, AxisRange::new(0, 40 * U));
    assert_eq!(y, AxisRange::new(-5 * U, 5 * U));
}

#[test]
fn plot_area_margins() {
    let full = Rect { left: 0, top: 0, right: 200, bottom: 100 };
    assert_eq!(plot_area(&full, false, false), Some(Rect { left: 40, top: 10, right: 190, bottom: 60 }));
    assert_eq!(plot_area(&full, true, true), Some(Rect { left: 40, top: 20, right: 190, bottom: 50 }));
    let tiny = Rect { left: 0, top: 0, right: 50, bottom: 50 };
    assert_eq!(plot_area(&tiny, false, false), None);
}

#[test]
fn show_without_room_keeps_memory() {
    let mut ctx = PlotCtx::new();
    let input = FrameInput {
        rect: Rect { left: 0, top: 0, right: 30, bottom: 30 },
        pressed: Some(PixelPoint { x: 1, y: 1 }),
        pointer: None,
        scroll: 0,
    };
    assert!(ctx.plot("small").show(&mut ctx, &input).is_none());
    assert_eq!(ctx.memory(&"small".to_string()), PlotMemory::default());
}

#[test]
fn configured_range_applies_only_first_frame() {
    let mut ctx = PlotCtx::new();
    let input = FrameInput { rect: panel(), pressed: None, pointer: None, scroll: 0 };
    let plot = ctx.plot("cfg").x_axis_range(AxisRange::new(0, 4 * U)).y_axis_range(AxisRange::new(0, 4 * U));
    let frame = plot.show(&mut ctx, &input).unwrap();
    assert_eq!(frame.ui.transform.x_range, AxisRange::new(0, 4 * U));
    assert_eq!(frame.plot_rect, Rect { left: 0, top: 0, right: 800, bottom: 800 });
    let plot = ctx.plot("cfg").x_axis_range(AxisRange::new(-50 * U, 50 * U));
    let frame = plot.show(&mut ctx, &input).unwrap();
    assert_eq!(frame.ui.transform.x_range, AxisRange::new(0, 4 * U));
}

#[test]
fn frame_ticks_and_cursor() {
    let mut ctx = PlotCtx::default();
    let input = FrameInput {
        rect: panel(),
        pressed: None,
        pointer: Some(PixelPoint { x: 400, y: 400 }),
        scroll: 0,
    };
    let frame = ctx.plot("ticks").show(&mut ctx, &input).unwrap();
    assert_eq!(frame.increment, Some(5 * U as u64));
    assert_eq!(frame.x_ticks, vec![-10 * U, -5 * U, 0, 5 * U, 10 * U]);
    assert_eq!(frame.y_ticks, vec![-10 * U, -5 * U, 0, 5 * U, 10 * U]);
    assert_eq!(frame.cursor, Some(pt(0, 0)));
    let frame = ctx.plot("ticks").show_cursor_position(false).show(&mut ctx, &input).unwrap();
    assert_eq!(frame.cursor, None);
    assert_eq!(frame.ui.plot_mouse_position(), Some(pt(0, 0)));
}

#[test]
fn pointer_outside_is_not_hovered() {
    let mut ctx = PlotCtx::new();
    let input = FrameInput {
        rect: panel(),
        pressed: None,
        pointer: Some(PixelPoint { x: -20, y: 400 }),
        scroll: 5,
    };
    let frame = ctx.plot("out").title("t".to_string()).show(&mut ctx, &input).unwrap();
    assert!(!frame.ui.plot_hovered());
    assert_eq!(frame.cursor, None);
    assert!(frame.ui.plot_mouse_position().is_some());
    assert_eq!(frame.plot_rect.top, 10);
}

#[test]
fn registry_keeps_memories_apart() {
    let mut ctx = PlotCtx::new();
    let a = ctx.plot("a");
    assert_eq!(a.label, "a");
    assert!(a.show_cursor_pos);
    assert_eq!(ctx.memory(&"a".to_string()), PlotMemory::default());
    let drag_input = |x: i32| FrameInput {
        rect: panel(),
        pressed: Some(PixelPoint { x, y: 400 }),
        pointer: Some(PixelPoint { x, y: 400 }),
        scroll: 0,
    };
    ctx.plot("a").show(&mut ctx, &drag_input(400));
    ctx.plot("a").show(&mut ctx, &drag_input(440));
    ctx.plot("b").show(&mut ctx, &drag_input(400));
    assert_eq!(ctx.memory(&"a".to_string()).x_range, AxisRange::new(-11 * U, 9 * U));
    assert_eq!(ctx.memory(&"b".to_string()).x_range, AxisRange::new(-10 * U, 10 * U));
}

#[test]
fn scatter_stem_length_mismatch_is_refused() {
    let s = Scatter::new(vec![pt(0, 0), pt(1, 1), pt(2, 2)]);
    assert!(!s.stems_fit(&YReference::Series(vec![0, 0])));
    assert!(s.stems_fit(&YReference::Series(vec![0, 0, 0])));
    assert!(s.stems_fit(&YReference::Constant(0)));
}

#[test]
fn scatter_paints_stem_then_marker() {
    let t = square_transform();
    let red = Color { r: 255, g: 0, b: 0, a: 255 };
    let s = Scatter::new(vec![pt(2, 2), pt(-2, 1)])
        .size(300)
        .shape(MarkerShape::Square)
        .fill_color(red)
        .stems(YReference::Series(vec![0, -U]), Stroke::new(50, red));
    let shapes = PlotItem::Scatter(s).paint(&t);
    assert_eq!(shapes.len(), 4);
    match &shapes[0] {
        Shape::Segment { from, to, stroke } => {
            assert_eq!(*from, sp(480, 400));
            assert_eq!(*to, sp(480, 320));
            assert_eq!(stroke.width, 50);
        }
        other => panic!("unexpected {:?}", other),
    }
    match &shapes[1] {
        Shape::Marker { center, shape, size, fill, .. } => {
            assert_eq!(*center, sp(480, 320));
            assert_eq!(*shape, MarkerShape::Square);
            assert_eq!(*size, 300);
            assert_eq!(*fill, red);
        }
        other => panic!("unexpected {:?}", other),
    }
    match &shapes[2] {
        Shape::Segment { from, .. } => assert_eq!(*from, sp(320, 440)),
        other => panic!("unexpected {:?}", other),
    }
}

#[test]
fn scatter_without_stems_paints_markers_only() {
    let t = square_transform();
    let shapes = Scatter::new(vec![pt(0, 0), pt(1, 0), pt(2, 0)]).paint(&t);
    assert_eq!(shapes.len(), 3);
    assert!(shapes.iter().all(|s| matches!(s, Shape::Marker { shape: MarkerShape::Circle, .. })));
}

#[test]
fn line_with_area_fill() {
    let t = square_transform();
    let line = Line::new(vec![pt(0, 1), pt(1, 2), pt(2, 1)])
        .color(Color::white())
        .weight(250)
        .area_fill(YReference::Constant(0), Color { r: 0, g: 0, b: 255, a: 128 });
    let shapes = line.paint(&t);
    assert_eq!(shapes.len(), 3);
    match &shapes[0] {
        Shape::Polygon { points, fill, .. } => {
            assert_eq!(points, &vec![sp(400, 360), sp(440, 320), sp(440, 400), sp(400, 400)]);
            assert_eq!(fill.b, 255);
        }
        other => panic!("unexpected {:?}", other),
    }
    match &shapes[2] {
        Shape::Path { points, stroke } => {
            assert_eq!(points, &vec![sp(400, 360), sp(440, 320), sp(480, 360)]);
            assert_eq!(stroke.width, 250);
        }
        other => panic!("unexpected {:?}", other),
    }
}

#[test]
fn line_fill_reference_must_cover_points() {
    let line = Line::new(vec![pt(0, 1), pt(1, 2), pt(2, 1)]);
    assert!(!line.area_fill_fits(&YReference::Series(vec![0, 0])));
    assert!(line.area_fill_fits(&YReference::Series(vec![0, 0, 0])));
}

#[test]
fn line_without_fill_is_one_path() {
    let t = square_transform();
    let shapes = Line::new(vec![pt(0, 0), pt(1, 1)]).paint(&t);
    assert_eq!(shapes.len(), 1);
    let empty = Line::new(vec![]).paint(&t);
    assert_eq!(empty.len(), 1);
}

#[test]
fn quiver_pairs_points_and_directions() {
    let t = square_transform();
    let q = Quiver::new(vec![pt(0, 0), pt(1, 1), pt(5, 5)], vec![Offset { x: U, y: 0 }, Offset { x: 0, y: -U }])
        .color(Color::white())
        .weight(100);
    let shapes = q.paint(&t);
    assert_eq!(shapes.len(), 2);
    match &shapes[1] {
        Shape::Arrow { from, to, .. } => {
            assert_eq!(*from, sp(440, 360));
            assert_eq!(*to, sp(440, 400));
        }
        other => panic!("unexpected {:?}", other),
    }
}

#[test]
fn polygon_and_text_paint() {
    let t = square_transform();
    let p = Polygon::new(vec![pt(0, 0), pt(1, 0), pt(0, 1)]).stroke(Stroke::none());
    let shapes = PlotItem::Polygon(p).paint(&t);
    match &shapes[0] {
        Shape::Polygon { points, .. } => assert_eq!(points, &vec![sp(400, 400), sp(440, 400), sp(400, 360)]),
        other => panic!("unexpected {:?}", other),
    }
    let anchor = Anchor { x: Align::Min, y: Align::Max };
    let text = Text::new(pt(-10, 10), "hi".to_string()).anchor(anchor).rotation(7);
    assert_eq!(text.rotation, 7);
    let shapes = PlotItem::Text(text).paint(&t);
    match &shapes[0] {
        Shape::Text { pos, anchor: a, text, .. } => {
            assert_eq!(*pos, sp(0, 0));
            assert_eq!(*a, anchor);
            assert_eq!(text, "hi");
        }
        other => panic!("unexpected {:?}", other),
    }
}

#[test]
fn plot_ui_collects_items_in_order() {
    let mut ctx = PlotCtx::new();
    let input = FrameInput { rect: panel(), pressed: None, pointer: None, scroll: 0 };
    let mut frame = ctx.plot("ui").show(&mut ctx, &input).unwrap();
    frame.ui.add(PlotItem::Text(Text::new(pt(0, 0), "a".to_string())));
    frame.ui.add(PlotItem::Scatter(Scatter::new(vec![pt(1, 1)])));
    assert_eq!(frame.ui.shapes.len(), 2);
    assert!(matches!(frame.ui.shapes[0], Shape::Text { .. }));
    assert!(matches!(frame.ui.shapes[1], Shape::Marker { center: ScreenPoint { x: 28_835_840, y: 23_592_960 }, .. }));
    assert_eq!(frame.ui.plot_mouse_position(), None);
}
