use vstd::prelude::*;
use crate::transform::ScreenPoint;

verus! {

#[derive(Clone, Copy, Debug, PartialEq, Eq, Structural)]
pub struct Color {
    pub r: u8,
    pub g: u8,
    pub b: u8,
    pub a: u8,
}

impl Color {
    pub open spec fn spec_white() -> Color {
        Color { r: 255, g: 255, b: 255, a: 255 }
    }

    pub fn white() -> (c: Color)
        ensures
            c == Color::spec_white(),
    {
        Color { r: 255, g: 255, b: 255, a: 255 }
    }

    pub fn transparent() -> (c: Color)
        ensures
            c == (Color { r: 0, g: 0, b: 0, a: 0 }),
    {
        Color { r: 0, g: 0, b: 0, a: 0 }
    }
}

/// A line style; `width` is in hundredths of a point.
#[derive(Clone, Copy, Debug, PartialEq, Eq, Structural)]
pub struct Stroke {
    pub width: u32,
    pub color: Color,
}

impl Stroke {
    pub fn new(width: u32, color: Color) -> (s: Stroke)
        ensures
            s == (Stroke { width, color }),
    {
        Stroke { width, color }
    }

    pub open spec fn spec_none() -> Stroke {
        Stroke { width: 0, color: Color { r: 0, g: 0, b: 0, a: 0 } }
    }

    /// No visible stroke.
    pub fn none() -> (s: Stroke)
        ensures
            s == Stroke::spec_none(),
    {
        Stroke { width: 0, color: Color::transparent() }
    }
}

#[derive(Clone, Copy, Debug, PartialEq, Eq, Structural)]
pub enum Align {
    Min,
    Center,
    Max,
}

/// Which point of a text's box sits at its position.
#[derive(Clone, Copy, Debug, PartialEq, Eq, Structural)]
pub struct Anchor {
    pub x: Align,
    pub y: Align,
}

#[derive(Clone, Copy, Debug, PartialEq, Eq, Structural)]
pub enum MarkerShape {
    Circle,
    Triangle,
    Square,
    Plus,
    X,
    Star,
}

/// A primitive to paint, in pixel space.
#[derive(Debug)]
pub enum Shape {
    Segment { from: ScreenPoint, to: ScreenPoint, stroke: Stroke },
    /// A marker of `size` (hundredths of a point) centred on `center`; its
    /// outline is drawn at a fixed pixel size, whatever the zoom.
    Marker { center: ScreenPoint, shape: MarkerShape, size: u32, fill: Color, stroke: Stroke },
    /// A filled polygon, closed from the last point back to the first.
    Polygon { points: Vec<ScreenPoint>, fill: Color, stroke: Stroke },
    /// An open polyline.
    Path { points: Vec<ScreenPoint>, stroke: Stroke },
    Arrow { from: ScreenPoint, to: ScreenPoint, stroke: Stroke },
    Text { pos: ScreenPoint, anchor: Anchor, text: String, color: Color },
}

/// The value of a `Shape`, with its point lists and text as sequences.
pub enum ShapeView {
    Segment { from: ScreenPoint, to: ScreenPoint, stroke: Stroke },
    Marker { center: ScreenPoint, shape: MarkerShape, size: u32, fill: Color, stroke: Stroke },
    Polygon { points: Seq<ScreenPoint>, fill: Color, stroke: Stroke },
    Path { points: Seq<ScreenPoint>, stroke: Stroke },
    Arrow { from: ScreenPoint, to: ScreenPoint, stroke: Stroke },
    Text { pos: ScreenPoint, anchor: Anchor, text: Seq<char>, color: Color },
}

impl View for Shape {
    type V = ShapeView;

    open spec fn view(&self) -> ShapeView {
        match self {
            Shape::Segment { from, to, stroke } => ShapeView::Segment {
                from: *from,
                to: *to,
                stroke: *stroke,
            },
            Shape::Marker { center, shape, size, fill, stroke } => ShapeView::Marker {
                center: *center,
                shape: *shape,
                size: *size,
                fill: *fill,
                stroke: *stroke,
            },
            Shape::Polygon { points, fill, stroke } => ShapeView::Polygon {
                points: points@,
                fill: *fill,
                stroke: *stroke,
            },
            Shape::Path { points, stroke } => ShapeView::Path { points: points@, stroke: *stroke },
            Shape::Arrow { from, to, stroke } => ShapeView::Arrow {
                from: *from,
                to: *to,
                stroke: *stroke,
            },
            Shape::Text { pos, anchor, text, color } => ShapeView::Text {
                pos: *pos,
                anchor: *anchor,
                text: text@,
                color: *color,
            },
        }
    }
}

pub open spec fn shapes_view(s: Seq<Shape>) -> Seq<ShapeView> {
    s.map_values(|x: Shape| x@)
}

pub proof fn lemma_shapes_view_push(s: Seq<Shape>, x: Shape)
    ensures
        shapes_view(s.push(x)) == shapes_view(s).push(x@),
{
    assert(shapes_view(s.push(x)) =~= shapes_view(s).push(x@));
}

} // verus!
