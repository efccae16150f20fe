use vstd::prelude::*;
use crate::shapes::{
    Anchor, Align, Color, MarkerShape, Shape, ShapeView, Stroke, shapes_view,
    lemma_shapes_view_push,
};
use crate::transform::{Offset, Point, ScreenPoint, Transform};

verus! {

/// The pixel positions of a list of data points.
pub open spec fn pixels_of(t: Transform, pts: Seq<Point>) -> Seq<ScreenPoint> {
    pts.map_values(|p: Point| t.spec_to_pixels(p))
}

pub fn map_points(t: &Transform, pts: &Vec<Point>) -> (r: Vec<ScreenPoint>)
    requires
        t.wf(),
    ensures
        r@ == pixels_of(*t, pts@),
{
    let mut out: Vec<ScreenPoint> = Vec::new();
    let mut i: usize = 0;
    while i < pts.len()
        invariant
            t.wf(),
            i <= pts@.len(),
            out@ =~= pixels_of(*t, pts@.subrange(0, i as int)),
        decreases pts@.len() - i,
    {
        out.push(t.plot_to_pixels(&pts[i]));
        i = i + 1;
        assert(pts@.subrange(0, i as int) =~= pts@.subrange(0, i - 1).push(pts@[i - 1]));
    }
    assert(pts@.subrange(0, i as int) =~= pts@);
    out
}

/// A reference height for stems and filled areas: one value for all points,
/// or one per point.
#[derive(Debug)]
pub enum YReference {
    Constant(i64),
    Series(Vec<i64>),
}

impl YReference {
    pub open spec fn value_at(&self, i: int) -> i64 {
        match self {
            YReference::Constant(c) => *c,
            YReference::Series(s) => s@[i],
        }
    }

    /// A value for each of `n` points, and no more.
    pub open spec fn matches_len(&self, n: int) -> bool {
        match self {
            YReference::Constant(_) => true,
            YReference::Series(s) => s@.len() == n,
        }
    }

    /// A value for each of `n` points at least.
    pub open spec fn covers(&self, n: int) -> bool {
        match self {
            YReference::Constant(_) => true,
            YReference::Series(s) => s@.len() >= n,
        }
    }

    pub fn value(&self, i: usize) -> (r: i64)
        requires
            self.covers(i + 1),
        ensures
            r == self.value_at(i as int),
    {
        match self {
            YReference::Constant(c) => *c,
            YReference::Series(s) => s[i],
        }
    }

    pub fn has_len(&self, n: usize) -> (r: bool)
        ensures
            r == self.matches_len(n as int),
    {
        match self {
            YReference::Constant(_) => true,
            YReference::Series(s) => s.len() == n,
        }
    }

    pub fn has_at_least(&self, n: usize) -> (r: bool)
        ensures
            r == self.covers(n as int),
    {
        match self {
            YReference::Constant(_) => true,
            YReference::Series(s) => s.len() >= n,
        }
    }
}

/// Text placed at a data position. It is neither scaled nor rotated with
/// the view.
#[derive(Debug)]
pub struct Text {
    pub position: Point,
    /// Kept with the item but not applied when painting.
    pub rotation: i64,
    pub text: String,
    pub color: Color,
    pub anchor: Anchor,
}

impl Text {
    pub fn new(position: Point, text: String) -> (r: Text)
        ensures
            r.position == position,
            r.rotation == 0,
            r.text@ == text@,
            r.color == Color::spec_white(),
            r.anchor == (Anchor { x: Align::Center, y: Align::Center }),
    {
        Text {
            position,
            rotation: 0,
            text,
            color: Color::white(),
            anchor: Anchor { x: Align::Center, y: Align::Center },
        }
    }

    pub fn rotation(self, rotation: i64) -> (r: Text)
        ensures
            r == (Text { rotation, ..self }),
    {
        Text { rotation, ..self }
    }

    pub fn anchor(self, anchor: Anchor) -> (r: Text)
        ensures
            r == (Text { anchor, ..self }),
    {
        Text { anchor, ..self }
    }

    pub fn color(self, color: Color) -> (r: Text)
        ensures
            r == (Text { color, ..self }),
    {
        Text { color, ..self }
    }

    pub open spec fn spec_shapes(&self, t: Transform) -> Seq<ShapeView> {
        seq![
            ShapeView::Text {
                pos: t.spec_to_pixels(self.position),
                anchor: self.anchor,
                text: self.text@,
                color: self.color,
            },
        ]
    }

    pub fn paint(self, t: &Transform) -> (r: Vec<Shape>)
        requires
            t.wf(),
        ensures
            shapes_view(r@) == self.spec_shapes(*t),
    {
        let ghost model = self.spec_shapes(*t);
        let pos = t.plot_to_pixels(&self.position);
        let shape = Shape::Text { pos, anchor: self.anchor, text: self.text, color: self.color };
        let mut out: Vec<Shape> = Vec::new();
        proof {
            lemma_shapes_view_push(out@, shape);
        }
        out.push(shape);
        assert(shapes_view(out@) =~= model);
        out
    }
}

/// A closed outline through `points`, filled.
#[derive(Debug)]
pub struct Polygon {
    pub points: Vec<Point>,
    pub fill: Color,
    pub stroke: Stroke,
}

impl Polygon {
    pub fn new(points: Vec<Point>) -> (r: Polygon)
        ensures
            r.points@ == points@,
            r.fill == Color::spec_white(),
            r.stroke == Stroke::spec_none(),
    {
        Polygon { points, fill: Color::white(), stroke: Stroke::none() }
    }

    pub fn fill_color(self, color: Color) -> (r: Polygon)
        ensures
            r == (Polygon { fill: color, ..self }),
    {
        Polygon { fill: color, ..self }
    }

    pub fn stroke(self, stroke: Stroke) -> (r: Polygon)
        ensures
            r == (Polygon { stroke, ..self }),
    {
        Polygon { stroke, ..self }
    }

    pub open spec fn spec_shapes(&self, t: Transform) -> Seq<ShapeView> {
        seq![
            ShapeView::Polygon {
                points: pixels_of(t, self.points@),
                fill: self.fill,
                stroke: self.stroke,
            },
        ]
    }

    pub fn paint(self, t: &Transform) -> (r: Vec<Shape>)
        requires
            t.wf(),
        ensures
            shapes_view(r@) == self.spec_shapes(*t),
    {
        let ghost model = self.spec_shapes(*t);
        let points = map_points(t, &self.points);
        let shape = Shape::Polygon { points, fill: self.fill, stroke: self.stroke };
        let mut out: Vec<Shape> = Vec::new();
        proof {
            lemma_shapes_view_push(out@, shape);
        }
        out.push(shape);
        assert(shapes_view(out@) =~= model);
        out
    }
}

/// Markers at a set of points, each optionally with a stem down to a
/// reference height.
#[derive(Debug)]
pub struct Scatter {
    pub points: Vec<Point>,
    pub fill: Color,
    pub stroke: Stroke,
    /// Marker size, in hundredths of a point.
    pub size: u32,
    pub shape: MarkerShape,
    pub stems: Option<(YReference, Stroke)>,
}

impl Scatter {
    /// A stem reference, if any, has one value per point.
    pub open spec fn wf(&self) -> bool {
        match &self.stems {
            Some((r, _)) => r.matches_len(self.points@.len() as int),
            None => true,
        }
    }

    pub fn new(points: Vec<Point>) -> (r: Scatter)
        ensures
            r.points@ == points@,
            r.fill == Color::spec_white(),
            r.stroke == Stroke::spec_none(),
            r.size == 100,
            r.shape == MarkerShape::Circle,
            r.stems.is_none(),
            r.wf(),
    {
        Scatter {
            points,
            fill: Color::white(),
            stroke: Stroke::none(),
            size: 100,
            shape: MarkerShape::Circle,
            stems: None,
        }
    }

    pub fn size(self, size: u32) -> (r: Scatter)
        ensures
            r == (Scatter { size, ..self }),
    {
        Scatter { size, ..self }
    }

    /// Whether `reference` may serve as this scatter's stem reference.
    pub fn stems_fit(&self, reference: &YReference) -> (r: bool)
        ensures
            r == reference.matches_len(self.points@.len() as int),
    {
        reference.has_len(self.points.len())
    }

    pub fn stems(self, reference: YReference, stroke: Stroke) -> (r: Scatter)
        requires
            reference.matches_len(self.points@.len() as int),
        ensures
            r == (Scatter { stems: Some((reference, stroke)), ..self }),
            r.wf(),
    {
        Scatter { stems: Some((reference, stroke)), ..self }
    }

    pub fn fill_color(self, color: Color) -> (r: Scatter)
        ensures
            r == (Scatter { fill: color, ..self }),
    {
        Scatter { fill: color, ..self }
    }

    pub fn stroke(self, stroke: Stroke) -> (r: Scatter)
        ensures
            r == (Scatter { stroke, ..self }),
    {
        Scatter { stroke, ..self }
    }

    pub fn shape(self, shape: MarkerShape) -> (r: Scatter)
        ensures
            r == (Scatter { shape, ..self }),
    {
        Scatter { shape, ..self }
    }

    /// What point `i` paints: its stem first, if any, then its marker.
    pub open spec fn point_shapes(&self, t: Transform, i: int) -> Seq<ShapeView> {
        let p = self.points@[i];
        let marker = ShapeView::Marker {
            center: t.spec_to_pixels(p),
            shape: self.shape,
            size: self.size,
            fill: self.fill,
            stroke: self.stroke,
        };
        match &self.stems {
            Some((r, st)) => seq![
                ShapeView::Segment {
                    from: t.spec_to_pixels(Point { x: p.x, y: r.value_at(i) }),
                    to: t.spec_to_pixels(p),
                    stroke: *st,
                },
                marker,
            ],
            None => seq![marker],
        }
    }

    /// What the first `n` points paint, in order.
    pub open spec fn shapes_upto(&self, t: Transform, n: nat) -> Seq<ShapeView>
        decreases n,
    {
        if n == 0 {
            Seq::empty()
        } else {
            self.shapes_upto(t, (n - 1) as nat) + self.point_shapes(t, n - 1)
        }
    }

    pub open spec fn spec_shapes(&self, t: Transform) -> Seq<ShapeView> {
        self.shapes_upto(t, self.points@.len())
    }

    pub fn paint(self, t: &Transform) -> (r: Vec<Shape>)
        requires
            t.wf(),
            self.wf(),
        ensures
            shapes_view(r@) == self.spec_shapes(*t),
    {
        let mut out: Vec<Shape> = Vec::new();
        let mut i: usize = 0;
        while i < self.points.len()
            invariant
                t.wf(),
                self.wf(),
                i <= self.points@.len(),
                shapes_view(out@) == self.shapes_upto(*t, i as nat),
            decreases self.points@.len() - i,
        {
            let p = self.points[i];
            let p_tf = t.plot_to_pixels(&p);
            let ghost before = shapes_view(out@);
            match &self.stems {
                Some((reference, stroke)) => {
                    let y = reference.value(i);
                    let from = t.plot_to_pixels(&Point { x: p.x, y });
                    let seg = Shape::Segment { from, to: p_tf, stroke: *stroke };
                    proof {
                        lemma_shapes_view_push(out@, seg);
                    }
                    out.push(seg);
                },
                None => {},
            }
            let marker = Shape::Marker {
                center: p_tf,
                shape: self.shape,
                size: self.size,
                fill: self.fill,
                stroke: self.stroke,
            };
            proof {
                lemma_shapes_view_push(out@, marker);
            }
            out.push(marker);
            assert(shapes_view(out@) =~= before + self.point_shapes(*t, i as int));
            i = i + 1;
        }
        out
    }
}

/// A polyline through `points`, optionally with the area down to a
/// reference height filled, one quadrilateral per segment.
#[derive(Debug)]
pub struct Line {
    pub points: Vec<Point>,
    pub color: Color,
    /// Line width, in hundredths of a point.
    pub weight: u32,
    pub area_fill: Option<(YReference, Color)>,
}

impl Line {
    /// A fill reference, if any, has a value for every point.
    pub open spec fn wf(&self) -> bool {
        match &self.area_fill {
            Some((r, _)) => r.covers(self.points@.len() as int),
            None => true,
        }
    }

    pub fn new(points: Vec<Point>) -> (r: Line)
        ensures
            r.points@ == points@,
            r.color == Color::spec_white(),
            r.weight == 100,
            r.area_fill.is_none(),
            r.wf(),
    {
        Line { points, color: Color::white(), weight: 100, area_fill: None }
    }

    pub fn color(self, color: Color) -> (r: Line)
        ensures
            r == (Line { color, ..self }),
    {
        Line { color, ..self }
    }

    pub fn weight(self, weight: u32) -> (r: Line)
        ensures
            r == (Line { weight, ..self }),
    {
        Line { weight, ..self }
    }

    /// Whether `reference` may serve as this line's fill reference.
    pub fn area_fill_fits(&self, reference: &YReference) -> (r: bool)
        ensures
            r == reference.covers(self.points@.len() as int),
    {
        reference.has_at_least(self.points.len())
    }

    pub fn area_fill(self, reference: YReference, color: Color) -> (r: Line)
        requires
            reference.covers(self.points@.len() as int),
        ensures
            r == (Line { area_fill: Some((reference, color)), ..self }),
            r.wf(),
    {
        Line { area_fill: Some((reference, color)), ..self }
    }

    /// The filled quadrilateral under segment `i`: the segment's two ends in
    /// order, then the reference heights below them, back to the start.
    pub open spec fn fill_shape(&self, t: Transform, i: int, r: &YReference, fill: Color) -> ShapeView {
        let a = self.points@[i];
        let b = self.points@[i + 1];
        ShapeView::Polygon {
            points: seq![
                t.spec_to_pixels(a),
                t.spec_to_pixels(b),
                t.spec_to_pixels(Point { x: b.x, y: r.value_at(i + 1) }),
                t.spec_to_pixels(Point { x: a.x, y: r.value_at(i) }),
            ],
            fill,
            stroke: Stroke::spec_none(),
        }
    }

    /// The fills of the first `n` segments.
    pub open spec fn fills_upto(&self, t: Transform, n: nat) -> Seq<ShapeView>
        decreases n,
    {
        if n == 0 {
            Seq::empty()
        } else {
            match &self.area_fill {
                Some((r, fill)) => self.fills_upto(t, (n - 1) as nat).push(
                    self.fill_shape(t, n - 1, r, *fill),
                ),
                None => Seq::empty(),
            }
        }
    }

    pub open spec fn segment_count(&self) -> nat {
        if self.points@.len() == 0 {
            0
        } else {
            (self.points@.len() - 1) as nat
        }
    }

    pub open spec fn spec_shapes(&self, t: Transform) -> Seq<ShapeView> {
        self.fills_upto(t, self.segment_count()).push(
            ShapeView::Path {
                points: pixels_of(t, self.points@),
                stroke: Stroke { width: self.weight, color: self.color },
            },
        )
    }

    pub fn paint(self, t: &Transform) -> (r: Vec<Shape>)
        requires
            t.wf(),
            self.wf(),
        ensures
            shapes_view(r@) == self.spec_shapes(*t),
    {
        let mut out: Vec<Shape> = Vec::new();
        let n = self.points.len();
        let segments: usize = if n == 0 {
            0
        } else {
            n - 1
        };
        match &self.area_fill {
            Some((reference, fill)) => {
                let mut i: usize = 0;
                while i < segments
                    invariant
                        t.wf(),
                        self.wf(),
                        self.area_fill == Some((*reference, *fill)),
                        n == self.points@.len(),
                        segments == self.segment_count(),
                        i <= segments,
                        shapes_view(out@) == self.fills_upto(*t, i as nat),
                    decreases segments - i,
                {
                    let a = self.points[i];
                    let b = self.points[i + 1];
                    let ya = reference.value(i);
                    let yb = reference.value(i + 1);
                    let mut quad: Vec<ScreenPoint> = Vec::new();
                    quad.push(t.plot_to_pixels(&a));
                    quad.push(t.plot_to_pixels(&b));
                    quad.push(t.plot_to_pixels(&Point { x: b.x, y: yb }));
                    quad.push(t.plot_to_pixels(&Point { x: a.x, y: ya }));
                    let shape = Shape::Polygon { points: quad, fill: *fill, stroke: Stroke::none() };
                    proof {
                        lemma_shapes_view_push(out@, shape);
                        assert(shape@ == self.fill_shape(*t, i as int, reference, *fill)) by {
                            assert(quad@ =~= seq![
                                t.spec_to_pixels(a),
                                t.spec_to_pixels(b),
                                t.spec_to_pixels(Point { x: b.x, y: yb }),
                                t.spec_to_pixels(Point { x: a.x, y: ya }),
                            ]);
                        }
                    }
                    out.push(shape);
                    i = i + 1;
                }
            },
            None => {
                proof {
                    if segments > 0 {
                        assert(self.fills_upto(*t, segments as nat) =~= Seq::empty());
                    }
                }
            },
        }
        let points = map_points(t, &self.points);
        let path = Shape::Path { points, stroke: Stroke { width: self.weight, color: self.color } };
        proof {
            lemma_shapes_view_push(out@, path);
        }
        out.push(path);
        out
    }
}

/// Arrows from each point along the matching direction.
#[derive(Debug)]
pub struct Quiver {
    pub points: Vec<Point>,
    pub directions: Vec<Offset>,
    pub color: Color,
    /// Line width, in hundredths of a point.
    pub weight: u32,
}

impl Quiver {
    pub fn new(points: Vec<Point>, directions: Vec<Offset>) -> (r: Quiver)
        ensures
            r.points@ == points@,
            r.directions@ == directions@,
            r.color == Color::spec_white(),
            r.weight == 100,
    {
        Quiver { points, directions, color: Color::white(), weight: 100 }
    }

    pub fn color(self, color: Color) -> (r: Quiver)
        ensures
            r == (Quiver { color, ..self }),
    {
        Quiver { color, ..self }
    }

    pub fn weight(self, weight: u32) -> (r: Quiver)
        ensures
            r == (Quiver { weight, ..self }),
    {
        Quiver { weight, ..self }
    }

    /// Points and directions are paired in order; unpaired ones are left out.
    pub open spec fn arrow_count(&self) -> int {
        if self.points@.len() <= self.directions@.len() {
            self.points@.len() as int
        } else {
            self.directions@.len() as int
        }
    }

    pub open spec fn spec_shapes(&self, t: Transform) -> Seq<ShapeView> {
        Seq::new(
            self.arrow_count() as nat,
            |i: int|
                ShapeView::Arrow {
                    from: t.spec_to_pixels(self.points@[i]),
                    to: t.spec_offset_to_pixels(self.points@[i], self.directions@[i]),
                    stroke: Stroke { width: self.weight, color: self.color },
                },
        )
    }

    pub fn paint(self, t: &Transform) -> (r: Vec<Shape>)
        requires
            t.wf(),
        ensures
            shapes_view(r@) == self.spec_shapes(*t),
    {
        let n = if self.points.len() <= self.directions.len() {
            self.points.len()
        } else {
            self.directions.len()
        };
        let mut out: Vec<Shape> = Vec::new();
        let mut i: usize = 0;
        while i < n
            invariant
                t.wf(),
                n == self.arrow_count(),
                i <= n,
                shapes_view(out@) =~= self.spec_shapes(*t).subrange(0, i as int),
            decreases n - i,
        {
            let p = self.points[i];
            let d = self.directions[i];
            let arrow = Shape::Arrow {
                from: t.plot_to_pixels(&p),
                to: t.offset_to_pixels(&p, &d),
                stroke: Stroke { width: self.weight, color: self.color },
            };
            proof {
                lemma_shapes_view_push(out@, arrow);
            }
            out.push(arrow);
            i = i + 1;
            assert(shapes_view(out@) =~= self.spec_shapes(*t).subrange(0, i as int));
        }
        assert(self.spec_shapes(*t).subrange(0, n as int) =~= self.spec_shapes(*t));
        out
    }
}

/// Anything that can be added to a plot.
#[derive(Debug)]
pub enum PlotItem {
    Text(Text),
    Polygon(Polygon),
    Scatter(Scatter),
    Line(Line),
    Quiver(Quiver),
}

impl PlotItem {
    pub open spec fn wf(&self) -> bool {
        match self {
            PlotItem::Scatter(s) => s.wf(),
            PlotItem::Line(l) => l.wf(),
            _ => true,
        }
    }

    pub open spec fn spec_shapes(&self, t: Transform) -> Seq<ShapeView> {
        match self {
            PlotItem::Text(x) => x.spec_shapes(t),
            PlotItem::Polygon(x) => x.spec_shapes(t),
            PlotItem::Scatter(x) => x.spec_shapes(t),
            PlotItem::Line(x) => x.spec_shapes(t),
            PlotItem::Quiver(x) => x.spec_shapes(t),
        }
    }

    /// The item's primitives, each point mapped through `t` as it is drawn.
    pub fn paint(self, t: &Transform) -> (r: Vec<Shape>)
        requires
            t.wf(),
            self.wf(),
        ensures
            shapes_view(r@) == self.spec_shapes(*t),
    {
        match self {
            PlotItem::Text(x) => x.paint(t),
            PlotItem::Polygon(x) => x.paint(t),
            PlotItem::Scatter(x) => x.paint(t),
            PlotItem::Line(x) => x.paint(t),
            PlotItem::Quiver(x) => x.paint(t),
        }
    }
}

} // verus!
