use vstd::prelude::*;

use crate::brush::{brush_eq, f32_bits_eq, f32_bits_equal, BrushSpec, BrushStyle, StrokeKind, Tool};

verus! {

/// A canvas point, each coordinate held as the bit pattern of an `f32` in canvas
/// space; two points are equal when both coordinates compare equal as `f32` values
/// (`point_eq`).
pub type Point = (u32, u32);

/// One stroke: the points the pointer passed through, in order, and its brush.
#[derive(Debug, Clone)]
pub struct StrokeData {
    points: Vec<Point>,
    brush: BrushSpec,
}

/// What a stroke is, as a value: its points and its brush.
pub struct StrokeView {
    pub points: Seq<Point>,
    pub brush: BrushSpec,
}

impl View for StrokeData {
    type V = StrokeView;

    closed spec fn view(&self) -> StrokeView {
        StrokeView { points: self.points@, brush: self.brush }
    }
}

/// The values of a list of strokes.
pub open spec fn strokes_view(strokes: Seq<StrokeData>) -> Seq<StrokeView> {
    strokes.map_values(|s: StrokeData| s@)
}

/// The brush a new stroke gets: the eraser always erases in pencil style, any other
/// tool draws in the chosen style.
pub open spec fn brush_for(color: [u8; 4], width_bits: u32, tool: Tool, style: BrushStyle) -> BrushSpec {
    BrushSpec {
        color,
        width_bits,
        kind: if tool == Tool::Eraser { StrokeKind::Erase } else { StrokeKind::Draw },
        style: if tool == Tool::Eraser { BrushStyle::Pencil } else { style },
    }
}

/// Whether two points compare equal, coordinate by coordinate, as `f32` values.
pub open spec fn point_eq(a: Point, b: Point) -> bool {
    f32_bits_eq(a.0, b.0) && f32_bits_eq(a.1, b.1)
}

/// Whether two strokes compare equal as values: as many points, each equal to its
/// counterpart as `f32` values, and equal brushes.
pub open spec fn stroke_eq(a: StrokeView, b: StrokeView) -> bool {
    &&& a.points.len() == b.points.len()
    &&& forall|i: int| 0 <= i < a.points.len() ==> point_eq(#[trigger] a.points[i], b.points[i])
    &&& brush_eq(a.brush, b.brush)
}

/// Whether two lists of strokes compare equal: as many strokes, each equal to its
/// counterpart.
pub open spec fn strokes_eq(a: Seq<StrokeView>, b: Seq<StrokeView>) -> bool {
    &&& a.len() == b.len()
    &&& forall|i: int| 0 <= i < a.len() ==> stroke_eq(#[trigger] a[i], b[i])
}

/// A new stroke's brush keeps exactly the colour and width it is given, whatever the
/// tool; the eraser erases in pencil style, every other tool draws in the given style.
pub proof fn lemma_brush_for_keeps_color_and_width(color: [u8; 4], width_bits: u32, tool: Tool, style: BrushStyle)
    ensures
        brush_for(color, width_bits, tool, style).color == color,
        brush_for(color, width_bits, tool, style).width_bits == width_bits,
        tool == Tool::Eraser ==> brush_for(color, width_bits, tool, style).kind == StrokeKind::Erase
            && brush_for(color, width_bits, tool, style).style == BrushStyle::Pencil,
        tool == Tool::Brush ==> brush_for(color, width_bits, tool, style).kind == StrokeKind::Draw
            && brush_for(color, width_bits, tool, style).style == style,
{
}

/// The points after the pointer reports `point`: a point equal to the last one is
/// dropped.
pub open spec fn points_after(points: Seq<Point>, point: Point) -> Seq<Point> {
    if points.len() > 0 && point_eq(points.last(), point) {
        points
    } else {
        points.push(point)
    }
}

/// Whether no point follows a point equal to it.
pub open spec fn no_repeats(points: Seq<Point>) -> bool {
    forall|i: int, j: int| 0 <= i && j == i + 1 && j < points.len() ==> !point_eq(#[trigger] points[i], #[trigger] points[j])
}

/// Reporting a point keeps a stroke free of repeated points, and the stroke then ends
/// at that point or at one equal to it.
pub proof fn lemma_points_after_keeps_no_repeats(points: Seq<Point>, point: Point)
    requires
        no_repeats(points),
    ensures
        no_repeats(points_after(points, point)),
        points_after(points, point).last() == point || point_eq(points_after(points, point).last(), point),
        points_after(points, point).len() > 0,
{
    let q = points_after(points, point);
    assert forall|i: int, j: int| 0 <= i && j == i + 1 && j < q.len() implies !point_eq(#[trigger] q[i], #[trigger] q[j]) by {
        if j < points.len() {
            assert(q[i] == points[i] && q[j] == points[j]);
        }
    }
}

/// Whether two points compare equal as `f32` values.
pub fn points_equal(a: Point, b: Point) -> (r: bool)
    ensures
        r == point_eq(a, b),
{
    f32_bits_equal(a.0, b.0) && f32_bits_equal(a.1, b.1)
}

impl StrokeData {
    /// An empty stroke with the brush of `tool` and `style` in `color` and `width_bits`.
    pub fn new(color: [u8; 4], width_bits: u32, tool: Tool, style: BrushStyle) -> (s: Self)
        ensures
            s@.points == Seq::<Point>::empty(),
            s@.brush == brush_for(color, width_bits, tool, style),
            s@.brush.color == color,
            s@.brush.width_bits == width_bits,
            s@.brush.kind == (if tool == Tool::Eraser { StrokeKind::Erase } else { StrokeKind::Draw }),
            s@.brush.style == (if tool == Tool::Eraser { BrushStyle::Pencil } else { style }),
    {
        let kind = if tool.is_eraser() {
            StrokeKind::Erase
        } else {
            StrokeKind::Draw
        };
        let effective_style = if tool.is_eraser() {
            BrushStyle::Pencil
        } else {
            style
        };
        StrokeData {
            points: Vec::new(),
            brush: BrushSpec { color, width_bits, kind, style: effective_style },
        }
    }

    /// Adds `point` at the end, unless it equals the last point.
    pub fn push_point(&mut self, point: Point)
        ensures
            final(self)@.points == points_after(old(self)@.points, point),
            final(self)@.brush == old(self)@.brush,
    {
        let n = self.points.len();
        if n > 0 {
            let last = self.points[n - 1];
            if points_equal(last, point) {
                return;
            }
        }
        self.points.push(point);
    }

    /// The number of points.
    pub fn point_count(&self) -> (n: usize)
        ensures
            n == self@.points.len(),
    {
        self.points.len()
    }

    /// The brush.
    pub fn brush_spec(&self) -> (b: BrushSpec)
        ensures
            b == self@.brush,
    {
        self.brush
    }

    /// The point at `index`, where there is one.
    pub fn point_at(&self, index: usize) -> (p: Option<Point>)
        ensures
            p == (if index < self@.points.len() {
                Some(self@.points[index as int])
            } else {
                None::<Point>
            }),
    {
        if index < self.points.len() {
            Some(self.points[index])
        } else {
            None
        }
    }

    /// The first point, where there is one.
    pub fn first_point(&self) -> (p: Option<Point>)
        ensures
            p == (if self@.points.len() > 0 {
                Some(self@.points[0])
            } else {
                None::<Point>
            }),
    {
        self.point_at(0)
    }

    /// The points, in order.
    pub fn points(&self) -> (v: Vec<Point>)
        ensures
            v@ == self@.points,
    {
        let mut v: Vec<Point> = Vec::new();
        let mut i: usize = 0;
        while i < self.points.len()
            invariant
                i <= self.points@.len(),
                v@ == self.points@.subrange(0, i as int),
            decreases self.points@.len() - i,
        {
            v.push(self.points[i]);
            i = i + 1;
        }
        assert(self.points@.subrange(0, i as int) =~= self.points@);
        v
    }

    /// A stroke with the same points and brush.
    pub fn duplicate(&self) -> (s: Self)
        ensures
            s@ == self@,
    {
        StrokeData { points: self.points(), brush: self.brush }
    }

    /// Whether two strokes compare equal as values (see `stroke_eq`).
    pub fn same_as(&self, other: &StrokeData) -> (r: bool)
        ensures
            r == stroke_eq(self@, other@),
    {
        if !self.brush.same_as(&other.brush) {
            return false;
        }
        let n = self.points.len();
        if n != other.points.len() {
            return false;
        }
        let mut i: usize = 0;
        while i < n
            invariant
                n == self.points@.len(),
                n == other.points@.len(),
                i <= n,
                brush_eq(self.brush, other.brush),
                forall|k: int| 0 <= k < i ==> point_eq(#[trigger] self.points@[k], other.points@[k]),
            decreases n - i,
        {
            if !points_equal(self.points[i], other.points[i]) {
                return false;
            }
            i = i + 1;
        }
        true
    }
}

/// Copies of `strokes`, in order.
pub fn copy_strokes(strokes: &[StrokeData]) -> (v: Vec<StrokeData>)
    ensures
        strokes_view(v@) == strokes_view(strokes@),
{
    let mut v: Vec<StrokeData> = Vec::new();
    let mut i: usize = 0;
    while i < strokes.len()
        invariant
            i <= strokes@.len(),
            strokes_view(v@) == strokes_view(strokes@.subrange(0, i as int)),
        decreases strokes@.len() - i,
    {
        let s = strokes[i].duplicate();
        v.push(s);
        assert(strokes_view(strokes@.subrange(0, i + 1)) =~= strokes_view(strokes@.subrange(0, i as int)).push(s@));
        i = i + 1;
    }
    assert(strokes@.subrange(0, i as int) =~= strokes@);
    v
}

/// Whether two lists of strokes compare equal (see `strokes_eq`).
pub fn same_strokes(a: &[StrokeData], b: &[StrokeData]) -> (r: bool)
    ensures
        r == strokes_eq(strokes_view(a@), strokes_view(b@)),
{
    if a.len() != b.len() {
        assert(strokes_view(a@).len() != strokes_view(b@).len());
        return false;
    }
    let n = a.len();
    let mut i: usize = 0;
    while i < n
        invariant
            n == a@.len(),
            n == b@.len(),
            i <= n,
            forall|k: int| 0 <= k < i ==> stroke_eq(#[trigger] strokes_view(a@)[k], strokes_view(b@)[k]),
        decreases n - i,
    {
        if !a[i].same_as(&b[i]) {
            assert(!stroke_eq(strokes_view(a@)[i as int], strokes_view(b@)[i as int]));
            return false;
        }
        i = i + 1;
    }
    true
}

} // verus!
