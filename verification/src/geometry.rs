//! The track layout: fixed grid points, their bounding box, and the map from
//! track coordinates to canvas pixels.
//!
//! Coordinates are fixed-point integers: a track coordinate multiplied by
//! [`COORDINATE_SCALE`] and truncated. Two positions are the same grid cell
//! exactly when these integers are equal.

use vstd::prelude::*;

verus! {

/// Fixed-point units per track unit.
pub const COORDINATE_SCALE: i64 = 1_000_000;

/// Edge length, in pixels, of the square drawn for one grid point.
pub const MARKER_SIZE: u32 = 20;

/// One light of the layout, in fixed-point track coordinates.
#[derive(Clone, Copy, Debug, PartialEq, Eq, Structural)]
pub struct GridPoint {
    pub x: i64,
    pub y: i64,
}

/// The drawing area, in pixels.
#[derive(Clone, Copy, Debug, PartialEq, Eq, Structural)]
pub struct Canvas {
    pub width: u32,
    pub height: u32,
}

/// A position on the canvas. `y` grows downwards.
#[derive(Clone, Copy, Debug, PartialEq, Eq, Structural)]
pub struct Pixel {
    pub x: u32,
    pub y: u32,
}

/// An axis-aligned box in track coordinates.
#[derive(Clone, Copy, Debug, PartialEq, Eq, Structural)]
pub struct Bounds {
    pub min_x: i64,
    pub max_x: i64,
    pub min_y: i64,
    pub max_y: i64,
}

impl Bounds {
    /// The box that holds `p` and nothing else.
    pub open spec fn around(p: GridPoint) -> Bounds {
        Bounds { min_x: p.x, max_x: p.x, min_y: p.y, max_y: p.y }
    }

    /// The smallest box that holds this box and `p`.
    pub open spec fn extended(self, p: GridPoint) -> Bounds {
        Bounds {
            min_x: if p.x < self.min_x { p.x } else { self.min_x },
            max_x: if p.x > self.max_x { p.x } else { self.max_x },
            min_y: if p.y < self.min_y { p.y } else { self.min_y },
            max_y: if p.y > self.max_y { p.y } else { self.max_y },
        }
    }

    pub open spec fn contains(self, p: GridPoint) -> bool {
        self.min_x <= p.x <= self.max_x && self.min_y <= p.y <= self.max_y
    }

    /// Both extents are zero or more.
    pub open spec fn ordered(self) -> bool {
        self.min_x <= self.max_x && self.min_y <= self.max_y
    }
}

/// The bounding box of a layout with at least one point.
pub open spec fn bounding_box(points: Seq<GridPoint>) -> Bounds
    recommends
        points.len() > 0,
    decreases points.len(),
{
    if points.len() <= 1 {
        Bounds::around(points[0])
    } else {
        bounding_box(points.drop_last()).extended(points.last())
    }
}

/// The bounding box holds every point of the layout, and each of its four
/// sides passes through one of them.
pub proof fn law_bounding_box_is_tight(points: Seq<GridPoint>)
    requires
        points.len() > 0,
    ensures
        bounding_box(points).ordered(),
        forall|i: int| 0 <= i < points.len() ==> bounding_box(points).contains(#[trigger] points[i]),
        exists|i: int| 0 <= i < points.len() && (#[trigger] points[i]).x == bounding_box(points).min_x,
        exists|i: int| 0 <= i < points.len() && (#[trigger] points[i]).x == bounding_box(points).max_x,
        exists|i: int| 0 <= i < points.len() && (#[trigger] points[i]).y == bounding_box(points).min_y,
        exists|i: int| 0 <= i < points.len() && (#[trigger] points[i]).y == bounding_box(points).max_y,
    decreases points.len(),
{
    let b = bounding_box(points);
    if points.len() == 1 {
        assert(points[0].x == b.min_x && points[0].y == b.max_y);
    } else {
        let front = points.drop_last();
        let last = points.len() - 1;
        law_bounding_box_is_tight(front);
        let inner = bounding_box(front);
        assert forall|i: int| 0 <= i < points.len() implies b.contains(#[trigger] points[i]) by {
            if i < last {
                assert(points[i] == front[i]);
            }
        }
        let i0 = choose|i: int| 0 <= i < front.len() && (#[trigger] front[i]).x == inner.min_x;
        let i1 = choose|i: int| 0 <= i < front.len() && (#[trigger] front[i]).x == inner.max_x;
        let i2 = choose|i: int| 0 <= i < front.len() && (#[trigger] front[i]).y == inner.min_y;
        let i3 = choose|i: int| 0 <= i < front.len() && (#[trigger] front[i]).y == inner.max_y;
        assert(points[i0] == front[i0] && points[i1] == front[i1]);
        assert(points[i2] == front[i2] && points[i3] == front[i3]);
        assert(points[last].x == b.min_x || points[i0].x == b.min_x);
        assert(points[last].x == b.max_x || points[i1].x == b.max_x);
        assert(points[last].y == b.min_y || points[i2].y == b.min_y);
        assert(points[last].y == b.max_y || points[i3].y == b.max_y);
    }
}

/// `value` moved into `low..=high`.
pub open spec fn clamped(value: int, low: int, high: int) -> int {
    if value < low {
        low
    } else if value > high {
        high
    } else {
        value
    }
}

/// How far along an axis of `extent` pixels `value` lies, when `low` maps to
/// pixel 0 and `high` to pixel `extent`; rounded down. An axis on which the
/// layout has no extent (`high <= low`) maps everything to pixel 0. A value
/// outside `low..=high` counts as the nearer end.
pub open spec fn along(value: int, low: int, high: int, extent: int) -> int {
    if high <= low {
        0
    } else {
        (clamped(value, low, high) - low) * extent / (high - low)
    }
}

/// The pixel at which `p` is drawn: the horizontal axis runs with the
/// track's, the vertical axis against it.
pub open spec fn pixel_of(p: GridPoint, bounds: Bounds, canvas: Canvas) -> Pixel {
    Pixel {
        x: along(p.x as int, bounds.min_x as int, bounds.max_x as int, canvas.width as int) as u32,
        y: (canvas.height - along(
            p.y as int,
            bounds.min_y as int,
            bounds.max_y as int,
            canvas.height as int,
        )) as u32,
    }
}

/// A position along an axis lies on the axis; the low end maps to pixel 0 and
/// the high end to the last pixel.
pub proof fn lemma_along_in_range(value: int, low: int, high: int, extent: int)
    requires
        0 <= extent,
    ensures
        0 <= along(value, low, high, extent) <= extent,
        along(low, low, high, extent) == 0,
        low < high ==> along(high, low, high, extent) == extent,
{
    if low < high {
        let span = high - low;
        let offset = clamped(value, low, high) - low;
        assert(0 <= offset * extent <= span * extent) by (nonlinear_arith)
            requires
                0 <= offset <= span,
                0 <= extent,
        ;
        assert(0 <= (offset * extent) / span <= extent) by (nonlinear_arith)
            requires
                0 <= offset * extent <= span * extent,
                0 < span,
        ;
        assert((0 * extent) / span == 0) by (nonlinear_arith)
            requires
                0 < span,
        ;
        assert((span * extent) / span == extent) by (nonlinear_arith)
            requires
                0 < span,
        ;
    }
}

/// A position further along the track axis is drawn no nearer to pixel 0.
pub proof fn lemma_along_monotonic(a: int, b: int, low: int, high: int, extent: int)
    requires
        0 <= extent,
        a <= b,
    ensures
        along(a, low, high, extent) <= along(b, low, high, extent),
{
    if low < high {
        let span = high - low;
        let oa = clamped(a, low, high) - low;
        let ob = clamped(b, low, high) - low;
        assert(oa * extent <= ob * extent) by (nonlinear_arith)
            requires
                oa <= ob,
                0 <= extent,
        ;
        assert((oa * extent) / span <= (ob * extent) / span) by (nonlinear_arith)
            requires
                oa * extent <= ob * extent,
                0 < span,
        ;
    }
}

/// On an axis without extent every point gets the same pixel: the left edge
/// where all points share one `x`, the bottom edge where they share one `y`.
pub proof fn law_degenerate_axis_falls_back(p: GridPoint, bounds: Bounds, canvas: Canvas)
    ensures
        bounds.max_x <= bounds.min_x ==> pixel_of(p, bounds, canvas).x == 0,
        bounds.max_y <= bounds.min_y ==> pixel_of(p, bounds, canvas).y == canvas.height,
{
}

/// Every pixel that the map gives lies on the canvas.
pub proof fn law_pixels_on_canvas(p: GridPoint, bounds: Bounds, canvas: Canvas)
    ensures
        pixel_of(p, bounds, canvas).x == along(
            p.x as int,
            bounds.min_x as int,
            bounds.max_x as int,
            canvas.width as int,
        ),
        pixel_of(p, bounds, canvas).y == canvas.height - along(
            p.y as int,
            bounds.min_y as int,
            bounds.max_y as int,
            canvas.height as int,
        ),
        pixel_of(p, bounds, canvas).x <= canvas.width,
        pixel_of(p, bounds, canvas).y <= canvas.height,
{
    lemma_along_in_range(p.x as int, bounds.min_x as int, bounds.max_x as int, canvas.width as int);
    lemma_along_in_range(p.y as int, bounds.min_y as int, bounds.max_y as int, canvas.height as int);
}

/// Points further right on the track are drawn no further left, and points
/// further up on the track are drawn no further down: the vertical axis is
/// flipped.
pub proof fn law_axes_keep_their_order(a: GridPoint, b: GridPoint, bounds: Bounds, canvas: Canvas)
    ensures
        a.x <= b.x ==> pixel_of(a, bounds, canvas).x <= pixel_of(b, bounds, canvas).x,
        a.y <= b.y ==> pixel_of(a, bounds, canvas).y >= pixel_of(b, bounds, canvas).y,
{
    law_pixels_on_canvas(a, bounds, canvas);
    law_pixels_on_canvas(b, bounds, canvas);
    if a.x <= b.x {
        lemma_along_monotonic(
            a.x as int,
            b.x as int,
            bounds.min_x as int,
            bounds.max_x as int,
            canvas.width as int,
        );
    }
    if a.y <= b.y {
        lemma_along_monotonic(
            a.y as int,
            b.y as int,
            bounds.min_y as int,
            bounds.max_y as int,
            canvas.height as int,
        );
    }
}

/// Every point of a layout is placed by the linear map alone: inside the
/// layout's own bounding box nothing is moved to an edge. On each axis with
/// extent, the offset from the low side is scaled by the canvas over the
/// extent and rounded down.
pub proof fn law_layout_maps_linearly(points: Seq<GridPoint>, i: int, canvas: Canvas)
    requires
        0 <= i < points.len(),
    ensures
        ({
            let b = bounding_box(points);
            let p = points[i];
            let across = (p.x - b.min_x) * canvas.width / (b.max_x - b.min_x);
            let up = (p.y - b.min_y) * canvas.height / (b.max_y - b.min_y);
            &&& b.contains(p)
            &&& b.min_x < b.max_x ==> pixel_of(p, b, canvas).x == across
            &&& b.min_y < b.max_y ==> pixel_of(p, b, canvas).y == canvas.height - up
        }),
{
    law_bounding_box_is_tight(points);
    law_pixels_on_canvas(points[i], bounding_box(points), canvas);
}

/// Position of `value` along an axis of `extent` pixels; see [`along`].
pub fn position_along(value: i64, low: i64, high: i64, extent: u32) -> (pixel: u32)
    ensures
        pixel == along(value as int, low as int, high as int, extent as int),
        pixel <= extent,
{
    if high <= low {
        return 0;
    }
    let inside: i64 = if value < low {
        low
    } else if value > high {
        high
    } else {
        value
    };
    let offset: u128 = (inside as i128 - low as i128) as u128;
    let span: u128 = (high as i128 - low as i128) as u128;
    proof {
        lemma_along_in_range(value as int, low as int, high as int, extent as int);
        assert(offset * extent <= 0xffff_ffff_ffff_ffff * 0xffff_ffff) by (nonlinear_arith)
            requires
                0 <= offset <= 0xffff_ffff_ffff_ffff,
                0 <= extent <= 0xffff_ffff,
        ;
    }
    let scaled: u128 = offset * (extent as u128);
    (scaled / span) as u32
}

/// The pixel at which `p` is drawn; see [`pixel_of`].
pub fn normalize(p: GridPoint, bounds: Bounds, canvas: Canvas) -> (pixel: Pixel)
    ensures
        pixel == pixel_of(p, bounds, canvas),
        pixel.x <= canvas.width,
        pixel.y <= canvas.height,
{
    let x = position_along(p.x, bounds.min_x, bounds.max_x, canvas.width);
    let up = position_along(p.y, bounds.min_y, bounds.max_y, canvas.height);
    Pixel { x, y: canvas.height - up }
}

/// The fixed grid points of the layout. The order of the points carries no
/// meaning, but it is kept: what is computed per point comes out in it.
pub struct Track {
    points: Vec<GridPoint>,
}

impl View for Track {
    type V = Seq<GridPoint>;

    closed spec fn view(&self) -> Seq<GridPoint> {
        self.points@
    }
}

impl Track {
    pub fn new(points: Vec<GridPoint>) -> (track: Track)
        ensures
            track@ == points@,
    {
        Track { points }
    }

    /// The points, in the order in which they were given.
    pub fn points(&self) -> (points: &Vec<GridPoint>)
        ensures
            points@ == self@,
    {
        &self.points
    }

    pub fn len(&self) -> (n: usize)
        ensures
            n == self@.len(),
    {
        self.points.len()
    }

    pub fn is_empty(&self) -> (empty: bool)
        ensures
            empty <==> self@.len() == 0,
    {
        self.points.len() == 0
    }

    /// The point at `index`, if the layout is that long.
    pub fn get(&self, index: usize) -> (point: Option<GridPoint>)
        ensures
            point == if index < self@.len() {
                Some(self@[index as int])
            } else {
                None
            },
    {
        if index < self.points.len() {
            Some(self.points[index])
        } else {
            None
        }
    }

    /// The bounding box of the layout; `None` for a layout without points.
    pub fn bounds(&self) -> (bounds: Option<Bounds>)
        ensures
            bounds == if self@.len() == 0 {
                None
            } else {
                Some(bounding_box(self@))
            },
    {
        let n = self.points.len();
        if n == 0 {
            return None;
        }
        let first = self.points[0];
        let mut b = Bounds { min_x: first.x, max_x: first.x, min_y: first.y, max_y: first.y };
        let mut i: usize = 1;
        assert(self@.take(1).len() == 1 && self@.take(1)[0] == self@[0]);
        while i < n
            invariant
                1 <= i <= n,
                n == self@.len(),
                b == bounding_box(self@.take(i as int)),
            decreases n - i,
        {
            let p = self.points[i];
            proof {
                assert(self@.take(i + 1).drop_last() =~= self@.take(i as int));
                assert(self@.take(i + 1).last() == p);
            }
            if p.x < b.min_x {
                b.min_x = p.x;
            }
            if p.x > b.max_x {
                b.max_x = p.x;
            }
            if p.y < b.min_y {
                b.min_y = p.y;
            }
            if p.y > b.max_y {
                b.max_y = p.y;
            }
            i = i + 1;
        }
        assert(self@.take(n as int) =~= self@);
        Some(b)
    }
}

} // verus!
