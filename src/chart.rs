use vstd::prelude::*;
use vstd::arithmetic::div_mod::lemma_fundamental_div_mod_converse;
use crate::transform::{
    AffineTransform, AxisMap, AxisModel, Frac, Point, PointModel, Ratio, TransformModel,
};

verus! {

/// Largest magnitude of a sample coordinate.
pub const MAX_VALUE: i64 = 1_000_000_000;

/// Largest width or height of a canvas, in pixels.
pub const MAX_DIMENSION: i64 = 1_000_000;

/// One data sample, in the chart's integer data units.
#[derive(Clone, Copy, Debug, PartialEq, Eq, Structural)]
pub struct DataSample {
    pub x: i64,
    pub y: i64,
}

impl DataSample {
    pub open spec fn in_range(self) -> bool {
        -MAX_VALUE <= self.x <= MAX_VALUE && -MAX_VALUE <= self.y <= MAX_VALUE
    }
}

pub open spec fn samples_in_range(s: Seq<DataSample>) -> bool {
    forall|i: int| 0 <= i < s.len() ==> (#[trigger] s[i]).in_range()
}

pub open spec fn sorted_by_x(s: Seq<DataSample>) -> bool {
    forall|i: int, j: int| 0 <= i <= j < s.len() ==> s[i].x <= s[j].x
}

/// The drawing surface: a `width` by `height` canvas whose plot area is
/// inset by `padding` on every side.
#[derive(Clone, Copy, Debug, PartialEq, Eq, Structural)]
pub struct Canvas {
    pub width: i64,
    pub height: i64,
    pub padding: i64,
}

impl Canvas {
    /// The plot area is not empty.
    pub open spec fn wf(self) -> bool {
        0 <= self.padding && 2 * self.padding < self.width <= MAX_DIMENSION && 2 * self.padding
            < self.height <= MAX_DIMENSION
    }

    pub open spec fn plot_width(self) -> int {
        self.width - 2 * self.padding
    }

    pub open spec fn plot_height(self) -> int {
        self.height - 2 * self.padding
    }
}

/// The smallest and largest coordinates of a set of samples.
#[derive(Clone, Copy, Debug, PartialEq, Eq, Structural)]
pub struct Bounds {
    pub min_x: i64,
    pub max_x: i64,
    pub min_y: i64,
    pub max_y: i64,
}

impl Bounds {
    pub open spec fn in_range(self) -> bool {
        -MAX_VALUE <= self.min_x <= self.max_x <= MAX_VALUE && -MAX_VALUE <= self.min_y
            <= self.max_y <= MAX_VALUE
    }

    /// `self` holds the extreme coordinates of the non-empty `s`.
    pub open spec fn of(self, s: Seq<DataSample>) -> bool {
        &&& s.len() > 0
        &&& forall|i: int|
            0 <= i < s.len() ==> {
                &&& self.min_x <= #[trigger] s[i].x <= self.max_x
                &&& self.min_y <= s[i].y <= self.max_y
            }
        &&& exists|i: int| 0 <= i < s.len() && s[i].x == self.min_x
        &&& exists|i: int| 0 <= i < s.len() && s[i].x == self.max_x
        &&& exists|i: int| 0 <= i < s.len() && s[i].y == self.min_y
        &&& exists|i: int| 0 <= i < s.len() && s[i].y == self.max_y
    }
}

/// Computes the bounding box of the samples; `None` when there are none.
pub fn data_bounds(data: &Vec<DataSample>) -> (r: Option<Bounds>)
    requires
        samples_in_range(data@),
    ensures
        r is None <==> data@.len() == 0,
        r matches Some(b) ==> b.of(data@) && b.in_range(),
{
    if data.len() == 0 {
        return None;
    }
    let first = data[0];
    let mut b = Bounds { min_x: first.x, max_x: first.x, min_y: first.y, max_y: first.y };
    let mut i: usize = 1;
    proof {
        let u = data@.subrange(0, 1);
        assert(u[0] == first);
        assert(u.len() == 1);
    }
    while i < data.len()
        invariant
            samples_in_range(data@),
            1 <= i <= data@.len(),
            b.in_range(),
            b.of(data@.subrange(0, i as int)),
        decreases data@.len() - i,
    {
        let s = data[i];
        let ghost prev = b;
        if s.x < b.min_x {
            b.min_x = s.x;
        }
        if s.x > b.max_x {
            b.max_x = s.x;
        }
        if s.y < b.min_y {
            b.min_y = s.y;
        }
        if s.y > b.max_y {
            b.max_y = s.y;
        }
        proof {
            let t = data@.subrange(0, i + 1);
            let u = data@.subrange(0, i as int);
            assert(t[i as int] == s);
            assert forall|j: int| 0 <= j < u.len() implies u[j] == t[j] by {}
            if b.min_x != prev.min_x {
                assert(t[i as int].x == b.min_x);
            } else {
                let j = choose|j: int| 0 <= j < u.len() && u[j].x == prev.min_x;
                assert(t[j].x == b.min_x);
            }
            if b.max_x != prev.max_x {
                assert(t[i as int].x == b.max_x);
            } else {
                let j = choose|j: int| 0 <= j < u.len() && u[j].x == prev.max_x;
                assert(t[j].x == b.max_x);
            }
            if b.min_y != prev.min_y {
                assert(t[i as int].y == b.min_y);
            } else {
                let j = choose|j: int| 0 <= j < u.len() && u[j].y == prev.min_y;
                assert(t[j].y == b.min_y);
            }
            if b.max_y != prev.max_y {
                assert(t[i as int].y == b.max_y);
            } else {
                let j = choose|j: int| 0 <= j < u.len() && u[j].y == prev.max_y;
                assert(t[j].y == b.max_y);
            }
            assert forall|j: int| 0 <= j < t.len() implies {
                &&& b.min_x <= #[trigger] t[j].x <= b.max_x
                &&& b.min_y <= t[j].y <= b.max_y
            } by {
                if j < i {
                    assert(t[j] == u[j]);
                }
            }
        }
        i = i + 1;
    }
    assert(data@.subrange(0, data@.len() as int) == data@);
    Some(b)
}

/// The map of the x axis: `min_x` to the left edge of the plot area and
/// `max_x` to its right edge. When all samples share one x, a unit scale that
/// puts that x at the left edge.
pub open spec fn x_axis_of(b: Bounds, c: Canvas) -> AxisModel {
    let range = b.max_x - b.min_x;
    if range > 0 {
        AxisModel {
            m: c.plot_width(),
            b: c.padding * range - b.min_x * c.plot_width(),
            d: range,
        }
    } else {
        AxisModel { m: 1, b: c.padding - b.min_x, d: 1 }
    }
}

/// The map of the y axis, which points down on screen: `min_y` to the bottom
/// edge of the plot area and `max_y` to its top edge. When all samples share
/// one y, a unit scale that puts that y at the bottom edge.
pub open spec fn y_axis_of(b: Bounds, c: Canvas) -> AxisModel {
    let range = b.max_y - b.min_y;
    if range > 0 {
        AxisModel {
            m: -c.plot_height(),
            b: (c.height - c.padding) * range + b.min_y * c.plot_height(),
            d: range,
        }
    } else {
        AxisModel { m: -1, b: c.height - c.padding + b.min_y, d: 1 }
    }
}

pub open spec fn chart_transform_of(b: Bounds, c: Canvas) -> TransformModel {
    TransformModel { x: x_axis_of(b, c), y: y_axis_of(b, c) }
}

/// Builds the transform from data coordinates to screen coordinates.
pub fn chart_transform(b: &Bounds, canvas: &Canvas) -> (r: AffineTransform)
    requires
        b.in_range(),
        canvas.wf(),
    ensures
        r@ == chart_transform_of(*b, *canvas),
        r@.wf(),
        r@.x.m > 0,
        r.bounded(),
{
    let pad = canvas.padding as i128;
    let pw = (canvas.width - 2 * canvas.padding) as i128;
    let ph = (canvas.height - 2 * canvas.padding) as i128;
    let rx = (b.max_x as i128) - (b.min_x as i128);
    let ry = (b.max_y as i128) - (b.min_y as i128);
    assert(0 <= pad * rx <= 2_000_000_000_000_000) by (nonlinear_arith)
        requires
            0 <= pad <= MAX_DIMENSION,
            0 <= rx <= 2 * MAX_VALUE,
    ;
    assert(-1_000_000_000_000_000 <= (b.min_x as i128) * pw <= 1_000_000_000_000_000)
        by (nonlinear_arith)
        requires
            0 <= pw <= MAX_DIMENSION,
            -MAX_VALUE <= b.min_x <= MAX_VALUE,
    ;
    assert(0 <= (canvas.height - canvas.padding) as i128 * ry <= 2_000_000_000_000_000)
        by (nonlinear_arith)
        requires
            0 <= canvas.height - canvas.padding <= MAX_DIMENSION,
            0 <= ry <= 2 * MAX_VALUE,
    ;
    assert(-1_000_000_000_000_000 <= (b.min_y as i128) * ph <= 1_000_000_000_000_000)
        by (nonlinear_arith)
        requires
            0 <= ph <= MAX_DIMENSION,
            -MAX_VALUE <= b.min_y <= MAX_VALUE,
    ;
    let x = if rx > 0 {
        AxisMap { m: pw, b: pad * rx - (b.min_x as i128) * pw, d: rx }
    } else {
        AxisMap { m: 1, b: pad - b.min_x as i128, d: 1 }
    };
    let y = if ry > 0 {
        AxisMap {
            m: -ph,
            b: ((canvas.height - canvas.padding) as i128) * ry + (b.min_y as i128) * ph,
            d: ry,
        }
    } else {
        AxisMap { m: -1, b: (canvas.height - canvas.padding) as i128 + b.min_y as i128, d: 1 }
    };
    AffineTransform { x, y }
}

/// `dst` holds the samples of `src` rearranged, sample `k` of `dst` being
/// sample `idx[k]` of `src`, and samples with equal x keep their order.
pub open spec fn stable_arrangement(src: Seq<DataSample>, dst: Seq<DataSample>, idx: Seq<int>) -> bool {
    &&& idx.len() == dst.len() == src.len()
    &&& forall|k: int| 0 <= k < dst.len() ==> 0 <= #[trigger] idx[k] < src.len() && dst[k] == src[idx[k]]
    &&& forall|k: int, l: int| 0 <= k < l < dst.len() ==> idx[k] != idx[l]
    &&& forall|k: int, l: int|
        0 <= k < l < dst.len() && dst[k].x == dst[l].x ==> idx[k] < idx[l]
}

/// Sorts the samples ascending by x. Of samples with equal x, the earlier
/// stays first.
pub fn sort_by_x(data: &mut Vec<DataSample>)
    ensures
        sorted_by_x(final(data)@),
        final(data)@.to_multiset() == old(data)@.to_multiset(),
        exists|idx: Seq<int>| stable_arrangement(old(data)@, final(data)@, idx),
{
    let mut out: Vec<DataSample> = Vec::new();
    let ghost mut idx: Seq<int> = Seq::empty();
    let mut i: usize = 0;
    assert(out@ =~= data@.subrange(0, 0));
    while i < data.len()
        invariant
            i <= data@.len(),
            sorted_by_x(out@),
            out@.to_multiset() == data@.subrange(0, i as int).to_multiset(),
            stable_arrangement(data@.subrange(0, i as int), out@, idx),
        decreases data@.len() - i,
    {
        let s = data[i];
        let mut pos: usize = out.len();
        while pos > 0 && out[pos - 1].x > s.x
            invariant
                pos <= out@.len(),
                sorted_by_x(out@),
                forall|k: int| pos <= k < out@.len() ==> (#[trigger] out@[k]).x > s.x,
            decreases pos,
        {
            pos = pos - 1;
        }
        let ghost src = data@.subrange(0, i as int);
        let ghost src2 = data@.subrange(0, i + 1);
        proof {
            assert(forall|k: int| 0 <= k < pos ==> (#[trigger] out@[k]).x <= s.x) by {
                if pos > 0 {
                    assert(out@[pos - 1].x <= s.x);
                }
            }
            vstd::seq_lib::to_multiset_insert(out@, pos as int, s);
            assert(src2 == src.push(s));
            vstd::seq_lib::to_multiset_build(src, s);
        }
        let ghost before = out@;
        let ghost idx0 = idx;
        out.insert(pos, s);
        proof {
            idx = idx0.insert(pos as int, i as int);
            assert(out@ == before.insert(pos as int, s));
            assert forall|a: int, b: int| 0 <= a <= b < out@.len() implies out@[a].x
                <= out@[b].x by {
                if a < pos && b < pos {
                    assert(out@[a] == before[a] && out@[b] == before[b]);
                } else if a < pos && b == pos {
                    assert(out@[a] == before[a]);
                } else if a < pos {
                    assert(out@[a] == before[a] && out@[b] == before[b - 1]);
                } else if a == pos && b > pos {
                    assert(out@[b] == before[b - 1]);
                } else if a > pos {
                    assert(out@[a] == before[a - 1] && out@[b] == before[b - 1]);
                }
            }
            assert forall|k: int| 0 <= k < out@.len() implies 0 <= #[trigger] idx[k] < src2.len()
                && out@[k] == src2[idx[k]] by {
                if k < pos {
                    assert(idx[k] == idx0[k] && out@[k] == before[k]);
                } else if k > pos {
                    assert(idx[k] == idx0[k - 1] && out@[k] == before[k - 1]);
                }
            }
            assert forall|k: int, l: int| 0 <= k < l < out@.len() implies idx[k] != idx[l] by {
                if k < pos && l < pos {
                    assert(idx[k] == idx0[k] && idx[l] == idx0[l]);
                } else if k < pos && l == pos {
                    assert(idx[k] == idx0[k]);
                } else if k < pos {
                    assert(idx[k] == idx0[k] && idx[l] == idx0[l - 1]);
                } else if k == pos {
                    assert(idx[l] == idx0[l - 1]);
                } else {
                    assert(idx[k] == idx0[k - 1] && idx[l] == idx0[l - 1]);
                }
            }
            assert forall|k: int, l: int|
                0 <= k < l < out@.len() && out@[k].x == out@[l].x implies idx[k] < idx[l] by {
                if k < pos && l < pos {
                    assert(idx[k] == idx0[k] && idx[l] == idx0[l]);
                    assert(out@[k] == before[k] && out@[l] == before[l]);
                } else if k < pos && l == pos {
                    assert(idx[k] == idx0[k]);
                } else if k < pos {
                    assert(idx[k] == idx0[k] && idx[l] == idx0[l - 1]);
                    assert(out@[k] == before[k] && out@[l] == before[l - 1]);
                } else if k == pos {
                    assert(out@[l] == before[l - 1]);
                } else {
                    assert(idx[k] == idx0[k - 1] && idx[l] == idx0[l - 1]);
                    assert(out@[k] == before[k - 1] && out@[l] == before[l - 1]);
                }
            }
        }
        i = i + 1;
    }
    assert(data@.subrange(0, data@.len() as int) == data@);
    *data = out;
}

/// A sample as an exact point.
pub open spec fn sample_point(s: DataSample) -> PointModel {
    PointModel { x: Ratio::of_int(s.x as int), y: Ratio::of_int(s.y as int) }
}

/// The smallest multiple of `unit` that is not below `lo`.
pub open spec fn first_tick(lo: int, unit: int) -> int {
    if lo % unit == 0 {
        lo
    } else {
        lo - lo % unit + unit
    }
}

/// A labelled mark on an axis: a data value and its screen coordinate on
/// that axis.
#[derive(Clone, Copy, Debug, PartialEq, Eq, Structural)]
pub struct Tick {
    pub value: i64,
    pub pos: Frac,
}

/// `ticks` marks each multiple of `unit` from `lo` up to, not including, `hi`,
/// in ascending order, at its place under `axis`.
pub open spec fn ticks_of(ticks: Seq<Tick>, lo: int, hi: int, unit: int, axis: AxisModel) -> bool {
    &&& forall|k: int|
        0 <= k < ticks.len() ==> {
            &&& #[trigger] ticks[k].value == first_tick(lo, unit) + k * unit
            &&& ticks[k].value < hi
            &&& ticks[k].pos@ == axis.apply(Ratio::of_int(ticks[k].value as int))
        }
    &&& first_tick(lo, unit) + ticks.len() * unit >= hi
}

fn first_tick_exec(lo: i64, unit: i64) -> (r: i64)
    requires
        -MAX_VALUE <= lo <= MAX_VALUE,
        0 < unit <= MAX_VALUE,
    ensures
        r == first_tick(lo as int, unit as int),
{
    if lo >= 0 {
        let rem = ((lo as u64) % (unit as u64)) as i64;
        if rem == 0 {
            lo
        } else {
            lo - rem + unit
        }
    } else {
        let a = (-lo) as u64;
        let ra = (a % (unit as u64)) as i64;
        proof {
            let q2 = (a as int) / (unit as int);
            vstd::arithmetic::div_mod::lemma_fundamental_div_mod(a as int, unit as int);
            assert((-q2) * unit == -(unit * q2)) by (nonlinear_arith);
            assert((-q2 - 1) * unit == -(unit * q2) - unit) by (nonlinear_arith);
            if ra == 0 {
                lemma_fundamental_div_mod_converse(lo as int, unit as int, -q2, 0);
            } else {
                lemma_fundamental_div_mod_converse(
                    lo as int,
                    unit as int,
                    -q2 - 1,
                    unit - ra,
                );
            }
        }
        if ra == 0 {
            lo
        } else {
            lo + ra
        }
    }
}

/// Computes the ticks of one axis: each multiple of `unit` in `[lo, hi)`.
pub fn axis_ticks(lo: i64, hi: i64, unit: i64, axis: &AxisMap) -> (r: Vec<Tick>)
    requires
        -MAX_VALUE <= lo <= hi <= MAX_VALUE,
        0 < unit <= MAX_VALUE,
        axis.bounded(),
    ensures
        ticks_of(r@, lo as int, hi as int, unit as int, axis@),
{
    let first = first_tick_exec(lo, unit);
    proof {
        vstd::arithmetic::div_mod::lemma_mod_bound(lo as int, unit as int);
    }
    let mut ticks: Vec<Tick> = Vec::new();
    let mut v = first;
    assert(v == first + ticks@.len() * unit) by (nonlinear_arith)
        requires
            v == first,
            ticks@.len() == 0,
    ;
    while v < hi
        invariant
            -MAX_VALUE <= lo <= hi <= MAX_VALUE,
            0 < unit <= MAX_VALUE,
            axis.bounded(),
            first == first_tick(lo as int, unit as int),
            lo <= first < lo + unit,
            v == first + ticks@.len() * unit,
            v < hi + unit,
            forall|k: int|
                0 <= k < ticks@.len() ==> {
                    &&& #[trigger] ticks@[k].value == first_tick(lo as int, unit as int) + k
                        * unit
                    &&& ticks@[k].value < hi
                    &&& ticks@[k].pos@ == axis@.apply(Ratio::of_int(ticks@[k].value as int))
                },
        decreases hi + unit - v,
    {
        let pos = axis.apply(Frac::from_int(v));
        ticks.push(Tick { value: v, pos });
        proof {
            assert(v + unit == first + (ticks@.len() - 1) * unit + unit);
            assert((ticks@.len() - 1) * unit + unit == ticks@.len() * unit) by (nonlinear_arith);
        }
        let ghost before = v;
        v = v + unit;
        assert(hi + unit - v < hi + unit - before);
    }
    ticks
}

/// A straight line between two consecutive screen points.
#[derive(Clone, Copy, Debug, PartialEq, Eq, Structural)]
pub struct Segment {
    pub start: Point,
    pub end: Point,
}

/// Everything a chart draws, in screen coordinates.
#[derive(Clone, Debug, PartialEq, Eq)]
pub struct ChartLayout {
    pub bounds: Bounds,
    pub transform: AffineTransform,
    /// One point per sample, in the order of the samples.
    pub points: Vec<Point>,
    /// The polyline through `points`.
    pub segments: Vec<Segment>,
    pub x_ticks: Vec<Tick>,
    pub y_ticks: Vec<Tick>,
}

impl ChartLayout {
    /// `self` is the layout of `data` on `canvas`, with ticks every `unit`.
    pub open spec fn of(self, data: Seq<DataSample>, canvas: Canvas, unit: int) -> bool {
        let t = self.transform@;
        let b = self.bounds;
        &&& b.of(data)
        &&& b.in_range()
        &&& t == chart_transform_of(b, canvas)
        &&& t.wf()
        &&& self.transform.bounded()
        &&& self.points@.len() == data.len()
        &&& forall|i: int|
            0 <= i < data.len() ==> (#[trigger] self.points@[i])@ == t.apply(
                sample_point(data[i]),
            )
        &&& self.segments@.len() == data.len() - 1
        &&& forall|i: int|
            0 <= i < self.segments@.len() ==> #[trigger] self.segments@[i] == (Segment {
                start: self.points@[i],
                end: self.points@[i + 1],
            })
        &&& ticks_of(self.x_ticks@, b.min_x as int, b.max_x as int, unit, t.x)
        &&& ticks_of(self.y_ticks@, b.min_y as int, b.max_y as int, unit, t.y)
    }
}

/// Why no layout could be made.
#[derive(Clone, Copy, Debug, PartialEq, Eq, Structural)]
pub enum ChartError {
    /// There are no samples to draw.
    EmptyDataset,
}

/// Lays out `data` on `canvas`: maps every sample to the screen, joins
/// consecutive points, and places a tick at every multiple of `unit` on
/// both axes.
pub fn build_layout(data: &Vec<DataSample>, canvas: &Canvas, unit: i64) -> (r: Result<
    ChartLayout,
    ChartError,
>)
    requires
        samples_in_range(data@),
        canvas.wf(),
        0 < unit <= MAX_VALUE,
    ensures
        r is Err <==> data@.len() == 0,
        r matches Err(e) ==> e == ChartError::EmptyDataset,
        r matches Ok(l) ==> l.of(data@, *canvas, unit as int),
{
    let bounds = match data_bounds(data) {
        Some(b) => b,
        None => {
            return Err(ChartError::EmptyDataset);
        },
    };
    let transform = chart_transform(&bounds, canvas);
    let mut points: Vec<Point> = Vec::new();
    let mut i: usize = 0;
    while i < data.len()
        invariant
            samples_in_range(data@),
            transform.bounded(),
            i <= data@.len(),
            points@.len() == i,
            forall|j: int|
                0 <= j < i ==> (#[trigger] points@[j])@ == transform@.apply(
                    sample_point(data@[j]),
                ),
        decreases data@.len() - i,
    {
        let s = data[i];
        assert(data@[i as int].in_range());
        let p = transform.apply(&Point::from_ints(s.x, s.y));
        points.push(p);
        i = i + 1;
    }
    let mut segments: Vec<Segment> = Vec::new();
    let mut k: usize = 1;
    while k < points.len()
        invariant
            1 <= k <= points@.len() || points@.len() == 0,
            points@.len() == data@.len(),
            data@.len() > 0,
            segments@.len() == k - 1,
            forall|j: int|
                0 <= j < segments@.len() ==> #[trigger] segments@[j] == (Segment {
                    start: points@[j],
                    end: points@[j + 1],
                }),
        decreases points@.len() - k,
    {
        segments.push(Segment { start: points[k - 1], end: points[k] });
        k = k + 1;
    }
    let x_ticks = axis_ticks(bounds.min_x, bounds.max_x, unit, &transform.x);
    let y_ticks = axis_ticks(bounds.min_y, bounds.max_y, unit, &transform.y);
    Ok(ChartLayout { bounds, transform, points, segments, x_ticks, y_ticks })
}

/// Screen points keep the order of the samples' x coordinates: for samples
/// sorted by x, the points of the layout are sorted by x too.
pub proof fn lemma_layout_keeps_x_order(
    l: ChartLayout,
    data: Seq<DataSample>,
    canvas: Canvas,
    unit: int,
    i: int,
    j: int,
)
    requires
        canvas.wf(),
        l.of(data, canvas, unit),
        sorted_by_x(data),
        0 <= i <= j < data.len(),
    ensures
        l.points@[i]@.x.le(l.points@[j]@.x),
{
    let a = x_axis_of(l.bounds, canvas);
    let (u, v) = (data[i].x as int, data[j].x as int);
    assert(a.m > 0 && a.d > 0);
    assert(l.points@[i]@ == l.transform@.apply(sample_point(data[i])));
    assert(l.points@[j]@ == l.transform@.apply(sample_point(data[j])));
    assert((a.m * u + a.b * 1) * (a.d * 1) <= (a.m * v + a.b * 1) * (a.d * 1)) by (nonlinear_arith)
        requires
            a.m > 0,
            a.d > 0,
            u <= v,
    ;
}

/// The transform of a layout is undone by its inverse: mapping any point to
/// the screen and back gives the same point.
pub proof fn lemma_layout_transform_round_trip(
    l: ChartLayout,
    data: Seq<DataSample>,
    canvas: Canvas,
    unit: int,
    p: PointModel,
)
    requires
        l.of(data, canvas, unit),
        p.x.den > 0,
        p.y.den > 0,
    ensures
        l.transform@.inverse().apply(l.transform@.apply(p)).eqv(p),
{
    crate::transform::lemma_inverse_undoes_apply(l.transform@, p);
}

/// The edges of the plot area map back to the extreme data values: the left
/// edge to `min_x` and the bottom edge to `min_y` always; the right edge to
/// `max_x` and the top edge to `max_y` whenever the samples span a range on
/// that axis.
pub proof fn lemma_plot_edges_map_back(b: Bounds, c: Canvas)
    requires
        b.in_range(),
        c.wf(),
    ensures
        x_axis_of(b, c).inverse().apply(Ratio::of_int(c.padding as int)).eqv(
            Ratio::of_int(b.min_x as int),
        ),
        b.max_x > b.min_x ==> x_axis_of(b, c).inverse().apply(
            Ratio::of_int(c.width - c.padding),
        ).eqv(Ratio::of_int(b.max_x as int)),
        y_axis_of(b, c).inverse().apply(Ratio::of_int(c.height - c.padding)).eqv(
            Ratio::of_int(b.min_y as int),
        ),
        b.max_y > b.min_y ==> y_axis_of(b, c).inverse().apply(
            Ratio::of_int(c.padding as int),
        ).eqv(Ratio::of_int(b.max_y as int)),
{
    let (p, w, h) = (c.padding as int, c.width as int, c.height as int);
    let (pw, ph) = (c.plot_width(), c.plot_height());
    let (x0, x1, y0, y1) = (b.min_x as int, b.max_x as int, b.min_y as int, b.max_y as int);
    if x1 > x0 {
        let rx = x1 - x0;
        assert((rx * p + (-(p * rx - x0 * pw)) * 1) * 1 == x0 * (pw * 1)) by (nonlinear_arith);
        assert((rx * (w - p) + (-(p * rx - x0 * pw)) * 1) * 1 == x1 * (pw * 1))
            by (nonlinear_arith)
            requires
                pw == w - 2 * p,
                rx == x1 - x0,
        ;
    }
    if y1 > y0 {
        let ry = y1 - y0;
        assert((-ry * (h - p) + ((h - p) * ry + y0 * ph) * 1) * 1 == y0 * (ph * 1))
            by (nonlinear_arith);
        assert((-ry * p + ((h - p) * ry + y0 * ph) * 1) * 1 == y1 * (ph * 1)) by (nonlinear_arith)
            requires
                ph == h - 2 * p,
                ry == y1 - y0,
        ;
    }
}

pub open spec fn clamp(v: int, lo: int, hi: int) -> int {
    if v > hi {
        hi
    } else if v < lo {
        lo
    } else {
        v
    }
}

/// `v`, brought into `[lo, hi]`.
pub fn clamp_coord(v: i64, lo: i64, hi: i64) -> (r: i64)
    requires
        lo <= hi,
    ensures
        r == clamp(v as int, lo as int, hi as int),
        lo <= r <= hi,
{
    if v > hi {
        hi
    } else if v < lo {
        lo
    } else {
        v
    }
}

/// The guide lines under the pointer and the data value they point at.
#[derive(Clone, Copy, Debug, PartialEq, Eq, Structural)]
pub struct Crosshair {
    /// Screen position of the vertical guide line.
    pub x: i64,
    /// Screen position of the horizontal guide line.
    pub y: i64,
    /// The data coordinates at `(x, y)`.
    pub value: Point,
}

/// The crosshair for a pointer at `(px, py)`, or `None` while it is not
/// enabled. The pointer is first clamped into the plot area, so that a
/// pointer outside it reads the value at the nearest edge.
pub fn crosshair(layout: &ChartLayout, canvas: &Canvas, enabled: bool, px: i64, py: i64) -> (r:
    Option<Crosshair>)
    requires
        canvas.wf(),
        layout.bounds.in_range(),
        layout.transform@ == chart_transform_of(layout.bounds, *canvas),
        layout.transform.bounded(),
    ensures
        r is None <==> !enabled,
        r matches Some(c) ==> {
            let b = layout.bounds;
            let v = c.value@;
            &&& c.x == clamp(px as int, canvas.padding as int, canvas.width - canvas.padding)
            &&& c.y == clamp(py as int, canvas.padding as int, canvas.height - canvas.padding)
            &&& v == layout.transform@.inverse().apply(
                PointModel {
                    x: Ratio::of_int(c.x as int),
                    y: Ratio::of_int(c.y as int),
                },
            )
            &&& px <= canvas.padding ==> v.x.eqv(Ratio::of_int(b.min_x as int))
            &&& px >= canvas.width - canvas.padding && b.max_x > b.min_x ==> v.x.eqv(
                Ratio::of_int(b.max_x as int),
            )
            &&& py >= canvas.height - canvas.padding ==> v.y.eqv(Ratio::of_int(b.min_y as int))
            &&& py <= canvas.padding && b.max_y > b.min_y ==> v.y.eqv(
                Ratio::of_int(b.max_y as int),
            )
        },
{
    if !enabled {
        return None;
    }
    let x = clamp_coord(px, canvas.padding, canvas.width - canvas.padding);
    let y = clamp_coord(py, canvas.padding, canvas.height - canvas.padding);
    let value = layout.transform.apply_inverse(&Point::from_ints(x, y));
    proof {
        lemma_plot_edges_map_back(layout.bounds, *canvas);
    }
    Some(Crosshair { x, y, value })
}

/// The selection flags after the sample at `index` was entered (`on`) or
/// left (`!on`): at most that one sample is selected.
pub open spec fn selection_after(len: nat, index: int, on: bool) -> Seq<bool> {
    Seq::new(len, |k: int| k == index && on)
}

/// Marks the sample at `index` as selected or not, and every other sample as
/// not selected.
pub fn set_selected(flags: &mut Vec<bool>, index: usize, is_selected: bool)
    requires
        index < old(flags)@.len(),
    ensures
        final(flags)@ == selection_after(old(flags)@.len(), index as int, is_selected),
{
    let ghost len = flags@.len();
    let mut i: usize = 0;
    while i < flags.len()
        invariant
            flags@.len() == len,
            i <= len,
            forall|k: int| 0 <= k < i ==> #[trigger] flags@[k] == (k == index && is_selected),
        decreases len - i,
    {
        flags.set(i, i == index && is_selected);
        i = i + 1;
    }
    assert(flags@ =~= selection_after(len, index as int, is_selected));
}

/// Selecting one sample and then another leaves only the second selected;
/// selecting a sample and then leaving it leaves none selected.
pub proof fn lemma_single_selection(len: nat, i: int, j: int)
    requires
        0 <= i < len,
        0 <= j < len,
        i != j,
    ensures
        ({
            let after = selection_after(selection_after(len, i, true).len(), j, true);
            forall|k: int| 0 <= k < len ==> (after[k] <==> k == j)
        }),
        ({
            let after = selection_after(selection_after(len, i, true).len(), i, false);
            forall|k: int| 0 <= k < len ==> !after[k]
        }),
{
}

/// The radius of a sample's marker: larger while it is selected.
pub fn marker_radius(selected: bool) -> (r: i64)
    ensures
        r == (if selected {
            10int
        } else {
            5int
        }),
{
    if selected {
        10
    } else {
        5
    }
}

} // verus!
