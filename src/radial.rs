use vstd::prelude::*;
use vstd::arithmetic::div_mod::lemma_fundamental_div_mod_converse;
use crate::vec2d::Vec2D;

verus! {

pub const MIN_SQUARE_SIZE: i64 = 1;
pub const MAX_SQUARE_SIZE: i64 = 1000;
pub const MIN_LINE_COUNT: i64 = 1;
pub const MAX_LINE_COUNT: i64 = 200;

pub open spec fn valid_params(square_size: int, line_count: int) -> bool {
    MIN_SQUARE_SIZE <= square_size <= MAX_SQUARE_SIZE && MIN_LINE_COUNT <= line_count
        <= MAX_LINE_COUNT
}

/// Centre of the square, on both axes.
pub open spec fn center_of(size: int) -> int {
    size / 2
}

/// `size * 0.05`, rounded to the nearest integer (halves up).
pub open spec fn lower_border_of(size: int) -> int {
    (size * 5 + 50) / 100
}

/// `size * 0.95`, rounded to the nearest integer (halves up).
pub open spec fn higher_border_of(size: int) -> int {
    (size * 95 + 50) / 100
}

/// Twice the distance from the centre to each corner of the figure:
/// `2 * (size / 2 - lower_border)`, an integer even when `size` is odd.
pub open spec fn double_radius(size: int) -> int {
    size - 2 * lower_border_of(size)
}

/// The factor by which the coordinates of the ray endpoints are scaled so
/// that they are integers: `2 * (line_count + 1)`.
pub open spec fn scale_of(line_count: int) -> int {
    2 * (line_count + 1)
}

/// The unit vector from the centre to the first corner of segment `g`.
pub open spec fn origin_dir(g: int) -> (int, int) {
    if g == 0 {
        (1, 0)
    } else if g == 1 {
        (0, -1)
    } else if g == 2 {
        (-1, 0)
    } else {
        (0, 1)
    }
}

/// The direction along segment `g`, from its first corner to its second.
pub open spec fn border_dir(g: int) -> (int, int) {
    if g == 0 {
        (-1, -1)
    } else if g == 1 {
        (-1, 1)
    } else if g == 2 {
        (1, 1)
    } else {
        (1, -1)
    }
}

/// Endpoint `k` of the figure, scaled by `scale_of(line_count)`: the
/// `(k % line_count + 1)`-th of the `line_count` points that split segment
/// `k / line_count` into `line_count + 1` equal parts.
pub open spec fn ray_point(size: int, line_count: int, k: int) -> (int, int) {
    let g = k / line_count;
    let i = k % line_count + 1;
    let s = scale_of(line_count);
    let c = s * center_of(size);
    let r = double_radius(size);
    (
        c + origin_dir(g).0 * ((line_count + 1) * r) + border_dir(g).0 * (r * i),
        c + origin_dir(g).1 * ((line_count + 1) * r) + border_dir(g).1 * (r * i),
    )
}

/// The signs of the offsets from the centre of the points of segment `g`:
/// the quadrant that the segment crosses.
pub open spec fn quadrant_of(g: int) -> (int, int) {
    if g == 0 {
        (1, -1)
    } else if g == 1 {
        (-1, -1)
    } else if g == 2 {
        (-1, 1)
    } else {
        (1, 1)
    }
}

pub open spec fn abs(v: int) -> int {
    if v < 0 {
        -v
    } else {
        v
    }
}

/// The endpoints of the rays of the figure, with the borders it is framed by.
#[derive(Clone, Debug, PartialEq, Eq)]
pub struct RadialFigure {
    pub center: i64,
    pub lower_border: i64,
    pub higher_border: i64,
    /// The coordinates of `points` are these many times the true ones.
    pub scale: i64,
    pub points: Vec<Vec2D>,
}

fn directions(g: usize) -> (r: (Vec2D, Vec2D))
    requires
        g < 4,
    ensures
        (r.0.x as int, r.0.y as int) == origin_dir(g as int),
        (r.1.x as int, r.1.y as int) == border_dir(g as int),
{
    if g == 0 {
        (Vec2D { x: 1, y: 0 }, Vec2D { x: -1, y: -1 })
    } else if g == 1 {
        (Vec2D { x: 0, y: -1 }, Vec2D { x: -1, y: 1 })
    } else if g == 2 {
        (Vec2D { x: -1, y: 0 }, Vec2D { x: 1, y: 1 })
    } else {
        (Vec2D { x: 0, y: 1 }, Vec2D { x: 1, y: -1 })
    }
}

/// Computes the endpoints of `4 * line_count` rays from the centre of a square
/// of side `square_size`: on each of the four segments that join the ends of
/// the half-axes, `line_count` points that split it evenly, ends excluded.
pub fn radial_figure(square_size: i64, line_count: i64) -> (r: RadialFigure)
    requires
        valid_params(square_size as int, line_count as int),
    ensures
        r.center == center_of(square_size as int),
        r.lower_border == lower_border_of(square_size as int),
        r.higher_border == higher_border_of(square_size as int),
        r.scale == scale_of(line_count as int),
        r.points@.len() == 4 * line_count,
        forall|k: int|
            0 <= k < r.points@.len() ==> (r.points@[k].x as int, r.points@[k].y as int)
                == #[trigger] ray_point(square_size as int, line_count as int, k),
{
    let n = line_count;
    let center = square_size / 2;
    let lower_border = (square_size * 5 + 50) / 100;
    let higher_border = (square_size * 95 + 50) / 100;
    let scale = 2 * (n + 1);
    let r2 = square_size - 2 * lower_border;
    let mut points: Vec<Vec2D> = Vec::new();
    assert(0 <= scale * center <= 201_000) by (nonlinear_arith)
        requires
            scale == 2 * (n + 1),
            1 <= n <= 200,
            0 <= center <= 500,
    ;
    let c = Vec2D { x: scale * center, y: scale * center };
    let mut g: usize = 0;
    while g < 4
        invariant
            valid_params(square_size as int, n as int),
            g <= 4,
            r2 == double_radius(square_size as int),
            scale == scale_of(n as int),
            c.x == scale * center_of(square_size as int),
            c.y == c.x,
            points@.len() == g * n,
            forall|k: int|
                0 <= k < points@.len() ==> (points@[k].x as int, points@[k].y as int)
                    == #[trigger] ray_point(square_size as int, n as int, k),
        decreases 4 - g,
    {
        let (va, vb) = directions(g);
        assert(0 <= r2 <= 1000);
        assert(0 <= (n + 1) * r2 <= 201_000) by (nonlinear_arith)
            requires
                0 <= r2 <= 1000,
                1 <= n <= 200,
        ;
        assert(0 <= c.x <= 201_000) by (nonlinear_arith)
            requires
                c.x == scale * center_of(square_size as int),
                scale == 2 * (n + 1),
                1 <= n <= 200,
                0 <= center_of(square_size as int) <= 500,
        ;
        let origin = va.mul((n + 1) * r2).add(c);
        let mut i: i64 = 1;
        while i <= n
            invariant
                valid_params(square_size as int, n as int),
                g < 4,
                1 <= i <= n + 1,
                0 <= r2 <= 1000,
                r2 == double_radius(square_size as int),
                scale == scale_of(n as int),
                c.x == scale * center_of(square_size as int),
                c.y == c.x,
                0 <= c.x <= 201_000,
                (va.x as int, va.y as int) == origin_dir(g as int),
                (vb.x as int, vb.y as int) == border_dir(g as int),
                origin.x == c.x + va.x * ((n + 1) * r2),
                origin.y == c.y + va.y * ((n + 1) * r2),
                points@.len() == g * n + i - 1,
                forall|k: int|
                    0 <= k < points@.len() ==> (points@[k].x as int, points@[k].y as int)
                        == #[trigger] ray_point(square_size as int, n as int, k),
            decreases n + 1 - i,
        {
            assert(0 <= r2 * i <= 200_000) by (nonlinear_arith)
                requires
                    0 <= r2 <= 1000,
                    1 <= i <= 200,
            ;
            let p = origin.add(vb.mul(r2 * i));
            proof {
                let k = points@.len() as int;
                lemma_fundamental_div_mod_converse(k, n as int, g as int, i - 1);
            }
            points.push(p);
            i = i + 1;
        }
        assert(points@.len() == (g + 1) * n) by (nonlinear_arith)
            requires
                points@.len() == g * n + n,
        ;
        g = g + 1;
    }
    RadialFigure { center, lower_border, higher_border, scale, points }
}

/// Every endpoint lies on the border of the figure, strictly between the
/// ends of two half-axes: its distances from the centre along the two axes
/// add up to the figure's radius, and neither of them is zero; the point lies
/// in the quadrant of its segment. Coordinates, centre and radius are all
/// taken at the figure's scale.
pub proof fn lemma_ray_points_on_border(size: int, line_count: int, k: int)
    requires
        valid_params(size, line_count),
        0 <= k < 4 * line_count,
    ensures
        double_radius(size) > 0,
        ({
            let p = ray_point(size, line_count, k);
            let c = scale_of(line_count) * center_of(size);
            &&& abs(p.0 - c) + abs(p.1 - c) == (line_count + 1) * double_radius(size)
            &&& p.0 != c
            &&& p.1 != c
            &&& (p.0 - c) * quadrant_of(k / line_count).0 > 0
            &&& (p.1 - c) * quadrant_of(k / line_count).1 > 0
        }),
{
    let n = line_count;
    let r = double_radius(size);
    let g = k / n;
    let i = k % n + 1;
    vstd::arithmetic::div_mod::lemma_fundamental_div_mod(k, n);
    assert(0 <= g < 4) by (nonlinear_arith)
        requires
            k == n * g + (i - 1),
            1 <= i <= n,
            0 <= k < 4 * n,
    ;
    assert(r > 0);
    assert(0 < r * i < (n + 1) * r && (n + 1) * r - r * i > 0) by (nonlinear_arith)
        requires
            r > 0,
            1 <= i <= n,
    ;
    let a = (n + 1) * r;
    let b = r * i;
    let p = ray_point(size, n, k);
    let c = scale_of(n) * center_of(size);
    assert(p.0 - c == origin_dir(g).0 * a + border_dir(g).0 * b);
    assert(p.1 - c == origin_dir(g).1 * a + border_dir(g).1 * b);
    assert(1 * a == a && -1 * a == -a && 0 * a == 0 && 1 * b == b && -1 * b == -b);
    if g == 0 {
        assert(p.0 - c == a - b && p.1 - c == -b);
        assert((p.0 - c) * 1 == a - b && (p.1 - c) * -1 == b);
    } else if g == 1 {
        assert(p.0 - c == -b && p.1 - c == -a + b);
        assert((p.0 - c) * -1 == b && (p.1 - c) * -1 == a - b);
    } else if g == 2 {
        assert(p.0 - c == -a + b && p.1 - c == b);
        assert((p.0 - c) * -1 == a - b && (p.1 - c) * 1 == b);
    } else {
        assert(p.0 - c == b && p.1 - c == a - b);
        assert((p.0 - c) * 1 == b && (p.1 - c) * 1 == a - b);
    }
}

} // verus!
