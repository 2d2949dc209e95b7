//! Screen-space rasterization: bounding boxes, barycentric weights and the
//! set of pixels that a triangle covers.
use vstd::prelude::*;

verus! {

/// A pixel position in screen space; `y` grows upward.
#[derive(Clone, Copy, Debug, PartialEq, Eq, Structural)]
pub struct ScreenPoint {
    pub x: i32,
    pub y: i32,
}

impl ScreenPoint {
    pub fn new(x: i32, y: i32) -> (r: ScreenPoint)
        ensures
            r.x == x,
            r.y == y,
    {
        ScreenPoint { x, y }
    }
}

/// Barycentric weights as exact rationals over a shared positive denominator:
/// the weights of the three vertices are `w0 / denom`, `w1 / denom` and `w2 / denom`.
#[derive(Clone, Copy, Debug, PartialEq, Eq, Structural)]
pub struct Barycentric {
    pub w0: i128,
    pub w1: i128,
    pub w2: i128,
    pub denom: i128,
}

impl Barycentric {
    pub open spec fn tuple(self) -> (int, int, int, int) {
        (self.w0 as int, self.w1 as int, self.w2 as int, self.denom as int)
    }

    /// The point lies in the closed triangle: no weight is negative.
    pub open spec fn inside_spec(self) -> bool {
        self.w0 >= 0 && self.w1 >= 0 && self.w2 >= 0
    }

    pub fn is_inside(&self) -> (r: bool)
        ensures
            r == self.inside_spec(),
    {
        self.w0 >= 0 && self.w1 >= 0 && self.w2 >= 0
    }
}

/// The cross product of `(c.x-a.x, b.x-a.x, a.x-p.x)` and `(c.y-a.y, b.y-a.y, a.y-p.y)`.
pub open spec fn edge_cross(p: ScreenPoint, a: ScreenPoint, b: ScreenPoint, c: ScreenPoint) -> (int, int, int) {
    let l0 = c.x - a.x;
    let l1 = b.x - a.x;
    let l2 = a.x - p.x;
    let m0 = c.y - a.y;
    let m1 = b.y - a.y;
    let m2 = a.y - p.y;
    (l1 * m2 - l2 * m1, l2 * m0 - l0 * m2, l0 * m1 - l1 * m0)
}

/// Twice the signed area of the triangle (up to sign convention).
pub open spec fn doubled_area(a: ScreenPoint, b: ScreenPoint, c: ScreenPoint) -> int {
    (c.x - a.x) * (b.y - a.y) - (b.x - a.x) * (c.y - a.y)
}

/// The three vertices lie on one line: the triangle has no area.
pub open spec fn collinear(a: ScreenPoint, b: ScreenPoint, c: ScreenPoint) -> bool {
    doubled_area(a, b, c) == 0
}

/// The weights returned for a degenerate triangle: a negative component marks
/// the point as outside.
pub open spec fn rejected() -> (int, int, int, int) {
    (-1, 0, -1, 1)
}

/// Barycentric weights of `p` in `(a, b, c)`: `(1 - (u+v)/z, v/z, u/z)` for the
/// cross product `(u, v, z)`, with the sign of `z` moved into the numerators.
pub open spec fn barycentric_spec(p: ScreenPoint, a: ScreenPoint, b: ScreenPoint, c: ScreenPoint) -> (int, int, int, int) {
    let (u, v, z) = edge_cross(p, a, b, c);
    if z == 0 {
        rejected()
    } else if z > 0 {
        (z - u - v, v, u, z)
    } else {
        (u + v - z, -v, -u, -z)
    }
}

pub open spec fn inside_tuple(w: (int, int, int, int)) -> bool {
    w.0 >= 0 && w.1 >= 0 && w.2 >= 0
}

const COORD_BOUND: i128 = 0x2_0000_0000;

/// `l * m - n * k` on values of at most 34 bits.
fn cross_term(l: i128, m: i128, n: i128, k: i128) -> (r: i128)
    requires
        -COORD_BOUND <= l <= COORD_BOUND,
        -COORD_BOUND <= m <= COORD_BOUND,
        -COORD_BOUND <= n <= COORD_BOUND,
        -COORD_BOUND <= k <= COORD_BOUND,
    ensures
        r == l * m - n * k,
        -0x8_0000_0000_0000_0000 <= r <= 0x8_0000_0000_0000_0000,
{
    assert(-0x4_0000_0000_0000_0000 <= l * m <= 0x4_0000_0000_0000_0000) by (nonlinear_arith)
        requires
            -COORD_BOUND <= l <= COORD_BOUND,
            -COORD_BOUND <= m <= COORD_BOUND,
    ;
    assert(-0x4_0000_0000_0000_0000 <= n * k <= 0x4_0000_0000_0000_0000) by (nonlinear_arith)
        requires
            -COORD_BOUND <= n <= COORD_BOUND,
            -COORD_BOUND <= k <= COORD_BOUND,
    ;
    l * m - n * k
}

/// Barycentric weights of `p` in the triangle `(a, b, c)`. A degenerate
/// triangle gives weights with a negative component, so that no point is
/// classified inside it.
pub fn barycentric(p: &ScreenPoint, a: &ScreenPoint, b: &ScreenPoint, c: &ScreenPoint) -> (r: Barycentric)
    ensures
        r.tuple() == barycentric_spec(*p, *a, *b, *c),
        r.denom > 0,
{
    let l0 = c.x as i128 - a.x as i128;
    let l1 = b.x as i128 - a.x as i128;
    let l2 = a.x as i128 - p.x as i128;
    let m0 = c.y as i128 - a.y as i128;
    let m1 = b.y as i128 - a.y as i128;
    let m2 = a.y as i128 - p.y as i128;
    let u = cross_term(l1, m2, l2, m1);
    let v = cross_term(l2, m0, l0, m2);
    let z = cross_term(l0, m1, l1, m0);
    if z == 0 {
        Barycentric { w0: -1, w1: 0, w2: -1, denom: 1 }
    } else if z > 0 {
        Barycentric { w0: z - u - v, w1: v, w2: u, denom: z }
    } else {
        Barycentric { w0: u + v - z, w1: -v, w2: -u, denom: -z }
    }
}


pub open spec fn min3(a: int, b: int, c: int) -> int {
    if a <= b && a <= c { a } else if b <= c { b } else { c }
}

pub open spec fn max3(a: int, b: int, c: int) -> int {
    if a >= b && a >= c { a } else if b >= c { b } else { c }
}

/// The pixels of a `width` by `height` canvas that lie in the axis-aligned box
/// of the triangle: the triangle's box clamped to `[0, width-1] x [0, height-1]`.
pub open spec fn in_clamped_box(a: ScreenPoint, b: ScreenPoint, c: ScreenPoint, width: int, height: int, x: int, y: int) -> bool {
    &&& 0 <= x < width
    &&& 0 <= y < height
    &&& min3(a.x as int, b.x as int, c.x as int) <= x <= max3(a.x as int, b.x as int, c.x as int)
    &&& min3(a.y as int, b.y as int, c.y as int) <= y <= max3(a.y as int, b.y as int, c.y as int)
}

pub open spec fn point_at(x: int, y: int) -> ScreenPoint {
    ScreenPoint { x: x as i32, y: y as i32 }
}

/// Pixel `(x, y)` is drawn for the triangle: it lies in the clamped box and
/// inside the triangle.
pub open spec fn covers(a: ScreenPoint, b: ScreenPoint, c: ScreenPoint, width: int, height: int, x: int, y: int) -> bool {
    &&& in_clamped_box(a, b, c, width, height, x, y)
    &&& inside_tuple(barycentric_spec(point_at(x, y), a, b, c))
}

/// An inclusive pixel range `[min_x, max_x] x [min_y, max_y]`.
#[derive(Clone, Copy, Debug, PartialEq, Eq, Structural)]
pub struct BoundingBox {
    pub min_x: usize,
    pub max_x: usize,
    pub min_y: usize,
    pub max_y: usize,
}

fn min_of3(a: i32, b: i32, c: i32) -> (r: i32)
    ensures
        r == min3(a as int, b as int, c as int),
{
    if a <= b && a <= c { a } else if b <= c { b } else { c }
}

fn max_of3(a: i32, b: i32, c: i32) -> (r: i32)
    ensures
        r == max3(a as int, b as int, c as int),
{
    if a >= b && a >= c { a } else if b >= c { b } else { c }
}

/// `[max(lo, 0), min(hi, size - 1)]`, or `None` where that range is empty.
fn clamp_range(lo: i32, hi: i32, size: usize) -> (r: Option<(usize, usize)>)
    ensures
        r is None <==> (if lo >= 0 { lo as int } else { 0 }) > (if hi <= size - 1 { hi as int } else { size - 1 }),
        r matches Some((l, h)) ==> l == (if lo >= 0 { lo as int } else { 0 }) && h == (if hi <= size - 1 { hi as int } else { size - 1 }),
{
    if size == 0 || hi < 0 {
        return None;
    }
    let l: usize = if lo >= 0 { lo as usize } else { 0 };
    let h: usize = if (hi as usize) <= size - 1 { hi as usize } else { size - 1 };
    if l > h {
        None
    } else {
        Some((l, h))
    }
}

/// The triangle's axis-aligned box clamped to the canvas, or `None` where no
/// pixel of the canvas lies in it.
pub fn bounding_box(a: &ScreenPoint, b: &ScreenPoint, c: &ScreenPoint, width: usize, height: usize) -> (r: Option<BoundingBox>)
    ensures
        r is None <==> forall|x: int, y: int| !in_clamped_box(*a, *b, *c, width as int, height as int, x, y),
        r matches Some(bb) ==> bb.min_x <= bb.max_x < width && bb.min_y <= bb.max_y < height,
        r matches Some(bb) ==> forall|x: int, y: int|
            in_clamped_box(*a, *b, *c, width as int, height as int, x, y)
                <==> (bb.min_x <= x <= bb.max_x && bb.min_y <= y <= bb.max_y),
{
    let rx = clamp_range(min_of3(a.x, b.x, c.x), max_of3(a.x, b.x, c.x), width);
    let ry = clamp_range(min_of3(a.y, b.y, c.y), max_of3(a.y, b.y, c.y), height);
    match (rx, ry) {
        (Some((min_x, max_x)), Some((min_y, max_y))) => {
            assert(in_clamped_box(*a, *b, *c, width as int, height as int, min_x as int, min_y as int));
            Some(BoundingBox { min_x, max_x, min_y, max_y })
        },
        _ => {
            assert forall|x: int, y: int| !in_clamped_box(*a, *b, *c, width as int, height as int, x, y) by {
                if in_clamped_box(*a, *b, *c, width as int, height as int, x, y) {
                    assert(rx is Some);
                    assert(ry is Some);
                }
            }
            None
        },
    }
}

/// A covered pixel and its barycentric weights.
#[derive(Clone, Copy, Debug, PartialEq, Eq, Structural)]
pub struct Fragment {
    pub x: usize,
    pub y: usize,
    pub weights: Barycentric,
}

/// Pixel `(x, y)` comes strictly before `(x2, y2)` in column-major order.
pub open spec fn before(x: int, y: int, x2: int, y2: int) -> bool {
    x < x2 || (x == x2 && y < y2)
}

/// The fragments of the triangle `(a, b, c)` on a `width` by `height` canvas:
/// every covered pixel exactly once, in column-major order, with its weights.
pub fn rasterize(a: &ScreenPoint, b: &ScreenPoint, c: &ScreenPoint, width: usize, height: usize) -> (r: Vec<Fragment>)
    ensures
        forall|i: int| 0 <= i < r@.len() ==> {
            &&& covers(*a, *b, *c, width as int, height as int, #[trigger] r@[i].x as int, r@[i].y as int)
            &&& r@[i].weights.tuple() == barycentric_spec(point_at(r@[i].x as int, r@[i].y as int), *a, *b, *c)
        },
        forall|i: int, j: int| 0 <= i < j < r@.len() ==> before(r@[i].x as int, r@[i].y as int, r@[j].x as int, r@[j].y as int),
        forall|x: int, y: int| #[trigger] covers(*a, *b, *c, width as int, height as int, x, y)
            ==> exists|i: int| 0 <= i < r@.len() && r@[i].x == x && r@[i].y == y,
        collinear(*a, *b, *c) ==> r@.len() == 0,
{
    proof {
        if collinear(*a, *b, *c) {
            assert forall|x: int, y: int| !covers(*a, *b, *c, width as int, height as int, x, y) by {
                lemma_collinear_covers_nothing(*a, *b, *c, width as int, height as int, x, y);
            }
        }
    }
    let mut out: Vec<Fragment> = Vec::new();
    let bb = match bounding_box(a, b, c, width, height) {
        None => return out,
        Some(bb) => bb,
    };
    let mut x: usize = bb.min_x;
    while x <= bb.max_x
        invariant
            bb.min_x <= x <= bb.max_x + 1,
            bb.max_x < width,
            bb.min_y <= bb.max_y < height,
            forall|px: int, py: int|
                in_clamped_box(*a, *b, *c, width as int, height as int, px, py)
                    <==> (bb.min_x <= px <= bb.max_x && bb.min_y <= py <= bb.max_y),
            forall|i: int| 0 <= i < out@.len() ==> {
                &&& covers(*a, *b, *c, width as int, height as int, #[trigger] out@[i].x as int, out@[i].y as int)
                &&& out@[i].weights.tuple() == barycentric_spec(point_at(out@[i].x as int, out@[i].y as int), *a, *b, *c)
                &&& out@[i].x < x
            },
            forall|i: int, j: int| 0 <= i < j < out@.len() ==> before(out@[i].x as int, out@[i].y as int, out@[j].x as int, out@[j].y as int),
            forall|px: int, py: int| #[trigger] covers(*a, *b, *c, width as int, height as int, px, py) && px < x
                ==> exists|i: int| 0 <= i < out@.len() && out@[i].x == px && out@[i].y == py,
        decreases bb.max_x + 1 - x,
    {
        let mut y: usize = bb.min_y;
        while y <= bb.max_y
            invariant
                bb.min_x <= x <= bb.max_x,
                bb.max_x < width,
                bb.min_y <= bb.max_y < height,
                bb.min_y <= y <= bb.max_y + 1,
                forall|px: int, py: int|
                    in_clamped_box(*a, *b, *c, width as int, height as int, px, py)
                        <==> (bb.min_x <= px <= bb.max_x && bb.min_y <= py <= bb.max_y),
                forall|i: int| 0 <= i < out@.len() ==> {
                    &&& covers(*a, *b, *c, width as int, height as int, #[trigger] out@[i].x as int, out@[i].y as int)
                    &&& out@[i].weights.tuple() == barycentric_spec(point_at(out@[i].x as int, out@[i].y as int), *a, *b, *c)
                    &&& before(out@[i].x as int, out@[i].y as int, x as int, y as int)
                },
                forall|i: int, j: int| 0 <= i < j < out@.len() ==> before(out@[i].x as int, out@[i].y as int, out@[j].x as int, out@[j].y as int),
                forall|px: int, py: int| #[trigger] covers(*a, *b, *c, width as int, height as int, px, py) && before(px, py, x as int, y as int)
                    ==> exists|i: int| 0 <= i < out@.len() && out@[i].x == px && out@[i].y == py,
            decreases bb.max_y + 1 - y,
        {
            assert(in_clamped_box(*a, *b, *c, width as int, height as int, x as int, y as int));
            let p = ScreenPoint::new(x as i32, y as i32);
            let w = barycentric(&p, a, b, c);
            if w.is_inside() {
                let ghost prev = out@;
                out.push(Fragment { x, y, weights: w });
                assert forall|px: int, py: int| #[trigger] covers(*a, *b, *c, width as int, height as int, px, py)
                    && before(px, py, x as int, y as int + 1)
                    implies exists|i: int| 0 <= i < out@.len() && out@[i].x == px && out@[i].y == py by {
                    if px == x && py == y {
                        assert(out@[prev.len() as int].x == px);
                    } else {
                        let i = choose|i: int| 0 <= i < prev.len() && prev[i].x == px && prev[i].y == py;
                        assert(out@[i] == prev[i]);
                    }
                }
            }
            y = y + 1;
        }
        x = x + 1;
    }
    proof {
        if collinear(*a, *b, *c) && out@.len() > 0 {
            lemma_collinear_covers_nothing(*a, *b, *c, width as int, height as int, out@[0].x as int, out@[0].y as int);
        }
    }
    out
}


/// The third component of the cross product does not depend on the point: it
/// is the triangle's doubled area.
proof fn lemma_cross_z(p: ScreenPoint, a: ScreenPoint, b: ScreenPoint, c: ScreenPoint)
    ensures
        edge_cross(p, a, b, c).2 == doubled_area(a, b, c),
{
}

/// A triangle whose vertices are collinear covers no pixel.
pub proof fn lemma_collinear_covers_nothing(a: ScreenPoint, b: ScreenPoint, c: ScreenPoint, width: int, height: int, x: int, y: int)
    requires
        collinear(a, b, c),
    ensures
        !covers(a, b, c, width, height, x, y),
{
    lemma_cross_z(point_at(x, y), a, b, c);
}

/// Wherever the triangle is not degenerate, the three weights of any point sum
/// to one: their numerators sum to the positive denominator.
pub proof fn lemma_weights_sum_to_one(p: ScreenPoint, a: ScreenPoint, b: ScreenPoint, c: ScreenPoint)
    requires
        !collinear(a, b, c),
    ensures
        barycentric_spec(p, a, b, c).0 + barycentric_spec(p, a, b, c).1 + barycentric_spec(p, a, b, c).2
            == barycentric_spec(p, a, b, c).3,
        barycentric_spec(p, a, b, c).3 > 0,
{
    lemma_cross_z(p, a, b, c);
}

/// Each vertex of a non-degenerate triangle has weight one for itself and zero
/// for the other two; its centroid, where it is a pixel, has weight one third
/// for each vertex.
pub proof fn lemma_vertex_and_centroid_weights(a: ScreenPoint, b: ScreenPoint, c: ScreenPoint, g: ScreenPoint)
    requires
        !collinear(a, b, c),
    ensures
        barycentric_spec(a, a, b, c).0 == barycentric_spec(a, a, b, c).3,
        barycentric_spec(a, a, b, c).1 == 0,
        barycentric_spec(a, a, b, c).2 == 0,
        barycentric_spec(b, a, b, c).0 == 0,
        barycentric_spec(b, a, b, c).1 == barycentric_spec(b, a, b, c).3,
        barycentric_spec(b, a, b, c).2 == 0,
        barycentric_spec(c, a, b, c).0 == 0,
        barycentric_spec(c, a, b, c).1 == 0,
        barycentric_spec(c, a, b, c).2 == barycentric_spec(c, a, b, c).3,
        3 * g.x == a.x + b.x + c.x && 3 * g.y == a.y + b.y + c.y ==> {
            &&& barycentric_spec(g, a, b, c).0 == barycentric_spec(g, a, b, c).1
            &&& barycentric_spec(g, a, b, c).1 == barycentric_spec(g, a, b, c).2
            &&& 3 * barycentric_spec(g, a, b, c).0 == barycentric_spec(g, a, b, c).3
        },
{
    lemma_cross_z(a, a, b, c);
    lemma_cross_z(b, a, b, c);
    lemma_cross_z(c, a, b, c);
    lemma_cross_z(g, a, b, c);
    let l0 = c.x - a.x;
    let l1 = b.x - a.x;
    let m0 = c.y - a.y;
    let m1 = b.y - a.y;
    assert(l1 * -m1 - -l1 * m1 == 0) by (nonlinear_arith);
    assert(-l1 * m0 - l0 * -m1 == l0 * m1 - l1 * m0) by (nonlinear_arith);
    assert(l1 * -m0 - -l0 * m1 == l0 * m1 - l1 * m0) by (nonlinear_arith);
    assert(-l0 * m0 - l0 * -m0 == 0) by (nonlinear_arith);
    if 3 * g.x == a.x + b.x + c.x && 3 * g.y == a.y + b.y + c.y {
        let l2 = a.x - g.x;
        let m2 = a.y - g.y;
        assert(3 * l2 == -(l0 + l1));
        assert(3 * m2 == -(m0 + m1));
        assert(3 * (l1 * m2 - l2 * m1) == l0 * m1 - l1 * m0) by (nonlinear_arith)
            requires
                3 * l2 == -(l0 + l1),
                3 * m2 == -(m0 + m1),
        ;
        assert(3 * (l2 * m0 - l0 * m2) == l0 * m1 - l1 * m0) by (nonlinear_arith)
            requires
                3 * l2 == -(l0 + l1),
                3 * m2 == -(m0 + m1),
        ;
    }
}

} // verus!
