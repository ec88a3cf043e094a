use vstd::prelude::*;

verus! {

/// Width of a table box, in diagram units.
pub const BOX_WIDTH: i64 = 100;

/// Height of a table box, in diagram units.
pub const BOX_HEIGHT: i64 = 50;

/// Spacing of the snapping grid, in diagram units.
pub const GRID: i64 = 10;

/// Zoom factors are held in thousandths: `ZOOM_SCALE` stands for a factor of one.
pub const ZOOM_SCALE: i64 = 1000;

/// Smallest zoom factor (a tenth), in thousandths.
pub const MIN_ZOOM: i64 = 100;

/// Largest zoom factor (ten), in thousandths.
pub const MAX_ZOOM: i64 = 10_000;

/// Largest magnitude of a screen coordinate or of a pan offset.
pub const SCREEN_LIMIT: i64 = 1_000_000_000_000;

/// Largest magnitude of a diagram coordinate.
pub const DIAGRAM_LIMIT: i64 = 100_000_000_000_000;

/// A point, in screen space or in diagram space.
#[derive(Clone, Copy, Debug, PartialEq, Eq, Structural)]
pub struct Point {
    pub x: i64,
    pub y: i64,
}

/// An offset between two points.
#[derive(Clone, Copy, Debug, PartialEq, Eq, Structural)]
pub struct Vector {
    pub x: i64,
    pub y: i64,
}

impl Point {
    pub fn new(x: i64, y: i64) -> (r: Point)
        ensures
            r.x == x,
            r.y == y,
    {
        Point { x, y }
    }
}

impl Vector {
    pub fn new(x: i64, y: i64) -> (r: Vector)
        ensures
            r.x == x,
            r.y == y,
    {
        Vector { x, y }
    }
}

pub open spec fn zoom_ok(zoom: int) -> bool {
    MIN_ZOOM <= zoom <= MAX_ZOOM
}

pub open spec fn screen_coord_ok(v: int) -> bool {
    -SCREEN_LIMIT <= v <= SCREEN_LIMIT
}

pub open spec fn diagram_coord_ok(v: int) -> bool {
    -DIAGRAM_LIMIT <= v <= DIAGRAM_LIMIT
}

pub open spec fn screen_point_ok(p: Point) -> bool {
    screen_coord_ok(p.x as int) && screen_coord_ok(p.y as int)
}

pub open spec fn pan_ok(pan: Vector) -> bool {
    screen_coord_ok(pan.x as int) && screen_coord_ok(pan.y as int)
}

pub open spec fn diagram_point_ok(p: Point) -> bool {
    diagram_coord_ok(p.x as int) && diagram_coord_ok(p.y as int)
}

/// `a / b` rounded up, for a positive `b`.
pub open spec fn ceil_div(a: int, b: int) -> int {
    -((-a) / b)
}

/// One axis of the screen-to-diagram map: `(s - pan) / zoom`, rounded down.
pub open spec fn to_diagram_axis(s: int, pan: int, zoom: int) -> int {
    (s - pan) * 1000 / zoom
}

/// One axis of the diagram-to-screen map: `d * zoom + pan`, rounded up.
pub open spec fn to_screen_axis(d: int, pan: int, zoom: int) -> int {
    ceil_div(d * zoom, 1000) + pan
}

/// The coordinate nearest to `v` on the grid; halves round away from zero.
pub open spec fn snap_spec(v: int) -> int {
    if v >= 0 {
        10 * ((v + 5) / 10)
    } else {
        -(10 * ((-v + 5) / 10))
    }
}

/// Whether `p` lies in the box of a table placed at `pos`, edges included.
pub open spec fn box_contains(pos: Point, p: Point) -> bool {
    &&& pos.x <= p.x <= pos.x + BOX_WIDTH
    &&& pos.y <= p.y <= pos.y + BOX_HEIGHT
}

/// `a / b` rounded down (the quotient of Euclidean division, as `b` is positive).
fn floor_div(a: i64, b: i64) -> (r: i64)
    requires
        b > 0,
        a > i64::MIN,
    ensures
        r == a as int / b as int,
{
    if a >= 0 {
        a / b
    } else {
        let m: i64 = -a - 1;
        let q: i64 = m / b;
        proof {
            let ai = a as int;
            let bi = b as int;
            let mi = m as int;
            let qi = q as int;
            vstd::arithmetic::div_mod::lemma_fundamental_div_mod(mi, bi);
            vstd::arithmetic::div_mod::lemma_fundamental_div_mod(ai, bi);
            let r = mi % bi;
            assert(mi == bi * qi + r);
            assert(0 <= r < bi);
            assert(ai == bi * (-qi - 1) + (bi - 1 - r)) by (nonlinear_arith)
                requires
                    mi == bi * qi + r,
                    mi == -ai - 1,
            ;
            vstd::arithmetic::div_mod::lemma_fundamental_div_mod_converse(
                ai,
                bi,
                -qi - 1,
                bi - 1 - r,
            );
        }
        -q - 1
    }
}

/// Snaps one coordinate to the nearest multiple of the grid spacing.
pub fn snap_coord(v: i64) -> (r: i64)
    requires
        diagram_coord_ok(v as int),
    ensures
        r == snap_spec(v as int),
        diagram_coord_ok(r as int),
{
    if v >= 0 {
        GRID * ((v + 5) / GRID)
    } else {
        -(GRID * ((-v + 5) / GRID))
    }
}

/// Snaps both coordinates of a point to the grid.
pub fn snap_point(p: Point) -> (r: Point)
    requires
        diagram_point_ok(p),
    ensures
        r.x == snap_spec(p.x as int),
        r.y == snap_spec(p.y as int),
        diagram_point_ok(r),
{
    Point { x: snap_coord(p.x), y: snap_coord(p.y) }
}

/// Maps a screen point to diagram space: `(p - pan) / zoom`, with `zoom` in thousandths.
pub fn screen_to_diagram(p: Point, pan: Vector, zoom: i64) -> (r: Point)
    requires
        screen_point_ok(p),
        pan_ok(pan),
        zoom_ok(zoom as int),
    ensures
        r.x == to_diagram_axis(p.x as int, pan.x as int, zoom as int),
        r.y == to_diagram_axis(p.y as int, pan.y as int, zoom as int),
        diagram_point_ok(r),
{
    proof {
        lemma_to_diagram_bounded(p.x as int, pan.x as int, zoom as int);
        lemma_to_diagram_bounded(p.y as int, pan.y as int, zoom as int);
    }
    Point {
        x: floor_div((p.x - pan.x) * ZOOM_SCALE, zoom),
        y: floor_div((p.y - pan.y) * ZOOM_SCALE, zoom),
    }
}

/// Maps a diagram point to screen space: `d * zoom + pan`, with `zoom` in thousandths.
pub fn diagram_to_screen(d: Point, pan: Vector, zoom: i64) -> (r: Point)
    requires
        diagram_point_ok(d),
        pan_ok(pan),
        zoom_ok(zoom as int),
    ensures
        r.x == to_screen_axis(d.x as int, pan.x as int, zoom as int),
        r.y == to_screen_axis(d.y as int, pan.y as int, zoom as int),
{
    proof {
        lemma_to_screen_bounded(d.x as int, zoom as int);
        lemma_to_screen_bounded(d.y as int, zoom as int);
    }
    Point {
        x: -floor_div(-(d.x * zoom), ZOOM_SCALE) + pan.x,
        y: -floor_div(-(d.y * zoom), ZOOM_SCALE) + pan.y,
    }
}

/// `v` brought into `[-limit, limit]`.
pub open spec fn clamp_spec(v: int, limit: int) -> int {
    if v < -limit {
        -limit
    } else if v > limit {
        limit
    } else {
        v
    }
}

/// A point brought into the range of screen coordinates, axis by axis.
pub open spec fn clamp_screen_spec(p: Point) -> Point {
    Point {
        x: clamp_spec(p.x as int, SCREEN_LIMIT as int) as i64,
        y: clamp_spec(p.y as int, SCREEN_LIMIT as int) as i64,
    }
}

/// Where a dragged coordinate lands: moved by `delta`, kept on the canvas, and
/// snapped to the grid.
pub open spec fn moved_spec(pos: int, delta: int) -> int {
    snap_spec(clamp_spec(pos + delta, DIAGRAM_LIMIT as int))
}

/// `v` moved by `d`, saturating at the bounds of `i64`.
pub open spec fn offset_spec(v: int, d: int) -> int {
    if v + d < i64::MIN {
        i64::MIN as int
    } else if v + d > i64::MAX {
        i64::MAX as int
    } else {
        v + d
    }
}

/// A point brought into the range of screen coordinates.
pub fn clamp_screen(p: Point) -> (r: Point)
    ensures
        r == clamp_screen_spec(p),
        screen_point_ok(r),
{
    let x = if p.x < -SCREEN_LIMIT {
        -SCREEN_LIMIT
    } else if p.x > SCREEN_LIMIT {
        SCREEN_LIMIT
    } else {
        p.x
    };
    let y = if p.y < -SCREEN_LIMIT {
        -SCREEN_LIMIT
    } else if p.y > SCREEN_LIMIT {
        SCREEN_LIMIT
    } else {
        p.y
    };
    Point { x, y }
}

/// Moves a coordinate by `delta`, keeps it within the canvas, and snaps it.
pub fn move_coord(pos: i64, delta: i64) -> (r: i64)
    ensures
        r == moved_spec(pos as int, delta as int),
        diagram_coord_ok(r as int),
{
    let sum: i128 = pos as i128 + delta as i128;
    let limit: i128 = DIAGRAM_LIMIT as i128;
    let kept: i64 = if sum < -limit {
        -DIAGRAM_LIMIT
    } else if sum > limit {
        DIAGRAM_LIMIT
    } else {
        sum as i64
    };
    snap_coord(kept)
}

/// `v` moved by `d`, saturating at the bounds of `i64`.
pub fn offset(v: i64, d: i64) -> (r: i64)
    ensures
        r == offset_spec(v as int, d as int),
{
    let sum: i128 = v as i128 + d as i128;
    if sum < i64::MIN as i128 {
        i64::MIN
    } else if sum > i64::MAX as i128 {
        i64::MAX
    } else {
        sum as i64
    }
}

/// Whether `p` lies in the box of a table placed at `pos`.
pub fn contains(pos: Point, p: Point) -> (r: bool)
    ensures
        r == box_contains(pos, p),
{
    let (px, py) = (p.x as i128, p.y as i128);
    let (bx, by) = (pos.x as i128, pos.y as i128);
    bx <= px && px <= bx + BOX_WIDTH as i128 && by <= py && py <= by + BOX_HEIGHT as i128
}

proof fn lemma_to_diagram_bounded(s: int, pan: int, zoom: int)
    requires
        screen_coord_ok(s),
        screen_coord_ok(pan),
        zoom_ok(zoom),
    ensures
        diagram_coord_ok(to_diagram_axis(s, pan, zoom)),
        -2 * SCREEN_LIMIT * ZOOM_SCALE <= (s - pan) * ZOOM_SCALE <= 2 * SCREEN_LIMIT * ZOOM_SCALE,
{
    let n = (s - pan) * ZOOM_SCALE;
    let q = n / zoom;
    vstd::arithmetic::div_mod::lemma_fundamental_div_mod(n, zoom);
    assert(n == zoom * q + n % zoom);
    assert(-DIAGRAM_LIMIT <= q <= DIAGRAM_LIMIT) by (nonlinear_arith)
        requires
            n == zoom * q + n % zoom,
            0 <= n % zoom < zoom,
            -2_000_000_000_000_000 <= n <= 2_000_000_000_000_000,
            100 <= zoom,
    ;
}

proof fn lemma_to_screen_bounded(d: int, zoom: int)
    requires
        diagram_coord_ok(d),
        zoom_ok(zoom),
    ensures
        -1_000_000_000_000_000_000 <= d * zoom <= 1_000_000_000_000_000_000,
        -1_000_000_000_000_000 <= ceil_div(d * zoom, 1000) <= 1_000_000_000_000_000,
{
    let n = d * zoom;
    assert(-1_000_000_000_000_000_000 <= n <= 1_000_000_000_000_000_000) by (nonlinear_arith)
        requires
            -100_000_000_000_000 <= d <= 100_000_000_000_000,
            100 <= zoom <= 10_000,
            n == d * zoom,
    ;
    let q = (-n) / 1000;
    vstd::arithmetic::div_mod::lemma_fundamental_div_mod(-n, 1000);
    assert(-n == 1000 * q + (-n) % 1000);
}

/// Snapping is idempotent, and leaves a coordinate that is already on the grid
/// where it is.
pub proof fn lemma_snap_idempotent(v: int)
    ensures
        snap_spec(snap_spec(v)) == snap_spec(v),
        v % 10 == 0 ==> snap_spec(v) == v,
{
    let s = snap_spec(v);
    if v >= 0 {
        let q = (v + 5) / 10;
        vstd::arithmetic::div_mod::lemma_fundamental_div_mod(v + 5, 10);
        assert(q >= 0);
        vstd::arithmetic::div_mod::lemma_fundamental_div_mod_converse(s + 5, 10, q, 5);
        if v % 10 == 0 {
            vstd::arithmetic::div_mod::lemma_fundamental_div_mod(v, 10);
            vstd::arithmetic::div_mod::lemma_fundamental_div_mod_converse(v + 5, 10, v / 10, 5);
        }
    } else {
        let q = (-v + 5) / 10;
        vstd::arithmetic::div_mod::lemma_fundamental_div_mod(-v + 5, 10);
        assert(q >= 0);
        if q == 0 {
            assert(s == 0);
        } else {
            vstd::arithmetic::div_mod::lemma_fundamental_div_mod_converse(-s + 5, 10, q, 5);
        }
        if v % 10 == 0 {
            vstd::arithmetic::div_mod::lemma_fundamental_div_mod(v, 10);
            vstd::arithmetic::div_mod::lemma_fundamental_div_mod_converse(
                -v + 5,
                10,
                -(v / 10),
                5,
            );
        }
    }
}

proof fn lemma_round_trip_axis(s: int, pan: int, zoom: int)
    requires
        zoom > 0,
    ensures
        to_screen_axis(to_diagram_axis(s, pan, zoom), pan, zoom) <= s,
        (s - to_screen_axis(to_diagram_axis(s, pan, zoom), pan, zoom)) * 1000 < zoom,
{
    let q = s - pan;
    let n = q * 1000;
    let d = n / zoom;
    vstd::arithmetic::div_mod::lemma_fundamental_div_mod(n, zoom);
    let m = -(d * zoom);
    let c = m / 1000;
    vstd::arithmetic::div_mod::lemma_fundamental_div_mod(m, 1000);
    assert(d * zoom <= n < d * zoom + zoom) by (nonlinear_arith)
        requires
            n == zoom * d + n % zoom,
            0 <= n % zoom < zoom,
    ;
    assert(m == 1000 * c + m % 1000);
    assert(q + c >= 0) by (nonlinear_arith)
        requires
            m == 1000 * c + m % 1000,
            0 <= m % 1000 < 1000,
            m == -(d * zoom),
            d * zoom <= n,
            n == q * 1000,
    ;
    assert((q + c) * 1000 < zoom) by (nonlinear_arith)
        requires
            m == 1000 * c + m % 1000,
            0 <= m % 1000,
            m == -(d * zoom),
            n < d * zoom + zoom,
            n == q * 1000,
    ;
}

/// Mapping a screen point to diagram space and back returns it, up to the
/// rounding of whole units: the result is never right of or below the start, and
/// lies within one zoomed diagram unit of it; at a zoom of one or less it is exact.
pub proof fn lemma_transform_round_trip(s: Point, pan: Vector, zoom: int)
    requires
        zoom > 0,
    ensures
        ({
            let rx = to_screen_axis(to_diagram_axis(s.x as int, pan.x as int, zoom), pan.x as int, zoom);
            let ry = to_screen_axis(to_diagram_axis(s.y as int, pan.y as int, zoom), pan.y as int, zoom);
            &&& rx <= s.x && (s.x - rx) * 1000 < zoom
            &&& ry <= s.y && (s.y - ry) * 1000 < zoom
            &&& zoom <= 1000 ==> rx == s.x && ry == s.y
        }),
{
    lemma_round_trip_axis(s.x as int, pan.x as int, zoom);
    lemma_round_trip_axis(s.y as int, pan.y as int, zoom);
}

} // verus!
