//! Grid points, the fixed map dimensions and the conversions between a point
//! and its row-major tile index.

use vstd::prelude::*;

verus! {

/// Width of the map, in tiles.
pub const MAP_WIDTH: i32 = 75;

/// Height of the map, in tiles.
pub const MAP_HEIGHT: i32 = 45;

/// Number of tiles in the map.
pub const MAP_TILES: usize = 3375;

/// A cell of the grid.
#[derive(Clone, Copy, Debug, PartialEq, Eq, Structural)]
pub struct Point {
    pub x: i32,
    pub y: i32,
}

pub open spec fn num_tiles() -> int {
    MAP_WIDTH as int * MAP_HEIGHT as int
}

/// The point is a cell of the map.
pub open spec fn in_bounds_xy(x: int, y: int) -> bool {
    0 <= x < MAP_WIDTH && 0 <= y < MAP_HEIGHT
}

pub open spec fn in_bounds(p: Point) -> bool {
    in_bounds_xy(p.x as int, p.y as int)
}

/// Row-major index of a cell.
pub open spec fn index_xy(x: int, y: int) -> int {
    y * MAP_WIDTH + x
}

pub open spec fn index_of(p: Point) -> int {
    index_xy(p.x as int, p.y as int)
}

/// The cell at a row-major index.
pub open spec fn point_of(i: int) -> Point {
    Point { x: (i % MAP_WIDTH as int) as i32, y: (i / MAP_WIDTH as int) as i32 }
}

/// Squared Euclidean distance between two cells.
pub open spec fn dist_sq(a: Point, b: Point) -> int {
    (a.x - b.x) * (a.x - b.x) + (a.y - b.y) * (a.y - b.y)
}

pub proof fn lemma_index_in_range(x: int, y: int)
    requires
        in_bounds_xy(x, y),
    ensures
        0 <= index_xy(x, y) < num_tiles(),
{
    assert(0 <= y * 75 + x < 3375) by (nonlinear_arith)
        requires
            0 <= x < 75,
            0 <= y < 45,
    ;
}

/// Index and point are inverse to each other on the map.
pub proof fn lemma_point_of_index(p: Point)
    requires
        in_bounds(p),
    ensures
        point_of(index_of(p)) == p,
        0 <= index_of(p) < num_tiles(),
{
    lemma_index_in_range(p.x as int, p.y as int);
    let i = index_of(p);
    assert(i % 75 == p.x && i / 75 == p.y) by (nonlinear_arith)
        requires
            i == p.y * 75 + p.x,
            0 <= p.x < 75,
            0 <= p.y,
    ;
}

pub proof fn lemma_index_of_point(i: int)
    requires
        0 <= i < num_tiles(),
    ensures
        in_bounds(point_of(i)),
        index_of(point_of(i)) == i,
{
    assert(0 <= i % 75 < 75 && 0 <= i / 75 < 45 && (i / 75) * 75 + i % 75 == i) by (nonlinear_arith)
        requires
            0 <= i < 3375,
    ;
}

pub proof fn lemma_dist_sq_nonneg(a: Point, b: Point)
    ensures
        dist_sq(a, b) >= 0,
{
    let dx = a.x - b.x;
    let dy = a.y - b.y;
    assert(dx * dx + dy * dy >= 0) by (nonlinear_arith);
}

/// From any cell of the map some cell lies more than thirty cells away.
pub proof fn lemma_far_cell(p: Point) -> (q: Point)
    requires
        in_bounds(p),
    ensures
        in_bounds(q),
        dist_sq(p, q) > 900,
{
    let q = Point { x: if p.x <= 37 { 74 } else { 0 }, y: if p.y <= 22 { 44 } else { 0 } };
    let dx = p.x - q.x;
    let dy = p.y - q.y;
    assert(dx * dx + dy * dy > 900) by (nonlinear_arith)
        requires
            dx >= 37 || dx <= -37,
    ;
    q
}

impl Point {
    pub fn new(x: i32, y: i32) -> (r: Point)
        ensures
            r == (Point { x, y }),
    {
        Point { x, y }
    }
}

/// Whether a cell lies on the map.
pub fn point_in_bounds(p: Point) -> (r: bool)
    ensures
        r == in_bounds(p),
{
    0 <= p.x && p.x < MAP_WIDTH && 0 <= p.y && p.y < MAP_HEIGHT
}

/// Row-major index of a cell of the map.
pub fn point_to_index(p: Point) -> (r: usize)
    requires
        in_bounds(p),
    ensures
        r == index_of(p),
        r < num_tiles(),
{
    proof {
        lemma_index_in_range(p.x as int, p.y as int);
    }
    (p.y * MAP_WIDTH + p.x) as usize
}

/// The cell at a row-major index of the map.
pub fn index_to_point(i: usize) -> (r: Point)
    requires
        i < num_tiles(),
    ensures
        r == point_of(i as int),
        in_bounds(r),
        index_of(r) == i,
{
    proof {
        lemma_index_of_point(i as int);
    }
    Point { x: (i % 75) as i32, y: (i / 75) as i32 }
}

/// Squared Euclidean distance between two cells.
pub fn distance_squared(a: Point, b: Point) -> (r: i128)
    ensures
        r == dist_sq(a, b),
{
    let dx = a.x as i128 - b.x as i128;
    let dy = a.y as i128 - b.y as i128;
    assert(0 <= dx * dx <= 0x1_0000_0000_0000_0000 && 0 <= dy * dy <= 0x1_0000_0000_0000_0000) by (nonlinear_arith)
        requires
            -0x1_0000_0000 <= dx <= 0x1_0000_0000,
            -0x1_0000_0000 <= dy <= 0x1_0000_0000,
    ;
    dx * dx + dy * dy
}

} // verus!
