use vstd::prelude::*;

verus! {

/// Fixed-point resolution: one world unit is this many sub-units.
///
/// All positions, sizes and per-frame velocities are integers in sub-units.
/// The resolution is chosen so that ball speeds and hit boxes are exact.
pub const UNITS: i64 = 9000;

/// Half of the arena's width and height: the arena spans 100 x 100 world
/// units, centred on the origin.
pub const ARENA_HALF: i64 = 450000;

/// Full width (and height) of the arena.
pub const ARENA_SIZE: i64 = 900000;

/// Largest coordinate that a body's position may hold between frames.
pub const POS_LIMIT: i64 = 1125899906842624;

/// Largest velocity component that a body may hold.
pub const VEL_LIMIT: i64 = 1099511627776;

/// A point, an extent or a per-frame velocity, in sub-units.
#[derive(Clone, Copy, Debug, PartialEq, Eq, Structural)]
pub struct Vec2 {
    pub x: i64,
    pub y: i64,
}

impl Vec2 {
    pub fn new(x: i64, y: i64) -> (r: Vec2)
        ensures
            r.x == x,
            r.y == y,
    {
        Vec2 { x, y }
    }
}

/// An axis-aligned rectangle given by its lower-left and upper-right corners.
#[derive(Clone, Copy, Debug, PartialEq, Eq, Structural)]
pub struct Rect {
    pub min: Vec2,
    pub max: Vec2,
}

pub open spec fn imax(a: int, b: int) -> int {
    if a >= b { a } else { b }
}

pub open spec fn imin(a: int, b: int) -> int {
    if a <= b { a } else { b }
}

/// Two rectangles intersect when the overlap of their spans is non-empty on
/// both axes (touching edges do not count).
pub open spec fn overlap(a: Rect, b: Rect) -> bool {
    &&& imax(a.min.x as int, b.min.x as int) < imin(a.max.x as int, b.max.x as int)
    &&& imax(a.min.y as int, b.min.y as int) < imin(a.max.y as int, b.max.y as int)
}

/// The rectangle centred on `center` whose extent is `size` scaled by 1/1.5.
pub open spec fn hit_rect(center: Vec2, size: Vec2) -> Rect {
    Rect {
        min: Vec2 { x: (center.x - size.x / 3) as i64, y: (center.y - size.y / 3) as i64 },
        max: Vec2 { x: (center.x + size.x / 3) as i64, y: (center.y + size.y / 3) as i64 },
    }
}

/// Inputs for which `hit_rect` is exact in `i64`.
pub open spec fn rect_fits(center: Vec2, size: Vec2) -> bool {
    &&& -2 * POS_LIMIT <= center.x <= 2 * POS_LIMIT
    &&& -2 * POS_LIMIT <= center.y <= 2 * POS_LIMIT
    &&& 0 <= size.x <= ARENA_SIZE
    &&& 0 <= size.y <= ARENA_SIZE
}

/// Bounding box used for collisions: the visual size scaled by 1/1.5,
/// centred on the position.
pub fn hit_box(center: Vec2, size: Vec2) -> (r: Rect)
    requires
        rect_fits(center, size),
    ensures
        r == hit_rect(center, size),
        r.min.x == center.x - size.x / 3,
        r.max.x == center.x + size.x / 3,
        r.min.y == center.y - size.y / 3,
        r.max.y == center.y + size.y / 3,
{
    let hx = size.x / 3;
    let hy = size.y / 3;
    Rect {
        min: Vec2 { x: center.x - hx, y: center.y - hy },
        max: Vec2 { x: center.x + hx, y: center.y + hy },
    }
}

/// Whether the two rectangles share an area.
pub fn intersects(a: &Rect, b: &Rect) -> (r: bool)
    ensures
        r == overlap(*a, *b),
{
    let lo_x = if a.min.x >= b.min.x { a.min.x } else { b.min.x };
    let hi_x = if a.max.x <= b.max.x { a.max.x } else { b.max.x };
    let lo_y = if a.min.y >= b.min.y { a.min.y } else { b.min.y };
    let hi_y = if a.max.y <= b.max.y { a.max.y } else { b.max.y };
    lo_x < hi_x && lo_y < hi_y
}

/// `v` limited to the closed range `[lo, hi]`.
pub open spec fn clamp_to(v: int, lo: int, hi: int) -> int {
    if v < lo { lo } else if v > hi { hi } else { v }
}

/// `a / d` rounded toward zero.
pub open spec fn div_toward_zero(a: int, d: int) -> int {
    if a >= 0 { a / d } else { -((-a) / d) }
}

} // verus!
