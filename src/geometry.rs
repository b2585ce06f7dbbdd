//! Axis-aligned boxes in fixed-point coordinates and the collision-side rule.
use vstd::prelude::*;

verus! {

/// Fixed-point units in one pixel.
pub const UNITS_PER_PIXEL: i64 = 1_048_576;

/// Every coordinate and half extent lies within this bound (in units), so that
/// the sum or difference of two never overflows.
pub const COORD_LIMIT: i64 = 1_152_921_504_606_846_976;

/// An axis-aligned bounding box given by its center and its half extents, in units.
#[derive(Clone, Copy, Debug, PartialEq, Eq, Structural)]
pub struct Aabb {
    pub center_x: i64,
    pub center_y: i64,
    pub half_width: i64,
    pub half_height: i64,
}

/// The side of the struck box on which a probing box landed.
#[derive(Clone, Copy, Debug, PartialEq, Eq, Structural)]
pub enum CollisionSide {
    Top,
    Bottom,
    Left,
    Right,
}

/// The geometry of an overlap matched neither axis: the probing box is inside the
/// other one further than a pixel (a paddle swept over the ball, or the ball tunnelled).
/// The offsets are center differences in units; the scales are sums of half extents.
#[derive(Clone, Copy, Debug, PartialEq, Eq, Structural)]
pub enum CollisionError {
    IndeterminateSide { offset_x: i64, offset_y: i64, scale_x: i64, scale_y: i64 },
}

pub open spec fn in_coord_range(v: int) -> bool {
    -COORD_LIMIT <= v <= COORD_LIMIT
}

impl Aabb {
    pub open spec fn wf(self) -> bool {
        &&& in_coord_range(self.center_x as int)
        &&& in_coord_range(self.center_y as int)
        &&& 0 <= self.half_width <= COORD_LIMIT
        &&& 0 <= self.half_height <= COORD_LIMIT
    }

    pub open spec fn min_x(self) -> int {
        self.center_x - self.half_width
    }

    pub open spec fn max_x(self) -> int {
        self.center_x + self.half_width
    }

    pub open spec fn min_y(self) -> int {
        self.center_y - self.half_height
    }

    pub open spec fn max_y(self) -> int {
        self.center_y + self.half_height
    }

    /// Closed boxes overlap: touching edges count as an intersection.
    pub open spec fn overlaps(self, other: Aabb) -> bool {
        &&& self.min_x() <= other.max_x()
        &&& other.min_x() <= self.max_x()
        &&& self.min_y() <= other.max_y()
        &&& other.min_y() <= self.max_y()
    }

    /// Builds a box from its center and half extents.
    pub fn new(center_x: i64, center_y: i64, half_width: i64, half_height: i64) -> (r: Aabb)
        ensures
            r == (Aabb { center_x, center_y, half_width, half_height }),
    {
        Aabb { center_x, center_y, half_width, half_height }
    }

    /// Whether the two boxes overlap.
    pub fn intersects(&self, other: &Aabb) -> (r: bool)
        requires
            self.wf(),
            other.wf(),
        ensures
            r == self.overlaps(*other),
    {
        self.center_x - self.half_width <= other.center_x + other.half_width
            && other.center_x - other.half_width <= self.center_x + self.half_width
            && self.center_y - self.half_height <= other.center_y + other.half_height
            && other.center_y - other.half_height <= self.center_y + self.half_height
    }
}

pub open spec fn abs_int(v: int) -> int {
    if v < 0 { -v } else { v }
}

/// `|v|` in units, rounded up to whole pixels.
pub open spec fn ceil_pixels(v: int) -> int {
    (abs_int(v) + UNITS_PER_PIXEL - 1) / (UNITS_PER_PIXEL as int)
}

/// Where `effector` struck `effected`. The impact is horizontal when the sum of the
/// half widths equals the horizontal center distance rounded up to whole pixels,
/// else vertical when the same holds of the heights; otherwise it is indeterminate.
pub open spec fn side_of(effector: Aabb, effected: Aabb) -> Result<CollisionSide, CollisionError> {
    let offset_x = effector.center_x - effected.center_x;
    let offset_y = effector.center_y - effected.center_y;
    let scale_x = effector.half_width + effected.half_width;
    let scale_y = effector.half_height + effected.half_height;
    if scale_x == ceil_pixels(offset_x) * UNITS_PER_PIXEL {
        Ok(if offset_x < 0 { CollisionSide::Left } else { CollisionSide::Right })
    } else if scale_y == ceil_pixels(offset_y) * UNITS_PER_PIXEL {
        Ok(if offset_y < 0 { CollisionSide::Bottom } else { CollisionSide::Top })
    } else {
        Err(
            CollisionError::IndeterminateSide {
                offset_x: offset_x as i64,
                offset_y: offset_y as i64,
                scale_x: scale_x as i64,
                scale_y: scale_y as i64,
            },
        )
    }
}

/// The side seen from the other box.
pub open spec fn mirrored(side: CollisionSide) -> CollisionSide {
    match side {
        CollisionSide::Top => CollisionSide::Bottom,
        CollisionSide::Bottom => CollisionSide::Top,
        CollisionSide::Left => CollisionSide::Right,
        CollisionSide::Right => CollisionSide::Left,
    }
}

/// `|v|` in units rounded up to whole pixels, times the units in a pixel.
fn ceil_to_pixel(v: i64) -> (r: i64)
    requires
        -2 * COORD_LIMIT <= v <= 2 * COORD_LIMIT,
    ensures
        r == ceil_pixels(v as int) * UNITS_PER_PIXEL,
{
    let a: i64 = if v < 0 { -v } else { v };
    let c: i64 = (a + UNITS_PER_PIXEL - 1) / UNITS_PER_PIXEL;
    assert(c * UNITS_PER_PIXEL <= a + UNITS_PER_PIXEL);
    c * UNITS_PER_PIXEL
}

/// Works out on which side of `effected` the box `effector` landed.
pub fn calculate_collision_side(effector: &Aabb, effected: &Aabb) -> (r: Result<
    CollisionSide,
    CollisionError,
>)
    requires
        effector.wf(),
        effected.wf(),
    ensures
        r == side_of(*effector, *effected),
{
    let offset_x: i64 = effector.center_x - effected.center_x;
    let offset_y: i64 = effector.center_y - effected.center_y;
    let scale_x: i64 = effector.half_width + effected.half_width;
    let scale_y: i64 = effector.half_height + effected.half_height;
    if scale_x == ceil_to_pixel(offset_x) {
        if offset_x < 0 {
            Ok(CollisionSide::Left)
        } else {
            Ok(CollisionSide::Right)
        }
    } else if scale_y == ceil_to_pixel(offset_y) {
        if offset_y < 0 {
            Ok(CollisionSide::Bottom)
        } else {
            Ok(CollisionSide::Top)
        }
    } else {
        Err(CollisionError::IndeterminateSide { offset_x, offset_y, scale_x, scale_y })
    }
}

/// Overlap does not depend on which box is asked first.
pub proof fn lemma_overlap_symmetric(a: Aabb, b: Aabb)
    ensures
        a.overlaps(b) == b.overlaps(a),
{
}

/// Swapping the probing and the struck box mirrors the side: Left and Right trade
/// places, as do Top and Bottom, and an indeterminate case stays indeterminate.
/// Both boxes must have some extent along each axis together (else a zero offset
/// reads as Right or Top from both boxes).
pub proof fn lemma_side_mirrors_on_swap(a: Aabb, b: Aabb)
    requires
        a.wf(),
        b.wf(),
        a.half_width + b.half_width > 0,
        a.half_height + b.half_height > 0,
    ensures
        side_of(a, b) is Ok <==> side_of(b, a) is Ok,
        side_of(a, b) is Ok ==> side_of(b, a)->Ok_0 == mirrored(side_of(a, b)->Ok_0),
{
    assert(ceil_pixels(a.center_x - b.center_x) == ceil_pixels(b.center_x - a.center_x));
    assert(ceil_pixels(a.center_y - b.center_y) == ceil_pixels(b.center_y - a.center_y));
    assert(ceil_pixels(0) == 0);
}

} // verus!
