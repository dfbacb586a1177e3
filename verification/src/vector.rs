//! Points, directions and poses in fixed-point coordinates.

use vstd::prelude::*;

verus! {

/// One world unit, and the length of a unit direction.
pub const ONE: i32 = 1000;

/// The simulated world is the cube of positions whose coordinates lie within
/// this distance of the origin. Keeping positions inside it lets every
/// product formed by the sight tests fit a machine word.
pub const WORLD: i32 = 0x2000_0000;

/// A point or a direction.
#[derive(Clone, Copy, Debug, PartialEq, Eq, Structural)]
pub struct Vector {
    pub x: i32,
    pub y: i32,
    pub z: i32,
}

/// Where an entity stands and which way it looks. The facing is a direction
/// of any positive length; a zero facing looks nowhere.
#[derive(Clone, Copy, Debug, PartialEq, Eq, Structural)]
pub struct Transform {
    pub translation: Vector,
    pub facing: Vector,
}

/// Whether a coordinate lies within `limit` of zero.
pub open spec fn within(c: int, limit: int) -> bool {
    -limit <= c <= limit
}

/// The scalar product of two triples.
pub open spec fn dot(a: (int, int, int), b: (int, int, int)) -> int {
    a.0 * b.0 + a.1 * b.1 + a.2 * b.2
}

/// The componentwise difference `to - from`.
pub open spec fn minus(to: (int, int, int), from: (int, int, int)) -> (int, int, int) {
    (to.0 - from.0, to.1 - from.1, to.2 - from.2)
}

/// The vector with the given coordinates, where each fits a coordinate.
pub open spec fn vector_of(c: (int, int, int)) -> Vector {
    Vector { x: c.0 as i32, y: c.1 as i32, z: c.2 as i32 }
}

/// Integer division that rounds toward zero, for a positive divisor.
pub open spec fn quot(n: int, d: int) -> int {
    if n >= 0 {
        n / d
    } else {
        -((-n) / d)
    }
}

impl Vector {
    /// The coordinates as unbounded integers.
    pub open spec fn coords(self) -> (int, int, int) {
        (self.x as int, self.y as int, self.z as int)
    }

    /// The squared length.
    pub open spec fn length_squared(self) -> int {
        dot(self.coords(), self.coords())
    }

    /// The position lies inside the simulated world.
    pub open spec fn in_world(self) -> bool {
        within(self.x as int, WORLD as int) && within(self.y as int, WORLD as int) && within(
            self.z as int,
            WORLD as int,
        )
    }

    /// The vector can be the difference of two positions of the world.
    pub open spec fn is_offset(self) -> bool {
        within(self.x as int, 2 * WORLD) && within(self.y as int, 2 * WORLD) && within(
            self.z as int,
            2 * WORLD,
        )
    }

    /// No coordinate is longer than a unit direction.
    pub open spec fn is_unit_scale(self) -> bool {
        within(self.x as int, ONE as int) && within(self.y as int, ONE as int) && within(
            self.z as int,
            ONE as int,
        )
    }

    /// The vector with the coordinates `x`, `y` and `z`.
    pub fn new(x: i32, y: i32, z: i32) -> (v: Vector)
        ensures
            v == (Vector { x, y, z }),
    {
        Vector { x, y, z }
    }

    /// The origin, which is also the direction of no movement.
    pub fn zero() -> (v: Vector)
        ensures
            v == (Vector { x: 0, y: 0, z: 0 }),
    {
        Vector { x: 0, y: 0, z: 0 }
    }

    /// Decides [`Vector::in_world`].
    pub fn lies_in_world(&self) -> (r: bool)
        ensures
            r == self.in_world(),
    {
        -WORLD <= self.x && self.x <= WORLD && -WORLD <= self.y && self.y <= WORLD && -WORLD
            <= self.z && self.z <= WORLD
    }

    /// Decides [`Vector::is_offset`].
    pub fn fits_offset(&self) -> (r: bool)
        ensures
            r == self.is_offset(),
    {
        let limit: i32 = 2 * WORLD;
        -limit <= self.x && self.x <= limit && -limit <= self.y && self.y <= limit && -limit
            <= self.z && self.z <= limit
    }

    /// Decides [`Vector::is_unit_scale`].
    pub fn fits_unit_scale(&self) -> (r: bool)
        ensures
            r == self.is_unit_scale(),
    {
        -ONE <= self.x && self.x <= ONE && -ONE <= self.y && self.y <= ONE && -ONE <= self.z
            && self.z <= ONE
    }
}

/// The product of two bounded integers is bounded by the product of the
/// bounds.
pub proof fn lemma_product_bound(x: int, y: int, a: int, b: int)
    requires
        within(x, a),
        within(y, b),
    ensures
        within(x * y, a * b),
{
    assert(within(x * y, a * b)) by (nonlinear_arith)
        requires
            -a <= x <= a,
            -b <= y <= b,
    ;
}

} // verus!
