//! Segment crossing in the ground plane, and the rectangular walls that block
//! both movement and sight.

use vstd::prelude::*;
use crate::vector::{Vector, within, lemma_product_bound};

verus! {

/// The largest coordinate for which [`crossing`] forms its products without
/// overflow.
pub const CROSSING_LIMIT: i64 = 0x2_0000_0000;

/// The real number `n / d` exists and lies in the closed interval from 0 to 1.
pub open spec fn unit_ratio(n: int, d: int) -> bool {
    (d > 0 && 0 <= n <= d) || (d < 0 && d <= n <= 0)
}

/// The denominator shared by the two parameters of a crossing: zero exactly
/// when the segments `a b` and `c d` are parallel or one of them is a point.
pub open spec fn cross_denominator(
    ax: int,
    az: int,
    bx: int,
    bz: int,
    cx: int,
    cz: int,
    dx: int,
    dz: int,
) -> int {
    (dz - cz) * (bx - ax) - (dx - cx) * (bz - az)
}

/// The numerator of the parameter along `a b`.
pub open spec fn cross_along_first(
    ax: int,
    az: int,
    cx: int,
    cz: int,
    dx: int,
    dz: int,
) -> int {
    (dx - cx) * (az - cz) - (dz - cz) * (ax - cx)
}

/// The numerator of the parameter along `c d`.
pub open spec fn cross_along_second(
    ax: int,
    az: int,
    bx: int,
    bz: int,
    cx: int,
    cz: int,
) -> int {
    (bx - ax) * (az - cz) - (bz - az) * (ax - cx)
}

/// The segment from `(ax, az)` to `(bx, bz)` meets the segment from
/// `(cx, cz)` to `(dx, dz)`: both parameters of the meeting point lie between
/// 0 and 1. Parallel and degenerate segments never meet.
pub open spec fn segments_cross(
    ax: int,
    az: int,
    bx: int,
    bz: int,
    cx: int,
    cz: int,
    dx: int,
    dz: int,
) -> bool {
    let den = cross_denominator(ax, az, bx, bz, cx, cz, dx, dz);
    unit_ratio(cross_along_first(ax, az, cx, cz, dx, dz), den) && unit_ratio(
        cross_along_second(ax, az, bx, bz, cx, cz),
        den,
    )
}

fn ratio_in_unit(n: i128, d: i128) -> (r: bool)
    ensures
        r == unit_ratio(n as int, d as int),
{
    (d > 0 && 0 <= n && n <= d) || (d < 0 && d <= n && n <= 0)
}

/// Decides [`segments_cross`] for coordinates within [`CROSSING_LIMIT`].
pub fn crossing(ax: i64, az: i64, bx: i64, bz: i64, cx: i64, cz: i64, dx: i64, dz: i64) -> (r:
    bool)
    requires
        within(ax as int, CROSSING_LIMIT as int),
        within(az as int, CROSSING_LIMIT as int),
        within(bx as int, CROSSING_LIMIT as int),
        within(bz as int, CROSSING_LIMIT as int),
        within(cx as int, CROSSING_LIMIT as int),
        within(cz as int, CROSSING_LIMIT as int),
        within(dx as int, CROSSING_LIMIT as int),
        within(dz as int, CROSSING_LIMIT as int),
    ensures
        r == segments_cross(
            ax as int,
            az as int,
            bx as int,
            bz as int,
            cx as int,
            cz as int,
            dx as int,
            dz as int,
        ),
{
    let abx: i128 = (bx - ax) as i128;
    let abz: i128 = (bz - az) as i128;
    let cdx: i128 = (dx - cx) as i128;
    let cdz: i128 = (dz - cz) as i128;
    let cax: i128 = (ax - cx) as i128;
    let caz: i128 = (az - cz) as i128;
    proof {
        let l = 2 * CROSSING_LIMIT as int;
        lemma_product_bound(cdz as int, abx as int, l, l);
        lemma_product_bound(cdx as int, abz as int, l, l);
        lemma_product_bound(cdx as int, caz as int, l, l);
        lemma_product_bound(cdz as int, cax as int, l, l);
        lemma_product_bound(abx as int, caz as int, l, l);
        lemma_product_bound(abz as int, cax as int, l, l);
    }
    let den: i128 = cdz * abx - cdx * abz;
    let along_first: i128 = cdx * caz - cdz * cax;
    let along_second: i128 = abx * caz - abz * cax;
    ratio_in_unit(along_first, den) && ratio_in_unit(along_second, den)
}

/// Whether the segment from `a` to `b` meets the segment from `c` to `d` in
/// the ground plane. Heights are ignored.
pub fn line_collision(a: Vector, b: Vector, c: Vector, d: Vector) -> (r: bool)
    ensures
        r == segments_cross(
            a.x as int,
            a.z as int,
            b.x as int,
            b.z as int,
            c.x as int,
            c.z as int,
            d.x as int,
            d.z as int,
        ),
{
    crossing(
        a.x as i64,
        a.z as i64,
        b.x as i64,
        b.z as i64,
        c.x as i64,
        c.z as i64,
        d.x as i64,
        d.z as i64,
    )
}

/// An axis-aligned rectangular obstacle. It never moves.
#[derive(Clone, Copy, Debug, PartialEq, Eq, Structural)]
pub struct Wall {
    /// The middle of the rectangle.
    pub center: Vector,
    /// Half the extent along x.
    pub half_x: i32,
    /// Half the extent along z.
    pub half_z: i32,
}

impl Wall {
    /// The point `(x, z)` lies strictly inside the rectangle.
    pub open spec fn contains(self, x: int, z: int) -> bool {
        self.center.x - self.half_x < x < self.center.x + self.half_x && self.center.z
            - self.half_z < z < self.center.z + self.half_z
    }

    /// The x coordinate of corner `k`, counted around the rectangle from the
    /// corner of largest x and z.
    pub open spec fn corner_x(self, k: int) -> int {
        if k % 4 == 0 || k % 4 == 3 {
            self.center.x + self.half_x
        } else {
            self.center.x - self.half_x
        }
    }

    /// The z coordinate of corner `k`.
    pub open spec fn corner_z(self, k: int) -> int {
        if k % 4 == 0 || k % 4 == 1 {
            self.center.z + self.half_z
        } else {
            self.center.z - self.half_z
        }
    }

    /// The segment `from`–`to` meets the edge that runs from corner `k` to
    /// the next corner.
    pub open spec fn edge_crossed(self, k: int, from: Vector, to: Vector) -> bool {
        segments_cross(
            from.x as int,
            from.z as int,
            to.x as int,
            to.z as int,
            self.corner_x(k),
            self.corner_z(k),
            self.corner_x(k + 1),
            self.corner_z(k + 1),
        )
    }

    /// The segment `from`–`to` meets at least one of the four edges.
    pub open spec fn occludes(self, from: Vector, to: Vector) -> bool {
        self.edge_crossed(0, from, to) || self.edge_crossed(1, from, to) || self.edge_crossed(
            2,
            from,
            to,
        ) || self.edge_crossed(3, from, to)
    }

    /// Decides [`Wall::contains`] for a point of the ground plane.
    pub fn encloses(&self, x: i32, z: i32) -> (r: bool)
        ensures
            r == self.contains(x as int, z as int),
    {
        let cx: i64 = self.center.x as i64;
        let cz: i64 = self.center.z as i64;
        let hx: i64 = self.half_x as i64;
        let hz: i64 = self.half_z as i64;
        let px: i64 = x as i64;
        let pz: i64 = z as i64;
        cx - hx < px && px < cx + hx && cz - hz < pz && pz < cz + hz
    }

    /// Decides [`Wall::occludes`]: whether the wall stands in the line of
    /// sight between two points.
    pub fn blocks_sight(&self, from: Vector, to: Vector) -> (r: bool)
        ensures
            r == self.occludes(from, to),
    {
        let fx: i64 = from.x as i64;
        let fz: i64 = from.z as i64;
        let tx: i64 = to.x as i64;
        let tz: i64 = to.z as i64;
        let east: i64 = self.center.x as i64 + self.half_x as i64;
        let west: i64 = self.center.x as i64 - self.half_x as i64;
        let north: i64 = self.center.z as i64 + self.half_z as i64;
        let south: i64 = self.center.z as i64 - self.half_z as i64;
        crossing(fx, fz, tx, tz, east, north, west, north) || crossing(
            fx,
            fz,
            tx,
            tz,
            west,
            north,
            west,
            south,
        ) || crossing(fx, fz, tx, tz, west, south, east, south) || crossing(
            fx,
            fz,
            tx,
            tz,
            east,
            south,
            east,
            north,
        )
    }
}

/// A wall that lies across a line hides one end from the other: when both
/// ends lie within the wall's extent along x, and the line starts strictly
/// before the wall along z and reaches at least its near edge, or the same
/// from the far side, the line meets an edge of the wall.
pub proof fn lemma_wall_across_occludes(wall: Wall, from: Vector, to: Vector)
    requires
        wall.half_x > 0,
        wall.half_z >= 0,
        wall.center.x - wall.half_x <= from.x <= wall.center.x + wall.half_x,
        wall.center.x - wall.half_x <= to.x <= wall.center.x + wall.half_x,
        (from.z < wall.center.z - wall.half_z && wall.center.z - wall.half_z <= to.z) || (from.z
            > wall.center.z + wall.half_z && wall.center.z + wall.half_z >= to.z),
    ensures
        wall.occludes(from, to),
{
    let west = wall.center.x - wall.half_x;
    let width = 2 * wall.half_x;
    let p = from.x - west;
    let q = to.x - west;
    if from.z < wall.center.z - wall.half_z {
        let south = wall.center.z - wall.half_z;
        let rise = to.z - from.z;
        let s = south - from.z;
        let den = cross_denominator(
            from.x as int,
            from.z as int,
            to.x as int,
            to.z as int,
            wall.corner_x(2),
            wall.corner_z(2),
            wall.corner_x(3),
            wall.corner_z(3),
        );
        let first = cross_along_first(
            from.x as int,
            from.z as int,
            wall.corner_x(2),
            wall.corner_z(2),
            wall.corner_x(3),
            wall.corner_z(3),
        );
        let second = cross_along_second(
            from.x as int,
            from.z as int,
            to.x as int,
            to.z as int,
            wall.corner_x(2),
            wall.corner_z(2),
        );
        assert(den == -(width * rise) && first == -(width * s) && second == -(q * s + p * (rise
            - s))) by (nonlinear_arith)
            requires
                den == (south - south) * (to.x - from.x) - ((west + width) - west) * (to.z
                    - from.z),
                first == ((west + width) - west) * (from.z - south) - (south - south) * (from.x
                    - west),
                second == (to.x - from.x) * (from.z - south) - (to.z - from.z) * (from.x - west),
                rise == to.z - from.z,
                s == south - from.z,
                p == from.x - west,
                q == to.x - west,
        ;
        assert(width * rise > 0 && width * s <= width * rise && width * s >= 0 && q * s + p * (
            rise - s) >= 0 && q * s + p * (rise - s) <= width * rise) by (nonlinear_arith)
            requires
                width > 0,
                0 < s <= rise,
                0 <= p <= width,
                0 <= q <= width,
        ;
        assert(wall.edge_crossed(2, from, to));
    } else {
        let north = wall.center.z + wall.half_z;
        let drop = from.z - to.z;
        let s = from.z - north;
        let den = cross_denominator(
            from.x as int,
            from.z as int,
            to.x as int,
            to.z as int,
            wall.corner_x(0),
            wall.corner_z(0),
            wall.corner_x(1),
            wall.corner_z(1),
        );
        let first = cross_along_first(
            from.x as int,
            from.z as int,
            wall.corner_x(0),
            wall.corner_z(0),
            wall.corner_x(1),
            wall.corner_z(1),
        );
        let second = cross_along_second(
            from.x as int,
            from.z as int,
            to.x as int,
            to.z as int,
            wall.corner_x(0),
            wall.corner_z(0),
        );
        assert(den == -(width * drop) && first == -(width * s) && second == -((width - q) * s
            + (width - p) * (drop - s))) by (nonlinear_arith)
            requires
                den == (north - north) * (to.x - from.x) - (west - (west + width)) * (to.z
                    - from.z),
                first == (west - (west + width)) * (from.z - north) - (north - north) * (from.x
                    - (west + width)),
                second == (to.x - from.x) * (from.z - north) - (to.z - from.z) * (from.x - (west
                    + width)),
                drop == from.z - to.z,
                s == from.z - north,
                p == from.x - west,
                q == to.x - west,
        ;
        assert(width * drop > 0 && width * s <= width * drop && width * s >= 0 && (width - q) * s
            + (width - p) * (drop - s) >= 0 && (width - q) * s + (width - p) * (drop - s) <= width
            * drop) by (nonlinear_arith)
            requires
                width > 0,
                0 < s <= drop,
                0 <= p <= width,
                0 <= q <= width,
        ;
        assert(wall.edge_crossed(0, from, to));
    }
}

} // verus!
