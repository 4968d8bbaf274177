//! Axial coordinates on a hexagonal grid.
use vstd::prelude::*;

verus! {

/// Axial coordinates `(q, r)`; the implied cube coordinate is `s = -q - r`.
#[derive(Clone, Copy, Debug, PartialEq, Eq, Hash, Structural)]
pub struct HexCoord {
    pub q: i32,
    pub r: i32,
}

/// The largest coordinate magnitude for which neighbour arithmetic is defined.
pub const COORD_LIMIT: i32 = 1_000_000;

pub open spec fn coord_ok(c: HexCoord) -> bool {
    -COORD_LIMIT <= c.q <= COORD_LIMIT && -COORD_LIMIT <= c.r <= COORD_LIMIT
}

/// Change of `q` when stepping in direction `d` (0..6).
pub open spec fn dir_dq(d: int) -> int {
    if d == 0 || d == 1 {
        1
    } else if d == 3 || d == 4 {
        -1
    } else {
        0
    }
}

/// Change of `r` when stepping in direction `d` (0..6).
pub open spec fn dir_dr(d: int) -> int {
    if d == 1 || d == 2 {
        -1
    } else if d == 4 || d == 5 {
        1
    } else {
        0
    }
}

/// The coordinate one step from `c` in direction `d`.
pub open spec fn spec_step(c: HexCoord, d: int) -> HexCoord {
    HexCoord { q: (c.q + dir_dq(d)) as i32, r: (c.r + dir_dr(d)) as i32 }
}

pub open spec fn abs(x: int) -> int {
    if x < 0 {
        -x
    } else {
        x
    }
}

/// Grid distance: the largest of the three cube-coordinate differences.
pub open spec fn spec_hex_distance(a: HexCoord, b: HexCoord) -> int {
    let dq = abs(a.q - b.q);
    let dr = abs(a.r - b.r);
    let ds = abs((b.q + b.r) - (a.q + a.r));
    if dq >= dr && dq >= ds {
        dq
    } else if dr >= ds {
        dr
    } else {
        ds
    }
}

/// Direction `(d + 3) % 6` points back the way direction `d` came.
pub proof fn lemma_opposite_direction(c: HexCoord, d: int)
    requires
        0 <= d < 6,
        coord_ok(c),
    ensures
        spec_step(spec_step(c, d), (d + 3) % 6) == c,
{
}

impl HexCoord {
    pub fn new(q: i32, r: i32) -> (c: HexCoord)
        ensures
            c.q == q,
            c.r == r,
    {
        HexCoord { q, r }
    }

    /// The six neighbouring coordinates, in direction order.
    pub fn neighbors(self) -> (ns: [HexCoord; 6])
        requires
            coord_ok(self),
        ensures
            forall|d: int| 0 <= d < 6 ==> #[trigger] ns@[d] == spec_step(self, d),
    {
        [
            step_in_direction(self, 0),
            step_in_direction(self, 1),
            step_in_direction(self, 2),
            step_in_direction(self, 3),
            step_in_direction(self, 4),
            step_in_direction(self, 5),
        ]
    }

    /// The direction in which `other` neighbours `self`, if it does.
    pub fn direction_to(self, other: HexCoord) -> (r: Option<usize>)
        requires
            coord_ok(self),
        ensures
            r matches Some(d) ==> d < 6 && spec_step(self, d as int) == other
                && forall|e: int| 0 <= e < d ==> spec_step(self, e) != other,
            r is None ==> forall|e: int| 0 <= e < 6 ==> spec_step(self, e) != other,
    {
        let mut d: usize = 0;
        while d < 6
            invariant
                d <= 6,
                coord_ok(self),
                forall|e: int| 0 <= e < d ==> spec_step(self, e) != other,
            decreases 6 - d,
        {
            if step_in_direction(self, d) == other {
                return Some(d);
            }
            d = d + 1;
        }
        None
    }
}

/// The coordinate one step from `c` in direction `d`.
pub fn step_in_direction(c: HexCoord, d: usize) -> (n: HexCoord)
    requires
        coord_ok(c),
        d < 6,
    ensures
        n == spec_step(c, d as int),
{
    let (dq, dr): (i32, i32) = if d == 0 {
        (1, 0)
    } else if d == 1 {
        (1, -1)
    } else if d == 2 {
        (0, -1)
    } else if d == 3 {
        (-1, 0)
    } else if d == 4 {
        (-1, 1)
    } else {
        (0, 1)
    };
    HexCoord { q: c.q + dq, r: c.r + dr }
}

/// Grid distance between two coordinates.
pub fn hex_distance(a: HexCoord, b: HexCoord) -> (d: i64)
    ensures
        d == spec_hex_distance(a, b),
{
    let dq = abs_i64(a.q as i64 - b.q as i64);
    let dr = abs_i64(a.r as i64 - b.r as i64);
    let ds = abs_i64((b.q as i64 + b.r as i64) - (a.q as i64 + a.r as i64));
    if dq >= dr && dq >= ds {
        dq
    } else if dr >= ds {
        dr
    } else {
        ds
    }
}

fn abs_i64(x: i64) -> (r: i64)
    requires
        x > i64::MIN,
    ensures
        r == abs(x as int),
{
    if x < 0 {
        -x
    } else {
        x
    }
}

} // verus!
