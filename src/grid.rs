//! The hexagonal region of a given radius: its cells in a fixed order, and
//! constant-time lookup from a coordinate to its cell index.
use vstd::prelude::*;
use crate::hex::{abs, spec_step, step_in_direction, HexCoord};

verus! {

/// The largest radius a grid may have.
pub const MAX_RADIUS: i32 = 1000;

/// `c` lies within grid distance `radius` of the origin.
pub open spec fn in_radius(radius: int, c: HexCoord) -> bool {
    abs(c.q as int) <= radius && abs(c.r as int) <= radius && abs(c.q + c.r) <= radius
}

/// Number of cells in row `q` of the region.
pub open spec fn row_len(radius: int, q: int) -> int {
    2 * radius + 1 - abs(q)
}

/// Number of cells in the first `k` rows (rows `-radius .. -radius + k`).
pub open spec fn cells_before(radius: int, k: nat) -> int
    decreases k,
{
    if k == 0 {
        0
    } else {
        cells_before(radius, (k - 1) as nat) + row_len(radius, k - 1 - radius)
    }
}

/// Number of cells in the whole region.
pub open spec fn cell_count(radius: int) -> int {
    cells_before(radius, (2 * radius + 1) as nat)
}

pub open spec fn width(radius: int) -> int {
    2 * radius + 1
}

/// `a` comes before `b` in row order: `q` first, then `r`.
pub open spec fn row_before(a: HexCoord, b: HexCoord) -> bool {
    a.q < b.q || (a.q == b.q && a.r < b.r)
}

/// Position of `c` in the dense square lookup table.
pub open spec fn dense_pos(radius: int, c: HexCoord) -> int {
    (c.q + radius) * width(radius) + (c.r + radius)
}

pub open spec fn row_lo(radius: int, q: int) -> int {
    if -radius >= -q - radius {
        -radius
    } else {
        -q - radius
    }
}

pub open spec fn row_hi(radius: int, q: int) -> int {
    if radius <= radius - q {
        radius
    } else {
        radius - q
    }
}

proof fn lemma_cells_before_closed(radius: int, k: nat)
    requires
        radius >= 0,
        k <= 2 * radius + 1,
    ensures
        k <= radius + 1 ==> 2 * cells_before(radius, k) == 2 * k * (radius + 1) + k * (k - 1),
        k > radius + 1 ==> 2 * cells_before(radius, k) == 2 * (radius + 1) * (radius + 1) + (
        radius + 1) * radius + (k - radius - 1) * (5 * radius + 2 - k),
    decreases k,
{
    if k > 0 {
        lemma_cells_before_closed(radius, (k - 1) as nat);
        let j = k - 1;
        assert(cells_before(radius, k) == cells_before(radius, (k - 1) as nat) + row_len(
            radius,
            j - radius,
        ));
        if k <= radius + 1 {
            assert(row_len(radius, j - radius) == radius + 1 + j);
            assert(2 * cells_before(radius, k) == 2 * k * (radius + 1) + k * (k - 1)) by (
            nonlinear_arith)
                requires
                    2 * cells_before(radius, (k - 1) as nat) == 2 * j * (radius + 1) + j * (j - 1),
                    cells_before(radius, k) == cells_before(radius, (k - 1) as nat) + (radius + 1
                        + j),
                    j == k - 1,
            ;
        } else if k == radius + 2 {
            assert(2 * cells_before(radius, k) == 2 * (radius + 1) * (radius + 1) + (radius + 1)
                * radius + (k - radius - 1) * (5 * radius + 2 - k)) by (nonlinear_arith)
                requires
                    2 * cells_before(radius, (k - 1) as nat) == 2 * j * (radius + 1) + j * (j - 1),
                    cells_before(radius, k) == cells_before(radius, (k - 1) as nat) + (3 * radius
                        + 1 - j),
                    j == k - 1,
                    j == radius + 1,
            ;
        } else {
            assert(2 * cells_before(radius, k) == 2 * (radius + 1) * (radius + 1) + (radius + 1)
                * radius + (k - radius - 1) * (5 * radius + 2 - k)) by (nonlinear_arith)
                requires
                    2 * cells_before(radius, (k - 1) as nat) == 2 * (radius + 1) * (radius + 1) + (
                    radius + 1) * radius + (j - radius - 1) * (5 * radius + 2 - j),
                    cells_before(radius, k) == cells_before(radius, (k - 1) as nat) + (3 * radius
                        + 1 - j),
                    j == k - 1,
            ;
        }
    } else {
        assert(2 * k * (radius + 1) + k * (k - 1) == 0) by (nonlinear_arith)
            requires
                k == 0,
        ;
    }
}

/// A region of radius `R` has `3R² + 3R + 1` cells.
pub proof fn lemma_cell_count(radius: int)
    requires
        radius >= 0,
    ensures
        cell_count(radius) == 3 * radius * radius + 3 * radius + 1,
{
    lemma_cells_before_closed(radius, (2 * radius + 1) as nat);
    if radius == 0 {
        assert(cell_count(radius) == 1);
    } else {
        assert(2 * cell_count(radius) == 2 * (3 * radius * radius + 3 * radius + 1)) by (
    nonlinear_arith)
        requires
            radius >= 0,
            2 * cell_count(radius) == 2 * (radius + 1) * (radius + 1) + (radius + 1) * radius + (
            2 * radius + 1 - radius - 1) * (5 * radius + 2 - (2 * radius + 1)),
        ;
    }
}

proof fn lemma_dense_pos_injective(radius: int, a: HexCoord, b: HexCoord)
    requires
        radius >= 0,
        in_radius(radius, a),
        in_radius(radius, b),
        dense_pos(radius, a) == dense_pos(radius, b),
    ensures
        a == b,
{
    let w = width(radius);
    let x1 = a.q + radius;
    let x2 = b.q + radius;
    let y1 = a.r + radius;
    let y2 = b.r + radius;
    if x1 < x2 {
        assert(x2 * w - x1 * w >= w) by (nonlinear_arith)
            requires
                x1 < x2,
                w > 0,
        ;
    } else if x1 > x2 {
        assert(x1 * w - x2 * w >= w) by (nonlinear_arith)
            requires
                x1 > x2,
                w > 0,
        ;
    }
}

proof fn lemma_dense_pos_range(radius: int, c: HexCoord)
    requires
        radius >= 0,
        in_radius(radius, c),
    ensures
        0 <= dense_pos(radius, c) < width(radius) * width(radius),
{
    let w = width(radius);
    let x = c.q + radius;
    let y = c.r + radius;
    assert(0 <= x * w + y < w * w) by (nonlinear_arith)
        requires
            0 <= x < w,
            0 <= y < w,
    ;
}

/// The cells of a hexagonal region, each exactly once, with lookup by coordinate.
pub struct HexGrid {
    radius: i32,
    coords: Vec<HexCoord>,
    lookup: Vec<usize>,
}

impl HexGrid {
    pub closed spec fn spec_radius(&self) -> int {
        self.radius as int
    }

    /// The cells, in row order (`q` ascending, then `r` ascending).
    pub closed spec fn cells(&self) -> Seq<HexCoord> {
        self.coords@
    }

    /// Index of the cell at `c`, meaningful when `c` lies in the region.
    pub closed spec fn index_of(&self, c: HexCoord) -> int {
        self.lookup@[dense_pos(self.radius as int, c)] as int
    }

    pub closed spec fn wf(&self) -> bool {
        &&& 0 <= self.radius <= MAX_RADIUS
        &&& self.lookup@.len() == width(self.radius as int) * width(self.radius as int)
        &&& self.coords@.len() == cell_count(self.radius as int)
        &&& forall|i: int|
            0 <= i < self.coords@.len() ==> in_radius(self.radius as int, #[trigger] self.coords@[i])
                && self.lookup@[dense_pos(self.radius as int, self.coords@[i])] == i
        &&& forall|c: HexCoord|
            #![trigger dense_pos(self.radius as int, c)]
            in_radius(self.radius as int, c) ==> self.lookup@[dense_pos(self.radius as int, c)]
                < self.coords@.len() && self.coords@[self.lookup@[dense_pos(
                self.radius as int,
                c,
            )] as int] == c
    }

    /// Index of the neighbour of cell `i` in direction `d`, if it lies in the region.
    pub open spec fn spec_neighbor(&self, i: int, d: int) -> Option<int> {
        let c = spec_step(self.cells()[i], d);
        if in_radius(self.spec_radius(), c) {
            Some(self.index_of(c))
        } else {
            None
        }
    }

    /// What the well-formedness of a grid says, in terms of its public views.
    pub proof fn lemma_wf(&self)
        requires
            self.wf(),
        ensures
            0 <= self.spec_radius() <= MAX_RADIUS,
            self.cells().len() == cell_count(self.spec_radius()),
            forall|i: int|
                0 <= i < self.cells().len() ==> in_radius(self.spec_radius(), #[trigger] self.cells()[i])
                    && self.index_of(self.cells()[i]) == i,
            forall|c: HexCoord|
                #![trigger self.index_of(c)]
                in_radius(self.spec_radius(), c) ==> 0 <= self.index_of(c) < self.cells().len()
                    && self.cells()[self.index_of(c)] == c,
    {
        assert forall|c: HexCoord| #![trigger self.index_of(c)] in_radius(self.spec_radius(), c) implies
            0 <= self.index_of(c) < self.cells().len() && self.cells()[self.index_of(c)] == c by {
            assert(self.lookup@[dense_pos(self.radius as int, c)] < self.coords@.len());
        }
    }

    /// A grid of radius `R` holds `3R² + 3R + 1` cells, all within the radius,
    /// and each coordinate within the radius is the cell at exactly one index.
    pub proof fn lemma_one_cell_per_coordinate(&self, c: HexCoord)
        requires
            self.wf(),
        ensures
            self.cells().len() == 3 * self.spec_radius() * self.spec_radius() + 3 * self.spec_radius()
                + 1,
            forall|i: int| 0 <= i < self.cells().len() ==> in_radius(self.spec_radius(), #[trigger] self.cells()[i]),
            in_radius(self.spec_radius(), c) ==> exists|i: int|
                0 <= i < self.cells().len() && self.cells()[i] == c,
            forall|i: int, j: int|
                0 <= i < self.cells().len() && 0 <= j < self.cells().len() && #[trigger] self.cells()[i]
                    == #[trigger] self.cells()[j] ==> i == j,
    {
        self.lemma_wf();
        lemma_cell_count(self.spec_radius());
        if in_radius(self.spec_radius(), c) {
            assert(self.cells()[self.index_of(c)] == c);
        }
        assert forall|i: int, j: int|
            0 <= i < self.cells().len() && 0 <= j < self.cells().len() && #[trigger] self.cells()[i]
                == #[trigger] self.cells()[j] implies i == j by {
            assert(self.index_of(self.cells()[i]) == i);
            assert(self.index_of(self.cells()[j]) == j);
        }
    }

    /// Distinct directions from a cell lead to distinct neighbours.
    pub proof fn lemma_neighbor_unique(&self, c: int, k1: int, k2: int)
        requires
            self.wf(),
            0 <= c < self.cells().len(),
            0 <= k1 < 6,
            0 <= k2 < 6,
            self.spec_neighbor(c, k1) is Some,
            self.spec_neighbor(c, k1) == self.spec_neighbor(c, k2),
        ensures
            k1 == k2,
    {
        self.lemma_wf();
        let j = self.spec_neighbor(c, k1)->0;
        assert(self.cells()[j] == spec_step(self.cells()[c], k1));
        assert(self.cells()[j] == spec_step(self.cells()[c], k2));
    }

    /// If `t` neighbours `c` in direction `d`, then `c` neighbours `t` in the
    /// opposite direction.
    pub proof fn lemma_neighbor_back(&self, c: int, d: int, t: int)
        requires
            self.wf(),
            0 <= c < self.cells().len(),
            0 <= d < 6,
            self.spec_neighbor(c, d) == Some(t),
        ensures
            0 <= t < self.cells().len(),
            self.spec_neighbor(t, (d + 3) % 6) == Some(c),
    {
        self.lemma_wf();
        let cc = self.cells()[c];
        assert(self.cells()[t] == spec_step(cc, d));
        crate::hex::lemma_opposite_direction(cc, d);
        assert(self.index_of(cc) == c);
    }

    /// The region of the given radius.
    pub fn new(radius: i32) -> (g: HexGrid)
        requires
            0 <= radius <= MAX_RADIUS,
        ensures
            g.wf(),
            g.spec_radius() == radius,
            g.cells().len() == 3 * radius * radius + 3 * radius + 1,
            forall|a: int, b: int|
                0 <= a < b < g.cells().len() ==> row_before(#[trigger] g.cells()[a], #[trigger] g.cells()[b]),
    {
        let w: usize = (2 * radius + 1) as usize;
        let mut lookup: Vec<usize> = Vec::new();
        proof {
            assert(w * w <= 2001 * 2001) by (nonlinear_arith)
                requires
                    w <= 2001,
            ;
        }
        let total: usize = w * w;
        let mut k: usize = 0;
        while k < total
            invariant
                k <= total,
                lookup@.len() == k,
            decreases total - k,
        {
            lookup.push(0);
            k = k + 1;
        }
        let ghost rad = radius as int;
        let mut coords: Vec<HexCoord> = Vec::new();
        let mut q: i32 = -radius;
        while q <= radius
            invariant
                0 <= radius <= MAX_RADIUS,
                rad == radius as int,
                w == width(rad),
                -radius <= q <= radius + 1,
                lookup@.len() == w * w,
                coords@.len() == cells_before(rad, (q + radius) as nat),
                forall|a: int, b: int|
                    0 <= a < b < coords@.len() ==> row_before(#[trigger] coords@[a], #[trigger] coords@[b]),
                forall|i: int|
                    0 <= i < coords@.len() ==> in_radius(rad, #[trigger] coords@[i]) && coords@[i].q
                        < q && lookup@[dense_pos(rad, coords@[i])] == i,
                forall|c: HexCoord|
                    #![trigger dense_pos(rad, c)]
                    in_radius(rad, c) && c.q < q ==> lookup@[dense_pos(rad, c)] < coords@.len()
                        && coords@[lookup@[dense_pos(rad, c)] as int] == c,
            decreases radius + 1 - q,
        {
            let r_lo: i32 = if -radius >= -q - radius {
                -radius
            } else {
                -q - radius
            };
            let r_hi: i32 = if radius <= radius - q {
                radius
            } else {
                radius - q
            };
            let ghost start = coords@.len();
            let mut r: i32 = r_lo;
            while r <= r_hi
                invariant
                    0 <= radius <= MAX_RADIUS,
                    rad == radius as int,
                    w == width(rad),
                    -radius <= q <= radius,
                    r_lo == row_lo(rad, q as int),
                    r_hi == row_hi(rad, q as int),
                    r_lo <= r <= r_hi + 1,
                    lookup@.len() == w * w,
                    start == cells_before(rad, (q + radius) as nat),
                    coords@.len() == start + (r - r_lo),
                    forall|a: int, b: int|
                        0 <= a < b < coords@.len() ==> row_before(#[trigger] coords@[a], #[trigger] coords@[b]),
                    forall|i: int|
                        0 <= i < coords@.len() ==> in_radius(rad, #[trigger] coords@[i]) && (
                        coords@[i].q < q || (coords@[i].q == q && coords@[i].r < r)) && lookup@[dense_pos(
                            rad,
                            coords@[i],
                        )] == i,
                    forall|c: HexCoord|
                        #![trigger dense_pos(rad, c)]
                        in_radius(rad, c) && (c.q < q || (c.q == q && c.r < r)) ==> lookup@[dense_pos(
                            rad,
                            c,
                        )] < coords@.len() && coords@[lookup@[dense_pos(rad, c)] as int] == c,
                decreases r_hi + 1 - r,
            {
                let c = HexCoord { q, r };
                proof {
                    lemma_dense_pos_range(rad, c);
                    assert forall|c2: HexCoord|
                        in_radius(rad, c2) && c2 != c implies dense_pos(rad, c2) != dense_pos(rad, c) by {
                        if dense_pos(rad, c2) == dense_pos(rad, c) {
                            lemma_dense_pos_injective(rad, c2, c);
                        }
                    }
                }
                proof {
                    assert((q + radius) * w <= 2000 * 2001) by (nonlinear_arith)
                        requires
                            0 <= q + radius <= 2000,
                            w <= 2001,
                    ;
                }
                let p: usize = ((q + radius) as usize) * w + ((r + radius) as usize);
                let idx: usize = coords.len();
                let ghost old_lookup = lookup@;
                let ghost old_coords = coords@;
                assert(p == dense_pos(rad, c));
                lookup.set(p, idx);
                coords.push(c);
                proof {
                    assert(coords@[idx as int] == c);
                    assert(lookup@[dense_pos(rad, c)] == idx);
                    assert forall|a: int, b: int|
                        0 <= a < b < coords@.len() implies row_before(#[trigger] coords@[a], #[trigger] coords@[b]) by {
                        if b == idx as int {
                            assert(coords@[a] == old_coords[a]);
                        } else {
                            assert(coords@[a] == old_coords[a]);
                            assert(coords@[b] == old_coords[b]);
                        }
                    }
                    assert forall|c2: HexCoord|
                        #![trigger dense_pos(rad, c2)]
                        in_radius(rad, c2) && (c2.q < q || (c2.q == q && c2.r < r + 1)) implies lookup@[dense_pos(
                            rad,
                            c2,
                        )] < coords@.len() && coords@[lookup@[dense_pos(rad, c2)] as int] == c2 by {
                        if c2 != c {
                            assert(c2.q < q || (c2.q == q && c2.r < r));
                            assert(dense_pos(rad, c2) != dense_pos(rad, c));
                            lemma_dense_pos_range(rad, c2);
                            assert(lookup@[dense_pos(rad, c2)] == old_lookup[dense_pos(rad, c2)]);
                            assert(old_lookup[dense_pos(rad, c2)] < old_coords.len());
                        }
                    }
                }
                r = r + 1;
            }
            proof {
                assert(row_len(rad, q as int) == r_hi - r_lo + 1);
                assert(cells_before(rad, (q + 1 + radius) as nat) == cells_before(
                    rad,
                    (q + radius) as nat,
                ) + row_len(rad, q as int));
            }
            q = q + 1;
        }
        proof {
            lemma_cell_count(radius as int);
        }
        HexGrid { radius, coords, lookup }
    }

    pub fn radius(&self) -> (r: i32)
        ensures
            r == self.spec_radius(),
    {
        self.radius
    }

    pub fn len(&self) -> (n: usize)
        ensures
            n == self.cells().len(),
    {
        self.coords.len()
    }

    /// The coordinate of cell `i`.
    pub fn coord(&self, i: usize) -> (c: HexCoord)
        requires
            i < self.cells().len(),
        ensures
            c == self.cells()[i as int],
    {
        self.coords[i]
    }

    /// All cells, in row order.
    pub fn coords(&self) -> (v: Vec<HexCoord>)
        ensures
            v@ == self.cells(),
    {
        self.coords.clone()
    }

    /// Index of the cell at `c`, if `c` lies in the region.
    pub fn find(&self, c: HexCoord) -> (r: Option<usize>)
        requires
            self.wf(),
        ensures
            r is None <==> !in_radius(self.spec_radius(), c),
            r matches Some(i) ==> i == self.index_of(c) && i < self.cells().len()
                && self.cells()[i as int] == c,
    {
        proof {
            self.lemma_wf();
        }
        let radius = self.radius as i64;
        let q = c.q as i64;
        let r = c.r as i64;
        let aq = if q < 0 { -q } else { q };
        let ar = if r < 0 { -r } else { r };
        let s = q + r;
        let as_ = if s < 0 { -s } else { s };
        if aq <= radius && ar <= radius && as_ <= radius {
            proof {
                lemma_dense_pos_range(radius as int, c);
            }
            let w: usize = (2 * radius + 1) as usize;
            proof {
                assert((q + radius) * (w as int) <= 2000 * 2001) by (nonlinear_arith)
                    requires
                        0 <= q + radius <= 2000,
                        w <= 2001,
                ;
            }
            let p: usize = ((q + radius) as usize) * w + ((r + radius) as usize);
            Some(self.lookup[p])
        } else {
            None
        }
    }

    /// Index of the neighbour of cell `i` in direction `d`, if it lies in the region.
    pub fn neighbor(&self, i: usize, d: usize) -> (r: Option<usize>)
        requires
            self.wf(),
            i < self.cells().len(),
            d < 6,
        ensures
            r is None <==> self.spec_neighbor(i as int, d as int) is None,
            r matches Some(j) ==> self.spec_neighbor(i as int, d as int) == Some(j as int),
            r matches Some(j) ==> j < self.cells().len() && self.cells()[j as int] == spec_step(
                self.cells()[i as int],
                d as int,
            ),
    {
        proof {
            self.lemma_wf();
        }
        let c = step_in_direction(self.coords[i], d);
        self.find(c)
    }
}

} // verus!
