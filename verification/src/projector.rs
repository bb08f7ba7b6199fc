use vstd::prelude::*;
use vstd::arithmetic::div_mod::{lemma_div_is_ordered_by_denominator, lemma_div_multiples_vanish};
use crate::fixed::{floor_div, lemma_floor_div_bound};
use crate::grid::CELL_MAX;
use crate::raycast::Hit;

verus! {

/// Largest reference height of a projector.
pub const HEIGHT_MAX: i64 = 0x8000_0000;

/// Maps the distance of a wall to the height of its screen column: a wall
/// one cell side away fills the reference height.
#[derive(Clone, Copy, Debug, PartialEq, Eq, Structural)]
pub struct Projector {
    pub cell: i64,
    pub reference: i64,
}

/// `cell * reference / dist`, clamped to `0..=reference`. At distance zero
/// the quotient is unbounded and the clamp gives `reference`; a negative
/// distance gives a negative quotient and the clamp gives zero.
pub open spec fn height_spec(cell: int, reference: int, dist: int) -> int {
    if dist == 0 {
        reference
    } else if dist < 0 {
        0
    } else if (cell * reference) / dist > reference {
        reference
    } else {
        (cell * reference) / dist
    }
}

/// The height is never negative and never above the reference height.
pub proof fn lemma_height_bounded(cell: int, reference: int, dist: int)
    requires
        cell >= 1,
        reference >= 0,
    ensures
        0 <= height_spec(cell, reference, dist) <= reference,
{
    if dist > 0 {
        assert(cell * reference >= 0) by (nonlinear_arith)
            requires
                cell >= 1,
                reference >= 0,
        ;
        lemma_floor_div_bound(cell * reference, dist, cell * reference);
    }
}

/// A wall exactly one cell side away gets the full reference height.
pub proof fn lemma_height_at_one_cell(cell: int, reference: int)
    requires
        cell >= 1,
        reference >= 0,
    ensures
        height_spec(cell, reference, cell) == reference,
{
    lemma_div_multiples_vanish(reference, cell);
}

/// A wall that is farther away is never drawn taller.
pub proof fn lemma_height_monotone(cell: int, reference: int, near: int, far: int)
    requires
        cell >= 1,
        reference >= 0,
        0 <= near <= far,
    ensures
        height_spec(cell, reference, near) >= height_spec(cell, reference, far),
{
    lemma_height_bounded(cell, reference, far);
    if near > 0 {
        assert(cell * reference >= 0) by (nonlinear_arith)
            requires
                cell >= 1,
                reference >= 0,
        ;
        lemma_div_is_ordered_by_denominator(cell * reference, near, far);
    }
}

impl Projector {
    /// The cell side lies in `1..=CELL_MAX` and the reference height in
    /// `0..=HEIGHT_MAX`.
    pub open spec fn wf(&self) -> bool {
        &&& 1 <= self.cell <= CELL_MAX
        &&& 0 <= self.reference <= HEIGHT_MAX
    }

    /// Accepts a cell side in `1..=CELL_MAX` and a reference height in
    /// `0..=HEIGHT_MAX`, and nothing else.
    pub fn new(cell: i64, reference: i64) -> (r: Option<Projector>)
        ensures
            r.is_some() == (Projector { cell, reference }).wf(),
            r.is_some() ==> r.unwrap() == (Projector { cell, reference }),
    {
        if 1 <= cell && cell <= CELL_MAX && 0 <= reference && reference <= HEIGHT_MAX {
            Some(Projector { cell, reference })
        } else {
            None
        }
    }

    /// The column height of a wall at distance `dist`.
    pub fn height_for(&self, dist: i64) -> (h: i64)
        requires
            self.wf(),
        ensures
            h == height_spec(self.cell as int, self.reference as int, dist as int),
            0 <= h <= self.reference,
    {
        if dist == 0 {
            return self.reference;
        }
        if dist < 0 {
            return 0;
        }
        proof {
            assert(0 <= self.cell * self.reference <= 0x10_0000 * 0x8000_0000) by (nonlinear_arith)
                requires
                    1 <= self.cell <= 0x10_0000,
                    0 <= self.reference <= 0x8000_0000,
            ;
            lemma_floor_div_bound(self.cell * self.reference, dist as int, self.cell * self.reference);
        }
        let q: i128 = floor_div((self.cell as i128) * (self.reference as i128), dist as i128);
        if q > self.reference as i128 {
            self.reference
        } else {
            q as i64
        }
    }

    /// The column height of what a ray found: zero where it found no wall.
    pub fn column_height(&self, hit: Option<Hit>) -> (h: i64)
        requires
            self.wf(),
        ensures
            h == match hit {
                Some(w) => height_spec(self.cell as int, self.reference as int, w.dist as int),
                None => 0,
            },
            0 <= h <= self.reference,
    {
        match hit {
            Some(w) => self.height_for(w.dist),
            None => 0,
        }
    }
}

} // verus!
