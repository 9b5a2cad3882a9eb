use vstd::prelude::*;

use crate::fixed::Fixed;
use crate::particle_system::Vector2;

verus! {

/// Distance below which two particles repel, in raw units.
pub const D_0: i64 = 30_000_000;

/// Distance at which the attraction between two particles peaks, in raw units.
pub const D_1: i64 = 60_000_000;

/// Distance from which two particles no longer interact, in raw units.
pub const D_MAX: i64 = 120_000_000;

/// Interaction between two particles at `distance`, for the pair's strengths
/// `strengths` (`x` below `D_0`, `y` above): linear in the distance up to
/// `D_1`, then falling linearly to zero at `D_MAX`.
pub open spec fn interaction_spec(strengths: Vector2, distance: Fixed) -> Fixed {
    let d0 = Fixed { raw: D_0 };
    let d1 = Fixed { raw: D_1 };
    let dmax = Fixed { raw: D_MAX };
    if distance.raw < D_0 {
        strengths.x.spec_mul(distance.spec_sub(d0))
    } else if distance.raw < D_1 {
        strengths.y.spec_mul(distance.spec_sub(d0))
    } else if distance.raw < D_MAX {
        strengths.y.spec_mul(d1.spec_sub(d0)).spec_mul(dmax.spec_sub(distance)).spec_div(
            dmax.spec_sub(d1),
        )
    } else {
        Fixed::spec_zero()
    }
}

pub fn interaction_force(strengths: Vector2, distance: Fixed) -> (r: Fixed)
    ensures
        r == interaction_spec(strengths, distance),
{
    let d0 = Fixed::from_raw(D_0);
    let d1 = Fixed::from_raw(D_1);
    let dmax = Fixed::from_raw(D_MAX);
    if distance.raw < D_0 {
        strengths.x.mul(distance.sub(d0))
    } else if distance.raw < D_1 {
        strengths.y.mul(distance.sub(d0))
    } else if distance.raw < D_MAX {
        strengths.y.mul(d1.sub(d0)).mul(dmax.sub(distance)).div(dmax.sub(d1))
    } else {
        Fixed::zero()
    }
}

/// Strengths of the first entry stored under the kinds `(k0, k1)`, in that order.
pub open spec fn lookup(entries: Seq<(usize, usize, Vector2)>, k0: usize, k1: usize) -> Option<
    Vector2,
>
    decreases entries.len(),
{
    if entries.len() == 0 {
        None
    } else if entries[0].0 == k0 && entries[0].1 == k1 {
        Some(entries[0].2)
    } else {
        lookup(entries.drop_first(), k0, k1)
    }
}

/// Interaction strengths for pairs of particle kinds, where a pair may be
/// stored in either order.
pub struct KindTable {
    pub entries: Vec<(usize, usize, Vector2)>,
}

impl KindTable {
    /// Strengths for the kinds `(k0, k1)`, or else for `(k1, k0)`.
    pub open spec fn spec_get(&self, k0: usize, k1: usize) -> Option<Vector2> {
        match lookup(self.entries@, k0, k1) {
            Some(s) => Some(s),
            None => lookup(self.entries@, k1, k0),
        }
    }

    pub fn new(entries: Vec<(usize, usize, Vector2)>) -> (r: KindTable)
        ensures
            r.entries@ == entries@,
    {
        KindTable { entries }
    }

    fn find(&self, k0: usize, k1: usize) -> (r: Option<Vector2>)
        ensures
            r == lookup(self.entries@, k0, k1),
    {
        let mut i: usize = 0;
        assert(self.entries@.subrange(0, self.entries@.len() as int) =~= self.entries@);
        while i < self.entries.len()
            invariant
                i <= self.entries@.len(),
                lookup(self.entries@, k0, k1) == lookup(
                    self.entries@.subrange(i as int, self.entries@.len() as int),
                    k0,
                    k1,
                ),
            decreases self.entries@.len() - i,
        {
            let e = self.entries[i];
            proof {
                let rest = self.entries@.subrange(i as int, self.entries@.len() as int);
                let len = self.entries@.len() as int;
                assert(rest.drop_first() =~= self.entries@.subrange(i + 1, len));
            }
            if e.0 == k0 && e.1 == k1 {
                return Some(e.2);
            }
            i = i + 1;
        }
        None
    }

    pub fn get(&self, k0: usize, k1: usize) -> (r: Option<Vector2>)
        ensures
            r == self.spec_get(k0, k1),
    {
        match self.find(k0, k1) {
            Some(s) => Some(s),
            None => self.find(k1, k0),
        }
    }
}

} // verus!
