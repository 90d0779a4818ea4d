//! The density field that the surface extraction samples.
use vstd::prelude::*;

use crate::density::{kernel, kernel_weight};
use crate::geometry::{bounded, Vec3};
use crate::units::{MAX_COORD, MAX_PARTICLES, SELF_DENSITY};

verus! {

/// The shapes whose surface can be extracted.
#[derive(Clone, Copy, Debug, PartialEq, Eq, Hash)]
pub enum Model {
    NewModel,
}

/// The fluid as a density field: the positions of its particles.
pub struct ParticleModel {
    pub positions: Vec<Vec3>,
}

/// The kernel contributions at `at` of the particles `j < hi`.
pub open spec fn field_density(pos: Seq<Vec3>, at: Vec3, hi: int) -> int
    decreases hi,
{
    if hi <= 0 {
        0
    } else {
        field_density(pos, at, hi - 1) + kernel(at, pos[hi - 1])
    }
}

proof fn lemma_field_density_bound(pos: Seq<Vec3>, at: Vec3, hi: int)
    requires
        0 <= hi <= MAX_PARTICLES,
    ensures
        0 <= field_density(pos, at, hi) <= hi * SELF_DENSITY,
    decreases hi,
{
    if hi > 0 {
        lemma_field_density_bound(pos, at, hi - 1);
        crate::density::lemma_kernel_bound(at, pos[hi - 1]);
    }
}

impl ParticleModel {
    /// The density at a point: the sum of the kernel over all particles.
    pub fn get_density(&self, x: i64, y: i64, z: i64) -> (d: i64)
        requires
            self.positions.len() <= MAX_PARTICLES,
            bounded(Vec3 { x, y, z }, MAX_COORD as int),
            forall|j: int|
                0 <= j < self.positions.len() ==> bounded(
                    #[trigger] self.positions@[j],
                    MAX_COORD as int,
                ),
        ensures
            d == field_density(self.positions@, Vec3 { x, y, z }, self.positions.len() as int),
    {
        let at = Vec3 { x, y, z };
        let n = self.positions.len();
        let mut total: i64 = 0;
        let mut j: usize = 0;
        while j < n
            invariant
                0 <= j <= n <= MAX_PARTICLES,
                n == self.positions.len(),
                bounded(at, MAX_COORD as int),
                forall|i: int|
                    0 <= i < n ==> bounded(#[trigger] self.positions@[i], MAX_COORD as int),
                total == field_density(self.positions@, at, j as int),
            decreases n - j,
        {
            proof {
                lemma_field_density_bound(self.positions@, at, j + 1);
                assert((j + 1) * SELF_DENSITY <= MAX_PARTICLES * SELF_DENSITY) by (nonlinear_arith)
                    requires
                        j + 1 <= MAX_PARTICLES,
                ;
            }
            total = total + kernel_weight(&at, &self.positions[j]);
            j += 1;
        }
        total
    }
}

} // verus!
