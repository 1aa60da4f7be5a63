//! Threads: chains of particles hung by their first particle.

use vstd::prelude::*;
use crate::pbd::grid::{col_of, lemma_grid_coords, MassClass};
use crate::pbd::{ParticleConstraint, StretchConstraintObj};

verus! {

/// The constraint of particle `p` of a thread of `vn` particles: to the
/// next particle of the thread, or the constraint that names no particle
/// for the last particle of a thread.
pub open spec fn line_constraint(vn: int, p: int) -> StretchConstraintObj {
    if col_of(vn, p) < vn - 1 {
        StretchConstraintObj { particle0: p as i32, particle1: (p + 1) as i32 }
    } else {
        StretchConstraintObj { particle0: -1i32, particle1: -1i32 }
    }
}

/// How heavy particle `p` is: the first particle of each thread is pinned.
pub open spec fn line_mass(vn: int, p: int) -> MassClass {
    if col_of(vn, p) == 0 {
        MassClass::Pinned
    } else {
        MassClass::Interior
    }
}

/// Threads, as far as integers describe them: one weight class and one
/// constraint for each particle.
pub struct LineParticles {
    pub mass: Vec<MassClass>,
    pub constraints: Vec<StretchConstraintObj>,
}

/// Builds `horizontal_num` threads of `vertical_num` particles each.
pub fn generate_line_particles(horizontal_num: usize, vertical_num: usize) -> (lines: LineParticles)
    requires
        horizontal_num * vertical_num <= i32::MAX,
    ensures
        lines.mass@.len() == horizontal_num * vertical_num,
        lines.constraints@.len() == horizontal_num * vertical_num,
        forall|p: int|
            0 <= p < lines.mass@.len() ==> #[trigger] lines.mass@[p] == line_mass(
                vertical_num as int,
                p,
            ),
        forall|p: int|
            0 <= p < lines.constraints@.len() ==> #[trigger] lines.constraints@[p]
                == line_constraint(vertical_num as int, p),
{
    let ghost hn = horizontal_num as int;
    let ghost vn = vertical_num as int;
    let mut mass: Vec<MassClass> = Vec::new();
    let mut constraints: Vec<StretchConstraintObj> = Vec::new();
    proof {
        assert(0 * vn == 0);
    }
    let mut line_index: usize = 0;
    while line_index < horizontal_num
        invariant
            line_index <= horizontal_num,
            hn == horizontal_num,
            vn == vertical_num,
            hn * vn <= i32::MAX,
            mass@.len() == line_index * vn,
            constraints@.len() == line_index * vn,
            forall|p: int| 0 <= p < mass@.len() ==> #[trigger] mass@[p] == line_mass(vn, p),
            forall|p: int|
                0 <= p < constraints@.len() ==> #[trigger] constraints@[p] == line_constraint(
                    vn,
                    p,
                ),
        decreases horizontal_num - line_index,
    {
        let mut h: usize = 0;
        while h < vertical_num
            invariant
                line_index < horizontal_num,
                h <= vertical_num,
                hn == horizontal_num,
                vn == vertical_num,
                hn * vn <= i32::MAX,
                mass@.len() == line_index * vn + h,
                constraints@.len() == line_index * vn + h,
                forall|p: int| 0 <= p < mass@.len() ==> #[trigger] mass@[p] == line_mass(vn, p),
                forall|p: int|
                    0 <= p < constraints@.len() ==> #[trigger] constraints@[p] == line_constraint(
                        vn,
                        p,
                    ),
            decreases vertical_num - h,
        {
            proof {
                lemma_grid_coords(vn, line_index as int, h as int);
                crate::pbd::grid::lemma_grid_bound(vn, hn, line_index as int, h as int);
                assert(vn * hn == hn * vn) by (nonlinear_arith);
            }
            let index = line_index * vertical_num + h;
            mass.push(
                if h == 0 {
                    MassClass::Pinned
                } else {
                    MassClass::Interior
                },
            );
            if h < vertical_num - 1 {
                constraints.push(
                    StretchConstraintObj { particle0: index as i32, particle1: 1 + index as i32 },
                );
            } else {
                constraints.push(StretchConstraintObj { particle0: -1, particle1: -1 });
            }
            h += 1;
        }
        proof {
            assert((line_index + 1) * vn == line_index * vn + vn) by (nonlinear_arith);
        }
        line_index += 1;
    }
    LineParticles { mass, constraints }
}

/// Every constraint that ties two particles ties particles of the threads.
pub proof fn lemma_line_constraints_within(hn: int, vn: int, p: int)
    requires
        0 <= hn,
        1 <= vn,
        hn * vn <= i32::MAX,
        0 <= p < hn * vn,
        line_constraint(vn, p).particle0 != -1,
    ensures
        line_constraint(vn, p).particle0 == p,
        line_constraint(vn, p).particle1 == p + 1,
        p + 1 < hn * vn,
{
    assert(hn * vn == vn * hn) by (nonlinear_arith);
    crate::pbd::grid::lemma_grid_split(vn, hn, p);
    crate::pbd::grid::lemma_grid_bound(vn, hn, p / vn, p % vn + 1);
}

/// The constraints of the threads fall into two colors, by the parity of
/// their number. Two different constraints of one color that each tie two
/// particles have no particle in common.
pub proof fn lemma_line_colors_apart(vn: int, total: int, p: int, q: int)
    requires
        1 <= vn,
        0 <= total <= i32::MAX,
        0 <= p < total,
        0 <= q < total,
        p != q,
        p % 2 == q % 2,
        line_constraint(vn, p).particle0 != -1,
        line_constraint(vn, q).particle0 != -1,
    ensures
        !line_constraint(vn, p).shares_particle(line_constraint(vn, q)),
        line_constraint(vn, p).particles().disjoint(line_constraint(vn, q).particles()),
{
    vstd::arithmetic::div_mod::lemma_mod_bound(p, vn);
    vstd::arithmetic::div_mod::lemma_mod_bound(q, vn);
    crate::pbd::lemma_stretch_shares_iff_overlap(line_constraint(vn, p), line_constraint(vn, q));
}

} // verus!
