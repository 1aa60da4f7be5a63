//! Sixty-four threads of sixteen particles, solved in two colors.

use vstd::prelude::*;
use crate::pbd::bristle::PRIMITIVE_RESTART;
use crate::pbd::grid::lemma_grid_coords;
use crate::pbd::line_particle::{generate_line_particles, line_constraint, line_mass, LineParticles};
use crate::pbd::solver::{SolverDispatch, SolverKernel};

verus! {

/// The number of threads.
pub const LINE_NUM: u32 = 64;

/// The number of particles of one thread.
pub const LINE_PARTICLE_NUM: u32 = 16;

/// The number of sub-iterations of one frame.
pub const LINE_ITER_COUNT: u32 = 20;

/// Index `k` of the index list that draws the threads as line strips. The
/// place of the last particle of each thread holds the restart index.
pub open spec fn line_index_at(line_particle_num: int, k: int) -> u32 {
    if k % line_particle_num == line_particle_num - 1 {
        PRIMITIVE_RESTART
    } else {
        k as u32
    }
}

/// The index list that draws `line_num` threads of `line_particle_num`
/// particles each as line strips.
pub fn line_index_data(line_num: u32, line_particle_num: u32) -> (index_data: Vec<u32>)
    requires
        line_num * line_particle_num <= u32::MAX,
    ensures
        index_data@.len() == line_num * line_particle_num,
        forall|k: int|
            0 <= k < index_data@.len() ==> #[trigger] index_data@[k] == line_index_at(
                line_particle_num as int,
                k,
            ),
{
    let ghost ln = line_num as int;
    let ghost pn = line_particle_num as int;
    let mut index_data: Vec<u32> = Vec::new();
    proof {
        assert(0 * pn == 0);
    }
    let mut line: u32 = 0;
    while line < line_num
        invariant
            line <= line_num,
            ln == line_num,
            pn == line_particle_num,
            ln * pn <= u32::MAX,
            index_data@.len() == line * pn,
            forall|k: int|
                0 <= k < index_data@.len() ==> #[trigger] index_data@[k] == line_index_at(pn, k),
        decreases line_num - line,
    {
        let mut n: u32 = 0;
        while n < line_particle_num
            invariant
                line < line_num,
                n <= line_particle_num,
                ln == line_num,
                pn == line_particle_num,
                ln * pn <= u32::MAX,
                index_data@.len() == line * pn + n,
                forall|k: int|
                    0 <= k < index_data@.len() ==> #[trigger] index_data@[k] == line_index_at(
                        pn,
                        k,
                    ),
            decreases line_particle_num - n,
        {
            proof {
                lemma_grid_coords(pn, line as int, n as int);
                crate::pbd::grid::lemma_grid_bound(pn, ln, line as int, n as int);
                assert(pn * ln == ln * pn) by (nonlinear_arith);
            }
            let current: u32 = line * line_particle_num + n;
            if n < line_particle_num - 1 {
                index_data.push(current);
            } else {
                index_data.push(PRIMITIVE_RESTART);
            }
            n += 1;
        }
        proof {
            assert((line + 1) * pn == line * pn + pn) by (nonlinear_arith);
        }
        line += 1;
    }
    index_data
}

/// Dispatch `k` of a frame of the threads: predict once, then in each of
/// 20 sub-iterations relax the even constraints, then the odd ones.
pub open spec fn line_dispatch(k: int) -> SolverDispatch {
    if k == 0 {
        SolverDispatch {
            kernel: SolverKernel::Predict,
            iteration: 0,
            color: 0,
            dynamic_offset: 0,
            workgroups: (8u32, 2u32, 1u32),
        }
    } else {
        SolverDispatch {
            kernel: SolverKernel::Constraints,
            iteration: ((k - 1) / 2) as u32,
            color: ((k - 1) % 2) as u32,
            dynamic_offset: 0,
            workgroups: (8u32, 1u32, 1u32),
        }
    }
}

/// The threads and their solver, as far as integers describe them.
pub struct Line {
    particles: LineParticles,
    group_count: (u32, u32, u32),
}

impl Line {
    /// Whether these are the 64 threads of 16 particles, dispatched in
    /// 8 by 2 workgroups.
    pub closed spec fn wf(&self) -> bool {
        &&& self.group_count == (8u32, 2u32, 1u32)
        &&& self.particles.mass@.len() == 64 * 16
        &&& self.particles.constraints@.len() == 64 * 16
        &&& forall|p: int|
            0 <= p < 64 * 16 ==> #[trigger] self.particles.mass@[p] == line_mass(16, p)
        &&& forall|p: int|
            0 <= p < 64 * 16 ==> #[trigger] self.particles.constraints@[p] == line_constraint(
                16,
                p,
            )
    }

    /// The particles and constraints of the threads.
    pub closed spec fn particles_spec(&self) -> LineParticles {
        self.particles
    }

    /// The workgroups of the prediction.
    pub closed spec fn groups(&self) -> (u32, u32, u32) {
        self.group_count
    }

    /// What a well-formed `Line` holds.
    pub proof fn lemma_wf(&self)
        requires
            self.wf(),
        ensures
            self.groups() == (8u32, 2u32, 1u32),
            self.particles_spec().mass@.len() == 64 * 16,
            self.particles_spec().constraints@.len() == 64 * 16,
            forall|p: int|
                0 <= p < 64 * 16 ==> #[trigger] self.particles_spec().mass@[p] == line_mass(16, p),
            forall|p: int|
                0 <= p < 64 * 16 ==> #[trigger] self.particles_spec().constraints@[p]
                    == line_constraint(16, p),
    {
    }

    /// The threads before their first frame.
    pub fn new() -> (line: Self)
        ensures
            line.wf(),
    {
        let particles = generate_line_particles(LINE_NUM as usize, LINE_PARTICLE_NUM as usize);
        Line { particles, group_count: (LINE_NUM / 8, 2, 1) }
    }

    /// The particles and constraints of the threads.
    pub fn particles(&self) -> (particles: &LineParticles)
        ensures
            *particles == self.particles_spec(),
    {
        &self.particles
    }

    /// The workgroups of the prediction.
    pub fn group_count(&self) -> (count: (u32, u32, u32))
        ensures
            count == self.groups(),
    {
        self.group_count
    }

    /// The index list that draws the threads.
    pub fn index_data(&self) -> (index_data: Vec<u32>)
        ensures
            index_data@.len() == 64 * 16,
            forall|k: int|
                0 <= k < index_data@.len() ==> #[trigger] index_data@[k] == line_index_at(16, k),
    {
        line_index_data(LINE_NUM, LINE_PARTICLE_NUM)
    }

    /// Lists the dispatches of one frame, in the order in which they must run.
    pub fn enter_frame(&self) -> (passes: Vec<SolverDispatch>)
        requires
            self.wf(),
        ensures
            passes@.len() == 41,
            forall|k: int| 0 <= k < passes@.len() ==> #[trigger] passes@[k] == line_dispatch(k),
    {
        let mut passes: Vec<SolverDispatch> = Vec::new();
        passes.push(
            SolverDispatch {
                kernel: SolverKernel::Predict,
                iteration: 0,
                color: 0,
                dynamic_offset: 0,
                workgroups: self.group_count,
            },
        );
        let mut i: u32 = 0;
        while i < LINE_ITER_COUNT
            invariant
                i <= 20,
                self.wf(),
                passes@.len() == 1 + 2 * i,
                forall|k: int| 0 <= k < passes@.len() ==> #[trigger] passes@[k] == line_dispatch(k),
            decreases 20 - i,
        {
            passes.push(
                SolverDispatch {
                    kernel: SolverKernel::Constraints,
                    iteration: i,
                    color: 0,
                    dynamic_offset: 0,
                    workgroups: (self.group_count.0, 1, 1),
                },
            );
            passes.push(
                SolverDispatch {
                    kernel: SolverKernel::Constraints,
                    iteration: i,
                    color: 1,
                    dynamic_offset: 0,
                    workgroups: (self.group_count.0, 1, 1),
                },
            );
            i += 1;
        }
        passes
    }
}

} // verus!
