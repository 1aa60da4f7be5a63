//! A cloth hung by its top corners, solved with stretch and bending
//! constraints.

use vstd::prelude::*;
use crate::geometry::{cloth_index_at, cloth_index_data, cloth_quads};
use crate::pbd::particle::{generate_cloth_particles, lemma_color_groups, ClothParticles};
use crate::pbd::solver::{
    bend_color_fits, bend_uniform, bend_uniforms, round_len, stretch_uniforms, xpbd_dispatch,
    xpbd_step, SolverDispatch,
};
use crate::pbd::{colors_conflict_free, BendingDynamicUniform, MeshColoringObj};

verus! {

/// The number of particles across the cloth.
pub const PARTICLE_X_NUM: u32 = 32;

/// The number of particles down the cloth.
pub const PARTICLE_Y_NUM: u32 = 58;

/// The number of sub-iterations of one solver step.
pub const PBD_ITER_COUNT: usize = 15;

/// The cloth and its solver, as far as integers describe them.
pub struct ClothX {
    particles: ClothParticles,
    frame_count: usize,
    pbd_iter_count: usize,
}

impl ClothX {
    /// Whether this is the cloth of 32 by 58 particles, colored without
    /// conflicts, solved in 15 sub-iterations.
    pub closed spec fn wf(&self) -> bool {
        &&& self.particles.is_cloth(32, 58)
        &&& colors_conflict_free(
            self.particles.mesh_coloring@,
            self.particles.constraints@,
            self.particles.reorder_constraints@,
        )
        &&& colors_conflict_free(
            self.particles.bend_mesh_coloring@,
            self.particles.bend_constraint@,
            self.particles.reorder_bendings@,
        )
        &&& self.particles.mesh_coloring@.len() <= 32 * 58 + 1
        &&& self.pbd_iter_count == 15
    }

    /// The particles, constraints and colors of the cloth.
    pub closed spec fn particles_spec(&self) -> ClothParticles {
        self.particles
    }

    /// The number of solver steps taken so far.
    pub closed spec fn frames(&self) -> int {
        self.frame_count as int
    }

    /// The number of sub-iterations of one solver step.
    pub closed spec fn iterations(&self) -> int {
        self.pbd_iter_count as int
    }

    /// The colors of the stretch bundles.
    pub open spec fn stretch_colors(&self) -> Seq<MeshColoringObj> {
        self.particles_spec().mesh_coloring@
    }

    /// The colors of the bending bundles.
    pub open spec fn bend_colors(&self) -> Seq<MeshColoringObj> {
        self.particles_spec().bend_mesh_coloring@
    }

    /// What a valid cloth holds: 32 by 58 particles, stretch and bending
    /// bundles colored without conflicts, and 15 sub-iterations to a step.
    pub proof fn lemma_wf(&self)
        requires
            self.wf(),
        ensures
            self.particles_spec().is_cloth(32, 58),
            colors_conflict_free(
                self.stretch_colors(),
                self.particles_spec().constraints@,
                self.particles_spec().reorder_constraints@,
            ),
            colors_conflict_free(
                self.bend_colors(),
                self.particles_spec().bend_constraint@,
                self.particles_spec().reorder_bendings@,
            ),
            self.stretch_colors().len() <= 32 * 58 + 1,
            self.bend_colors().len() == 6,
            self.iterations() == 15,
    {
    }

    /// The cloth before its first frame.
    pub fn new() -> (cloth: Self)
        ensures
            cloth.wf(),
            cloth.frames() == 0,
            cloth.iterations() == 15,
            cloth.particles_spec().is_cloth(32, 58),
            cloth.bend_colors().len() == 6,
    {
        let particles = generate_cloth_particles(
            PARTICLE_X_NUM as usize,
            PARTICLE_Y_NUM as usize,
        );
        proof {
            lemma_color_groups(particles.constraints@, particles.stretch_constraints@);
        }
        ClothX { particles, frame_count: 0, pbd_iter_count: PBD_ITER_COUNT }
    }

    /// The particles, constraints and colors of the cloth.
    pub fn particles(&self) -> (particles: &ClothParticles)
        ensures
            *particles == self.particles_spec(),
    {
        &self.particles
    }

    /// The number of solver steps taken so far.
    pub fn frame_count(&self) -> (n: usize)
        ensures
            n == self.frames(),
    {
        self.frame_count
    }

    /// The number of sub-iterations of one solver step.
    pub fn pbd_iter_count(&self) -> (n: usize)
        ensures
            n == self.iterations(),
    {
        self.pbd_iter_count
    }

    /// The workgroups of the prediction: 32 threads each, over all particles.
    pub fn predict_groups(&self) -> (groups: (u32, u32, u32))
        ensures
            groups == (58u32, 1u32, 1u32),
    {
        ((PARTICLE_X_NUM * PARTICLE_Y_NUM + 31) / 32, 1, 1)
    }

    /// The triangle list that draws the cloth.
    pub fn index_data(&self) -> (index_data: Vec<u32>)
        ensures
            index_data@.len() == 6 * cloth_quads(32, 58),
            forall|k: int|
                0 <= k < index_data@.len() ==> #[trigger] index_data@[k] == cloth_index_at(32, k),
            forall|k: int| 0 <= k < index_data@.len() ==> #[trigger] index_data@[k] < 32 * 58,
    {
        cloth_index_data(PARTICLE_X_NUM, PARTICLE_Y_NUM)
    }

    /// Where the uniforms of the stretch colors go, `dynamic_offset` bytes
    /// apart, or `None` where such a buffer cannot be addressed.
    pub fn stretch_coloring_writes(&self, dynamic_offset: u64) -> (writes: Option<
        Vec<(u64, MeshColoringObj)>,
    >)
        requires
            self.wf(),
        ensures
            writes.is_some() <==> dynamic_offset <= 0xFFFF_FFFF,
            writes matches Some(w) ==> w@.len() == self.stretch_colors().len() && forall|g: int|
                0 <= g < w@.len() ==> (#[trigger] w@[g]).0 == g * dynamic_offset && w@[g].1
                    == self.stretch_colors()[g],
    {
        if dynamic_offset > 0xFFFF_FFFF {
            return None;
        }
        proof {
            assert(self.particles.mesh_coloring@.len() * dynamic_offset <= 2000 * 0xFFFF_FFFF)
                by (nonlinear_arith)
                requires
                    self.particles.mesh_coloring@.len() <= 2000,
                    0 <= dynamic_offset <= 0xFFFF_FFFF,
            ;
        }
        Some(stretch_uniforms(&self.particles.mesh_coloring, dynamic_offset))
    }

    /// Where the uniforms of the bending colors go, `dynamic_offset` bytes
    /// apart, for every sub-iteration, or `None` where such a buffer cannot
    /// be addressed.
    pub fn bend_coloring_writes(&self, dynamic_offset: u64) -> (writes: Option<
        Vec<(u64, BendingDynamicUniform)>,
    >)
        requires
            self.wf(),
        ensures
            writes.is_some() <==> dynamic_offset <= 0xFFFF_FFFF,
            writes matches Some(w) ==> w@.len() == 15 * 6 && forall|k: int|
                0 <= k < w@.len() ==> (#[trigger] w@[k]) == (
                    (k * dynamic_offset) as u64,
                    bend_uniform(self.bend_colors()[k % 6], k / 6),
                ),
    {
        if dynamic_offset > 0xFFFF_FFFF {
            return None;
        }
        proof {
            crate::pbd::cal_bend_constraints::lemma_bend2_layout(
                32,
                58,
                self.particles.bend_mesh_coloring@,
                self.particles.bend_constraint@,
                self.particles.reorder_bendings@,
            );
            crate::pbd::cal_bend_constraints::lemma_bend2_counts(32, 58);
            assert forall|g: int| 0 <= g < 6 implies bend_color_fits(
                #[trigger] self.particles.bend_mesh_coloring@[g],
            ) by {
                crate::pbd::layout::lemma_layout_range(
                    crate::pbd::layout::GridKind::Flat,
                    crate::pbd::cal_bend_constraints::bend2_groups(32, 58),
                    g,
                );
                crate::pbd::coloring::lemma_prefix_len_monotonic(
                    crate::pbd::cal_bend_constraints::bend2_groups(32, 58),
                    g + 1,
                    6,
                );
                crate::pbd::coloring::lemma_concat_len(
                    crate::pbd::cal_bend_constraints::bend2_groups(32, 58),
                    g,
                );
            }
            let n = self.particles.bend_mesh_coloring@.len();
            assert(15 * n * dynamic_offset <= u64::MAX && 15 * n <= usize::MAX)
                by (nonlinear_arith)
                requires
                    n == 6,
                    0 <= dynamic_offset <= 0xFFFF_FFFF,
            ;
        }
        Some(bend_uniforms(&self.particles.bend_mesh_coloring, 15, dynamic_offset))
    }

    /// Lists the dispatches of one solver step, in the order in which they
    /// must run, and counts the frame.
    pub fn step_solver(&mut self) -> (passes: Vec<SolverDispatch>)
        requires
            old(self).wf(),
            old(self).frames() < usize::MAX,
        ensures
            final(self).wf(),
            final(self).particles_spec() == old(self).particles_spec(),
            final(self).iterations() == old(self).iterations(),
            final(self).frames() == old(self).frames() + 1,
            passes@.len() == 15 * round_len(old(self).stretch_colors(), old(self).bend_colors()),
            forall|k: int|
                0 <= k < passes@.len() ==> #[trigger] passes@[k] == xpbd_dispatch(
                    (58u32, 1u32, 1u32),
                    old(self).stretch_colors(),
                    old(self).bend_colors(),
                    k,
                ),
    {
        let groups = self.predict_groups();
        let passes = xpbd_step(
            self.pbd_iter_count,
            groups,
            &self.particles.mesh_coloring,
            &self.particles.bend_mesh_coloring,
        );
        self.frame_count += 1;
        passes
    }

    /// Advances the cloth by one frame: one solver step.
    pub fn enter_frame(&mut self) -> (passes: Vec<SolverDispatch>)
        requires
            old(self).wf(),
            old(self).frames() < usize::MAX,
        ensures
            final(self).wf(),
            final(self).particles_spec() == old(self).particles_spec(),
            final(self).frames() == old(self).frames() + 1,
            passes@.len() == 15 * round_len(old(self).stretch_colors(), old(self).bend_colors()),
            forall|k: int|
                0 <= k < passes@.len() ==> #[trigger] passes@[k] == xpbd_dispatch(
                    (58u32, 1u32, 1u32),
                    old(self).stretch_colors(),
                    old(self).bend_colors(),
                    k,
                ),
    {
        self.step_solver()
    }
}

} // verus!
