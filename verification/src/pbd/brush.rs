//! A brush of twenty bristles, solved with stretch and bending constraints.

use vstd::prelude::*;
use crate::pbd::bristle::{generate_bristles, Bristles, BRISTLE_NUM, BRISTLE_VERTEX_NUM};
use crate::pbd::solver::{
    bend_color_fits, bend_uniform, bend_uniforms, round_len, stretch_uniforms, xpbd_dispatch,
    xpbd_step, SolverDispatch,
};
use crate::pbd::{colors_conflict_free, BendingDynamicUniform, MeshColoringObj};

verus! {

/// The number of sub-iterations of one solver step. Every particle has
/// stretch constraints to two sides only, so fewer sub-iterations leave
/// the bristles visibly out of place.
pub const BRUSH_ITER_COUNT: usize = 20;

/// The brush and its solver, as far as integers describe them.
pub struct MaoBrush {
    bristles: Bristles,
    frame_count: usize,
    pbd_iter_count: usize,
}

impl MaoBrush {
    /// Whether this is the brush of 20 bristles of 12 particles, colored
    /// without conflicts, solved in 20 sub-iterations.
    pub closed spec fn wf(&self) -> bool {
        &&& self.bristles.is_brush(20, 12)
        &&& colors_conflict_free(
            self.bristles.mesh_colorings@,
            self.bristles.constraints@,
            self.bristles.reorder_stretches@,
        )
        &&& colors_conflict_free(
            self.bristles.bend_mesh_colorings@,
            self.bristles.bending_constraints@,
            self.bristles.reorder_bendings@,
        )
        &&& self.pbd_iter_count == 20
    }

    /// The particles, constraints and colors of the brush.
    pub closed spec fn bristles_spec(&self) -> Bristles {
        self.bristles
    }

    /// The number of solver steps taken so far.
    pub closed spec fn frames(&self) -> int {
        self.frame_count as int
    }

    /// The colors of the stretch bundles.
    pub open spec fn stretch_colors(&self) -> Seq<MeshColoringObj> {
        self.bristles_spec().mesh_colorings@
    }

    /// The colors of the bending constraints.
    pub open spec fn bend_colors(&self) -> Seq<MeshColoringObj> {
        self.bristles_spec().bend_mesh_colorings@
    }

    /// What a valid brush holds: 20 bristles of 12 particles, stretch and
    /// bending bundles in four colors each, colored without conflicts.
    pub proof fn lemma_wf(&self)
        requires
            self.wf(),
        ensures
            self.bristles_spec().is_brush(20, 12),
            colors_conflict_free(
                self.stretch_colors(),
                self.bristles_spec().constraints@,
                self.bristles_spec().reorder_stretches@,
            ),
            colors_conflict_free(
                self.bend_colors(),
                self.bristles_spec().bending_constraints@,
                self.bristles_spec().reorder_bendings@,
            ),
            self.stretch_colors().len() == 4,
            self.bend_colors().len() == 4,
    {
    }

    /// The brush before its first frame.
    pub fn new() -> (brush: Self)
        ensures
            brush.wf(),
            brush.frames() == 0,
            brush.bristles_spec().is_brush(20, 12),
            brush.stretch_colors().len() == 4,
            brush.bend_colors().len() == 4,
    {
        let bristles = generate_bristles(BRISTLE_NUM, BRISTLE_VERTEX_NUM);
        MaoBrush { bristles, frame_count: 0, pbd_iter_count: BRUSH_ITER_COUNT }
    }

    /// The particles, constraints and colors of the brush.
    pub fn bristles(&self) -> (bristles: &Bristles)
        ensures
            *bristles == self.bristles_spec(),
    {
        &self.bristles
    }

    /// The number of solver steps taken so far.
    pub fn frame_count(&self) -> (n: usize)
        ensures
            n == self.frames(),
    {
        self.frame_count
    }

    /// The number of sub-iterations of one solver step.
    pub fn pbd_iter_count(&self) -> (n: usize)
        requires
            self.wf(),
        ensures
            n == 20,
    {
        self.pbd_iter_count
    }

    /// The workgroups of the prediction: 32 threads each, over 20 times 13
    /// places.
    pub fn predict_groups(&self) -> (groups: (u32, u32, u32))
        ensures
            groups == (9u32, 1u32, 1u32),
    {
        ((20 * 13 + 31) / 32, 1, 1)
    }

    /// Where the uniforms of the stretch colors go, `dynamic_offset` bytes
    /// apart, or `None` where such a buffer cannot be addressed.
    pub fn stretch_coloring_writes(&self, dynamic_offset: u64) -> (writes: Option<
        Vec<(u64, MeshColoringObj)>,
    >)
        requires
            self.wf(),
        ensures
            writes.is_some() <==> dynamic_offset <= 0xFFFF_FFFF,
            writes matches Some(w) ==> w@.len() == 4 && forall|g: int|
                0 <= g < w@.len() ==> (#[trigger] w@[g]).0 == g * dynamic_offset && w@[g].1
                    == self.stretch_colors()[g],
    {
        if dynamic_offset > 0xFFFF_FFFF {
            return None;
        }
        proof {
            assert(self.bristles.mesh_colorings@.len() * dynamic_offset <= 4 * 0xFFFF_FFFF)
                by (nonlinear_arith)
                requires
                    self.bristles.mesh_colorings@.len() == 4,
                    0 <= dynamic_offset <= 0xFFFF_FFFF,
            ;
        }
        Some(stretch_uniforms(&self.bristles.mesh_colorings, dynamic_offset))
    }

    /// Where the uniforms of the bending colors go, `dynamic_offset` bytes
    /// apart, for every sub-iteration, or `None` where such a buffer cannot
    /// be addressed.
    pub fn bend_coloring_writes(&self, dynamic_offset: u64) -> (writes: Option<
        Vec<(u64, BendingDynamicUniform)>,
    >)
        requires
            self.wf(),
        ensures
            writes.is_some() <==> dynamic_offset <= 0xFFFF_FFFF,
            writes matches Some(w) ==> w@.len() == 20 * 4 && forall|k: int|
                0 <= k < w@.len() ==> (#[trigger] w@[k]) == (
                    (k * dynamic_offset) as u64,
                    bend_uniform(self.bend_colors()[k % 4], k / 4),
                ),
    {
        if dynamic_offset > 0xFFFF_FFFF {
            return None;
        }
        proof {
            let groups = crate::pbd::bristle::bristle_bend_groups(20, 12);
            assert forall|g: int| 0 <= g < 4 implies bend_color_fits(
                #[trigger] self.bristles.bend_mesh_colorings@[g],
            ) by {
                crate::pbd::bristle::lemma_bristle_bend_count(20, 12);
                crate::pbd::layout::lemma_layout_range(
                    crate::pbd::layout::GridKind::Flat,
                    groups,
                    g,
                );
                crate::pbd::coloring::lemma_prefix_len_monotonic(groups, g + 1, 4);
                crate::pbd::coloring::lemma_concat_len(groups, g);
            }
            let n = self.bristles.bend_mesh_colorings@.len();
            assert(20 * n * dynamic_offset <= u64::MAX && 20 * n <= usize::MAX)
                by (nonlinear_arith)
                requires
                    n == 4,
                    0 <= dynamic_offset <= 0xFFFF_FFFF,
            ;
        }
        Some(bend_uniforms(&self.bristles.bend_mesh_colorings, 20, dynamic_offset))
    }

    /// Lists the dispatches of one solver step, in the order in which they
    /// must run, and counts the frame.
    pub fn step_solver(&mut self) -> (passes: Vec<SolverDispatch>)
        requires
            old(self).wf(),
            old(self).frames() < usize::MAX,
        ensures
            final(self).wf(),
            final(self).bristles_spec() == old(self).bristles_spec(),
            final(self).frames() == old(self).frames() + 1,
            passes@.len() == 20 * round_len(old(self).stretch_colors(), old(self).bend_colors()),
            forall|k: int|
                0 <= k < passes@.len() ==> #[trigger] passes@[k] == xpbd_dispatch(
                    (9u32, 1u32, 1u32),
                    old(self).stretch_colors(),
                    old(self).bend_colors(),
                    k,
                ),
    {
        let groups = self.predict_groups();
        let passes = xpbd_step(
            self.pbd_iter_count,
            groups,
            &self.bristles.mesh_colorings,
            &self.bristles.bend_mesh_colorings,
        );
        self.frame_count += 1;
        passes
    }

    /// Advances the brush by one frame: one solver step.
    pub fn enter_frame(&mut self) -> (passes: Vec<SolverDispatch>)
        requires
            old(self).wf(),
            old(self).frames() < usize::MAX,
        ensures
            final(self).wf(),
            final(self).bristles_spec() == old(self).bristles_spec(),
            final(self).frames() == old(self).frames() + 1,
            passes@.len() == 20 * round_len(old(self).stretch_colors(), old(self).bend_colors()),
            forall|k: int|
                0 <= k < passes@.len() ==> #[trigger] passes@[k] == xpbd_dispatch(
                    (9u32, 1u32, 1u32),
                    old(self).stretch_colors(),
                    old(self).bend_colors(),
                    k,
                ),
    {
        self.step_solver()
    }
}

} // verus!
