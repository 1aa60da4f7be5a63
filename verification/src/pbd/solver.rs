//! The order of the compute passes of one solver step, and where each pass
//! finds the uniforms of its color.

use vstd::prelude::*;
use crate::pbd::grid::{lemma_grid_bound, lemma_grid_coords};
use crate::pbd::{BendingDynamicUniform, MeshColoringObj};

verus! {

/// The distance between two entries of a dynamic uniform buffer that the
/// solver steps assume, in bytes.
pub const DYNAMIC_OFFSET: u32 = 256;

/// The kernel that a dispatch runs.
#[derive(Clone, Copy, Debug, PartialEq, Eq, Structural)]
pub enum SolverKernel {
    /// Move every free particle ahead and clear the multipliers.
    Predict,
    /// Relax the stretch bundles of one color.
    Stretch,
    /// Relax the bending bundles of one color.
    Bend,
    /// Sort particles into the cells of the spatial hash.
    Binning,
    /// Emit a collision constraint for each close pair.
    GenCollision,
    /// Relax all constraints of the particles of one color.
    Constraints,
}

/// One dispatch of a solver step.
#[derive(Clone, Copy, Debug, PartialEq, Eq)]
pub struct SolverDispatch {
    pub kernel: SolverKernel,
    /// The sub-iteration that the dispatch belongs to.
    pub iteration: u32,
    /// The color that the dispatch relaxes; 0 for kernels without color.
    pub color: u32,
    /// Where in the kernel's dynamic uniform buffer its uniforms start.
    pub dynamic_offset: u32,
    pub workgroups: (u32, u32, u32),
}

/// The number of dispatches of one sub-iteration: a prediction and one
/// dispatch for each stretch and each bending color.
pub open spec fn round_len(stretch: Seq<MeshColoringObj>, bend: Seq<MeshColoringObj>) -> int {
    (1 + stretch.len() + bend.len()) as int
}

/// Dispatch `k` of a solver step with stretch and bending constraints.
///
/// Every sub-iteration predicts first, then relaxes the stretch colors in
/// order, then the bending colors in order. The first prediction starts a
/// new step and reads the second entry of its uniforms; the later ones
/// read the first. A stretch color reads the entry of its number. A
/// bending color has an entry of its own for every sub-iteration.
pub open spec fn xpbd_dispatch(
    predict_groups: (u32, u32, u32),
    stretch: Seq<MeshColoringObj>,
    bend: Seq<MeshColoringObj>,
    k: int,
) -> SolverDispatch {
    let i = k / round_len(stretch, bend);
    let j = k % round_len(stretch, bend);
    if j == 0 {
        SolverDispatch {
            kernel: SolverKernel::Predict,
            iteration: i as u32,
            color: 0,
            dynamic_offset: if i == 0 {
                256u32
            } else {
                0u32
            },
            workgroups: predict_groups,
        }
    } else if j <= stretch.len() {
        SolverDispatch {
            kernel: SolverKernel::Stretch,
            iteration: i as u32,
            color: (j - 1) as u32,
            dynamic_offset: ((j - 1) * 256) as u32,
            workgroups: (stretch[j - 1].thread_group.0, stretch[j - 1].thread_group.1, 1),
        }
    } else {
        let g = j - 1 - stretch.len();
        SolverDispatch {
            kernel: SolverKernel::Bend,
            iteration: i as u32,
            color: g as u32,
            dynamic_offset: ((i * bend.len() + g) * 256) as u32,
            workgroups: (bend[g].thread_group.0, bend[g].thread_group.1, 1),
        }
    }
}

/// Whether the dynamic offsets of a step of `iter_count` sub-iterations fit
/// in 32 bits.
pub open spec fn xpbd_fits(
    iter_count: int,
    stretch: Seq<MeshColoringObj>,
    bend: Seq<MeshColoringObj>,
) -> bool {
    &&& iter_count <= u32::MAX
    &&& stretch.len() * 256 <= u32::MAX
    &&& iter_count * bend.len() * 256 <= u32::MAX
    &&& iter_count * round_len(stretch, bend) <= usize::MAX
}

/// Lists the dispatches of one solver step with stretch and bending
/// constraints, in the order in which they must run.
pub fn xpbd_step(
    pbd_iter_count: usize,
    predict_groups: (u32, u32, u32),
    stretch: &Vec<MeshColoringObj>,
    bend: &Vec<MeshColoringObj>,
) -> (passes: Vec<SolverDispatch>)
    requires
        xpbd_fits(pbd_iter_count as int, stretch@, bend@),
    ensures
        passes@.len() == pbd_iter_count * round_len(stretch@, bend@),
        forall|k: int|
            0 <= k < passes@.len() ==> #[trigger] passes@[k] == xpbd_dispatch(
                predict_groups,
                stretch@,
                bend@,
                k,
            ),
{
    let ghost per = round_len(stretch@, bend@);
    let mut passes: Vec<SolverDispatch> = Vec::new();
    let dynamic_offset = DYNAMIC_OFFSET as usize;
    proof {
        assert(0 * per == 0);
    }
    let mut i: usize = 0;
    while i < pbd_iter_count
        invariant
            i <= pbd_iter_count,
            per == round_len(stretch@, bend@),
            dynamic_offset == 256,
            xpbd_fits(pbd_iter_count as int, stretch@, bend@),
            passes@.len() == i * per,
            forall|k: int|
                0 <= k < passes@.len() ==> #[trigger] passes@[k] == xpbd_dispatch(
                    predict_groups,
                    stretch@,
                    bend@,
                    k,
                ),
        decreases pbd_iter_count - i,
    {
        proof {
            lemma_grid_coords(per, i as int, 0);
            assert((i + 1) * per == i * per + per) by (nonlinear_arith);
            assert((i + 1) * per <= pbd_iter_count * per) by (nonlinear_arith)
                requires
                    i + 1 <= pbd_iter_count,
                    per >= 0,
            ;
            assert((i + 1) * bend@.len() * 256 <= pbd_iter_count * bend@.len() * 256)
                by (nonlinear_arith)
                requires
                    i + 1 <= pbd_iter_count,
                    bend@.len() >= 0,
            ;
            assert((i + 1) * bend@.len() * 256 == (i * bend@.len() + bend@.len()) * 256)
                by (nonlinear_arith);
        }
        let offset: u32 = if i == 0 {
            256
        } else {
            0
        };
        passes.push(
            SolverDispatch {
                kernel: SolverKernel::Predict,
                iteration: i as u32,
                color: 0,
                dynamic_offset: offset,
                workgroups: predict_groups,
            },
        );
        let mut index: usize = 0;
        while index < stretch.len()
            invariant
                i < pbd_iter_count,
                index <= stretch@.len(),
                per == round_len(stretch@, bend@),
                dynamic_offset == 256,
                xpbd_fits(pbd_iter_count as int, stretch@, bend@),
                (i + 1) * per <= usize::MAX,
                (i + 1) * per == i * per + per,
                passes@.len() == i * per + 1 + index,
                forall|k: int|
                    0 <= k < passes@.len() ==> #[trigger] passes@[k] == xpbd_dispatch(
                        predict_groups,
                        stretch@,
                        bend@,
                        k,
                    ),
            decreases stretch@.len() - index,
        {
            proof {
                lemma_grid_coords(per, i as int, 1 + index);
            }
            let mc = &stretch[index];
            passes.push(
                SolverDispatch {
                    kernel: SolverKernel::Stretch,
                    iteration: i as u32,
                    color: index as u32,
                    dynamic_offset: (index * dynamic_offset) as u32,
                    workgroups: (mc.thread_group.0, mc.thread_group.1, 1),
                },
            );
            index += 1;
        }
        let bending_dynamic_uniform_offset = i * bend.len() * dynamic_offset;
        let mut index: usize = 0;
        while index < bend.len()
            invariant
                i < pbd_iter_count,
                index <= bend@.len(),
                per == round_len(stretch@, bend@),
                dynamic_offset == 256,
                xpbd_fits(pbd_iter_count as int, stretch@, bend@),
                (i + 1) * per <= usize::MAX,
                (i + 1) * per == i * per + per,
                (i * bend@.len() + bend@.len()) * 256 <= u32::MAX,
                bending_dynamic_uniform_offset == i * bend@.len() * 256,
                passes@.len() == i * per + 1 + stretch@.len() + index,
                forall|k: int|
                    0 <= k < passes@.len() ==> #[trigger] passes@[k] == xpbd_dispatch(
                        predict_groups,
                        stretch@,
                        bend@,
                        k,
                    ),
            decreases bend@.len() - index,
        {
            proof {
                lemma_grid_coords(per, i as int, 1 + stretch@.len() + index);
                assert(i * bend@.len() * 256 + index * 256 == (i * bend@.len() + index) * 256)
                    by (nonlinear_arith);
                assert((i * bend@.len() + index) * 256 <= (i * bend@.len() + bend@.len()) * 256)
                    by (nonlinear_arith)
                    requires
                        index <= bend@.len(),
                ;
                assert(i * bend@.len() >= 0) by (nonlinear_arith)
                    requires
                        i >= 0,
                        bend@.len() >= 0,
                ;
            }
            let mc = &bend[index];
            passes.push(
                SolverDispatch {
                    kernel: SolverKernel::Bend,
                    iteration: i as u32,
                    color: index as u32,
                    dynamic_offset: (bending_dynamic_uniform_offset + index * dynamic_offset) as u32,
                    workgroups: (mc.thread_group.0, mc.thread_group.1, 1),
                },
            );
            index += 1;
        }
        i += 1;
    }
    passes
}

/// Where the uniforms of each stretch color go in the dynamic uniform
/// buffer, and what they are: one entry for each color, `dynamic_offset`
/// bytes apart.
pub fn stretch_uniforms(stretch: &Vec<MeshColoringObj>, dynamic_offset: u64) -> (writes: Vec<
    (u64, MeshColoringObj),
>)
    requires
        stretch@.len() * dynamic_offset <= u64::MAX,
    ensures
        writes@.len() == stretch@.len(),
        forall|g: int|
            0 <= g < writes@.len() ==> (#[trigger] writes@[g]).0 == g * dynamic_offset
                && writes@[g].1 == stretch@[g],
{
    let mut writes: Vec<(u64, MeshColoringObj)> = Vec::new();
    let mut offset: u64 = 0;
    let mut g: usize = 0;
    proof {
        assert(0 * dynamic_offset == 0);
    }
    while g < stretch.len()
        invariant
            g <= stretch@.len(),
            stretch@.len() * dynamic_offset <= u64::MAX,
            offset == g * dynamic_offset,
            writes@.len() == g,
            forall|k: int|
                0 <= k < g ==> (#[trigger] writes@[k]).0 == k * dynamic_offset && writes@[k].1
                    == stretch@[k],
        decreases stretch@.len() - g,
    {
        proof {
            assert((g + 1) * dynamic_offset == g * dynamic_offset + dynamic_offset)
                by (nonlinear_arith);
            assert((g + 1) * dynamic_offset <= stretch@.len() * dynamic_offset) by (nonlinear_arith)
                requires
                    g + 1 <= stretch@.len(),
                    dynamic_offset >= 0,
            ;
        }
        writes.push((offset, stretch[g]));
        offset += dynamic_offset;
        g += 1;
    }
    writes
}

/// Whether the entries of a bending color can be written as signed numbers.
pub open spec fn bend_color_fits(mc: MeshColoringObj) -> bool {
    mc.offset <= i32::MAX && mc.max_num_x <= i32::MAX && mc.group_len <= i32::MAX
}

/// The uniforms of bending color `g` in sub-iteration `i`.
pub open spec fn bend_uniform(mc: MeshColoringObj, i: int) -> BendingDynamicUniform {
    BendingDynamicUniform {
        offset: mc.offset as i32,
        max_num_x: mc.max_num_x as i32,
        group_len: mc.group_len as i32,
        iter_divisor: (i + 1) as i32,
    }
}

/// Where the uniforms of each bending color go in the dynamic uniform
/// buffer, and what they are: for every sub-iteration one entry for each
/// color, `dynamic_offset` bytes apart, sub-iteration after sub-iteration.
/// Entry `k` belongs to color `k % n` in sub-iteration `k / n`, where `n`
/// is the number of colors.
pub fn bend_uniforms(bend: &Vec<MeshColoringObj>, pbd_iter_count: i32, dynamic_offset: u64) -> (writes:
    Vec<(u64, BendingDynamicUniform)>)
    requires
        0 <= pbd_iter_count,
        pbd_iter_count * bend@.len() * dynamic_offset <= u64::MAX,
        pbd_iter_count * bend@.len() <= usize::MAX,
        forall|g: int| 0 <= g < bend@.len() ==> bend_color_fits(#[trigger] bend@[g]),
    ensures
        writes@.len() == pbd_iter_count * bend@.len(),
        forall|k: int|
            0 <= k < writes@.len() ==> (#[trigger] writes@[k]) == (
                (k * dynamic_offset) as u64,
                bend_uniform(bend@[k % (bend@.len() as int)], k / (bend@.len() as int)),
            ),
{
    let ghost n = bend@.len() as int;
    let mut writes: Vec<(u64, BendingDynamicUniform)> = Vec::new();
    let mut offset: u64 = 0;
    let mut i: i32 = 0;
    proof {
        assert(0 * n == 0);
        assert(0 * dynamic_offset == 0);
    }
    while i < pbd_iter_count
        invariant
            0 <= i <= pbd_iter_count,
            n == bend@.len(),
            pbd_iter_count * n * dynamic_offset <= u64::MAX,
            pbd_iter_count * n <= usize::MAX,
            forall|g: int| 0 <= g < n ==> bend_color_fits(#[trigger] bend@[g]),
            writes@.len() == i * n,
            offset == (i * n) * dynamic_offset,
            forall|k: int|
                0 <= k < writes@.len() ==> (#[trigger] writes@[k]) == (
                    (k * dynamic_offset) as u64,
                    bend_uniform(bend@[k % n], k / n),
                ),
        decreases pbd_iter_count - i,
    {
        proof {
            assert((i + 1) * n == i * n + n) by (nonlinear_arith);
            assert((i + 1) * n <= pbd_iter_count * n) by (nonlinear_arith)
                requires
                    i + 1 <= pbd_iter_count,
                    n >= 0,
            ;
            assert(((i + 1) * n) * dynamic_offset <= (pbd_iter_count * n) * dynamic_offset)
                by (nonlinear_arith)
                requires
                    (i + 1) * n <= pbd_iter_count * n,
                    dynamic_offset >= 0,
            ;
            assert(i * n >= 0) by (nonlinear_arith)
                requires
                    i >= 0,
                    n >= 0,
            ;
        }
        let mut g: usize = 0;
        while g < bend.len()
            invariant
                0 <= i < pbd_iter_count,
                g <= n,
                n == bend@.len(),
                i * n >= 0,
                (i + 1) * n == i * n + n,
                ((i + 1) * n) * dynamic_offset <= u64::MAX,
                forall|h: int| 0 <= h < n ==> bend_color_fits(#[trigger] bend@[h]),
                writes@.len() == i * n + g,
                offset == (i * n + g) * dynamic_offset,
                forall|k: int|
                    0 <= k < writes@.len() ==> (#[trigger] writes@[k]) == (
                        (k * dynamic_offset) as u64,
                        bend_uniform(bend@[k % n], k / n),
                    ),
            decreases n - g,
        {
            proof {
                assert((i * n + g + 1) * dynamic_offset == (i * n + g) * dynamic_offset
                    + dynamic_offset) by (nonlinear_arith);
                assert((i * n + g + 1) * dynamic_offset <= ((i + 1) * n) * dynamic_offset)
                    by (nonlinear_arith)
                    requires
                        i * n + g + 1 <= (i + 1) * n,
                        dynamic_offset >= 0,
                ;
                assert(bend_color_fits(bend@[g as int]));
                lemma_grid_coords(n, i as int, g as int);
            }
            let mc = &bend[g];
            writes.push((offset, mc.get_bending_dynamic_uniform(i)));
            offset += dynamic_offset;
            g += 1;
        }
        i += 1;
    }
    writes
}

/// With entries 256 bytes apart, a bending dispatch reads the entry that
/// was written for its color and its sub-iteration, and no two bending
/// dispatches of a step read the same entry.
pub proof fn lemma_bend_dispatch_reads_its_entry(
    predict_groups: (u32, u32, u32),
    stretch: Seq<MeshColoringObj>,
    bend: Seq<MeshColoringObj>,
    iter_count: int,
    i: int,
    g: int,
)
    requires
        xpbd_fits(iter_count, stretch, bend),
        0 <= i < iter_count,
        0 <= g < bend.len(),
    ensures
        ({
            let k = i * round_len(stretch, bend) + 1 + stretch.len() + g;
            let d = xpbd_dispatch(predict_groups, stretch, bend, k);
            &&& 0 <= k < iter_count * round_len(stretch, bend)
            &&& d.kernel == SolverKernel::Bend
            &&& d.iteration == i
            &&& d.color == g
            &&& d.dynamic_offset == (i * bend.len() + g) * 256
        }),
{
    let per = round_len(stretch, bend);
    lemma_grid_coords(per, i, 1 + stretch.len() + g);
    lemma_grid_bound(per, iter_count, i, 1 + stretch.len() + g);
    assert(per * iter_count == iter_count * per) by (nonlinear_arith);
    assert((i * bend.len() + g) * 256 <= iter_count * bend.len() * 256) by (nonlinear_arith)
        requires
            0 <= i < iter_count,
            0 <= g < bend.len(),
    ;
    assert(i * bend.len() >= 0) by (nonlinear_arith)
        requires
            i >= 0,
            bend.len() >= 0,
    ;
}

} // verus!
