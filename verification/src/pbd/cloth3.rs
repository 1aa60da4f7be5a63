//! A cloth that collides with itself: particles are sorted into a spatial
//! hash, close pairs become collision constraints, and all constraints of
//! a particle are relaxed together, color by color.

use vstd::prelude::*;
use crate::geometry::{cloth_index_at, cloth_index_data, cloth_quads, triangles_of};
use crate::pbd::particle3::{generate_cloth_particles3, ClothParticles3};
use crate::pbd::solver::{SolverDispatch, SolverKernel};
use crate::pbd::{MeshColoringObj, TriangleObj};

verus! {

/// The number of particles across the cloth.
pub const PARTICLE_X_NUM: u32 = 32;

/// The number of particles down the cloth: as many as keep the cloth in
/// the proportions of a picture of 1863 by 3312 pixels.
pub const PARTICLE_Y_NUM: u32 = 56;

/// The number of sub-iterations of one solver step.
pub const ITER_COUNT: u32 = 15;

/// The cells of the spatial hash and the size of its buffer.
#[derive(Clone, Copy, Debug, PartialEq, Eq)]
pub struct BinGrid {
    /// The number of cells along x, y and z; the fourth entry pads.
    pub bin_num: [i32; 4],
    /// The largest cell index along each axis.
    pub bin_max_index: [i32; 4],
    /// The number of cells in all.
    pub max_bin_count: i32,
    /// The size of the buffer that holds the cells, in bytes: 64 for each.
    pub bin_buf_size: u64,
}

/// The grid of a spatial hash with `bin_num_x` cells along x and z and
/// `bin_num_y` cells along y, or `None` where the cells cannot be counted
/// in 32 bits or one of the numbers is not positive.
pub fn bin_grid(bin_num_x: i32, bin_num_y: i32) -> (grid: Option<BinGrid>)
    ensures
        grid.is_some() <==> 1 <= bin_num_x && 1 <= bin_num_y && bin_num_x * bin_num_y * bin_num_x
            <= i32::MAX,
        grid matches Some(g) ==> {
            &&& g.bin_num@ == seq![bin_num_x, bin_num_y, bin_num_x, 0i32]
            &&& g.bin_max_index@ == seq![
                (bin_num_x - 1) as i32,
                (bin_num_y - 1) as i32,
                (bin_num_x - 1) as i32,
                0i32,
            ]
            &&& g.max_bin_count == bin_num_x * bin_num_y * bin_num_x
            &&& g.bin_buf_size == g.max_bin_count * 64
        },
{
    if bin_num_x < 1 || bin_num_y < 1 {
        return None;
    }
    assert(bin_num_x * bin_num_y <= 0x7fff_ffff * 0x7fff_ffff) by (nonlinear_arith)
        requires
            1 <= bin_num_x <= 0x7fff_ffff,
            1 <= bin_num_y <= 0x7fff_ffff,
    ;
    let xy = bin_num_x as i64 * bin_num_y as i64;
    if xy > i32::MAX as i64 {
        assert(bin_num_x * bin_num_y * bin_num_x > i32::MAX) by (nonlinear_arith)
            requires
                bin_num_x * bin_num_y > i32::MAX,
                bin_num_x >= 1,
        ;
        return None;
    }
    assert(xy * bin_num_x <= 0x7fff_ffff * 0x7fff_ffff) by (nonlinear_arith)
        requires
            0 <= xy <= 0x7fff_ffff,
            1 <= bin_num_x <= 0x7fff_ffff,
    ;
    let count = xy * bin_num_x as i64;
    if count > i32::MAX as i64 {
        return None;
    }
    let max_bin_count = count as i32;
    Some(
        BinGrid {
            bin_num: [bin_num_x, bin_num_y, bin_num_x, 0],
            bin_max_index: [bin_num_x - 1, bin_num_y - 1, bin_num_x - 1, 0],
            max_bin_count,
            bin_buf_size: max_bin_count as u64 * 4 * 16,
        },
    )
}

/// The cloth and its solver, as far as integers describe them.
pub struct Cloth3 {
    particles: ClothParticles3,
    triangle_num: u32,
    frame_count: usize,
}

/// Dispatch `k` of a solver step with collisions: predict, sort into the
/// spatial hash, generate collision constraints; then, in each of 15
/// sub-iterations, relax the particles color by color.
pub open spec fn collision_dispatch(
    colors: Seq<MeshColoringObj>,
    triangle_num: int,
    k: int,
) -> SolverDispatch {
    if k == 0 {
        SolverDispatch {
            kernel: SolverKernel::Predict,
            iteration: 0,
            color: 0,
            dynamic_offset: 0,
            workgroups: (2u32, 4u32, 1u32),
        }
    } else if k == 1 {
        SolverDispatch {
            kernel: SolverKernel::Binning,
            iteration: 0,
            color: 0,
            dynamic_offset: 0,
            workgroups: (2u32, 4u32, 1u32),
        }
    } else if k == 2 {
        SolverDispatch {
            kernel: SolverKernel::GenCollision,
            iteration: 0,
            color: 0,
            dynamic_offset: 0,
            workgroups: (((triangle_num + 31) / 32) as u32, 1u32, 1u32),
        }
    } else {
        let i = (k - 3) / (colors.len() as int);
        let c = (k - 3) % (colors.len() as int);
        SolverDispatch {
            kernel: SolverKernel::Constraints,
            iteration: i as u32,
            color: c as u32,
            dynamic_offset: 0,
            workgroups: (colors[c].thread_group.0, colors[c].thread_group.1, 1u32),
        }
    }
}

impl Cloth3 {
    /// Whether this is the cloth of 32 by 56 particles, its nine colors
    /// free of conflicts.
    pub closed spec fn wf(&self) -> bool {
        &&& self.particles.is_cloth(32, 56)
        &&& self.particles.colors_conflict_free()
        &&& self.triangle_num == 2 * cloth_quads(32, 56)
    }

    /// The particles, constraints and colors of the cloth.
    pub closed spec fn particles_spec(&self) -> ClothParticles3 {
        self.particles
    }

    /// The number of solver steps taken so far.
    pub closed spec fn frames(&self) -> int {
        self.frame_count as int
    }

    /// The number of triangles of the cloth.
    pub closed spec fn triangles_spec(&self) -> int {
        self.triangle_num as int
    }

    /// The colors of the particles.
    pub open spec fn colors(&self) -> Seq<MeshColoringObj> {
        self.particles_spec().mesh_colorings@
    }

    /// What a valid cloth holds: 32 by 56 particles in nine colors free of
    /// conflicts, and two triangles for each quad.
    pub proof fn lemma_wf(&self)
        requires
            self.wf(),
        ensures
            self.particles_spec().is_cloth(32, 56),
            self.particles_spec().colors_conflict_free(),
            self.colors().len() == 9,
            self.triangles_spec() == 2 * 31 * 55,
    {
    }

    /// The cloth, and the dispatches of the solver step that is taken
    /// while it is built: the cloth has seen one frame when it is handed out.
    pub fn new() -> (made: (Self, Vec<SolverDispatch>))
        ensures
            made.0.wf(),
            made.0.frames() == 1,
            made.0.particles_spec().is_cloth(32, 56),
            made.0.particles_spec().colors_conflict_free(),
            made.0.colors().len() == 9,
            made.0.triangles_spec() == 2 * 31 * 55,
            made.1@.len() == 3 + 15 * 9,
            forall|k: int|
                0 <= k < made.1@.len() ==> #[trigger] made.1@[k] == collision_dispatch(
                    made.0.colors(),
                    made.0.triangles_spec(),
                    k,
                ),
    {
        let particles = generate_cloth_particles3(
            PARTICLE_X_NUM as usize,
            PARTICLE_Y_NUM as usize,
        );
        let mut cloth = Cloth3 { particles, triangle_num: 2 * 31 * 55, frame_count: 0 };
        let passes = cloth.step_solver();
        (cloth, passes)
    }

    /// The particles, constraints and colors of the cloth.
    pub fn particles(&self) -> (particles: &ClothParticles3)
        ensures
            *particles == self.particles_spec(),
    {
        &self.particles
    }

    /// The number of solver steps taken so far.
    pub fn frame_count(&self) -> (n: usize)
        ensures
            n == self.frames(),
    {
        self.frame_count
    }

    /// The triangle list that draws the cloth.
    pub fn index_data(&self) -> (index_data: Vec<u32>)
        ensures
            index_data@.len() == 6 * cloth_quads(32, 56),
            forall|k: int|
                0 <= k < index_data@.len() ==> #[trigger] index_data@[k] == cloth_index_at(32, k),
            forall|k: int| 0 <= k < index_data@.len() ==> #[trigger] index_data@[k] < 32 * 56,
    {
        cloth_index_data(PARTICLE_X_NUM, PARTICLE_Y_NUM)
    }

    /// The index list that draws the particles as points: every particle once.
    pub fn point_index_data(&self) -> (index_data: Vec<u32>)
        ensures
            index_data@.len() == 32 * 56,
            forall|k: int| 0 <= k < index_data@.len() ==> #[trigger] index_data@[k] == k,
    {
        let mut index_data: Vec<u32> = Vec::new();
        let mut index: u32 = 0;
        while index < PARTICLE_X_NUM * PARTICLE_Y_NUM
            invariant
                index <= 32 * 56,
                index_data@.len() == index,
                forall|k: int| 0 <= k < index_data@.len() ==> #[trigger] index_data@[k] == k,
            decreases 32 * 56 - index,
        {
            index_data.push(index);
            index += 1;
        }
        index_data
    }

    /// The index list that draws the normals as lines: for every particle
    /// the foot and the tip of its normal.
    pub fn normal_index_data(&self) -> (index_data: Vec<u32>)
        ensures
            index_data@.len() == 2 * 32 * 56,
            forall|k: int| 0 <= k < index_data@.len() ==> #[trigger] index_data@[k] == k,
    {
        let mut index_data: Vec<u32> = Vec::new();
        let mut index: u32 = 0;
        while index < PARTICLE_X_NUM * PARTICLE_Y_NUM
            invariant
                index <= 32 * 56,
                index_data@.len() == 2 * index,
                forall|k: int| 0 <= k < index_data@.len() ==> #[trigger] index_data@[k] == k,
            decreases 32 * 56 - index,
        {
            index_data.push(index * 2);
            index_data.push(index * 2 + 1);
            index += 1;
        }
        index_data
    }

    /// The triangles of the cloth, for the collision pass.
    pub fn triangles(&self) -> (triangles: Vec<TriangleObj>)
        ensures
            triangles@.len() == 2 * cloth_quads(32, 56),
            forall|t: int|
                0 <= t < triangles@.len() ==> #[trigger] triangles@[t] == (TriangleObj {
                    v0: cloth_index_at(32, 3 * t) as i32,
                    v1: cloth_index_at(32, 3 * t + 1) as i32,
                    v2: cloth_index_at(32, 3 * t + 2) as i32,
                }),
    {
        let index_data = cloth_index_data(PARTICLE_X_NUM, PARTICLE_Y_NUM);
        triangles_of(&index_data)
    }

    /// The size of the buffer of collision constraints, in bytes: four
    /// constraints of 44 bytes for each particle.
    pub fn collision_buffer_size(&self) -> (size: u64)
        ensures
            size == 32 * 56 * 4 * 44,
    {
        let particle_num: u64 = 32 * 56;
        particle_num * 4 * (4 + 8 + 4 * 8)
    }

    /// Lists the dispatches of one solver step, in the order in which they
    /// must run, and counts the frame.
    pub fn step_solver(&mut self) -> (passes: Vec<SolverDispatch>)
        requires
            old(self).wf(),
            old(self).frames() < usize::MAX,
        ensures
            final(self).wf(),
            final(self).particles_spec() == old(self).particles_spec(),
            final(self).frames() == old(self).frames() + 1,
            passes@.len() == 3 + 15 * 9,
            forall|k: int|
                0 <= k < passes@.len() ==> #[trigger] passes@[k] == collision_dispatch(
                    old(self).colors(),
                    old(self).triangles_spec(),
                    k,
                ),
    {
        let grid = ((PARTICLE_X_NUM + 15) / 16, (PARTICLE_Y_NUM + 15) / 16, 1);
        let mut passes: Vec<SolverDispatch> = Vec::new();
        passes.push(
            SolverDispatch {
                kernel: SolverKernel::Predict,
                iteration: 0,
                color: 0,
                dynamic_offset: 0,
                workgroups: grid,
            },
        );
        passes.push(
            SolverDispatch {
                kernel: SolverKernel::Binning,
                iteration: 0,
                color: 0,
                dynamic_offset: 0,
                workgroups: grid,
            },
        );
        passes.push(
            SolverDispatch {
                kernel: SolverKernel::GenCollision,
                iteration: 0,
                color: 0,
                dynamic_offset: 0,
                workgroups: ((self.triangle_num + 31) / 32, 1, 1),
            },
        );
        let ghost colors = self.particles.mesh_colorings@;
        let ghost triangle_num = self.triangle_num as int;
        let mut i: u32 = 0;
        while i < ITER_COUNT
            invariant
                i <= 15,
                colors == self.particles.mesh_colorings@,
                colors.len() == 9,
                triangle_num == self.triangle_num,
                passes@.len() == 3 + i * 9,
                forall|k: int|
                    0 <= k < passes@.len() ==> #[trigger] passes@[k] == collision_dispatch(
                        colors,
                        triangle_num,
                        k,
                    ),
            decreases 15 - i,
        {
            let mut c: usize = 0;
            while c < self.particles.mesh_colorings.len()
                invariant
                    i < 15,
                    c <= 9,
                    colors == self.particles.mesh_colorings@,
                    colors.len() == 9,
                    triangle_num == self.triangle_num,
                    passes@.len() == 3 + i * 9 + c,
                    forall|k: int|
                        0 <= k < passes@.len() ==> #[trigger] passes@[k] == collision_dispatch(
                            colors,
                            triangle_num,
                            k,
                        ),
                decreases 9 - c,
            {
                let mc = &self.particles.mesh_colorings[c];
                passes.push(
                    SolverDispatch {
                        kernel: SolverKernel::Constraints,
                        iteration: i,
                        color: c as u32,
                        dynamic_offset: 0,
                        workgroups: (mc.thread_group.0, mc.thread_group.1, 1),
                    },
                );
                c += 1;
            }
            i += 1;
        }
        self.frame_count += 1;
        passes
    }

    /// Advances the cloth by one frame: one solver step. The frame counter
    /// that the solver is told afterwards is the new `frame_count`.
    pub fn enter_frame(&mut self) -> (passes: Vec<SolverDispatch>)
        requires
            old(self).wf(),
            old(self).frames() < usize::MAX,
        ensures
            final(self).wf(),
            final(self).particles_spec() == old(self).particles_spec(),
            final(self).frames() == old(self).frames() + 1,
            passes@.len() == 3 + 15 * 9,
            forall|k: int|
                0 <= k < passes@.len() ==> #[trigger] passes@[k] == collision_dispatch(
                    old(self).colors(),
                    old(self).triangles_spec(),
                    k,
                ),
    {
        self.step_solver()
    }
}

} // verus!
