//! The fluid lattice under the two-buffer scheme: each step reads the
//! distribution functions from one buffer and writes them to the other.

use vstd::prelude::*;
use crate::fluid::aa_d2q9_node::{force_cells, stroke_cells, ForceWrite};
use crate::fluid::lattice::{
    init_lattice_material, initial_lattice, mark_obstacle, obstacle_fits, with_obstacle, CellSpan,
    LatticeInfo, LatticeType, FORCE_STEPS,
};
use crate::fluid::{
    check_lattice, lattice_fault, lattice_workgroups, tiled, workgroups, LATTICE_PIXEL_SIZE,
};
use crate::{ConfigError, FieldAnimationType};

verus! {

/// The kernel that a dispatch of the two-buffer scheme runs.
#[derive(Clone, Copy, Debug, PartialEq, Eq, Structural)]
pub enum LatticeKernel {
    /// Collide in each cell, then stream to the neighbours.
    CollideStream,
    /// Apply the boundary rules to what was streamed.
    Boundary,
}

/// One dispatch of the two-buffer scheme.
#[derive(Clone, Copy, Debug, PartialEq, Eq)]
pub struct BufferDispatch {
    pub kernel: LatticeKernel,
    /// The buffer whose distribution functions are read.
    pub read_buffer: usize,
    /// The buffer that receives the next generation.
    pub write_buffer: usize,
    pub workgroups: (u32, u32, u32),
}

/// The lattice of a fluid solved with two buffers.
pub struct D2Q9Node {
    width: u32,
    height: u32,
    animation_ty: FieldAnimationType,
    lattice_info_data: Vec<LatticeInfo>,
}

impl D2Q9Node {
    /// Whether the node holds one cell for each grid point of a lattice
    /// made of whole tiles.
    pub closed spec fn wf(&self) -> bool {
        self.lattice_info_data@.len() == self.width * self.height && tiled(
            self.width as int,
            self.height as int,
        )
    }

    /// What a valid node holds: one cell for each grid point, and whole
    /// tiles only.
    pub proof fn lemma_wf(&self)
        requires
            self.wf(),
        ensures
            self.cells().len() == self.width_spec() * self.height_spec(),
            tiled(self.width_spec(), self.height_spec()),
            0 <= self.width_spec() <= u32::MAX,
            0 <= self.height_spec() <= u32::MAX,
    {
    }

    /// The number of cells across the lattice.
    pub closed spec fn width_spec(&self) -> int {
        self.width as int
    }

    /// The number of cells down the lattice.
    pub closed spec fn height_spec(&self) -> int {
        self.height as int
    }

    /// The scenario of the lattice.
    pub closed spec fn animation_spec(&self) -> FieldAnimationType {
        self.animation_ty
    }

    /// The cells of the lattice, row by row.
    pub closed spec fn cells(&self) -> Seq<LatticeInfo> {
        self.lattice_info_data@
    }

    /// A fresh lattice for a canvas of the given size in pixels, one cell
    /// for each 4 by 4 pixels. The lattice is made of whole tiles.
    pub fn new(canvas_width: u32, canvas_height: u32, animation_ty: FieldAnimationType) -> (node:
        Self)
        requires
            tiled(canvas_width as int / 4, canvas_height as int / 4),
            (canvas_width / 4) * (canvas_height / 4) <= usize::MAX,
        ensures
            node.wf(),
            node.width_spec() == canvas_width / 4,
            node.height_spec() == canvas_height / 4,
            node.animation_spec() == animation_ty,
            node.cells() == initial_lattice(
                canvas_width as int / 4,
                canvas_height as int / 4,
                1,
                animation_ty,
            ),
    {
        let width = canvas_width / LATTICE_PIXEL_SIZE;
        let height = canvas_height / LATTICE_PIXEL_SIZE;
        proof {
            assert(width * height * 1 == width * height);
        }
        let lattice_info_data = init_lattice_material(width, height, 1, animation_ty);
        D2Q9Node { width, height, animation_ty, lattice_info_data }
    }

    /// A fresh lattice for a canvas of the given size in pixels, or the
    /// reason why there can be none: a lattice that is not made of whole
    /// tiles, or one too large to address.
    pub fn try_new(canvas_width: u32, canvas_height: u32, animation_ty: FieldAnimationType) -> (node:
        Result<Self, ConfigError>)
        ensures
            node.is_ok() <==> (lattice_fault(
                canvas_width as int / 4,
                canvas_height as int / 4,
            ) is None),
            node matches Err(e) ==> Some(e) == lattice_fault(
                canvas_width as int / 4,
                canvas_height as int / 4,
            ),
            node matches Ok(n) ==> {
                &&& n.wf()
                &&& n.width_spec() == canvas_width / 4
                &&& n.height_spec() == canvas_height / 4
                &&& n.animation_spec() == animation_ty
                &&& n.cells() == initial_lattice(
                    canvas_width as int / 4,
                    canvas_height as int / 4,
                    1,
                    animation_ty,
                )
            },
    {
        let width = canvas_width / LATTICE_PIXEL_SIZE;
        let height = canvas_height / LATTICE_PIXEL_SIZE;
        match check_lattice(width, height) {
            Some(fault) => Err(fault),
            None => Ok(Self::new(canvas_width, canvas_height, animation_ty)),
        }
    }

    /// Rebuilds the lattice for a canvas of a new size. Where there can be
    /// no lattice of that size, the node keeps its lattice and says why.
    pub fn resize(&mut self, canvas_width: u32, canvas_height: u32) -> (done: Result<
        (),
        ConfigError,
    >)
        requires
            old(self).wf(),
        ensures
            final(self).wf(),
            final(self).animation_spec() == old(self).animation_spec(),
            done.is_ok() <==> (lattice_fault(
                canvas_width as int / 4,
                canvas_height as int / 4,
            ) is None),
            done matches Err(e) ==> {
                &&& Some(e) == lattice_fault(canvas_width as int / 4, canvas_height as int / 4)
                &&& final(self).width_spec() == old(self).width_spec()
                &&& final(self).height_spec() == old(self).height_spec()
                &&& final(self).cells() == old(self).cells()
            },
            done.is_ok() ==> {
                &&& final(self).width_spec() == canvas_width / 4
                &&& final(self).height_spec() == canvas_height / 4
                &&& final(self).cells() == initial_lattice(
                    canvas_width as int / 4,
                    canvas_height as int / 4,
                    1,
                    old(self).animation_spec(),
                )
            },
    {
        match Self::try_new(canvas_width, canvas_height, self.animation_ty) {
            Ok(node) => {
                *self = node;
                Ok(())
            },
            Err(e) => Err(e),
        }
    }

    /// The number of cells across the lattice.
    pub fn width(&self) -> (w: u32)
        ensures
            w == self.width_spec(),
    {
        self.width
    }

    /// The number of cells down the lattice.
    pub fn height(&self) -> (h: u32)
        ensures
            h == self.height_spec(),
    {
        self.height
    }

    /// The edge of a cell, in canvas pixels.
    pub fn lattice_pixel_size(&self) -> (size: u32)
        ensures
            size == 4,
    {
        LATTICE_PIXEL_SIZE
    }

    /// The scenario of the lattice.
    pub fn animation_ty(&self) -> (ty: FieldAnimationType)
        ensures
            ty == self.animation_spec(),
    {
        self.animation_ty
    }

    /// The cells of the lattice, row by row.
    pub fn lattice_info_data(&self) -> (cells: &Vec<LatticeInfo>)
        ensures
            cells@ == self.cells(),
    {
        &self.lattice_info_data
    }

    /// The size of one buffer of distribution functions, in bytes: nine
    /// numbers of four bytes for each cell. `None` where the size does not
    /// fit in 64 bits.
    pub fn lattice_buffer_size(&self) -> (size: Option<u64>)
        ensures
            size.is_some() <==> self.width_spec() * self.height_spec() * 36 <= u64::MAX,
            size matches Some(n) ==> n == self.width_spec() * self.height_spec() * 36,
    {
        assert(self.width * self.height <= 0xffff_ffff * 0xffff_ffff) by (nonlinear_arith)
            requires
                0 <= self.width <= 0xffff_ffff,
                0 <= self.height <= 0xffff_ffff,
        ;
        let cells = self.width as u64 * self.height as u64;
        cells.checked_mul(36)
    }

    /// The workgroups that cover the lattice.
    pub fn threadgroup_count(&self) -> (count: (u32, u32, u32))
        ensures
            count.0 == workgroups(self.width_spec(), 64),
            count.1 == workgroups(self.height_spec(), 4),
            count.2 == 1,
    {
        lattice_workgroups(self.width, self.height)
    }

    /// Centres a round obstacle on cell `(x, y)`, where it fits, and says
    /// which cells to send to the device. Where it does not fit, nothing
    /// changes.
    pub fn add_obstacle(&mut self, x: u32, y: u32) -> (span: Option<CellSpan>)
        requires
            old(self).wf(),
        ensures
            final(self).wf(),
            final(self).width_spec() == old(self).width_spec(),
            final(self).height_spec() == old(self).height_spec(),
            final(self).animation_spec() == old(self).animation_spec(),
            obstacle_fits(old(self).width_spec(), old(self).height_spec(), x as int, y as int)
                ==> final(self).cells() == with_obstacle(
                old(self).cells(),
                old(self).width_spec(),
                x as int,
                y as int,
            ) && span == Some(
                CellSpan {
                    first: (old(self).width_spec() * (y - 16)) as usize,
                    count: (old(self).width_spec() * 33) as usize,
                },
            ),
            !obstacle_fits(old(self).width_spec(), old(self).height_spec(), x as int, y as int)
                ==> final(self).cells() == old(self).cells() && span.is_none(),
    {
        mark_obstacle(self.width, self.height, &mut self.lattice_info_data, x, y)
    }

    /// Starts a Poiseuille lattice afresh and says whether it did: then the
    /// lattice has to be sent to the device again. Other scenarios keep
    /// their lattice.
    pub fn reset_lattice_info(&mut self) -> (rebuilt: bool)
        requires
            old(self).wf(),
        ensures
            final(self).wf(),
            final(self).width_spec() == old(self).width_spec(),
            final(self).height_spec() == old(self).height_spec(),
            final(self).animation_spec() == old(self).animation_spec(),
            rebuilt == (old(self).animation_spec() == FieldAnimationType::Poiseuille),
            rebuilt ==> final(self).cells() == initial_lattice(
                old(self).width_spec(),
                old(self).height_spec(),
                1,
                old(self).animation_spec(),
            ),
            !rebuilt ==> final(self).cells() == old(self).cells(),
    {
        match self.animation_ty {
            FieldAnimationType::Poiseuille => {
                let n_cells = self.lattice_info_data.len();
                proof {
                    assert(self.width * self.height * 1 == self.width * self.height);
                }
                self.lattice_info_data = init_lattice_material(
                    self.width,
                    self.height,
                    1,
                    self.animation_ty,
                );
                true
            },
            _ => false,
        }
    }

    /// Turns the samples of a pointer stroke, in canvas pixels, into the
    /// cells to overwrite and the cell to write there: an inlet with the
    /// given velocity, marked to last 30 steps.
    pub fn add_external_force(&self, vx_bits: u32, vy_bits: u32, samples: &Vec<(u32, u32)>) -> (write:
        ForceWrite)
        requires
            self.wf(),
        ensures
            write.info == (LatticeInfo {
                material: LatticeType::Inlet,
                block_iter: FORCE_STEPS,
                vx_bits,
                vy_bits,
            }),
            write.cells@ == force_cells(self.width_spec(), self.height_spec(), samples@),
    {
        let info = LatticeInfo {
            material: LatticeType::Inlet,
            block_iter: FORCE_STEPS,
            vx_bits,
            vy_bits,
        };
        let n_cells = self.lattice_info_data.len();
        ForceWrite { info, cells: stroke_cells(self.width, self.height, samples) }
    }

    /// The two dispatches of one step that reads buffer `swap_index`:
    /// collide and stream into the other buffer, then the boundary rules on
    /// the same pair of buffers.
    pub fn dispatch(&self, swap_index: usize) -> (steps: Vec<BufferDispatch>)
        requires
            swap_index < 2,
        ensures
            steps@.len() == 2,
            steps@[0].kernel == LatticeKernel::CollideStream,
            steps@[1].kernel == LatticeKernel::Boundary,
            forall|k: int|
                0 <= k < 2 ==> (#[trigger] steps@[k]).read_buffer == swap_index
                    && steps@[k].write_buffer == 1 - swap_index && steps@[k].workgroups == (
                    workgroups(self.width_spec(), 64) as u32,
                    workgroups(self.height_spec(), 4) as u32,
                    1u32,
                ),
    {
        let groups = lattice_workgroups(self.width, self.height);
        let write_buffer = (swap_index + 1) % 2;
        let mut steps: Vec<BufferDispatch> = Vec::new();
        steps.push(
            BufferDispatch {
                kernel: LatticeKernel::CollideStream,
                read_buffer: swap_index,
                write_buffer,
                workgroups: groups,
            },
        );
        steps.push(
            BufferDispatch {
                kernel: LatticeKernel::Boundary,
                read_buffer: swap_index,
                write_buffer,
                workgroups: groups,
            },
        );
        steps
    }
}

/// No dispatch writes the buffer it reads, and the step that follows
/// reads what this one wrote.
pub proof fn lemma_buffers_alternate(step: BufferDispatch, swap_index: int)
    requires
        0 <= swap_index < 2,
        step.read_buffer == swap_index,
        step.write_buffer == 1 - swap_index,
    ensures
        step.read_buffer != step.write_buffer,
        step.write_buffer == (swap_index + 1) % 2,
        0 <= step.write_buffer < 2,
{
}

} // verus!
