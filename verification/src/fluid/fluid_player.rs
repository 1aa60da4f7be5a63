//! What drives the fluid from frame to frame: pointer gestures turned
//! into lattice writes, and the order of the passes of a frame.

use vstd::prelude::*;
use crate::fluid::aa_d2q9_node::AAD2Q9Node;
use crate::fluid::lattice::{initial_lattice, obstacle_fits, with_obstacle, CellSpan};
use crate::fluid::{lattice_fault, tiled};
use crate::{ConfigError, FieldAnimationType};

verus! {

/// One pass of a frame.
#[derive(Clone, Copy, Debug, PartialEq, Eq, Structural)]
pub enum FramePass {
    /// One step of the lattice that reads the buffer with this number.
    Lattice { swap_index: usize },
    /// Move the tracer particles with the velocities of the last step.
    ParticleUpdate,
}

/// The number of rounds of lattice steps in one frame.
pub const STEPS_PER_FRAME: usize = 3;

/// The passes of one third of a frame. In place: one lattice step, then
/// the particles. With two buffers: a step from buffer 0, the particles, a
/// step from buffer 1, the particles.
pub open spec fn round_passes(use_aa_pattern: bool) -> Seq<FramePass> {
    if use_aa_pattern {
        seq![FramePass::Lattice { swap_index: 0 }, FramePass::ParticleUpdate]
    } else {
        seq![
            FramePass::Lattice { swap_index: 0 },
            FramePass::ParticleUpdate,
            FramePass::Lattice { swap_index: 1 },
            FramePass::ParticleUpdate,
        ]
    }
}

/// The passes of a frame: three rounds.
pub open spec fn frame_passes(use_aa_pattern: bool) -> Seq<FramePass> {
    round_passes(use_aa_pattern) + round_passes(use_aa_pattern) + round_passes(use_aa_pattern)
}

/// What a pointer movement means for the stroke in progress.
#[derive(Clone, Copy, Debug, PartialEq, Eq, Structural)]
pub enum StrokeAction {
    /// The pointer left the canvas: forget the last position.
    Forget,
    /// Remember this position as the start of a stroke; push nothing.
    Begin,
    /// Push the fluid from the last position to this one, then remember
    /// this position.
    Push,
}

/// The fluid simulation as the frame driver sees it.
pub struct FluidPlayer {
    fluid_compute_node: AAD2Q9Node,
    use_aa_pattern: bool,
}

impl FluidPlayer {
    /// Whether the lattice of the player holds one cell for each grid point.
    pub closed spec fn wf(&self) -> bool {
        self.fluid_compute_node.wf()
    }

    /// The lattice of the player.
    pub closed spec fn node(&self) -> AAD2Q9Node {
        self.fluid_compute_node
    }

    /// Whether the fluid is solved in place.
    pub closed spec fn uses_aa_pattern(&self) -> bool {
        self.use_aa_pattern
    }

    /// Whether the two players have lattices of the same size and
    /// scenario, solved the same way. The cells may differ.
    pub open spec fn same_frame_as(&self, other: FluidPlayer) -> bool {
        &&& self.uses_aa_pattern() == other.uses_aa_pattern()
        &&& self.node().width_spec() == other.node().width_spec()
        &&& self.node().height_spec() == other.node().height_spec()
        &&& self.node().animation_spec() == other.node().animation_spec()
    }

    /// A player for a canvas of the given size in pixels, solving in place.
    pub fn new(canvas_width: u32, canvas_height: u32, animation_ty: FieldAnimationType) -> (player:
        Self)
        requires
            tiled(canvas_width as int / 4, canvas_height as int / 4),
            (canvas_width / 4) * (canvas_height / 4) <= usize::MAX,
        ensures
            player.wf(),
            player.uses_aa_pattern(),
            player.node().width_spec() == canvas_width / 4,
            player.node().height_spec() == canvas_height / 4,
            player.node().animation_spec() == animation_ty,
            player.node().cells() == initial_lattice(
                canvas_width as int / 4,
                canvas_height as int / 4,
                1,
                animation_ty,
            ),
    {
        FluidPlayer {
            fluid_compute_node: AAD2Q9Node::new(canvas_width, canvas_height, animation_ty),
            use_aa_pattern: true,
        }
    }

    /// A player for a canvas of the given size in pixels, or the reason
    /// why there can be none.
    pub fn try_new(canvas_width: u32, canvas_height: u32, animation_ty: FieldAnimationType) -> (player:
        Result<Self, ConfigError>)
        ensures
            player.is_ok() <==> (lattice_fault(
                canvas_width as int / 4,
                canvas_height as int / 4,
            ) is None),
            player matches Err(e) ==> Some(e) == lattice_fault(
                canvas_width as int / 4,
                canvas_height as int / 4,
            ),
            player matches Ok(p) ==> {
                &&& p.wf()
                &&& p.uses_aa_pattern()
                &&& p.node().width_spec() == canvas_width / 4
                &&& p.node().height_spec() == canvas_height / 4
                &&& p.node().animation_spec() == animation_ty
                &&& p.node().cells() == initial_lattice(
                    canvas_width as int / 4,
                    canvas_height as int / 4,
                    1,
                    animation_ty,
                )
            },
    {
        match AAD2Q9Node::try_new(canvas_width, canvas_height, animation_ty) {
            Ok(node) => Ok(FluidPlayer { fluid_compute_node: node, use_aa_pattern: true }),
            Err(e) => Err(e),
        }
    }

    /// Rebuilds the lattice for a canvas of a new size. Where there can be
    /// no lattice of that size, the player keeps its lattice and says why.
    pub fn resize(&mut self, canvas_width: u32, canvas_height: u32) -> (done: Result<
        (),
        ConfigError,
    >)
        requires
            old(self).wf(),
        ensures
            final(self).wf(),
            final(self).uses_aa_pattern() == old(self).uses_aa_pattern(),
            final(self).node().animation_spec() == old(self).node().animation_spec(),
            done.is_ok() <==> (lattice_fault(
                canvas_width as int / 4,
                canvas_height as int / 4,
            ) is None),
            done matches Err(e) ==> {
                &&& Some(e) == lattice_fault(canvas_width as int / 4, canvas_height as int / 4)
                &&& final(self).node() == old(self).node()
            },
            done.is_ok() ==> {
                &&& final(self).node().width_spec() == canvas_width / 4
                &&& final(self).node().height_spec() == canvas_height / 4
                &&& final(self).node().cells() == initial_lattice(
                    canvas_width as int / 4,
                    canvas_height as int / 4,
                    1,
                    old(self).node().animation_spec(),
                )
            },
    {
        let animation_ty = self.fluid_compute_node.animation_ty();
        match AAD2Q9Node::try_new(canvas_width, canvas_height, animation_ty) {
            Ok(node) => {
                self.fluid_compute_node = node;
                Ok(())
            },
            Err(e) => Err(e),
        }
    }

    /// The lattice of the player.
    pub fn fluid_compute_node(&self) -> (node: &AAD2Q9Node)
        ensures
            *node == self.node(),
    {
        &self.fluid_compute_node
    }

    /// The scenario as the solver's uniform names it: 0 for Poiseuille, 1
    /// for everything else.
    pub fn fluid_ty(&self) -> (ty: i32)
        ensures
            ty == if self.node().animation_spec() == FieldAnimationType::Poiseuille {
                0i32
            } else {
                1i32
            },
    {
        match self.fluid_compute_node.animation_ty() {
            FieldAnimationType::Poiseuille => 0,
            _ => 1,
        }
    }

    /// What the solver's uniform holds besides the relaxation time: the
    /// scenario, and the number of cells that separates one direction from
    /// the next in the buffer of distribution functions. `None` where that
    /// number does not fit the uniform.
    pub fn update_uniforms(&self) -> (ints: Option<(i32, i32)>)
        ensures
            ints.is_some() <==> self.node().width_spec() * self.node().height_spec() <= i32::MAX,
            ints matches Some(u) ==> u.0 == (if self.node().animation_spec()
                == FieldAnimationType::Poiseuille {
                0i32
            } else {
                1i32
            }) && u.1 == self.node().width_spec() * self.node().height_spec(),
    {
        let w = self.fluid_compute_node.width();
        let h = self.fluid_compute_node.height();
        assert(w * h <= 0xffff_ffff * 0xffff_ffff) by (nonlinear_arith)
            requires
                0 <= w <= 0xffff_ffff,
                0 <= h <= 0xffff_ffff,
        ;
        let cells = w as u64 * h as u64;
        if cells > i32::MAX as u64 {
            return None;
        }
        Some((self.fluid_ty(), cells as i32))
    }

    /// A click at canvas pixel `(px, py)` puts an obstacle on the cell
    /// under it, where one fits there; elsewhere the click does nothing.
    pub fn on_click(&mut self, px: u32, py: u32) -> (span: Option<CellSpan>)
        requires
            old(self).wf(),
        ensures
            final(self).wf(),
            final(self).uses_aa_pattern() == old(self).uses_aa_pattern(),
            final(self).node().width_spec() == old(self).node().width_spec(),
            final(self).node().height_spec() == old(self).node().height_spec(),
            final(self).node().animation_spec() == old(self).node().animation_spec(),
            obstacle_fits(
                old(self).node().width_spec(),
                old(self).node().height_spec(),
                px as int / 4,
                py as int / 4,
            ) ==> final(self).node().cells() == with_obstacle(
                old(self).node().cells(),
                old(self).node().width_spec(),
                px as int / 4,
                py as int / 4,
            ) && span == Some(
                CellSpan {
                    first: (old(self).node().width_spec() * (py as int / 4 - 16)) as usize,
                    count: (old(self).node().width_spec() * 33) as usize,
                },
            ),
            !obstacle_fits(
                old(self).node().width_spec(),
                old(self).node().height_spec(),
                px as int / 4,
                py as int / 4,
            ) ==> final(self).node().cells() == old(self).node().cells() && span.is_none(),
    {
        let size = self.fluid_compute_node.lattice_pixel_size();
        self.fluid_compute_node.add_obstacle(px / size, py / size)
    }

    /// Starts the scenario afresh and says whether the lattice has to be
    /// sent to the device again.
    pub fn reset(&mut self) -> (rebuilt: bool)
        requires
            old(self).wf(),
        ensures
            final(self).wf(),
            final(self).uses_aa_pattern() == old(self).uses_aa_pattern(),
            final(self).node().width_spec() == old(self).node().width_spec(),
            final(self).node().height_spec() == old(self).node().height_spec(),
            final(self).node().animation_spec() == old(self).node().animation_spec(),
            rebuilt == (old(self).node().animation_spec() == FieldAnimationType::Poiseuille),
            rebuilt ==> final(self).node().cells() == initial_lattice(
                old(self).node().width_spec(),
                old(self).node().height_spec(),
                1,
                old(self).node().animation_spec(),
            ),
            !rebuilt ==> final(self).node().cells() == old(self).node().cells(),
    {
        self.fluid_compute_node.reset_lattice_info()
    }

    /// The passes of one frame, in the order in which they must run.
    pub fn enter_frame(&self) -> (passes: Vec<FramePass>)
        ensures
            passes@ == frame_passes(self.uses_aa_pattern()),
    {
        let mut passes: Vec<FramePass> = Vec::new();
        let mut round: usize = 0;
        while round < STEPS_PER_FRAME
            invariant
                round <= 3,
                round == 0 ==> passes@ == Seq::<FramePass>::empty(),
                round == 1 ==> passes@ == round_passes(self.uses_aa_pattern()),
                round == 2 ==> passes@ == round_passes(self.uses_aa_pattern()) + round_passes(
                    self.uses_aa_pattern(),
                ),
                round == 3 ==> passes@ == frame_passes(self.uses_aa_pattern()),
            decreases 3 - round,
        {
            let ghost before = passes@;
            passes.push(FramePass::Lattice { swap_index: 0 });
            passes.push(FramePass::ParticleUpdate);
            if !self.use_aa_pattern {
                passes.push(FramePass::Lattice { swap_index: 1 });
                passes.push(FramePass::ParticleUpdate);
            }
            assert(passes@ =~= before + round_passes(self.uses_aa_pattern()));
            round += 1;
        }
        passes
    }
}

/// Decides what a pointer movement does. `on_canvas` says whether the
/// pointer is at a positive position; `has_previous` whether a position
/// was remembered; `jumped` whether the pointer is more than 300 pixels from
/// the remembered position.
pub fn touch_move(on_canvas: bool, has_previous: bool, jumped: bool) -> (action: StrokeAction)
    ensures
        action == if !on_canvas {
            StrokeAction::Forget
        } else if !has_previous || jumped {
            StrokeAction::Begin
        } else {
            StrokeAction::Push
        },
{
    if !on_canvas {
        StrokeAction::Forget
    } else if !has_previous || jumped {
        StrokeAction::Begin
    } else {
        StrokeAction::Push
    }
}

/// In every frame each lattice step is followed at once by a particle
/// update, so the particles never skip a generation; and with two buffers
/// the steps read buffers 0 and 1 in turn.
pub proof fn lemma_frame_order(use_aa_pattern: bool, k: int)
    requires
        0 <= k < frame_passes(use_aa_pattern).len(),
    ensures
        frame_passes(use_aa_pattern).len() == if use_aa_pattern {
            6int
        } else {
            12int
        },
        k % 2 == 0 ==> frame_passes(use_aa_pattern)[k] == (FramePass::Lattice {
            swap_index: if use_aa_pattern {
                0usize
            } else {
                ((k / 2) % 2) as usize
            },
        }),
        k % 2 == 1 ==> frame_passes(use_aa_pattern)[k] == FramePass::ParticleUpdate,
{
}

} // verus!
