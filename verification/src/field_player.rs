//! Tracer particles in a procedural velocity field.

use vstd::prelude::*;

verus! {

/// The distance between two points of the field, in canvas pixels.
pub const PIXEL_DISTANCE: u32 = 4;

/// One pass of a frame of the field player.
#[derive(Clone, Copy, Debug, PartialEq, Eq, Structural)]
pub enum FieldPass {
    /// Evaluate the velocity field at every point.
    FieldSetting,
    /// Move every tracer particle along the field.
    ParticlesUpdate,
    /// Draw the canvas.
    Render,
}

/// The field player, as far as integers describe it.
#[derive(Clone, Copy, Debug, PartialEq, Eq)]
pub struct FieldPlayer {
    canvas_size: (u32, u32),
    frame_num: usize,
}

impl FieldPlayer {
    /// The size of the canvas, in pixels.
    pub closed spec fn canvas(&self) -> (u32, u32) {
        self.canvas_size
    }

    /// The number of frames shown so far.
    pub closed spec fn frames(&self) -> int {
        self.frame_num as int
    }

    /// A player for a canvas of the given size, before its first frame.
    pub fn new(canvas_size: (u32, u32)) -> (player: Self)
        ensures
            player.canvas() == canvas_size,
            player.frames() == 0,
    {
        FieldPlayer { canvas_size, frame_num: 0 }
    }

    /// The number of frames shown so far.
    pub fn frame_num(&self) -> (n: usize)
        ensures
            n == self.frames(),
    {
        self.frame_num
    }

    /// The number of field points across and down the canvas.
    pub fn field_size(&self) -> (size: (u32, u32))
        ensures
            size.0 == self.canvas().0 / 4,
            size.1 == self.canvas().1 / 4,
    {
        (self.canvas_size.0 / PIXEL_DISTANCE, self.canvas_size.1 / PIXEL_DISTANCE)
    }

    /// The workgroups of 16 by 16 threads that cover the field.
    pub fn field_threadgroup(&self) -> (count: (u32, u32, u32))
        ensures
            count.0 == (self.canvas().0 / 4 + 15) / 16,
            count.1 == (self.canvas().1 / 4 + 15) / 16,
            count.2 == 1,
    {
        let size = self.field_size();
        ((size.0 + 15) / 16, (size.1 + 15) / 16, 1)
    }

    /// The size of the buffer of the field, in bytes: 16 for each point.
    pub fn field_buffer_size(&self) -> (size: u64)
        ensures
            size == (self.canvas().0 / 4) * (self.canvas().1 / 4) * 16,
    {
        let w = (self.canvas_size.0 / PIXEL_DISTANCE) as u64;
        let h = (self.canvas_size.1 / PIXEL_DISTANCE) as u64;
        assert(w * h * 16 <= 0x3fff_ffff * 0x3fff_ffff * 16) by (nonlinear_arith)
            requires
                0 <= w <= 0x3fff_ffff,
                0 <= h <= 0x3fff_ffff,
        ;
        assert(0 <= w * h <= 0x3fff_ffff * 0x3fff_ffff) by (nonlinear_arith)
            requires
                0 <= w <= 0x3fff_ffff,
                0 <= h <= 0x3fff_ffff,
        ;
        w * h * 16
    }

    /// The passes of one frame. The first two frames evaluate the field
    /// before anything else; every frame then moves the particles and draws.
    pub fn enter_frame(&mut self) -> (passes: Vec<FieldPass>)
        requires
            old(self).frames() < usize::MAX,
        ensures
            final(self).canvas() == old(self).canvas(),
            final(self).frames() == old(self).frames() + 1,
            passes@ == if old(self).frames() <= 1 {
                seq![FieldPass::FieldSetting, FieldPass::ParticlesUpdate, FieldPass::Render]
            } else {
                seq![FieldPass::ParticlesUpdate, FieldPass::Render]
            },
    {
        let mut passes: Vec<FieldPass> = Vec::new();
        if self.frame_num <= 1 {
            passes.push(FieldPass::FieldSetting);
        }
        passes.push(FieldPass::ParticlesUpdate);
        passes.push(FieldPass::Render);
        self.frame_num += 1;
        passes
    }
}

} // verus!
