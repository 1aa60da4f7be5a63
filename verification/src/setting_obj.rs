//! The settings of a canvas, and which of their changes must reach the device.

use vstd::prelude::*;
use crate::{ConfigError, FieldAnimationType, FieldType, ParticleColorType};

verus! {

/// The largest number of tracer particles that the particle buffer holds.
pub const MAX_PARTICLE_COUNT: usize = 205000;

/// The workgroups of 16 by 16 threads that cover a grid of `width` by
/// `height` items.
pub fn grid_threadgroup(width: u32, height: u32) -> (count: (u32, u32, u32))
    ensures
        count.0 == (width + 15) / 16,
        count.1 == (height + 15) / 16,
        count.2 == 1,
{
    (((width as u64 + 15) / 16) as u32, ((height as u64 + 15) / 16) as u32, 1)
}

/// The number of idle particles that fill the particle buffer up behind
/// `len` live ones.
pub fn padding_count(len: usize) -> (pad: usize)
    ensures
        pad == if len < MAX_PARTICLE_COUNT {
            MAX_PARTICLE_COUNT - len
        } else {
            0
        },
        len + pad >= MAX_PARTICLE_COUNT,
        len >= MAX_PARTICLE_COUNT ==> pad == 0,
{
    if MAX_PARTICLE_COUNT > len {
        MAX_PARTICLE_COUNT - len
    } else {
        0
    }
}

/// What the user has chosen, as far as integers describe it.
#[derive(Clone, Copy, Debug, PartialEq, Eq)]
pub struct SettingObj {
    pub canvas_size: (u32, u32),
    pub field_type: FieldType,
    pub animation_type: FieldAnimationType,
    pub color_ty: ParticleColorType,
    pub particles_count: i32,
    /// The grid of tracer particles: columns and rows.
    pub particles_size: (u32, u32),
    pub particles_threadgroup: (u32, u32, u32),
    /// The color mode as the particle uniform holds it.
    pub uniform_color_ty: i32,
    /// The point size as the particle uniform holds it.
    pub uniform_point_size: i32,
}

impl SettingObj {
    /// The settings before the canvas is known: no particles laid out yet,
    /// points one pixel wide.
    pub fn new(
        field_type: FieldType,
        animation_type: FieldAnimationType,
        color_ty: ParticleColorType,
        particles_count: i32,
    ) -> (setting: Self)
        ensures
            setting == (SettingObj {
                canvas_size: (0u32, 0u32),
                field_type,
                animation_type,
                color_ty,
                particles_count,
                particles_size: (0u32, 0u32),
                particles_threadgroup: (0u32, 0u32, 1u32),
                uniform_color_ty: color_ty.code_spec(),
                uniform_point_size: 1,
            }),
    {
        SettingObj {
            canvas_size: (0, 0),
            field_type,
            animation_type,
            color_ty,
            particles_count,
            particles_size: (0, 0),
            particles_threadgroup: (0, 0, 1),
            uniform_color_ty: color_ty.code(),
            uniform_point_size: 1,
        }
    }

    /// Whether a scenario can be set up from these settings: there has to
    /// be at least one tracer particle.
    pub fn check(&self) -> (ok: Result<(), ConfigError>)
        ensures
            ok.is_ok() <==> self.particles_count > 0,
            ok matches Err(e) ==> e == ConfigError::InvalidParticleCount,
    {
        if self.particles_count > 0 {
            Ok(())
        } else {
            Err(ConfigError::InvalidParticleCount)
        }
    }

    /// Switches to another kind of field and says whether anything
    /// changed: then the particle uniform has to be written again, with the
    /// speed factor of the new kind.
    pub fn update_field_type(&mut self, ty: FieldType) -> (changed: bool)
        ensures
            changed == (old(self).field_type != ty),
            *final(self) == (SettingObj { field_type: ty, ..*old(self) }),
    {
        if self.field_type != ty {
            self.field_type = ty;
            true
        } else {
            false
        }
    }

    /// Takes the size of the canvas.
    pub fn update_canvas_size(&mut self, canvas_size: (u32, u32))
        ensures
            *final(self) == (SettingObj { canvas_size, ..*old(self) }),
    {
        self.canvas_size = canvas_size;
    }

    /// Takes the number of tracer particles.
    pub fn update_particles_count(&mut self, count: i32)
        ensures
            *final(self) == (SettingObj { particles_count: count, ..*old(self) }),
    {
        self.particles_count = count;
    }

    /// Takes the grid of tracer particles that was found for the canvas and
    /// the particle count, and works out the workgroups that cover it.
    pub fn update_particles_size(&mut self, width: u32, height: u32)
        ensures
            *final(self) == (SettingObj {
                particles_size: (width, height),
                particles_threadgroup: (
                    ((width + 15) / 16) as u32,
                    ((height + 15) / 16) as u32,
                    1u32,
                ),
                ..*old(self)
            }),
    {
        self.particles_size = (width, height);
        self.particles_threadgroup = grid_threadgroup(width, height);
    }

    /// Switches to another color mode and says whether the particle
    /// uniform has to be written again.
    pub fn update_particle_color(&mut self, color_type: ParticleColorType) -> (changed: bool)
        ensures
            changed == (old(self).uniform_color_ty != color_type.code_spec()),
            changed ==> *final(self) == (SettingObj {
                uniform_color_ty: color_type.code_spec(),
                ..*old(self)
            }),
            !changed ==> *final(self) == *old(self),
    {
        if self.uniform_color_ty == color_type.code() {
            return false;
        }
        self.uniform_color_ty = color_type.code();
        true
    }

    /// Switches to another point size and says whether the particle
    /// uniform has to be written again.
    pub fn update_particle_point_size(&mut self, point_size: i32) -> (changed: bool)
        ensures
            changed == (old(self).uniform_point_size != point_size),
            *final(self) == (SettingObj { uniform_point_size: point_size, ..*old(self) }),
    {
        if self.uniform_point_size == point_size {
            return false;
        }
        self.uniform_point_size = point_size;
        true
    }
}

} // verus!
