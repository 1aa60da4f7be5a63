//! Layout and topology for GPU-driven physics: the lattice a fluid solver
//! streams over, the constraint graph a position-based solver relaxes, and the
//! order in which their compute passes run.
//!
//! Everything here is integer logic. Positions, masses and velocities live on
//! the device as floating-point data; this crate decides which cell, which
//! particle, which group and which offset, and proves those decisions.

pub mod combinate_canvas;
pub mod field_player;
pub mod field_velocity_code;
pub mod fluid;
pub mod geometry;
pub mod noise;
pub mod pbd;
pub mod setting_obj;
pub mod shader;
pub mod shader_map;
pub mod web;

use vstd::prelude::*;

verus! {

/// Why a scenario cannot be set up.
#[derive(Clone, Copy, Debug, PartialEq, Eq, Structural)]
pub enum ConfigError {
    /// The number of tracer particles is not positive.
    InvalidParticleCount,
    /// The lattice has more cells than the solver can address.
    LatticeTooLarge,
    /// The lattice is not made of whole tiles of 64 by 4 cells.
    LatticeNotTiled,
}

/// Which simulation drives the canvas.
#[derive(Clone, Copy, Debug, PartialEq, Eq, Structural)]
pub enum FieldType {
    Field,
    Fluid,
    D3Fluid,
}

/// The scenario a simulation starts from.
#[derive(Clone, Copy, Debug, PartialEq, Eq, Structural)]
pub enum FieldAnimationType {
    Basic,
    JuliaSet,
    Spirl,
    Poiseuille,
    LidDrivenCavity,
    Custom,
}

/// How tracer particles are tinted.
#[derive(Clone, Copy, Debug, PartialEq, Eq, Structural)]
pub enum ParticleColorType {
    Uniform,
    MovementAngle,
    Speed,
}

impl ParticleColorType {
    /// The number that stands for the color mode in the particle uniform.
    pub open spec fn code_spec(self) -> i32 {
        match self {
            ParticleColorType::Uniform => 0,
            ParticleColorType::MovementAngle => 1,
            ParticleColorType::Speed => 2,
        }
    }

    /// The number that stands for the color mode in the particle uniform.
    pub fn code(&self) -> (c: i32)
        ensures
            c == self.code_spec(),
    {
        match self {
            ParticleColorType::Uniform => 0,
            ParticleColorType::MovementAngle => 1,
            ParticleColorType::Speed => 2,
        }
    }
}

} // verus!
