//! The canvas that shows one simulation at a time and swaps it when the
//! settings ask for another.

use vstd::prelude::*;
use crate::field_player::FieldPlayer;
use crate::fluid::aa_d2q9_node::AAD2Q9Node;
use crate::fluid::fluid_player::FluidPlayer;
use crate::fluid::lattice::{initial_lattice, obstacle_fits, with_obstacle, CellSpan};
use crate::fluid::lattice_fault;
use crate::setting_obj::SettingObj;
use crate::{ConfigError, FieldAnimationType, FieldType, ParticleColorType};

verus! {

/// The simulations that a canvas can show.
#[derive(Clone, Copy, Debug, PartialEq, Eq, Structural)]
pub enum PlayerKind {
    /// Tracer particles in a procedural velocity field.
    Field,
    /// A two-dimensional fluid.
    Fluid,
    /// A three-dimensional fluid.
    D3Fluid,
}

/// The simulation that shows a kind of field.
pub open spec fn kind_of(field_type: FieldType) -> PlayerKind {
    match field_type {
        FieldType::Field => PlayerKind::Field,
        FieldType::Fluid => PlayerKind::Fluid,
        FieldType::D3Fluid => PlayerKind::D3Fluid,
    }
}

/// The simulation that a canvas shows, with what it keeps off the device.
pub enum Player {
    Field(FieldPlayer),
    Fluid(FluidPlayer),
    /// The three-dimensional fluid keeps everything on the device.
    D3Fluid,
}

impl Player {
    /// Which of the simulations this is.
    pub open spec fn kind(&self) -> PlayerKind {
        match self {
            Player::Field(_) => PlayerKind::Field,
            Player::Fluid(_) => PlayerKind::Fluid,
            Player::D3Fluid => PlayerKind::D3Fluid,
        }
    }

    /// The fluid, where this is one.
    pub open spec fn fluid(&self) -> FluidPlayer
        recommends
            self is Fluid,
    {
        self->Fluid_0
    }

    /// Whether the simulation is in order.
    pub open spec fn wf(&self) -> bool {
        match self {
            Player::Fluid(p) => p.wf(),
            _ => true,
        }
    }

    /// Whether this is the simulation that a canvas of the given size
    /// starts with under the given settings.
    pub open spec fn is_fresh(&self, canvas_size: (u32, u32), setting: SettingObj) -> bool {
        &&& self.kind() == kind_of(setting.field_type)
        &&& self.wf()
        &&& self matches Player::Field(p) ==> p.canvas() == canvas_size && p.frames() == 0
        &&& self matches Player::Fluid(p) ==> {
            &&& p.uses_aa_pattern()
            &&& p.node().width_spec() == canvas_size.0 / 4
            &&& p.node().height_spec() == canvas_size.1 / 4
            &&& p.node().animation_spec() == setting.animation_type
            &&& p.node().cells() == initial_lattice(
                canvas_size.0 as int / 4,
                canvas_size.1 as int / 4,
                1,
                setting.animation_type,
            )
        }
    }

    /// Which of the simulations this is.
    pub fn player_kind(&self) -> (kind: PlayerKind)
        ensures
            kind == self.kind(),
    {
        match self {
            Player::Field(_) => PlayerKind::Field,
            Player::Fluid(_) => PlayerKind::Fluid,
            Player::D3Fluid => PlayerKind::D3Fluid,
        }
    }

    /// A click at canvas pixel `(px, py)`. Only the fluid reacts: it puts an
    /// obstacle on the cell under the pixel, where one fits there, and says
    /// which cells to send to the device.
    pub fn on_click(&mut self, px: u32, py: u32) -> (span: Option<CellSpan>)
        requires
            old(self).wf(),
        ensures
            final(self).wf(),
            final(self).kind() == old(self).kind(),
            !((*old(self)) is Fluid) ==> *final(self) == *old(self) && span.is_none(),
            (*old(self)) is Fluid ==> {
                let before = old(self).fluid();
                let after = final(self).fluid();
                let fits = obstacle_fits(
                    before.node().width_spec(),
                    before.node().height_spec(),
                    px as int / 4,
                    py as int / 4,
                );
                &&& after.same_frame_as(before)
                &&& span.is_some() == fits
                &&& fits ==> after.node().cells() == with_obstacle(
                    before.node().cells(),
                    before.node().width_spec(),
                    px as int / 4,
                    py as int / 4,
                )
                &&& !fits ==> after.node().cells() == before.node().cells()
            },
    {
        match self {
            Player::Fluid(p) => p.on_click(px, py),
            _ => None,
        }
    }

    /// Starts the scenario afresh and says whether the lattice has to be
    /// sent to the device again.
    pub fn reset(&mut self) -> (rebuilt: bool)
        requires
            old(self).wf(),
        ensures
            final(self).wf(),
            final(self).kind() == old(self).kind(),
            !((*old(self)) is Fluid) ==> *final(self) == *old(self) && !rebuilt,
            (*old(self)) is Fluid ==> {
                let before = old(self).fluid();
                let after = final(self).fluid();
                &&& after.same_frame_as(before)
                &&& rebuilt == (before.node().animation_spec() == FieldAnimationType::Poiseuille)
                &&& rebuilt ==> after.node().cells() == initial_lattice(
                    before.node().width_spec(),
                    before.node().height_spec(),
                    1,
                    before.node().animation_spec(),
                )
                &&& !rebuilt ==> after.node().cells() == before.node().cells()
            },
    {
        match self {
            Player::Fluid(p) => p.reset(),
            _ => false,
        }
    }
}

/// Makes the simulation that the settings ask for, for a canvas of the
/// given size, or says why there can be none: a fluid needs a lattice that
/// is made of whole tiles and can be addressed.
pub fn create_player(canvas_size: (u32, u32), setting: &SettingObj) -> (player: Result<
    Player,
    ConfigError,
>)
    ensures
        player.is_err() <==> setting.field_type == FieldType::Fluid && (lattice_fault(
            canvas_size.0 as int / 4,
            canvas_size.1 as int / 4,
        ) is Some),
        player matches Err(e) ==> Some(e) == lattice_fault(
            canvas_size.0 as int / 4,
            canvas_size.1 as int / 4,
        ),
        player matches Ok(p) ==> p.is_fresh(canvas_size, *setting),
{
    match setting.field_type {
        FieldType::Field => Ok(Player::Field(FieldPlayer::new(canvas_size))),
        FieldType::Fluid => {
            match FluidPlayer::try_new(canvas_size.0, canvas_size.1, setting.animation_type) {
                Ok(p) => Ok(Player::Fluid(p)),
                Err(e) => Err(e),
            }
        },
        _ => Ok(Player::D3Fluid),
    }
}

/// The size of the buffer that holds one pixel record of 12 bytes for
/// each pixel of the canvas, or `None` where it does not fit in 64 bits.
pub fn canvas_buffer_size(width: u32, height: u32) -> (size: Option<u64>)
    ensures
        size.is_some() <==> width * height * 12 <= u64::MAX,
        size matches Some(n) ==> n == width * height * 12,
{
    assert(width * height <= 0xffff_ffff * 0xffff_ffff) by (nonlinear_arith)
        requires
            0 <= width <= 0xffff_ffff,
            0 <= height <= 0xffff_ffff,
    ;
    let pixels = width as u64 * height as u64;
    pixels.checked_mul(12)
}

/// The settings of a canvas and the simulation that it shows.
pub struct CombinateCanvas {
    setting: SettingObj,
    player: Player,
}

impl CombinateCanvas {
    /// The settings of the canvas.
    pub closed spec fn setting_spec(&self) -> SettingObj {
        self.setting
    }

    /// The simulation that the canvas shows.
    pub closed spec fn player_spec(&self) -> Player {
        self.player
    }

    /// Whether the canvas shows the simulation that its settings ask for.
    pub open spec fn wf(&self) -> bool {
        self.player_spec().kind() == kind_of(self.setting_spec().field_type)
            && self.player_spec().wf()
    }

    /// A canvas of the given size under the given settings, or the reason
    /// why there can be none: no tracer particles, or a fluid lattice
    /// that is not made of whole tiles or is too large.
    pub fn new(canvas_size: (u32, u32), setting: SettingObj) -> (canvas: Result<Self, ConfigError>)
        ensures
            canvas matches Err(e) ==> if setting.particles_count <= 0 {
                e == ConfigError::InvalidParticleCount
            } else {
                Some(e) == lattice_fault(canvas_size.0 as int / 4, canvas_size.1 as int / 4)
            },
            canvas.is_err() <==> setting.particles_count <= 0 || (setting.field_type
                == FieldType::Fluid && (lattice_fault(
                    canvas_size.0 as int / 4,
                    canvas_size.1 as int / 4,
                ) is Some)),
            canvas matches Ok(c) ==> c.wf() && c.setting_spec() == (SettingObj {
                canvas_size,
                ..setting
            }) && c.player_spec().is_fresh(canvas_size, c.setting_spec()),
    {
        match setting.check() {
            Err(e) => {
                return Err(e);
            },
            Ok(_) => {},
        }
        let mut setting = setting;
        setting.update_canvas_size(canvas_size);
        match create_player(canvas_size, &setting) {
            Ok(player) => Ok(CombinateCanvas { setting, player }),
            Err(e) => Err(e),
        }
    }

    /// The settings of the canvas.
    pub fn setting(&self) -> (setting: &SettingObj)
        ensures
            *setting == self.setting_spec(),
    {
        &self.setting
    }

    /// The simulation that the canvas shows.
    pub fn player(&self) -> (player: &Player)
        ensures
            *player == self.player_spec(),
    {
        &self.player
    }

    /// Makes the simulation anew under the given settings. Where that
    /// fails, the canvas keeps its settings and its simulation.
    fn rebuild(&mut self, setting: SettingObj) -> (done: Result<(), ConfigError>)
        requires
            old(self).wf(),
        ensures
            final(self).wf(),
            done.is_err() <==> setting.field_type == FieldType::Fluid && (lattice_fault(
                setting.canvas_size.0 as int / 4,
                setting.canvas_size.1 as int / 4,
            ) is Some),
            done matches Err(e) ==> Some(e) == lattice_fault(
                setting.canvas_size.0 as int / 4,
                setting.canvas_size.1 as int / 4,
            ) && *final(self) == *old(self),
            done.is_ok() ==> {
                &&& final(self).setting_spec() == setting
                &&& final(self).player_spec().is_fresh(setting.canvas_size, setting)
            },
    {
        match create_player(setting.canvas_size, &setting) {
            Ok(player) => {
                self.setting = setting;
                self.player = player;
                Ok(())
            },
            Err(e) => Err(e),
        }
    }

    /// Switches to another kind of field. Where the kind stays, nothing
    /// changes, not even the animation. Where it changes, the canvas takes
    /// the animation too and makes a new simulation; if that fails, the
    /// canvas stays as it was.
    pub fn update_field_type(
        &mut self,
        field_ty: FieldType,
        animation_ty: FieldAnimationType,
    ) -> (recreated: Result<bool, ConfigError>)
        requires
            old(self).wf(),
        ensures
            final(self).wf(),
            old(self).setting_spec().field_type == field_ty ==> recreated == Ok::<
                bool,
                ConfigError,
            >(false) && *final(self) == *old(self),
            old(self).setting_spec().field_type != field_ty ==> {
                let wanted = SettingObj {
                    field_type: field_ty,
                    animation_type: animation_ty,
                    ..old(self).setting_spec()
                };
                &&& recreated.is_err() <==> field_ty == FieldType::Fluid
                    && (lattice_fault(
                        wanted.canvas_size.0 as int / 4,
                        wanted.canvas_size.1 as int / 4,
                    ) is Some)
                &&& recreated matches Err(e) ==> Some(e) == lattice_fault(
                    wanted.canvas_size.0 as int / 4,
                    wanted.canvas_size.1 as int / 4,
                ) && *final(self)
                    == *old(self)
                &&& recreated matches Ok(r) ==> {
                    &&& r
                    &&& final(self).setting_spec() == wanted
                    &&& final(self).player_spec().is_fresh(wanted.canvas_size, wanted)
                }
            },
    {
        let mut setting = self.setting;
        if setting.update_field_type(field_ty) {
            setting.animation_type = animation_ty;
            match self.rebuild(setting) {
                Ok(_) => Ok(true),
                Err(e) => Err(e),
            }
        } else {
            Ok(false)
        }
    }

    /// Switches to another animation and makes a new simulation; if that
    /// fails, the canvas stays as it was.
    pub fn update_animation_type(&mut self, ty: FieldAnimationType) -> (done: Result<
        (),
        ConfigError,
    >)
        requires
            old(self).wf(),
        ensures
            final(self).wf(),
            done.is_err() <==> old(self).setting_spec().field_type == FieldType::Fluid
                && (lattice_fault(
                    old(self).setting_spec().canvas_size.0 as int / 4,
                    old(self).setting_spec().canvas_size.1 as int / 4,
                ) is Some),
            done matches Err(e) ==> Some(e) == lattice_fault(
                old(self).setting_spec().canvas_size.0 as int / 4,
                old(self).setting_spec().canvas_size.1 as int / 4,
            ) && *final(self) == *old(self),
            done.is_ok() ==> final(self).setting_spec() == (SettingObj {
                animation_type: ty,
                ..old(self).setting_spec()
            }) && final(self).player_spec().is_fresh(
                final(self).setting_spec().canvas_size,
                final(self).setting_spec(),
            ),
    {
        let mut setting = self.setting;
        setting.animation_type = ty;
        self.rebuild(setting)
    }

    /// Makes the simulation that the settings ask for anew; if that fails,
    /// the canvas keeps the one it has.
    pub fn recreate_player(&mut self) -> (done: Result<(), ConfigError>)
        requires
            old(self).wf(),
        ensures
            final(self).wf(),
            final(self).setting_spec() == old(self).setting_spec(),
            done.is_err() <==> old(self).setting_spec().field_type == FieldType::Fluid
                && (lattice_fault(
                    old(self).setting_spec().canvas_size.0 as int / 4,
                    old(self).setting_spec().canvas_size.1 as int / 4,
                ) is Some),
            done matches Err(e) ==> Some(e) == lattice_fault(
                old(self).setting_spec().canvas_size.0 as int / 4,
                old(self).setting_spec().canvas_size.1 as int / 4,
            ) && *final(self) == *old(self),
            done.is_ok() ==> final(self).player_spec().is_fresh(
                old(self).setting_spec().canvas_size,
                old(self).setting_spec(),
            ),
    {
        let setting = self.setting;
        self.rebuild(setting)
    }

    /// Takes a new canvas size and makes a new simulation for it; if that
    /// fails, the canvas keeps its size and its simulation.
    pub fn resize(&mut self, canvas_size: (u32, u32)) -> (done: Result<(), ConfigError>)
        requires
            old(self).wf(),
        ensures
            final(self).wf(),
            done.is_err() <==> old(self).setting_spec().field_type == FieldType::Fluid
                && (lattice_fault(canvas_size.0 as int / 4, canvas_size.1 as int / 4) is Some),
            done matches Err(e) ==> Some(e) == lattice_fault(
                canvas_size.0 as int / 4,
                canvas_size.1 as int / 4,
            ) && *final(self) == *old(self),
            done.is_ok() ==> final(self).setting_spec() == (SettingObj {
                canvas_size,
                ..old(self).setting_spec()
            }) && final(self).player_spec().is_fresh(canvas_size, final(self).setting_spec()),
    {
        let mut setting = self.setting;
        setting.update_canvas_size(canvas_size);
        self.rebuild(setting)
    }

    /// Takes the number of tracer particles.
    pub fn update_particles_count(&mut self, count: i32)
        requires
            old(self).wf(),
        ensures
            final(self).wf(),
            final(self).player_spec() == old(self).player_spec(),
            final(self).setting_spec() == (SettingObj {
                particles_count: count,
                ..old(self).setting_spec()
            }),
    {
        self.setting.update_particles_count(count);
    }

    /// Switches to another color mode and says whether the particle
    /// uniform has to be written again.
    pub fn update_particle_color(&mut self, color_type: ParticleColorType) -> (changed: bool)
        requires
            old(self).wf(),
        ensures
            final(self).wf(),
            final(self).player_spec() == old(self).player_spec(),
            changed == (old(self).setting_spec().uniform_color_ty != color_type.code_spec()),
            changed ==> final(self).setting_spec() == (SettingObj {
                uniform_color_ty: color_type.code_spec(),
                ..old(self).setting_spec()
            }),
            !changed ==> final(self).setting_spec() == old(self).setting_spec(),
    {
        self.setting.update_particle_color(color_type)
    }

    /// Switches to another point size and says whether the particle
    /// uniform has to be written again.
    pub fn update_particle_point_size(&mut self, point_size: i32) -> (changed: bool)
        requires
            old(self).wf(),
        ensures
            final(self).wf(),
            final(self).player_spec() == old(self).player_spec(),
            changed == (old(self).setting_spec().uniform_point_size != point_size),
            final(self).setting_spec() == (SettingObj {
                uniform_point_size: point_size,
                ..old(self).setting_spec()
            }),
    {
        self.setting.update_particle_point_size(point_size)
    }

    /// Starts the scenario afresh and says whether the lattice has to be
    /// sent to the device again.
    pub fn reset(&mut self) -> (rebuilt: bool)
        requires
            old(self).wf(),
        ensures
            final(self).wf(),
            final(self).setting_spec() == old(self).setting_spec(),
            final(self).player_spec().kind() == old(self).player_spec().kind(),
            !(old(self).player_spec() is Fluid) ==> *final(self) == *old(self) && !rebuilt,
            old(self).player_spec() is Fluid ==> {
                let before = old(self).player_spec().fluid();
                let after = final(self).player_spec().fluid();
                &&& after.same_frame_as(before)
                &&& rebuilt == (before.node().animation_spec() == FieldAnimationType::Poiseuille)
                &&& rebuilt ==> after.node().cells() == initial_lattice(
                    before.node().width_spec(),
                    before.node().height_spec(),
                    1,
                    before.node().animation_spec(),
                )
                &&& !rebuilt ==> after.node().cells() == before.node().cells()
            },
    {
        self.player.reset()
    }

    /// A click at canvas pixel `(px, py)`: the fluid puts an obstacle
    /// there, where one fits; the other simulations do nothing.
    pub fn on_click(&mut self, px: u32, py: u32) -> (span: Option<CellSpan>)
        requires
            old(self).wf(),
        ensures
            final(self).wf(),
            final(self).setting_spec() == old(self).setting_spec(),
            final(self).player_spec().kind() == old(self).player_spec().kind(),
            !(old(self).player_spec() is Fluid) ==> *final(self) == *old(self) && span.is_none(),
            old(self).player_spec() is Fluid ==> {
                let before = old(self).player_spec().fluid();
                let after = final(self).player_spec().fluid();
                let fits = obstacle_fits(
                    before.node().width_spec(),
                    before.node().height_spec(),
                    px as int / 4,
                    py as int / 4,
                );
                &&& after.same_frame_as(before)
                &&& span.is_some() == fits
                &&& fits ==> after.node().cells() == with_obstacle(
                    before.node().cells(),
                    before.node().width_spec(),
                    px as int / 4,
                    py as int / 4,
                )
                &&& !fits ==> after.node().cells() == before.node().cells()
            },
    {
        self.player.on_click(px, py)
    }
}

} // verus!
