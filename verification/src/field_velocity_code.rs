//! The velocity fields that a procedural animation can show, each as the
//! body of a shader function from a lattice point `p` to its velocity.

use vstd::prelude::*;
use crate::FieldAnimationType;

verus! {

/// A shear flow: velocity grows with the distance from the middle row.
pub const BASIC_VELOCITY_CODE: &'static str = r#"
    let new_y = f32(p.y) - f32(field.lattice_size.y) / 2.0;
    var v: vec2<f32> = vec2<f32>(0.0, 0.0);
    v.x = 0.1 * new_y;
    v.y = -0.2 * new_y;
    return v * 0.5;
    "#;

/// A flow along eight iterations of a Julia set.
pub const JULIA_SET_VELOCITY_CODE: &'static str = r#"
    var c: vec2<f32> = vec2<f32>(p) / (vec2<f32>(field.lattice_size) / 2.0) - vec2<f32>(1.0, 1.0);
    c = c * field.normalized_space_size;
    let z = vec2<f32>(0.4, 0.5);
    for (var i: i32 = 0; i < 8; i = i + 1) {
        c = vec2<f32>(c.x * c.x - c.y * c.y, c.y * c.x + c.x * c.y);
        c = c + z;
    }
    return c * 4.0;
    "#;

/// A spiral round the middle of the canvas.
pub const SPIRAL_VELOCITY_CODE: &'static str = r#"
    var c: vec2<f32> = vec2<f32>(p) / (vec2<f32>(field.lattice_size) / 2.0) - vec2<f32>(1.0, 1.0);
    let r = length(c);
    let theta = atan2(c.y, c.x);
    var v: vec2<f32> = vec2<f32>(c.y, -c.x) / r;
    let t = sqrt(r * 10.0) + theta + 0.1; // + frame * 0.02;
    v = v * sin(t);
    v = v * length(v) * 10.0;
    return v + c * 0.2;
    "#;

/// The shader code of the velocity field of an animation. The fluid
/// scenarios have no procedural field: their code is empty.
pub open spec fn velocity_code(ty: FieldAnimationType) -> &'static str {
    match ty {
        FieldAnimationType::Basic => BASIC_VELOCITY_CODE,
        FieldAnimationType::JuliaSet => JULIA_SET_VELOCITY_CODE,
        FieldAnimationType::Spirl => SPIRAL_VELOCITY_CODE,
        _ => "",
    }
}

/// The shader code of the velocity field of an animation.
pub fn get_velocity_code_segment(ty: FieldAnimationType) -> (code: &'static str)
    ensures
        code@ == velocity_code(ty)@,
        ty == FieldAnimationType::Poiseuille || ty == FieldAnimationType::LidDrivenCavity || ty
            == FieldAnimationType::Custom ==> code@.len() == 0,
{
    proof {
        reveal_strlit("");
    }
    match ty {
        FieldAnimationType::Basic => BASIC_VELOCITY_CODE,
        FieldAnimationType::JuliaSet => JULIA_SET_VELOCITY_CODE,
        FieldAnimationType::Spirl => SPIRAL_VELOCITY_CODE,
        _ => "",
    }
}

} // verus!
