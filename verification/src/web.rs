//! What the page tells the canvas: named events, and choices kept as
//! short strings.

use vstd::prelude::*;
use crate::{FieldAnimationType, FieldType, ParticleColorType};

verus! {

/// The animation that the page names `val`: "1" the spiral, "2" the Julia
/// set, "3" the Poiseuille channel, "4" the custom fluid, anything else
/// the basic shear.
pub fn get_animation_type(val: &str) -> (ty: FieldAnimationType)
    ensures
        ty == if val@ == "1"@ {
            FieldAnimationType::Spirl
        } else if val@ == "2"@ {
            FieldAnimationType::JuliaSet
        } else if val@ == "3"@ {
            FieldAnimationType::Poiseuille
        } else if val@ == "4"@ {
            FieldAnimationType::Custom
        } else {
            FieldAnimationType::Basic
        },
{
    if str_eq(val, "1") {
        FieldAnimationType::Spirl
    } else if str_eq(val, "2") {
        FieldAnimationType::JuliaSet
    } else if str_eq(val, "3") {
        FieldAnimationType::Poiseuille
    } else if str_eq(val, "4") {
        FieldAnimationType::Custom
    } else {
        FieldAnimationType::Basic
    }
}

/// The kind of field that the page names `val`: "2" a fluid, anything
/// else a procedural field.
pub fn get_field_type(val: &str) -> (ty: FieldType)
    ensures
        ty == if val@ == "2"@ {
            FieldType::Fluid
        } else {
            FieldType::Field
        },
{
    if str_eq(val, "2") {
        FieldType::Fluid
    } else {
        FieldType::Field
    }
}

/// The color mode that the page names `val`: "1" by direction, "2" by
/// speed, anything else one color.
pub fn get_color_type(val: &str) -> (ty: ParticleColorType)
    ensures
        ty == if val@ == "1"@ {
            ParticleColorType::MovementAngle
        } else if val@ == "2"@ {
            ParticleColorType::Speed
        } else {
            ParticleColorType::Uniform
        },
{
    if str_eq(val, "1") {
        ParticleColorType::MovementAngle
    } else if str_eq(val, "2") {
        ParticleColorType::Speed
    } else {
        ParticleColorType::Uniform
    }
}

/// Whether two strings hold the same characters.
fn str_eq(a: &str, b: &str) -> (same: bool)
    ensures
        same == (a@ == b@),
{
    let n = a.unicode_len();
    if n != b.unicode_len() {
        return false;
    }
    let mut i: usize = 0;
    while i < n
        invariant
            i <= n,
            n == a@.len(),
            n == b@.len(),
            forall|k: int| 0 <= k < i ==> a@[k] == b@[k],
        decreases n - i,
    {
        if a.get_char(i) != b.get_char(i) {
            return false;
        }
        i += 1;
    }
    assert(a@ =~= b@);
    true
}

/// What the page can tell the canvas.
#[derive(Clone, Copy, Debug, PartialEq, Eq, Structural)]
pub enum UserEvent {
    FieldType,
    FieldAnimationType,
    FluidViscosityChanged,
    ParticleColorChanged,
    ParticlesCountChanged,
    ParticleSizeChanged,
    CanvasSizeNeedChange,
    CanvasAnimationResume,
    CanvasAnimationSuspend,
    CanvasReset,
}

/// What the canvas does about an event.
#[derive(Clone, Copy, Debug, PartialEq, Eq, Structural)]
pub enum CanvasCommand {
    /// Switch to another kind of field, with the animation to show if
    /// the kind changes.
    UpdateFieldType { field_ty: FieldType, animation_ty: FieldAnimationType },
    UpdateAnimationType { ty: FieldAnimationType },
    /// Read the viscosity that the page keeps and hand it to the fluid.
    UpdateFluidViscosity,
    UpdateParticlesCount { count: i32 },
    UpdateParticlePointSize { point_size: i32 },
    UpdateParticleColor { color_type: ParticleColorType },
    Reset,
    Nothing,
}

/// The event that the page names `name`, if it is one of the ten.
pub fn parse_event(name: &str) -> (event: Option<UserEvent>)
    ensures
        event == if name@ == "field_type"@ {
            Some(UserEvent::FieldType)
        } else if name@ == "field_animation_type"@ {
            Some(UserEvent::FieldAnimationType)
        } else if name@ == "fluid_viscosity_changed"@ {
            Some(UserEvent::FluidViscosityChanged)
        } else if name@ == "particle_color_changed"@ {
            Some(UserEvent::ParticleColorChanged)
        } else if name@ == "particles_count_changed"@ {
            Some(UserEvent::ParticlesCountChanged)
        } else if name@ == "particle_size_changed"@ {
            Some(UserEvent::ParticleSizeChanged)
        } else if name@ == "canvas_size_need_change"@ {
            Some(UserEvent::CanvasSizeNeedChange)
        } else if name@ == "canvas_animation_resume"@ {
            Some(UserEvent::CanvasAnimationResume)
        } else if name@ == "canvas_animation_suspend"@ {
            Some(UserEvent::CanvasAnimationSuspend)
        } else if name@ == "canvas_reset"@ {
            Some(UserEvent::CanvasReset)
        } else {
            None
        },
{
    if str_eq(name, "field_type") {
        Some(UserEvent::FieldType)
    } else if str_eq(name, "field_animation_type") {
        Some(UserEvent::FieldAnimationType)
    } else if str_eq(name, "fluid_viscosity_changed") {
        Some(UserEvent::FluidViscosityChanged)
    } else if str_eq(name, "particle_color_changed") {
        Some(UserEvent::ParticleColorChanged)
    } else if str_eq(name, "particles_count_changed") {
        Some(UserEvent::ParticlesCountChanged)
    } else if str_eq(name, "particle_size_changed") {
        Some(UserEvent::ParticleSizeChanged)
    } else if str_eq(name, "canvas_size_need_change") {
        Some(UserEvent::CanvasSizeNeedChange)
    } else if str_eq(name, "canvas_animation_resume") {
        Some(UserEvent::CanvasAnimationResume)
    } else if str_eq(name, "canvas_animation_suspend") {
        Some(UserEvent::CanvasAnimationSuspend)
    } else if str_eq(name, "canvas_reset") {
        Some(UserEvent::CanvasReset)
    } else {
        None
    }
}

/// The name under which the page keeps the choice that an event is about,
/// for the events that are about a choice.
pub fn storage_key(event: UserEvent) -> (key: Option<&'static str>)
    ensures
        match event {
            UserEvent::FieldType => key matches Some(k) && k@ == "field_type"@,
            UserEvent::FieldAnimationType => key matches Some(k) && k@ == "field_animation_type"@,
            UserEvent::FluidViscosityChanged => key matches Some(k) && k@ == "fluid_viscosity"@,
            UserEvent::ParticleColorChanged => key matches Some(k) && k@ == "color_type"@,
            UserEvent::ParticlesCountChanged => key matches Some(k) && k@ == "particles_count"@,
            UserEvent::ParticleSizeChanged => key matches Some(k) && k@ == "particle_size"@,
            _ => key.is_none(),
        },
{
    match event {
        UserEvent::FieldType => Some("field_type"),
        UserEvent::FieldAnimationType => Some("field_animation_type"),
        UserEvent::FluidViscosityChanged => Some("fluid_viscosity"),
        UserEvent::ParticleColorChanged => Some("color_type"),
        UserEvent::ParticlesCountChanged => Some("particles_count"),
        UserEvent::ParticleSizeChanged => Some("particle_size"),
        _ => None,
    }
}

/// Whether `c` is one of the digits 0 to 9.
pub open spec fn is_digit(c: char) -> bool {
    '0' <= c <= '9'
}

/// The number that a run of digits writes.
pub open spec fn digits_value(digits: Seq<char>) -> int
    decreases digits.len(),
{
    if digits.len() == 0 {
        0
    } else {
        10 * digits_value(digits.drop_last()) + (digits.last() as int - '0' as int)
    }
}

/// Whether every character of the run is a digit.
pub open spec fn all_digits(digits: Seq<char>) -> bool {
    forall|i: int| 0 <= i < digits.len() ==> is_digit(#[trigger] digits[i])
}

/// The text without its sign, if it starts with one.
pub open spec fn unsigned_part(s: Seq<char>) -> Seq<char> {
    if s.len() > 0 && (s[0] == '-' || s[0] == '+') {
        s.subrange(1, s.len() as int)
    } else {
        s
    }
}

/// The number that a text writes in decimal: an optional sign and at
/// least one digit, nothing else. `None` for any other text.
pub open spec fn decimal_value(s: Seq<char>) -> Option<int> {
    let digits = unsigned_part(s);
    if digits.len() == 0 || !all_digits(digits) {
        None
    } else if s[0] == '-' {
        Some(-digits_value(digits))
    } else {
        Some(digits_value(digits))
    }
}

/// A longer run of digits writes no smaller number.
proof fn lemma_digits_value_grows(digits: Seq<char>, n: int)
    requires
        0 <= n <= digits.len(),
        forall|i: int| 0 <= i < digits.len() ==> is_digit(#[trigger] digits[i]),
    ensures
        0 <= digits_value(digits.take(n)) <= digits_value(digits),
    decreases digits.len() - n,
{
    if n == digits.len() {
        assert(digits.take(n) =~= digits);
        lemma_digits_value_nonnegative(digits);
    } else {
        lemma_digits_value_grows(digits, n + 1);
        assert(digits.take(n + 1).drop_last() =~= digits.take(n));
        lemma_digits_value_nonnegative(digits.take(n));
    }
}

proof fn lemma_digits_value_nonnegative(digits: Seq<char>)
    requires
        forall|i: int| 0 <= i < digits.len() ==> is_digit(#[trigger] digits[i]),
    ensures
        0 <= digits_value(digits),
    decreases digits.len(),
{
    if digits.len() > 0 {
        lemma_digits_value_nonnegative(digits.drop_last());
    }
}

/// Whether the characters from `start` on are all digits.
fn digits_only(val: &str, start: usize, n: usize) -> (ok: bool)
    requires
        start <= n,
        n == val@.len(),
    ensures
        ok == forall|k: int| start <= k < n ==> is_digit(#[trigger] val@[k]),
{
    let mut i: usize = start;
    while i < n
        invariant
            start <= i <= n,
            n == val@.len(),
            forall|k: int| start <= k < i ==> is_digit(#[trigger] val@[k]),
        decreases n - i,
    {
        let c = val.get_char(i);
        if c < '0' || c > '9' {
            assert(!is_digit(val@[i as int]));
            return false;
        }
        i += 1;
    }
    true
}

/// The number that the digits from `start` on write, or `None` where it
/// is larger than 2147483648.
fn digits_number(val: &str, start: usize, n: usize) -> (number: Option<i64>)
    requires
        start <= n,
        n == val@.len(),
        forall|k: int| start <= k < n ==> is_digit(#[trigger] val@[k]),
    ensures
        match number {
            Some(v) => v == digits_value(val@.subrange(start as int, n as int)) && 0 <= v
                <= 0x8000_0000,
            None => digits_value(val@.subrange(start as int, n as int)) > 0x8000_0000,
        },
{
    let ghost digits = val@.subrange(start as int, n as int);
    let mut acc: i64 = 0;
    let mut i: usize = start;
    while i < n
        invariant
            start <= i <= n,
            n == val@.len(),
            digits == val@.subrange(start as int, n as int),
            forall|k: int| 0 <= k < digits.len() ==> is_digit(#[trigger] digits[k]),
            acc == digits_value(digits.take(i - start)),
            0 <= acc <= 0x8000_0000,
        decreases n - i,
    {
        let c = val.get_char(i);
        proof {
            assert(c == digits[i - start]);
            assert(is_digit(digits[i - start]));
            assert(digits.take(i - start + 1).drop_last() =~= digits.take(i - start));
        }
        let d = (c as u32 - '0' as u32) as i64;
        let next = acc * 10 + d;
        if next > 0x8000_0000 {
            proof {
                lemma_digits_value_grows(digits, i - start + 1);
            }
            return None;
        }
        acc = next;
        i += 1;
    }
    proof {
        assert(digits.take(n - start) =~= digits);
    }
    Some(acc)
}

/// Reads a whole number as the page writes it: an optional sign and
/// decimal digits. `None` where the text is anything else, or the number
/// does not fit in 32 bits.
pub fn parse_i32(val: &str) -> (number: Option<i32>)
    ensures
        match number {
            Some(n) => decimal_value(val@) == Some(n as int),
            None => match decimal_value(val@) {
                Some(v) => v < i32::MIN || v > i32::MAX,
                None => true,
            },
        },
{
    let n = val.unicode_len();
    if n == 0 {
        return None;
    }
    let first = val.get_char(0);
    let negative = first == '-';
    let start: usize = if first == '-' || first == '+' {
        1
    } else {
        0
    };
    let ghost digits = val@.subrange(start as int, n as int);
    proof {
        if start == 0 {
            assert(digits =~= val@);
        }
    }
    if start == n {
        return None;
    }
    if !digits_only(val, start, n) {
        proof {
            let k = choose|k: int| start <= k < n && !is_digit(#[trigger] val@[k]);
            assert(unsigned_part(val@) == digits);
            assert(0 <= k - start < digits.len() && !is_digit(digits[k - start]));
            assert(!all_digits(digits));
        }
        return None;
    }
    proof {
        assert forall|k: int| 0 <= k < digits.len() implies is_digit(#[trigger] digits[k]) by {
            assert(digits[k] == val@[start + k]);
        }
        assert(unsigned_part(val@) == digits);
        assert(all_digits(digits));
    }
    match digits_number(val, start, n) {
        None => None,
        Some(v) => {
            if negative {
                Some((-v) as i32)
            } else if v > i32::MAX as i64 {
                None
            } else {
                Some(v as i32)
            }
        },
    }
}

/// What the canvas does about `event`. `val` is the choice that the page
/// keeps under the event's key, `animation_val` the animation it keeps.
pub fn command_of(event: UserEvent, val: &str, animation_val: &str) -> (command: CanvasCommand)
    ensures
        command == match event {
            UserEvent::FieldType => CanvasCommand::UpdateFieldType {
                field_ty: if val@ == "2"@ {
                    FieldType::Fluid
                } else {
                    FieldType::Field
                },
                animation_ty: if animation_val@ == "1"@ {
                    FieldAnimationType::Spirl
                } else if animation_val@ == "2"@ {
                    FieldAnimationType::JuliaSet
                } else if animation_val@ == "3"@ {
                    FieldAnimationType::Poiseuille
                } else if animation_val@ == "4"@ {
                    FieldAnimationType::Custom
                } else {
                    FieldAnimationType::Basic
                },
            },
            UserEvent::FieldAnimationType => CanvasCommand::UpdateAnimationType {
                ty: if val@ == "1"@ {
                    FieldAnimationType::Spirl
                } else if val@ == "2"@ {
                    FieldAnimationType::JuliaSet
                } else if val@ == "3"@ {
                    FieldAnimationType::Poiseuille
                } else if val@ == "4"@ {
                    FieldAnimationType::Custom
                } else {
                    FieldAnimationType::Basic
                },
            },
            UserEvent::FluidViscosityChanged => CanvasCommand::UpdateFluidViscosity,
            UserEvent::ParticlesCountChanged => match decimal_value(val@) {
                Some(v) if i32::MIN <= v <= i32::MAX => CanvasCommand::UpdateParticlesCount {
                    count: v as i32,
                },
                _ => CanvasCommand::Nothing,
            },
            UserEvent::ParticleSizeChanged => match decimal_value(val@) {
                Some(v) if i32::MIN <= v <= i32::MAX => CanvasCommand::UpdateParticlePointSize {
                    point_size: v as i32,
                },
                _ => CanvasCommand::Nothing,
            },
            UserEvent::ParticleColorChanged => CanvasCommand::UpdateParticleColor {
                color_type: if val@ == "1"@ {
                    ParticleColorType::MovementAngle
                } else if val@ == "2"@ {
                    ParticleColorType::Speed
                } else {
                    ParticleColorType::Uniform
                },
            },
            UserEvent::CanvasReset => CanvasCommand::Reset,
            _ => CanvasCommand::Nothing,
        },
{
    match event {
        UserEvent::FieldType => CanvasCommand::UpdateFieldType {
            field_ty: get_field_type(val),
            animation_ty: get_animation_type(animation_val),
        },
        UserEvent::FieldAnimationType => CanvasCommand::UpdateAnimationType {
            ty: get_animation_type(val),
        },
        UserEvent::FluidViscosityChanged => CanvasCommand::UpdateFluidViscosity,
        UserEvent::ParticlesCountChanged => match parse_i32(val) {
            Some(count) => CanvasCommand::UpdateParticlesCount { count },
            None => CanvasCommand::Nothing,
        },
        UserEvent::ParticleSizeChanged => match parse_i32(val) {
            Some(point_size) => CanvasCommand::UpdateParticlePointSize { point_size },
            None => CanvasCommand::Nothing,
        },
        UserEvent::ParticleColorChanged => CanvasCommand::UpdateParticleColor {
            color_type: get_color_type(val),
        },
        UserEvent::CanvasReset => CanvasCommand::Reset,
        _ => CanvasCommand::Nothing,
    }
}

} // verus!
