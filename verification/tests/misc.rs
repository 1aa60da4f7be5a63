use nature::combinate_canvas::{
    canvas_buffer_size, create_player, CombinateCanvas, Player, PlayerKind,
};
use nature::field_player::{FieldPass, FieldPlayer};
use nature::field_velocity_code::{
    get_velocity_code_segment, BASIC_VELOCITY_CODE, JULIA_SET_VELOCITY_CODE, SPIRAL_VELOCITY_CODE,
};
use nature::noise::{grad3, CornerGradients, SimplexNoise};
use nature::setting_obj::{grid_threadgroup, padding_count, SettingObj, MAX_PARTICLE_COUNT};
use nature::shader::{insert_code_segment, shader_key, SHADER_SEGMENT};
use nature::shader_map::ShaderMapGenerator;
use nature::web::{
    command_of, get_animation_type, get_color_type, get_field_type, parse_event, parse_i32,
    storage_key, CanvasCommand, UserEvent,
};
use nature::{ConfigError, FieldAnimationType, FieldType, ParticleColorType};

#[test]
fn velocity_code_of_each_animation() {
    let basic = get_velocity_code_segment(FieldAnimationType::Basic);
    assert_eq!(basic, BASIC_VELOCITY_CODE);
    assert!(basic.contains("v.x = 0.1 * new_y;"));
    assert!(basic.ends_with("return v * 0.5;\n    "));
    let julia = get_velocity_code_segment(FieldAnimationType::JuliaSet);
    assert_eq!(julia, JULIA_SET_VELOCITY_CODE);
    assert!(julia.contains("let z = vec2<f32>(0.4, 0.5);"));
    let spiral = get_velocity_code_segment(FieldAnimationType::Spirl);
    assert_eq!(spiral, SPIRAL_VELOCITY_CODE);
    assert!(spiral.contains("let theta = atan2(c.y, c.x);"));
    assert_eq!(get_velocity_code_segment(FieldAnimationType::Poiseuille), "");
    assert_eq!(get_velocity_code_segment(FieldAnimationType::LidDrivenCavity), "");
    assert_eq!(get_velocity_code_segment(FieldAnimationType::Custom), "");
}

#[test]
fn shader_map_keeps_one_source_for_each_name() {
    let mut map = ShaderMapGenerator::new();
    assert_eq!(map.len(), 0);
    assert_eq!(map.get(&"present".to_string()), None);
    map.insert("present".to_string(), "fn main() {}".to_string());
    map.insert("lbm_init".to_string(), "A".to_string());
    assert_eq!(map.len(), 2);
    assert_eq!(map.get(&"lbm_init".to_string()), Some(&"A".to_string()));
    map.insert("present".to_string(), "B".to_string());
    assert_eq!(map.len(), 2);
    assert_eq!(map.get(&"present".to_string()), Some(&"B".to_string()));
    assert_eq!(map.get(&"lbm_init".to_string()), Some(&"A".to_string()));
    assert_eq!(map.get(&"missing".to_string()), None);
}

#[test]
fn generated_source_lists_the_entries_between_header_and_footer() {
    let header = "\nuse std::collections::HashMap;\nlazy_static::lazy_static! {\n    pub static ref SHARDERMAP: HashMap<String, String> = {\n        let mut m = HashMap::new();\n        ";
    let footer = "\n        m\n    };\n}\n        ";
    let mut map = ShaderMapGenerator::new();
    assert_eq!(map.generate_code(), format!("{}{}", header, footer));
    map.insert("a".to_string(), "x".to_string());
    map.insert("b_c".to_string(), "y z".to_string());
    map.insert("a".to_string(), "w".to_string());
    let want = format!(
        "{}{}{}{}",
        header,
        "        m.insert(\"a\".to_string(), \"w\".to_string());",
        "        m.insert(\"b_c\".to_string(), \"y z\".to_string());",
        footer
    );
    assert_eq!(map.generate_code(), want);
}

#[test]
fn choices_of_the_page() {
    assert_eq!(get_animation_type("1"), FieldAnimationType::Spirl);
    assert_eq!(get_animation_type("2"), FieldAnimationType::JuliaSet);
    assert_eq!(get_animation_type("3"), FieldAnimationType::Poiseuille);
    assert_eq!(get_animation_type("4"), FieldAnimationType::Custom);
    assert_eq!(get_animation_type("0"), FieldAnimationType::Basic);
    assert_eq!(get_animation_type(""), FieldAnimationType::Basic);
    assert_eq!(get_animation_type("11"), FieldAnimationType::Basic);
    assert_eq!(get_animation_type(" 3"), FieldAnimationType::Basic);
    assert_eq!(get_field_type("1"), FieldType::Field);
    assert_eq!(get_field_type("2"), FieldType::Fluid);
    assert_eq!(get_field_type("3"), FieldType::Field);
    assert_eq!(get_color_type("1"), ParticleColorType::MovementAngle);
    assert_eq!(get_color_type("2"), ParticleColorType::Speed);
    assert_eq!(get_color_type("x"), ParticleColorType::Uniform);
    assert_eq!(ParticleColorType::Uniform.code(), 0);
    assert_eq!(ParticleColorType::MovementAngle.code(), 1);
    assert_eq!(ParticleColorType::Speed.code(), 2);
}

#[test]
fn settings_say_when_the_device_must_hear_of_a_change() {
    let mut s = SettingObj::new(
        FieldType::Fluid,
        FieldAnimationType::Poiseuille,
        ParticleColorType::Speed,
        30000,
    );
    assert_eq!(s.check(), Ok(()));
    assert_eq!(s.canvas_size, (0, 0));
    assert_eq!(s.particles_threadgroup, (0, 0, 1));
    assert_eq!(s.uniform_color_ty, 2);
    assert_eq!(s.uniform_point_size, 1);
    assert!(!s.update_field_type(FieldType::Fluid));
    assert!(s.update_field_type(FieldType::Field));
    assert_eq!(s.field_type, FieldType::Field);
    assert!(!s.update_particle_color(ParticleColorType::Speed));
    assert!(s.update_particle_color(ParticleColorType::Uniform));
    assert_eq!(s.uniform_color_ty, 0);
    assert_eq!(s.color_ty, ParticleColorType::Speed);
    assert!(!s.update_particle_point_size(1));
    assert!(s.update_particle_point_size(3));
    assert_eq!(s.uniform_point_size, 3);
    s.update_canvas_size((1000, 780));
    s.update_particles_count(0);
    assert_eq!(s.check(), Err(ConfigError::InvalidParticleCount));
    s.update_particles_count(-5);
    assert_eq!(s.check(), Err(ConfigError::InvalidParticleCount));
    s.update_particles_count(500);
    assert_eq!(s.check(), Ok(()));
    s.update_particles_size(200, 156);
    assert_eq!(s.canvas_size, (1000, 780));
    assert_eq!(s.particles_count, 500);
    assert_eq!(s.particles_size, (200, 156));
    assert_eq!(s.particles_threadgroup, (13, 10, 1));
}

#[test]
fn particle_buffer_is_padded_to_its_full_size() {
    assert_eq!(MAX_PARTICLE_COUNT, 205000);
    assert_eq!(padding_count(0), 205000);
    assert_eq!(padding_count(31200), 173800);
    assert_eq!(padding_count(205000), 0);
    assert_eq!(padding_count(300000), 0);
    assert_eq!(grid_threadgroup(16, 17), (1, 2, 1));
    assert_eq!(grid_threadgroup(0, 1), (0, 1, 1));
    assert_eq!(grid_threadgroup(u32::MAX, u32::MAX), (268435456, 268435456, 1));
}

#[test]
fn canvas_swaps_its_player_when_the_kind_of_field_changes() {
    let setting = SettingObj::new(
        FieldType::Fluid,
        FieldAnimationType::Poiseuille,
        ParticleColorType::MovementAngle,
        30000,
    );
    let mut canvas = CombinateCanvas::new((1024, 784), setting).ok().unwrap();
    assert_eq!(canvas.player().player_kind(), PlayerKind::Fluid);
    assert_eq!(canvas.setting().canvas_size, (1024, 784));
    assert_eq!(canvas.update_field_type(FieldType::Fluid, FieldAnimationType::Basic), Ok(false));
    assert_eq!(canvas.setting().animation_type, FieldAnimationType::Poiseuille);
    assert_eq!(canvas.update_field_type(FieldType::Field, FieldAnimationType::Spirl), Ok(true));
    assert_eq!(canvas.player().player_kind(), PlayerKind::Field);
    assert_eq!(canvas.setting().animation_type, FieldAnimationType::Spirl);
    assert_eq!(canvas.update_animation_type(FieldAnimationType::JuliaSet), Ok(()));
    assert_eq!(canvas.setting().animation_type, FieldAnimationType::JuliaSet);
    assert_eq!(canvas.player().player_kind(), PlayerKind::Field);
    assert_eq!(canvas.resize((640, 480)), Ok(()));
    assert_eq!(canvas.setting().canvas_size, (640, 480));
    assert_eq!(canvas.update_field_type(FieldType::D3Fluid, FieldAnimationType::Basic), Ok(true));
    assert_eq!(canvas.player().player_kind(), PlayerKind::D3Fluid);
    assert_eq!(canvas.on_click(300, 300), None);
    assert!(!canvas.reset());
    canvas.update_particles_count(7);
    assert_eq!(canvas.setting().particles_count, 7);
    assert!(canvas.update_particle_color(ParticleColorType::Speed));
    assert!(!canvas.update_particle_color(ParticleColorType::Speed));
    assert!(canvas.update_particle_point_size(2));
    assert!(!canvas.update_particle_point_size(2));
    assert_eq!(canvas.recreate_player(), Ok(()));
    assert_eq!(canvas_buffer_size(1000, 780), Some(9_360_000));
    assert_eq!(canvas_buffer_size(0, 780), Some(0));
    assert_eq!(canvas_buffer_size(65536, 65536), Some(12 << 32));
    assert_eq!(canvas_buffer_size(u32::MAX, u32::MAX), None);
}

#[test]
fn canvas_with_a_fluid_takes_clicks_and_resets() {
    let setting = SettingObj::new(
        FieldType::Fluid,
        FieldAnimationType::Poiseuille,
        ParticleColorType::Uniform,
        100,
    );
    let mut canvas = CombinateCanvas::new((512, 320), setting).ok().unwrap();
    let fresh = match canvas.player() {
        Player::Fluid(p) => p.fluid_compute_node().lattice_info_data().clone(),
        _ => panic!("a fluid was asked for"),
    };
    assert!(canvas.on_click(200, 160).is_some());
    assert_eq!(canvas.on_click(10, 10), None);
    match canvas.player() {
        Player::Fluid(p) => assert_ne!(*p.fluid_compute_node().lattice_info_data(), fresh),
        _ => panic!("a fluid was asked for"),
    }
    assert!(canvas.reset());
    match canvas.player() {
        Player::Fluid(p) => assert_eq!(*p.fluid_compute_node().lattice_info_data(), fresh),
        _ => panic!("a fluid was asked for"),
    }
}

#[test]
fn a_canvas_that_cannot_be_set_up_is_refused_and_a_failed_change_undone() {
    let none = SettingObj::new(
        FieldType::Field,
        FieldAnimationType::Basic,
        ParticleColorType::Uniform,
        0,
    );
    assert_eq!(
        CombinateCanvas::new((400, 320), none).err(),
        Some(ConfigError::InvalidParticleCount)
    );
    let fluid = SettingObj::new(
        FieldType::Fluid,
        FieldAnimationType::Custom,
        ParticleColorType::Uniform,
        100,
    );
    assert_eq!(
        CombinateCanvas::new((1 << 20, 1 << 20), fluid).err(),
        Some(ConfigError::LatticeTooLarge)
    );
    assert_eq!(create_player((1 << 20, 1 << 20), &fluid).err(), Some(ConfigError::LatticeTooLarge));
    assert_eq!(
        CombinateCanvas::new((400, 320), fluid).err(),
        Some(ConfigError::LatticeNotTiled)
    );
    assert_eq!(create_player((u32::MAX, u32::MAX), &fluid).err(), Some(ConfigError::LatticeNotTiled));
    // A field has no lattice: any size will do.
    let field = SettingObj::new(
        FieldType::Field,
        FieldAnimationType::Basic,
        ParticleColorType::Uniform,
        100,
    );
    let mut canvas = CombinateCanvas::new((1 << 20, 1 << 20), field).ok().unwrap();
    assert_eq!(
        canvas.update_field_type(FieldType::Fluid, FieldAnimationType::Poiseuille),
        Err(ConfigError::LatticeTooLarge)
    );
    assert_eq!(canvas.setting().field_type, FieldType::Field);
    assert_eq!(canvas.setting().animation_type, FieldAnimationType::Basic);
    assert_eq!(canvas.player().player_kind(), PlayerKind::Field);
    assert_eq!(canvas.resize((400, 320)), Ok(()));
    assert_eq!(
        canvas.update_field_type(FieldType::Fluid, FieldAnimationType::Poiseuille),
        Err(ConfigError::LatticeNotTiled)
    );
    assert_eq!(canvas.player().player_kind(), PlayerKind::Field);
    assert_eq!(canvas.resize((512, 320)), Ok(()));
    assert_eq!(
        canvas.update_field_type(FieldType::Fluid, FieldAnimationType::Poiseuille),
        Ok(true)
    );
    assert_eq!(canvas.resize((1 << 20, 1 << 20)), Err(ConfigError::LatticeTooLarge));
    assert_eq!(canvas.resize((u32::MAX, u32::MAX)), Err(ConfigError::LatticeNotTiled));
    assert_eq!(canvas.setting().canvas_size, (512, 320));
    match canvas.player() {
        Player::Fluid(p) => assert_eq!(p.fluid_compute_node().width(), 128),
        _ => panic!("a fluid was asked for"),
    }
}

#[test]
fn field_player_sets_the_field_in_its_first_two_frames() {
    let mut player = FieldPlayer::new((1000, 780));
    assert_eq!(player.field_size(), (250, 195));
    assert_eq!(player.field_threadgroup(), (16, 13, 1));
    assert_eq!(player.field_buffer_size(), 250 * 195 * 16);
    assert_eq!(
        FieldPlayer::new((u32::MAX, u32::MAX)).field_buffer_size(),
        1073741823 * 1073741823 * 16
    );
    let first = vec![FieldPass::FieldSetting, FieldPass::ParticlesUpdate, FieldPass::Render];
    let later = vec![FieldPass::ParticlesUpdate, FieldPass::Render];
    assert_eq!(player.enter_frame(), first);
    assert_eq!(player.enter_frame(), first);
    assert_eq!(player.frame_num(), 2);
    assert_eq!(player.enter_frame(), later);
    assert_eq!(player.enter_frame(), later);
    assert_eq!(player.frame_num(), 4);
}

fn insert_by_lines(shader_source: &str, segment: &str) -> String {
    let mut output = String::new();
    for line in shader_source.lines() {
        if line.contains("#insert_code_segment") {
            output.push_str(segment);
        } else {
            output.push_str(line);
        }
        output.push_str("\n ");
    }
    output
}

#[test]
fn code_segment_replaces_the_marked_line() {
    assert_eq!(SHADER_SEGMENT, "#insert_code_segment");
    assert_eq!(
        insert_code_segment("fn f() {\n    #insert_code_segment\n}", "return v;"),
        "fn f() {\n return v;\n }\n "
    );
    assert_eq!(insert_code_segment("", "S"), "");
    assert_eq!(insert_code_segment("a", "S"), "a\n ");
    assert_eq!(insert_code_segment("a\n", "S"), "a\n ");
    assert_eq!(insert_code_segment("\n", "S"), "\n ");
    assert_eq!(insert_code_segment("\n\n", "S"), "\n \n ");
    assert_eq!(insert_code_segment("x\r\ny\r\n", "S"), "x\n y\n ");
    assert_eq!(insert_code_segment("a\r", "S"), "a\r\n ");
    assert_eq!(insert_code_segment("\r\n", "S"), "\n ");
    assert_eq!(insert_code_segment("#insert_code_segment", "S"), "S\n ");
    assert_eq!(insert_code_segment("#insert_code_segmen", "S"), "#insert_code_segmen\n ");
    assert_eq!(insert_code_segment("##insert_code_segment#", ""), "\n ");
    for source in [
        "a\nb\n\nc",
        "// #insert_code_segment\r\nlet x = 1;\r\n#insert_code_segment",
        "line one\n  #insert_code_segm\nent\n",
        "gr\u{fc}n \u{1f600}\n#insert_code_segment \u{e9}\n",
        "\r\r\n\r",
        "#insert_code_segment#insert_code_segment",
    ] {
        for segment in ["", "S", "two\nlines"] {
            assert_eq!(insert_code_segment(source, segment), insert_by_lines(source, segment));
        }
    }
}

#[test]
fn shader_names_are_kept_with_underscores() {
    assert_eq!(shader_key("lbm/collide_stream"), "lbm_collide_stream");
    assert_eq!(shader_key("pbd/xxpbd/cloth_predict"), "pbd_xxpbd_cloth_predict");
    assert_eq!(shader_key("present"), "present");
    assert_eq!(shader_key(""), "");
    assert_eq!(shader_key("/"), "_");
    assert_eq!(shader_key("//a/"), "__a_");
}

#[test]
fn whole_numbers_are_read_as_the_standard_library_reads_them() {
    assert_eq!(parse_i32("30000"), Some(30000));
    assert_eq!(parse_i32("-17"), Some(-17));
    assert_eq!(parse_i32("+8"), Some(8));
    assert_eq!(parse_i32("0007"), Some(7));
    assert_eq!(parse_i32("-0"), Some(0));
    assert_eq!(parse_i32("2147483647"), Some(i32::MAX));
    assert_eq!(parse_i32("-2147483648"), Some(i32::MIN));
    assert_eq!(parse_i32("2147483648"), None);
    assert_eq!(parse_i32("-2147483649"), None);
    assert_eq!(parse_i32("99999999999999999999999999"), None);
    assert_eq!(parse_i32(""), None);
    assert_eq!(parse_i32("+"), None);
    assert_eq!(parse_i32("-"), None);
    for text in [
        "1", "12a", "a12", " 12", "12 ", "1_000", "+-5", "--5", "0", "00", "-00012", "+2147483647",
        "+2147483648", "21474836470", "2147483648x", "\u{663}", "1\u{663}", "3.5", "1e3", "0x10",
        "-2147483648", "-2147483650", "000000000000000000000000000012", "9999999999x",
    ] {
        assert_eq!(parse_i32(text), text.parse::<i32>().ok(), "{:?}", text);
    }
}

#[test]
fn events_of_the_page() {
    let names = [
        ("field_type", UserEvent::FieldType, Some("field_type")),
        ("field_animation_type", UserEvent::FieldAnimationType, Some("field_animation_type")),
        ("fluid_viscosity_changed", UserEvent::FluidViscosityChanged, Some("fluid_viscosity")),
        ("particle_color_changed", UserEvent::ParticleColorChanged, Some("color_type")),
        ("particles_count_changed", UserEvent::ParticlesCountChanged, Some("particles_count")),
        ("particle_size_changed", UserEvent::ParticleSizeChanged, Some("particle_size")),
        ("canvas_size_need_change", UserEvent::CanvasSizeNeedChange, None),
        ("canvas_animation_resume", UserEvent::CanvasAnimationResume, None),
        ("canvas_animation_suspend", UserEvent::CanvasAnimationSuspend, None),
        ("canvas_reset", UserEvent::CanvasReset, None),
    ];
    for (name, event, key) in names {
        assert_eq!(parse_event(name), Some(event));
        assert_eq!(storage_key(event), key);
    }
    assert_eq!(parse_event("click"), None);
    assert_eq!(parse_event(""), None);
    assert_eq!(parse_event("canvas_reset "), None);
    assert_eq!(parse_event("Field_type"), None);
}

#[test]
fn commands_for_events() {
    assert_eq!(
        command_of(UserEvent::FieldType, "2", "3"),
        CanvasCommand::UpdateFieldType {
            field_ty: FieldType::Fluid,
            animation_ty: FieldAnimationType::Poiseuille
        }
    );
    assert_eq!(
        command_of(UserEvent::FieldType, "7", ""),
        CanvasCommand::UpdateFieldType {
            field_ty: FieldType::Field,
            animation_ty: FieldAnimationType::Basic
        }
    );
    assert_eq!(
        command_of(UserEvent::FieldAnimationType, "1", "4"),
        CanvasCommand::UpdateAnimationType { ty: FieldAnimationType::Spirl }
    );
    assert_eq!(
        command_of(UserEvent::FluidViscosityChanged, "0.02", ""),
        CanvasCommand::UpdateFluidViscosity
    );
    assert_eq!(
        command_of(UserEvent::ParticlesCountChanged, "45000", ""),
        CanvasCommand::UpdateParticlesCount { count: 45000 }
    );
    assert_eq!(command_of(UserEvent::ParticlesCountChanged, "many", ""), CanvasCommand::Nothing);
    assert_eq!(
        command_of(UserEvent::ParticlesCountChanged, "4294967296", ""),
        CanvasCommand::Nothing
    );
    assert_eq!(
        command_of(UserEvent::ParticleSizeChanged, "-2", ""),
        CanvasCommand::UpdateParticlePointSize { point_size: -2 }
    );
    assert_eq!(command_of(UserEvent::ParticleSizeChanged, "", ""), CanvasCommand::Nothing);
    assert_eq!(
        command_of(UserEvent::ParticleColorChanged, "2", ""),
        CanvasCommand::UpdateParticleColor { color_type: ParticleColorType::Speed }
    );
    assert_eq!(command_of(UserEvent::CanvasReset, "", ""), CanvasCommand::Reset);
    assert_eq!(command_of(UserEvent::CanvasSizeNeedChange, "1", "1"), CanvasCommand::Nothing);
    assert_eq!(command_of(UserEvent::CanvasAnimationResume, "1", "1"), CanvasCommand::Nothing);
    assert_eq!(command_of(UserEvent::CanvasAnimationSuspend, "1", "1"), CanvasCommand::Nothing);
}

#[test]
fn gradients_are_the_edge_midpoints_of_a_cube() {
    assert_eq!(grad3(0), (1, 1, 0));
    assert_eq!(grad3(3), (-1, -1, 0));
    assert_eq!(grad3(5), (-1, 0, 1));
    assert_eq!(grad3(11), (0, -1, -1));
    for k in 0..12 {
        let g = grad3(k);
        assert_eq!(g.0 * g.0 + g.1 * g.1 + g.2 * g.2, 2);
        for l in 0..k {
            assert_ne!(grad3(l), g);
        }
    }
}

#[test]
fn corners_hash_through_the_table() {
    let mut table = [0i32; 256];
    for (k, entry) in table.iter_mut().enumerate() {
        *entry = k as i32;
    }
    let noise = SimplexNoise::new(&table);
    assert_eq!(
        noise.corner_gradients(3, 5, true, false),
        CornerGradients { gi0: 8, gi1: 9, gi2: 10 }
    );
    assert_eq!(
        noise.corner_gradients(-1, 0, false, true),
        CornerGradients { gi0: 3, gi1: 0, gi2: 1 }
    );
    assert_eq!(
        noise.corner_gradients(259, 261, true, false),
        CornerGradients { gi0: 8, gi1: 9, gi2: 10 }
    );
    let mut reversed = [0i32; 256];
    for (k, entry) in reversed.iter_mut().enumerate() {
        *entry = 255 - k as i32;
    }
    let noise = SimplexNoise::new(&reversed);
    // perm[5] = 250, perm[(3 + 250) % 256] = perm[253] = 2
    assert_eq!(noise.corner_gradients(3, 5, true, false).gi0, 2);
}
