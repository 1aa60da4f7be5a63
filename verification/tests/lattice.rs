use nature::fluid::aa_d2q9_node::{stroke_cells, AAD2Q9Node};
use nature::fluid::d2q9_node::{D2Q9Node, LatticeKernel};
use nature::fluid::fluid_player::{touch_move, FluidPlayer, FramePass, StrokeAction};
use nature::fluid::lattice::{
    advance_materials, force_cell, init_lattice_material, mark_obstacle, CellSpan, LatticeInfo, LatticeType,
    FORCE_STEPS, INLET_SPEED_BITS, PERMANENT,
};
use nature::fluid::{
    direction_weight_36, inversed_direction, is_sd_sphere, lattice_direction, lattice_workgroups,
    tick_tock_uniforms, OBSTACLE_RADIUS,
};
use nature::{ConfigError, FieldAnimationType};

fn still(material: LatticeType) -> LatticeInfo {
    LatticeInfo { material, block_iter: -1, vx_bits: 0, vy_bits: 0 }
}

#[test]
fn inlet_speed_is_twelve_hundredths() {
    assert_eq!(f32::from_bits(INLET_SPEED_BITS), 0.12_f32);
    assert_eq!(PERMANENT, -1);
    assert_eq!(FORCE_STEPS, 30);
    assert_eq!(OBSTACLE_RADIUS, 16);
}

#[test]
fn material_codes() {
    assert_eq!(LatticeType::Bulk.code(), 1);
    assert_eq!(LatticeType::Boundary.code(), 2);
    assert_eq!(LatticeType::Inlet.code(), 3);
    assert_eq!(LatticeType::Obstacle.code(), 4);
    assert_eq!(LatticeType::Outlet.code(), 5);
    assert_eq!(LatticeType::ExternalForce.code(), 6);
}

#[test]
fn custom_lattice_has_a_wall_all_round() {
    let info = init_lattice_material(5, 4, 1, FieldAnimationType::Custom);
    assert_eq!(info.len(), 20);
    for y in 0..4 {
        for x in 0..5 {
            let rim = x == 0 || x == 4 || y == 0 || y == 3;
            let want = if rim { LatticeType::Boundary } else { LatticeType::Bulk };
            assert_eq!(info[y * 5 + x], still(want));
        }
    }
}

#[test]
fn other_scenarios_start_as_fluid() {
    for ty in [
        FieldAnimationType::Basic,
        FieldAnimationType::JuliaSet,
        FieldAnimationType::Spirl,
        FieldAnimationType::LidDrivenCavity,
    ] {
        let info = init_lattice_material(3, 2, 1, ty);
        assert_eq!(info, vec![still(LatticeType::Bulk); 6]);
    }
    assert!(init_lattice_material(0, 7, 1, FieldAnimationType::Poiseuille).is_empty());
    assert!(init_lattice_material(7, 0, 1, FieldAnimationType::Custom).is_empty());
}

#[test]
fn poiseuille_channel_of_64_by_32() {
    let info = init_lattice_material(64, 32, 1, FieldAnimationType::Poiseuille);
    assert_eq!(info.len(), 64 * 32);
    let at = |x: usize, y: usize| info[y * 64 + x];
    // Walls above and below, also in the corners.
    for x in 0..64 {
        assert_eq!(at(x, 0), still(LatticeType::Boundary));
        assert_eq!(at(x, 31), still(LatticeType::Boundary));
    }
    // Inlet on the left with speed 0.12 to the right, outlet on the right.
    for y in 1..31 {
        let inlet = at(0, y);
        assert_eq!(inlet.material, LatticeType::Inlet);
        assert_eq!(f32::from_bits(inlet.vx_bits), 0.12);
        assert_eq!(inlet.vy_bits, 0);
        assert_eq!(inlet.block_iter, -1);
        assert_eq!(at(63, y), still(LatticeType::Outlet));
    }
    // Inside: obstacle exactly within 16 cells of one of the three centres.
    let centres = [(64.0 / 7.0 - 16.0, 16.0), (64.0 / 5.0, 32.0 / 3.0), (64.0 / 5.0, 32.0 * 0.66)];
    for y in 1..31 {
        for x in 1..63 {
            let hit = centres.iter().any(|&(cx, cy): &(f64, f64)| {
                let dx = x as f64 - cx;
                let dy = y as f64 - cy;
                dx * dx + dy * dy <= 256.0
            });
            let want = if hit { LatticeType::Obstacle } else { LatticeType::Bulk };
            assert_eq!(at(x, y), still(want), "cell {} {}", x, y);
        }
    }
    assert_eq!(at(12, 10).material, LatticeType::Obstacle);
    assert_eq!(at(40, 16).material, LatticeType::Bulk);
}

#[test]
fn layers_of_a_channel_have_walls_front_and_back() {
    let info = init_lattice_material(4, 4, 3, FieldAnimationType::Poiseuille);
    assert_eq!(info.len(), 48);
    for i in 0..16 {
        assert_eq!(info[i].material, LatticeType::Boundary);
        assert_eq!(info[32 + i].material, LatticeType::Boundary);
    }
    // Middle layer: inlet, two cells inside, outlet in the inner rows.
    assert_eq!(info[16 + 4].material, LatticeType::Inlet);
    assert_eq!(info[16 + 7].material, LatticeType::Outlet);
    assert_eq!(info[16].material, LatticeType::Boundary);
}

#[test]
fn starting_a_scenario_twice_gives_the_same_lattice() {
    for ty in [FieldAnimationType::Poiseuille, FieldAnimationType::Custom] {
        let first = init_lattice_material(64, 32, 1, ty);
        let second = init_lattice_material(64, 32, 1, ty);
        assert_eq!(first, second);
    }
    let mut node = AAD2Q9Node::new(256, 128, FieldAnimationType::Poiseuille);
    let fresh = node.lattice_info_data().clone();
    assert_eq!(fresh, init_lattice_material(64, 32, 1, FieldAnimationType::Poiseuille));
    assert!(node.reset_lattice_info());
    assert_eq!(*node.lattice_info_data(), fresh);
    assert!(node.reset_lattice_info());
    assert_eq!(*node.lattice_info_data(), fresh);
}

#[test]
fn reset_restores_a_poiseuille_lattice_only() {
    let mut node = AAD2Q9Node::new(512, 400, FieldAnimationType::Poiseuille);
    let fresh = node.lattice_info_data().clone();
    assert!(node.add_obstacle(50, 50).is_some());
    assert_ne!(*node.lattice_info_data(), fresh);
    assert!(node.reset_lattice_info());
    assert_eq!(*node.lattice_info_data(), fresh);

    let mut custom = D2Q9Node::new(512, 400, FieldAnimationType::Custom);
    assert!(custom.add_obstacle(50, 50).is_some());
    let marked = custom.lattice_info_data().clone();
    assert!(!custom.reset_lattice_info());
    assert_eq!(*custom.lattice_info_data(), marked);
}

#[test]
fn an_obstacle_changes_only_cells_of_its_disk() {
    let (w, h) = (100u32, 80u32);
    for (x, y) in [(16u32, 16u32), (50, 40), (82, 62), (16, 62), (82, 16)] {
        let mut cells = init_lattice_material(w, h, 1, FieldAnimationType::Custom);
        let before = cells.clone();
        let span = mark_obstacle(w, h, &mut cells, x, y);
        assert_eq!(
            span,
            Some(CellSpan { first: (w * (y - 16)) as usize, count: (w * 33) as usize })
        );
        for cy in 0..h {
            for cx in 0..w {
                let i = (cy * w + cx) as usize;
                let dx = cx as i64 - x as i64;
                let dy = cy as i64 - y as i64;
                if dx * dx + dy * dy <= 256 {
                    assert_eq!(cells[i], still(LatticeType::Obstacle));
                } else {
                    assert_eq!(cells[i], before[i]);
                }
            }
        }
        // The centre and the rim of the disk.
        assert_eq!(cells[(y * w + x) as usize].material, LatticeType::Obstacle);
        assert_eq!(cells[(y * w + x + 16) as usize].material, LatticeType::Obstacle);
        assert_eq!(cells[((y - 16) * w + x) as usize].material, LatticeType::Obstacle);
        assert_eq!(cells[((y + 16) * w + x) as usize].material, LatticeType::Obstacle);
        assert_eq!(cells[(y * w + x - 16) as usize].material, LatticeType::Obstacle);
        assert_eq!(cells[((y + 17) * w + x) as usize], before[((y + 17) * w + x) as usize]);
        assert_eq!(cells[(y * w + x + 17) as usize], before[(y * w + x + 17) as usize]);
    }
}

#[test]
fn an_obstacle_outside_the_margin_changes_nothing() {
    let (w, h) = (100u32, 80u32);
    for (x, y) in [
        (15u32, 40u32),
        (83, 40),
        (50, 15),
        (50, 63),
        (0, 0),
        (99, 79),
        (100, 80),
        (u32::MAX, u32::MAX),
        (u32::MAX, 40),
    ] {
        let mut cells = init_lattice_material(w, h, 1, FieldAnimationType::Poiseuille);
        let before = cells.clone();
        assert_eq!(mark_obstacle(w, h, &mut cells, x, y), None);
        assert_eq!(cells, before);
    }
    // A lattice too small for any obstacle.
    let mut cells = init_lattice_material(20, 20, 1, FieldAnimationType::Custom);
    let before = cells.clone();
    assert_eq!(mark_obstacle(20, 20, &mut cells, 10, 10), None);
    assert_eq!(cells, before);
}

#[test]
fn a_click_lands_on_the_cell_under_the_pixel() {
    let mut player = FluidPlayer::new(512, 320, FieldAnimationType::Custom);
    assert_eq!(player.fluid_ty(), 1);
    assert_eq!(player.fluid_compute_node().width(), 128);
    assert_eq!(player.fluid_compute_node().height(), 80);
    assert_eq!(player.on_click(0, 0), None);
    assert_eq!(player.on_click(63, 200), None);
    // One cell beyond the last place where the disk keeps its distance.
    assert_eq!(player.on_click(111 * 4, 160), None);
    assert_eq!(player.on_click(200, 63 * 4), None);
    let span = player.on_click(203, 161);
    assert_eq!(span, Some(CellSpan { first: 128 * 24, count: 128 * 33 }));
    let cells = player.fluid_compute_node().lattice_info_data();
    assert_eq!(cells[40 * 128 + 50].material, LatticeType::Obstacle);
    assert_eq!(cells[56 * 128 + 50].material, LatticeType::Obstacle);
    assert_eq!(cells[40 * 128 + 67].material, LatticeType::Bulk);
    // The last place in the margin: 18 cells from the right and the lower rim.
    let span = player.on_click(110 * 4, 62 * 4 + 3);
    assert_eq!(span, Some(CellSpan { first: 128 * 46, count: 128 * 33 }));
    let cells = player.fluid_compute_node().lattice_info_data();
    assert_eq!(cells[78 * 128 + 110].material, LatticeType::Obstacle);
    assert_eq!(cells[62 * 128 + 126].material, LatticeType::Obstacle);
    assert!(!player.reset());
    assert_eq!(FluidPlayer::new(512, 320, FieldAnimationType::Poiseuille).fluid_ty(), 0);
}

#[test]
fn a_push_is_clipped_to_the_inside_of_the_lattice() {
    assert_eq!(force_cell(100, 80, 4, 4), Some(101));
    assert_eq!(force_cell(100, 80, 7, 7), Some(101));
    assert_eq!(force_cell(100, 80, 3, 40), None);
    assert_eq!(force_cell(100, 80, 40, 3), None);
    assert_eq!(force_cell(100, 80, 98 * 4, 40), Some(10 * 100 + 98));
    assert_eq!(force_cell(100, 80, 99 * 4, 40), None);
    assert_eq!(force_cell(100, 80, 40, 78 * 4), Some(78 * 100 + 10));
    assert_eq!(force_cell(100, 80, 40, 79 * 4), None);
    assert_eq!(force_cell(3, 3, 4, 4), Some(4));
    assert_eq!(force_cell(2, 2, 4, 4), None);
    assert_eq!(force_cell(0, 0, 4, 4), None);
    let samples = vec![(0, 0), (40, 40), (43, 41), (400, 40), (48, 40)];
    assert_eq!(stroke_cells(100, 80, &samples), vec![1010, 1010, 1012]);
}

#[test]
fn a_stroke_writes_a_push_that_lasts_thirty_steps() {
    let vx = 0.05_f32.to_bits();
    let vy = (-0.02_f32).to_bits();
    let samples = vec![(40, 40), (44, 44)];
    let aa = AAD2Q9Node::new(512, 320, FieldAnimationType::Custom);
    let write = aa.add_external_force(vx, vy, &samples);
    assert_eq!(
        write.info,
        LatticeInfo { material: LatticeType::ExternalForce, block_iter: 30, vx_bits: vx, vy_bits: vy }
    );
    assert_eq!(write.cells, vec![10 * 128 + 10, 11 * 128 + 11]);
    let two = D2Q9Node::new(512, 320, FieldAnimationType::Custom);
    let write = two.add_external_force(vx, vy, &samples);
    assert_eq!(write.info.material, LatticeType::Inlet);
    assert_eq!(write.info.block_iter, 30);
    assert_eq!(write.cells, vec![10 * 128 + 10, 11 * 128 + 11]);
}

#[test]
fn a_pushed_cell_counts_down_and_turns_into_fluid() {
    let mut cell = LatticeInfo {
        material: LatticeType::ExternalForce,
        block_iter: 3,
        vx_bits: 7,
        vy_bits: 9,
    };
    cell = cell.advance_material();
    assert_eq!(cell.block_iter, 2);
    assert_eq!(cell.material, LatticeType::ExternalForce);
    assert_eq!((cell.vx_bits, cell.vy_bits), (7, 9));
    cell = cell.advance_material();
    assert_eq!(cell.block_iter, 1);
    cell = cell.advance_material();
    assert_eq!(cell, still(LatticeType::Bulk));
    assert_eq!(cell.advance_material(), cell);
    // Permanent cells and walls never change.
    for material in [
        LatticeType::Boundary,
        LatticeType::Inlet,
        LatticeType::Outlet,
        LatticeType::Obstacle,
        LatticeType::Bulk,
    ] {
        assert_eq!(still(material).advance_material(), still(material));
    }
    let wall = LatticeInfo { material: LatticeType::Boundary, block_iter: 1, vx_bits: 0, vy_bits: 0 };
    assert_eq!(wall.advance_material(), wall);
    let rock = LatticeInfo { material: LatticeType::Obstacle, block_iter: 1, vx_bits: 0, vy_bits: 0 };
    assert_eq!(rock.advance_material(), still(LatticeType::Bulk));
}

#[test]
fn disk_test_includes_the_rim() {
    assert!(is_sd_sphere(16, 0, 16));
    assert!(is_sd_sphere(0, -16, 16));
    assert!(!is_sd_sphere(16, 1, 16));
    assert!(is_sd_sphere(11, 11, 16));
    assert!(!is_sd_sphere(12, 11, 16));
    assert!(is_sd_sphere(0, 0, 0));
    assert!(!is_sd_sphere(0, 0, -1));
    assert!(!is_sd_sphere(3, 4, -5));
    assert!(is_sd_sphere(-3, 4, 5));
    assert!(!is_sd_sphere(i64::MIN, i64::MIN, i64::MAX));
    assert!(!is_sd_sphere(i64::MIN, 0, i64::MAX));
    assert!(is_sd_sphere(i64::MAX, 0, i64::MAX));
    assert!(!is_sd_sphere(i64::MAX, 1, i64::MAX));
}

#[test]
fn nine_directions_and_their_opposites() {
    let want = [(0, 0), (1, 0), (0, -1), (-1, 0), (0, 1), (1, -1), (-1, -1), (-1, 1), (1, 1)];
    let inv = [0usize, 3, 4, 1, 2, 7, 8, 5, 6];
    let mut weights = 0;
    let mut momentum = (0i32, 0i32);
    for i in 0..9 {
        assert_eq!(lattice_direction(i), want[i]);
        assert_eq!(inversed_direction(i), inv[i]);
        assert_eq!(inversed_direction(inversed_direction(i)), i);
        let e = lattice_direction(i);
        let o = lattice_direction(inversed_direction(i));
        assert_eq!((o.0, o.1), (-e.0, -e.1));
        weights += direction_weight_36(i);
        momentum.0 += direction_weight_36(i) as i32 * e.0;
        momentum.1 += direction_weight_36(i) as i32 * e.1;
    }
    assert_eq!(weights, 36);
    assert_eq!(momentum, (0, 0));
    assert_eq!(direction_weight_36(0), 16);
    assert_eq!(direction_weight_36(3), 4);
    assert_eq!(direction_weight_36(7), 1);
}

#[test]
fn offsets_of_the_two_phases() {
    let (tick, tock) = tick_tock_uniforms(10, 5);
    // 50 cells per direction.
    assert_eq!(tick.read_offset, [0, 1 + 150, -10 + 200, -1 + 50, 10 + 100, 1 - 10 + 350, -1 - 10 + 400, -1 + 10 + 250, 1 + 10 + 300]);
    assert_eq!(tick.write_offset, [0, -1 + 50, 10 + 100, 1 + 150, -10 + 200, -1 + 10 + 250, 1 + 10 + 300, 1 - 10 + 350, -1 - 10 + 400]);
    assert_eq!(tock.read_offset, [0, 50, 100, 150, 200, 250, 300, 350, 400]);
    assert_eq!(tock.write_offset, [0, 150, 200, 50, 100, 350, 400, 250, 300]);
    let node = AAD2Q9Node::new(256, 16, FieldAnimationType::Custom);
    assert_eq!(node.tick_tock(), Some(tick_tock_uniforms(64, 4)));
    let (tick, tock) = tick_tock_uniforms(64, 4);
    // 256 cells per direction.
    assert_eq!(tick.read_offset[1], 1 + 3 * 256);
    assert_eq!(tick.write_offset[2], 64 + 2 * 256);
    assert_eq!(tock.write_offset, [0, 768, 1024, 256, 512, 1792, 2048, 1280, 1536]);
}

#[test]
fn workgroups_cover_the_lattice() {
    assert_eq!(lattice_workgroups(64, 32), (1, 8, 1));
    assert_eq!(lattice_workgroups(65, 33), (2, 9, 1));
    assert_eq!(lattice_workgroups(0, 0), (0, 0, 1));
    assert_eq!(lattice_workgroups(u32::MAX, u32::MAX), (67108864, 1073741824, 1));
    let node = AAD2Q9Node::new(1024, 784, FieldAnimationType::Poiseuille);
    assert_eq!((node.width(), node.height(), node.lattice_pixel_size()), (256, 196, 4));
    assert_eq!(node.dispatch_group_count(), (4, 49, 1));
    let steps = node.dispatch();
    assert_eq!(steps.len(), 2);
    assert_eq!((steps[0].dynamic_offset, steps[0].workgroups), (0, (4, 49, 1)));
    assert_eq!((steps[1].dynamic_offset, steps[1].workgroups), (256, (4, 49, 1)));
}

#[test]
fn two_buffers_alternate() {
    let node = D2Q9Node::new(1024, 784, FieldAnimationType::Poiseuille);
    assert_eq!(node.threadgroup_count(), (4, 49, 1));
    for swap in 0..2 {
        let steps = node.dispatch(swap);
        assert_eq!(steps.len(), 2);
        assert_eq!(steps[0].kernel, LatticeKernel::CollideStream);
        assert_eq!(steps[1].kernel, LatticeKernel::Boundary);
        for s in &steps {
            assert_eq!(s.read_buffer, swap);
            assert_eq!(s.write_buffer, 1 - swap);
            assert_eq!(s.workgroups, (4, 49, 1));
        }
    }
}

#[test]
fn frame_of_the_fluid_player() {
    let player = FluidPlayer::new(512, 320, FieldAnimationType::Poiseuille);
    let step = FramePass::Lattice { swap_index: 0 };
    assert_eq!(
        player.enter_frame(),
        vec![
            step,
            FramePass::ParticleUpdate,
            step,
            FramePass::ParticleUpdate,
            step,
            FramePass::ParticleUpdate
        ]
    );
}

#[test]
fn pointer_movements() {
    assert_eq!(touch_move(false, false, false), StrokeAction::Forget);
    assert_eq!(touch_move(false, true, true), StrokeAction::Forget);
    assert_eq!(touch_move(true, false, false), StrokeAction::Begin);
    assert_eq!(touch_move(true, true, true), StrokeAction::Begin);
    assert_eq!(touch_move(true, false, true), StrokeAction::Begin);
    assert_eq!(touch_move(true, true, false), StrokeAction::Push);
}

#[test]
fn a_lattice_step_advances_every_cell() {
    let mut cells = init_lattice_material(6, 5, 1, FieldAnimationType::Custom);
    let fresh = cells.clone();
    assert_eq!(fresh[8].material, LatticeType::Bulk);
    cells[8] = LatticeInfo {
        material: LatticeType::ExternalForce,
        block_iter: 2,
        vx_bits: 3,
        vy_bits: 4,
    };
    advance_materials(&mut cells);
    for i in 0..cells.len() {
        if i == 8 {
            assert_eq!(cells[i].block_iter, 1);
            assert_eq!(cells[i].material, LatticeType::ExternalForce);
        } else {
            assert_eq!(cells[i], fresh[i]);
        }
    }
    advance_materials(&mut cells);
    assert_eq!(cells, fresh);
    advance_materials(&mut cells);
    assert_eq!(cells, fresh);
    let mut none: Vec<LatticeInfo> = vec![];
    advance_materials(&mut none);
    assert!(none.is_empty());
}

#[test]
fn a_lattice_that_cannot_be_addressed_is_refused() {
    assert!(AAD2Q9Node::try_new(512, 320, FieldAnimationType::Custom).is_ok());
    assert_eq!(
        AAD2Q9Node::try_new(1 << 20, 1 << 20, FieldAnimationType::Custom).err(),
        Some(ConfigError::LatticeTooLarge)
    );
    assert_eq!(
        D2Q9Node::try_new(65536, 65536, FieldAnimationType::Poiseuille).err(),
        Some(ConfigError::LatticeTooLarge)
    );
    // 16384 by 16384 cells: 8 * 2^28 is one more than fits.
    assert_eq!(
        FluidPlayer::try_new(65536, 65536, FieldAnimationType::Basic).err(),
        Some(ConfigError::LatticeTooLarge)
    );
    assert!(FluidPlayer::try_new(0, 0, FieldAnimationType::Basic).is_ok());
}

#[test]
fn a_lattice_of_broken_tiles_is_refused() {
    // 100 cells across are a tile and a half.
    assert_eq!(
        AAD2Q9Node::try_new(400, 320, FieldAnimationType::Custom).err(),
        Some(ConfigError::LatticeNotTiled)
    );
    // 66 cells down are sixteen tiles and a half.
    assert_eq!(
        D2Q9Node::try_new(256, 264, FieldAnimationType::Custom).err(),
        Some(ConfigError::LatticeNotTiled)
    );
    assert_eq!(
        FluidPlayer::try_new(u32::MAX, u32::MAX, FieldAnimationType::Poiseuille).err(),
        Some(ConfigError::LatticeNotTiled)
    );
    // Pixels that fill no cell are left over; the lattice is whole.
    let node = D2Q9Node::try_new(259, 131, FieldAnimationType::Poiseuille).unwrap();
    assert_eq!((node.width(), node.height()), (64, 32));
    assert_eq!(node.threadgroup_count(), (1, 8, 1));
}

#[test]
fn a_failed_resize_keeps_the_lattice() {
    let mut node = AAD2Q9Node::try_new(512, 320, FieldAnimationType::Poiseuille).unwrap();
    assert!(node.add_obstacle(50, 40).is_some());
    let before = node.lattice_info_data().clone();
    assert_eq!(node.resize(1 << 20, 1 << 20), Err(ConfigError::LatticeTooLarge));
    assert_eq!((node.width(), node.height()), (128, 80));
    assert_eq!(*node.lattice_info_data(), before);
    assert_eq!(node.resize(400, 320), Err(ConfigError::LatticeNotTiled));
    assert_eq!((node.width(), node.height()), (128, 80));
    assert_eq!(*node.lattice_info_data(), before);
    assert_eq!(node.resize(256, 128), Ok(()));
    assert_eq!((node.width(), node.height()), (64, 32));
    assert_eq!(node.animation_ty(), FieldAnimationType::Poiseuille);
    assert_eq!(
        *node.lattice_info_data(),
        init_lattice_material(64, 32, 1, FieldAnimationType::Poiseuille)
    );
    let mut player = FluidPlayer::try_new(512, 320, FieldAnimationType::Custom).unwrap();
    assert_eq!(player.resize(u32::MAX, 4), Err(ConfigError::LatticeNotTiled));
    assert_eq!(player.resize(1 << 31, 16), Err(ConfigError::LatticeTooLarge));
    assert_eq!(player.fluid_compute_node().width(), 128);
    assert_eq!(player.resize(256, 16), Ok(()));
    assert_eq!(player.fluid_compute_node().width(), 64);
    assert_eq!(player.update_uniforms(), Some((1, 256)));
    assert_eq!(player.fluid_compute_node().lattice_buffer_size(), Some(256 * 36));
}
