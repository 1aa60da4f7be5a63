use nature::geometry::{cloth_index_data, generate_circle_plane, generate_disc_plane, triangles_of};
use nature::pbd::bristle::{generate_bristles, PRIMITIVE_RESTART};
use nature::pbd::brush::MaoBrush;
use nature::pbd::cal_bend_constraints::cal_bend_constraints2;
use nature::pbd::cloth3::{bin_grid, Cloth3};
use nature::pbd::cloth_x::ClothX;
use nature::pbd::grid::{cal_connected_particles, MassClass};
use nature::pbd::line::{line_index_data, Line};
use nature::pbd::line_particle::generate_line_particles;
use nature::pbd::particle::{cloth_stretch_constraints, generate_cloth_particles};
use nature::pbd::particle3::{generate_cloth_particles3, ParticleConstraints};
use nature::pbd::solver::{bend_uniforms, stretch_uniforms, xpbd_step, SolverKernel};
use nature::pbd::{
    BendingConstraintObj, FrameUniform, MeshColoringObj, StretchConstraintObj, TriangleObj,
    NO_CONSTRAINT,
};

fn stretch(a: i32, b: i32) -> StretchConstraintObj {
    StretchConstraintObj { particle0: a, particle1: b }
}

fn bend(v: i32, b0: i32, b1: i32) -> BendingConstraintObj {
    BendingConstraintObj { v, b0, b1 }
}

fn disjoint(a: &[i32], b: &[i32]) -> bool {
    a.iter().all(|x| !b.contains(x))
}

fn color(offset: u32, group_len: u32) -> MeshColoringObj {
    MeshColoringObj {
        offset,
        max_num_x: 0,
        max_num_y: 0,
        group_len,
        thread_group: ((group_len + 31) / 32, 1),
    }
}

#[test]
fn neighbours_for_normals() {
    let c = cal_connected_particles(3, 3);
    assert_eq!(
        c,
        vec![
            [1, 3, 1, 3],
            [2, 4, 4, 0],
            [5, 1, 5, 1],
            [0, 4, 4, 6],
            [1, 5, 7, 3],
            [8, 4, 4, 2],
            [3, 7, 3, 7],
            [6, 4, 4, 8],
            [7, 5, 7, 5],
        ]
    );
    assert!(cal_connected_particles(0, 5).is_empty());
    assert!(cal_connected_particles(5, 0).is_empty());
    assert_eq!(cal_connected_particles(1, 1), vec![[1, 1, 1, 1]]);
}

#[test]
fn stretch_constraints_of_a_two_by_two_cloth() {
    let (constraints, bundles) = cloth_stretch_constraints(2, 2);
    assert_eq!(
        constraints,
        vec![stretch(0, 1), stretch(0, 2), stretch(0, 3), stretch(1, 3), stretch(2, 3)]
    );
    assert_eq!(bundles, vec![[0, 1, 2], [-1, 3, -1], [4, -1, -1], [-1, -1, -1]]);
    assert_eq!(NO_CONSTRAINT, -1);
}

#[test]
fn a_small_hung_cloth() {
    let cloth = generate_cloth_particles(3, 2);
    assert_eq!(
        cloth.mass,
        vec![
            MassClass::Pinned,
            MassClass::Interior,
            MassClass::Pinned,
            MassClass::Border,
            MassClass::Border,
            MassClass::Border,
        ]
    );
    assert_eq!(cloth.connect, cal_connected_particles(3, 2));
    assert_eq!(
        cloth.constraints,
        vec![
            stretch(0, 1),
            stretch(0, 3),
            stretch(0, 4),
            stretch(1, 2),
            stretch(1, 4),
            stretch(1, 5),
            stretch(2, 5),
            stretch(3, 4),
            stretch(4, 5),
        ]
    );
    assert_eq!(
        cloth.stretch_constraints,
        vec![[0, 1, 2], [3, 4, 5], [-1, 6, -1], [7, -1, -1], [8, -1, -1], [-1, -1, -1]]
    );
    // The bundle of the top right corner and the empty bundle fit beside
    // the first; every other bundle conflicts with all groups before it.
    assert_eq!(
        cloth.reorder_constraints,
        vec![[0, 1, 2], [-1, 6, -1], [-1, -1, -1], [3, 4, 5], [7, -1, -1], [8, -1, -1]]
    );
    assert_eq!(cloth.mesh_coloring, vec![color(0, 3), color(3, 1), color(4, 1), color(5, 1)]);
    // One bending constraint, along the top row and along the bottom row.
    assert_eq!(cloth.bend_constraint, vec![bend(1, 0, 2), bend(4, 3, 5)]);
    assert_eq!(cloth.reorder_bendings, vec![[0, -1, -1], [1, -1, -1]]);
    assert_eq!(
        cloth.bend_mesh_coloring,
        vec![color(0, 0), color(0, 2), color(2, 0), color(2, 0), color(2, 0), color(2, 0)]
    );
}

#[test]
fn six_bending_colors_of_a_five_by_five_cloth() {
    let (colors, bendings, reorder) = cal_bend_constraints2(5, 5);
    // Two per row, two per column, four diagonal.
    assert_eq!(bendings.len(), 10 + 10 + 4);
    assert_eq!(bendings[0], bend(1, 0, 2));
    assert_eq!(bendings[1], bend(3, 2, 4));
    assert_eq!(bendings[2], bend(6, 5, 7));
    assert_eq!(bendings[10], bend(5, 0, 10));
    assert_eq!(bendings[11], bend(15, 10, 20));
    assert_eq!(bendings[12], bend(6, 1, 11));
    assert_eq!(bendings[20], bend(6, 12, 0));
    assert_eq!(bendings[21], bend(8, 14, 2));
    assert_eq!(bendings[22], bend(16, 22, 10));
    assert_eq!(bendings[23], bend(18, 24, 12));
    assert_eq!(
        colors,
        vec![color(0, 5), color(5, 5), color(10, 5), color(15, 5), color(20, 2), color(22, 2)]
    );
    let first: Vec<i32> = reorder.iter().map(|b| b[0]).collect();
    assert_eq!(
        first,
        vec![
            1, 3, 5, 7, 9, 0, 2, 4, 6, 8, 11, 13, 15, 17, 19, 10, 12, 14, 16, 18, 20, 21, 22, 23
        ]
    );
    assert!(reorder.iter().all(|b| b[1] == -1 && b[2] == -1));
}

#[test]
fn six_bending_colors_are_conflict_free() {
    for (hn, vn) in [(1usize, 1usize), (2, 2), (3, 3), (4, 7), (9, 6), (32, 58)] {
        let (colors, bendings, reorder) = cal_bend_constraints2(hn, vn);
        assert_eq!(colors.len(), 6);
        assert_eq!(reorder.len(), bendings.len());
        let r = (hn - 1) / 2;
        let rv = (vn - 1) / 2;
        assert_eq!(bendings.len(), vn * r + hn * rv + r * rv);
        for b in &bendings {
            for p in [b.v, b.b0, b.b1] {
                assert!(0 <= p && (p as usize) < hn * vn);
            }
        }
        let mut offset = 0;
        for c in &colors {
            assert_eq!(c.offset, offset);
            offset += c.group_len;
            let lo = c.offset as usize;
            let hi = lo + c.group_len as usize;
            for a in lo..hi {
                let x = bendings[reorder[a][0] as usize];
                for b in (a + 1)..hi {
                    let y = bendings[reorder[b][0] as usize];
                    assert!(!x.is_contain(&y));
                }
            }
        }
        assert_eq!(offset as usize, bendings.len());
    }
}

#[test]
fn cloth_with_collisions_three_by_three() {
    let cloth = generate_cloth_particles3(3, 3);
    assert_eq!(
        cloth.mass,
        vec![
            MassClass::Pinned,
            MassClass::Pinned,
            MassClass::Pinned,
            MassClass::Pinned,
            MassClass::Pinned,
            MassClass::Pinned,
            MassClass::Border,
            MassClass::Border,
            MassClass::Border,
        ]
    );
    assert_eq!(cloth.connect, cal_connected_particles(3, 3));
    assert_eq!(
        cloth.stretch_constraints,
        vec![
            stretch(0, 1),
            stretch(0, 3),
            stretch(0, 4),
            stretch(1, 2),
            stretch(1, 4),
            stretch(1, 5),
            stretch(1, 3),
            stretch(2, 5),
            stretch(2, 4),
            stretch(3, 4),
            stretch(3, 6),
            stretch(3, 7),
            stretch(4, 5),
            stretch(4, 7),
            stretch(4, 8),
            stretch(4, 6),
            stretch(5, 8),
            stretch(5, 7),
            stretch(6, 7),
            stretch(7, 8),
        ]
    );
    assert_eq!(
        cloth.bending_constraints,
        vec![
            bend(1, 0, 2),
            bend(3, 0, 6),
            bend(4, 3, 5),
            bend(4, 1, 7),
            bend(4, 2, 6),
            bend(5, 2, 8),
            bend(7, 6, 8),
        ]
    );
    assert_eq!(
        cloth.particle_constraints[4],
        ParticleConstraints { stretches: [12, 13, 14, 15], bendings: [2, 3, 4, -1] }
    );
    assert_eq!(
        cloth.particle_constraints[2],
        ParticleConstraints { stretches: [-1, 7, -1, 8], bendings: [-1, -1, -1, -1] }
    );
    assert_eq!(
        cloth.particle_constraints[8],
        ParticleConstraints { stretches: [-1; 4], bendings: [-1; 4] }
    );
    // Nine colors of one particle each.
    assert_eq!(cloth.mesh_coloring_buf, vec![0, 1, 2, 3, 4, 5, 6, 7, 8]);
    assert_eq!(cloth.mesh_colorings.len(), 9);
    for (c, mc) in cloth.mesh_colorings.iter().enumerate() {
        assert_eq!(
            *mc,
            MeshColoringObj {
                offset: c as u32,
                max_num_x: 8,
                max_num_y: 1,
                group_len: 1,
                thread_group: (1, 1),
            }
        );
    }
    let none = ParticleConstraints::new();
    assert_eq!(none.stretches, [-1; 4]);
    assert_eq!(none.bendings, [-1; 4]);
}

#[test]
fn colors_three_apart_are_conflict_free() {
    for (hn, vn) in [(1usize, 1usize), (4, 4), (7, 5), (32, 56)] {
        let cloth = generate_cloth_particles3(hn, vn);
        assert_eq!(cloth.mesh_coloring_buf.len(), hn * vn);
        let touched = |p: usize| -> Vec<i32> {
            let pc = &cloth.particle_constraints[p];
            let mut out = Vec::new();
            for &s in &pc.stretches {
                if s != -1 {
                    let c = cloth.stretch_constraints[s as usize];
                    out.push(c.particle0);
                    out.push(c.particle1);
                }
            }
            for &s in &pc.bendings {
                if s != -1 {
                    let c = cloth.bending_constraints[s as usize];
                    out.push(c.v);
                    out.push(c.b0);
                    out.push(c.b1);
                }
            }
            out
        };
        let mut seen = vec![false; hn * vn];
        for (c, mc) in cloth.mesh_colorings.iter().enumerate() {
            let lo = mc.offset as usize;
            let hi = lo + mc.group_len as usize;
            assert!(mc.max_num_x as usize * mc.max_num_y as usize >= hi - lo);
            assert_eq!(mc.thread_group, ((mc.max_num_x + 7) / 8, (mc.max_num_y + 7) / 8));
            for a in lo..hi {
                let p = cloth.mesh_coloring_buf[a] as usize;
                assert!(!seen[p]);
                seen[p] = true;
                assert_eq!(3 * ((p / hn) % 3) + (p % hn) % 3, c);
                let fa = touched(p);
                for b in (a + 1)..hi {
                    let q = cloth.mesh_coloring_buf[b] as usize;
                    assert!(p < q);
                    assert!(disjoint(&fa, &touched(q)));
                }
            }
        }
        assert!(seen.iter().all(|&s| s));
    }
}

#[test]
fn a_brush_of_two_bristles_of_four() {
    let brush = generate_bristles(2, 4);
    assert_eq!(
        brush.mass,
        vec![
            MassClass::Pinned,
            MassClass::Pinned,
            MassClass::Interior,
            MassClass::Interior,
            MassClass::Pinned,
            MassClass::Pinned,
            MassClass::Interior,
            MassClass::Interior,
        ]
    );
    assert_eq!(
        brush.index_data,
        vec![0, 1, 2, 3, PRIMITIVE_RESTART, 4, 5, 6, 7, PRIMITIVE_RESTART]
    );
    assert_eq!(PRIMITIVE_RESTART, u32::MAX);
    assert_eq!(
        brush.constraints,
        vec![
            stretch(2, 1),
            stretch(2, 6),
            stretch(2, 5),
            stretch(3, 2),
            stretch(3, 7),
            stretch(3, 6),
            stretch(6, 5),
            stretch(6, 2),
            stretch(6, 1),
            stretch(7, 6),
            stretch(7, 3),
            stretch(7, 2),
        ]
    );
    assert_eq!(
        brush.reorder_stretches,
        vec![[0, 1, 2], [3, 4, 5], [6, 7, 8], [9, 10, 11]]
    );
    assert_eq!(brush.mesh_colorings, vec![color(0, 1), color(1, 1), color(2, 1), color(3, 1)]);
    assert_eq!(brush.bending_constraints, vec![bend(2, 1, 3), bend(6, 5, 7)]);
    assert_eq!(brush.reorder_bendings, vec![[0, -1], [1, -1]]);
    assert_eq!(
        brush.bend_mesh_colorings,
        vec![color(0, 0), color(0, 0), color(0, 2), color(2, 0)]
    );
}

#[test]
fn colors_of_the_brush_are_conflict_free() {
    let brush = generate_bristles(20, 12);
    assert_eq!(brush.mass.len(), 240);
    assert_eq!(brush.index_data.len(), 20 * 13);
    assert_eq!(brush.constraints.len(), 3 * 20 * 10);
    assert_eq!(brush.bending_constraints.len(), 20 * 9);
    assert_eq!(brush.mesh_colorings, vec![color(0, 50), color(50, 50), color(100, 50), color(150, 50)]);
    for mc in &brush.mesh_colorings {
        let lo = mc.offset as usize;
        let hi = lo + mc.group_len as usize;
        for a in lo..hi {
            let fa: Vec<i32> = brush.reorder_stretches[a]
                .iter()
                .flat_map(|&c| {
                    let s = brush.constraints[c as usize];
                    [s.particle0, s.particle1]
                })
                .collect();
            for b in (a + 1)..hi {
                for &c in &brush.reorder_stretches[b] {
                    let s = brush.constraints[c as usize];
                    assert!(!fa.contains(&s.particle0) && !fa.contains(&s.particle1));
                }
            }
        }
    }
    let mut total = 0;
    for mc in &brush.bend_mesh_colorings {
        total += mc.group_len;
        let lo = mc.offset as usize;
        let hi = lo + mc.group_len as usize;
        for a in lo..hi {
            let x = brush.bending_constraints[brush.reorder_bendings[a][0] as usize];
            for b in (a + 1)..hi {
                let y = brush.bending_constraints[brush.reorder_bendings[b][0] as usize];
                assert!(!x.is_contain(&y));
            }
        }
    }
    assert_eq!(total, 180);
    // Degenerate brushes.
    assert!(generate_bristles(0, 12).constraints.is_empty());
    assert!(generate_bristles(5, 1).constraints.is_empty());
    assert!(generate_bristles(5, 2).constraints.is_empty());
    assert_eq!(generate_bristles(5, 3).bending_constraints.len(), 0);
    assert_eq!(generate_bristles(5, 3).constraints.len(), 15);
}

#[test]
fn threads_are_chains_with_two_colors() {
    let lines = generate_line_particles(2, 3);
    assert_eq!(
        lines.mass,
        vec![
            MassClass::Pinned,
            MassClass::Interior,
            MassClass::Interior,
            MassClass::Pinned,
            MassClass::Interior,
            MassClass::Interior,
        ]
    );
    assert_eq!(
        lines.constraints,
        vec![
            stretch(0, 1),
            stretch(1, 2),
            stretch(-1, -1),
            stretch(3, 4),
            stretch(4, 5),
            stretch(-1, -1),
        ]
    );
    let all = generate_line_particles(64, 16);
    for parity in 0..2 {
        let picked: Vec<StretchConstraintObj> = all
            .constraints
            .iter()
            .enumerate()
            .filter(|(i, c)| i % 2 == parity && c.particle0 != -1)
            .map(|(_, c)| *c)
            .collect();
        for a in 0..picked.len() {
            for b in (a + 1)..picked.len() {
                assert!(!picked[a].is_contain_particles(&picked[b]));
            }
        }
    }
    assert_eq!(line_index_data(2, 3), vec![0, 1, PRIMITIVE_RESTART, 3, 4, PRIMITIVE_RESTART]);
    let line = Line::new();
    assert_eq!(line.group_count(), (8, 2, 1));
    assert_eq!(line.index_data().len(), 1024);
    assert_eq!(line.particles().constraints.len(), 1024);
    let passes = line.enter_frame();
    assert_eq!(passes.len(), 41);
    assert_eq!(passes[0].kernel, SolverKernel::Predict);
    assert_eq!(passes[0].workgroups, (8, 2, 1));
    for i in 0..20 {
        for c in 0..2 {
            let p = passes[1 + 2 * i + c];
            assert_eq!(p.kernel, SolverKernel::Constraints);
            assert_eq!((p.iteration, p.color), (i as u32, c as u32));
            assert_eq!(p.workgroups, (8, 1, 1));
        }
    }
}

#[test]
fn a_solver_step_runs_predict_stretch_bend_in_every_round() {
    let stretch = vec![
        MeshColoringObj { offset: 0, max_num_x: 0, max_num_y: 0, group_len: 40, thread_group: (2, 1) },
        MeshColoringObj { offset: 40, max_num_x: 0, max_num_y: 0, group_len: 10, thread_group: (1, 1) },
    ];
    let bend = vec![
        MeshColoringObj { offset: 0, max_num_x: 8, max_num_y: 2, group_len: 9, thread_group: (1, 1) },
        MeshColoringObj { offset: 9, max_num_x: 8, max_num_y: 8, group_len: 64, thread_group: (2, 1) },
        MeshColoringObj { offset: 73, max_num_x: 8, max_num_y: 1, group_len: 1, thread_group: (1, 1) },
    ];
    let passes = xpbd_step(3, (58, 1, 1), &stretch, &bend);
    assert_eq!(passes.len(), 18);
    for i in 0..3u32 {
        let round = &passes[(i as usize) * 6..(i as usize + 1) * 6];
        assert_eq!(round[0].kernel, SolverKernel::Predict);
        assert_eq!(round[0].dynamic_offset, if i == 0 { 256 } else { 0 });
        assert_eq!(round[0].workgroups, (58, 1, 1));
        for g in 0..2u32 {
            let p = round[1 + g as usize];
            assert_eq!(p.kernel, SolverKernel::Stretch);
            assert_eq!((p.iteration, p.color, p.dynamic_offset), (i, g, g * 256));
            assert_eq!(p.workgroups, (stretch[g as usize].thread_group.0, 1, 1));
        }
        for g in 0..3u32 {
            let p = round[3 + g as usize];
            assert_eq!(p.kernel, SolverKernel::Bend);
            assert_eq!((p.iteration, p.color, p.dynamic_offset), (i, g, (i * 3 + g) * 256));
            assert_eq!(p.workgroups, (bend[g as usize].thread_group.0, 1, 1));
        }
    }
    assert!(xpbd_step(0, (1, 1, 1), &stretch, &bend).is_empty());
    let only_predict = xpbd_step(2, (1, 1, 1), &vec![], &vec![]);
    assert_eq!(only_predict.len(), 2);

    let writes = stretch_uniforms(&stretch, 256);
    assert_eq!(writes, vec![(0, stretch[0]), (256, stretch[1])]);
    let writes = bend_uniforms(&bend, 2, 512);
    assert_eq!(writes.len(), 6);
    for (k, w) in writes.iter().enumerate() {
        assert_eq!(w.0, k as u64 * 512);
        assert_eq!(w.1, bend[k % 3].get_bending_dynamic_uniform((k / 3) as i32));
        assert_eq!(w.1.iter_divisor, (k / 3) as i32 + 1);
    }
}

#[test]
fn the_hung_cloth_and_its_solver() {
    let mut cloth = ClothX::new();
    assert_eq!(cloth.frame_count(), 0);
    assert_eq!(cloth.pbd_iter_count(), 15);
    assert_eq!(cloth.predict_groups(), (58, 1, 1));
    let stretch = cloth.particles().mesh_coloring.clone();
    let bend = cloth.particles().bend_mesh_coloring.clone();
    assert_eq!(bend.len(), 6);
    assert_eq!(cloth.particles().mass.len(), 32 * 58);
    assert_eq!(cloth.index_data().len(), 6 * 31 * 57);
    let passes = cloth.step_solver();
    assert_eq!(cloth.frame_count(), 1);
    assert_eq!(passes, xpbd_step(15, (58, 1, 1), &stretch, &bend));
    assert_eq!(passes.len(), 15 * (1 + stretch.len() + 6));
    let again = cloth.enter_frame();
    assert_eq!(cloth.frame_count(), 2);
    assert_eq!(again, passes);
    let writes = cloth.stretch_coloring_writes(256).unwrap();
    assert_eq!(writes, stretch_uniforms(&stretch, 256));
    let writes = cloth.bend_coloring_writes(256).unwrap();
    assert_eq!(writes, bend_uniforms(&bend, 15, 256));
    assert!(cloth.stretch_coloring_writes(1 << 32).is_none());
    assert!(cloth.bend_coloring_writes(1 << 32).is_none());
}

#[test]
fn the_brush_and_its_solver() {
    let mut brush = MaoBrush::new();
    assert_eq!(brush.pbd_iter_count(), 20);
    assert_eq!(brush.predict_groups(), (9, 1, 1));
    let stretch = brush.bristles().mesh_colorings.clone();
    let bend = brush.bristles().bend_mesh_colorings.clone();
    let passes = brush.enter_frame();
    assert_eq!(brush.frame_count(), 1);
    assert_eq!(passes.len(), 20 * 9);
    assert_eq!(passes, xpbd_step(20, (9, 1, 1), &stretch, &bend));
    assert_eq!(passes[179].dynamic_offset, (19 * 4 + 3) * 256);
}

#[test]
fn the_colliding_cloth_and_its_solver() {
    let (mut cloth, first) = Cloth3::new();
    assert_eq!(cloth.particles().mass.len(), 32 * 56);
    assert_eq!(cloth.index_data().len(), 6 * 31 * 55);
    assert_eq!(cloth.triangles().len(), 2 * 31 * 55);
    assert_eq!(cloth.triangles()[0], TriangleObj { v0: 33, v1: 1, v2: 0 });
    assert_eq!(cloth.triangles()[1], TriangleObj { v0: 33, v1: 0, v2: 32 });
    assert_eq!(cloth.collision_buffer_size(), 32 * 56 * 4 * 44);
    assert_eq!(cloth.frame_count(), 1);
    assert_eq!(FrameUniform { frame_index: cloth.frame_count() as i32 }.frame_index, 1);
    let colors = cloth.particles().mesh_colorings.clone();
    let passes = cloth.enter_frame();
    assert_eq!(passes, first);
    assert_eq!(cloth.frame_count(), 2);
    assert_eq!(passes.len(), 3 + 15 * 9);
    assert_eq!(passes[0].kernel, SolverKernel::Predict);
    assert_eq!(passes[0].workgroups, (2, 4, 1));
    assert_eq!(passes[1].kernel, SolverKernel::Binning);
    assert_eq!(passes[1].workgroups, (2, 4, 1));
    assert_eq!(passes[2].kernel, SolverKernel::GenCollision);
    assert_eq!(passes[2].workgroups, ((3410 + 31) / 32, 1, 1));
    for i in 0..15 {
        for c in 0..9 {
            let p = passes[3 + i * 9 + c];
            assert_eq!(p.kernel, SolverKernel::Constraints);
            assert_eq!((p.iteration, p.color), (i as u32, c as u32));
            assert_eq!(p.workgroups, (colors[c].thread_group.0, colors[c].thread_group.1, 1));
        }
    }
}

#[test]
fn cells_of_the_spatial_hash() {
    let g = bin_grid(4, 5).unwrap();
    assert_eq!(g.bin_num, [4, 5, 4, 0]);
    assert_eq!(g.bin_max_index, [3, 4, 3, 0]);
    assert_eq!(g.max_bin_count, 80);
    assert_eq!(g.bin_buf_size, 80 * 64);
    assert!(bin_grid(0, 5).is_none());
    assert!(bin_grid(5, 0).is_none());
    assert!(bin_grid(-3, 5).is_none());
    assert!(bin_grid(1291, 1291).is_none());
    assert!(bin_grid(1290, 1290).is_some());
    assert!(bin_grid(i32::MAX, i32::MAX).is_none());
    assert!(bin_grid(1, i32::MAX).is_some());
}

#[test]
fn triangle_lists() {
    assert_eq!(generate_circle_plane(4), vec![0, 1, 2, 0, 2, 3, 0, 3, 4, 0, 4, 1]);
    assert_eq!(generate_circle_plane(1), vec![0, 1, 1]);
    assert!(generate_circle_plane(0).is_empty());
    assert_eq!(
        generate_disc_plane(3),
        vec![0, 1, 2, 2, 1, 3, 2, 3, 4, 4, 3, 5, 4, 5, 0, 0, 5, 1]
    );
    assert_eq!(generate_disc_plane(1), vec![0, 1, 0, 0, 1, 1]);
    assert_eq!(
        cloth_index_data(3, 2),
        vec![4, 1, 0, 4, 0, 3, 5, 2, 1, 5, 1, 4]
    );
    assert!(cloth_index_data(1, 5).is_empty());
    assert!(cloth_index_data(5, 1).is_empty());
    assert!(cloth_index_data(0, 0).is_empty());
    let big = cloth_index_data(32, 58);
    assert_eq!(big.len(), 6 * 31 * 57);
    assert!(big.iter().all(|&i| i < 32 * 58));
    assert_eq!(
        triangles_of(&vec![4, 1, 0, 4, 0, 3, 9]),
        vec![TriangleObj { v0: 4, v1: 1, v2: 0 }, TriangleObj { v0: 4, v1: 0, v2: 3 }]
    );
}

#[test]
fn constraints_name_particles_that_exist() {
    for (hn, vn) in [(1usize, 1usize), (2, 3), (5, 4), (32, 58)] {
        let n = (hn * vn) as i32;
        let cloth = generate_cloth_particles(hn, vn);
        assert!(cloth.constraints.iter().all(|c| {
            (0..n).contains(&c.particle0) && (0..n).contains(&c.particle1)
        }));
        assert!(cloth
            .bend_constraint
            .iter()
            .all(|c| (0..n).contains(&c.v) && (0..n).contains(&c.b0) && (0..n).contains(&c.b1)));
        let cloth = generate_cloth_particles3(hn, vn);
        assert!(cloth.stretch_constraints.iter().all(|c| {
            (0..n).contains(&c.particle0) && (0..n).contains(&c.particle1)
        }));
        assert!(cloth
            .bending_constraints
            .iter()
            .all(|c| (0..n).contains(&c.v) && (0..n).contains(&c.b0) && (0..n).contains(&c.b1)));
        for pc in &cloth.particle_constraints {
            for &s in &pc.stretches {
                assert!(s == -1 || (s as usize) < cloth.stretch_constraints.len());
            }
            for &s in &pc.bendings {
                assert!(s == -1 || (s as usize) < cloth.bending_constraints.len());
            }
        }
    }
    for (ln, vn) in [(1usize, 3usize), (3, 5), (20, 12)] {
        let n = (ln * vn) as i32;
        let brush = generate_bristles(ln, vn);
        assert!(brush.constraints.iter().all(|c| {
            (0..n).contains(&c.particle0) && (0..n).contains(&c.particle1)
        }));
        assert!(brush
            .bending_constraints
            .iter()
            .all(|c| (0..n).contains(&c.v) && (0..n).contains(&c.b0) && (0..n).contains(&c.b1)));
    }
    let lines = generate_line_particles(64, 16);
    assert!(lines.constraints.iter().all(|c| {
        (c.particle0 == -1 && c.particle1 == -1)
            || ((0..1024).contains(&c.particle0) && c.particle1 == c.particle0 + 1 && c.particle1 < 1024)
    }));
}
