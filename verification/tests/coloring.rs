use nature::pbd::layout::{color_layout, flatten_groups, GridKind};
use nature::pbd::particle::{
    cal_bend_constraints, cal_group_dims, cal_real_max_num, cloth_stretch_constraints,
    greedy_color, group_distance_constraints, is_group_contain_pcs, iter_groups,
};
use nature::pbd::{BendingConstraintObj, MeshColoringObj, StretchConstraintObj};

fn stretch(a: i32, b: i32) -> StretchConstraintObj {
    StretchConstraintObj { particle0: a, particle1: b }
}

fn stretch_particles(constraints: &[StretchConstraintObj], bundle: &[i32]) -> Vec<i32> {
    let mut out = Vec::new();
    for &c in bundle {
        if c != -1 {
            out.push(constraints[c as usize].particle0);
            out.push(constraints[c as usize].particle1);
        }
    }
    out
}

fn bend_particles(constraints: &[BendingConstraintObj], bundle: &[i32]) -> Vec<i32> {
    let mut out = Vec::new();
    for &c in bundle {
        if c != -1 {
            out.push(constraints[c as usize].v);
            out.push(constraints[c as usize].b0);
            out.push(constraints[c as usize].b1);
        }
    }
    out
}

fn disjoint(a: &[i32], b: &[i32]) -> bool {
    a.iter().all(|x| !b.contains(x))
}

fn check_layout(colors: &[MeshColoringObj], total: usize) {
    let mut offset = 0u32;
    for c in colors {
        assert_eq!(c.offset, offset);
        offset += c.group_len;
    }
    assert_eq!(offset as usize, total);
}

#[test]
fn constraints_share_a_particle_iff_an_index_is_common() {
    assert!(stretch(0, 1).is_contain_particles(&stretch(1, 2)));
    assert!(stretch(0, 1).is_contain_particles(&stretch(5, 0)));
    assert!(stretch(3, 1).is_contain_particles(&stretch(3, 9)));
    assert!(!stretch(0, 1).is_contain_particles(&stretch(2, 3)));
    let a = BendingConstraintObj { v: 5, b0: 4, b1: 6 };
    assert!(a.is_contain(&BendingConstraintObj { v: 7, b0: 6, b1: 8 }));
    assert!(a.is_contain(&BendingConstraintObj { v: 5, b0: 1, b1: 9 }));
    assert!(!a.is_contain(&BendingConstraintObj { v: 8, b0: 7, b1: 9 }));
}

#[test]
fn group_contains_a_conflicting_bundle() {
    let constraints = vec![stretch(0, 1), stretch(1, 2), stretch(2, 3), stretch(7, 8)];
    let group = vec![[0, -1, -1], [3, -1, -1]];
    assert!(is_group_contain_pcs(&constraints, &group, &[1, -1, -1]));
    assert!(!is_group_contain_pcs(&constraints, &group, &[2, -1, -1]));
    assert!(!is_group_contain_pcs(&constraints, &group, &[-1, -1, -1]));
    assert!(!is_group_contain_pcs(&constraints, &vec![], &[1, -1, -1]));
}

#[test]
fn chain_of_three_needs_two_colors() {
    let constraints = vec![stretch(0, 1), stretch(1, 2), stretch(2, 3)];
    let bundles = vec![[0, -1, -1], [1, -1, -1], [2, -1, -1]];
    let (colors, reorder) = group_distance_constraints(&constraints, &bundles);
    assert_eq!(reorder, vec![[0, -1, -1], [2, -1, -1], [1, -1, -1]]);
    assert_eq!(colors.len(), 2);
    assert_eq!(
        colors[0],
        MeshColoringObj { offset: 0, max_num_x: 0, max_num_y: 0, group_len: 2, thread_group: (1, 1) }
    );
    assert_eq!(
        colors[1],
        MeshColoringObj { offset: 2, max_num_x: 0, max_num_y: 0, group_len: 1, thread_group: (1, 1) }
    );
}

#[test]
fn no_bundles_give_one_empty_color() {
    let constraints: Vec<StretchConstraintObj> = vec![];
    let bundles: Vec<[i32; 3]> = vec![];
    let (colors, reorder) = group_distance_constraints(&constraints, &bundles);
    assert!(reorder.is_empty());
    assert_eq!(colors.len(), 1);
    assert_eq!(colors[0].group_len, 0);
    assert_eq!(colors[0].thread_group, (0, 1));
}

#[test]
fn empty_bundles_join_the_first_color() {
    let constraints = vec![stretch(0, 1)];
    let bundles = vec![[0, -1, -1], [-1, -1, -1], [-1, -1, -1]];
    let groups = greedy_color(&constraints, &bundles);
    assert_eq!(groups, vec![vec![[0, -1, -1], [-1, -1, -1], [-1, -1, -1]]]);
}

#[test]
fn a_bundle_joins_the_first_group_that_does_not_object() {
    let constraints = vec![stretch(0, 1), stretch(1, 2), stretch(0, 2), stretch(5, 6)];
    let bundles = vec![[0, -1, -1], [1, -1, -1], [2, -1, -1], [3, -1, -1]];
    let mut groups: Vec<Vec<[i32; 3]>> = vec![vec![]];
    iter_groups(0, &constraints, &bundles, &mut groups);
    assert_eq!(groups, vec![vec![[0, -1, -1]]]);
    iter_groups(1, &constraints, &bundles, &mut groups);
    assert_eq!(groups, vec![vec![[0, -1, -1]], vec![[1, -1, -1]]]);
    iter_groups(2, &constraints, &bundles, &mut groups);
    assert_eq!(groups, vec![vec![[0, -1, -1]], vec![[1, -1, -1]], vec![[2, -1, -1]]]);
    iter_groups(3, &constraints, &bundles, &mut groups);
    assert_eq!(
        groups,
        vec![vec![[0, -1, -1], [3, -1, -1]], vec![[1, -1, -1]], vec![[2, -1, -1]]]
    );
}

#[test]
fn greedy_colors_of_a_cloth_are_conflict_free() {
    for (hn, vn) in [(1usize, 1usize), (2, 2), (3, 5), (8, 7), (32, 58)] {
        let (constraints, bundles) = cloth_stretch_constraints(hn, vn);
        let (colors, reorder) = group_distance_constraints(&constraints, &bundles);
        assert_eq!(reorder.len(), hn * vn);
        check_layout(&colors, hn * vn);
        // No more groups than one plus the most conflicts with earlier bundles.
        let footprints: Vec<Vec<i32>> =
            bundles.iter().map(|b| stretch_particles(&constraints, b)).collect();
        let most = (0..bundles.len())
            .map(|i| (0..i).filter(|&j| !disjoint(&footprints[j], &footprints[i])).count())
            .max()
            .unwrap_or(0);
        assert!(colors.len() <= most + 1, "{} groups, {} conflicts", colors.len(), most);
        let mut seen = reorder.clone();
        seen.sort();
        let mut all = bundles.clone();
        all.sort();
        assert_eq!(seen, all);
        for c in &colors {
            let lo = c.offset as usize;
            let hi = lo + c.group_len as usize;
            for a in lo..hi {
                let fa = stretch_particles(&constraints, &reorder[a]);
                for b in (a + 1)..hi {
                    let fb = stretch_particles(&constraints, &reorder[b]);
                    assert!(disjoint(&fa, &fb), "{}x{}: {:?} {:?}", hn, vn, reorder[a], reorder[b]);
                }
            }
        }
    }
}

#[test]
fn greedy_bending_colors_are_conflict_free() {
    for (hn, vn) in [(1usize, 1usize), (3, 3), (6, 5), (16, 12)] {
        let (colors, bendings, reorder) = cal_bend_constraints(hn, vn);
        assert_eq!(reorder.len(), hn * vn);
        check_layout(&colors, hn * vn);
        for c in &colors {
            assert!(c.max_num_x as u64 * c.max_num_y as u64 >= c.group_len as u64);
            assert_eq!(c.thread_group, ((c.group_len + 31) / 32, 1));
            let lo = c.offset as usize;
            let hi = lo + c.group_len as usize;
            for a in lo..hi {
                let fa = bend_particles(&bendings, &reorder[a]);
                for b in (a + 1)..hi {
                    let fb = bend_particles(&bendings, &reorder[b]);
                    assert!(disjoint(&fa, &fb));
                }
            }
        }
    }
}

#[test]
fn bending_constraints_of_a_three_by_three_cloth() {
    let (colors, bendings, reorder) = cal_bend_constraints(3, 3);
    // Only the middle column has a row constraint, only the middle row a
    // column constraint, and the centre has all three.
    assert_eq!(
        bendings,
        vec![
            BendingConstraintObj { v: 1, b0: 0, b1: 2 },
            BendingConstraintObj { v: 3, b0: 0, b1: 6 },
            BendingConstraintObj { v: 4, b0: 3, b1: 5 },
            BendingConstraintObj { v: 4, b0: 1, b1: 7 },
            BendingConstraintObj { v: 4, b0: 2, b1: 6 },
            BendingConstraintObj { v: 5, b0: 2, b1: 8 },
            BendingConstraintObj { v: 7, b0: 6, b1: 8 },
        ]
    );
    // Bundles in particle order: 0:[], 1:[0], 2:[], 3:[1], 4:[2,3,4], 5:[5], 6:[], 7:[6], 8:[].
    // Greedy: group 0 takes 0,1,2 then 3 conflicts with 1 (particle 0), ...
    assert_eq!(reorder.len(), 9);
    assert_eq!(reorder[0], [-1, -1, -1]);
    assert_eq!(reorder[1], [0, -1, -1]);
    assert_eq!(reorder[2], [-1, -1, -1]);
    assert_eq!(colors[0].offset, 0);
    assert_eq!(colors[0].max_num_x, 8);
}

#[test]
fn trimmed_side_is_the_ceiling_but_at_most_seven_shorter() {
    assert_eq!(cal_real_max_num(16, 8, 100), 13);
    assert_eq!(cal_real_max_num(16, 8, 128), 16);
    assert_eq!(cal_real_max_num(16, 8, 72), 9);
    assert_eq!(cal_real_max_num(16, 8, 8), 9);
    // The widest grid there is: nothing is added to the side, so nothing overflows.
    assert_eq!(cal_real_max_num(u32::MAX, 1, u32::MAX - 3), u32::MAX - 3);
    assert_eq!(cal_real_max_num(u32::MAX, 1, u32::MAX), u32::MAX);
    assert_eq!(cal_real_max_num(u32::MAX, 1, 5), u32::MAX - 7);
    assert_eq!(cal_real_max_num(u32::MAX, 0, 0), u32::MAX);
    assert_eq!(cal_real_max_num(16, 8, 0), 9);
    assert_eq!(cal_real_max_num(8, 0, 0), 8);
    assert_eq!(cal_real_max_num(8, 0, 5), 9);
    assert_eq!(cal_real_max_num(8, 8, 65), 9);
    assert_eq!(cal_real_max_num(3, 4, 12), 3);
    assert_eq!(cal_real_max_num(3, 4, 1), 1);
}

#[test]
fn compute_grid_grows_by_eight_and_is_trimmed() {
    assert_eq!(cal_group_dims(0), (8, 0));
    assert_eq!(cal_group_dims(1), (8, 1));
    assert_eq!(cal_group_dims(64), (8, 8));
    assert_eq!(cal_group_dims(65), (9, 8));
    assert_eq!(cal_group_dims(128), (16, 8));
    assert_eq!(cal_group_dims(129), (16, 9));
    assert_eq!(cal_group_dims(200), (16, 13));
    assert_eq!(cal_group_dims(792 * 792), (792, 792));
    assert_eq!(cal_group_dims(792 * 792 + 1), (792, 792));
    assert_eq!(cal_group_dims(u32::MAX), (792, 792));
}

#[test]
fn layout_lists_groups_end_to_end() {
    let groups = vec![vec![7u8, 8], vec![], vec![9]];
    assert_eq!(flatten_groups(&groups), vec![7, 8, 9]);
    let flat = color_layout(GridKind::Flat, &groups);
    assert_eq!(flat.len(), 3);
    assert_eq!((flat[0].offset, flat[0].group_len), (0, 2));
    assert_eq!((flat[1].offset, flat[1].group_len), (2, 0));
    assert_eq!((flat[2].offset, flat[2].group_len), (2, 1));
    assert_eq!(flat[0].thread_group, (1, 1));
    assert_eq!(flat[1].thread_group, (0, 1));
    let tiled = color_layout(GridKind::Tiled, &groups);
    assert_eq!((tiled[0].max_num_x, tiled[0].max_num_y), (8, 1));
    assert_eq!(tiled[0].thread_group, (1, 1));
    assert_eq!((tiled[1].max_num_x, tiled[1].max_num_y), (8, 0));
    assert_eq!(tiled[1].thread_group, (1, 0));
    let big: Vec<Vec<u8>> = vec![vec![0; 200]];
    let grid = color_layout(GridKind::Grid, &big);
    assert_eq!((grid[0].max_num_x, grid[0].max_num_y), (16, 13));
    assert_eq!(grid[0].thread_group, (7, 1));
    let tiled = color_layout(GridKind::Tiled, &big);
    assert_eq!(tiled[0].thread_group, (2, 2));
}

#[test]
fn push_constants_are_offset_grid_and_length() {
    let mc = MeshColoringObj {
        offset: 5,
        max_num_x: 16,
        max_num_y: 8,
        group_len: 100,
        thread_group: (4, 1),
    };
    assert_eq!(mc.get_push_constants_data(), vec![5, 16, 8, 100]);
    let u = mc.get_bending_dynamic_uniform(4);
    assert_eq!((u.offset, u.max_num_x, u.group_len, u.iter_divisor), (5, 16, 100, 5));
}
