//! Cloth as a grid of particles: who is connected to whom, and the greedy
//! coloring of constraint bundles.

use vstd::prelude::*;
use crate::pbd::cal_bend_constraints::{bend2_groups, bend2_ok, cal_bend_constraints2};
use crate::pbd::coloring::{
    concat, first_fit, first_fit_from, greedy_groups, group_blocks, groups_sorted_below,
    lemma_concat_index, lemma_concat_len, lemma_first_fit_from, lemma_greedy_groups,
    lemma_prefix_len_monotonic, overlaps, place, prefix_len,
};
use crate::pbd::grid::{
    bend_base, bend_ok, bend_slot, cal_connected_particles, col_of, connected, lemma_grid_split,
    push_bendings, row_of, MassClass,
};
use crate::pbd::layout::{
    color_layout, color_of, flatten_groups, groups_view, lemma_layout_range, GridKind,
};
use crate::pbd::{
    all_within, bundle_particles, bundle_valid, bundles_overlap, bundles_valid, colors_conflict_free,
    footprints, group_overlaps, BendingConstraintObj, MeshColoringObj, ParticleConstraint,
    StretchConstraintObj,
};

verus! {

/// A particle that two constraints share lies in the footprints of the
/// bundles that name them.
proof fn lemma_bundle_member<C: ParticleConstraint>(
    constraints: Seq<C>,
    bundle: Seq<i32>,
    e: int,
    p: int,
)
    requires
        0 <= e < bundle.len(),
        bundle[e] != -1,
        constraints[bundle[e] as int].particles().contains(p),
    ensures
        bundle_particles(constraints, bundle).contains(p),
{
}

/// Whether a bundle of the group touches a particle that `pcs` touches.
pub fn group_contains<C: ParticleConstraint>(
    constraints: &[C],
    a_group: &Vec<[i32; 3]>,
    pcs: &[i32],
) -> (r: bool)
    requires
        bundle_valid(constraints@.len() as int, pcs@),
        bundles_valid(constraints@.len() as int, a_group@),
    ensures
        r == group_overlaps(constraints@, a_group@, pcs@),
{
    let mut ci: usize = 0;
    while ci < pcs.len()
        invariant
            ci <= pcs@.len(),
            bundle_valid(constraints@.len() as int, pcs@),
            bundles_valid(constraints@.len() as int, a_group@),
            forall|c: int, k: int, e: int|
                0 <= c < ci && 0 <= k < a_group@.len() && 0 <= e < 3 && pcs@[c] != -1
                    && a_group@[k]@[e] != -1 ==> (#[trigger] constraints@[a_group@[k]@[e] as int]).particles().disjoint(
                    (#[trigger] constraints@[pcs@[c] as int]).particles(),
                ),
        decreases pcs@.len() - ci,
    {
        let c = pcs[ci];
        if c != -1 {
            let constraint0 = &constraints[c as usize];
            let mut k: usize = 0;
            while k < a_group.len()
                invariant
                    ci < pcs@.len(),
                    c == pcs@[ci as int],
                    c != -1,
                    0 <= c < constraints@.len(),
                    *constraint0 == constraints@[c as int],
                    k <= a_group@.len(),
                    bundle_valid(constraints@.len() as int, pcs@),
                    bundles_valid(constraints@.len() as int, a_group@),
                    forall|k2: int, e: int|
                        0 <= k2 < k && 0 <= e < 3 && a_group@[k2]@[e] != -1 ==> (#[trigger] constraints@[a_group@[k2]@[e] as int]).particles().disjoint(
                            constraints@[c as int].particles(),
                        ),
                decreases a_group@.len() - k,
            {
                let ag = &a_group[k];
                let mut e: usize = 0;
                while e < 3
                    invariant
                        e <= 3,
                        k < a_group@.len(),
                        *ag == a_group@[k as int],
                        bundle_valid(constraints@.len() as int, ag@),
                        ci < pcs@.len(),
                        c == pcs@[ci as int],
                        c != -1,
                        0 <= c < constraints@.len(),
                        *constraint0 == constraints@[c as int],
                        forall|e2: int|
                            0 <= e2 < e && ag@[e2] != -1 ==> (#[trigger] constraints@[ag@[e2] as int]).particles().disjoint(
                                constraints@[c as int].particles(),
                            ),
                    decreases 3 - e,
                {
                    let a = ag[e];
                    if a != -1 {
                        assert(ag@[e as int] == -1 || 0 <= ag@[e as int] < constraints@.len());
                        let constraint1 = &constraints[a as usize];
                        if constraint1.touches(constraint0) {
                            proof {
                                let p = choose|p: int|
                                    constraint1.particles().contains(p)
                                        && constraint0.particles().contains(p);
                                lemma_bundle_member(constraints@, ag@, e as int, p);
                                lemma_bundle_member(constraints@, pcs@, ci as int, p);
                                assert(bundles_overlap(constraints@, a_group@[k as int]@, pcs@));
                            }
                            return true;
                        }
                    }
                    e += 1;
                }
                k += 1;
            }
        }
        ci += 1;
    }
    proof {
        assert forall|k: int| 0 <= k < a_group@.len() implies !bundles_overlap(
            constraints@,
            (#[trigger] a_group@[k])@,
            pcs@,
        ) by {
            let fa = bundle_particles(constraints@, a_group@[k]@);
            let fb = bundle_particles(constraints@, pcs@);
            assert forall|p: int| !(fa.contains(p) && fb.contains(p)) by {
                if fa.contains(p) && fb.contains(p) {
                    let e = choose|e: int|
                        0 <= e < a_group@[k]@.len() && a_group@[k]@[e] != -1 && (#[trigger] constraints@[a_group@[k]@[e] as int]).particles().contains(
                            p,
                        );
                    let c = choose|c: int|
                        0 <= c < pcs@.len() && pcs@[c] != -1 && (#[trigger] constraints@[pcs@[c] as int]).particles().contains(
                            p,
                        );
                    assert(constraints@[a_group@[k]@[e] as int].particles().disjoint(
                        constraints@[pcs@[c] as int].particles(),
                    ));
                }
            }
        }
    }
    false
}

/// Whether a bundle of the group has a stretch constraint that shares a
/// particle with a stretch constraint of `pcs`.
pub fn is_group_contain_pcs(
    constraints: &[StretchConstraintObj],
    a_group: &Vec<[i32; 3]>,
    pcs: &[i32],
) -> (is_contain: bool)
    requires
        bundle_valid(constraints@.len() as int, pcs@),
        bundles_valid(constraints@.len() as int, a_group@),
    ensures
        is_contain == group_overlaps(constraints@, a_group@, pcs@),
{
    group_contains(constraints, a_group, pcs)
}

/// Whether every bundle of every group is valid.
pub open spec fn groups_valid(len: int, groups: Seq<Seq<[i32; 3]>>) -> bool {
    forall|g: int| 0 <= g < groups.len() ==> bundles_valid(len, #[trigger] groups[g])
}

/// The first group at or after `start` none of whose bundles touches a
/// particle of `bundle`; the number of groups when there is none.
pub open spec fn first_free_from<C: ParticleConstraint>(
    constraints: Seq<C>,
    groups: Seq<Seq<[i32; 3]>>,
    bundle: Seq<i32>,
    start: int,
) -> int
    decreases groups.len() - start,
{
    if start < 0 || start >= groups.len() {
        groups.len() as int
    } else if !group_overlaps(constraints, groups[start], bundle) {
        start
    } else {
        first_free_from(constraints, groups, bundle, start + 1)
    }
}

/// The groups with `bundle` added at the end of group `f`, or in a new last
/// group when `f` names none.
pub open spec fn placed(groups: Seq<Seq<[i32; 3]>>, f: int, bundle: [i32; 3]) -> Seq<
    Seq<[i32; 3]>,
> {
    if 0 <= f < groups.len() {
        groups.update(f, groups[f].push(bundle))
    } else {
        groups.push(seq![bundle])
    }
}

/// The bundles that the item numbers of each group stand for.
pub open spec fn gather(bundles: Seq<[i32; 3]>, groups: Seq<Seq<int>>) -> Seq<Seq<[i32; 3]>> {
    Seq::new(groups.len(), |g: int| Seq::new(groups[g].len(), |k: int| bundles[groups[g][k]]))
}

/// The color groups of a list of bundles: greedy coloring by footprint, each
/// group as the bundles it holds, in input order.
pub open spec fn color_groups<C: ParticleConstraint>(
    constraints: Seq<C>,
    bundles: Seq<[i32; 3]>,
) -> Seq<Seq<[i32; 3]>> {
    gather(bundles, greedy_groups(footprints(constraints, bundles), bundles.len()))
}

/// Finding the first free group among bundles is finding the first fit
/// among the item numbers they stand for.
proof fn lemma_first_free_is_first_fit<C: ParticleConstraint>(
    constraints: Seq<C>,
    bundles: Seq<[i32; 3]>,
    groups: Seq<Seq<int>>,
    item: int,
    start: int,
)
    requires
        0 <= item < bundles.len(),
        0 <= start <= groups.len(),
        groups_sorted_below(groups, bundles.len() as int),
    ensures
        first_free_from(constraints, gather(bundles, groups), bundles[item]@, start)
            == first_fit_from(footprints(constraints, bundles), groups, item, start),
    decreases groups.len() - start,
{
    let fps = footprints(constraints, bundles);
    let gv = gather(bundles, groups);
    if start < groups.len() {
        if group_overlaps(constraints, gv[start], bundles[item]@) {
            let k = choose|k: int|
                0 <= k < gv[start].len() && bundles_overlap(
                    constraints,
                    (#[trigger] gv[start][k])@,
                    bundles[item]@,
                );
            assert(0 <= groups[start][k] < bundles.len());
            assert(overlaps(fps, groups[start][k], item));
        }
        if group_blocks(fps, groups[start], item) {
            let k = choose|k: int|
                0 <= k < groups[start].len() && overlaps(fps, #[trigger] groups[start][k], item);
            assert(0 <= groups[start][k] < bundles.len());
            assert(bundles_overlap(constraints, gv[start][k]@, bundles[item]@));
        }
        lemma_first_free_is_first_fit(constraints, bundles, groups, item, start + 1);
    }
}

/// Puts `bundle` into the first group none of whose bundles touches a
/// particle of it, or into a new last group when every group objects.
pub fn place_bundle<C: ParticleConstraint>(
    constraints: &[C],
    bundle: &[i32; 3],
    groups: &mut Vec<Vec<[i32; 3]>>,
)
    requires
        bundle_valid(constraints@.len() as int, bundle@),
        groups_valid(constraints@.len() as int, groups_view(old(groups)@)),
    ensures
        groups_view(final(groups)@) == placed(
            groups_view(old(groups)@),
            first_free_from(constraints@, groups_view(old(groups)@), bundle@, 0),
            *bundle,
        ),
        groups_valid(constraints@.len() as int, groups_view(final(groups)@)),
{
    let ghost before = groups_view(groups@);
    let n_groups = groups.len();
    let mut g: usize = 0;
    while g < n_groups
        invariant
            n_groups == groups@.len(),
            g <= n_groups,
            groups_view(groups@) == before,
            before == groups_view(old(groups)@),
            bundle_valid(constraints@.len() as int, bundle@),
            groups_valid(constraints@.len() as int, before),
            first_free_from(constraints@, before, bundle@, 0) == first_free_from(
                constraints@,
                before,
                bundle@,
                g as int,
            ),
        decreases n_groups - g,
    {
        assert(before[g as int] == groups@[g as int]@);
        if group_contains(constraints, &groups[g], bundle) {
            g += 1;
        } else {
            let ghost pre = groups@;
            groups[g].push(*bundle);
            proof {
                let after = groups_view(groups@);
                let want = placed(before, g as int, *bundle);
                assert(after.len() == want.len());
                assert forall|h: int| 0 <= h < after.len() implies after[h] == want[h] by {
                    assert(before[h] == pre[h]@);
                }
                assert(after =~= want);
                assert forall|h: int| 0 <= h < after.len() implies bundles_valid(
                    constraints@.len() as int,
                    #[trigger] after[h],
                ) by {
                    assert(bundles_valid(constraints@.len() as int, before[h]));
                    if h == g {
                        assert forall|k: int| 0 <= k < after[h].len() implies bundle_valid(
                            constraints@.len() as int,
                            (#[trigger] after[h][k])@,
                        ) by {
                            if k < before[h].len() {
                                assert(after[h][k] == before[h][k]);
                            }
                        }
                    }
                }
            }
            return ;
        }
    }
    let mut a_group: Vec<[i32; 3]> = Vec::new();
    a_group.push(*bundle);
    let ghost pre = groups@;
    groups.push(a_group);
    proof {
        let after = groups_view(groups@);
        let want = placed(before, n_groups as int, *bundle);
        assert(after.len() == want.len());
        assert forall|h: int| 0 <= h < after.len() implies after[h] == want[h] by {
            if h < n_groups {
                assert(before[h] == pre[h]@);
            } else {
                assert(after[h] =~= seq![*bundle]);
            }
        }
        assert(after =~= want);
        assert forall|h: int| 0 <= h < after.len() implies bundles_valid(
            constraints@.len() as int,
            #[trigger] after[h],
        ) by {
            if h < n_groups {
                assert(bundles_valid(constraints@.len() as int, before[h]));
            }
        }
    }
}

/// Places the bundle of particle `index` among the groups: into the first
/// group that holds no stretch constraint sharing a particle with it, or
/// into a new last group.
pub fn iter_groups(
    index: usize,
    constraints: &[StretchConstraintObj],
    particle_constraints: &Vec<[i32; 3]>,
    groups: &mut Vec<Vec<[i32; 3]>>,
)
    requires
        index < particle_constraints@.len(),
        bundles_valid(constraints@.len() as int, particle_constraints@),
        groups_valid(constraints@.len() as int, groups_view(old(groups)@)),
    ensures
        groups_view(final(groups)@) == placed(
            groups_view(old(groups)@),
            first_free_from(
                constraints@,
                groups_view(old(groups)@),
                particle_constraints@[index as int]@,
                0,
            ),
            particle_constraints@[index as int],
        ),
        groups_valid(constraints@.len() as int, groups_view(final(groups)@)),
{
    place_bundle(constraints, &particle_constraints[index], groups);
}

/// Colors the bundles greedily, in input order.
pub fn greedy_color<C: ParticleConstraint>(constraints: &[C], bundles: &Vec<[i32; 3]>) -> (groups:
    Vec<Vec<[i32; 3]>>)
    requires
        bundles_valid(constraints@.len() as int, bundles@),
    ensures
        groups_view(groups@) == color_groups(constraints@, bundles@),
        groups_valid(constraints@.len() as int, groups_view(groups@)),
{
    let ghost fps = footprints(constraints@, bundles@);
    let mut groups: Vec<Vec<[i32; 3]>> = Vec::new();
    groups.push(Vec::new());
    proof {
        let gi = greedy_groups(fps, 0);
        assert(groups_view(groups@) =~= gather(bundles@, gi)) by {
            assert(groups_view(groups@)[0] =~= gather(bundles@, gi)[0]);
        }
    }
    let mut i: usize = 0;
    while i < bundles.len()
        invariant
            i <= bundles@.len(),
            fps == footprints(constraints@, bundles@),
            bundles_valid(constraints@.len() as int, bundles@),
            groups_view(groups@) == gather(bundles@, greedy_groups(fps, i as nat)),
            groups_valid(constraints@.len() as int, groups_view(groups@)),
        decreases bundles@.len() - i,
    {
        let ghost gi = greedy_groups(fps, i as nat);
        let ghost before = groups_view(groups@);
        place_bundle(constraints, &bundles[i], &mut groups);
        proof {
            lemma_greedy_groups(fps, i as nat);
            lemma_first_free_is_first_fit(constraints@, bundles@, gi, i as int, 0);
            lemma_first_fit_from(fps, gi, i as int, 0);
            let f = first_fit(fps, gi, i as int);
            let next = greedy_groups(fps, (i + 1) as nat);
            assert(next == place(fps, gi, i as int));
            let want = gather(bundles@, next);
            let got = placed(before, f, bundles@[i as int]);
            assert(got.len() == want.len());
            assert forall|g: int| 0 <= g < got.len() implies got[g] == want[g] by {
                assert(got[g].len() == want[g].len());
                assert forall|k: int| 0 <= k < got[g].len() implies got[g][k] == want[g][k] by {
                    if g < gi.len() && k < gi[g].len() {
                        assert(before[g][k] == bundles@[gi[g][k]]);
                    }
                }
                assert(got[g] =~= want[g]);
            }
            assert(got =~= want);
        }
        i += 1;
    }
    groups
}

/// `a` divided by `b`, rounded up.
pub open spec fn ceil_div(a: int, b: int) -> int {
    (a + b - 1) / b
}

/// The ceiling is the least multiplier of `b` that reaches `a`.
pub proof fn lemma_ceil_div(a: int, b: int)
    requires
        0 <= a,
        0 < b,
    ensures
        ceil_div(a, b) >= 0,
        ceil_div(a, b) * b >= a,
        (ceil_div(a, b) - 1) * b < a,
{
    let q = ceil_div(a, b);
    let r = (a + b - 1) % b;
    vstd::arithmetic::div_mod::lemma_fundamental_div_mod(a + b - 1, b);
    vstd::arithmetic::div_mod::lemma_mod_bound(a + b - 1, b);
    assert(a + b - 1 == b * q + r);
    assert(q * b == b * q) by (nonlinear_arith);
    assert((q - 1) * b == q * b - b) by (nonlinear_arith);
    assert(q >= 0) by (nonlinear_arith)
        requires
            b > 0,
            q * b >= 0,
            (q - 1) * b < a,
            a >= 0,
            q * b >= a,
    ;
}

/// No smaller multiplier of `b` reaches `a`.
pub proof fn lemma_ceil_div_least(a: int, b: int, v: int)
    requires
        0 <= a,
        0 < b,
        v * b >= a,
    ensures
        v >= ceil_div(a, b),
{
    lemma_ceil_div(a, b);
    let q = ceil_div(a, b);
    assert(v >= q) by (nonlinear_arith)
        requires
            v * b >= a,
            (q - 1) * b < a,
            b > 0,
    ;
}

/// The side that `cal_real_max_num` settles on: `max_num` shortened as far
/// as the grid `side x other` still holds `group_len` items, but by no more
/// than 7. Where even `max_num` is too short, one more than `max_num`.
pub open spec fn trimmed_side(max_num: int, other: int, group_len: int) -> int {
    if max_num * other < group_len {
        max_num + 1
    } else if other == 0 {
        max_num
    } else if ceil_div(group_len, other) > max_num - 7 {
        ceil_div(group_len, other)
    } else {
        max_num - 7
    }
}

/// Shortens one side of a compute grid to what `group_len` items need.
pub fn cal_real_max_num(max_num: u32, other: u32, group_len: u32) -> (side: u32)
    requires
        max_num * other <= u32::MAX,
        max_num * other < group_len ==> max_num < u32::MAX,
    ensures
        side == trimmed_side(max_num as int, other as int, group_len as int),
{
    let mut i: u32 = 0;
    while i < 8
        invariant
            i <= 8,
            max_num * other <= u32::MAX,
            max_num * other < group_len ==> max_num < u32::MAX,
            i > 0 ==> max_num * other > group_len,
            i > 0 ==> (max_num - (i - 1)) * other > group_len,
        decreases 8 - i,
    {
        proof {
            if i > 0 {
                let j = (i - 1) as int;
                assert((max_num - j) * other > group_len);
                assert(max_num - j > 0 && other > 0) by (nonlinear_arith)
                    requires
                        (max_num - j) * other > 0,
                        other >= 0,
                ;
            }
            assert((max_num - i) * other <= max_num * other) by (nonlinear_arith)
                requires
                    0 <= i <= max_num,
                    other >= 0,
            ;
            assert((max_num - i) * other >= 0) by (nonlinear_arith)
                requires
                    0 <= i <= max_num,
                    other >= 0,
            ;
        }
        let val = max_num - i;
        if val * other == group_len {
            proof {
                assert((val - 1) * other == val * other - other) by (nonlinear_arith);
                if i == 0 {
                    if other != 0 {
                        lemma_ceil_div(group_len as int, other as int);
                        lemma_trim_exact(max_num as int, other as int, group_len as int, val as int);
                    }
                } else {
                    assert(other > 0) by (nonlinear_arith)
                        requires
                            max_num * other > 0,
                            max_num >= 0,
                    ;
                    lemma_trim_exact(max_num as int, other as int, group_len as int, val as int);
                }
            }
            return val;
        } else if val * other < group_len {
            proof {
                assert((val + 1 - 1) * other == val * other);
                if i > 0 {
                    assert(other > 0) by (nonlinear_arith)
                        requires
                            max_num * other > 0,
                            max_num >= 0,
                    ;
                    lemma_trim_exact(
                        max_num as int,
                        other as int,
                        group_len as int,
                        val as int + 1,
                    );
                }
            }
            return max_num - i + 1;
        }
        i += 1;
    }
    proof {
        assert(other > 0 && max_num - 7 > 0) by (nonlinear_arith)
            requires
                (max_num - 7) * other > 0,
                other >= 0,
        ;
        lemma_ceil_div_least(group_len as int, other as int, max_num - 7);
    }
    max_num - 7
}

/// The shortened side still holds the items, and is at most 7 shorter; it
/// is the shortest such side: either it is 7 shorter, or one less would no
/// longer hold the items.
pub proof fn lemma_trimmed_side(max_num: int, other: int, group_len: int)
    requires
        0 <= group_len <= max_num * other,
        0 <= other,
        0 <= max_num,
    ensures
        trimmed_side(max_num, other, group_len) * other >= group_len,
        max_num - 7 <= trimmed_side(max_num, other, group_len) <= max_num,
        0 <= trimmed_side(max_num, other, group_len),
        other >= 1 ==> trimmed_side(max_num, other, group_len) == max_num - 7 || (trimmed_side(
            max_num,
            other,
            group_len,
        ) - 1) * other < group_len,
{
    if other == 0 {
        assert(max_num * 0 == 0);
    } else {
        let q = ceil_div(group_len, other);
        lemma_ceil_div(group_len, other);
        lemma_ceil_div_least(group_len, other, max_num);
        if q <= max_num - 7 {
            assert((max_num - 7) * other >= q * other) by (nonlinear_arith)
                requires
                    q <= max_num - 7,
                    other > 0,
            ;
        }
    }
}

/// A side that reaches `group_len` while one less does not is the ceiling.
proof fn lemma_trim_exact(max_num: int, other: int, group_len: int, v: int)
    requires
        other > 0,
        group_len >= 0,
        max_num * other >= group_len,
        max_num - 7 <= v <= max_num,
        v * other >= group_len,
        (v - 1) * other < group_len,
    ensures
        v == trimmed_side(max_num, other, group_len),
{
    lemma_ceil_div(group_len, other);
    let q = ceil_div(group_len, other);
    lemma_ceil_div_least(group_len, other, v);
    assert(v <= q) by (nonlinear_arith)
        requires
            (v - 1) * other < group_len,
            q * other >= group_len,
            other > 0,
    ;
    if v == max_num - 7 {
        assert(!(q > max_num - 7));
    }
}

/// The compute grid for `group_len` items, searching from step `i`. Sides
/// grow by 8 in turn, x first: 8x0, 8x8, 16x8, 16x16, ... The first grid
/// that holds the items is taken, its last-grown side shortened to what
/// they need. After step 99 the search gives up at 792x792.
pub open spec fn grid_search(i: int, group_len: int) -> (int, int)
    decreases 100 - i,
{
    if i < 1 || i >= 100 {
        (792, 792)
    } else if (8 * i) * (8 * (i - 1)) >= group_len {
        (trimmed_side(8 * i, 8 * (i - 1), group_len), 8 * (i - 1))
    } else if (8 * i) * (8 * i) >= group_len {
        (8 * i, trimmed_side(8 * i, 8 * i, group_len))
    } else {
        grid_search(i + 1, group_len)
    }
}

/// The compute grid for `group_len` items.
pub open spec fn group_dims(group_len: int) -> (int, int) {
    grid_search(1, group_len)
}

/// The grid lies within 792x792, and it holds the items whenever 792x792 does.
pub proof fn lemma_grid_search(i: int, group_len: int)
    requires
        1 <= i <= 100,
        0 <= group_len,
    ensures
        0 <= grid_search(i, group_len).0 <= 792,
        0 <= grid_search(i, group_len).1 <= 792,
        group_len <= 792 * 792 ==> grid_search(i, group_len).0 * grid_search(i, group_len).1
            >= group_len,
    decreases 100 - i,
{
    if i < 100 {
        let x = 8 * i;
        let y = 8 * (i - 1);
        if x * y >= group_len {
            lemma_trimmed_side(x, y, group_len);
        } else if x * x >= group_len {
            lemma_trimmed_side(x, x, group_len);
            assert(x * trimmed_side(x, x, group_len) == trimmed_side(x, x, group_len) * x)
                by (nonlinear_arith);
        } else {
            lemma_grid_search(i + 1, group_len);
            if i == 99 {
                assert(x * x == 792 * 792);
            }
        }
    }
}

/// Finds the compute grid for `group_len` items.
pub fn cal_group_dims(group_len: u32) -> (dims: (u32, u32))
    ensures
        dims.0 == group_dims(group_len as int).0,
        dims.1 == group_dims(group_len as int).1,
{
    let step: u32 = 8;
    let mut max_num_x: u32 = 0;
    let mut max_num_y: u32 = 0;
    let mut i: u32 = 1;
    while i < 100
        invariant
            1 <= i <= 100,
            step == 8,
            max_num_x == 8 * (i - 1),
            max_num_y == 8 * (i - 1),
            group_dims(group_len as int) == grid_search(i as int, group_len as int),
        decreases 100 - i,
    {
        max_num_x = i * step;
        assert(max_num_x * max_num_y <= 792 * 792) by (nonlinear_arith)
            requires
                max_num_x <= 792,
                max_num_y <= 792,
        ;
        if max_num_x * max_num_y >= group_len {
            max_num_x = cal_real_max_num(max_num_x, max_num_y, group_len);
            return (max_num_x, max_num_y);
        }
        max_num_y = i * step;
        assert(max_num_x * max_num_y <= 792 * 792) by (nonlinear_arith)
            requires
                max_num_x <= 792,
                max_num_y <= 792,
        ;
        if max_num_x * max_num_y >= group_len {
            max_num_y = cal_real_max_num(max_num_y, max_num_x, group_len);
            return (max_num_x, max_num_y);
        }
        i += 1;
    }
    (max_num_x, max_num_y)
}

/// What greedy coloring guarantees of the color groups of any bundle list:
/// the groups hold every bundle of the list, and no two bundles of one group
/// touch a common particle.
pub proof fn lemma_color_groups<C: ParticleConstraint>(constraints: Seq<C>, bundles: Seq<[i32; 3]>)
    ensures
        color_groups(constraints, bundles).len() >= 1,
        color_groups(constraints, bundles).len() <= bundles.len() + 1,
        prefix_len(
            color_groups(constraints, bundles),
            color_groups(constraints, bundles).len() as int,
        ) == bundles.len(),
        forall|g: int, j: int, k: int|
            #![trigger color_groups(constraints, bundles)[g][j], color_groups(constraints, bundles)[g][k]]
            0 <= g < color_groups(constraints, bundles).len() && 0 <= j < color_groups(
                constraints,
                bundles,
            )[g].len() && 0 <= k < color_groups(constraints, bundles)[g].len() && j != k
                ==> !bundles_overlap(
                constraints,
                color_groups(constraints, bundles)[g][j]@,
                color_groups(constraints, bundles)[g][k]@,
            ),
{
    let fps = footprints(constraints, bundles);
    let gi = greedy_groups(fps, bundles.len());
    let cg = color_groups(constraints, bundles);
    lemma_greedy_groups(fps, bundles.len());
    lemma_prefix_len_gather(bundles, gi, gi.len() as int);
    assert forall|g: int, j: int, k: int|
        0 <= g < cg.len() && 0 <= j < cg[g].len() && 0 <= k < cg[g].len() && j
            != k implies !bundles_overlap(constraints, #[trigger] cg[g][j]@, #[trigger] cg[g][k]@) by {
        assert(!overlaps(fps, gi[g][j], gi[g][k]));
        assert(0 <= gi[g][j] < bundles.len() && 0 <= gi[g][k] < bundles.len());
    }
}

proof fn lemma_prefix_len_gather(bundles: Seq<[i32; 3]>, groups: Seq<Seq<int>>, g: int)
    requires
        0 <= g <= groups.len(),
    ensures
        prefix_len(gather(bundles, groups), g) == prefix_len(groups, g),
    decreases g,
{
    if g > 0 {
        lemma_prefix_len_gather(bundles, groups, g - 1);
    }
}

/// In the flattened list, two different bundles that stand in the range of
/// one group touch no common particle.
pub proof fn lemma_flat_conflict_free<C: ParticleConstraint>(
    constraints: Seq<C>,
    bundles: Seq<[i32; 3]>,
    g: int,
    a: int,
    b: int,
)
    requires
        0 <= g < color_groups(constraints, bundles).len(),
        prefix_len(color_groups(constraints, bundles), g) <= a < prefix_len(
            color_groups(constraints, bundles),
            g + 1,
        ),
        prefix_len(color_groups(constraints, bundles), g) <= b < prefix_len(
            color_groups(constraints, bundles),
            g + 1,
        ),
        a != b,
    ensures
        0 <= a < concat(color_groups(constraints, bundles)).len(),
        0 <= b < concat(color_groups(constraints, bundles)).len(),
        !bundles_overlap(
            constraints,
            concat(color_groups(constraints, bundles))[a]@,
            concat(color_groups(constraints, bundles))[b]@,
        ),
{
    let cg = color_groups(constraints, bundles);
    let base = prefix_len(cg, g);
    lemma_color_groups(constraints, bundles);
    lemma_concat_index(cg, cg.len() as int, g, a - base);
    lemma_concat_index(cg, cg.len() as int, g, b - base);
    assert(!bundles_overlap(constraints, cg[g][a - base]@, cg[g][b - base]@));
}

/// Greedy color groups, laid out, are free of conflicts, whatever the
/// bundles and whatever the kind of compute grid.
pub proof fn lemma_greedy_layout<C: ParticleConstraint>(
    constraints: Seq<C>,
    bundles: Seq<[i32; 3]>,
    kind: GridKind,
    colors: Seq<MeshColoringObj>,
    reorder: Seq<[i32; 3]>,
)
    requires
        bundles.len() <= u32::MAX,
        reorder == concat(color_groups(constraints, bundles)),
        colors.len() == color_groups(constraints, bundles).len(),
        forall|g: int|
            0 <= g < colors.len() ==> #[trigger] colors[g] == color_of(
                kind,
                color_groups(constraints, bundles),
                g,
            ),
    ensures
        reorder.len() == bundles.len(),
        colors_conflict_free(colors, constraints, reorder),
{
    let cg = color_groups(constraints, bundles);
    lemma_color_groups(constraints, bundles);
    lemma_concat_len(cg, cg.len() as int);
    assert forall|c: int, a: int, b: int|
        0 <= c < colors.len() && #[trigger] colors[c].holds(a) && #[trigger] colors[c].holds(b)
            && a != b implies 0 <= a < reorder.len() && 0 <= b < reorder.len()
        && !bundles_overlap(constraints, reorder[a]@, reorder[b]@) by {
        lemma_layout_range(kind, cg, c);
        lemma_flat_conflict_free(constraints, bundles, c, a, b);
    }
}

/// Colors the bundles of stretch constraints greedily, in input order, and
/// lays the groups out for the solver: the bundles group by group, and where
/// each group starts and ends.
///
/// Within one group no two bundles share a particle, so the solver may relax
/// all bundles of a group at once.
pub fn group_distance_constraints(
    constraints: &[StretchConstraintObj],
    particle_constraints: &Vec<[i32; 3]>,
) -> (res: (Vec<MeshColoringObj>, Vec<[i32; 3]>))
    requires
        bundles_valid(constraints@.len() as int, particle_constraints@),
        particle_constraints@.len() <= u32::MAX,
    ensures
        res.1@ == concat(color_groups(constraints@, particle_constraints@)),
        res.1@.len() == particle_constraints@.len(),
        res.0@.len() == color_groups(constraints@, particle_constraints@).len(),
        forall|g: int|
            0 <= g < res.0@.len() ==> #[trigger] res.0@[g] == color_of(
                GridKind::Flat,
                color_groups(constraints@, particle_constraints@),
                g,
            ),
        colors_conflict_free(res.0@, constraints@, res.1@),
{
    let groups = greedy_color(constraints, particle_constraints);
    proof {
        lemma_color_groups(constraints@, particle_constraints@);
    }
    let mesh_colorings = color_layout(GridKind::Flat, &groups);
    let reorder_constraints = flatten_groups(&groups);
    proof {
        lemma_greedy_layout(
            constraints@,
            particle_constraints@,
            GridKind::Flat,
            mesh_colorings@,
            reorder_constraints@,
        );
    }
    (mesh_colorings, reorder_constraints)
}

/// Whether the cloth particle `p` has a stretch constraint in slot `s`:
/// slot 0 to its right neighbour, slot 1 to the one below, slot 2 to the
/// one below and to the right.
pub open spec fn cloth_slot_used(hn: int, vn: int, p: int, s: int) -> bool {
    let right = col_of(hn, p) + 1 < hn;
    let below = row_of(hn, p) + 1 < vn;
    if s == 0 {
        right
    } else if s == 1 {
        below
    } else {
        s == 2 && right && below
    }
}

/// The number of slots below `s` that particle `p` uses.
pub open spec fn cloth_slots_before(hn: int, vn: int, p: int, s: int) -> int
    decreases s,
{
    if s <= 0 {
        0
    } else {
        cloth_slots_before(hn, vn, p, s - 1) + if cloth_slot_used(hn, vn, p, s - 1) {
            1int
        } else {
            0int
        }
    }
}

/// The number of stretch constraints of the particles before `p`.
pub open spec fn cloth_stretch_base(hn: int, vn: int, p: int) -> int
    decreases p,
{
    if p <= 0 {
        0
    } else {
        cloth_stretch_base(hn, vn, p - 1) + cloth_slots_before(hn, vn, p - 1, 3)
    }
}

/// What slot `s` of the bundle of particle `p` holds: the number of its
/// constraint, counted in the order particle by particle and slot by slot,
/// or -1 where the particle has no such neighbour.
pub open spec fn cloth_slot(hn: int, vn: int, p: int, s: int) -> int {
    if cloth_slot_used(hn, vn, p, s) {
        cloth_stretch_base(hn, vn, p) + cloth_slots_before(hn, vn, p, s)
    } else {
        -1
    }
}

/// The particle at the far end of the constraint in slot `s` of particle `p`.
pub open spec fn cloth_partner(hn: int, p: int, s: int) -> int {
    if s == 0 {
        p + 1
    } else if s == 1 {
        p + hn
    } else {
        p + hn + 1
    }
}

/// Whether slot `s` of particle `p`, if used, names the constraint from `p`
/// to its partner.
pub open spec fn cloth_constraint_ok(
    hn: int,
    vn: int,
    constraints: Seq<StretchConstraintObj>,
    p: int,
    s: int,
) -> bool {
    cloth_slot_used(hn, vn, p, s) ==> 0 <= cloth_slot(hn, vn, p, s) < constraints.len()
        && constraints[cloth_slot(hn, vn, p, s)] == (StretchConstraintObj {
        particle0: p as i32,
        particle1: cloth_partner(hn, p, s) as i32,
    })
}

/// The stretch constraints of a cloth and the bundle of each particle.
pub open spec fn cloth_stretches_ok(
    hn: int,
    vn: int,
    constraints: Seq<StretchConstraintObj>,
    bundles: Seq<[i32; 3]>,
) -> bool {
    &&& bundles.len() == hn * vn
    &&& constraints.len() == cloth_stretch_base(hn, vn, hn * vn)
    &&& forall|p: int, s: int|
        0 <= p < bundles.len() && 0 <= s < 3 ==> (#[trigger] bundles[p]@[s]) == cloth_slot(
            hn,
            vn,
            p,
            s,
        )
    &&& forall|p: int, s: int|
        0 <= p < bundles.len() && 0 <= s < 3 ==> #[trigger] cloth_constraint_ok(
            hn,
            vn,
            constraints,
            p,
            s,
        )
}

/// Builds the stretch constraints of a cloth, particle by particle: to the
/// right, below, and below right, wherever that neighbour exists.
pub fn cloth_stretch_constraints(horizontal_num: usize, vertical_num: usize) -> (res: (
    Vec<StretchConstraintObj>,
    Vec<[i32; 3]>,
))
    requires
        3 * (horizontal_num * vertical_num) <= i32::MAX,
    ensures
        cloth_stretches_ok(horizontal_num as int, vertical_num as int, res.0@, res.1@),
        bundles_valid(res.0@.len() as int, res.1@),
        all_within(res.0@, horizontal_num * vertical_num),
{
    let mut constraints: Vec<StretchConstraintObj> = Vec::new();
    let mut bundles: Vec<[i32; 3]> = Vec::new();
    let ghost hn = horizontal_num as int;
    let ghost vn = vertical_num as int;
    if horizontal_num == 0 {
        assert(hn * vn == 0);
        return (constraints, bundles);
    }
    let total = horizontal_num * vertical_num;
    let mut index0: usize = 0;
    while index0 < total
        invariant
            index0 <= total,
            total == hn * vn,
            hn == horizontal_num,
            vn == vertical_num,
            hn > 0,
            3 * total <= i32::MAX,
            bundles@.len() == index0,
            constraints@.len() == cloth_stretch_base(hn, vn, index0 as int),
            constraints@.len() <= 3 * index0,
            all_within(constraints@, hn * vn),
            forall|p: int, s: int|
                0 <= p < index0 && 0 <= s < 3 ==> (#[trigger] bundles@[p]@[s]) == cloth_slot(
                    hn,
                    vn,
                    p,
                    s,
                ),
            forall|p: int, s: int|
                0 <= p < index0 && 0 <= s < 3 ==> #[trigger] cloth_constraint_ok(
                    hn,
                    vn,
                    constraints@,
                    p,
                    s,
                ),
        decreases total - index0,
    {
        let h = index0 / horizontal_num;
        let w = index0 % horizontal_num;
        proof {
            lemma_grid_split(hn, vn, index0 as int);
            reveal_with_fuel(cloth_slots_before, 4);
            if h + 1 < vertical_num {
                crate::pbd::grid::lemma_grid_bound(hn, vn, h + 1, w as int);
                assert((h + 1) * hn + w == index0 + hn) by (nonlinear_arith)
                    requires
                        index0 == h * hn + w,
                ;
                if w + 1 < horizontal_num {
                    crate::pbd::grid::lemma_grid_bound(hn, vn, h + 1, w + 1);
                }
            }
            if w + 1 < horizontal_num {
                crate::pbd::grid::lemma_grid_bound(hn, vn, h as int, w + 1);
            }
        }
        let ghost before = constraints@;
        let mut group: [i32; 3] = [-1, -1, -1];
        if w + 1 < horizontal_num {
            group[0] = constraints.len() as i32;
            constraints.push(
                StretchConstraintObj { particle0: index0 as i32, particle1: (index0 + 1) as i32 },
            );
        }
        if h + 1 < vertical_num {
            group[1] = constraints.len() as i32;
            constraints.push(
                StretchConstraintObj {
                    particle0: index0 as i32,
                    particle1: (index0 + horizontal_num) as i32,
                },
            );
        }
        if w + 1 < horizontal_num && h + 1 < vertical_num {
            group[2] = constraints.len() as i32;
            constraints.push(
                StretchConstraintObj {
                    particle0: index0 as i32,
                    particle1: (index0 + horizontal_num + 1) as i32,
                },
            );
        }
        bundles.push(group);
        proof {
            assert(group@[0] == cloth_slot(hn, vn, index0 as int, 0));
            assert(group@[1] == cloth_slot(hn, vn, index0 as int, 1));
            assert(group@[2] == cloth_slot(hn, vn, index0 as int, 2));
            assert forall|i: int, p: int|
                0 <= i < constraints@.len() && #[trigger] constraints@[i].particles().contains(
                    p,
                ) implies 0 <= p < hn * vn by {
                if i < before.len() {
                    assert(constraints@[i] == before[i]);
                    assert(before[i].particles().contains(p));
                }
            }
            assert forall|p: int, s: int| 0 <= p < index0 + 1 && 0 <= s < 3 implies #[trigger] cloth_constraint_ok(
                hn,
                vn,
                constraints@,
                p,
                s,
            ) by {
                if p < index0 {
                    assert(cloth_constraint_ok(hn, vn, before, p, s));
                }
            }
        }
        index0 += 1;
    }
    proof {
        assert forall|k: int| 0 <= k < bundles@.len() implies bundle_valid(
            constraints@.len() as int,
            #[trigger] bundles@[k]@,
        ) by {
            assert forall|e: int| 0 <= e < 3 implies (#[trigger] bundles@[k]@[e]) == -1 || 0
                <= bundles@[k]@[e] < constraints@.len() by {
                assert(bundles@[k]@[e] == cloth_slot(hn, vn, k, e));
                assert(cloth_constraint_ok(hn, vn, constraints@, k, e));
            }
        }
    }
    (constraints, bundles)
}

/// The bending bundle of each particle of a cloth: its constraint along
/// the row, along the column and along the rising diagonal.
pub open spec fn bend_bundles(hn: int, vn: int) -> Seq<[i32; 3]> {
    Seq::new(
        (hn * vn) as nat,
        |p: int|
            [
                bend_slot(hn, vn, p, 0) as i32,
                bend_slot(hn, vn, p, 1) as i32,
                bend_slot(hn, vn, p, 2) as i32,
            ],
    )
}

/// Whether `bendings` are the bending constraints of a cloth of `hn` by
/// `vn` particles, numbered particle by particle and slot by slot.
pub open spec fn bendings_ok(hn: int, vn: int, bendings: Seq<BendingConstraintObj>) -> bool {
    &&& bendings.len() == bend_base(hn, vn, hn * vn)
    &&& forall|p: int, s: int|
        0 <= p < hn * vn && 0 <= s < 3 ==> #[trigger] bend_ok(hn, vn, bendings, p, s)
}

/// Builds the bending constraints of a cloth and the bundle of each particle.
pub fn cloth_bend_constraints(horizontal_num: usize, vertical_num: usize) -> (res: (
    Vec<BendingConstraintObj>,
    Vec<[i32; 3]>,
))
    requires
        4 * (horizontal_num * vertical_num) + horizontal_num + 1 <= i32::MAX,
    ensures
        bendings_ok(horizontal_num as int, vertical_num as int, res.0@),
        res.1@ == bend_bundles(horizontal_num as int, vertical_num as int),
        bundles_valid(res.0@.len() as int, res.1@),
        all_within(res.0@, horizontal_num * vertical_num),
{
    let ghost hn = horizontal_num as int;
    let ghost vn = vertical_num as int;
    let mut bendings: Vec<BendingConstraintObj> = Vec::new();
    let mut index_groups: Vec<[i32; 3]> = Vec::new();
    proof {
        if horizontal_num == 0 {
            assert(hn * vn == 0);
        }
    }
    let total = horizontal_num * vertical_num;
    let mut index0: usize = 0;
    while index0 < total
        invariant
            index0 <= total,
            total == hn * vn,
            hn == horizontal_num,
            vn == vertical_num,
            4 * total + hn + 1 <= i32::MAX,
            index_groups@.len() == index0,
            bendings@.len() == bend_base(hn, vn, index0 as int),
            bendings@.len() <= 3 * index0,
            all_within(bendings@, hn * vn),
            forall|p: int| 0 <= p < index0 ==> #[trigger] index_groups@[p] == bend_bundles(hn, vn)[p],
            forall|p: int, s: int|
                0 <= p < index0 && 0 <= s < 3 ==> #[trigger] bend_ok(hn, vn, bendings@, p, s),
        decreases total - index0,
    {
        let slots = push_bendings(horizontal_num, vertical_num, index0, &mut bendings);
        let a_group: [i32; 3] = [slots[0], slots[1], slots[2]];
        proof {
            assert(slots@[0] == bend_slot(hn, vn, index0 as int, 0));
            assert(slots@[1] == bend_slot(hn, vn, index0 as int, 1));
            assert(slots@[2] == bend_slot(hn, vn, index0 as int, 2));
            assert(a_group =~= bend_bundles(hn, vn)[index0 as int]);
        }
        index_groups.push(a_group);
        index0 += 1;
    }
    proof {
        assert(index_groups@ =~= bend_bundles(hn, vn));
        assert forall|k: int| 0 <= k < index_groups@.len() implies bundle_valid(
            bendings@.len() as int,
            #[trigger] index_groups@[k]@,
        ) by {
            assert forall|e: int| 0 <= e < 3 implies (#[trigger] index_groups@[k]@[e]) == -1 || 0
                <= index_groups@[k]@[e] < bendings@.len() by {
                assert(bend_ok(hn, vn, bendings@, k, e));
                assert(index_groups@[k] == bend_bundles(hn, vn)[k]);
            }
        }
    }
    (bendings, index_groups)
}

/// Builds the bending constraints of a cloth, colors the bundles of its
/// particles greedily in particle order, and lays the groups out for the
/// solver, each with the compute grid found for its length.
///
/// Within one group no two bundles touch a common particle.
pub fn cal_bend_constraints(horizontal_num: usize, vertical_num: usize) -> (res: (
    Vec<MeshColoringObj>,
    Vec<BendingConstraintObj>,
    Vec<[i32; 3]>,
))
    requires
        4 * (horizontal_num * vertical_num) + horizontal_num + 1 <= i32::MAX,
    ensures
        bendings_ok(horizontal_num as int, vertical_num as int, res.1@),
        all_within(res.1@, horizontal_num * vertical_num),
        res.2@ == concat(
            color_groups(res.1@, bend_bundles(horizontal_num as int, vertical_num as int)),
        ),
        res.2@.len() == horizontal_num * vertical_num,
        res.0@.len() == color_groups(
            res.1@,
            bend_bundles(horizontal_num as int, vertical_num as int),
        ).len(),
        forall|g: int|
            0 <= g < res.0@.len() ==> #[trigger] res.0@[g] == color_of(
                GridKind::Grid,
                color_groups(res.1@, bend_bundles(horizontal_num as int, vertical_num as int)),
                g,
            ),
        colors_conflict_free(res.0@, res.1@, res.2@),
{
    let (bendings, index_groups) = cloth_bend_constraints(horizontal_num, vertical_num);
    let bending_groups = greedy_color(bendings.as_slice(), &index_groups);
    proof {
        lemma_color_groups(bendings@, index_groups@);
    }
    let mesh_colorings = color_layout(GridKind::Grid, &bending_groups);
    let reorder_bendings = flatten_groups(&bending_groups);
    proof {
        lemma_greedy_layout(
            bendings@,
            index_groups@,
            GridKind::Grid,
            mesh_colorings@,
            reorder_bendings@,
        );
    }
    (mesh_colorings, bendings, reorder_bendings)
}

/// How heavy particle `p` of the cloth is: the two top corners are
/// pinned, the rest of the left, right and bottom rim is border, everything
/// else interior.
pub open spec fn cloth_mass(hn: int, vn: int, p: int) -> MassClass {
    let h = row_of(hn, p);
    let w = col_of(hn, p);
    if h == 0 && (w == 0 || w == hn - 1) {
        MassClass::Pinned
    } else if w == 0 || w == hn - 1 || h == vn - 1 {
        MassClass::Border
    } else {
        MassClass::Interior
    }
}

/// A cloth hung by its top corners, as far as integers describe it.
pub struct ClothParticles {
    pub mass: Vec<MassClass>,
    pub connect: Vec<[i32; 4]>,
    pub constraints: Vec<StretchConstraintObj>,
    pub mesh_coloring: Vec<MeshColoringObj>,
    pub stretch_constraints: Vec<[i32; 3]>,
    pub reorder_constraints: Vec<[i32; 3]>,
    pub bend_mesh_coloring: Vec<MeshColoringObj>,
    pub bend_constraint: Vec<BendingConstraintObj>,
    pub reorder_bendings: Vec<[i32; 3]>,
}

impl ClothParticles {
    /// Whether the cloth is the one of `hn` by `vn` particles.
    pub open spec fn is_cloth(&self, hn: int, vn: int) -> bool {
        &&& self.mass@.len() == hn * vn
        &&& forall|p: int| 0 <= p < hn * vn ==> #[trigger] self.mass@[p] == cloth_mass(hn, vn, p)
        &&& self.connect@.len() == hn * vn
        &&& forall|p: int, s: int|
            0 <= p < hn * vn && 0 <= s < 4 ==> (#[trigger] self.connect@[p]@[s]) == connected(
                hn,
                vn,
                p,
            )[s]
        &&& cloth_stretches_ok(hn, vn, self.constraints@, self.stretch_constraints@)
        &&& all_within(self.constraints@, hn * vn)
        &&& all_within(self.bend_constraint@, hn * vn)
        &&& self.reorder_constraints@ == concat(
            color_groups(self.constraints@, self.stretch_constraints@),
        )
        &&& self.mesh_coloring@.len() == color_groups(
            self.constraints@,
            self.stretch_constraints@,
        ).len()
        &&& forall|g: int|
            0 <= g < self.mesh_coloring@.len() ==> #[trigger] self.mesh_coloring@[g] == color_of(
                GridKind::Flat,
                color_groups(self.constraints@, self.stretch_constraints@),
                g,
            )
        &&& bend2_ok(hn, vn, self.bend_constraint@)
        &&& self.reorder_bendings@ == concat(bend2_groups(hn, vn))
        &&& self.bend_mesh_coloring@.len() == 6
        &&& forall|c: int|
            0 <= c < 6 ==> #[trigger] self.bend_mesh_coloring@[c] == color_of(
                GridKind::Flat,
                bend2_groups(hn, vn),
                c,
            )
    }
}

/// Builds a cloth of `horizontal_num` by `vertical_num` particles: the
/// weight class and the neighbours of each particle, its stretch
/// constraints with a greedy coloring, and its bending constraints in six
/// fixed colors.
///
/// In both colorings, the bundles of one color touch no common particle.
pub fn generate_cloth_particles(horizontal_num: usize, vertical_num: usize) -> (cloth: ClothParticles)
    requires
        1 <= horizontal_num,
        1 <= vertical_num,
        3 * (horizontal_num * vertical_num) + horizontal_num <= i32::MAX,
    ensures
        cloth.is_cloth(horizontal_num as int, vertical_num as int),
        colors_conflict_free(cloth.mesh_coloring@, cloth.constraints@, cloth.reorder_constraints@),
        colors_conflict_free(
            cloth.bend_mesh_coloring@,
            cloth.bend_constraint@,
            cloth.reorder_bendings@,
        ),
{
    let ghost hn = horizontal_num as int;
    let ghost vn = vertical_num as int;
    let total = horizontal_num * vertical_num;
    let mut mass: Vec<MassClass> = Vec::new();
    let mut index0: usize = 0;
    while index0 < total
        invariant
            index0 <= total,
            total == hn * vn,
            hn == horizontal_num,
            vn == vertical_num,
            1 <= hn,
            mass@.len() == index0,
            forall|p: int| 0 <= p < index0 ==> #[trigger] mass@[p] == cloth_mass(hn, vn, p),
        decreases total - index0,
    {
        let h = index0 / horizontal_num;
        let w = index0 % horizontal_num;
        proof {
            lemma_grid_split(hn, vn, index0 as int);
        }
        let class = if (h == 0 && w == 0) || (h == 0 && w == horizontal_num - 1) {
            MassClass::Pinned
        } else if w == 0 || w == horizontal_num - 1 || h == vertical_num - 1 {
            MassClass::Border
        } else {
            MassClass::Interior
        };
        mass.push(class);
        index0 += 1;
    }
    let connect = cal_connected_particles(horizontal_num, vertical_num);
    let (constraints, stretch_constraints) = cloth_stretch_constraints(
        horizontal_num,
        vertical_num,
    );
    let (mesh_coloring, reorder_constraints) = group_distance_constraints(
        constraints.as_slice(),
        &stretch_constraints,
    );
    let (bend_mesh_coloring, bend_constraint, reorder_bendings) = cal_bend_constraints2(
        horizontal_num,
        vertical_num,
    );
    ClothParticles {
        mass,
        connect,
        constraints,
        mesh_coloring,
        stretch_constraints,
        reorder_constraints,
        bend_mesh_coloring,
        bend_constraint,
        reorder_bendings,
    }
}

} // verus!
