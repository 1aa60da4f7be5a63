//! Bending constraints of a cloth in six fixed colors: along rows, along
//! columns and along diagonals, each kind split in two so that no two
//! constraints of a color touch.

use vstd::prelude::*;
use crate::pbd::coloring::{concat, lemma_concat_index, lemma_concat_len, prefix_len};
use crate::pbd::grid::{lemma_grid_bound, lemma_grid_coords, lemma_grid_split};
use crate::pbd::layout::{
    color_layout, color_of, flatten_groups, groups_view, lemma_layout_range, GridKind,
};
use crate::pbd::{
    all_within, bundle_particles, bundles_overlap, colors_conflict_free, BendingConstraintObj,
    MeshColoringObj, ParticleConstraint,
};

verus! {

/// The number of odd places that have a neighbour on both sides in a line
/// of `n` places: 1, 3, 5, ... up to `n - 2`.
pub open spec fn odd_places(n: int) -> int {
    (n - 1) / 2
}

/// The number of bending constraints along rows.
pub open spec fn row_bends(hn: int, vn: int) -> int {
    vn * odd_places(hn)
}

/// The number of bending constraints along columns.
pub open spec fn col_bends(hn: int, vn: int) -> int {
    hn * odd_places(vn)
}

/// The number of bending constraints along diagonals.
pub open spec fn diag_bends(hn: int, vn: int) -> int {
    odd_places(vn) * odd_places(hn)
}

/// The number of all bending constraints.
pub open spec fn all_bends(hn: int, vn: int) -> int {
    row_bends(hn, vn) + col_bends(hn, vn) + diag_bends(hn, vn)
}

/// Row and column of the middle particle of constraint `i`.
///
/// First come the constraints along rows, row by row, centred on the odd
/// columns; then those along columns, column by column, centred on the odd
/// rows; then those along diagonals, centred on odd rows and odd columns.
pub open spec fn bend2_center(hn: int, vn: int, i: int) -> (int, int) {
    let r = odd_places(hn);
    let rv = odd_places(vn);
    if i < row_bends(hn, vn) {
        (i / r, 2 * (i % r) + 1)
    } else if i < row_bends(hn, vn) + col_bends(hn, vn) {
        let j = i - row_bends(hn, vn);
        (2 * (j % rv) + 1, j / rv)
    } else {
        let j = i - row_bends(hn, vn) - col_bends(hn, vn);
        (2 * (j / r) + 1, 2 * (j % r) + 1)
    }
}

/// The step from the middle particle of constraint `i` to its neighbour
/// `b1`; the neighbour `b0` lies the same step the other way.
pub open spec fn bend2_step(hn: int, vn: int, i: int) -> (int, int) {
    if i < row_bends(hn, vn) {
        (0, 1)
    } else if i < row_bends(hn, vn) + col_bends(hn, vn) {
        (1, 0)
    } else {
        (-1, -1)
    }
}

/// Bending constraint `i` of the cloth.
pub open spec fn bend2_at(hn: int, vn: int, i: int) -> BendingConstraintObj {
    let c = bend2_center(hn, vn, i);
    let d = bend2_step(hn, vn, i);
    BendingConstraintObj {
        v: (c.0 * hn + c.1) as i32,
        b0: ((c.0 - d.0) * hn + (c.1 - d.1)) as i32,
        b1: ((c.0 + d.0) * hn + (c.1 + d.1)) as i32,
    }
}

/// The color of constraint `i`. Along a row, and along a column, the
/// constraints alternate between two colors; diagonal constraints alternate
/// from one odd row to the next.
pub open spec fn bend2_color(hn: int, vn: int, i: int) -> int {
    let r = odd_places(hn);
    let rv = odd_places(vn);
    if i < row_bends(hn, vn) {
        (i % r + 1) % 2
    } else if i < row_bends(hn, vn) + col_bends(hn, vn) {
        let j = i - row_bends(hn, vn);
        2 + (j % rv + 1) % 2
    } else {
        let j = i - row_bends(hn, vn) - col_bends(hn, vn);
        4 + (j / r) % 2
    }
}

/// The constraints below `n` of color `c`, in rising order, each as the
/// bundle that holds it alone.
pub open spec fn bend2_members(hn: int, vn: int, c: int, n: int) -> Seq<[i32; 3]>
    decreases n,
{
    if n <= 0 {
        Seq::empty()
    } else if bend2_color(hn, vn, n - 1) == c {
        bend2_members(hn, vn, c, n - 1).push([(n - 1) as i32, -1i32, -1i32])
    } else {
        bend2_members(hn, vn, c, n - 1)
    }
}

/// The six color groups.
pub open spec fn bend2_groups(hn: int, vn: int) -> Seq<Seq<[i32; 3]>> {
    Seq::new(6, |c: int| bend2_members(hn, vn, c, all_bends(hn, vn)))
}

/// The counts are not negative, and every constraint has one of six colors.
pub proof fn lemma_bend2_counts(hn: int, vn: int)
    requires
        1 <= hn,
        1 <= vn,
    ensures
        0 <= odd_places(hn) <= hn,
        0 <= odd_places(vn) <= vn,
        2 * odd_places(hn) + 1 <= hn,
        2 * odd_places(vn) + 1 <= vn,
        0 <= row_bends(hn, vn) <= hn * vn,
        0 <= col_bends(hn, vn) <= hn * vn,
        0 <= diag_bends(hn, vn) <= hn * vn,
{
    let r = odd_places(hn);
    let rv = odd_places(vn);
    assert(0 <= vn * r <= hn * vn) by (nonlinear_arith)
        requires
            0 <= r <= hn,
            0 <= vn,
    ;
    assert(0 <= hn * rv <= hn * vn) by (nonlinear_arith)
        requires
            0 <= rv <= vn,
            0 <= hn,
    ;
    assert(0 <= rv * r <= hn * vn) by (nonlinear_arith)
        requires
            0 <= rv <= vn,
            0 <= r <= hn,
    ;
}

/// Where constraint `i` sits: its middle particle has neighbours on both
/// sides along its step, all three inside the cloth.
pub proof fn lemma_bend2_inside(hn: int, vn: int, i: int)
    requires
        1 <= hn,
        1 <= vn,
        0 <= i < all_bends(hn, vn),
    ensures
        0 <= bend2_color(hn, vn, i) < 6,
        1 <= bend2_center(hn, vn, i).0 + bend2_step(hn, vn, i).0 + 1 <= vn,
        1 <= bend2_center(hn, vn, i).0 - bend2_step(hn, vn, i).0 + 1 <= vn,
        0 <= bend2_center(hn, vn, i).0 < vn,
        1 <= bend2_center(hn, vn, i).1 + bend2_step(hn, vn, i).1 + 1 <= hn,
        1 <= bend2_center(hn, vn, i).1 - bend2_step(hn, vn, i).1 + 1 <= hn,
        0 <= bend2_center(hn, vn, i).1 < hn,
{
    let r = odd_places(hn);
    let rv = odd_places(vn);
    lemma_bend2_counts(hn, vn);
    if i < row_bends(hn, vn) {
        assert(r > 0) by (nonlinear_arith)
            requires
                0 <= i < vn * r,
                r >= 0,
                vn >= 0,
        ;
        assert(vn * r == r * vn) by (nonlinear_arith);
        lemma_grid_split(r, vn, i);
    } else if i < row_bends(hn, vn) + col_bends(hn, vn) {
        let j = i - row_bends(hn, vn);
        assert(rv > 0) by (nonlinear_arith)
            requires
                0 <= j < hn * rv,
                rv >= 0,
                hn >= 0,
        ;
        assert(hn * rv == rv * hn) by (nonlinear_arith);
        lemma_grid_split(rv, hn, j);
    } else {
        let j = i - row_bends(hn, vn) - col_bends(hn, vn);
        assert(r > 0) by (nonlinear_arith)
            requires
                0 <= j < rv * r,
                r >= 0,
                rv >= 0,
        ;
        assert(rv * r == r * rv) by (nonlinear_arith);
        lemma_grid_split(r, rv, j);
    }
}

/// The three particles of constraint `i`, by row and column.
pub open spec fn bend2_cell(hn: int, vn: int, i: int, t: int) -> (int, int) {
    (
        bend2_center(hn, vn, i).0 + t * bend2_step(hn, vn, i).0,
        bend2_center(hn, vn, i).1 + t * bend2_step(hn, vn, i).1,
    )
}

/// Two different constraints of one color have no particle in common.
pub proof fn lemma_bend2_disjoint(hn: int, vn: int, i: int, j: int)
    requires
        1 <= hn,
        1 <= vn,
        hn * vn <= i32::MAX,
        0 <= i < all_bends(hn, vn),
        0 <= j < all_bends(hn, vn),
        i != j,
        bend2_color(hn, vn, i) == bend2_color(hn, vn, j),
    ensures
        bend2_at(hn, vn, i).particles().disjoint(bend2_at(hn, vn, j).particles()),
        !bend2_at(hn, vn, i).shares_particle(bend2_at(hn, vn, j)),
{
    let r = odd_places(hn);
    let rv = odd_places(vn);
    lemma_bend2_counts(hn, vn);
    lemma_bend2_inside(hn, vn, i);
    lemma_bend2_inside(hn, vn, j);
    let ci = bend2_center(hn, vn, i);
    let cj = bend2_center(hn, vn, j);
    let di = bend2_step(hn, vn, i);
    let dj = bend2_step(hn, vn, j);
    // Row and column of each of the six particles.
    lemma_grid_coords(hn, ci.0, ci.1);
    lemma_grid_coords(hn, ci.0 - di.0, ci.1 - di.1);
    lemma_grid_coords(hn, ci.0 + di.0, ci.1 + di.1);
    lemma_grid_coords(hn, cj.0, cj.1);
    lemma_grid_coords(hn, cj.0 - dj.0, cj.1 - dj.1);
    lemma_grid_coords(hn, cj.0 + dj.0, cj.1 + dj.1);
    lemma_grid_bound(hn, vn, ci.0, ci.1);
    lemma_grid_bound(hn, vn, ci.0 - di.0, ci.1 - di.1);
    lemma_grid_bound(hn, vn, ci.0 + di.0, ci.1 + di.1);
    lemma_grid_bound(hn, vn, cj.0, cj.1);
    lemma_grid_bound(hn, vn, cj.0 - dj.0, cj.1 - dj.1);
    lemma_grid_bound(hn, vn, cj.0 + dj.0, cj.1 + dj.1);
    // The centres differ, since the constraint numbers do.
    if i < row_bends(hn, vn) {
        assert(r > 0) by (nonlinear_arith)
            requires
                0 <= i < vn * r,
                r >= 0,
                vn >= 0,
        ;
        vstd::arithmetic::div_mod::lemma_fundamental_div_mod(i, r);
        vstd::arithmetic::div_mod::lemma_fundamental_div_mod(j, r);
    } else if i < row_bends(hn, vn) + col_bends(hn, vn) {
        let ii = i - row_bends(hn, vn);
        let jj = j - row_bends(hn, vn);
        assert(rv > 0) by (nonlinear_arith)
            requires
                0 <= ii < hn * rv,
                rv >= 0,
                hn >= 0,
        ;
        vstd::arithmetic::div_mod::lemma_fundamental_div_mod(ii, rv);
        vstd::arithmetic::div_mod::lemma_fundamental_div_mod(jj, rv);
    } else {
        let ii = i - row_bends(hn, vn) - col_bends(hn, vn);
        let jj = j - row_bends(hn, vn) - col_bends(hn, vn);
        assert(r > 0) by (nonlinear_arith)
            requires
                0 <= ii < rv * r,
                r >= 0,
                rv >= 0,
        ;
        vstd::arithmetic::div_mod::lemma_fundamental_div_mod(ii, r);
        vstd::arithmetic::div_mod::lemma_fundamental_div_mod(jj, r);
    }
    let a = bend2_at(hn, vn, i);
    let b = bend2_at(hn, vn, j);
    assert(!a.shares_particle(b));
    crate::pbd::lemma_bending_shares_iff_overlap(a, b);
}

/// The members of a color are constraints of that color, in rising
/// order, each alone in its bundle.
pub proof fn lemma_bend2_members(hn: int, vn: int, c: int, n: int)
    requires
        0 <= n <= i32::MAX,
    ensures
        bend2_members(hn, vn, c, n).len() <= n,
        forall|k: int|
            0 <= k < bend2_members(hn, vn, c, n).len() ==> 0 <= (#[trigger] bend2_members(
                hn,
                vn,
                c,
                n,
            )[k])@[0] < n && bend2_color(hn, vn, bend2_members(hn, vn, c, n)[k]@[0] as int) == c
                && bend2_members(hn, vn, c, n)[k]@[1] == -1 && bend2_members(
                hn,
                vn,
                c,
                n,
            )[k]@[2] == -1,
        forall|j: int, k: int|
            0 <= j < k < bend2_members(hn, vn, c, n).len() ==> (#[trigger] bend2_members(
                hn,
                vn,
                c,
                n,
            )[j])@[0] < (#[trigger] bend2_members(hn, vn, c, n)[k])@[0],
    decreases n,
{
    if n > 0 {
        lemma_bend2_members(hn, vn, c, n - 1);
    }
}

/// Every constraint below `n` has exactly one of the six colors.
pub proof fn lemma_bend2_total(hn: int, vn: int, n: int)
    requires
        1 <= hn,
        1 <= vn,
        0 <= n <= all_bends(hn, vn),
    ensures
        bend2_members(hn, vn, 0, n).len() + bend2_members(hn, vn, 1, n).len() + bend2_members(
            hn,
            vn,
            2,
            n,
        ).len() + bend2_members(hn, vn, 3, n).len() + bend2_members(hn, vn, 4, n).len()
            + bend2_members(hn, vn, 5, n).len() == n,
    decreases n,
{
    if n > 0 {
        lemma_bend2_total(hn, vn, n - 1);
        lemma_bend2_inside(hn, vn, n - 1);
    }
}

/// Puts constraint number `index` into the group of color `color`.
fn push_member(
    groups: &mut Vec<Vec<[i32; 3]>>,
    color: usize,
    index: usize,
    Ghost(hn): Ghost<int>,
    Ghost(vn): Ghost<int>,
)
    requires
        old(groups)@.len() == 6,
        color < 6,
        index < i32::MAX,
        color == bend2_color(hn, vn, index as int),
        forall|c: int|
            0 <= c < 6 ==> (#[trigger] old(groups)@[c])@ == bend2_members(
                hn,
                vn,
                c,
                index as int,
            ),
    ensures
        final(groups)@.len() == 6,
        forall|c: int|
            0 <= c < 6 ==> (#[trigger] final(groups)@[c])@ == bend2_members(hn, vn, c, index + 1),
{
    let ghost pre = groups@;
    groups[color].push([index as i32, -1, -1]);
    proof {
        assert forall|c: int| 0 <= c < 6 implies (#[trigger] groups@[c])@ == bend2_members(
            hn,
            vn,
            c,
            index + 1,
        ) by {
            assert(pre[c]@ == bend2_members(hn, vn, c, index as int));
            if c == color {
                assert(groups@[c]@ =~= bend2_members(hn, vn, c, index + 1));
            }
        }
    }
}

/// Whether `bendings` are the bending constraints of the six-color scheme.
pub open spec fn bend2_ok(hn: int, vn: int, bendings: Seq<BendingConstraintObj>) -> bool {
    &&& bendings.len() == all_bends(hn, vn)
    &&& forall|i: int| 0 <= i < bendings.len() ==> #[trigger] bendings[i] == bend2_at(hn, vn, i)
}

/// A bundle that holds one constraint touches that constraint's particles.
pub proof fn lemma_single_bundle(bendings: Seq<BendingConstraintObj>, x: [i32; 3])
    requires
        0 <= x@[0] < bendings.len(),
        x@[1] == -1,
        x@[2] == -1,
    ensures
        bundle_particles(bendings, x@) == bendings[x@[0] as int].particles(),
{
    let f = bundle_particles(bendings, x@);
    let g = bendings[x@[0] as int].particles();
    assert forall|p: int| f.contains(p) <==> g.contains(p) by {
        if g.contains(p) {
            assert(x@[0] != -1 && (#[trigger] bendings[x@[0] as int]).particles().contains(p));
        }
    }
    assert(f =~= g);
}

/// The six colors, laid out, are free of conflicts.
pub proof fn lemma_bend2_layout(
    hn: int,
    vn: int,
    colors: Seq<MeshColoringObj>,
    bendings: Seq<BendingConstraintObj>,
    reorder: Seq<[i32; 3]>,
)
    requires
        1 <= hn,
        1 <= vn,
        3 * (hn * vn) <= i32::MAX,
        bend2_ok(hn, vn, bendings),
        reorder == concat(bend2_groups(hn, vn)),
        colors.len() == 6,
        forall|c: int|
            0 <= c < 6 ==> #[trigger] colors[c] == color_of(
                GridKind::Flat,
                bend2_groups(hn, vn),
                c,
            ),
    ensures
        prefix_len(bend2_groups(hn, vn), 6) == all_bends(hn, vn),
        reorder.len() == all_bends(hn, vn),
        colors_conflict_free(colors, bendings, reorder),
{
    let groups = bend2_groups(hn, vn);
    lemma_bend2_counts(hn, vn);
    lemma_bend2_total(hn, vn, all_bends(hn, vn));
    reveal_with_fuel(prefix_len, 7);
    assert(prefix_len(groups, 6) == all_bends(hn, vn));
    lemma_concat_len(groups, 6);
    assert forall|c: int, a: int, b: int|
        0 <= c < colors.len() && #[trigger] colors[c].holds(a) && #[trigger] colors[c].holds(b)
            && a != b implies 0 <= a < reorder.len() && 0 <= b < reorder.len()
        && !bundles_overlap(bendings, reorder[a]@, reorder[b]@) by {
        lemma_layout_range(GridKind::Flat, groups, c);
        let base = prefix_len(groups, c);
        lemma_concat_index(groups, 6, c, a - base);
        lemma_concat_index(groups, 6, c, b - base);
        lemma_bend2_members(hn, vn, c, all_bends(hn, vn));
        let ia = reorder[a]@[0] as int;
        let ib = reorder[b]@[0] as int;
        assert(reorder[a] == groups[c][a - base]);
        assert(reorder[b] == groups[c][b - base]);
        assert(ia != ib);
        lemma_bend2_disjoint(hn, vn, ia, ib);
        lemma_single_bundle(bendings, reorder[a]);
        lemma_single_bundle(bendings, reorder[b]);
    }
}

/// Every bending constraint of the six-color scheme ties three particles
/// of the cloth.
pub proof fn lemma_bend2_within(hn: int, vn: int, bendings: Seq<BendingConstraintObj>)
    requires
        1 <= hn,
        1 <= vn,
        hn * vn <= i32::MAX,
        bend2_ok(hn, vn, bendings),
    ensures
        all_within(bendings, hn * vn),
{
    assert forall|i: int, p: int|
        0 <= i < bendings.len() && #[trigger] bendings[i].particles().contains(p) implies 0 <= p
        < hn * vn by {
        lemma_bend2_inside(hn, vn, i);
        let c = bend2_center(hn, vn, i);
        let d = bend2_step(hn, vn, i);
        lemma_grid_bound(hn, vn, c.0, c.1);
        lemma_grid_bound(hn, vn, c.0 - d.0, c.1 - d.1);
        lemma_grid_bound(hn, vn, c.0 + d.0, c.1 + d.1);
        assert(bendings[i] == bend2_at(hn, vn, i));
    }
}

/// Builds the bending constraints of a cloth of `horizontal_num` by
/// `vertical_num` particles in six colors, and lays the colors out for the
/// solver.
///
/// Within one color no two constraints touch a common particle.
pub fn cal_bend_constraints2(horizontal_num: usize, vertical_num: usize) -> (res: (
    Vec<MeshColoringObj>,
    Vec<BendingConstraintObj>,
    Vec<[i32; 3]>,
))
    requires
        1 <= horizontal_num,
        1 <= vertical_num,
        3 * (horizontal_num * vertical_num) <= i32::MAX,
    ensures
        bend2_ok(horizontal_num as int, vertical_num as int, res.1@),
        all_within(res.1@, horizontal_num * vertical_num),
        res.2@ == concat(bend2_groups(horizontal_num as int, vertical_num as int)),
        res.2@.len() == res.1@.len(),
        res.0@.len() == 6,
        forall|c: int|
            0 <= c < 6 ==> #[trigger] res.0@[c] == color_of(
                GridKind::Flat,
                bend2_groups(horizontal_num as int, vertical_num as int),
                c,
            ),
        colors_conflict_free(res.0@, res.1@, res.2@),
{
    let ghost hn = horizontal_num as int;
    let ghost vn = vertical_num as int;
    let mut bendings: Vec<BendingConstraintObj> = Vec::new();
    let mut four_groups: Vec<Vec<[i32; 3]>> = Vec::new();
    let mut c: usize = 0;
    while c < 6
        invariant
            c <= 6,
            four_groups@.len() == c,
            forall|d: int| 0 <= d < c ==> (#[trigger] four_groups@[d])@ == bend2_members(hn, vn, d, 0),
        decreases 6 - c,
    {
        four_groups.push(Vec::new());
        c += 1;
    }
    let r = (horizontal_num - 1) / 2;
    let rv = (vertical_num - 1) / 2;
    proof {
        lemma_bend2_counts(hn, vn);
        assert(0 * r == 0);
    }
    // Along rows.
    let mut h: usize = 0;
    while h < vertical_num
        invariant
            h <= vertical_num,
            hn == horizontal_num,
            vn == vertical_num,
            1 <= hn,
            1 <= vn,
            3 * (hn * vn) <= i32::MAX,
            r == odd_places(hn),
            rv == odd_places(vn),
            four_groups@.len() == 6,
            bendings@.len() == h * r,
            bendings@.len() <= row_bends(hn, vn),
            forall|i: int| 0 <= i < bendings@.len() ==> #[trigger] bendings@[i] == bend2_at(hn, vn, i),
            forall|d: int|
                0 <= d < 6 ==> (#[trigger] four_groups@[d])@ == bend2_members(
                    hn,
                    vn,
                    d,
                    bendings@.len() as int,
                ),
        decreases vertical_num - h,
    {
        let mut k: usize = 0;
        while k < r
            invariant
                h < vertical_num,
                k <= r,
                hn == horizontal_num,
                vn == vertical_num,
                1 <= hn,
                1 <= vn,
                3 * (hn * vn) <= i32::MAX,
                r == odd_places(hn),
                rv == odd_places(vn),
                four_groups@.len() == 6,
                bendings@.len() == h * r + k,
                forall|i: int|
                    0 <= i < bendings@.len() ==> #[trigger] bendings@[i] == bend2_at(hn, vn, i),
                forall|d: int|
                    0 <= d < 6 ==> (#[trigger] four_groups@[d])@ == bend2_members(
                        hn,
                        vn,
                        d,
                        bendings@.len() as int,
                    ),
            decreases r - k,
        {
            let ghost i = bendings@.len() as int;
            proof {
                lemma_bend2_counts(hn, vn);
                lemma_grid_coords(r as int, h as int, k as int);
                lemma_grid_bound(r as int, vn, h as int, k as int);
                assert(r * vn == vn * r) by (nonlinear_arith);
                lemma_grid_bound(hn, vn, h as int, 2 * k + 2);
            }
            let v = (h * horizontal_num + (2 * k + 1)) as i32;
            let index = bendings.len();
            push_member(&mut four_groups, (k + 1) % 2, index, Ghost(hn), Ghost(vn));
            bendings.push(BendingConstraintObj { v, b0: v - 1, b1: v + 1 });
            k += 1;
        }
        proof {
            assert((h + 1) * r == h * r + r) by (nonlinear_arith);
            assert((h + 1) * r <= vn * r) by (nonlinear_arith)
                requires
                    h + 1 <= vn,
                    r >= 0,
            ;
        }
        h += 1;
    }
    let ghost rows = row_bends(hn, vn);
    proof {
        assert(vn * r == rows);
        assert(0 * rv == 0);
    }
    // Along columns.
    let mut w: usize = 0;
    while w < horizontal_num
        invariant
            w <= horizontal_num,
            hn == horizontal_num,
            vn == vertical_num,
            1 <= hn,
            1 <= vn,
            3 * (hn * vn) <= i32::MAX,
            r == odd_places(hn),
            rv == odd_places(vn),
            rows == row_bends(hn, vn),
            four_groups@.len() == 6,
            bendings@.len() == rows + w * rv,
            bendings@.len() <= rows + col_bends(hn, vn),
            forall|i: int| 0 <= i < bendings@.len() ==> #[trigger] bendings@[i] == bend2_at(hn, vn, i),
            forall|d: int|
                0 <= d < 6 ==> (#[trigger] four_groups@[d])@ == bend2_members(
                    hn,
                    vn,
                    d,
                    bendings@.len() as int,
                ),
        decreases horizontal_num - w,
    {
        let mut k: usize = 0;
        while k < rv
            invariant
                w < horizontal_num,
                k <= rv,
                hn == horizontal_num,
                vn == vertical_num,
                1 <= hn,
                1 <= vn,
                3 * (hn * vn) <= i32::MAX,
                r == odd_places(hn),
                rv == odd_places(vn),
                rows == row_bends(hn, vn),
                four_groups@.len() == 6,
                bendings@.len() == rows + w * rv + k,
                forall|i: int|
                    0 <= i < bendings@.len() ==> #[trigger] bendings@[i] == bend2_at(hn, vn, i),
                forall|d: int|
                    0 <= d < 6 ==> (#[trigger] four_groups@[d])@ == bend2_members(
                        hn,
                        vn,
                        d,
                        bendings@.len() as int,
                    ),
            decreases rv - k,
        {
            proof {
                lemma_bend2_counts(hn, vn);
                lemma_grid_coords(rv as int, w as int, k as int);
                lemma_grid_bound(rv as int, hn, w as int, k as int);
                assert(rv * hn == hn * rv) by (nonlinear_arith);
                lemma_grid_bound(hn, vn, 2 * k + 2, w as int);
                lemma_grid_bound(hn, vn, 2 * k as int, w as int);
                assert((2 * k + 1 - 1) * hn + (w - 0) == (2 * k + 1) * hn + w - hn)
                    by (nonlinear_arith);
                assert((2 * k + 1 + 1) * hn + (w + 0) == (2 * k + 1) * hn + w + hn)
                    by (nonlinear_arith);
                assert(2 * k * hn == (2 * k) * hn);
            }
            let v = ((2 * k + 1) * horizontal_num + w) as i32;
            let n = horizontal_num as i32;
            let index = bendings.len();
            push_member(&mut four_groups, 2 + (k + 1) % 2, index, Ghost(hn), Ghost(vn));
            bendings.push(BendingConstraintObj { v, b0: v - n, b1: v + n });
            k += 1;
        }
        proof {
            assert((w + 1) * rv == w * rv + rv) by (nonlinear_arith);
            assert((w + 1) * rv <= hn * rv) by (nonlinear_arith)
                requires
                    w + 1 <= hn,
                    rv >= 0,
            ;
        }
        w += 1;
    }
    let ghost cols = col_bends(hn, vn);
    proof {
        assert(hn * rv == cols);
        assert(0 * r == 0);
    }
    // Along diagonals.
    let mut a: usize = 0;
    while a < rv
        invariant
            a <= rv,
            hn == horizontal_num,
            vn == vertical_num,
            1 <= hn,
            1 <= vn,
            3 * (hn * vn) <= i32::MAX,
            r == odd_places(hn),
            rv == odd_places(vn),
            rows == row_bends(hn, vn),
            cols == col_bends(hn, vn),
            four_groups@.len() == 6,
            bendings@.len() == rows + cols + a * r,
            bendings@.len() <= rows + cols + diag_bends(hn, vn),
            forall|i: int| 0 <= i < bendings@.len() ==> #[trigger] bendings@[i] == bend2_at(hn, vn, i),
            forall|d: int|
                0 <= d < 6 ==> (#[trigger] four_groups@[d])@ == bend2_members(
                    hn,
                    vn,
                    d,
                    bendings@.len() as int,
                ),
        decreases rv - a,
    {
        let mut b: usize = 0;
        while b < r
            invariant
                a < rv,
                b <= r,
                hn == horizontal_num,
                vn == vertical_num,
                1 <= hn,
                1 <= vn,
                3 * (hn * vn) <= i32::MAX,
                r == odd_places(hn),
                rv == odd_places(vn),
                rows == row_bends(hn, vn),
                cols == col_bends(hn, vn),
                four_groups@.len() == 6,
                bendings@.len() == rows + cols + a * r + b,
                forall|i: int|
                    0 <= i < bendings@.len() ==> #[trigger] bendings@[i] == bend2_at(hn, vn, i),
                forall|d: int|
                    0 <= d < 6 ==> (#[trigger] four_groups@[d])@ == bend2_members(
                        hn,
                        vn,
                        d,
                        bendings@.len() as int,
                    ),
            decreases r - b,
        {
            proof {
                lemma_bend2_counts(hn, vn);
                lemma_grid_coords(r as int, a as int, b as int);
                lemma_grid_bound(r as int, rv as int, a as int, b as int);
                assert(r * rv == rv * r) by (nonlinear_arith);
                lemma_grid_bound(hn, vn, 2 * a + 2, 2 * b + 2);
                lemma_grid_bound(hn, vn, 2 * a as int, 2 * b as int);
                assert((2 * a + 1 + 1) * hn + (2 * b + 1 + 1) == (2 * a + 1) * hn + (2 * b + 1) + 1
                    + hn) by (nonlinear_arith);
                assert((2 * a + 1 - 1) * hn + (2 * b + 1 - 1) == (2 * a + 1) * hn + (2 * b + 1) - 1
                    - hn) by (nonlinear_arith);
            }
            let v = ((2 * a + 1) * horizontal_num + (2 * b + 1)) as i32;
            let n = horizontal_num as i32;
            let index = bendings.len();
            push_member(&mut four_groups, 4 + a % 2, index, Ghost(hn), Ghost(vn));
            bendings.push(BendingConstraintObj { v, b0: v + 1 + n, b1: v - 1 - n });
            b += 1;
        }
        proof {
            assert((a + 1) * r == a * r + r) by (nonlinear_arith);
            assert((a + 1) * r <= rv * r) by (nonlinear_arith)
                requires
                    a + 1 <= rv,
                    r >= 0,
            ;
        }
        a += 1;
    }
    proof {
        assert(rv * r == diag_bends(hn, vn));
        assert(bendings@.len() == all_bends(hn, vn));
        assert(groups_view(four_groups@) =~= bend2_groups(hn, vn));
        lemma_bend2_total(hn, vn, all_bends(hn, vn));
        reveal_with_fuel(prefix_len, 7);
    }
    let mesh_colorings = color_layout(GridKind::Flat, &four_groups);
    let reorder_bendings = flatten_groups(&four_groups);
    proof {
        lemma_bend2_layout(hn, vn, mesh_colorings@, bendings@, reorder_bendings@);
        lemma_bend2_within(hn, vn, bendings@);
    }
    (mesh_colorings, bendings, reorder_bendings)
}

} // verus!
