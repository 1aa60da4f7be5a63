//! Particles laid out as a grid, numbered row by row.

use vstd::prelude::*;
use crate::pbd::{all_within, BendingConstraintObj, ParticleConstraint};

verus! {

/// The row of particle `p` in a grid `hn` wide.
pub open spec fn row_of(hn: int, p: int) -> int {
    p / hn
}

/// The column of particle `p` in a grid `hn` wide.
pub open spec fn col_of(hn: int, p: int) -> int {
    p % hn
}

/// Row and column of the particle numbered `h * hn + w`.
pub proof fn lemma_grid_coords(hn: int, h: int, w: int)
    requires
        0 <= w < hn,
        0 <= h,
    ensures
        row_of(hn, h * hn + w) == h,
        col_of(hn, h * hn + w) == w,
        h * hn + w >= 0,
{
    vstd::arithmetic::div_mod::lemma_fundamental_div_mod_converse(h * hn + w, hn, h, w);
    assert(h * hn == hn * h) by (nonlinear_arith);
    assert(h * hn >= 0) by (nonlinear_arith)
        requires
            h >= 0,
            hn > 0,
    ;
}

/// A particle number is its row times the width plus its column, and lies
/// in the grid exactly when its row does.
pub proof fn lemma_grid_split(hn: int, vn: int, p: int)
    requires
        0 < hn,
        0 <= vn,
        0 <= p < hn * vn,
    ensures
        p == row_of(hn, p) * hn + col_of(hn, p),
        0 <= col_of(hn, p) < hn,
        0 <= row_of(hn, p) < vn,
{
    vstd::arithmetic::div_mod::lemma_fundamental_div_mod(p, hn);
    vstd::arithmetic::div_mod::lemma_mod_bound(p, hn);
    let h = p / hn;
    let w = p % hn;
    assert(hn * h == h * hn) by (nonlinear_arith);
    assert(h >= 0) by (nonlinear_arith)
        requires
            h * hn + w >= 0,
            0 <= w < hn,
    ;
    assert(h < vn) by (nonlinear_arith)
        requires
            h * hn + w < hn * vn,
            0 <= w < hn,
            0 <= vn,
    ;
}

/// The last particle of a grid bounds all particle numbers in it.
pub proof fn lemma_grid_bound(hn: int, vn: int, h: int, w: int)
    requires
        0 <= w < hn,
        0 <= h < vn,
    ensures
        0 <= h * hn + w < hn * vn,
{
    assert(h * hn + w < hn * vn) by (nonlinear_arith)
        requires
            0 <= w < hn,
            0 <= h < vn,
    ;
    assert(h * hn >= 0) by (nonlinear_arith)
        requires
            h >= 0,
            hn > 0,
    ;
}

/// How heavy a particle is, by where it sits in the cloth.
#[derive(Clone, Copy, Debug, PartialEq, Eq, Structural)]
pub enum MassClass {
    /// Immovable: inverse mass 0.
    Pinned,
    /// On the rim, where two triangles meet.
    Border,
    /// Inside the cloth.
    Interior,
}

/// The four particles whose positions give the normal at particle `p`, as a
/// walk around it. In the interior: above, right, below, left. On an edge
/// the missing side is skipped and a neighbour repeated; in a corner the two
/// neighbours alternate.
pub open spec fn connected(hn: int, vn: int, p: int) -> Seq<int> {
    let h = row_of(hn, p);
    let w = col_of(hn, p);
    let up = p - hn;
    let down = p + hn;
    let left = p - 1;
    let right = p + 1;
    if h == 0 {
        if w == 0 {
            seq![right, down, right, down]
        } else if w == hn - 1 {
            seq![down, left, down, left]
        } else {
            seq![right, down, down, left]
        }
    } else if h == vn - 1 {
        if w == 0 {
            seq![up, right, up, right]
        } else if w == hn - 1 {
            seq![left, up, left, up]
        } else {
            seq![left, up, up, right]
        }
    } else {
        if w == 0 {
            seq![up, right, right, down]
        } else if w == hn - 1 {
            seq![down, left, left, up]
        } else {
            seq![up, right, down, left]
        }
    }
}

/// The connectivity table of a cloth `horizontal_num` wide and
/// `vertical_num` high: for each particle, its four neighbours for normals.
pub fn cal_connected_particles(horizontal_num: usize, vertical_num: usize) -> (connect: Vec<
    [i32; 4],
>)
    requires
        horizontal_num * vertical_num + horizontal_num <= i32::MAX,
    ensures
        connect@.len() == horizontal_num * vertical_num,
        forall|p: int, s: int|
            0 <= p < connect@.len() && 0 <= s < 4 ==> (#[trigger] connect@[p]@[s]) == connected(
                horizontal_num as int,
                vertical_num as int,
                p,
            )[s],
{
    let mut connect: Vec<[i32; 4]> = Vec::new();
    if horizontal_num == 0 {
        assert(horizontal_num * vertical_num == 0);
        return connect;
    }
    let hn = horizontal_num as i32;
    assert(horizontal_num * vertical_num <= i32::MAX);
    let total = horizontal_num * vertical_num;
    let mut index0: usize = 0;
    while index0 < total
        invariant
            index0 <= total,
            total == horizontal_num * vertical_num,
            hn == horizontal_num,
            hn > 0,
            horizontal_num * vertical_num + horizontal_num <= i32::MAX,
            connect@.len() == index0,
            forall|p: int, s: int|
                0 <= p < index0 && 0 <= s < 4 ==> (#[trigger] connect@[p]@[s]) == connected(
                    horizontal_num as int,
                    vertical_num as int,
                    p,
                )[s],
        decreases total - index0,
    {
        let h = index0 / horizontal_num;
        let w = index0 % horizontal_num;
        proof {
            lemma_grid_split(horizontal_num as int, vertical_num as int, index0 as int);
        }
        let p = index0 as i32;
        let entry: [i32; 4] = if h == 0 {
            if w == 0 {
                [p + 1, p + hn, p + 1, p + hn]
            } else if w == horizontal_num - 1 {
                [p + hn, p - 1, p + hn, p - 1]
            } else {
                [p + 1, p + hn, p + hn, p - 1]
            }
        } else if h == vertical_num - 1 {
            if w == 0 {
                [p - hn, p + 1, p - hn, p + 1]
            } else if w == horizontal_num - 1 {
                [p - 1, p - hn, p - 1, p - hn]
            } else {
                [p - 1, p - hn, p - hn, p + 1]
            }
        } else {
            if w == 0 {
                [p - hn, p + 1, p + 1, p + hn]
            } else if w == horizontal_num - 1 {
                [p + hn, p - 1, p - 1, p - hn]
            } else {
                [p - hn, p + 1, p + hn, p - 1]
            }
        };
        connect.push(entry);
        index0 += 1;
    }
    connect
}

/// Whether particle `p` has a bending constraint in slot `s`: along its
/// row (0), along its column (1), along the rising diagonal (2).
pub open spec fn bend_used(hn: int, vn: int, p: int, s: int) -> bool {
    let across = 0 < col_of(hn, p) && col_of(hn, p) + 1 < hn;
    let down = 0 < row_of(hn, p) && row_of(hn, p) + 1 < vn;
    if s == 0 {
        across
    } else if s == 1 {
        down
    } else {
        s == 2 && across && down
    }
}

/// The bending constraint in slot `s` of particle `p`.
pub open spec fn bend_at(hn: int, p: int, s: int) -> BendingConstraintObj {
    if s == 0 {
        BendingConstraintObj { v: p as i32, b0: (p - 1) as i32, b1: (p + 1) as i32 }
    } else if s == 1 {
        BendingConstraintObj { v: p as i32, b0: (p - hn) as i32, b1: (p + hn) as i32 }
    } else {
        BendingConstraintObj { v: p as i32, b0: (p + 1 - hn) as i32, b1: (p - 1 + hn) as i32 }
    }
}

/// The number of bending slots below `s` that particle `p` uses.
pub open spec fn bend_before(hn: int, vn: int, p: int, s: int) -> int
    decreases s,
{
    if s <= 0 {
        0
    } else {
        bend_before(hn, vn, p, s - 1) + if bend_used(hn, vn, p, s - 1) {
            1int
        } else {
            0int
        }
    }
}

/// The number of bending constraints of the particles before `p`.
pub open spec fn bend_base(hn: int, vn: int, p: int) -> int
    decreases p,
{
    if p <= 0 {
        0
    } else {
        bend_base(hn, vn, p - 1) + bend_before(hn, vn, p - 1, 3)
    }
}

/// What bending slot `s` of particle `p` holds. The fourth slot is never used.
pub open spec fn bend_slot(hn: int, vn: int, p: int, s: int) -> int {
    if s < 3 && bend_used(hn, vn, p, s) {
        bend_base(hn, vn, p) + bend_before(hn, vn, p, s)
    } else {
        -1
    }
}

/// Whether bending slot `s` of particle `p`, if used, names the bending
/// constraint of that slot.
pub open spec fn bend_ok(
    hn: int,
    vn: int,
    bendings: Seq<BendingConstraintObj>,
    p: int,
    s: int,
) -> bool {
    bend_used(hn, vn, p, s) ==> 0 <= bend_slot(hn, vn, p, s) < bendings.len()
        && bendings[bend_slot(hn, vn, p, s)] == bend_at(hn, p, s)
}

/// Adds the bending constraints of particle `index0` and returns its slots.
pub(crate) fn push_bendings(
    horizontal_num: usize,
    vertical_num: usize,
    index0: usize,
    bending_constraints: &mut Vec<BendingConstraintObj>,
) -> (slots: [i32; 4])
    requires
        index0 < horizontal_num * vertical_num,
        4 * (horizontal_num * vertical_num) + horizontal_num + 1 <= i32::MAX,
        old(bending_constraints)@.len() == bend_base(
            horizontal_num as int,
            vertical_num as int,
            index0 as int,
        ),
        old(bending_constraints)@.len() <= 3 * index0,
        all_within(old(bending_constraints)@, horizontal_num * vertical_num),
        forall|p: int, s: int|
            0 <= p < index0 && 0 <= s < 3 ==> #[trigger] bend_ok(
                horizontal_num as int,
                vertical_num as int,
                old(bending_constraints)@,
                p,
                s,
            ),
    ensures
        all_within(final(bending_constraints)@, horizontal_num * vertical_num),
        final(bending_constraints)@.len() == bend_base(
            horizontal_num as int,
            vertical_num as int,
            index0 + 1,
        ),
        final(bending_constraints)@.len() <= 3 * (index0 + 1),
        forall|s: int|
            0 <= s < 4 ==> (#[trigger] slots@[s]) == bend_slot(
                horizontal_num as int,
                vertical_num as int,
                index0 as int,
                s,
            ),
        forall|p: int, s: int|
            0 <= p < index0 + 1 && 0 <= s < 3 ==> #[trigger] bend_ok(
                horizontal_num as int,
                vertical_num as int,
                final(bending_constraints)@,
                p,
                s,
            ),
{
    let ghost hn = horizontal_num as int;
    let ghost vn = vertical_num as int;
    proof {
        if horizontal_num == 0 {
            assert(hn * vn == 0);
        }
    }
    let h = index0 / horizontal_num;
    let w = index0 % horizontal_num;
    proof {
        lemma_grid_split(hn, vn, index0 as int);
        reveal_with_fuel(bend_before, 4);
        if h + 1 < vertical_num {
            lemma_grid_bound(hn, vn, h + 1, w as int);
            assert((h + 1) * hn + w == index0 + hn) by (nonlinear_arith)
                requires
                    index0 == h * hn + w,
            ;
        }
        if h > 0 {
            assert(index0 >= hn) by (nonlinear_arith)
                requires
                    index0 == h * hn + w,
                    h >= 1,
                    w >= 0,
                    hn > 0,
            ;
        }
        if w + 1 < horizontal_num {
            lemma_grid_bound(hn, vn, h as int, w + 1);
        }
    }
    let ghost before = bending_constraints@;
    let mut slots: [i32; 4] = [-1, -1, -1, -1];
    let v = index0 as i32;
    let n = horizontal_num as i32;
    if w > 0 && w + 1 < horizontal_num {
        slots[0] = bending_constraints.len() as i32;
        bending_constraints.push(BendingConstraintObj { v, b0: v - 1, b1: v + 1 });
    }
    if h > 0 && h + 1 < vertical_num {
        slots[1] = bending_constraints.len() as i32;
        bending_constraints.push(BendingConstraintObj { v, b0: v - n, b1: v + n });
    }
    if w > 0 && w + 1 < horizontal_num && h > 0 && h + 1 < vertical_num {
        slots[2] = bending_constraints.len() as i32;
        bending_constraints.push(BendingConstraintObj { v, b0: v + 1 - n, b1: v - 1 + n });
    }
    proof {
        let p0 = index0 as int;
        assert(slots@[0] == bend_slot(hn, vn, p0, 0));
        assert(slots@[1] == bend_slot(hn, vn, p0, 1));
        assert(slots@[2] == bend_slot(hn, vn, p0, 2));
        assert(slots@[3] == bend_slot(hn, vn, p0, 3));
        assert(bend_ok(hn, vn, bending_constraints@, p0, 0));
        assert(bend_ok(hn, vn, bending_constraints@, p0, 1));
        assert(bend_ok(hn, vn, bending_constraints@, p0, 2));
        assert forall|i: int, p: int|
            0 <= i < bending_constraints@.len() && #[trigger] bending_constraints@[i].particles().contains(
                p,
            ) implies 0 <= p < hn * vn by {
            if i < before.len() {
                assert(bending_constraints@[i] == before[i]);
                assert(before[i].particles().contains(p));
            }
        }
        assert forall|p: int, s: int| 0 <= p < index0 + 1 && 0 <= s < 3 implies #[trigger] bend_ok(
            hn,
            vn,
            bending_constraints@,
            p,
            s,
        ) by {
            if p < index0 {
                assert(bend_ok(hn, vn, before, p, s));
            }
        }
    }
    slots
}

} // verus!
