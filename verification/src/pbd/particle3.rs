//! Cloth with collisions: every particle carries up to four stretch and
//! three bending constraints, and particles are colored by their place in
//! the grid, three apart in each direction.

use vstd::prelude::*;
use crate::pbd::coloring::{concat, lemma_concat_index, lemma_concat_len, prefix_len};
use crate::pbd::grid::{
    bend_at, bend_base, bend_ok, bend_slot, bend_used, cal_connected_particles, col_of, connected,
    lemma_grid_bound, lemma_grid_coords, lemma_grid_split, push_bendings, row_of, MassClass,
};
use crate::pbd::layout::{
    color_layout, color_of, flatten_groups, groups_view, lemma_layout_range, GridKind,
};
use crate::pbd::{
    all_within, bundle_particles, BendingConstraintObj, MeshColoringObj, ParticleConstraint,
    StretchConstraintObj,
};

verus! {

/// The constraints of one particle: for each slot the number of a stretch
/// or bending constraint, or -1.
#[derive(Clone, Copy, Debug, PartialEq, Eq)]
pub struct ParticleConstraints {
    pub stretches: [i32; 4],
    pub bendings: [i32; 4],
}

impl ParticleConstraints {
    /// A particle without constraints.
    pub fn new() -> (pc: Self)
        ensures
            forall|s: int| 0 <= s < 4 ==> (#[trigger] pc.stretches@[s]) == -1,
            forall|s: int| 0 <= s < 4 ==> (#[trigger] pc.bendings@[s]) == -1,
    {
        Self { stretches: [-1, -1, -1, -1], bendings: [-1, -1, -1, -1] }
    }
}

/// How heavy particle `p` of the cloth is: the two top rows are pinned,
/// the rest of the rim is border, everything else interior.
pub open spec fn c3_mass(hn: int, vn: int, p: int) -> MassClass {
    let h = row_of(hn, p);
    let w = col_of(hn, p);
    if h <= 1 {
        MassClass::Pinned
    } else if w == 0 || w == hn - 1 || h == vn - 1 {
        MassClass::Border
    } else {
        MassClass::Interior
    }
}

/// Whether particle `p` has a stretch constraint in slot `s`: to the right
/// (0), below (1), below right (2), below left (3).
pub open spec fn c3_stretch_used(hn: int, vn: int, p: int, s: int) -> bool {
    let right = col_of(hn, p) + 1 < hn;
    let below = row_of(hn, p) + 1 < vn;
    if s == 0 {
        right
    } else if s == 1 {
        below
    } else if s == 2 {
        right && below
    } else {
        s == 3 && col_of(hn, p) > 0 && below
    }
}

/// The far end of the stretch constraint in slot `s` of particle `p`.
pub open spec fn c3_stretch_partner(hn: int, p: int, s: int) -> int {
    if s == 0 {
        p + 1
    } else if s == 1 {
        p + hn
    } else if s == 2 {
        p + hn + 1
    } else {
        p + hn - 1
    }
}

/// The number of stretch slots below `s` that particle `p` uses.
pub open spec fn c3_stretch_before(hn: int, vn: int, p: int, s: int) -> int
    decreases s,
{
    if s <= 0 {
        0
    } else {
        c3_stretch_before(hn, vn, p, s - 1) + if c3_stretch_used(hn, vn, p, s - 1) {
            1int
        } else {
            0int
        }
    }
}

/// The number of stretch constraints of the particles before `p`.
pub open spec fn c3_stretch_base(hn: int, vn: int, p: int) -> int
    decreases p,
{
    if p <= 0 {
        0
    } else {
        c3_stretch_base(hn, vn, p - 1) + c3_stretch_before(hn, vn, p - 1, 4)
    }
}

/// What stretch slot `s` of particle `p` holds: constraints are numbered
/// particle by particle and slot by slot.
pub open spec fn c3_stretch_slot(hn: int, vn: int, p: int, s: int) -> int {
    if c3_stretch_used(hn, vn, p, s) {
        c3_stretch_base(hn, vn, p) + c3_stretch_before(hn, vn, p, s)
    } else {
        -1
    }
}

/// Whether stretch slot `s` of particle `p`, if used, names the
/// constraint from `p` to its partner.
pub open spec fn c3_stretch_ok(
    hn: int,
    vn: int,
    stretches: Seq<StretchConstraintObj>,
    p: int,
    s: int,
) -> bool {
    c3_stretch_used(hn, vn, p, s) ==> 0 <= c3_stretch_slot(hn, vn, p, s) < stretches.len()
        && stretches[c3_stretch_slot(hn, vn, p, s)] == (StretchConstraintObj {
        particle0: p as i32,
        particle1: c3_stretch_partner(hn, p, s) as i32,
    })
}

/// The color of particle `p`: its row and column, each taken modulo 3.
pub open spec fn stride_color(hn: int, p: int) -> int {
    3 * (row_of(hn, p) % 3) + col_of(hn, p) % 3
}

/// The particles below `n` of color `c`, in rising order.
pub open spec fn stride_members(hn: int, c: int, n: int) -> Seq<i32>
    decreases n,
{
    if n <= 0 {
        Seq::empty()
    } else if stride_color(hn, n - 1) == c {
        stride_members(hn, c, n - 1).push((n - 1) as i32)
    } else {
        stride_members(hn, c, n - 1)
    }
}

/// The nine color groups of a cloth of `total` particles.
pub open spec fn stride_groups(hn: int, total: int) -> Seq<Seq<i32>> {
    Seq::new(9, |c: int| stride_members(hn, c, total))
}

/// The particles that the constraints of one particle touch.
pub open spec fn c3_footprint(
    stretches: Seq<StretchConstraintObj>,
    bendings: Seq<BendingConstraintObj>,
    pc: ParticleConstraints,
) -> Set<int> {
    bundle_particles(stretches, pc.stretches@).union(bundle_particles(bendings, pc.bendings@))
}

/// A cloth with collisions, as far as integers describe it.
pub struct ClothParticles3 {
    pub mass: Vec<MassClass>,
    pub connect: Vec<[i32; 4]>,
    pub particle_constraints: Vec<ParticleConstraints>,
    pub stretch_constraints: Vec<StretchConstraintObj>,
    pub bending_constraints: Vec<BendingConstraintObj>,
    pub mesh_colorings: Vec<MeshColoringObj>,
    pub mesh_coloring_buf: Vec<i32>,
}

impl ClothParticles3 {
    /// Whether the cloth is the one of `hn` by `vn` particles.
    pub open spec fn is_cloth(&self, hn: int, vn: int) -> bool {
        &&& self.mass@.len() == hn * vn
        &&& forall|p: int| 0 <= p < hn * vn ==> #[trigger] self.mass@[p] == c3_mass(hn, vn, p)
        &&& self.connect@.len() == hn * vn
        &&& forall|p: int, s: int|
            0 <= p < hn * vn && 0 <= s < 4 ==> (#[trigger] self.connect@[p]@[s]) == connected(
                hn,
                vn,
                p,
            )[s]
        &&& self.particle_constraints@.len() == hn * vn
        &&& self.stretch_constraints@.len() == c3_stretch_base(hn, vn, hn * vn)
        &&& self.bending_constraints@.len() == bend_base(hn, vn, hn * vn)
        &&& all_within(self.stretch_constraints@, hn * vn)
        &&& all_within(self.bending_constraints@, hn * vn)
        &&& forall|p: int, s: int|
            0 <= p < hn * vn && 0 <= s < 4 ==> (#[trigger] self.particle_constraints@[p].stretches@[s])
                == c3_stretch_slot(hn, vn, p, s)
        &&& forall|p: int, s: int|
            0 <= p < hn * vn && 0 <= s < 4 ==> (#[trigger] self.particle_constraints@[p].bendings@[s])
                == bend_slot(hn, vn, p, s)
        &&& forall|p: int, s: int|
            0 <= p < hn * vn && 0 <= s < 4 ==> #[trigger] c3_stretch_ok(
                hn,
                vn,
                self.stretch_constraints@,
                p,
                s,
            )
        &&& forall|p: int, s: int|
            0 <= p < hn * vn && 0 <= s < 3 ==> #[trigger] bend_ok(
                hn,
                vn,
                self.bending_constraints@,
                p,
                s,
            )
        &&& self.mesh_coloring_buf@ == concat(stride_groups(hn, hn * vn))
        &&& self.mesh_colorings@.len() == 9
        &&& forall|c: int|
            0 <= c < 9 ==> #[trigger] self.mesh_colorings@[c] == color_of(
                GridKind::Tiled,
                stride_groups(hn, hn * vn),
                c,
            )
    }

    /// Whether any two different particles of one color touch no common
    /// particle through their constraints.
    pub open spec fn colors_conflict_free(&self) -> bool {
        forall|c: int, a: int, b: int|
            0 <= c < self.mesh_colorings@.len() && #[trigger] self.mesh_colorings@[c].holds(a)
                && #[trigger] self.mesh_colorings@[c].holds(b) && a != b ==> 0 <= a
                < self.mesh_coloring_buf@.len() && 0 <= b < self.mesh_coloring_buf@.len()
                && c3_footprint(
                self.stretch_constraints@,
                self.bending_constraints@,
                self.particle_constraints@[self.mesh_coloring_buf@[a] as int],
            ).disjoint(
                c3_footprint(
                    self.stretch_constraints@,
                    self.bending_constraints@,
                    self.particle_constraints@[self.mesh_coloring_buf@[b] as int],
                ),
            )
    }
}

/// Row and column of the particle `dh` rows and `dw` columns away from `p`.
pub proof fn lemma_neighbour(hn: int, p: int, dh: int, dw: int)
    requires
        0 < hn,
        0 <= p,
        0 <= col_of(hn, p) + dw < hn,
        0 <= row_of(hn, p) + dh,
    ensures
        row_of(hn, p + dh * hn + dw) == row_of(hn, p) + dh,
        col_of(hn, p + dh * hn + dw) == col_of(hn, p) + dw,
        p + dh * hn + dw >= 0,
{
    let h = p / hn;
    let w = p % hn;
    vstd::arithmetic::div_mod::lemma_fundamental_div_mod(p, hn);
    assert(hn * h == h * hn) by (nonlinear_arith);
    assert((h + dh) * hn + (w + dw) == p + dh * hn + dw) by (nonlinear_arith)
        requires
            p == h * hn + w,
    ;
    lemma_grid_coords(hn, h + dh, w + dw);
}

/// Whether particle `r` lies at most one row and one column from `p`.
pub open spec fn near(hn: int, p: int, r: int) -> bool {
    &&& r >= 0
    &&& -1 <= row_of(hn, r) - row_of(hn, p) <= 1
    &&& -1 <= col_of(hn, r) - col_of(hn, p) <= 1
}

/// Two different particles of one color have no common neighbour: they
/// are three or more apart along a row or a column.
pub proof fn lemma_same_color_far_apart(hn: int, p: int, q: int, r: int)
    requires
        0 < hn,
        0 <= p,
        0 <= q,
        p != q,
        stride_color(hn, p) == stride_color(hn, q),
        near(hn, p, r),
    ensures
        !near(hn, q, r),
{
    vstd::arithmetic::div_mod::lemma_fundamental_div_mod(p, hn);
    vstd::arithmetic::div_mod::lemma_fundamental_div_mod(q, hn);
    vstd::arithmetic::div_mod::lemma_mod_bound(p, hn);
    vstd::arithmetic::div_mod::lemma_mod_bound(q, hn);
    let hp = row_of(hn, p);
    let hq = row_of(hn, q);
    let wp = col_of(hn, p);
    let wq = col_of(hn, q);
    assert(hp >= 0 && hq >= 0) by (nonlinear_arith)
        requires
            p == hn * hp + wp,
            q == hn * hq + wq,
            0 <= wp < hn,
            0 <= wq < hn,
            p >= 0,
            q >= 0,
    ;
    assert(hp % 3 == hq % 3 && wp % 3 == wq % 3);
    if near(hn, q, r) {
        assert(hp == hq);
        assert(wp == wq);
        assert(p == q);
    }
}

/// Every particle that the constraints of `p` touch lies next to `p`.
proof fn lemma_c3_touches_near(cloth: ClothParticles3, hn: int, vn: int, p: int, r: int)
    requires
        0 < hn,
        0 <= vn,
        hn * vn + hn + 1 <= i32::MAX,
        cloth.is_cloth(hn, vn),
        0 <= p < hn * vn,
        c3_footprint(
            cloth.stretch_constraints@,
            cloth.bending_constraints@,
            cloth.particle_constraints@[p],
        ).contains(r),
    ensures
        near(hn, p, r),
{
    let pc = cloth.particle_constraints@[p];
    let st = cloth.stretch_constraints@;
    let be = cloth.bending_constraints@;
    lemma_grid_split(hn, vn, p);
    lemma_neighbour(hn, p, 0, 0);
    if bundle_particles(st, pc.stretches@).contains(r) {
        let e = choose|e: int|
            0 <= e < pc.stretches@.len() && pc.stretches@[e] != -1 && (#[trigger] st[pc.stretches@[e] as int]).particles().contains(
                r,
            );
        assert(0 <= e < 4);
        assert(pc.stretches@[e] == c3_stretch_slot(hn, vn, p, e));
        assert(c3_stretch_used(hn, vn, p, e));
        assert(c3_stretch_ok(hn, vn, st, p, e));
        assert(r == p || r == c3_stretch_partner(hn, p, e));
        if r != p {
            if e == 0 {
                lemma_neighbour(hn, p, 0, 1);
            } else if e == 1 {
                lemma_neighbour(hn, p, 1, 0);
                assert(p + 1 * hn + 0 == p + hn);
            } else if e == 2 {
                lemma_neighbour(hn, p, 1, 1);
                assert(p + 1 * hn + 1 == p + hn + 1);
            } else {
                lemma_neighbour(hn, p, 1, -1);
                assert(p + 1 * hn + -1 == p + hn - 1);
            }
        }
    } else {
        let e = choose|e: int|
            0 <= e < pc.bendings@.len() && pc.bendings@[e] != -1 && (#[trigger] be[pc.bendings@[e] as int]).particles().contains(
                r,
            );
        assert(0 <= e < 4);
        assert(pc.bendings@[e] == bend_slot(hn, vn, p, e));
        assert(e < 3);
        assert(bend_used(hn, vn, p, e));
        assert(bend_ok(hn, vn, be, p, e));
        assert(r == bend_at(hn, p, e).v || r == bend_at(hn, p, e).b0 || r == bend_at(hn, p, e).b1);
        if r != p {
            if e == 0 {
                lemma_neighbour(hn, p, 0, 1);
                lemma_neighbour(hn, p, 0, -1);
            } else if e == 1 {
                lemma_neighbour(hn, p, 1, 0);
                lemma_neighbour(hn, p, -1, 0);
                assert(p + 1 * hn + 0 == p + hn);
                assert(p + (-1) * hn + 0 == p - hn);
            } else {
                lemma_neighbour(hn, p, -1, 1);
                lemma_neighbour(hn, p, 1, -1);
                assert(p + (-1) * hn + 1 == p + 1 - hn);
                assert(p + 1 * hn + -1 == p - 1 + hn);
            }
        }
    }
}

/// The members of a color are particles of the cloth, of that color, in
/// rising order.
pub proof fn lemma_stride_members(hn: int, c: int, n: int)
    requires
        0 <= n <= i32::MAX,
    ensures
        stride_members(hn, c, n).len() <= n,
        forall|k: int|
            0 <= k < stride_members(hn, c, n).len() ==> 0 <= (#[trigger] stride_members(
                hn,
                c,
                n,
            )[k]) < n && stride_color(hn, stride_members(hn, c, n)[k] as int) == c,
        forall|j: int, k: int|
            0 <= j < k < stride_members(hn, c, n).len() ==> (#[trigger] stride_members(hn, c, n)[j])
                < (#[trigger] stride_members(hn, c, n)[k]),
    decreases n,
{
    if n > 0 {
        lemma_stride_members(hn, c, n - 1);
    }
}

/// Every particle has exactly one of the nine colors.
pub proof fn lemma_stride_total(hn: int, n: int)
    requires
        0 < hn,
        0 <= n,
    ensures
        prefix_len(stride_groups(hn, n), 9) == n,
    decreases n,
{
    let g = stride_groups(hn, n);
    reveal_with_fuel(prefix_len, 10);
    assert(prefix_len(g, 9) == g[0].len() + g[1].len() + g[2].len() + g[3].len() + g[4].len()
        + g[5].len() + g[6].len() + g[7].len() + g[8].len());
    if n > 0 {
        let g1 = stride_groups(hn, n - 1);
        lemma_stride_total(hn, n - 1);
        assert(prefix_len(g1, 9) == g1[0].len() + g1[1].len() + g1[2].len() + g1[3].len()
            + g1[4].len() + g1[5].len() + g1[6].len() + g1[7].len() + g1[8].len());
        let c = stride_color(hn, n - 1);
        vstd::arithmetic::div_mod::lemma_fundamental_div_mod(n - 1, hn);
        vstd::arithmetic::div_mod::lemma_mod_bound(n - 1, hn);
        assert(row_of(hn, n - 1) >= 0) by (nonlinear_arith)
            requires
                n - 1 == hn * row_of(hn, n - 1) + col_of(hn, n - 1),
                0 <= col_of(hn, n - 1) < hn,
                n - 1 >= 0,
        ;
        assert(0 <= c < 9);
    }
}

/// Adds the stretch constraints of particle `index0` and returns its slots.
fn push_stretches(
    horizontal_num: usize,
    vertical_num: usize,
    index0: usize,
    stretch_constraints: &mut Vec<StretchConstraintObj>,
) -> (slots: [i32; 4])
    requires
        index0 < horizontal_num * vertical_num,
        4 * (horizontal_num * vertical_num) + horizontal_num + 1 <= i32::MAX,
        old(stretch_constraints)@.len() == c3_stretch_base(
            horizontal_num as int,
            vertical_num as int,
            index0 as int,
        ),
        old(stretch_constraints)@.len() <= 4 * index0,
        all_within(old(stretch_constraints)@, horizontal_num * vertical_num),
        forall|p: int, s: int|
            0 <= p < index0 && 0 <= s < 4 ==> #[trigger] c3_stretch_ok(
                horizontal_num as int,
                vertical_num as int,
                old(stretch_constraints)@,
                p,
                s,
            ),
    ensures
        all_within(final(stretch_constraints)@, horizontal_num * vertical_num),
        final(stretch_constraints)@.len() == c3_stretch_base(
            horizontal_num as int,
            vertical_num as int,
            index0 + 1,
        ),
        final(stretch_constraints)@.len() <= 4 * (index0 + 1),
        forall|s: int|
            0 <= s < 4 ==> (#[trigger] slots@[s]) == c3_stretch_slot(
                horizontal_num as int,
                vertical_num as int,
                index0 as int,
                s,
            ),
        forall|p: int, s: int|
            0 <= p < index0 + 1 && 0 <= s < 4 ==> #[trigger] c3_stretch_ok(
                horizontal_num as int,
                vertical_num as int,
                final(stretch_constraints)@,
                p,
                s,
            ),
{
    let ghost hn = horizontal_num as int;
    let ghost vn = vertical_num as int;
    proof {
        if horizontal_num == 0 {
            assert(hn * vn == 0);
        }
    }
    let h = index0 / horizontal_num;
    let w = index0 % horizontal_num;
    proof {
        lemma_grid_split(hn, vn, index0 as int);
        reveal_with_fuel(c3_stretch_before, 5);
        if h + 1 < vertical_num {
            lemma_grid_bound(hn, vn, h + 1, w as int);
            assert((h + 1) * hn + w == index0 + hn) by (nonlinear_arith)
                requires
                    index0 == h * hn + w,
            ;
            if w + 1 < horizontal_num {
                lemma_grid_bound(hn, vn, h + 1, w + 1);
            }
        }
        if w + 1 < horizontal_num {
            lemma_grid_bound(hn, vn, h as int, w + 1);
        }
    }
    let ghost before = stretch_constraints@;
    let mut slots: [i32; 4] = [-1, -1, -1, -1];
    let v = index0 as i32;
    let n = horizontal_num as i32;
    if w + 1 < horizontal_num {
        slots[0] = stretch_constraints.len() as i32;
        stretch_constraints.push(StretchConstraintObj { particle0: v, particle1: v + 1 });
    }
    if h + 1 < vertical_num {
        slots[1] = stretch_constraints.len() as i32;
        stretch_constraints.push(StretchConstraintObj { particle0: v, particle1: v + n });
    }
    if w + 1 < horizontal_num && h + 1 < vertical_num {
        slots[2] = stretch_constraints.len() as i32;
        stretch_constraints.push(StretchConstraintObj { particle0: v, particle1: v + n + 1 });
    }
    if w > 0 && h + 1 < vertical_num {
        slots[3] = stretch_constraints.len() as i32;
        stretch_constraints.push(StretchConstraintObj { particle0: v, particle1: v + n - 1 });
    }
    proof {
        let p0 = index0 as int;
        assert(slots@[0] == c3_stretch_slot(hn, vn, p0, 0));
        assert(slots@[1] == c3_stretch_slot(hn, vn, p0, 1));
        assert(slots@[2] == c3_stretch_slot(hn, vn, p0, 2));
        assert(slots@[3] == c3_stretch_slot(hn, vn, p0, 3));
        assert(c3_stretch_ok(hn, vn, stretch_constraints@, p0, 0));
        assert(c3_stretch_ok(hn, vn, stretch_constraints@, p0, 1));
        assert(c3_stretch_ok(hn, vn, stretch_constraints@, p0, 2));
        assert(c3_stretch_ok(hn, vn, stretch_constraints@, p0, 3));
        assert forall|i: int, p: int|
            0 <= i < stretch_constraints@.len() && #[trigger] stretch_constraints@[i].particles().contains(
                p,
            ) implies 0 <= p < hn * vn by {
            if i < before.len() {
                assert(stretch_constraints@[i] == before[i]);
                assert(before[i].particles().contains(p));
            }
        }
        assert forall|p: int, s: int| 0 <= p < index0 + 1 && 0 <= s < 4 implies #[trigger] c3_stretch_ok(
            hn,
            vn,
            stretch_constraints@,
            p,
            s,
        ) by {
            if p < index0 {
                assert(c3_stretch_ok(hn, vn, before, p, s));
            }
        }
    }
    slots
}

/// Builds the constraints and the coloring of a cloth with collisions,
/// `horizontal_num` by `vertical_num` particles.
///
/// Particles of one color lie three apart, so the constraints of any two
/// of them touch no common particle, and the solver may handle all
/// particles of a color at once.
pub fn generate_cloth_particles3(horizontal_num: usize, vertical_num: usize) -> (cloth: ClothParticles3)
    requires
        4 * (horizontal_num * vertical_num) + horizontal_num + 1 <= i32::MAX,
    ensures
        cloth.is_cloth(horizontal_num as int, vertical_num as int),
        cloth.colors_conflict_free(),
{
    let ghost hn = horizontal_num as int;
    let ghost vn = vertical_num as int;
    let mut mass: Vec<MassClass> = Vec::new();
    let mut particle_constraints: Vec<ParticleConstraints> = Vec::new();
    let mut stretch_constraints: Vec<StretchConstraintObj> = Vec::new();
    let mut bending_constraints: Vec<BendingConstraintObj> = Vec::new();
    let mut groups: Vec<Vec<i32>> = Vec::new();
    if horizontal_num == 0 {
        assert(hn * vn == 0);
    }
    let total = horizontal_num * vertical_num;
    let connect = cal_connected_particles(horizontal_num, vertical_num);
    let mut index0: usize = 0;
    while index0 < total
        invariant
            index0 <= total,
            total == hn * vn,
            hn == horizontal_num,
            vn == vertical_num,
            4 * total + hn + 1 <= i32::MAX,
            mass@.len() == index0,
            particle_constraints@.len() == index0,
            forall|p: int| 0 <= p < index0 ==> #[trigger] mass@[p] == c3_mass(hn, vn, p),
            stretch_constraints@.len() == c3_stretch_base(hn, vn, index0 as int),
            stretch_constraints@.len() <= 4 * index0,
            bending_constraints@.len() == bend_base(hn, vn, index0 as int),
            bending_constraints@.len() <= 3 * index0,
            all_within(stretch_constraints@, hn * vn),
            all_within(bending_constraints@, hn * vn),
            forall|p: int, s: int|
                0 <= p < index0 && 0 <= s < 4 ==> (#[trigger] particle_constraints@[p].stretches@[s])
                    == c3_stretch_slot(hn, vn, p, s),
            forall|p: int, s: int|
                0 <= p < index0 && 0 <= s < 4 ==> (#[trigger] particle_constraints@[p].bendings@[s])
                    == bend_slot(hn, vn, p, s),
            forall|p: int, s: int|
                0 <= p < index0 && 0 <= s < 4 ==> #[trigger] c3_stretch_ok(
                    hn,
                    vn,
                    stretch_constraints@,
                    p,
                    s,
                ),
            forall|p: int, s: int|
                0 <= p < index0 && 0 <= s < 3 ==> #[trigger] bend_ok(
                    hn,
                    vn,
                    bending_constraints@,
                    p,
                    s,
                ),
        decreases total - index0,
    {
        let h = index0 / horizontal_num;
        let w = index0 % horizontal_num;
        proof {
            lemma_grid_split(hn, vn, index0 as int);
        }
        let class = if h <= 1 {
            MassClass::Pinned
        } else if w == 0 || w == horizontal_num - 1 || h == vertical_num - 1 {
            MassClass::Border
        } else {
            MassClass::Interior
        };
        mass.push(class);
        let stretches = push_stretches(
            horizontal_num,
            vertical_num,
            index0,
            &mut stretch_constraints,
        );
        let bendings = push_bendings(horizontal_num, vertical_num, index0, &mut bending_constraints);
        particle_constraints.push(ParticleConstraints { stretches, bendings });
        index0 += 1;
    }
    let mut c: usize = 0;
    while c < 9
        invariant
            c <= 9,
            total == hn * vn,
            hn == horizontal_num,
            total <= i32::MAX,
            groups@.len() == c,
            forall|d: int| 0 <= d < c ==> (#[trigger] groups@[d])@ == stride_members(hn, d, total as int),
        decreases 9 - c,
    {
        let mut group: Vec<i32> = Vec::new();
        let mut p: usize = 0;
        while p < total
            invariant
                p <= total,
                c < 9,
                total == hn * vn,
                hn == horizontal_num,
                total <= i32::MAX,
                group@ == stride_members(hn, c as int, p as int),
            decreases total - p,
        {
            proof {
                if horizontal_num == 0 {
                    assert(hn * vn == 0);
                }
            }
            let h = p / horizontal_num;
            let w = p % horizontal_num;
            if 3 * (h % 3) + w % 3 == c {
                group.push(p as i32);
            }
            p += 1;
        }
        groups.push(group);
        c += 1;
    }
    proof {
        assert(groups_view(groups@) =~= stride_groups(hn, total as int));
        if hn > 0 {
            lemma_stride_total(hn, total as int);
        } else {
            reveal_with_fuel(prefix_len, 10);
            assert(hn * vn == 0);
        }
    }
    let mesh_colorings = color_layout(GridKind::Tiled, &groups);
    let mesh_coloring_buf = flatten_groups(&groups);
    let cloth = ClothParticles3 {
        mass,
        connect,
        particle_constraints,
        stretch_constraints,
        bending_constraints,
        mesh_colorings,
        mesh_coloring_buf,
    };
    proof {
        let sg = stride_groups(hn, total as int);
        assert(cloth.is_cloth(hn, vn));
        lemma_concat_len(sg, 9);
        assert forall|c: int, a: int, b: int|
            0 <= c < cloth.mesh_colorings@.len() && #[trigger] cloth.mesh_colorings@[c].holds(a)
                && #[trigger] cloth.mesh_colorings@[c].holds(b) && a != b implies 0 <= a
            < cloth.mesh_coloring_buf@.len() && 0 <= b < cloth.mesh_coloring_buf@.len()
            && c3_footprint(
            cloth.stretch_constraints@,
            cloth.bending_constraints@,
            cloth.particle_constraints@[cloth.mesh_coloring_buf@[a] as int],
        ).disjoint(
            c3_footprint(
                cloth.stretch_constraints@,
                cloth.bending_constraints@,
                cloth.particle_constraints@[cloth.mesh_coloring_buf@[b] as int],
            ),
        ) by {
            lemma_layout_range(GridKind::Tiled, sg, c);
            let base = prefix_len(sg, c);
            lemma_concat_index(sg, 9, c, a - base);
            lemma_concat_index(sg, 9, c, b - base);
            lemma_stride_members(hn, c, total as int);
            let pa = cloth.mesh_coloring_buf@[a] as int;
            let pb = cloth.mesh_coloring_buf@[b] as int;
            assert(pa == sg[c][a - base] && pb == sg[c][b - base]);
            assert(pa != pb);
            let fa = c3_footprint(
                cloth.stretch_constraints@,
                cloth.bending_constraints@,
                cloth.particle_constraints@[pa],
            );
            let fb = c3_footprint(
                cloth.stretch_constraints@,
                cloth.bending_constraints@,
                cloth.particle_constraints@[pb],
            );
            assert forall|r: int| !(fa.contains(r) && fb.contains(r)) by {
                if fa.contains(r) && fb.contains(r) {
                    lemma_c3_touches_near(cloth, hn, vn, pa, r);
                    lemma_c3_touches_near(cloth, hn, vn, pb, r);
                    lemma_same_color_far_apart(hn, pa, pb, r);
                }
            }
        }
    }
    cloth
}

} // verus!
