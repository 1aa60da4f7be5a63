//! A brush as a ring of bristles: each bristle a chain of particles, tied
//! to the next bristle round the ring.

use vstd::prelude::*;
use crate::pbd::coloring::{concat, lemma_concat_index, lemma_concat_len, prefix_len};
use crate::pbd::grid::{
    col_of, lemma_grid_bound, lemma_grid_coords, lemma_grid_split, row_of, MassClass,
};
use crate::pbd::layout::{
    color_layout, color_of, flatten_groups, groups_view, lemma_layout_range, GridKind,
};
use crate::pbd::{
    all_within, bundle_particles, bundles_overlap, colors_conflict_free, BendingConstraintObj,
    MeshColoringObj, ParticleConstraint, StretchConstraintObj,
};

verus! {

/// The index that ends a line strip and starts the next.
pub const PRIMITIVE_RESTART: u32 = 0xFFFF_FFFF;

/// The number of bristles of the brush.
pub const BRISTLE_NUM: usize = 20;

/// The number of particles along one bristle.
pub const BRISTLE_VERTEX_NUM: usize = 12;

/// The bristle after `line` round the ring.
pub open spec fn next_bristle(bristle_num: int, line: int) -> int {
    if line == bristle_num - 1 {
        0
    } else {
        line + 1
    }
}

/// The bristle that bundle `b` belongs to. Every bristle has a bundle for
/// each of its particles from the third on.
pub open spec fn bundle_line(vertex_num: int, b: int) -> int {
    b / (vertex_num - 2)
}

/// The place along its bristle of the particle of bundle `b`.
pub open spec fn bundle_vertex(vertex_num: int, b: int) -> int {
    b % (vertex_num - 2) + 2
}

/// Stretch constraint `i` of the brush. Bundle `i / 3` ties its particle to
/// the one before it on the bristle (slot 0), to its neighbour on the next
/// bristle (slot 1), and to the one before that neighbour (slot 2).
pub open spec fn bristle_stretch_at(
    bristle_num: int,
    vertex_num: int,
    i: int,
) -> StretchConstraintObj {
    let line = bundle_line(vertex_num, i / 3);
    let n = bundle_vertex(vertex_num, i / 3);
    let cur = line * vertex_num + n;
    let right = next_bristle(bristle_num, line) * vertex_num + n;
    StretchConstraintObj {
        particle0: cur as i32,
        particle1: (if i % 3 == 0 {
            cur - 1
        } else if i % 3 == 1 {
            right
        } else {
            right - 1
        }) as i32,
    }
}

/// The color of bundle `b`: by the parity of its bristle and of its place
/// along the bristle.
pub open spec fn bristle_color(vertex_num: int, b: int) -> int {
    (bundle_line(vertex_num, b) % 2) * 2 + bundle_vertex(vertex_num, b) % 2
}

/// The bundles below `n` of color `c`, in rising order.
pub open spec fn bristle_members(vertex_num: int, c: int, n: int) -> Seq<[i32; 3]>
    decreases n,
{
    if n <= 0 {
        Seq::empty()
    } else if bristle_color(vertex_num, n - 1) == c {
        bristle_members(vertex_num, c, n - 1).push(
            [(3 * (n - 1)) as i32, (3 * (n - 1) + 1) as i32, (3 * (n - 1) + 2) as i32],
        )
    } else {
        bristle_members(vertex_num, c, n - 1)
    }
}

/// The four color groups of the stretch bundles.
pub open spec fn bristle_groups(bristle_num: int, vertex_num: int) -> Seq<Seq<[i32; 3]>> {
    Seq::new(
        4,
        |c: int| bristle_members(vertex_num, c, bristle_num * bundles_per_bristle(vertex_num)),
    )
}

/// The index list that draws the bristles as line strips: the particles of
/// each bristle in order, then a restart.
pub open spec fn bristle_index_at(vertex_num: int, k: int) -> u32 {
    if k % (vertex_num + 1) == vertex_num {
        PRIMITIVE_RESTART
    } else {
        ((k / (vertex_num + 1)) * vertex_num + k % (vertex_num + 1)) as u32
    }
}

/// Bending constraint `i` of the brush: every particle of a bristle from
/// the third to the last but one, with its two neighbours along the bristle.
pub open spec fn bristle_bend_at(vertex_num: int, i: int) -> BendingConstraintObj {
    let v = (i / (vertex_num - 3)) * vertex_num + i % (vertex_num - 3) + 2;
    BendingConstraintObj { v: v as i32, b0: (v - 1) as i32, b1: (v + 1) as i32 }
}

/// The color of bending constraint `i`: its place along the bristle, modulo 4.
pub open spec fn bristle_bend_color(vertex_num: int, i: int) -> int {
    (i % (vertex_num - 3) + 2) % 4
}

/// The bending constraints below `n` of color `c`, in rising order.
pub open spec fn bristle_bend_members(vertex_num: int, c: int, n: int) -> Seq<[i32; 2]>
    decreases n,
{
    if n <= 0 {
        Seq::empty()
    } else if bristle_bend_color(vertex_num, n - 1) == c {
        bristle_bend_members(vertex_num, c, n - 1).push([(n - 1) as i32, -1i32])
    } else {
        bristle_bend_members(vertex_num, c, n - 1)
    }
}

/// The number of bending constraints along one bristle.
pub open spec fn bends_per_bristle(vertex_num: int) -> int {
    if vertex_num >= 3 {
        vertex_num - 3
    } else {
        0
    }
}

/// The four color groups of the bending constraints.
pub open spec fn bristle_bend_groups(bristle_num: int, vertex_num: int) -> Seq<Seq<[i32; 2]>> {
    Seq::new(
        4,
        |c: int| bristle_bend_members(vertex_num, c, bristle_num * bends_per_bristle(vertex_num)),
    )
}

/// Whether `bendings` are the bending constraints of the brush.
pub open spec fn bristle_bends_ok(
    bristle_num: int,
    vertex_num: int,
    bendings: Seq<BendingConstraintObj>,
) -> bool {
    &&& bendings.len() == bristle_num * bends_per_bristle(vertex_num)
    &&& forall|i: int|
        0 <= i < bendings.len() ==> #[trigger] bendings[i] == bristle_bend_at(vertex_num, i)
}

/// The members of a bending color are constraints of that color, in
/// rising order, each alone in its bundle.
proof fn lemma_bristle_bend_members(vertex_num: int, c: int, n: int)
    requires
        0 <= n <= i32::MAX,
    ensures
        bristle_bend_members(vertex_num, c, n).len() <= n,
        forall|k: int|
            0 <= k < bristle_bend_members(vertex_num, c, n).len() ==> 0
                <= (#[trigger] bristle_bend_members(vertex_num, c, n)[k])@[0] < n
                && bristle_bend_color(
                vertex_num,
                bristle_bend_members(vertex_num, c, n)[k]@[0] as int,
            ) == c && bristle_bend_members(vertex_num, c, n)[k]@[1] == -1,
        forall|j: int, k: int|
            0 <= j < k < bristle_bend_members(vertex_num, c, n).len()
                ==> (#[trigger] bristle_bend_members(vertex_num, c, n)[j])@[0]
                < (#[trigger] bristle_bend_members(vertex_num, c, n)[k])@[0],
    decreases n,
{
    if n > 0 {
        lemma_bristle_bend_members(vertex_num, c, n - 1);
    }
}

/// Every bending constraint has exactly one of the four colors.
proof fn lemma_bristle_bend_total(vertex_num: int, n: int)
    requires
        4 <= vertex_num,
        0 <= n,
    ensures
        bristle_bend_members(vertex_num, 0, n).len() + bristle_bend_members(vertex_num, 1, n).len()
            + bristle_bend_members(vertex_num, 2, n).len() + bristle_bend_members(
            vertex_num,
            3,
            n,
        ).len() == n,
    decreases n,
{
    if n > 0 {
        lemma_bristle_bend_total(vertex_num, n - 1);
        vstd::arithmetic::div_mod::lemma_mod_bound(n - 1, vertex_num - 3);
    }
}

/// The four bending colors hold every bending constraint of the brush.
pub proof fn lemma_bristle_bend_count(bristle_num: int, vertex_num: int)
    requires
        0 <= bristle_num,
        1 <= vertex_num,
    ensures
        prefix_len(bristle_bend_groups(bristle_num, vertex_num), 4) == bristle_num
            * bends_per_bristle(vertex_num),
        0 <= bristle_num * bends_per_bristle(vertex_num) <= bristle_num * vertex_num,
{
    let per = bends_per_bristle(vertex_num);
    reveal_with_fuel(prefix_len, 5);
    assert(0 <= bristle_num * per <= bristle_num * vertex_num) by (nonlinear_arith)
        requires
            0 <= per <= vertex_num,
            0 <= bristle_num,
    ;
    if vertex_num >= 4 {
        lemma_bristle_bend_total(vertex_num, bristle_num * per);
    } else {
        assert(bristle_num * 0 == 0);
    }
}

/// Two different bending constraints of one color have no particle in common.
pub proof fn lemma_bristle_bends_disjoint(bristle_num: int, vertex_num: int, i: int, j: int)
    requires
        4 <= vertex_num,
        0 <= bristle_num,
        bristle_num * vertex_num <= i32::MAX,
        0 <= i < bristle_num * (vertex_num - 3),
        0 <= j < bristle_num * (vertex_num - 3),
        i != j,
        bristle_bend_color(vertex_num, i) == bristle_bend_color(vertex_num, j),
    ensures
        !bristle_bend_at(vertex_num, i).shares_particle(bristle_bend_at(vertex_num, j)),
        bristle_bend_at(vertex_num, i).particles().disjoint(
            bristle_bend_at(vertex_num, j).particles(),
        ),
{
    let per = vertex_num - 3;
    assert(bristle_num * per == per * bristle_num) by (nonlinear_arith);
    lemma_grid_split(per, bristle_num, i);
    lemma_grid_split(per, bristle_num, j);
    let li = i / per;
    let lj = j / per;
    let ni = i % per + 2;
    let nj = j % per + 2;
    lemma_grid_coords(vertex_num, li, ni);
    lemma_grid_coords(vertex_num, li, ni - 1);
    lemma_grid_coords(vertex_num, li, ni + 1);
    lemma_grid_coords(vertex_num, lj, nj);
    lemma_grid_coords(vertex_num, lj, nj - 1);
    lemma_grid_coords(vertex_num, lj, nj + 1);
    lemma_grid_bound(vertex_num, bristle_num, li, ni + 1);
    lemma_grid_bound(vertex_num, bristle_num, lj, nj + 1);
    assert(bristle_num * vertex_num == vertex_num * bristle_num) by (nonlinear_arith);
    let a = bristle_bend_at(vertex_num, i);
    let b = bristle_bend_at(vertex_num, j);
    assert(li * vertex_num + ni - 1 == li * vertex_num + (ni - 1));
    assert(lj * vertex_num + nj - 1 == lj * vertex_num + (nj - 1));
    assert(!a.shares_particle(b));
    crate::pbd::lemma_bending_shares_iff_overlap(a, b);
}

/// A bundle that holds one constraint touches that constraint's particles.
proof fn lemma_single_bend(bendings: Seq<BendingConstraintObj>, x: [i32; 2])
    requires
        0 <= x@[0] < bendings.len(),
        x@[1] == -1,
    ensures
        bundle_particles(bendings, x@) == bendings[x@[0] as int].particles(),
{
    let f = bundle_particles(bendings, x@);
    let g = bendings[x@[0] as int].particles();
    assert forall|p: int| f.contains(p) <==> g.contains(p) by {
        if g.contains(p) {
            assert(x@[0] != -1 && (#[trigger] bendings[x@[0] as int]).particles().contains(p));
        }
    }
    assert(f =~= g);
}

/// Builds the bending constraints of a brush of `bristle_num` bristles of
/// `vertex_num` particles each, in four colors, and lays the colors out
/// for the solver.
///
/// Within one color no two constraints touch a common particle.
pub fn cal_bend_constraints(bristle_num: usize, vertex_num: usize) -> (res: (
    Vec<MeshColoringObj>,
    Vec<BendingConstraintObj>,
    Vec<[i32; 2]>,
))
    requires
        1 <= vertex_num,
        bristle_num * vertex_num <= i32::MAX,
    ensures
        bristle_bends_ok(bristle_num as int, vertex_num as int, res.1@),
        all_within(res.1@, bristle_num * vertex_num),
        res.2@ == concat(bristle_bend_groups(bristle_num as int, vertex_num as int)),
        res.2@.len() == res.1@.len(),
        res.0@.len() == 4,
        forall|c: int|
            0 <= c < 4 ==> #[trigger] res.0@[c] == color_of(
                GridKind::Flat,
                bristle_bend_groups(bristle_num as int, vertex_num as int),
                c,
            ),
        colors_conflict_free(res.0@, res.1@, res.2@),
{
    let ghost ln = bristle_num as int;
    let ghost vn = vertex_num as int;
    let mut bendings: Vec<BendingConstraintObj> = Vec::new();
    let mut four_groups: Vec<Vec<[i32; 2]>> = Vec::new();
    let mut c: usize = 0;
    while c < 4
        invariant
            c <= 4,
            four_groups@.len() == c,
            forall|d: int|
                0 <= d < c ==> (#[trigger] four_groups@[d])@ == bristle_bend_members(vn, d, 0),
        decreases 4 - c,
    {
        four_groups.push(Vec::new());
        c += 1;
    }
    let per = if vertex_num >= 3 {
        vertex_num - 3
    } else {
        0
    };
    proof {
        assert(0 * per == 0);
        assert(ln * per <= ln * vn) by (nonlinear_arith)
            requires
                per <= vn,
                ln >= 0,
        ;
    }
    let mut line: usize = 0;
    while line < bristle_num
        invariant
            line <= bristle_num,
            ln == bristle_num,
            vn == vertex_num,
            1 <= vn,
            per == bends_per_bristle(vn),
            ln * vn <= i32::MAX,
            ln * per <= ln * vn,
            four_groups@.len() == 4,
            bendings@.len() == line * per,
            forall|i: int|
                0 <= i < bendings@.len() ==> #[trigger] bendings@[i] == bristle_bend_at(vn, i),
            forall|d: int|
                0 <= d < 4 ==> (#[trigger] four_groups@[d])@ == bristle_bend_members(
                    vn,
                    d,
                    bendings@.len() as int,
                ),
        decreases bristle_num - line,
    {
        let mut n: usize = 2;
        while n < vertex_num - 1
            invariant
                line < bristle_num,
                2 <= n,
                n <= vertex_num - 1 || per == 0,
                per == 0 ==> n == 2,
                ln == bristle_num,
                vn == vertex_num,
                1 <= vn,
                per == bends_per_bristle(vn),
                ln * vn <= i32::MAX,
                ln * per <= ln * vn,
                four_groups@.len() == 4,
                bendings@.len() == line * per + (n - 2),
                forall|i: int|
                    0 <= i < bendings@.len() ==> #[trigger] bendings@[i] == bristle_bend_at(vn, i),
                forall|d: int|
                    0 <= d < 4 ==> (#[trigger] four_groups@[d])@ == bristle_bend_members(
                        vn,
                        d,
                        bendings@.len() as int,
                    ),
            decreases vertex_num - n,
        {
            proof {
                lemma_grid_coords(per as int, line as int, n - 2);
                lemma_grid_bound(per as int, ln, line as int, n - 2);
                assert(per * ln == ln * per) by (nonlinear_arith);
                lemma_grid_bound(vn, ln, line as int, n + 1);
                assert(vn * ln == ln * vn) by (nonlinear_arith);
            }
            let v = (line * vertex_num + n) as i32;
            let index = bendings.len();
            let ghost pre = four_groups@;
            four_groups[n % 4].push([index as i32, -1]);
            proof {
                assert forall|d: int| 0 <= d < 4 implies (#[trigger] four_groups@[d])@
                    == bristle_bend_members(vn, d, index + 1) by {
                    assert(pre[d]@ == bristle_bend_members(vn, d, index as int));
                    if d == n % 4 {
                        assert(four_groups@[d]@ =~= bristle_bend_members(vn, d, index + 1));
                    }
                }
            }
            bendings.push(BendingConstraintObj { v, b0: v - 1, b1: v + 1 });
            n += 1;
        }
        proof {
            assert((line + 1) * per == line * per + per) by (nonlinear_arith);
        }
        line += 1;
    }
    proof {
        assert(groups_view(four_groups@) =~= bristle_bend_groups(ln, vn));
        reveal_with_fuel(prefix_len, 5);
        if vn >= 4 {
            lemma_bristle_bend_total(vn, ln * per);
        } else {
            assert(ln * 0 == 0);
        }
    }
    let mesh_colorings = color_layout(GridKind::Flat, &four_groups);
    let reorder_bendings = flatten_groups(&four_groups);
    proof {
        let groups = bristle_bend_groups(ln, vn);
        lemma_concat_len(groups, 4);
        assert forall|c: int, a: int, b: int|
            0 <= c < mesh_colorings@.len() && #[trigger] mesh_colorings@[c].holds(a)
                && #[trigger] mesh_colorings@[c].holds(b) && a != b implies 0 <= a
            < reorder_bendings@.len() && 0 <= b < reorder_bendings@.len() && !bundles_overlap(
            bendings@,
            reorder_bendings@[a]@,
            reorder_bendings@[b]@,
        ) by {
            lemma_layout_range(GridKind::Flat, groups, c);
            let base = prefix_len(groups, c);
            lemma_concat_index(groups, 4, c, a - base);
            lemma_concat_index(groups, 4, c, b - base);
            lemma_bristle_bend_members(vn, c, ln * per);
            assert(vn >= 4) by {
                if vn < 4 {
                    assert(ln * 0 == 0);
                }
            }
            let ia = reorder_bendings@[a]@[0] as int;
            let ib = reorder_bendings@[b]@[0] as int;
            assert(reorder_bendings@[a] == groups[c][a - base]);
            assert(reorder_bendings@[b] == groups[c][b - base]);
            assert(ia != ib);
            lemma_bristle_bends_disjoint(ln, vn, ia, ib);
            lemma_single_bend(bendings@, reorder_bendings@[a]);
            lemma_single_bend(bendings@, reorder_bendings@[b]);
        }
        lemma_bristle_bends_within(ln, vn, bendings@);
    }
    (mesh_colorings, bendings, reorder_bendings)
}

/// The number of stretch bundles along one bristle.
pub open spec fn bundles_per_bristle(vertex_num: int) -> int {
    if vertex_num >= 2 {
        vertex_num - 2
    } else {
        0
    }
}

/// How heavy the particle at place `n` of its bristle is: the first two
/// particles of every bristle are held by the ferrule.
pub open spec fn bristle_mass(vertex_num: int, p: int) -> MassClass {
    if col_of(vertex_num, p) < 2 {
        MassClass::Pinned
    } else {
        MassClass::Interior
    }
}

/// A brush, as far as integers describe it.
pub struct Bristles {
    pub mass: Vec<MassClass>,
    pub index_data: Vec<u32>,
    pub constraints: Vec<StretchConstraintObj>,
    pub reorder_stretches: Vec<[i32; 3]>,
    pub mesh_colorings: Vec<MeshColoringObj>,
    pub bending_constraints: Vec<BendingConstraintObj>,
    pub reorder_bendings: Vec<[i32; 2]>,
    pub bend_mesh_colorings: Vec<MeshColoringObj>,
}

impl Bristles {
    /// Whether the brush is the one of `ln` bristles of `vn` particles each.
    pub open spec fn is_brush(&self, ln: int, vn: int) -> bool {
        &&& self.mass@.len() == ln * vn
        &&& forall|p: int| 0 <= p < ln * vn ==> #[trigger] self.mass@[p] == bristle_mass(vn, p)
        &&& self.index_data@.len() == ln * (vn + 1)
        &&& forall|k: int|
            0 <= k < ln * (vn + 1) ==> #[trigger] self.index_data@[k] == bristle_index_at(vn, k)
        &&& self.constraints@.len() == 3 * (ln * bundles_per_bristle(vn))
        &&& forall|i: int|
            0 <= i < self.constraints@.len() ==> #[trigger] self.constraints@[i]
                == bristle_stretch_at(ln, vn, i)
        &&& all_within(self.constraints@, ln * vn)
        &&& all_within(self.bending_constraints@, ln * vn)
        &&& self.reorder_stretches@ == concat(bristle_groups(ln, vn))
        &&& self.mesh_colorings@.len() == 4
        &&& forall|c: int|
            0 <= c < 4 ==> #[trigger] self.mesh_colorings@[c] == color_of(
                GridKind::Flat,
                bristle_groups(ln, vn),
                c,
            )
        &&& bristle_bends_ok(ln, vn, self.bending_constraints@)
        &&& self.reorder_bendings@ == concat(bristle_bend_groups(ln, vn))
        &&& self.bend_mesh_colorings@.len() == 4
        &&& forall|c: int|
            0 <= c < 4 ==> #[trigger] self.bend_mesh_colorings@[c] == color_of(
                GridKind::Flat,
                bristle_bend_groups(ln, vn),
                c,
            )
    }
}

/// Every stretch constraint of the brush ties two particles of the brush.
pub proof fn lemma_bristle_stretches_within(
    ln: int,
    vn: int,
    constraints: Seq<StretchConstraintObj>,
)
    requires
        0 <= ln,
        1 <= vn,
        3 * (ln * vn) <= i32::MAX,
        constraints.len() == 3 * (ln * bundles_per_bristle(vn)),
        forall|i: int|
            0 <= i < constraints.len() ==> #[trigger] constraints[i] == bristle_stretch_at(
                ln,
                vn,
                i,
            ),
    ensures
        all_within(constraints, ln * vn),
{
    let per = bundles_per_bristle(vn);
    assert forall|i: int, p: int|
        0 <= i < constraints.len() && #[trigger] constraints[i].particles().contains(p) implies 0
        <= p < ln * vn by {
        assert(constraints[i] == bristle_stretch_at(ln, vn, i));
        assert(per > 0 && ln > 0) by (nonlinear_arith)
            requires
                0 <= i < 3 * (ln * per),
                ln >= 0,
                per >= 0,
        ;
        let b = i / 3;
        assert(ln * per == per * ln) by (nonlinear_arith);
        lemma_grid_split(per, ln, b);
        let line = bundle_line(vn, b);
        let n = bundle_vertex(vn, b);
        let next = next_bristle(ln, line);
        lemma_grid_bound(vn, ln, line, n);
        lemma_grid_bound(vn, ln, line, n - 1);
        lemma_grid_bound(vn, ln, next, n);
        lemma_grid_bound(vn, ln, next, n - 1);
        assert(vn * ln == ln * vn) by (nonlinear_arith);
        assert(line * vn + n - 1 == line * vn + (n - 1));
        assert(next * vn + n - 1 == next * vn + (n - 1));
    }
}

/// Every bending constraint of the brush ties three particles of the brush.
pub proof fn lemma_bristle_bends_within(ln: int, vn: int, bendings: Seq<BendingConstraintObj>)
    requires
        0 <= ln,
        1 <= vn,
        ln * vn <= i32::MAX,
        bristle_bends_ok(ln, vn, bendings),
    ensures
        all_within(bendings, ln * vn),
{
    let per = bends_per_bristle(vn);
    assert forall|i: int, p: int|
        0 <= i < bendings.len() && #[trigger] bendings[i].particles().contains(p) implies 0 <= p
        < ln * vn by {
        assert(bendings[i] == bristle_bend_at(vn, i));
        assert(per > 0 && ln > 0) by (nonlinear_arith)
            requires
                0 <= i < ln * per,
                ln >= 0,
                per >= 0,
        ;
        assert(ln * per == per * ln) by (nonlinear_arith);
        lemma_grid_split(per, ln, i);
        let line = i / per;
        let n = i % per + 2;
        lemma_grid_bound(vn, ln, line, n - 1);
        lemma_grid_bound(vn, ln, line, n + 1);
        assert(vn * ln == ln * vn) by (nonlinear_arith);
        assert(line * vn + n - 1 == line * vn + (n - 1));
        assert(line * vn + n + 1 == line * vn + (n + 1));
    }
}

/// The members of a stretch color are bundles of that color, in rising
/// order, each naming its three constraints.
proof fn lemma_bristle_members(vertex_num: int, c: int, n: int)
    requires
        0 <= 3 * n <= i32::MAX,
    ensures
        bristle_members(vertex_num, c, n).len() <= n,
        forall|k: int|
            0 <= k < bristle_members(vertex_num, c, n).len() ==> {
                let x = #[trigger] bristle_members(vertex_num, c, n)[k];
                &&& 0 <= x@[0] < 3 * n
                &&& x@[0] % 3 == 0
                &&& x@[1] == x@[0] + 1
                &&& x@[2] == x@[0] + 2
                &&& bristle_color(vertex_num, x@[0] as int / 3) == c
            },
        forall|j: int, k: int|
            0 <= j < k < bristle_members(vertex_num, c, n).len() ==> (#[trigger] bristle_members(
                vertex_num,
                c,
                n,
            )[j])@[0] < (#[trigger] bristle_members(vertex_num, c, n)[k])@[0],
    decreases n,
{
    if n > 0 {
        lemma_bristle_members(vertex_num, c, n - 1);
    }
}

/// Every stretch bundle has exactly one of the four colors.
proof fn lemma_bristle_total(vertex_num: int, n: int)
    requires
        3 <= vertex_num,
        0 <= n,
    ensures
        bristle_members(vertex_num, 0, n).len() + bristle_members(vertex_num, 1, n).len()
            + bristle_members(vertex_num, 2, n).len() + bristle_members(vertex_num, 3, n).len()
            == n,
    decreases n,
{
    if n > 0 {
        lemma_bristle_total(vertex_num, n - 1);
        assert(n - 1 < (vertex_num - 2) * n) by (nonlinear_arith)
            requires
                vertex_num - 2 >= 1,
                n >= 1,
        ;
        lemma_grid_split(vertex_num - 2, n, n - 1);
    }
}

/// Every particle that bundle `b` touches lies on the bundle's bristle or
/// the next, at the bundle's place along the bristle or the one before.
proof fn lemma_bristle_touches(
    ln: int,
    vn: int,
    constraints: Seq<StretchConstraintObj>,
    x: [i32; 3],
    r: int,
)
    requires
        3 <= vn,
        1 <= ln,
        3 * (ln * vn) <= i32::MAX,
        constraints.len() == 3 * (ln * (vn - 2)),
        forall|i: int|
            0 <= i < constraints.len() ==> #[trigger] constraints[i] == bristle_stretch_at(
                ln,
                vn,
                i,
            ),
        0 <= x@[0] < constraints.len(),
        x@[0] % 3 == 0,
        x@[1] == x@[0] + 1,
        x@[2] == x@[0] + 2,
        bundle_particles(constraints, x@).contains(r),
    ensures
        r >= 0,
        row_of(vn, r) == bundle_line(vn, x@[0] as int / 3) || row_of(vn, r) == next_bristle(
            ln,
            bundle_line(vn, x@[0] as int / 3),
        ),
        col_of(vn, r) == bundle_vertex(vn, x@[0] as int / 3) || col_of(vn, r) == bundle_vertex(
            vn,
            x@[0] as int / 3,
        ) - 1,
{
    let b = x@[0] as int / 3;
    let per = vn - 2;
    assert(ln * per == per * ln) by (nonlinear_arith);
    lemma_grid_split(per, ln, b);
    let line = bundle_line(vn, b);
    let n = bundle_vertex(vn, b);
    let next = next_bristle(ln, line);
    lemma_grid_coords(vn, line, n);
    lemma_grid_coords(vn, line, n - 1);
    lemma_grid_coords(vn, next, n);
    lemma_grid_coords(vn, next, n - 1);
    lemma_grid_bound(vn, ln, line, n);
    lemma_grid_bound(vn, ln, next, n);
    assert(vn * ln == ln * vn) by (nonlinear_arith);
    assert(line * vn + n - 1 == line * vn + (n - 1));
    assert(next * vn + n - 1 == next * vn + (n - 1));
    let e = choose|e: int|
        0 <= e < x@.len() && x@[e] != -1 && (#[trigger] constraints[x@[e] as int]).particles().contains(
            r,
        );
    assert(0 <= e < 3);
    let i = x@[e] as int;
    assert(i == 3 * b + e);
    assert(constraints[i] == bristle_stretch_at(ln, vn, i));
    assert(i / 3 == b && i % 3 == e);
}

/// With an even number of bristles, two different bundles of one color
/// touch no common particle.
proof fn lemma_bristle_bundles_apart(
    ln: int,
    vn: int,
    constraints: Seq<StretchConstraintObj>,
    x: [i32; 3],
    y: [i32; 3],
)
    requires
        3 <= vn,
        1 <= ln,
        ln % 2 == 0,
        3 * (ln * vn) <= i32::MAX,
        constraints.len() == 3 * (ln * (vn - 2)),
        forall|i: int|
            0 <= i < constraints.len() ==> #[trigger] constraints[i] == bristle_stretch_at(
                ln,
                vn,
                i,
            ),
        0 <= x@[0] < constraints.len(),
        x@[0] % 3 == 0,
        x@[1] == x@[0] + 1,
        x@[2] == x@[0] + 2,
        0 <= y@[0] < constraints.len(),
        y@[0] % 3 == 0,
        y@[1] == y@[0] + 1,
        y@[2] == y@[0] + 2,
        x@[0] != y@[0],
        bristle_color(vn, x@[0] as int / 3) == bristle_color(vn, y@[0] as int / 3),
    ensures
        !bundles_overlap(constraints, x@, y@),
{
    let fx = bundle_particles(constraints, x@);
    let fy = bundle_particles(constraints, y@);
    let bx = x@[0] as int / 3;
    let by = y@[0] as int / 3;
    let per = vn - 2;
    assert(ln * per == per * ln) by (nonlinear_arith);
    lemma_grid_split(per, ln, bx);
    lemma_grid_split(per, ln, by);
    assert forall|r: int| !(fx.contains(r) && fy.contains(r)) by {
        if fx.contains(r) && fy.contains(r) {
            lemma_bristle_touches(ln, vn, constraints, x, r);
            lemma_bristle_touches(ln, vn, constraints, y, r);
            let lx = bundle_line(vn, bx);
            let ly = bundle_line(vn, by);
            let nx = bundle_vertex(vn, bx);
            let ny = bundle_vertex(vn, by);
            assert(nx % 2 == ny % 2 && lx % 2 == ly % 2);
            assert(nx == ny);
            assert(lx == ly);
            assert(bx == by);
        }
    }
}

/// Builds a brush of `bristle_num` bristles of `vertex_num` particles
/// each: the weight class of every particle, the index list that draws the
/// bristles, the stretch bundles in four colors and the bending
/// constraints in four colors.
///
/// Bending constraints of one color never touch a common particle. With
/// an even number of bristles the same holds of the stretch bundles.
pub fn generate_bristles(bristle_num: usize, vertex_num: usize) -> (brush: Bristles)
    requires
        1 <= vertex_num,
        3 * (bristle_num * vertex_num) <= i32::MAX,
    ensures
        brush.is_brush(bristle_num as int, vertex_num as int),
        colors_conflict_free(
            brush.bend_mesh_colorings@,
            brush.bending_constraints@,
            brush.reorder_bendings@,
        ),
        bristle_num % 2 == 0 ==> colors_conflict_free(
            brush.mesh_colorings@,
            brush.constraints@,
            brush.reorder_stretches@,
        ),
{
    let ghost ln = bristle_num as int;
    let ghost vn = vertex_num as int;
    let mut mass: Vec<MassClass> = Vec::new();
    let mut index_data: Vec<u32> = Vec::new();
    proof {
        assert(0 * vn == 0);
        assert(0 * (vn + 1) == 0);
    }
    let mut i: usize = 0;
    while i < bristle_num
        invariant
            i <= bristle_num,
            ln == bristle_num,
            vn == vertex_num,
            1 <= vn,
            3 * (ln * vn) <= i32::MAX,
            mass@.len() == i * vn,
            index_data@.len() == i * (vn + 1),
            forall|p: int| 0 <= p < mass@.len() ==> #[trigger] mass@[p] == bristle_mass(vn, p),
            forall|k: int|
                0 <= k < index_data@.len() ==> #[trigger] index_data@[k] == bristle_index_at(vn, k),
        decreases bristle_num - i,
    {
        let mut j: usize = 0;
        while j < vertex_num
            invariant
                i < bristle_num,
                j <= vertex_num,
                ln == bristle_num,
                vn == vertex_num,
                1 <= vn,
                3 * (ln * vn) <= i32::MAX,
                mass@.len() == i * vn + j,
                index_data@.len() == i * (vn + 1) + j,
                forall|p: int| 0 <= p < mass@.len() ==> #[trigger] mass@[p] == bristle_mass(vn, p),
                forall|k: int|
                    0 <= k < index_data@.len() ==> #[trigger] index_data@[k] == bristle_index_at(
                        vn,
                        k,
                    ),
            decreases vertex_num - j,
        {
            proof {
                lemma_grid_coords(vn, i as int, j as int);
                lemma_grid_coords(vn + 1, i as int, j as int);
                lemma_grid_bound(vn, ln, i as int, j as int);
                assert(vn * ln == ln * vn) by (nonlinear_arith);
            }
            mass.push(
                if j < 2 {
                    MassClass::Pinned
                } else {
                    MassClass::Interior
                },
            );
            index_data.push((i * vertex_num + j) as u32);
            j += 1;
        }
        proof {
            lemma_grid_coords(vn + 1, i as int, vn);
            assert((i + 1) * vn == i * vn + vn) by (nonlinear_arith);
            assert((i + 1) * (vn + 1) == i * (vn + 1) + vn + 1) by (nonlinear_arith);
        }
        index_data.push(PRIMITIVE_RESTART);
        i += 1;
    }
    let mut constraints: Vec<StretchConstraintObj> = Vec::new();
    let mut groups: Vec<Vec<[i32; 3]>> = Vec::new();
    let mut c: usize = 0;
    while c < 4
        invariant
            c <= 4,
            groups@.len() == c,
            forall|d: int| 0 <= d < c ==> (#[trigger] groups@[d])@ == bristle_members(vn, d, 0),
        decreases 4 - c,
    {
        groups.push(Vec::new());
        c += 1;
    }
    let per = if vertex_num >= 2 {
        vertex_num - 2
    } else {
        0
    };
    proof {
        assert(0 * per == 0);
        assert(ln * per <= ln * vn) by (nonlinear_arith)
            requires
                per <= vn,
                ln >= 0,
        ;
    }
    let mut line: usize = 0;
    while line < bristle_num
        invariant
            line <= bristle_num,
            ln == bristle_num,
            vn == vertex_num,
            1 <= vn,
            per == bundles_per_bristle(vn),
            3 * (ln * vn) <= i32::MAX,
            ln * per <= ln * vn,
            groups@.len() == 4,
            constraints@.len() == 3 * (line * per),
            forall|i: int|
                0 <= i < constraints@.len() ==> #[trigger] constraints@[i] == bristle_stretch_at(
                    ln,
                    vn,
                    i,
                ),
            forall|d: int|
                0 <= d < 4 ==> (#[trigger] groups@[d])@ == bristle_members(vn, d, line * per),
        decreases bristle_num - line,
    {
        let mut n: usize = 2;
        while n < vertex_num
            invariant
                line < bristle_num,
                2 <= n,
                n <= vertex_num || per == 0,
                per == 0 ==> n == 2,
                ln == bristle_num,
                vn == vertex_num,
                1 <= vn,
                per == bundles_per_bristle(vn),
                3 * (ln * vn) <= i32::MAX,
                ln * per <= ln * vn,
                groups@.len() == 4,
                constraints@.len() == 3 * (line * per + (n - 2)),
                forall|i: int|
                    0 <= i < constraints@.len() ==> #[trigger] constraints@[i]
                        == bristle_stretch_at(ln, vn, i),
                forall|d: int|
                    0 <= d < 4 ==> (#[trigger] groups@[d])@ == bristle_members(
                        vn,
                        d,
                        line * per + (n - 2),
                    ),
            decreases vertex_num - n,
        {
            let ghost b = line * per + (n - 2);
            proof {
                lemma_grid_coords(per as int, line as int, n - 2);
                lemma_grid_bound(per as int, ln, line as int, n - 2);
                assert(per * ln == ln * per) by (nonlinear_arith);
                lemma_grid_bound(vn, ln, line as int, n as int);
                assert(vn * ln == ln * vn) by (nonlinear_arith);
                if line + 1 < bristle_num {
                    lemma_grid_bound(vn, ln, line + 1, n as int);
                    assert((line + 1) * vn + n == line * vn + n + vn) by (nonlinear_arith);
                }
                assert(0 * vn + n == n);
            }
            let cur = line * vertex_num + n;
            let right = if line == bristle_num - 1 {
                n
            } else {
                cur + vertex_num
            };
            let first = constraints.len();
            let group: [i32; 3] = [first as i32, (first + 1) as i32, (first + 2) as i32];
            let ghost before = constraints@;
            constraints.push(
                StretchConstraintObj { particle0: cur as i32, particle1: cur as i32 - 1 },
            );
            constraints.push(StretchConstraintObj { particle0: cur as i32, particle1: right as i32 });
            constraints.push(
                StretchConstraintObj { particle0: cur as i32, particle1: right as i32 - 1 },
            );
            let index = (line % 2) * 2 + n % 2;
            let ghost pre = groups@;
            groups[index].push(group);
            proof {
                assert((3 * b) / 3 == b && (3 * b + 1) / 3 == b && (3 * b + 2) / 3 == b);
                assert(constraints@[3 * b] == bristle_stretch_at(ln, vn, 3 * b));
                assert(constraints@[3 * b + 1] == bristle_stretch_at(ln, vn, 3 * b + 1));
                assert(constraints@[3 * b + 2] == bristle_stretch_at(ln, vn, 3 * b + 2));
                assert forall|i: int| 0 <= i < constraints@.len() implies #[trigger] constraints@[i]
                    == bristle_stretch_at(ln, vn, i) by {
                    if i < 3 * b {
                        assert(constraints@[i] == before[i]);
                    }
                }
                assert forall|d: int| 0 <= d < 4 implies (#[trigger] groups@[d])@
                    == bristle_members(vn, d, b + 1) by {
                    assert(pre[d]@ == bristle_members(vn, d, b));
                    if d == index {
                        assert(groups@[d]@ =~= bristle_members(vn, d, b + 1));
                    }
                }
            }
            n += 1;
        }
        proof {
            assert((line + 1) * per == line * per + per) by (nonlinear_arith);
        }
        line += 1;
    }
    proof {
        assert(groups_view(groups@) =~= bristle_groups(ln, vn));
        reveal_with_fuel(prefix_len, 5);
        if vn >= 3 {
            lemma_bristle_total(vn, ln * per);
        } else {
            assert(ln * 0 == 0);
        }
    }
    let mesh_colorings = color_layout(GridKind::Flat, &groups);
    let reorder_stretches = flatten_groups(&groups);
    let (bend_mesh_colorings, bending_constraints, reorder_bendings) = cal_bend_constraints(
        bristle_num,
        vertex_num,
    );
    proof {
        lemma_bristle_stretches_within(ln, vn, constraints@);
        if bristle_num % 2 == 0 {
            let sg = bristle_groups(ln, vn);
            lemma_concat_len(sg, 4);
            assert forall|c: int, a: int, b: int|
                0 <= c < mesh_colorings@.len() && #[trigger] mesh_colorings@[c].holds(a)
                    && #[trigger] mesh_colorings@[c].holds(b) && a != b implies 0 <= a
                < reorder_stretches@.len() && 0 <= b < reorder_stretches@.len()
                && !bundles_overlap(constraints@, reorder_stretches@[a]@, reorder_stretches@[b]@) by {
                lemma_layout_range(GridKind::Flat, sg, c);
                let base = prefix_len(sg, c);
                lemma_concat_index(sg, 4, c, a - base);
                lemma_concat_index(sg, 4, c, b - base);
                lemma_bristle_members(vn, c, ln * per);
                assert(vn >= 3 && ln >= 1) by {
                    if vn < 3 || ln < 1 {
                        assert(ln * 0 == 0);
                        assert(0 * per == 0);
                    }
                }
                let x = reorder_stretches@[a];
                let y = reorder_stretches@[b];
                assert(x == sg[c][a - base]);
                assert(y == sg[c][b - base]);
                lemma_bristle_bundles_apart(ln, vn, constraints@, x, y);
            }
        }
    }
    Bristles {
        mass,
        index_data,
        constraints,
        reorder_stretches,
        mesh_colorings,
        bending_constraints,
        reorder_bendings,
        bend_mesh_colorings,
    }
}

} // verus!
