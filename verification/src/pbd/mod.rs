//! Position-based dynamics: constraints between particles and their
//! partition into groups that can be relaxed without write conflicts.
//!
//! A constraint names its particles by index. The solver relaxes the
//! constraints of one particle together, as a bundle: an array of constraint
//! indices in which `-1` marks an unused slot. Bundles are what gets colored.

pub mod bristle;
pub mod brush;
pub mod cal_bend_constraints;
pub mod cloth3;
pub mod cloth_x;
pub mod coloring;
pub mod grid;
pub mod layout;
pub mod line;
pub mod line_particle;
pub mod particle;
pub mod particle3;
pub mod solver;

use vstd::prelude::*;

verus! {

/// The slot value of a bundle that names no constraint.
pub const NO_CONSTRAINT: i32 = -1;

/// Something the solver relaxes by moving a few particles.
pub trait ParticleConstraint: Sized {
    /// The particles that relaxing this constraint reads and writes.
    spec fn particles(&self) -> Set<int>;

    /// Whether the two constraints have a particle in common.
    fn touches(&self, other: &Self) -> (r: bool)
        ensures
            r == !self.particles().disjoint(other.particles()),
    ;
}

/// A distance constraint between two particles.
#[derive(Clone, Copy, Debug, PartialEq, Eq, Structural)]
pub struct StretchConstraintObj {
    pub particle0: i32,
    pub particle1: i32,
}

impl StretchConstraintObj {
    /// Whether the two constraints have a particle in common.
    pub open spec fn shares_particle(self, other: StretchConstraintObj) -> bool {
        self.particle0 == other.particle0 || self.particle0 == other.particle1
            || self.particle1 == other.particle0 || self.particle1 == other.particle1
    }

    /// Whether the two constraints have a particle in common.
    pub fn is_contain_particles(&self, other: &StretchConstraintObj) -> (r: bool)
        ensures
            r == self.shares_particle(*other),
    {
        self.particle0 == other.particle0 || self.particle0 == other.particle1
            || self.particle1 == other.particle0 || self.particle1 == other.particle1
    }
}

impl ParticleConstraint for StretchConstraintObj {
    open spec fn particles(&self) -> Set<int> {
        set![self.particle0 as int, self.particle1 as int]
    }

    fn touches(&self, other: &Self) -> (r: bool) {
        proof {
            lemma_stretch_shares_iff_overlap(*self, *other);
        }
        self.is_contain_particles(other)
    }
}

/// Two stretch constraints share a particle exactly when their particle sets meet.
pub proof fn lemma_stretch_shares_iff_overlap(a: StretchConstraintObj, b: StretchConstraintObj)
    ensures
        a.shares_particle(b) == !a.particles().disjoint(b.particles()),
{
    if a.shares_particle(b) {
        if a.particle0 == b.particle0 || a.particle0 == b.particle1 {
            assert(a.particles().contains(a.particle0 as int) && b.particles().contains(
                a.particle0 as int,
            ));
        } else {
            assert(a.particles().contains(a.particle1 as int) && b.particles().contains(
                a.particle1 as int,
            ));
        }
    }
}

/// A bending constraint: the particle `v` and its two neighbours `b0`, `b1`
/// along one line of the mesh.
#[derive(Clone, Copy, Debug, PartialEq, Eq, Structural)]
pub struct BendingConstraintObj {
    pub v: i32,
    pub b0: i32,
    pub b1: i32,
}

impl BendingConstraintObj {
    /// Whether the two constraints have a particle in common.
    pub open spec fn shares_particle(self, other: BendingConstraintObj) -> bool {
        self.v == other.v || self.v == other.b0 || self.v == other.b1 || self.b0 == other.v
            || self.b0 == other.b0 || self.b0 == other.b1 || self.b1 == other.v || self.b1
            == other.b0 || self.b1 == other.b1
    }

    /// Whether the two constraints have a particle in common.
    pub fn is_contain(&self, other: &BendingConstraintObj) -> (r: bool)
        ensures
            r == self.shares_particle(*other),
    {
        let list0: [i32; 3] = [self.v, self.b0, self.b1];
        let list1: [i32; 3] = [other.v, other.b0, other.b1];
        let mut i: usize = 0;
        while i < 3
            invariant
                i <= 3,
                list0@ == seq![self.v, self.b0, self.b1],
                list1@ == seq![other.v, other.b0, other.b1],
                forall|a: int, b: int| 0 <= a < i && 0 <= b < 3 ==> list0@[a] != list1@[b],
            decreases 3 - i,
        {
            let mut j: usize = 0;
            while j < 3
                invariant
                    i < 3,
                    j <= 3,
                    list0@ == seq![self.v, self.b0, self.b1],
                    list1@ == seq![other.v, other.b0, other.b1],
                    forall|a: int, b: int| 0 <= a < i && 0 <= b < 3 ==> list0@[a] != list1@[b],
                    forall|b: int| 0 <= b < j ==> list0@[i as int] != list1@[b],
                decreases 3 - j,
            {
                if list0[i] == list1[j] {
                    return true;
                }
                j += 1;
            }
            i += 1;
        }
        assert(list0@[0] != list1@[0] && list0@[0] != list1@[1] && list0@[0] != list1@[2]);
        assert(list0@[1] != list1@[0] && list0@[1] != list1@[1] && list0@[1] != list1@[2]);
        assert(list0@[2] != list1@[0] && list0@[2] != list1@[1] && list0@[2] != list1@[2]);
        false
    }
}

impl ParticleConstraint for BendingConstraintObj {
    open spec fn particles(&self) -> Set<int> {
        set![self.v as int, self.b0 as int, self.b1 as int]
    }

    fn touches(&self, other: &Self) -> (r: bool) {
        proof {
            lemma_bending_shares_iff_overlap(*self, *other);
        }
        self.is_contain(other)
    }
}

/// Two bending constraints share a particle exactly when their particle sets meet.
pub proof fn lemma_bending_shares_iff_overlap(a: BendingConstraintObj, b: BendingConstraintObj)
    ensures
        a.shares_particle(b) == !a.particles().disjoint(b.particles()),
{
    if a.shares_particle(b) {
        if a.v == b.v || a.v == b.b0 || a.v == b.b1 {
            assert(a.particles().contains(a.v as int) && b.particles().contains(a.v as int));
        } else if a.b0 == b.v || a.b0 == b.b0 || a.b0 == b.b1 {
            assert(a.particles().contains(a.b0 as int) && b.particles().contains(a.b0 as int));
        } else {
            assert(a.particles().contains(a.b1 as int) && b.particles().contains(a.b1 as int));
        }
    }
}

/// Whether every constraint touches only particles below `particle_num`:
/// no constraint refers to a particle that is not there.
pub open spec fn all_within<C: ParticleConstraint>(constraints: Seq<C>, particle_num: int) -> bool {
    forall|i: int, p: int|
        0 <= i < constraints.len() && #[trigger] constraints[i].particles().contains(p) ==> 0 <= p
            < particle_num
}

/// Whether every slot of the bundle is unused or names one of `len` constraints.
pub open spec fn bundle_valid(len: int, bundle: Seq<i32>) -> bool {
    forall|e: int| 0 <= e < bundle.len() ==> #[trigger] bundle[e] == -1 || 0 <= bundle[e] < len
}

/// Whether every bundle of the list is valid.
pub open spec fn bundles_valid(len: int, bundles: Seq<[i32; 3]>) -> bool {
    forall|k: int| 0 <= k < bundles.len() ==> bundle_valid(len, #[trigger] bundles[k]@)
}

/// The particles that the constraints of a bundle touch.
pub open spec fn bundle_particles<C: ParticleConstraint>(
    constraints: Seq<C>,
    bundle: Seq<i32>,
) -> Set<int> {
    Set::new(
        |p: int|
            exists|e: int|
                0 <= e < bundle.len() && bundle[e] != -1 && #[trigger] constraints[bundle[e] as int].particles().contains(
                    p,
                ),
    )
}

/// Whether two bundles touch a common particle.
pub open spec fn bundles_overlap<C: ParticleConstraint>(
    constraints: Seq<C>,
    a: Seq<i32>,
    b: Seq<i32>,
) -> bool {
    !bundle_particles(constraints, a).disjoint(bundle_particles(constraints, b))
}

/// Whether some bundle of the group touches a particle that `bundle` touches.
pub open spec fn group_overlaps<C: ParticleConstraint>(
    constraints: Seq<C>,
    group: Seq<[i32; 3]>,
    bundle: Seq<i32>,
) -> bool {
    exists|k: int|
        0 <= k < group.len() && bundles_overlap(constraints, (#[trigger] group[k])@, bundle)
}

/// Whether any two different bundles that stand in the range of one color
/// touch no common particle: what lets the solver relax a whole color at once.
pub open spec fn colors_conflict_free<C: ParticleConstraint, const N: usize>(
    colors: Seq<MeshColoringObj>,
    constraints: Seq<C>,
    reorder: Seq<[i32; N]>,
) -> bool {
    forall|c: int, a: int, b: int|
        0 <= c < colors.len() && #[trigger] colors[c].holds(a) && #[trigger] colors[c].holds(b)
            && a != b ==> 0 <= a < reorder.len() && 0 <= b < reorder.len() && !bundles_overlap(
            constraints,
            reorder[a]@,
            reorder[b]@,
        )
}

/// Under a coloring free of conflicts, two constraints that different
/// bundles of one color name have no particle in common.
pub proof fn lemma_constraints_of_a_color_are_apart<C: ParticleConstraint, const N: usize>(
    colors: Seq<MeshColoringObj>,
    constraints: Seq<C>,
    reorder: Seq<[i32; N]>,
    c: int,
    a: int,
    b: int,
    ea: int,
    eb: int,
)
    requires
        colors_conflict_free(colors, constraints, reorder),
        0 <= c < colors.len(),
        colors[c].holds(a),
        colors[c].holds(b),
        a != b,
        0 <= ea < N,
        0 <= eb < N,
        reorder[a]@[ea] != -1,
        reorder[b]@[eb] != -1,
    ensures
        constraints[reorder[a]@[ea] as int].particles().disjoint(
            constraints[reorder[b]@[eb] as int].particles(),
        ),
{
    let first = constraints[reorder[a]@[ea] as int].particles();
    let second = constraints[reorder[b]@[eb] as int].particles();
    assert forall|p: int| first.contains(p) implies !second.contains(p) by {
        if second.contains(p) {
            assert(bundle_particles(constraints, reorder[a]@).contains(p));
            assert(bundle_particles(constraints, reorder[b]@).contains(p));
        }
    }
}

/// The footprint of each bundle, in the order of the list.
pub open spec fn footprints<C: ParticleConstraint>(
    constraints: Seq<C>,
    bundles: Seq<[i32; 3]>,
) -> Seq<Set<int>> {
    Seq::new(bundles.len(), |i: int| bundle_particles(constraints, bundles[i]@))
}

/// The number of workgroups of 32 threads that cover `len` items.
pub open spec fn workgroups_of_32(len: int) -> int {
    (len + 31) / 32
}

/// One color of a mesh coloring: where its bundles start in the reordered
/// list, how many there are, and the compute grid that covers them.
#[derive(Clone, Copy, Debug, PartialEq, Eq)]
pub struct MeshColoringObj {
    pub offset: u32,
    pub max_num_x: u32,
    pub max_num_y: u32,
    pub group_len: u32,
    pub thread_group: (u32, u32),
}

/// What the bending solver is told about one color in one sub-iteration.
/// The solver scales its correction by one over `iter_divisor`.
#[derive(Clone, Copy, Debug, PartialEq, Eq)]
pub struct BendingDynamicUniform {
    pub offset: i32,
    pub max_num_x: i32,
    pub group_len: i32,
    pub iter_divisor: i32,
}

impl MeshColoringObj {
    /// Whether place `a` of the reordered list belongs to this color.
    pub open spec fn holds(self, a: int) -> bool {
        self.offset <= a < self.offset + self.group_len
    }

    /// What a solver is told about the color: start, grid and length.
    pub fn get_push_constants_data(&self) -> (data: Vec<u32>)
        ensures
            data@ == seq![self.offset, self.max_num_x, self.max_num_y, self.group_len],
    {
        let mut data: Vec<u32> = Vec::new();
        data.push(self.offset);
        data.push(self.max_num_x);
        data.push(self.max_num_y);
        data.push(self.group_len);
        data
    }

    /// What the bending solver is told about the color in sub-iteration
    /// `iter_count`, counted from zero.
    pub fn get_bending_dynamic_uniform(&self, iter_count: i32) -> (u: BendingDynamicUniform)
        requires
            self.offset <= i32::MAX,
            self.max_num_x <= i32::MAX,
            self.group_len <= i32::MAX,
            iter_count < i32::MAX,
        ensures
            u.offset == self.offset,
            u.max_num_x == self.max_num_x,
            u.group_len == self.group_len,
            u.iter_divisor == iter_count + 1,
    {
        BendingDynamicUniform {
            offset: self.offset as i32,
            max_num_x: self.max_num_x as i32,
            group_len: self.group_len as i32,
            iter_divisor: iter_count + 1,
        }
    }
}

/// The frame counter handed to the solver.
#[derive(Clone, Copy, Debug, PartialEq, Eq, Structural)]
pub struct FrameUniform {
    pub frame_index: i32,
}

/// A triangle of the mesh, by particle index.
#[derive(Clone, Copy, Debug, PartialEq, Eq, Structural)]
pub struct TriangleObj {
    pub v0: i32,
    pub v1: i32,
    pub v2: i32,
}

} // verus!
