//! Greedy mesh coloring, as mathematics.
//!
//! Items are numbered in input order. Each item has a footprint: the set of
//! particles that relaxing it reads and writes. Two items conflict when their
//! footprints meet. Items are placed one after another, each into the first
//! group in which it conflicts with nobody; when every group objects, a new
//! group is opened. The first group exists from the start, even with no items.

use vstd::prelude::*;

verus! {

/// Whether items `a` and `b` touch a common particle.
pub open spec fn overlaps(fps: Seq<Set<int>>, a: int, b: int) -> bool {
    !fps[a].disjoint(fps[b])
}

/// Whether some member of `group` conflicts with `item`.
pub open spec fn group_blocks(fps: Seq<Set<int>>, group: Seq<int>, item: int) -> bool {
    exists|k: int| 0 <= k < group.len() && overlaps(fps, #[trigger] group[k], item)
}

/// The first group at or after `start` that does not object to `item`;
/// the number of groups when all of them object.
pub open spec fn first_fit_from(
    fps: Seq<Set<int>>,
    groups: Seq<Seq<int>>,
    item: int,
    start: int,
) -> int
    decreases groups.len() - start,
{
    if start < 0 || start >= groups.len() {
        groups.len() as int
    } else if !group_blocks(fps, groups[start], item) {
        start
    } else {
        first_fit_from(fps, groups, item, start + 1)
    }
}

/// The group that `item` joins: the first one that does not object.
pub open spec fn first_fit(fps: Seq<Set<int>>, groups: Seq<Seq<int>>, item: int) -> int {
    first_fit_from(fps, groups, item, 0)
}

/// The groups after `item` has been placed.
pub open spec fn place(fps: Seq<Set<int>>, groups: Seq<Seq<int>>, item: int) -> Seq<Seq<int>> {
    let g = first_fit(fps, groups, item);
    if g < groups.len() {
        groups.update(g, groups[g].push(item))
    } else {
        groups.push(seq![item])
    }
}

/// The groups after the first `n` items have been placed in order.
pub open spec fn greedy_groups(fps: Seq<Set<int>>, n: nat) -> Seq<Seq<int>>
    decreases n,
{
    if n == 0 {
        seq![Seq::<int>::empty()]
    } else {
        place(fps, greedy_groups(fps, (n - 1) as nat), n - 1)
    }
}

/// The number of items in the groups before group `g`.
pub open spec fn prefix_len<T>(groups: Seq<Seq<T>>, g: int) -> int
    decreases g,
{
    if g <= 0 {
        0
    } else {
        prefix_len(groups, g - 1) + groups[g - 1].len()
    }
}

/// The first `g` groups laid end to end.
pub open spec fn concat_upto<T>(groups: Seq<Seq<T>>, g: int) -> Seq<T>
    decreases g,
{
    if g <= 0 {
        Seq::empty()
    } else {
        concat_upto(groups, g - 1) + groups[g - 1]
    }
}

/// All groups laid end to end.
pub open spec fn concat<T>(groups: Seq<Seq<T>>) -> Seq<T> {
    concat_upto(groups, groups.len() as int)
}

/// Every group holds item numbers below `n`, in rising order.
pub open spec fn groups_sorted_below(groups: Seq<Seq<int>>, n: int) -> bool {
    &&& forall|g: int, k: int|
        0 <= g < groups.len() && 0 <= k < groups[g].len() ==> 0 <= #[trigger] groups[g][k] < n
    &&& forall|g: int, j: int, k: int|
        0 <= g < groups.len() && 0 <= j < k < groups[g].len() ==> #[trigger] groups[g][j]
            < #[trigger] groups[g][k]
}

/// No two members of one group conflict.
pub open spec fn groups_conflict_free(fps: Seq<Set<int>>, groups: Seq<Seq<int>>) -> bool {
    forall|g: int, j: int, k: int|
        0 <= g < groups.len() && 0 <= j < groups[g].len() && 0 <= k < groups[g].len() && j != k
            ==> !overlaps(fps, #[trigger] groups[g][j], #[trigger] groups[g][k])
}

/// Whether `group` holds a member placed before `item` that conflicts with it.
pub open spec fn turned_away(fps: Seq<Set<int>>, group: Seq<int>, item: int) -> bool {
    exists|m: int|
        0 <= m < group.len() && group[m] < item && overlaps(fps, #[trigger] group[m], item)
}

/// Every member of a group was turned away by each earlier group, by a
/// member that had been placed before it.
pub open spec fn groups_first_fit(fps: Seq<Set<int>>, groups: Seq<Seq<int>>) -> bool {
    forall|g: int, k: int, h: int|
        0 <= h < g < groups.len() && 0 <= k < groups[g].len() ==> #[trigger] turned_away(
            fps,
            groups[h],
            groups[g][k],
        )
}

/// Where item `item` stands: `groups[g][k] == item`.
pub open spec fn stands_at(groups: Seq<Seq<int>>, item: int, g: int, k: int) -> bool {
    0 <= g < groups.len() && 0 <= k < groups[g].len() && groups[g][k] == item
}

/// What `first_fit_from` returns, said without recursion: it lies between
/// `start` and the number of groups, every group it passed over objects, and
/// the group it names, if any, does not.
pub proof fn lemma_first_fit_from(fps: Seq<Set<int>>, groups: Seq<Seq<int>>, item: int, start: int)
    requires
        0 <= start <= groups.len(),
    ensures
        start <= first_fit_from(fps, groups, item, start) <= groups.len(),
        forall|h: int|
            start <= h < first_fit_from(fps, groups, item, start) ==> group_blocks(
                fps,
                #[trigger] groups[h],
                item,
            ),
        first_fit_from(fps, groups, item, start) < groups.len() ==> !group_blocks(
            fps,
            groups[first_fit_from(fps, groups, item, start)],
            item,
        ),
    decreases groups.len() - start,
{
    if start < groups.len() && group_blocks(fps, groups[start], item) {
        lemma_first_fit_from(fps, groups, item, start + 1);
    }
}

/// Placing one more item keeps the groups sorted, free of conflicts and
/// first-fit, and the new item stands in exactly one place.
pub proof fn lemma_place(fps: Seq<Set<int>>, groups: Seq<Seq<int>>, n: int)
    requires
        0 <= n < fps.len(),
        groups.len() >= 1,
        groups_sorted_below(groups, n),
        groups_conflict_free(fps, groups),
        groups_first_fit(fps, groups),
        forall|g: int| 1 <= g < groups.len() ==> (#[trigger] groups[g]).len() > 0,
    ensures
        place(fps, groups, n).len() >= 1,
        groups.len() <= place(fps, groups, n).len() <= groups.len() + 1,
        groups_sorted_below(place(fps, groups, n), n + 1),
        groups_conflict_free(fps, place(fps, groups, n)),
        groups_first_fit(fps, place(fps, groups, n)),
        forall|g: int| 1 <= g < place(fps, groups, n).len() ==> (#[trigger] place(fps, groups, n)[g]).len() > 0,
        prefix_len(place(fps, groups, n), place(fps, groups, n).len() as int) == prefix_len(
            groups,
            groups.len() as int,
        ) + 1,
{
    let f = first_fit(fps, groups, n);
    let after = place(fps, groups, n);
    lemma_first_fit_from(fps, groups, n, 0);
    // Overlap does not depend on the order of its arguments.
    assert forall|a: int, b: int| overlaps(fps, a, b) == overlaps(fps, b, a) by {
        if !fps[a].disjoint(fps[b]) {
            let p = choose|p: int| fps[a].contains(p) && fps[b].contains(p);
            assert(fps[b].contains(p) && fps[a].contains(p));
        }
        if !fps[b].disjoint(fps[a]) {
            let p = choose|p: int| fps[b].contains(p) && fps[a].contains(p);
            assert(fps[a].contains(p) && fps[b].contains(p));
        }
    }
    assert forall|g: int, k: int| 0 <= g < after.len() && 0 <= k < after[g].len() implies 0
        <= #[trigger] after[g][k] < n + 1 by {
        if g < groups.len() && k < groups[g].len() {
            assert(after[g][k] == groups[g][k]);
        }
    }
    assert forall|g: int, j: int, k: int|
        0 <= g < after.len() && 0 <= j < k < after[g].len() implies #[trigger] after[g][j]
        < #[trigger] after[g][k] by {
        if g < groups.len() && k < groups[g].len() {
            assert(after[g][j] == groups[g][j] && after[g][k] == groups[g][k]);
        } else if g < groups.len() {
            assert(after[g][j] == groups[g][j]);
        }
    }
    assert forall|g: int, j: int, k: int|
        0 <= g < after.len() && 0 <= j < after[g].len() && 0 <= k < after[g].len() && j
            != k implies !overlaps(fps, #[trigger] after[g][j], #[trigger] after[g][k]) by {
        if g < groups.len() && j < groups[g].len() && k < groups[g].len() {
            assert(after[g][j] == groups[g][j] && after[g][k] == groups[g][k]);
        } else if g < groups.len() {
            // One of the two is the new item, in group f, which did not object.
            assert(g == f);
            if j < groups[g].len() {
                assert(after[g][j] == groups[g][j]);
                assert(!overlaps(fps, groups[g][j], n));
            } else {
                assert(after[g][k] == groups[g][k]);
                assert(!overlaps(fps, groups[g][k], n));
            }
        }
    }
    assert forall|g: int, k: int, h: int|
        0 <= h < g < after.len() && 0 <= k < after[g].len() implies #[trigger] turned_away(
        fps,
        after[h],
        after[g][k],
    ) by {
        if g < groups.len() && k < groups[g].len() {
            assert(after[g][k] == groups[g][k]);
            assert(turned_away(fps, groups[h], groups[g][k]));
            let m = choose|m: int|
                0 <= m < groups[h].len() && groups[h][m] < groups[g][k] && overlaps(
                    fps,
                    #[trigger] groups[h][m],
                    groups[g][k],
                );
            assert(after[h][m] == groups[h][m]);
        } else {
            // The new item: every group before f objected.
            assert(g == f && after[g][k] == n);
            assert(group_blocks(fps, groups[h], n));
            let m = choose|m: int|
                0 <= m < groups[h].len() && overlaps(fps, #[trigger] groups[h][m], n);
            assert(after[h][m] == groups[h][m]);
        }
    }
    lemma_prefix_len_place(groups, f, n);
}

/// Adding one item to some group, or opening a group for it, adds one to the total.
proof fn lemma_prefix_len_place(groups: Seq<Seq<int>>, f: int, item: int)
    requires
        0 <= f <= groups.len(),
    ensures
        f < groups.len() ==> prefix_len(
            groups.update(f, groups[f].push(item)),
            groups.len() as int,
        ) == prefix_len(groups, groups.len() as int) + 1,
        f == groups.len() ==> prefix_len(groups.push(seq![item]), (groups.len() + 1) as int) == prefix_len(
            groups,
            groups.len() as int,
        ) + 1,
{
    if f < groups.len() {
        lemma_prefix_len_update(groups, f, item, groups.len() as int);
    } else {
        lemma_prefix_len_same(groups, groups.push(seq![item]), groups.len() as int);
    }
}

proof fn lemma_prefix_len_same<T>(a: Seq<Seq<T>>, b: Seq<Seq<T>>, g: int)
    requires
        0 <= g <= a.len(),
        g <= b.len(),
        forall|h: int| 0 <= h < g ==> a[h] == b[h],
    ensures
        prefix_len(a, g) == prefix_len(b, g),
        concat_upto(a, g) == concat_upto(b, g),
    decreases g,
{
    if g > 0 {
        lemma_prefix_len_same(a, b, g - 1);
    }
}

proof fn lemma_prefix_len_update(groups: Seq<Seq<int>>, f: int, item: int, g: int)
    requires
        0 <= f < groups.len(),
        0 <= g <= groups.len(),
    ensures
        prefix_len(groups.update(f, groups[f].push(item)), g) == prefix_len(groups, g) + if f < g {
            1int
        } else {
            0int
        },
    decreases g,
{
    if g > 0 {
        lemma_prefix_len_update(groups, f, item, g - 1);
    }
}

/// What greedy coloring guarantees of its groups, for any footprints:
/// there is at least one group; only the first can be empty; members are
/// item numbers below `n` in rising order; the groups hold `n` items in all;
/// no two members of a group conflict; and each member was turned away by
/// every earlier group.
pub proof fn lemma_greedy_groups(fps: Seq<Set<int>>, n: nat)
    requires
        n <= fps.len(),
    ensures
        greedy_groups(fps, n).len() >= 1,
        greedy_groups(fps, n).len() <= n + 1,
        n > 0 ==> greedy_groups(fps, n).len() <= n,
        forall|g: int| 1 <= g < greedy_groups(fps, n).len() ==> (#[trigger] greedy_groups(fps, n)[g]).len() > 0,
        groups_sorted_below(greedy_groups(fps, n), n as int),
        prefix_len(greedy_groups(fps, n), greedy_groups(fps, n).len() as int) == n,
        groups_conflict_free(fps, greedy_groups(fps, n)),
        groups_first_fit(fps, greedy_groups(fps, n)),
    decreases n,
{
    if n == 0 {
        let g0 = greedy_groups(fps, 0);
        assert(g0.len() == 1 && g0[0].len() == 0);
        assert(prefix_len(g0, 1) == prefix_len(g0, 0) + g0[0].len());
    } else {
        let before = greedy_groups(fps, (n - 1) as nat);
        lemma_greedy_groups(fps, (n - 1) as nat);
        lemma_place(fps, before, n - 1);
        if n == 1 {
            // The first item meets an empty first group and joins it.
            assert(before.len() == 1 && before[0].len() == 0);
            assert(!group_blocks(fps, before[0], 0));
        }
    }
}

/// Every item below `n` stands in some group, and in one place only.
pub proof fn lemma_greedy_partition(fps: Seq<Set<int>>, n: nat, item: int)
    requires
        n <= fps.len(),
        0 <= item < n,
    ensures
        exists|g: int, k: int| stands_at(greedy_groups(fps, n), item, g, k),
        forall|g1: int, k1: int, g2: int, k2: int|
            stands_at(greedy_groups(fps, n), item, g1, k1) && stands_at(
                greedy_groups(fps, n),
                item,
                g2,
                k2,
            ) ==> g1 == g2 && k1 == k2,
    decreases n,
{
    let before = greedy_groups(fps, (n - 1) as nat);
    let after = greedy_groups(fps, n);
    let f = first_fit(fps, before, n - 1);
    lemma_greedy_groups(fps, (n - 1) as nat);
    lemma_greedy_groups(fps, n);
    lemma_first_fit_from(fps, before, n - 1, 0);
    // Where the new item went.
    let kf = if f < before.len() {
        before[f].len() as int
    } else {
        0
    };
    assert(stands_at(after, n - 1, f, kf));
    if item == n - 1 {
        assert forall|g1: int, k1: int, g2: int, k2: int|
            stands_at(after, item, g1, k1) && stands_at(after, item, g2, k2) implies g1 == g2
            && k1 == k2 by {
            lemma_new_item_only_at(before, after, f, kf, n - 1, g1, k1);
            lemma_new_item_only_at(before, after, f, kf, n - 1, g2, k2);
        }
    } else {
        lemma_greedy_partition(fps, (n - 1) as nat, item);
        let (g, k) = choose|g: int, k: int| stands_at(before, item, g, k);
        assert(after[g][k] == before[g][k]);
        assert(stands_at(after, item, g, k));
        assert forall|g1: int, k1: int, g2: int, k2: int|
            stands_at(after, item, g1, k1) && stands_at(after, item, g2, k2) implies g1 == g2
            && k1 == k2 by {
            assert(g1 < before.len() && k1 < before[g1].len()) by {
                if !(g1 < before.len() && k1 < before[g1].len()) {
                    assert(after[g1][k1] == n - 1);
                }
            }
            assert(g2 < before.len() && k2 < before[g2].len()) by {
                if !(g2 < before.len() && k2 < before[g2].len()) {
                    assert(after[g2][k2] == n - 1);
                }
            }
            assert(after[g1][k1] == before[g1][k1] && after[g2][k2] == before[g2][k2]);
            assert(stands_at(before, item, g1, k1) && stands_at(before, item, g2, k2));
        }
    }
}

proof fn lemma_new_item_only_at(
    before: Seq<Seq<int>>,
    after: Seq<Seq<int>>,
    f: int,
    kf: int,
    item: int,
    g: int,
    k: int,
)
    requires
        0 <= f <= before.len(),
        groups_sorted_below(before, item),
        f < before.len() ==> after == before.update(f, before[f].push(item)) && kf == before[f].len(),
        f == before.len() ==> after == before.push(seq![item]) && kf == 0,
        stands_at(after, item, g, k),
    ensures
        g == f && k == kf,
{
    if g < before.len() && k < before[g].len() {
        assert(after[g][k] == before[g][k]);
        assert(before[g][k] < item);
    }
}

/// The items before `i` that conflict with it.
pub open spec fn earlier_conflicts(fps: Seq<Set<int>>, i: int) -> Set<int> {
    Set::new(|j: int| 0 <= j < i && overlaps(fps, j, i))
}

/// One earlier conflict of item `i` from each of the first `h` groups;
/// they are `h` different items.
proof fn lemma_one_conflict_per_group(fps: Seq<Set<int>>, n: nat, g: int, k: int, h: int) -> (found:
    Set<int>)
    requires
        n <= fps.len(),
        0 <= g < greedy_groups(fps, n).len(),
        0 <= k < greedy_groups(fps, n)[g].len(),
        0 <= h <= g,
    ensures
        found.finite(),
        found.len() == h,
        found.subset_of(earlier_conflicts(fps, greedy_groups(fps, n)[g][k])),
        forall|x: int|
            found.contains(x) ==> exists|h2: int, m: int|
                0 <= h2 < h && stands_at(greedy_groups(fps, n), x, h2, m),
    decreases h,
{
    let groups = greedy_groups(fps, n);
    let i = groups[g][k];
    lemma_greedy_groups(fps, n);
    if h == 0 {
        Set::empty()
    } else {
        let before = lemma_one_conflict_per_group(fps, n, g, k, h - 1);
        assert(turned_away(fps, groups[h - 1], groups[g][k]));
        let m = choose|m: int|
            0 <= m < groups[h - 1].len() && groups[h - 1][m] < i && overlaps(
                fps,
                #[trigger] groups[h - 1][m],
                i,
            );
        let x = groups[h - 1][m];
        assert(stands_at(groups, x, h - 1, m));
        assert(0 <= x < n);
        assert(!before.contains(x)) by {
            if before.contains(x) {
                let (h2, m2) = choose|h2: int, m2: int|
                    0 <= h2 < h - 1 && stands_at(groups, x, h2, m2);
                lemma_greedy_partition(fps, n, x);
            }
        }
        let found = before.insert(x);
        assert(earlier_conflicts(fps, i).contains(x));
        assert forall|y: int| found.contains(y) implies exists|h2: int, m2: int|
            0 <= h2 < h && stands_at(groups, y, h2, m2) by {
            if y != x {
                let (h2, m2) = choose|h2: int, m2: int|
                    0 <= h2 < h - 1 && stands_at(groups, y, h2, m2);
                assert(0 <= h2 < h && stands_at(groups, y, h2, m2));
            }
        }
        found
    }
}

/// Greedy coloring uses no more colors than conflicts force: the number
/// of the group that an item joins is at most the number of earlier items
/// that conflict with it. So no more than one plus the largest number of
/// earlier conflicts of any item are ever opened.
pub proof fn lemma_greedy_needs_few_groups(fps: Seq<Set<int>>, n: nat, g: int, k: int)
    requires
        n <= fps.len(),
        0 <= g < greedy_groups(fps, n).len(),
        0 <= k < greedy_groups(fps, n)[g].len(),
    ensures
        earlier_conflicts(fps, greedy_groups(fps, n)[g][k]).finite(),
        g <= earlier_conflicts(fps, greedy_groups(fps, n)[g][k]).len(),
{
    let groups = greedy_groups(fps, n);
    let i = groups[g][k];
    lemma_greedy_groups(fps, n);
    let found = lemma_one_conflict_per_group(fps, n, g, k, g);
    let all = earlier_conflicts(fps, i);
    vstd::set_lib::lemma_int_range(0, i);
    assert(all.subset_of(vstd::set_lib::set_int_range(0, i)));
    vstd::set_lib::lemma_len_subset(all, vstd::set_lib::set_int_range(0, i));
    vstd::set_lib::lemma_len_subset(found, all);
}

/// The length of the first `g` groups laid end to end.
pub proof fn lemma_concat_len<T>(groups: Seq<Seq<T>>, g: int)
    requires
        0 <= g <= groups.len(),
    ensures
        concat_upto(groups, g).len() == prefix_len(groups, g),
        prefix_len(groups, g) >= 0,
    decreases g,
{
    if g > 0 {
        lemma_concat_len(groups, g - 1);
    }
}

/// Group `g` occupies the places from `prefix_len(groups, g)` on in the
/// concatenation, member by member.
pub proof fn lemma_concat_index<T>(groups: Seq<Seq<T>>, upto: int, g: int, k: int)
    requires
        0 <= g < upto <= groups.len(),
        0 <= k < groups[g].len(),
    ensures
        0 <= prefix_len(groups, g) + k < concat_upto(groups, upto).len(),
        concat_upto(groups, upto)[prefix_len(groups, g) + k] == groups[g][k],
    decreases upto,
{
    lemma_concat_len(groups, upto - 1);
    lemma_concat_len(groups, upto);
    lemma_concat_len(groups, g);
    if g < upto - 1 {
        lemma_concat_index(groups, upto - 1, g, k);
    }
}

/// Group boundaries rise with the group number.
pub proof fn lemma_prefix_len_monotonic<T>(groups: Seq<Seq<T>>, g: int, h: int)
    requires
        0 <= g <= h <= groups.len(),
    ensures
        prefix_len(groups, g) <= prefix_len(groups, h),
    decreases h - g,
{
    if g < h {
        lemma_prefix_len_monotonic(groups, g, h - 1);
    }
}

} // verus!
