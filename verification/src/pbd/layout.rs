//! From color groups to what the device is given: the bundles of all groups
//! in one list, and for each group where it starts, how long it is and the
//! compute grid that covers it.

use vstd::prelude::*;
use crate::pbd::coloring::{
    concat, concat_upto, lemma_concat_len, lemma_prefix_len_monotonic, prefix_len,
};
use crate::pbd::particle::{cal_group_dims, group_dims, lemma_grid_search};
use crate::pbd::{workgroups_of_32, MeshColoringObj};

verus! {

/// The groups as sequences.
pub open spec fn groups_view<T>(groups: Seq<Vec<T>>) -> Seq<Seq<T>> {
    Seq::new(groups.len(), |g: int| groups[g]@)
}

/// Group `g` as a run of threads: no grid, one row of workgroups of 32.
pub open spec fn flat_color<T>(groups: Seq<Seq<T>>, g: int) -> MeshColoringObj {
    MeshColoringObj {
        offset: prefix_len(groups, g) as u32,
        max_num_x: 0,
        max_num_y: 0,
        group_len: groups[g].len() as u32,
        thread_group: (workgroups_of_32(groups[g].len() as int) as u32, 1),
    }
}

/// Group `g` with the compute grid found for its length, dispatched as one
/// row of workgroups of 32.
pub open spec fn grid_color<T>(groups: Seq<Seq<T>>, g: int) -> MeshColoringObj {
    MeshColoringObj {
        offset: prefix_len(groups, g) as u32,
        max_num_x: group_dims(groups[g].len() as int).0 as u32,
        max_num_y: group_dims(groups[g].len() as int).1 as u32,
        group_len: groups[g].len() as u32,
        thread_group: (workgroups_of_32(groups[g].len() as int) as u32, 1),
    }
}

/// Group `g` with the compute grid found for its length, dispatched as
/// tiles of 8x8 threads.
pub open spec fn tiled_color<T>(groups: Seq<Seq<T>>, g: int) -> MeshColoringObj {
    MeshColoringObj {
        offset: prefix_len(groups, g) as u32,
        max_num_x: group_dims(groups[g].len() as int).0 as u32,
        max_num_y: group_dims(groups[g].len() as int).1 as u32,
        group_len: groups[g].len() as u32,
        thread_group: (
            ((group_dims(groups[g].len() as int).0 + 7) / 8) as u32,
            ((group_dims(groups[g].len() as int).1 + 7) / 8) as u32,
        ),
    }
}

/// How the compute grid of a group is chosen.
#[derive(Clone, Copy, Debug, PartialEq, Eq, Structural)]
pub enum GridKind {
    /// No grid: `max_num_x` and `max_num_y` are 0.
    Flat,
    /// A grid by `group_dims`, dispatched in workgroups of 32.
    Grid,
    /// A grid by `group_dims`, dispatched in tiles of 8x8.
    Tiled,
}

/// The coloring entry of group `g` under the given kind.
pub open spec fn color_of<T>(kind: GridKind, groups: Seq<Seq<T>>, g: int) -> MeshColoringObj {
    match kind {
        GridKind::Flat => flat_color(groups, g),
        GridKind::Grid => grid_color(groups, g),
        GridKind::Tiled => tiled_color(groups, g),
    }
}

/// Lays the groups end to end.
pub fn flatten_groups<T: Copy>(groups: &Vec<Vec<T>>) -> (flat: Vec<T>)
    ensures
        flat@ == concat(groups_view(groups@)),
{
    let ghost gv = groups_view(groups@);
    let mut flat: Vec<T> = Vec::new();
    let mut g: usize = 0;
    while g < groups.len()
        invariant
            g <= groups@.len(),
            gv == groups_view(groups@),
            flat@ == concat_upto(gv, g as int),
        decreases groups@.len() - g,
    {
        let group = &groups[g];
        let mut k: usize = 0;
        while k < group.len()
            invariant
                g < groups@.len(),
                k <= group@.len(),
                *group == groups@[g as int],
                gv == groups_view(groups@),
                flat@ == concat_upto(gv, g as int) + group@.take(k as int),
            decreases group@.len() - k,
        {
            flat.push(group[k]);
            assert(group@.take(k as int).push(group@[k as int]) =~= group@.take(k + 1));
            k += 1;
        }
        assert(group@.take(k as int) =~= gv[g as int]);
        g += 1;
    }
    flat
}

/// Describes each group: its start in the flattened list, its length and
/// its compute grid.
pub fn color_layout<T>(kind: GridKind, groups: &Vec<Vec<T>>) -> (colors: Vec<MeshColoringObj>)
    requires
        prefix_len(groups_view(groups@), groups@.len() as int) <= u32::MAX,
    ensures
        colors@.len() == groups@.len(),
        forall|g: int|
            0 <= g < groups@.len() ==> #[trigger] colors@[g] == color_of(
                kind,
                groups_view(groups@),
                g,
            ),
{
    let ghost gv = groups_view(groups@);
    let mut colors: Vec<MeshColoringObj> = Vec::new();
    let mut offset: u32 = 0;
    let mut g: usize = 0;
    while g < groups.len()
        invariant
            g <= groups@.len(),
            gv == groups_view(groups@),
            prefix_len(gv, groups@.len() as int) <= u32::MAX,
            offset == prefix_len(gv, g as int),
            colors@.len() == g,
            forall|h: int| 0 <= h < g ==> #[trigger] colors@[h] == color_of(kind, gv, h),
        decreases groups@.len() - g,
    {
        proof {
            lemma_prefix_len_monotonic(
                gv,
                g as int + 1,
                groups@.len() as int,
            );
            lemma_concat_len(gv, g as int);
            lemma_grid_search(1, gv[g as int].len() as int);
        }
        let group_len = groups[g].len() as u32;
        let workgroups = ((group_len as u64 + 31) / 32) as u32;
        let color = match kind {
            GridKind::Flat => MeshColoringObj {
                offset,
                max_num_x: 0,
                max_num_y: 0,
                group_len,
                thread_group: (workgroups, 1),
            },
            GridKind::Grid => {
                let dims = cal_group_dims(group_len);
                MeshColoringObj {
                    offset,
                    max_num_x: dims.0,
                    max_num_y: dims.1,
                    group_len,
                    thread_group: (workgroups, 1),
                }
            },
            GridKind::Tiled => {
                let dims = cal_group_dims(group_len);
                MeshColoringObj {
                    offset,
                    max_num_x: dims.0,
                    max_num_y: dims.1,
                    group_len,
                    thread_group: ((dims.0 + 7) / 8, (dims.1 + 7) / 8),
                }
            },
        };
        colors.push(color);
        offset += group_len;
        g += 1;
    }
    colors
}

/// A coloring entry spans exactly the places of its group in the flattened list.
pub proof fn lemma_layout_range<T>(kind: GridKind, groups: Seq<Seq<T>>, g: int)
    requires
        0 <= g < groups.len(),
        prefix_len(groups, groups.len() as int) <= u32::MAX,
    ensures
        color_of(kind, groups, g).offset == prefix_len(groups, g),
        color_of(kind, groups, g).group_len == groups[g].len(),
        color_of(kind, groups, g).offset + color_of(kind, groups, g).group_len == prefix_len(
            groups,
            g + 1,
        ),
{
    lemma_prefix_len_monotonic(groups, g + 1, groups.len() as int);
    lemma_concat_len(groups, g);
}

} // verus!
