//! Index lists for the meshes that are drawn: a fan for a circle, a ring
//! of quads for a disc, and a grid of quads for a cloth.

use vstd::prelude::*;
use crate::pbd::grid::{lemma_grid_bound, lemma_grid_coords};
use crate::pbd::TriangleObj;

verus! {

/// Index `k` of the triangle list of a circle of `fan_segment` segments.
/// Vertex 0 is the centre, vertices 1 to `fan_segment` walk round the rim
/// (vertex `fan_segment + 1` closes it on vertex 1). Triangle `t` joins the
/// centre, rim vertex `t + 1` and the next rim vertex; the last triangle
/// returns to rim vertex 1.
pub open spec fn circle_index_at(fan_segment: int, k: int) -> int {
    let t = k / 3;
    if k % 3 == 0 {
        0
    } else if k % 3 == 1 {
        t + 1
    } else if t + 1 == fan_segment {
        1
    } else {
        t + 2
    }
}

/// The triangle list of a circle cut into `fan_segment` segments.
pub fn generate_circle_plane(fan_segment: usize) -> (index_list: Vec<u32>)
    requires
        3 * fan_segment <= u32::MAX,
    ensures
        index_list@.len() == 3 * fan_segment,
        forall|k: int|
            0 <= k < index_list@.len() ==> #[trigger] index_list@[k] == circle_index_at(
                fan_segment as int,
                k,
            ),
        forall|k: int| 0 <= k < index_list@.len() ==> #[trigger] index_list@[k] < fan_segment + 2,
{
    let mut index_list: Vec<u32> = Vec::new();
    let mut i: usize = 1;
    while i <= fan_segment
        invariant
            1 <= i <= fan_segment + 1,
            3 * fan_segment <= u32::MAX,
            index_list@.len() == 3 * (i - 1),
            forall|k: int|
                0 <= k < index_list@.len() ==> #[trigger] index_list@[k] == circle_index_at(
                    fan_segment as int,
                    k,
                ),
            forall|k: int| 0 <= k < index_list@.len() ==> #[trigger] index_list@[k] < fan_segment + 2,
        decreases fan_segment + 1 - i,
    {
        index_list.push(0);
        index_list.push(i as u32);
        if i == fan_segment {
            index_list.push(1);
        } else {
            index_list.push(i as u32 + 1);
        }
        i += 1;
    }
    index_list
}

/// Index `k` of the triangle list of a disc of `fan_segment` segments.
/// Vertices `2 s` and `2 s + 1` are the inner and the outer end of spoke
/// `s`. Quad `q` lies between spoke `q` and the next spoke, as two
/// triangles; the last quad returns to spoke 0.
pub open spec fn disc_index_at(fan_segment: int, k: int) -> int {
    let q = k / 6;
    let near = 2 * q;
    let far = if q + 1 == fan_segment {
        0
    } else {
        2 * q + 2
    };
    if k % 6 == 0 {
        near
    } else if k % 6 == 1 {
        near + 1
    } else if k % 6 == 2 {
        far
    } else if k % 6 == 3 {
        far
    } else if k % 6 == 4 {
        near + 1
    } else {
        far + 1
    }
}

/// The triangle list of a disc cut into `fan_segment` segments.
pub fn generate_disc_plane(fan_segment: usize) -> (index_list: Vec<u32>)
    requires
        1 <= fan_segment,
        6 * fan_segment <= u32::MAX,
    ensures
        index_list@.len() == 6 * fan_segment,
        forall|k: int|
            0 <= k < index_list@.len() ==> #[trigger] index_list@[k] == disc_index_at(
                fan_segment as int,
                k,
            ),
        forall|k: int| 0 <= k < index_list@.len() ==> #[trigger] index_list@[k] < 2 * fan_segment,
{
    let mut index_list: Vec<u32> = Vec::new();
    let mut i: usize = 1;
    while i < fan_segment
        invariant
            1 <= i <= fan_segment,
            6 * fan_segment <= u32::MAX,
            index_list@.len() == 6 * (i - 1),
            forall|k: int|
                0 <= k < index_list@.len() ==> #[trigger] index_list@[k] == disc_index_at(
                    fan_segment as int,
                    k,
                ),
            forall|k: int| 0 <= k < index_list@.len() ==> #[trigger] index_list@[k] < 2 * fan_segment,
        decreases fan_segment - i,
    {
        let index = i as u32 * 2;
        index_list.push(index - 2);
        index_list.push(index - 1);
        index_list.push(index);
        index_list.push(index);
        index_list.push(index - 1);
        index_list.push(index + 1);
        i += 1;
    }
    let index = (fan_segment - 1) as u32 * 2;
    index_list.push(index);
    index_list.push(index + 1);
    index_list.push(0);
    index_list.push(0);
    index_list.push(index + 1);
    index_list.push(1);
    index_list
}

/// The number of quads of a cloth of `nx` by `ny` particles.
pub open spec fn cloth_quads(nx: int, ny: int) -> int {
    if nx >= 1 && ny >= 1 {
        (nx - 1) * (ny - 1)
    } else {
        0
    }
}

/// Index `k` of the triangle list of a cloth `nx` particles wide. Quad `q`
/// has its lower right corner at row `q / (nx - 1) + 1`, column
/// `q % (nx - 1) + 1`; it is drawn as the triangle of that corner, the
/// corner above and the corner above left, and the triangle of that
/// corner, the corner above left and the corner to the left.
pub open spec fn cloth_index_at(nx: int, k: int) -> int {
    let q = k / 6;
    let current = nx * (q / (nx - 1) + 1) + q % (nx - 1) + 1;
    let top = current - nx;
    if k % 6 == 0 || k % 6 == 3 {
        current
    } else if k % 6 == 1 {
        top
    } else if k % 6 == 2 || k % 6 == 4 {
        top - 1
    } else {
        current - 1
    }
}

/// The triangle list that draws a cloth of `particle_x_num` by
/// `particle_y_num` particles. Every index names a particle of the cloth.
pub fn cloth_index_data(particle_x_num: u32, particle_y_num: u32) -> (index_data: Vec<u32>)
    requires
        6 * (particle_x_num * particle_y_num) <= u32::MAX,
    ensures
        index_data@.len() == 6 * cloth_quads(particle_x_num as int, particle_y_num as int),
        forall|k: int|
            0 <= k < index_data@.len() ==> #[trigger] index_data@[k] == cloth_index_at(
                particle_x_num as int,
                k,
            ),
        forall|k: int|
            0 <= k < index_data@.len() ==> #[trigger] index_data@[k] < particle_x_num
                * particle_y_num,
{
    let ghost nx = particle_x_num as int;
    let ghost ny = particle_y_num as int;
    let mut index_data: Vec<u32> = Vec::new();
    if particle_x_num < 2 || particle_y_num < 2 {
        assert(cloth_quads(nx, ny) == 0) by (nonlinear_arith)
            requires
                nx < 2 || ny < 2,
                nx >= 0,
                ny >= 0,
                cloth_quads(nx, ny) == if nx >= 1 && ny >= 1 {
                    (nx - 1) * (ny - 1)
                } else {
                    0
                },
        ;
        return index_data;
    }
    proof {
        assert(0 * (nx - 1) == 0);
    }
    let mut h: u32 = 1;
    while h < particle_y_num
        invariant
            1 <= h <= particle_y_num,
            nx == particle_x_num,
            ny == particle_y_num,
            2 <= nx,
            2 <= ny,
            6 * (nx * ny) <= u32::MAX,
            index_data@.len() == 6 * ((h - 1) * (nx - 1)),
            forall|k: int|
                0 <= k < index_data@.len() ==> #[trigger] index_data@[k] == cloth_index_at(nx, k),
            forall|k: int| 0 <= k < index_data@.len() ==> #[trigger] index_data@[k] < nx * ny,
        decreases particle_y_num - h,
    {
        let mut w: u32 = 1;
        while w < particle_x_num
            invariant
                1 <= h < particle_y_num,
                1 <= w <= particle_x_num,
                nx == particle_x_num,
                ny == particle_y_num,
                2 <= nx,
                2 <= ny,
                6 * (nx * ny) <= u32::MAX,
                index_data@.len() == 6 * ((h - 1) * (nx - 1) + (w - 1)),
                forall|k: int|
                    0 <= k < index_data@.len() ==> #[trigger] index_data@[k] == cloth_index_at(
                        nx,
                        k,
                    ),
                forall|k: int| 0 <= k < index_data@.len() ==> #[trigger] index_data@[k] < nx * ny,
            decreases particle_x_num - w,
        {
            let ghost q = (h - 1) * (nx - 1) + (w - 1);
            proof {
                lemma_grid_coords(nx - 1, h - 1, w - 1);
                lemma_grid_bound(nx, ny, h as int, w as int);
                assert(h * nx == nx * h) by (nonlinear_arith);
                assert(nx * h >= nx) by (nonlinear_arith)
                    requires
                        h >= 1,
                        nx >= 0,
                ;
                assert((6 * q) / 6 == q && (6 * q + 1) / 6 == q && (6 * q + 2) / 6 == q && (6 * q
                    + 3) / 6 == q && (6 * q + 4) / 6 == q && (6 * q + 5) / 6 == q);
            }
            let current: u32 = particle_x_num * h + w;
            let top: u32 = current - particle_x_num;
            index_data.push(current);
            index_data.push(top);
            index_data.push(top - 1);
            index_data.push(current);
            index_data.push(top - 1);
            index_data.push(current - 1);
            w += 1;
        }
        proof {
            assert(h * (nx - 1) == (h - 1) * (nx - 1) + (nx - 1)) by (nonlinear_arith);
        }
        h += 1;
    }
    proof {
        assert((ny - 1) * (nx - 1) == (nx - 1) * (ny - 1)) by (nonlinear_arith);
    }
    index_data
}

/// The triangles of a triangle list, three indices each.
pub fn triangles_of(index_data: &Vec<u32>) -> (triangles: Vec<TriangleObj>)
    requires
        forall|k: int| 0 <= k < index_data@.len() ==> #[trigger] index_data@[k] <= i32::MAX,
    ensures
        triangles@.len() == index_data@.len() / 3,
        forall|t: int|
            0 <= t < triangles@.len() ==> #[trigger] triangles@[t] == (TriangleObj {
                v0: index_data@[3 * t] as i32,
                v1: index_data@[3 * t + 1] as i32,
                v2: index_data@[3 * t + 2] as i32,
            }),
{
    let mut triangles: Vec<TriangleObj> = Vec::new();
    let n = index_data.len() / 3;
    let mut t: usize = 0;
    while t < n
        invariant
            t <= n,
            n == index_data@.len() / 3,
            index_data@.len() <= usize::MAX,
            forall|k: int| 0 <= k < index_data@.len() ==> #[trigger] index_data@[k] <= i32::MAX,
            triangles@.len() == t,
            forall|u: int|
                0 <= u < t ==> #[trigger] triangles@[u] == (TriangleObj {
                    v0: index_data@[3 * u] as i32,
                    v1: index_data@[3 * u + 1] as i32,
                    v2: index_data@[3 * u + 2] as i32,
                }),
        decreases n - t,
    {
        triangles.push(
            TriangleObj {
                v0: index_data[3 * t] as i32,
                v1: index_data[3 * t + 1] as i32,
                v2: index_data[3 * t + 2] as i32,
            },
        );
        t += 1;
    }
    triangles
}

} // verus!
