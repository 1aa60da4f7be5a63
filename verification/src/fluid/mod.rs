//! Lattice-Boltzmann fluid on a D2Q9 lattice: the nine directions, the
//! layout of the distribution functions, and the lattice itself.

pub mod aa_d2q9_node;
pub mod d2q9_node;
pub mod fluid_player;
pub mod lattice;

use vstd::prelude::*;

verus! {

/// The radius of an obstacle, in cells.
pub const OBSTACLE_RADIUS: u32 = 16;

/// The edge of a lattice cell, in canvas pixels.
pub const LATTICE_PIXEL_SIZE: u32 = 4;

/// The number of cells across a tile: the cells that one workgroup updates.
pub const TILE_WIDTH: u32 = 64;

/// The number of cells down a tile.
pub const TILE_HEIGHT: u32 = 4;

/// Whether a lattice of `width` by `height` cells is made of whole tiles.
pub open spec fn tiled(width: int, height: int) -> bool {
    width % 64 == 0 && height % 4 == 0
}

/// Whether a lattice of `width` by `height` cells can be addressed:
/// eight directions of cells and a step beyond fit in 31 bits.
pub open spec fn addressable(width: int, height: int) -> bool {
    8 * (width * height) + width + 1 <= i32::MAX
}

/// Why there can be no lattice of `width` by `height` cells, if there
/// cannot: it is not made of whole tiles, or, being so, it is too large to
/// address.
pub open spec fn lattice_fault(width: int, height: int) -> Option<crate::ConfigError> {
    if !tiled(width, height) {
        Some(crate::ConfigError::LatticeNotTiled)
    } else if !addressable(width, height) {
        Some(crate::ConfigError::LatticeTooLarge)
    } else {
        None
    }
}

/// Says why there can be no lattice of `width` by `height` cells, or that
/// there can be one.
pub fn check_lattice(width: u32, height: u32) -> (fault: Option<crate::ConfigError>)
    ensures
        fault == lattice_fault(width as int, height as int),
        fault is None ==> width * height <= 0x1000_0000,
{
    if width % TILE_WIDTH != 0 || height % TILE_HEIGHT != 0 {
        return Some(crate::ConfigError::LatticeNotTiled);
    }
    assert(width * height <= 0xffff_ffff * 0xffff_ffff) by (nonlinear_arith)
        requires
            0 <= width <= 0xffff_ffff,
            0 <= height <= 0xffff_ffff,
    ;
    let cells = width as u64 * height as u64;
    if cells > 0x1000_0000 || 8 * cells + width as u64 + 1 > i32::MAX as u64 {
        return Some(crate::ConfigError::LatticeTooLarge);
    }
    None
}

/// Whether the offset `(dx, dy)` is no longer than `r`.
pub open spec fn within_radius(dx: int, dy: int, r: int) -> bool {
    0 <= r && dx * dx + dy * dy <= r * r
}

/// Whether a point at offset `(dx, dy)` from the centre of a disk of radius
/// `r` lies in the disk, its rim included.
pub fn is_sd_sphere(dx: i64, dy: i64, r: i64) -> (inside: bool)
    ensures
        inside == within_radius(dx as int, dy as int, r as int),
{
    if r < 0 {
        return false;
    }
    let x = dx as i128;
    let y = dy as i128;
    let ax: u128 = if x < 0 {
        (-x) as u128
    } else {
        x as u128
    };
    let ay: u128 = if y < 0 {
        (-y) as u128
    } else {
        y as u128
    };
    let ar = r as u128;
    assert(ax * ax == dx * dx) by (nonlinear_arith)
        requires
            ax == dx || ax == -dx,
    ;
    assert(ay * ay == dy * dy) by (nonlinear_arith)
        requires
            ay == dy || ay == -dy,
    ;
    assert(ax * ax <= 0x8000_0000_0000_0000 * 0x8000_0000_0000_0000) by (nonlinear_arith)
        requires
            0 <= ax <= 0x8000_0000_0000_0000,
    ;
    assert(ay * ay <= 0x8000_0000_0000_0000 * 0x8000_0000_0000_0000) by (nonlinear_arith)
        requires
            0 <= ay <= 0x8000_0000_0000_0000,
    ;
    assert(ar * ar <= 0x8000_0000_0000_0000 * 0x8000_0000_0000_0000) by (nonlinear_arith)
        requires
            0 <= ar <= 0x8000_0000_0000_0000,
    ;
    ax * ax + ay * ay <= ar * ar
}

/// The step of lattice direction `i`, as `(dx, dy)` with y pointing down
/// the canvas. Direction 0 rests; 1 to 4 are the axes; 5 to 8 the diagonals:
///
/// ```text
/// 6 2 5
/// 3 0 1
/// 7 4 8
/// ```
pub open spec fn direction(i: int) -> (int, int) {
    if i == 1 {
        (1, 0)
    } else if i == 2 {
        (0, -1)
    } else if i == 3 {
        (-1, 0)
    } else if i == 4 {
        (0, 1)
    } else if i == 5 {
        (1, -1)
    } else if i == 6 {
        (-1, -1)
    } else if i == 7 {
        (-1, 1)
    } else if i == 8 {
        (1, 1)
    } else {
        (0, 0)
    }
}

/// The direction opposite to direction `i`.
pub open spec fn inversed(i: int) -> int {
    if i == 1 {
        3
    } else if i == 2 {
        4
    } else if i == 3 {
        1
    } else if i == 4 {
        2
    } else if i == 5 {
        7
    } else if i == 6 {
        8
    } else if i == 7 {
        5
    } else if i == 8 {
        6
    } else {
        0
    }
}

/// The weight of direction `i`, in thirty-sixths: 4/9 at rest, 1/9 along
/// the axes, 1/36 along the diagonals.
pub open spec fn weight_36(i: int) -> int {
    if i == 0 {
        16
    } else if 1 <= i <= 4 {
        4
    } else if 5 <= i <= 8 {
        1
    } else {
        0
    }
}

/// The step of lattice direction `i`.
pub fn lattice_direction(i: usize) -> (e: (i32, i32))
    requires
        i < 9,
    ensures
        e.0 == direction(i as int).0,
        e.1 == direction(i as int).1,
{
    if i == 1 {
        (1, 0)
    } else if i == 2 {
        (0, -1)
    } else if i == 3 {
        (-1, 0)
    } else if i == 4 {
        (0, 1)
    } else if i == 5 {
        (1, -1)
    } else if i == 6 {
        (-1, -1)
    } else if i == 7 {
        (-1, 1)
    } else if i == 8 {
        (1, 1)
    } else {
        (0, 0)
    }
}

/// The direction opposite to direction `i`.
pub fn inversed_direction(i: usize) -> (inv: usize)
    requires
        i < 9,
    ensures
        inv == inversed(i as int),
        inv < 9,
{
    if i == 1 {
        3
    } else if i == 2 {
        4
    } else if i == 3 {
        1
    } else if i == 4 {
        2
    } else if i == 5 {
        7
    } else if i == 6 {
        8
    } else if i == 7 {
        5
    } else if i == 8 {
        6
    } else {
        0
    }
}

/// The weight of direction `i`, in thirty-sixths.
pub fn direction_weight_36(i: usize) -> (w: u32)
    requires
        i < 9,
    ensures
        w == weight_36(i as int),
{
    if i == 0 {
        16
    } else if i <= 4 {
        4
    } else {
        1
    }
}

/// The opposite of a direction is a direction, undoes itself, steps the
/// other way and weighs the same; only the rest direction is its own
/// opposite and only it does not move.
pub proof fn lemma_opposite_directions(i: int)
    requires
        0 <= i < 9,
    ensures
        0 <= inversed(i) < 9,
        inversed(inversed(i)) == i,
        direction(inversed(i)).0 == -direction(i).0,
        direction(inversed(i)).1 == -direction(i).1,
        weight_36(inversed(i)) == weight_36(i),
        inversed(i) == i <==> i == 0,
        direction(i) == (0int, 0int) <==> i == 0,
{
}

/// The sum of `f(i)` over the directions below `n`.
pub open spec fn sum_directions(f: spec_fn(int) -> int, n: int) -> int
    decreases n,
{
    if n <= 0 {
        0
    } else {
        sum_directions(f, n - 1) + f(n - 1)
    }
}

/// The weights add up to one; weighted, the steps cancel; and the weighted
/// squares of the steps are a third along each axis, with no shear. This is
/// what lets collisions keep mass and momentum.
pub proof fn lemma_lattice_moments()
    ensures
        sum_directions(|i: int| weight_36(i), 9) == 36,
        sum_directions(|i: int| weight_36(i) * direction(i).0, 9) == 0,
        sum_directions(|i: int| weight_36(i) * direction(i).1, 9) == 0,
        sum_directions(|i: int| weight_36(i) * direction(i).0 * direction(i).0, 9) == 12,
        sum_directions(|i: int| weight_36(i) * direction(i).1 * direction(i).1, 9) == 12,
        sum_directions(|i: int| weight_36(i) * direction(i).0 * direction(i).1, 9) == 0,
{
    reveal_with_fuel(sum_directions, 10);
}

/// Where the nine distribution functions of a cell are read and written in
/// one phase of the in-place scheme, as offsets from the cell's number in a
/// buffer that holds direction after direction, each for all cells.
#[derive(Clone, Copy, Debug, PartialEq, Eq)]
pub struct TickTockUniforms {
    pub read_offset: [i32; 9],
    pub write_offset: [i32; 9],
}

/// How far a step in direction `i` moves through a lattice `width` wide,
/// in cells.
pub open spec fn displacement(width: int, i: int) -> int {
    direction(i).0 + direction(i).1 * width
}

/// The offsets of the first phase. A cell reads, for each moving direction,
/// the opposite population of the neighbour in that direction, and writes
/// the direction's own population into the neighbour behind.
pub open spec fn tick_offsets_ok(t: TickTockUniforms, width: int, soa_offset: int) -> bool {
    &&& t.read_offset@[0] == 0
    &&& t.write_offset@[0] == 0
    &&& forall|i: int|
        1 <= i < 9 ==> (#[trigger] t.read_offset@[i]) == displacement(width, i) + soa_offset
            * inversed(i)
    &&& forall|i: int|
        1 <= i < 9 ==> (#[trigger] t.write_offset@[i]) == displacement(width, inversed(i))
            + soa_offset * i
}

/// The offsets of the second phase. A cell reads its own populations and
/// writes each into the place of its opposite.
pub open spec fn tock_offsets_ok(t: TickTockUniforms, soa_offset: int) -> bool {
    &&& t.read_offset@[0] == 0
    &&& t.write_offset@[0] == 0
    &&& forall|i: int| 1 <= i < 9 ==> (#[trigger] t.read_offset@[i]) == soa_offset * i
    &&& forall|i: int| 1 <= i < 9 ==> (#[trigger] t.write_offset@[i]) == soa_offset * inversed(i)
}

/// Computes the read and write offsets of both phases of the in-place
/// scheme for a lattice of `width` by `height` cells.
pub fn tick_tock_uniforms(width: u32, height: u32) -> (phases: (TickTockUniforms, TickTockUniforms))
    requires
        8 * (width * height) + width + 1 <= i32::MAX,
    ensures
        tick_offsets_ok(phases.0, width as int, width * height),
        tock_offsets_ok(phases.1, width * height),
{
    let mut dynamic_data0 = TickTockUniforms { read_offset: [0; 9], write_offset: [0; 9] };
    let mut dynamic_data1 = TickTockUniforms { read_offset: [0; 9], write_offset: [0; 9] };
    let soa_offset = (width * height) as i32;
    let w = width as i32;
    let mut i: usize = 1;
    while i < 9
        invariant
            1 <= i <= 9,
            w == width,
            soa_offset == width * height,
            8 * soa_offset + w + 1 <= i32::MAX,
            dynamic_data0.read_offset@[0] == 0,
            dynamic_data0.write_offset@[0] == 0,
            dynamic_data1.read_offset@[0] == 0,
            dynamic_data1.write_offset@[0] == 0,
            forall|j: int|
                1 <= j < i ==> (#[trigger] dynamic_data0.read_offset@[j]) == displacement(
                    w as int,
                    j,
                ) + soa_offset * inversed(j),
            forall|j: int|
                1 <= j < i ==> (#[trigger] dynamic_data0.write_offset@[j]) == displacement(
                    w as int,
                    inversed(j),
                ) + soa_offset * j,
            forall|j: int|
                1 <= j < i ==> (#[trigger] dynamic_data1.read_offset@[j]) == soa_offset * j,
            forall|j: int|
                1 <= j < i ==> (#[trigger] dynamic_data1.write_offset@[j]) == soa_offset
                    * inversed(j),
        decreases 9 - i,
    {
        let e = lattice_direction(i);
        let inversed = inversed_direction(i);
        let inversed_e = lattice_direction(inversed);
        proof {
            assert(-w <= e.1 * w <= w) by (nonlinear_arith)
                requires
                    -1 <= e.1 <= 1,
                    w >= 0,
            ;
            assert(-w <= inversed_e.1 * w <= w) by (nonlinear_arith)
                requires
                    -1 <= inversed_e.1 <= 1,
                    w >= 0,
            ;
            assert(0 <= soa_offset * inversed <= soa_offset * 8) by (nonlinear_arith)
                requires
                    0 <= inversed <= 8,
                    soa_offset >= 0,
            ;
            assert(0 <= soa_offset * i <= soa_offset * 8) by (nonlinear_arith)
                requires
                    0 <= i <= 8,
                    soa_offset >= 0,
            ;
        }
        dynamic_data0.read_offset[i] = (e.0 + e.1 * w) + soa_offset * inversed as i32;
        dynamic_data0.write_offset[i] = (inversed_e.0 + inversed_e.1 * w) + soa_offset * i as i32;
        dynamic_data1.read_offset[i] = soa_offset * i as i32;
        dynamic_data1.write_offset[i] = soa_offset * inversed as i32;
        i += 1;
    }
    (dynamic_data0, dynamic_data1)
}

/// In the first phase a population is written as far behind the cell as
/// its opposite is read ahead of it; the rest population never moves.
pub proof fn lemma_tick_reads_ahead_writes_behind(
    t: TickTockUniforms,
    width: int,
    soa_offset: int,
    i: int,
)
    requires
        tick_offsets_ok(t, width, soa_offset),
        0 <= i < 9,
    ensures
        t.read_offset@[i] - soa_offset * inversed(i) == -(t.write_offset@[i] - soa_offset * i),
        i == 0 ==> t.read_offset@[i] == 0 && t.write_offset@[i] == 0,
{
    lemma_opposite_directions(i);
    if i > 0 {
        assert(displacement(width, inversed(i)) == -displacement(width, i)) by (nonlinear_arith)
            requires
                direction(inversed(i)).0 == -direction(i).0,
                direction(inversed(i)).1 == -direction(i).1,
                displacement(width, i) == direction(i).0 + direction(i).1 * width,
                displacement(width, inversed(i)) == direction(inversed(i)).0 + direction(
                    inversed(i),
                ).1 * width,
        ;
    } else {
        assert(soa_offset * 0 == 0);
    }
}

/// In the first phase a cell writes exactly the places that it read:
/// where it reads the population opposite to `i`, it writes population
/// `inversed(i)`'s own value back.
pub proof fn lemma_tick_is_in_place(t: TickTockUniforms, width: int, soa_offset: int, i: int)
    requires
        tick_offsets_ok(t, width, soa_offset),
        0 <= i < 9,
    ensures
        t.write_offset@[inversed(i)] == t.read_offset@[i],
{
    lemma_opposite_directions(i);
    if i == 0 {
        assert(inversed(i) == 0);
    }
}

/// In the second phase too a cell writes exactly the places that it read.
pub proof fn lemma_tock_is_in_place(t: TickTockUniforms, soa_offset: int, i: int)
    requires
        tock_offsets_ok(t, soa_offset),
        0 <= i < 9,
    ensures
        t.write_offset@[inversed(i)] == t.read_offset@[i],
{
    lemma_opposite_directions(i);
    if i == 0 {
        assert(inversed(i) == 0);
    }
}

/// The read offset of the first phase, for the rest direction too.
proof fn lemma_read_offset(t: TickTockUniforms, width: int, soa_offset: int, i: int)
    requires
        tick_offsets_ok(t, width, soa_offset),
        0 <= i < 9,
    ensures
        t.read_offset@[i] == displacement(width, i) + soa_offset * inversed(i),
{
    if i == 0 {
        assert(soa_offset * 0 == 0);
        assert(0 * width == 0);
        assert(direction(0) == (0int, 0int));
    } else {
        assert(1 <= i < 9);
    }
}

/// In the first phase no place of the buffer is touched by two cells, nor
/// twice by one: as long as a step from a cell stays inside the lattice,
/// cell and direction can be told from the place that is read.
pub proof fn lemma_tick_places_apart(
    t: TickTockUniforms,
    width: int,
    soa_offset: int,
    c1: int,
    i1: int,
    c2: int,
    i2: int,
)
    requires
        tick_offsets_ok(t, width, soa_offset),
        0 <= i1 < 9,
        0 <= i2 < 9,
        0 <= c1 + displacement(width, i1) < soa_offset,
        0 <= c2 + displacement(width, i2) < soa_offset,
        c1 != c2 || i1 != i2,
    ensures
        c1 + t.read_offset@[i1] != c2 + t.read_offset@[i2],
{
    lemma_opposite_directions(i1);
    lemma_opposite_directions(i2);
    let at1 = c1 + displacement(width, i1);
    let at2 = c2 + displacement(width, i2);
    let k1 = inversed(i1);
    let k2 = inversed(i2);
    lemma_read_offset(t, width, soa_offset, i1);
    lemma_read_offset(t, width, soa_offset, i2);
    crate::pbd::grid::lemma_grid_coords(soa_offset, k1, at1);
    crate::pbd::grid::lemma_grid_coords(soa_offset, k2, at2);
    assert(k1 * soa_offset == soa_offset * k1) by (nonlinear_arith);
    assert(k2 * soa_offset == soa_offset * k2) by (nonlinear_arith);
    if c1 + t.read_offset@[i1] == c2 + t.read_offset@[i2] {
        assert(k1 * soa_offset + at1 == k2 * soa_offset + at2);
        assert(k1 == k2);
        assert(inversed(k1) == i1 && inversed(k2) == i2);
        assert(i1 == i2);
        assert(at1 == at2);
    }
}

/// The number of workgroups of `size` threads that cover `n` items.
pub open spec fn workgroups(n: int, size: int) -> int {
    (n + size - 1) / size
}

/// The workgroups of a lattice made of whole tiles cover it exactly: no
/// thread falls outside the lattice.
pub proof fn lemma_tiled_workgroups(width: int, height: int)
    requires
        0 <= width,
        0 <= height,
        tiled(width, height),
    ensures
        workgroups(width, 64) * 64 == width,
        workgroups(height, 4) * 4 == height,
{
}

/// The workgroups that cover a lattice: 64 cells wide and 4 cells high each.
pub fn lattice_workgroups(width: u32, height: u32) -> (count: (u32, u32, u32))
    ensures
        count.0 == workgroups(width as int, 64),
        count.1 == workgroups(height as int, 4),
        count.2 == 1,
{
    (((width as u64 + 63) / 64) as u32, ((height as u64 + 3) / 4) as u32, 1)
}

} // verus!
