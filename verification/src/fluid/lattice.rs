//! The lattice a fluid solver works on: one cell per grid point, each with
//! a material and a prescribed velocity.

use vstd::prelude::*;
use crate::fluid::{is_sd_sphere, within_radius, LATTICE_PIXEL_SIZE, OBSTACLE_RADIUS};
use crate::FieldAnimationType;

verus! {

/// What a lattice cell is made of.
#[derive(Clone, Copy, Debug, PartialEq, Eq, Structural)]
pub enum LatticeType {
    /// Fluid.
    Bulk,
    /// A wall of the domain.
    Boundary,
    /// Fluid enters here with the cell's velocity.
    Inlet,
    /// A solid body inside the domain.
    Obstacle,
    /// Fluid leaves here.
    Outlet,
    /// Fluid pushed by a pointer gesture, for a limited number of steps.
    ExternalForce,
}

impl LatticeType {
    /// The number that stands for the material in device memory.
    pub open spec fn code_spec(self) -> i32 {
        match self {
            LatticeType::Bulk => 1,
            LatticeType::Boundary => 2,
            LatticeType::Inlet => 3,
            LatticeType::Obstacle => 4,
            LatticeType::Outlet => 5,
            LatticeType::ExternalForce => 6,
        }
    }

    /// The number that stands for the material in device memory.
    pub fn code(&self) -> (c: i32)
        ensures
            c == self.code_spec(),
    {
        match self {
            LatticeType::Bulk => 1,
            LatticeType::Boundary => 2,
            LatticeType::Inlet => 3,
            LatticeType::Obstacle => 4,
            LatticeType::Outlet => 5,
            LatticeType::ExternalForce => 6,
        }
    }
}

/// Different materials have different codes.
pub proof fn lemma_codes_distinct(a: LatticeType, b: LatticeType)
    ensures
        a.code_spec() == b.code_spec() <==> a == b,
{
}

/// The bit pattern of the single-precision number 0.12, the speed at which
/// fluid enters a Poiseuille channel, in lattice units.
pub const INLET_SPEED_BITS: u32 = 0x3DF5_C28F;

/// The value of `block_iter` in a cell whose material is permanent.
pub const PERMANENT: i32 = -1;

/// The number of solver steps for which a pushed cell keeps pushing.
pub const FORCE_STEPS: i32 = 30;

/// One lattice cell. The velocity components are carried as the bit
/// patterns of single-precision numbers, as device memory holds them; no
/// arithmetic is done on them here.
#[derive(Clone, Copy, Debug, PartialEq, Eq, Structural)]
pub struct LatticeInfo {
    pub material: LatticeType,
    /// Steps left until a temporary material reverts; `PERMANENT` otherwise.
    pub block_iter: i32,
    pub vx_bits: u32,
    pub vy_bits: u32,
}

impl LatticeInfo {
    /// A permanent cell at rest.
    pub open spec fn still(material: LatticeType) -> LatticeInfo {
        LatticeInfo { material, block_iter: PERMANENT, vx_bits: 0, vy_bits: 0 }
    }

    /// The cell that an obstacle leaves behind it.
    pub open spec fn obstacle() -> LatticeInfo {
        LatticeInfo::still(LatticeType::Obstacle)
    }

    /// The cell after one solver step. A pushed cell and an obstacle with a
    /// positive counter count down; on reaching zero the cell becomes fluid
    /// at rest. Every other cell stays as it is.
    pub open spec fn stepped(self) -> LatticeInfo {
        if self.block_iter > 0 && (self.material == LatticeType::ExternalForce || self.material
            == LatticeType::Obstacle) {
            if self.block_iter == 1 {
                LatticeInfo::still(LatticeType::Bulk)
            } else {
                LatticeInfo { block_iter: (self.block_iter - 1) as i32, ..self }
            }
        } else {
            self
        }
    }

    /// Advances the cell's material by one solver step.
    pub fn advance_material(&self) -> (next: LatticeInfo)
        ensures
            next == self.stepped(),
    {
        let counts = match self.material {
            LatticeType::ExternalForce => true,
            LatticeType::Obstacle => true,
            _ => false,
        };
        if self.block_iter > 0 && counts {
            if self.block_iter == 1 {
                LatticeInfo {
                    material: LatticeType::Bulk,
                    block_iter: PERMANENT,
                    vx_bits: 0,
                    vy_bits: 0,
                }
            } else {
                LatticeInfo {
                    material: self.material,
                    block_iter: self.block_iter - 1,
                    vx_bits: self.vx_bits,
                    vy_bits: self.vy_bits,
                }
            }
        } else {
            *self
        }
    }
}

/// A wall stays a wall, an inlet an inlet, an outlet an outlet, and nothing
/// but a pushed cell or an obstacle ever turns into fluid.
pub proof fn lemma_step_keeps_walls(cell: LatticeInfo)
    ensures
        cell.material == LatticeType::Boundary ==> cell.stepped() == cell,
        cell.material == LatticeType::Inlet ==> cell.stepped() == cell,
        cell.material == LatticeType::Outlet ==> cell.stepped() == cell,
        cell.block_iter <= 0 ==> cell.stepped() == cell,
        cell.stepped().material != cell.material ==> cell.stepped() == LatticeInfo::still(
            LatticeType::Bulk,
        ) && (cell.material == LatticeType::ExternalForce || cell.material
            == LatticeType::Obstacle),
{
}

/// Advances the material of every cell by one solver step.
pub fn advance_materials(cells: &mut Vec<LatticeInfo>)
    ensures
        final(cells)@.len() == old(cells)@.len(),
        forall|i: int|
            0 <= i < old(cells)@.len() ==> #[trigger] final(cells)@[i] == old(cells)@[i].stepped(),
{
    let ghost before = cells@;
    let n = cells.len();
    let mut i: usize = 0;
    while i < n
        invariant
            i <= n,
            n == before.len(),
            cells@.len() == n,
            forall|k: int| 0 <= k < i ==> #[trigger] cells@[k] == before[k].stepped(),
            forall|k: int| i <= k < n ==> #[trigger] cells@[k] == before[k],
        decreases n - i,
    {
        let next = cells[i].advance_material();
        cells[i] = next;
        i += 1;
    }
}

/// Whether the cell at `(x, y)` of an `nx` by `ny` channel lies in one of
/// the three round obstacles of the Poiseuille scenario. Their centres are
/// `(nx/7 - 16, ny/2)`, `(nx/5, ny/3)` and `(nx/5, 33 ny/50)`, taken as exact
/// fractions, and their radius is 16.
pub open spec fn in_channel_obstacle(nx: int, ny: int, x: int, y: int) -> bool {
    ||| within_radius(14 * x - 2 * nx + 224, 14 * y - 7 * ny, 224)
    ||| within_radius(15 * x - 3 * nx, 15 * y - 5 * ny, 240)
    ||| within_radius(50 * x - 10 * nx, 50 * y - 33 * ny, 800)
}

/// The cell at `(x, y, z)` of a fresh `nx` by `ny` by `nz` lattice.
///
/// In the custom scenario the rim of each layer is wall and the rest fluid.
/// In the Poiseuille scenario the top and bottom rows are wall, and in a
/// lattice of several layers so are the first and last layer; the left
/// column is inlet, with speed 0.12 to the right; the right column is
/// outlet; inside, three round obstacles stand in the stream. Every other
/// scenario starts as fluid throughout.
pub open spec fn initial_cell_at(
    nx: int,
    ny: int,
    nz: int,
    ty: FieldAnimationType,
    x: int,
    y: int,
    z: int,
) -> LatticeInfo {
    match ty {
        FieldAnimationType::Custom => {
            if x == 0 || x == nx - 1 || y == 0 || y == ny - 1 {
                LatticeInfo::still(LatticeType::Boundary)
            } else {
                LatticeInfo::still(LatticeType::Bulk)
            }
        },
        FieldAnimationType::Poiseuille => {
            if y == 0 || y == ny - 1 || (nz > 1 && (z == 0 || z == nz - 1)) {
                LatticeInfo::still(LatticeType::Boundary)
            } else if x == 0 {
                LatticeInfo {
                    material: LatticeType::Inlet,
                    block_iter: PERMANENT,
                    vx_bits: INLET_SPEED_BITS,
                    vy_bits: 0,
                }
            } else if x == nx - 1 {
                LatticeInfo::still(LatticeType::Outlet)
            } else if in_channel_obstacle(nx, ny, x, y) {
                LatticeInfo::still(LatticeType::Obstacle)
            } else {
                LatticeInfo::still(LatticeType::Bulk)
            }
        },
        _ => LatticeInfo::still(LatticeType::Bulk),
    }
}

/// The cell with number `i` of a fresh lattice. Cells are numbered along x
/// first, then y, then z.
pub open spec fn initial_cell(
    nx: int,
    ny: int,
    nz: int,
    ty: FieldAnimationType,
    i: int,
) -> LatticeInfo {
    initial_cell_at(nx, ny, nz, ty, i % nx, (i / nx) % ny, (i / nx) / ny)
}

/// A fresh lattice: what a scenario starts from, whenever it starts.
pub open spec fn initial_lattice(nx: int, ny: int, nz: int, ty: FieldAnimationType) -> Seq<
    LatticeInfo,
> {
    Seq::new((nx * ny * nz) as nat, |i: int| initial_cell(nx, ny, nz, ty, i))
}

/// The number of the cell at `(x, y, z)`.
pub open spec fn cell_index(nx: int, ny: int, x: int, y: int, z: int) -> int {
    (z * ny + y) * nx + x
}

/// The cell at `(x, y, z)` of a fresh lattice is what `initial_cell_at` says.
pub proof fn lemma_initial_lattice_at(
    nx: int,
    ny: int,
    nz: int,
    ty: FieldAnimationType,
    x: int,
    y: int,
    z: int,
)
    requires
        0 <= x < nx,
        0 <= y < ny,
        0 <= z < nz,
    ensures
        0 <= cell_index(nx, ny, x, y, z) < initial_lattice(nx, ny, nz, ty).len(),
        initial_lattice(nx, ny, nz, ty)[cell_index(nx, ny, x, y, z)] == initial_cell_at(
            nx,
            ny,
            nz,
            ty,
            x,
            y,
            z,
        ),
{
    let r = z * ny + y;
    crate::pbd::grid::lemma_grid_coords(ny, z, y);
    crate::pbd::grid::lemma_grid_bound(ny, nz, z, y);
    crate::pbd::grid::lemma_grid_coords(nx, r, x);
    crate::pbd::grid::lemma_grid_bound(nx, ny * nz, r, x);
    assert(nx * (ny * nz) == nx * ny * nz) by (nonlinear_arith);
    assert(nx * ny * nz >= 0) by (nonlinear_arith)
        requires
            nx > 0,
            ny > 0,
            nz > 0,
    ;
}

/// Two lattices that each are a fresh start of the same scenario are the
/// same, cell for cell, in material and velocity.
pub proof fn lemma_fresh_lattices_agree(
    first: Seq<LatticeInfo>,
    second: Seq<LatticeInfo>,
    nx: int,
    ny: int,
    nz: int,
    ty: FieldAnimationType,
)
    requires
        first == initial_lattice(nx, ny, nz, ty),
        second == initial_lattice(nx, ny, nz, ty),
    ensures
        first.len() == second.len(),
        forall|i: int|
            0 <= i < first.len() ==> (#[trigger] first[i]).material == second[i].material
                && first[i].vx_bits == second[i].vx_bits && first[i].vy_bits
                == second[i].vy_bits && first[i].block_iter == second[i].block_iter,
{
}

/// Whether the cell at `(x, y)` lies in one of the three round obstacles of
/// the Poiseuille scenario.
fn channel_obstacle(nx: u32, ny: u32, x: u32, y: u32) -> (hit: bool)
    ensures
        hit == in_channel_obstacle(nx as int, ny as int, x as int, y as int),
{
    let nx = nx as i64;
    let ny = ny as i64;
    let x = x as i64;
    let y = y as i64;
    let r = OBSTACLE_RADIUS as i64;
    is_sd_sphere(14 * x - 2 * nx + 224, 14 * y - 7 * ny, 14 * r) || is_sd_sphere(
        15 * x - 3 * nx,
        15 * y - 5 * ny,
        15 * r,
    ) || is_sd_sphere(50 * x - 10 * nx, 50 * y - 33 * ny, 50 * r)
}

/// Builds the lattice that a scenario starts from.
pub fn init_lattice_material(nx: u32, ny: u32, nz: u32, ty: FieldAnimationType) -> (info: Vec<
    LatticeInfo,
>)
    requires
        nx * ny * nz <= usize::MAX,
    ensures
        info@ == initial_lattice(nx as int, ny as int, nz as int, ty),
{
    let mut info: Vec<LatticeInfo> = Vec::new();
    if nx == 0 || ny == 0 || nz == 0 {
        assert(nx * ny * nz == 0) by (nonlinear_arith)
            requires
                nx == 0 || ny == 0 || nz == 0,
        ;
        assert(info@ =~= initial_lattice(nx as int, ny as int, nz as int, ty));
        return info;
    }
    let ghost total = nx as int * ny as int * nz as int;
    assert(cell_index(nx as int, ny as int, 0, 0, 0) == 0) by (nonlinear_arith);
    let mut z: u32 = 0;
    while z < nz
        invariant
            z <= nz,
            nx > 0,
            ny > 0,
            total == nx * ny * nz,
            total <= usize::MAX,
            info@.len() == cell_index(nx as int, ny as int, 0, 0, z as int),
            forall|i: int|
                0 <= i < info@.len() ==> #[trigger] info@[i] == initial_cell(
                    nx as int,
                    ny as int,
                    nz as int,
                    ty,
                    i,
                ),
        decreases nz - z,
    {
        let mut y: u32 = 0;
        while y < ny
            invariant
                z < nz,
                y <= ny,
                nx > 0,
                ny > 0,
                total == nx * ny * nz,
                total <= usize::MAX,
                info@.len() == cell_index(nx as int, ny as int, 0, y as int, z as int),
                forall|i: int|
                    0 <= i < info@.len() ==> #[trigger] info@[i] == initial_cell(
                        nx as int,
                        ny as int,
                        nz as int,
                        ty,
                        i,
                    ),
            decreases ny - y,
        {
            let mut x: u32 = 0;
            while x < nx
                invariant
                    z < nz,
                    y < ny,
                    x <= nx,
                    nx > 0,
                    ny > 0,
                    total == nx * ny * nz,
                    total <= usize::MAX,
                    info@.len() == cell_index(nx as int, ny as int, x as int, y as int, z as int),
                    forall|i: int|
                        0 <= i < info@.len() ==> #[trigger] info@[i] == initial_cell(
                            nx as int,
                            ny as int,
                            nz as int,
                            ty,
                            i,
                        ),
                decreases nx - x,
            {
                proof {
                    lemma_initial_lattice_at(
                        nx as int,
                        ny as int,
                        nz as int,
                        ty,
                        x as int,
                        y as int,
                        z as int,
                    );
                }
                let cell = match ty {
                    FieldAnimationType::Custom => {
                        if x == 0 || x == nx - 1 || y == 0 || y == ny - 1 {
                            LatticeInfo {
                                material: LatticeType::Boundary,
                                block_iter: PERMANENT,
                                vx_bits: 0,
                                vy_bits: 0,
                            }
                        } else {
                            LatticeInfo {
                                material: LatticeType::Bulk,
                                block_iter: PERMANENT,
                                vx_bits: 0,
                                vy_bits: 0,
                            }
                        }
                    },
                    FieldAnimationType::Poiseuille => {
                        if y == 0 || y == ny - 1 || (nz > 1 && (z == 0 || z == nz - 1)) {
                            LatticeInfo {
                                material: LatticeType::Boundary,
                                block_iter: PERMANENT,
                                vx_bits: 0,
                                vy_bits: 0,
                            }
                        } else if x == 0 {
                            LatticeInfo {
                                material: LatticeType::Inlet,
                                block_iter: PERMANENT,
                                vx_bits: INLET_SPEED_BITS,
                                vy_bits: 0,
                            }
                        } else if x == nx - 1 {
                            LatticeInfo {
                                material: LatticeType::Outlet,
                                block_iter: PERMANENT,
                                vx_bits: 0,
                                vy_bits: 0,
                            }
                        } else if channel_obstacle(nx, ny, x, y) {
                            LatticeInfo {
                                material: LatticeType::Obstacle,
                                block_iter: PERMANENT,
                                vx_bits: 0,
                                vy_bits: 0,
                            }
                        } else {
                            LatticeInfo {
                                material: LatticeType::Bulk,
                                block_iter: PERMANENT,
                                vx_bits: 0,
                                vy_bits: 0,
                            }
                        }
                    },
                    _ => LatticeInfo {
                        material: LatticeType::Bulk,
                        block_iter: PERMANENT,
                        vx_bits: 0,
                        vy_bits: 0,
                    },
                };
                info.push(cell);
                x += 1;
            }
            proof {
                assert(cell_index(nx as int, ny as int, nx as int, y as int, z as int)
                    == cell_index(nx as int, ny as int, 0, y + 1, z as int)) by (nonlinear_arith);
            }
            y += 1;
        }
        proof {
            assert(cell_index(nx as int, ny as int, 0, ny as int, z as int) == cell_index(
                nx as int,
                ny as int,
                0,
                0,
                z + 1,
            )) by (nonlinear_arith);
        }
        z += 1;
    }
    proof {
        assert(cell_index(nx as int, ny as int, 0, 0, nz as int) == nx * ny * nz)
            by (nonlinear_arith);
        assert(info@ =~= initial_lattice(nx as int, ny as int, nz as int, ty));
    }
    info
}

/// A run of consecutive cells.
#[derive(Clone, Copy, Debug, PartialEq, Eq, Structural)]
pub struct CellSpan {
    pub first: usize,
    pub count: usize,
}

/// Whether an obstacle may be centred on cell `(x, y)`: `x` lies between 16
/// and `width - 18` and `y` between 16 and `height - 18`, both ends
/// included. The disk then lies inside the lattice.
pub open spec fn obstacle_fits(width: int, height: int, x: int, y: int) -> bool {
    16 <= x && x + 18 <= width && 16 <= y && y + 18 <= height
}

/// Whether cell `i` of a lattice `width` wide lies in the disk of radius 16
/// round cell `(x, y)`: in one of the 33 rows from `y - 16` to `y + 16`, and
/// no further than 16 from the centre.
pub open spec fn in_obstacle(width: int, x: int, y: int, i: int) -> bool {
    y - 16 <= i / width <= y + 16 && within_radius(i % width - x, i / width - y, 16)
}

/// The lattice after an obstacle has been centred on `(x, y)`.
pub open spec fn with_obstacle(cells: Seq<LatticeInfo>, width: int, x: int, y: int) -> Seq<
    LatticeInfo,
> {
    Seq::new(
        cells.len(),
        |i: int|
            if in_obstacle(width, x, y, i) {
                LatticeInfo::obstacle()
            } else {
                cells[i]
            },
    )
}

/// The row of a cell compared with a row number.
proof fn lemma_row_order(width: int, i: int, r: int)
    requires
        0 < width,
    ensures
        i >= width * r ==> i / width >= r,
        i < width * r ==> i / width < r,
{
    vstd::arithmetic::div_mod::lemma_fundamental_div_mod(i, width);
    vstd::arithmetic::div_mod::lemma_mod_bound(i, width);
    let q = i / width;
    if i >= width * r {
        assert(q >= r) by (nonlinear_arith)
            requires
                width * q + (i % width) >= width * r,
                0 <= i % width < width,
        ;
    }
    if i < width * r {
        assert(q < r) by (nonlinear_arith)
            requires
                width * q + (i % width) < width * r,
                0 <= i % width < width,
        ;
    }
}

/// Centres a round obstacle of radius 16 on cell `(x, y)`, where it fits,
/// and says which cells to send to the device: the 33 rows that hold it.
/// Where it does not fit, nothing changes.
pub fn mark_obstacle(width: u32, height: u32, cells: &mut Vec<LatticeInfo>, x: u32, y: u32) -> (span:
    Option<CellSpan>)
    requires
        old(cells)@.len() == width * height,
    ensures
        final(cells)@.len() == old(cells)@.len(),
        obstacle_fits(width as int, height as int, x as int, y as int) ==> final(cells)@
            == with_obstacle(old(cells)@, width as int, x as int, y as int) && span == Some(
            CellSpan { first: (width * (y - 16)) as usize, count: (width * 33) as usize },
        ),
        !obstacle_fits(width as int, height as int, x as int, y as int) ==> final(cells)@ == old(
            cells,
        )@ && span.is_none(),
{
    let half_size = OBSTACLE_RADIUS;
    if x < half_size || x as u64 + half_size as u64 + 2 > width as u64 || y < half_size || y as u64
        + half_size as u64 + 2 > height as u64 {
        return None;
    }
    let obstacle = LatticeInfo {
        material: LatticeType::Obstacle,
        block_iter: PERMANENT,
        vx_bits: 0,
        vy_bits: 0,
    };
    let w = width as usize;
    let min_y = (y - half_size) as usize;
    let max_y = min_y + 33;
    let ghost before = cells@;
    let ghost wi = width as int;
    let n_cells = cells.len();
    proof {
        assert(before.len() == n_cells);
        assert(wi * max_y <= wi * height) by (nonlinear_arith)
            requires
                max_y <= height,
                wi >= 0,
        ;
        assert(wi * min_y >= 0) by (nonlinear_arith)
            requires
                min_y >= 0,
                wi >= 0,
        ;
        assert(wi * min_y <= wi * max_y) by (nonlinear_arith)
            requires
                min_y <= max_y,
                wi >= 0,
        ;
        assert(0 <= wi * 33 <= wi * height) by (nonlinear_arith)
            requires
                33 <= height,
                wi >= 0,
        ;
        assert forall|i: int| 0 <= i < wi * min_y implies !in_obstacle(
            wi,
            x as int,
            y as int,
            i,
        ) by {
            lemma_row_order(wi, i, min_y as int);
        }
    }
    let mut cy: usize = min_y;
    while cy < max_y
        invariant
            min_y <= cy <= max_y,
            min_y == y - 16,
            max_y == y + 17,
            max_y <= height,
            16 <= x,
            x + 18 <= width,
            w == width,
            wi == width,
            obstacle == LatticeInfo::obstacle(),
            before.len() == wi * height,
            before.len() <= usize::MAX,
            cells@.len() == before.len(),
            forall|i: int|
                0 <= i < cells@.len() ==> #[trigger] cells@[i] == if i < wi * cy && in_obstacle(
                    wi,
                    x as int,
                    y as int,
                    i,
                ) {
                    LatticeInfo::obstacle()
                } else {
                    before[i]
                },
        decreases max_y - cy,
    {
        let mut cx: usize = 0;
        proof {
            assert(wi * (cy + 1) <= wi * height) by (nonlinear_arith)
                requires
                    cy + 1 <= height,
                    wi >= 0,
            ;
            assert(wi * (cy + 1) == wi * cy + wi) by (nonlinear_arith);
            assert(wi * cy >= 0) by (nonlinear_arith)
                requires
                    cy >= 0,
                    wi >= 0,
            ;
        }
        while cx < w
            invariant
                min_y <= cy < max_y,
                min_y == y - 16,
                max_y == y + 17,
                cx <= w,
                w == width,
                wi == width,
                wi > 0,
                16 <= x,
                obstacle == LatticeInfo::obstacle(),
                before.len() == wi * height,
                before.len() <= usize::MAX,
                cells@.len() == before.len(),
                wi * cy + wi <= before.len(),
                wi * cy >= 0,
                forall|i: int|
                    0 <= i < cells@.len() ==> #[trigger] cells@[i] == if i < wi * cy + cx
                        && in_obstacle(wi, x as int, y as int, i) {
                        LatticeInfo::obstacle()
                    } else {
                        before[i]
                    },
            decreases w - cx,
        {
            let index = w * cy + cx;
            proof {
                crate::pbd::grid::lemma_grid_coords(wi, cy as int, cx as int);
                assert(cy * wi == wi * cy) by (nonlinear_arith);
            }
            let dx = cx as i64 - x as i64;
            let dy = cy as i64 - y as i64;
            if is_sd_sphere(dx, dy, OBSTACLE_RADIUS as i64) {
                cells[index] = obstacle;
            }
            cx += 1;
        }
        cy += 1;
    }
    proof {
        assert forall|i: int| 0 <= i < cells@.len() implies cells@[i] == with_obstacle(
            before,
            wi,
            x as int,
            y as int,
        )[i] by {
            lemma_row_order(wi, i, max_y as int);
        }
        assert(cells@ =~= with_obstacle(before, wi, x as int, y as int));
    }
    Some(CellSpan { first: w * min_y, count: w * 33 })
}

/// An obstacle changes no cell outside the disk of radius 16 round its
/// centre, and every cell it changes becomes obstacle.
pub proof fn lemma_obstacle_stays_in_disk(
    cells: Seq<LatticeInfo>,
    width: int,
    x: int,
    y: int,
    i: int,
)
    requires
        0 <= i < cells.len(),
    ensures
        with_obstacle(cells, width, x, y)[i] != cells[i] ==> within_radius(
            i % width - x,
            i / width - y,
            16,
        ) && with_obstacle(cells, width, x, y)[i] == LatticeInfo::obstacle(),
{
}

/// An obstacle marks every cell of the lattice that lies no further than
/// 16 from its centre.
pub proof fn lemma_obstacle_covers_disk(
    cells: Seq<LatticeInfo>,
    width: int,
    height: int,
    x: int,
    y: int,
    cx: int,
    cy: int,
)
    requires
        cells.len() == width * height,
        0 <= cx < width,
        0 <= cy < height,
        within_radius(cx - x, cy - y, 16),
    ensures
        0 <= cy * width + cx < cells.len(),
        with_obstacle(cells, width, x, y)[cy * width + cx] == LatticeInfo::obstacle(),
{
    crate::pbd::grid::lemma_grid_coords(width, cy, cx);
    crate::pbd::grid::lemma_grid_bound(width, height, cy, cx);
    let dy = cy - y;
    let dx = cx - x;
    assert(-16 <= dy <= 16) by (nonlinear_arith)
        requires
            dx * dx + dy * dy <= 16 * 16,
    ;
}

/// Whether a push may land on cell `(x, y)`: the cell is not on the rim of
/// the lattice.
pub open spec fn force_fits(width: int, height: int, x: int, y: int) -> bool {
    1 <= x && x + 1 < width && 1 <= y && y + 1 < height
}

/// The cell that a push at canvas pixel `(px, py)` lands on, or `None`
/// where the pixel lies too close to the rim of the lattice.
pub fn force_cell(width: u32, height: u32, px: u32, py: u32) -> (cell: Option<usize>)
    requires
        width * height <= usize::MAX,
    ensures
        force_fits(width as int, height as int, px as int / 4, py as int / 4) ==> cell == Some(
            (width * (py / 4) + px / 4) as usize,
        ),
        !force_fits(width as int, height as int, px as int / 4, py as int / 4) ==> cell.is_none(),
{
    let x = px / LATTICE_PIXEL_SIZE;
    let y = py / LATTICE_PIXEL_SIZE;
    if x < 1 || x as u64 + 1 >= width as u64 || y < 1 || y as u64 + 1 >= height as u64 {
        return None;
    }
    proof {
        crate::pbd::grid::lemma_grid_bound(width as int, height as int, y as int, x as int);
        assert(y * width == width * y) by (nonlinear_arith);
    }
    Some(width as usize * y as usize + x as usize)
}

} // verus!
