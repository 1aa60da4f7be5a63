use nature::fluid::lattice::{init_lattice_material, LatticeInfo, LatticeType};
use nature::fluid::{direction_weight_36, inversed_direction, lattice_direction};
use nature::FieldAnimationType;

// A plain two-buffer collide-and-stream solver in double precision, built
// on the lattice, the directions, the weights and the opposites of the
// library. It is a host-side model: what it shows holds of this model over
// the library's data, and says nothing of the kernels that run on the device.

fn equilibrium(rho: f64, ux: f64, uy: f64) -> [f64; 9] {
    let mut feq = [0.0; 9];
    let uu = ux * ux + uy * uy;
    for i in 0..9 {
        let e = lattice_direction(i);
        let eu = e.0 as f64 * ux + e.1 as f64 * uy;
        let w = direction_weight_36(i) as f64 / 36.0;
        feq[i] = w * rho * (1.0 + 3.0 * eu + 4.5 * eu * eu - 1.5 * uu);
    }
    feq
}

fn is_solid(cell: &LatticeInfo) -> bool {
    cell.material == LatticeType::Boundary || cell.material == LatticeType::Obstacle
}

fn fresh(cells: &[LatticeInfo]) -> Vec<[f64; 9]> {
    cells
        .iter()
        .map(|c| {
            if is_solid(c) {
                [0.0; 9]
            } else {
                equilibrium(1.0, f32::from_bits(c.vx_bits) as f64, f32::from_bits(c.vy_bits) as f64)
            }
        })
        .collect()
}

fn step(width: usize, height: usize, cells: &[LatticeInfo], f: &[[f64; 9]], tau: f64) -> Vec<[f64; 9]> {
    let mut next = vec![[0.0; 9]; f.len()];
    for y in 0..height {
        for x in 0..width {
            let c = y * width + x;
            if is_solid(&cells[c]) {
                continue;
            }
            let rho: f64 = f[c].iter().sum();
            let mut ux = 0.0;
            let mut uy = 0.0;
            for i in 0..9 {
                let e = lattice_direction(i);
                ux += f[c][i] * e.0 as f64;
                uy += f[c][i] * e.1 as f64;
            }
            let feq = equilibrium(rho, ux / rho, uy / rho);
            for i in 0..9 {
                let post = f[c][i] - (f[c][i] - feq[i]) / tau;
                let e = lattice_direction(i);
                let tx = x as i64 + e.0 as i64;
                let ty = y as i64 + e.1 as i64;
                let inside = tx >= 0 && ty >= 0 && (tx as usize) < width && (ty as usize) < height;
                if inside && !is_solid(&cells[ty as usize * width + tx as usize]) {
                    next[ty as usize * width + tx as usize][i] += post;
                } else {
                    // No slip: the population returns the way it came.
                    next[c][inversed_direction(i)] += post;
                }
            }
        }
    }
    // Inlets keep their prescribed velocity; outlets copy their neighbour.
    for y in 0..height {
        for x in 0..width {
            let c = y * width + x;
            match cells[c].material {
                LatticeType::Inlet => {
                    next[c] = equilibrium(
                        1.0,
                        f32::from_bits(cells[c].vx_bits) as f64,
                        f32::from_bits(cells[c].vy_bits) as f64,
                    );
                }
                LatticeType::Outlet => {
                    if x > 0 && !is_solid(&cells[c - 1]) {
                        next[c] = next[c - 1];
                    }
                }
                _ => {}
            }
        }
    }
    next
}

fn mass(f: &[[f64; 9]]) -> f64 {
    f.iter().map(|p| p.iter().sum::<f64>()).sum()
}

#[test]
fn host_model_keeps_the_mass_of_a_closed_lattice() {
    let (w, h) = (24usize, 16usize);
    let cells = init_lattice_material(w as u32, h as u32, 1, FieldAnimationType::Custom);
    let mut f = fresh(&cells);
    // Stir the fluid: a denser, moving patch in the middle.
    for y in 6..10 {
        for x in 8..14 {
            f[y * w + x] = equilibrium(1.3, 0.08, -0.05);
        }
    }
    let before = mass(&f);
    for n in 1..=200 {
        f = step(w, h, &cells, &f, 0.8);
        let now = mass(&f);
        assert!((now - before).abs() < 1e-9 * before, "step {}: {} against {}", n, now, before);
    }
    // Walls hold no fluid, and the fluid stays positive.
    for (c, p) in f.iter().enumerate() {
        if is_solid(&cells[c]) {
            assert!(p.iter().all(|&v| v == 0.0));
        } else {
            assert!(p.iter().sum::<f64>() > 0.0);
        }
    }
}

#[test]
fn host_model_of_a_poiseuille_channel_stays_within_three_times_the_inlet_speed() {
    let (w, h) = (64usize, 32usize);
    let cells = init_lattice_material(w as u32, h as u32, 1, FieldAnimationType::Poiseuille);
    let mut f = fresh(&cells);
    for _ in 0..100 {
        f = step(w, h, &cells, &f, 1.1);
    }
    let mut fastest = f64::MIN;
    for (c, p) in f.iter().enumerate() {
        if is_solid(&cells[c]) {
            continue;
        }
        let rho: f64 = p.iter().sum();
        assert!(rho.is_finite() && rho > 0.0);
        let mut ux = 0.0;
        for i in 0..9 {
            ux += p[i] * lattice_direction(i).0 as f64;
        }
        fastest = fastest.max(ux / rho);
    }
    assert!(fastest > 0.0, "{}", fastest);
    assert!(fastest <= 3.0 * 0.12, "{}", fastest);
}
