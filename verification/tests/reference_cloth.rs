use nature::pbd::grid::MassClass;
use nature::pbd::line_particle::generate_line_particles;
use nature::pbd::particle::generate_cloth_particles;
use nature::pbd::{MeshColoringObj, StretchConstraintObj};

// A plain position-based solver in double precision over the particles,
// the constraints and the colors of the library. It is a host-side model:
// what it shows holds of this model over the library's data, and says
// nothing of the kernels that run on the device.

type Point = [f64; 3];

fn inverse_mass(class: MassClass) -> f64 {
    match class {
        MassClass::Pinned => 0.0,
        MassClass::Border => 0.2,
        MassClass::Interior => 0.1,
    }
}

fn distance(a: &Point, b: &Point) -> f64 {
    ((a[0] - b[0]).powi(2) + (a[1] - b[1]).powi(2) + (a[2] - b[2]).powi(2)).sqrt()
}

struct Body {
    pos: Vec<Point>,
    old_pos: Vec<Point>,
    w: Vec<f64>,
    rest: Vec<f64>,
    lambda: Vec<f64>,
}

impl Body {
    fn new(pos: Vec<Point>, mass: &[MassClass], constraints: &[StretchConstraintObj]) -> Body {
        let rest = constraints
            .iter()
            .map(|c| {
                if c.particle0 == -1 {
                    0.0
                } else {
                    distance(&pos[c.particle0 as usize], &pos[c.particle1 as usize])
                }
            })
            .collect();
        Body {
            old_pos: pos.clone(),
            pos,
            w: mass.iter().map(|&m| inverse_mass(m)).collect(),
            rest,
            lambda: vec![0.0; constraints.len()],
        }
    }

    fn predict(&mut self, dt: f64, gravity: f64) {
        for p in 0..self.pos.len() {
            if self.w[p] == 0.0 {
                continue;
            }
            let now = self.pos[p];
            for k in 0..3 {
                let a = if k == 1 { gravity } else { 0.0 };
                self.pos[p][k] = now[k] + (now[k] - self.old_pos[p][k]) + 0.5 * a * dt * dt;
            }
            self.old_pos[p] = now;
        }
        for l in self.lambda.iter_mut() {
            *l = 0.0;
        }
    }

    fn relax(&mut self, constraints: &[StretchConstraintObj], c: usize, compliance: f64) {
        let s = constraints[c];
        if s.particle0 == -1 {
            return;
        }
        let (i, j) = (s.particle0 as usize, s.particle1 as usize);
        let (wi, wj) = (self.w[i], self.w[j]);
        let len = distance(&self.pos[i], &self.pos[j]);
        if wi + wj == 0.0 || len == 0.0 {
            return;
        }
        let value = len - self.rest[c];
        let dlambda = (-value - compliance * self.lambda[c]) / (wi + wj + compliance);
        self.lambda[c] += dlambda;
        for k in 0..3 {
            let n = (self.pos[i][k] - self.pos[j][k]) / len;
            // A pinned particle is skipped, not moved by nothing: adding
            // zero would turn a negative zero into a positive one.
            if wi != 0.0 {
                self.pos[i][k] += wi * dlambda * n;
            }
            if wj != 0.0 {
                self.pos[j][k] -= wj * dlambda * n;
            }
        }
    }
}

fn relax_by_color(
    body: &mut Body,
    constraints: &[StretchConstraintObj],
    colors: &[MeshColoringObj],
    reorder: &[[i32; 3]],
) {
    for color in colors {
        let lo = color.offset as usize;
        let hi = lo + color.group_len as usize;
        for bundle in &reorder[lo..hi] {
            for &c in bundle {
                if c != -1 {
                    body.relax(constraints, c as usize, 0.0);
                }
            }
        }
    }
}

#[test]
fn host_model_never_moves_pinned_particles() {
    let (hn, vn) = (8usize, 6usize);
    let cloth = generate_cloth_particles(hn, vn);
    let pos: Vec<Point> = (0..hn * vn)
        .map(|p| [(p % hn) as f64 * 0.1, -((p / hn) as f64) * 0.1, 0.0])
        .collect();
    let start = pos.clone();
    let mut body = Body::new(pos, &cloth.mass, &cloth.constraints);
    for _ in 0..60 {
        body.predict(0.016, -3.98);
        for _ in 0..15 {
            relax_by_color(
                &mut body,
                &cloth.constraints,
                &cloth.mesh_coloring,
                &cloth.reorder_constraints,
            );
        }
    }
    let mut pinned = 0;
    let mut moved = 0;
    for p in 0..hn * vn {
        if cloth.mass[p] == MassClass::Pinned {
            pinned += 1;
            for k in 0..3 {
                assert_eq!(body.pos[p][k].to_bits(), start[p][k].to_bits());
            }
        } else if body.pos[p] != start[p] {
            moved += 1;
        }
    }
    assert_eq!(pinned, 2);
    assert!(moved > 0);
    assert!(body.pos.iter().all(|p| p.iter().all(|v| v.is_finite())));
}

#[test]
fn host_model_returns_a_stretched_thread_to_its_rest_length() {
    let lines = generate_line_particles(1, 2);
    assert_eq!(lines.mass, vec![MassClass::Pinned, MassClass::Interior]);
    let rest_length = 0.25;
    let pos: Vec<Point> = vec![[0.0, 0.0, 0.0], [rest_length, 0.0, 0.0]];
    let mut body = Body::new(pos, &lines.mass, &lines.constraints);
    assert_eq!(body.rest[0], rest_length);
    // Pull the free end away, then let the solver work.
    body.pos[1] = [0.9, -0.4, 0.3];
    for _ in 0..20 {
        body.relax(&lines.constraints, 0, 1e-7);
        body.relax(&lines.constraints, 1, 1e-7);
    }
    let len = distance(&body.pos[0], &body.pos[1]);
    assert!((len - rest_length).abs() / rest_length < 1e-3, "{}", len);
    assert_eq!(body.pos[0], [0.0, 0.0, 0.0]);
}
