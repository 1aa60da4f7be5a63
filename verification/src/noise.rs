//! Simplex noise, as far as integers make it: the gradients on the edges
//! of a cube, and the hashing of the corners of a cell to gradients through
//! a permutation table.

use vstd::prelude::*;

verus! {

/// The number of gradients.
pub const GRADIENT_NUM: usize = 12;

/// The length of the permutation table.
pub const TABLE_LEN: usize = 256;

/// Gradient `k`: the midpoint of edge `k` of the cube of side 2 round the
/// origin.
pub open spec fn gradient(k: int) -> (int, int, int) {
    if k == 0 {
        (1, 1, 0)
    } else if k == 1 {
        (-1, 1, 0)
    } else if k == 2 {
        (1, -1, 0)
    } else if k == 3 {
        (-1, -1, 0)
    } else if k == 4 {
        (1, 0, 1)
    } else if k == 5 {
        (-1, 0, 1)
    } else if k == 6 {
        (1, 0, -1)
    } else if k == 7 {
        (-1, 0, -1)
    } else if k == 8 {
        (0, 1, 1)
    } else if k == 9 {
        (0, -1, 1)
    } else if k == 10 {
        (0, 1, -1)
    } else {
        (0, -1, -1)
    }
}

/// Gradient `k`.
pub fn grad3(k: usize) -> (g: (i32, i32, i32))
    requires
        k < 12,
    ensures
        g.0 == gradient(k as int).0,
        g.1 == gradient(k as int).1,
        g.2 == gradient(k as int).2,
{
    if k == 0 {
        (1, 1, 0)
    } else if k == 1 {
        (-1, 1, 0)
    } else if k == 2 {
        (1, -1, 0)
    } else if k == 3 {
        (-1, -1, 0)
    } else if k == 4 {
        (1, 0, 1)
    } else if k == 5 {
        (-1, 0, 1)
    } else if k == 6 {
        (1, 0, -1)
    } else if k == 7 {
        (-1, 0, -1)
    } else if k == 8 {
        (0, 1, 1)
    } else if k == 9 {
        (0, -1, 1)
    } else if k == 10 {
        (0, 1, -1)
    } else {
        (0, -1, -1)
    }
}

/// The number of components of the gradient that are zero.
pub open spec fn zero_components(g: (int, int, int)) -> int {
    (if g.0 == 0 {
        1int
    } else {
        0int
    }) + (if g.1 == 0 {
        1int
    } else {
        0int
    }) + (if g.2 == 0 {
        1int
    } else {
        0int
    })
}

/// Every gradient has one component zero and two of size one, and no
/// two gradients are equal.
pub proof fn lemma_gradients(k: int, l: int)
    requires
        0 <= k < 12,
        0 <= l < 12,
    ensures
        zero_components(gradient(k)) == 1,
        -1 <= gradient(k).0 <= 1,
        -1 <= gradient(k).1 <= 1,
        -1 <= gradient(k).2 <= 1,
        gradient(k) == gradient(l) ==> k == l,
{
}

/// Whether `p` is a table of 256 numbers from 0 to 255.
pub open spec fn table_ok(p: Seq<i32>) -> bool {
    p.len() == 256 && forall|k: int| 0 <= k < 256 ==> 0 <= #[trigger] p[k] < 256
}

/// The hashing tables of simplex noise.
pub struct SimplexNoise {
    perm: Vec<i32>,
    grad_p: Vec<i32>,
}

/// The gradients of the three corners of a simplex.
#[derive(Clone, Copy, Debug, PartialEq, Eq, Structural)]
pub struct CornerGradients {
    pub gi0: usize,
    pub gi1: usize,
    pub gi2: usize,
}

impl SimplexNoise {
    /// The permutation table that the noise was made from.
    pub closed spec fn table(&self) -> Seq<i32> {
        self.perm@.take(256)
    }

    /// Whether the tables hold the permutation twice over, and for each
    /// entry its gradient.
    pub closed spec fn wf(&self) -> bool {
        &&& self.perm@.len() == 512
        &&& self.grad_p@.len() == 512
        &&& forall|i: int| 0 <= i < 512 ==> 0 <= #[trigger] self.perm@[i] < 256
        &&& forall|i: int| 0 <= i < 512 ==> #[trigger] self.perm@[i] == self.perm@[i % 256]
        &&& forall|i: int| 0 <= i < 512 ==> #[trigger] self.grad_p@[i] == self.perm@[i] % 12
    }

    /// Entry `i` of the doubled permutation table.
    pub open spec fn perm_at(&self, i: int) -> int {
        self.table()[i % 256] as int
    }

    /// The gradient of the corner `(i, j)` of the lattice: the permutation
    /// of `j` is added to `i` and permuted again, and the result taken
    /// modulo 12.
    pub open spec fn corner(&self, i: int, j: int) -> int {
        self.perm_at(i + self.perm_at(j)) % 12
    }

    /// Makes the noise from a permutation table.
    pub fn new(p: &[i32; 256]) -> (noise: Self)
        requires
            table_ok(p@),
        ensures
            noise.wf(),
            noise.table() == p@,
    {
        let mut perm: Vec<i32> = Vec::new();
        let mut grad_p: Vec<i32> = Vec::new();
        let mut i: usize = 0;
        while i < 512
            invariant
                i <= 512,
                table_ok(p@),
                perm@.len() == i,
                grad_p@.len() == i,
                forall|k: int| 0 <= k < i ==> #[trigger] perm@[k] == p@[k % 256],
                forall|k: int| 0 <= k < i ==> #[trigger] grad_p@[k] == perm@[k] % 12,
            decreases 512 - i,
        {
            let value = p[i % 256];
            perm.push(value);
            grad_p.push(value % 12);
            i += 1;
        }
        let noise = SimplexNoise { perm, grad_p };
        proof {
            assert(noise.perm@.take(256) =~= p@);
            assert forall|k: int| 0 <= k < 512 implies #[trigger] noise.perm@[k] == noise.perm@[k
                % 256] by {
                assert(noise.perm@[k % 256] == p@[(k % 256) % 256]);
            }
        }
        noise
    }

    /// The gradients of the corners of the simplex in cell `(i, j)` whose
    /// middle corner lies `(i1, j1)` from the first. The cell numbers are
    /// taken modulo 256.
    pub fn corner_gradients(&self, i: i32, j: i32, i1: bool, j1: bool) -> (corners: CornerGradients)
        requires
            self.wf(),
        ensures
            corners.gi0 == self.corner(i as int % 256, j as int % 256),
            corners.gi1 == self.corner(
                i as int % 256 + if i1 {
                    1int
                } else {
                    0int
                },
                j as int % 256 + if j1 {
                    1int
                } else {
                    0int
                },
            ),
            corners.gi2 == self.corner(i as int % 256 + 1, j as int % 256 + 1),
            corners.gi0 < 12 && corners.gi1 < 12 && corners.gi2 < 12,
    {
        let i = Self::wrap(i);
        let j = Self::wrap(j);
        let di: usize = if i1 {
            1
        } else {
            0
        };
        let dj: usize = if j1 {
            1
        } else {
            0
        };
        let gi0 = self.grad_p[i + self.perm[j] as usize];
        let gi1 = self.grad_p[i + di + self.perm[j + dj] as usize];
        let gi2 = self.grad_p[i + 1 + self.perm[j + 1] as usize];
        proof {
            assert(self.perm@[j as int] == self.table()[j as int % 256]);
            assert(self.perm@[j + dj] == self.table()[(j + dj) % 256]) by {
                assert(self.perm@[j + dj] == self.perm@[(j + dj) % 256]);
            }
            assert(self.perm@[j + 1] == self.table()[(j + 1) % 256]) by {
                assert(self.perm@[j + 1] == self.perm@[(j + 1) % 256]);
            }
            let a0 = i + self.perm@[j as int];
            let a1 = i + di + self.perm@[j + dj];
            let a2 = i + 1 + self.perm@[j + 1];
            assert(self.perm@[a0] == self.perm@[a0 % 256]);
            assert(self.perm@[a1] == self.perm@[a1 % 256]);
            assert(self.perm@[a2] == self.perm@[a2 % 256]);
        }
        CornerGradients { gi0: gi0 as usize, gi1: gi1 as usize, gi2: gi2 as usize }
    }

    /// The cell number modulo 256.
    fn wrap(i: i32) -> (w: usize)
        ensures
            w == i as int % 256,
            w < 256,
    {
        let m = i % 256;
        if m < 0 {
            (m + 256) as usize
        } else {
            m as usize
        }
    }
}

} // verus!
