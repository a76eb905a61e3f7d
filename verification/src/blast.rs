//! Bomb blast propagation: from a bomb's cell the explosion walks
//! outward in the four cardinal directions, one cell per step, and a
//! direction ends at the first wall, at the grid's edge, or once the
//! bomb's range is reached — whichever comes first.

use vstd::prelude::*;

use crate::grid::Grid;
use crate::level::Level;
use crate::types::Position;

verus! {

broadcast use vstd::std_specs::hash::group_hash_axioms;

impl Grid {
    /// Whether the cell `i` steps from `origin` along `(dx, dz)` is on
    /// the grid and not a wall, so a blast passes through it.
    pub open spec fn blast_open(&self, origin: Position, dx: int, dz: int, i: int) -> bool {
        let x = origin.x + dx * i;
        let z = origin.z + dz * i;
        self.in_bounds(x, z) && !self.spec_kind_at(x, z).spec_is_wall()
    }

    /// How many cells a blast from `origin` reaches along `(dx, dz)`
    /// counting from step `i`: it grows while the cell is open and the
    /// step within range.
    pub open spec fn ray_len_from(
        &self,
        origin: Position,
        dx: int,
        dz: int,
        i: int,
        range: int,
    ) -> nat
        decreases range + 1 - i,
    {
        if i > range {
            0
        } else if self.blast_open(origin, dx, dz, i) {
            (1 + self.ray_len_from(origin, dx, dz, i + 1, range)) as nat
        } else {
            0
        }
    }

    /// The cells one blast direction reaches: steps `1..=n` along
    /// `(dx, dz)`, each with its step distance and the bomb's range.
    pub open spec fn ray_positions(&self, origin: Position, dx: int, dz: int, range: usize) -> Seq<
        (Position, usize, usize),
    > {
        Seq::new(
            self.ray_len_from(origin, dx, dz, 1, range as int),
            |j: int|
                (
                    Position {
                        x: (origin.x + dx * (j + 1)) as usize,
                        z: (origin.z + dz * (j + 1)) as usize,
                    },
                    (j + 1) as usize,
                    range,
                ),
        )
    }

    /// Every step a ray counts is open, and the ray ends for a reason:
    /// either the range is exhausted or the next cell is not open.
    pub proof fn lemma_ray_open(&self, origin: Position, dx: int, dz: int, i: int, range: int)
        ensures
            i <= range + 1 ==> self.ray_len_from(origin, dx, dz, i, range) <= range + 1 - i,
            forall|k: int|
                i <= k < i + self.ray_len_from(origin, dx, dz, i, range)
                    ==> self.blast_open(origin, dx, dz, k),
            i + self.ray_len_from(origin, dx, dz, i, range) > range || !self.blast_open(
                origin,
                dx,
                dz,
                i + self.ray_len_from(origin, dx, dz, i, range),
            ),
        decreases range + 1 - i,
    {
        if i > range {
        } else if self.blast_open(origin, dx, dz, i) {
            self.lemma_ray_open(origin, dx, dz, i + 1, range);
        }
    }

    /// Splitting a ray at a step that is still open: the whole length
    /// is the walked prefix plus the remainder.
    proof fn lemma_ray_split(&self, origin: Position, dx: int, dz: int, i: int, range: int)
        requires
            1 <= i <= range + 1,
            forall|k: int| 1 <= k < i ==> self.blast_open(origin, dx, dz, k),
        ensures
            self.ray_len_from(origin, dx, dz, 1, range) == i - 1 + self.ray_len_from(
                origin,
                dx,
                dz,
                i,
                range,
            ),
        decreases i,
    {
        if i > 1 {
            self.lemma_ray_split(origin, dx, dz, i - 1, range);
        }
    }

    /// Walks one blast direction and appends every reached cell, with
    /// its step distance and the bomb's range, to `into`.
    #[verifier::rlimit(30)]
    pub(crate) fn follow_ray(
        &self,
        origin: Position,
        dx: i8,
        dz: i8,
        range: usize,
        into: &mut Vec<(Position, usize, usize)>,
    )
        requires
            self.wf(),
            -1 <= dx <= 1,
            -1 <= dz <= 1,
        ensures
            final(into)@ == old(into)@ + self.ray_positions(origin, dx as int, dz as int, range),
    {
        let ghost dxi = dx as int;
        let ghost dzi = dz as int;
        let ghost base = old(into)@;
        let mut cx: usize = origin.x;
        let mut cz: usize = origin.z;
        let mut step: usize = 1;
        proof {
            assert(dxi * 0 == 0 && dzi * 0 == 0) by (nonlinear_arith);
        }
        loop
            invariant_except_break
                self.wf(),
                dxi == dx as int,
                dzi == dz as int,
                -1 <= dxi <= 1,
                -1 <= dzi <= 1,
                1 <= step <= range + 1,
                cx as int == origin.x + dxi * (step - 1),
                cz as int == origin.z + dzi * (step - 1),
                forall|k: int| 1 <= k < step ==> self.blast_open(origin, dxi, dzi, k),
                into@ == base + self.ray_prefix(origin, dxi, dzi, range, (step - 1) as nat),
            ensures
                into@ == base + self.ray_positions(origin, dxi, dzi, range),
            decreases range + 1 - step,
        {
            if step > range {
                proof {
                    self.lemma_ray_split(origin, dxi, dzi, step as int, range as int);
                    assert(self.ray_len_from(origin, dxi, dzi, step as int, range as int) == 0);
                    assert(into@ =~= base + self.ray_positions(origin, dxi, dzi, range));
                }
                break ;
            }
            proof {
                assert(dxi * (step as int) == dxi * (step - 1) + dxi) by (nonlinear_arith);
                assert(dzi * (step as int) == dzi * (step - 1) + dzi) by (nonlinear_arith);
            }
            let nx: usize = if dx < 0 {
                if cx == 0 {
                    proof {
                        self.close_ray(origin, dxi, dzi, step as int, range as int, base, into@);
                    }
                    break ;
                }
                cx - 1
            } else if dx > 0 {
                if cx == usize::MAX {
                    proof {
                        self.close_ray(origin, dxi, dzi, step as int, range as int, base, into@);
                    }
                    break ;
                }
                cx + 1
            } else {
                cx
            };
            let nz: usize = if dz < 0 {
                if cz == 0 {
                    proof {
                        self.close_ray(origin, dxi, dzi, step as int, range as int, base, into@);
                    }
                    break ;
                }
                cz - 1
            } else if dz > 0 {
                if cz == usize::MAX {
                    proof {
                        self.close_ray(origin, dxi, dzi, step as int, range as int, base, into@);
                    }
                    break ;
                }
                cz + 1
            } else {
                cz
            };
            if nx >= self.size.x || nz >= self.size.z {
                proof {
                    self.close_ray(origin, dxi, dzi, step as int, range as int, base, into@);
                }
                break ;
            }
            let kind = self.rows[nz][nx].kind;
            if kind.is_wall() {
                proof {
                    self.close_ray(origin, dxi, dzi, step as int, range as int, base, into@);
                }
                break ;
            }
            into.push((Position::new(nx, nz), step, range));
            proof {
                assert(self.blast_open(origin, dxi, dzi, step as int));
                assert(into@ =~= base + self.ray_prefix(origin, dxi, dzi, range, step as nat));
            }
            cx = nx;
            cz = nz;
            if step == range {
                proof {
                    self.lemma_ray_split(origin, dxi, dzi, step + 1, range as int);
                    assert(self.ray_len_from(origin, dxi, dzi, step + 1, range as int) == 0);
                    assert(into@ =~= base + self.ray_positions(origin, dxi, dzi, range));
                }
                break ;
            }
            step = step + 1;
        }
    }

    /// The first `n` entries a ray walk has produced.
    pub open spec fn ray_prefix(
        &self,
        origin: Position,
        dx: int,
        dz: int,
        range: usize,
        n: nat,
    ) -> Seq<(Position, usize, usize)> {
        Seq::new(
            n,
            |j: int|
                (
                    Position {
                        x: (origin.x + dx * (j + 1)) as usize,
                        z: (origin.z + dz * (j + 1)) as usize,
                    },
                    (j + 1) as usize,
                    range,
                ),
        )
    }

    /// At a stopped walk — the candidate step is blocked — the entries
    /// so far are the whole ray.
    proof fn close_ray(
        &self,
        origin: Position,
        dx: int,
        dz: int,
        step: int,
        range: int,
        base: Seq<(Position, usize, usize)>,
        cur: Seq<(Position, usize, usize)>,
    )
        requires
            1 <= step <= range,
            !self.blast_open(origin, dx, dz, step),
            forall|k: int| 1 <= k < step ==> self.blast_open(origin, dx, dz, k),
            cur == base + self.ray_prefix(origin, dx, dz, range as usize, (step - 1) as nat),
            range <= usize::MAX,
        ensures
            cur == base + self.ray_positions(origin, dx, dz, range as usize),
    {
        self.lemma_ray_split(origin, dx, dz, step, range);
        assert(self.ray_len_from(origin, dx, dz, step, range) == 0);
        assert(self.ray_prefix(origin, dx, dz, range as usize, (step - 1) as nat)
            =~= self.ray_positions(origin, dx, dz, range as usize));
    }
}

impl Level {
    /// Every cell a blast from the given bomb reaches: the bomb's own
    /// cell at step 0, then the cells of the four rays in the fixed
    /// order left, backward, right, forward. An identifier with no
    /// armed bomb yields nothing.
    pub open spec fn spec_blast(&self, entity: u64) -> Seq<(Position, usize, usize)> {
        if !self.bombs@.contains_key(entity) {
            Seq::<(Position, usize, usize)>::empty()
        } else {
            let range = self.bombs@[entity].0;
            let origin = self.bombs@[entity].1;
            seq![(origin, 0usize, range)] + self.grid.ray_positions(origin, -1, 0, range)
                + self.grid.ray_positions(origin, 0, -1, range) + self.grid.ray_positions(
                origin,
                1,
                0,
                range,
            ) + self.grid.ray_positions(origin, 0, 1, range)
        }
    }

    /// One blast entry obeys the clipping rules for a bomb of the
    /// given range: a step between 1 and the range, the range itself
    /// carried along, and an open, in-bounds cell.
    pub open spec fn blast_entry_clipped(&self, e: (Position, usize, usize), range: usize) -> bool {
        &&& 1 <= e.1 <= range
        &&& e.2 == range
        &&& self.grid.in_bounds(e.0.x as int, e.0.z as int)
        &&& !self.grid.spec_kind_at(e.0.x as int, e.0.z as int).spec_is_wall()
    }

    /// A blast is clipped by walls, the grid and the bomb's range:
    /// beyond the bomb's own cell, every listed cell is an open grid
    /// cell — never a wall — and no step distance ever exceeds the
    /// bomb's range.
    pub proof fn lemma_blast_clipped(&self, entity: u64)
        requires
            self.bombs@.contains_key(entity),
        ensures
            self.spec_blast(entity).len() >= 1,
            self.spec_blast(entity)[0] == (
                self.bombs@[entity].1,
                0usize,
                self.bombs@[entity].0,
            ),
            forall|i: int|
                1 <= i < self.spec_blast(entity).len() ==> self.blast_entry_clipped(
                    #[trigger] self.spec_blast(entity)[i],
                    self.bombs@[entity].0,
                ),
    {
        let range = self.bombs@[entity].0;
        let origin = self.bombs@[entity].1;
        self.grid.lemma_ray_open(origin, -1, 0, 1, range as int);
        self.grid.lemma_ray_open(origin, 0, -1, 1, range as int);
        self.grid.lemma_ray_open(origin, 1, 0, 1, range as int);
        self.grid.lemma_ray_open(origin, 0, 1, 1, range as int);
        assert forall|i: int| 1 <= i < self.spec_blast(entity).len() implies self.blast_entry_clipped(
            #[trigger] self.spec_blast(entity)[i],
            range,
        ) by {
            let b = self.spec_blast(entity);
            let l1 = self.grid.ray_positions(origin, -1, 0, range);
            let l2 = self.grid.ray_positions(origin, 0, -1, range);
            let l3 = self.grid.ray_positions(origin, 1, 0, range);
            let l4 = self.grid.ray_positions(origin, 0, 1, range);
            if i < 1 + l1.len() {
                assert(b[i] == l1[i - 1]);
                assert(self.grid.blast_open(origin, -1, 0, i));
            } else if i < 1 + l1.len() + l2.len() {
                let j = i - 1 - l1.len();
                assert(b[i] == l2[j]);
                assert(self.grid.blast_open(origin, 0, -1, j + 1));
            } else if i < 1 + l1.len() + l2.len() + l3.len() {
                let j = i - 1 - l1.len() - l2.len();
                assert(b[i] == l3[j]);
                assert(self.grid.blast_open(origin, 1, 0, j + 1));
            } else {
                let j = i - 1 - l1.len() - l2.len() - l3.len();
                assert(b[i] == l4[j]);
                assert(self.grid.blast_open(origin, 0, 1, j + 1));
            }
        }
    }

    /// The cells the given bomb's explosion reaches, each with its step
    /// distance from the bomb and the bomb's range.
    ///
    /// The bomb's own cell always comes first at step 0; each cardinal
    /// direction then contributes the open cells up to the first wall,
    /// the grid's edge, or the bomb's range, inclusive. Walls are never
    /// listed. An identifier that is not armed (never placed, or
    /// already resolved) yields the empty list, not an error.
    pub fn bomb_explode_positions(&self, entity: u64) -> (r: Vec<(Position, usize, usize)>)
        requires
            self.wf(),
        ensures
            r@ == self.spec_blast(entity),
            !self.bombs@.contains_key(entity) ==> r@ == Seq::<(Position, usize, usize)>::empty(),
    {
        let (range, position) = match self.bombs.get(&entity) {
            Some(n) => (n.0, n.1),
            None => {
                let r: Vec<(Position, usize, usize)> = Vec::new();
                proof {
                    assert(r@ =~= self.spec_blast(entity));
                }
                return r;
            },
        };
        let mut results: Vec<(Position, usize, usize)> = Vec::new();
        results.push((position, 0, range));
        proof {
            assert(results@ =~= seq![(position, 0usize, range)]);
        }
        self.grid.follow_ray(position, -1, 0, range, &mut results);
        self.grid.follow_ray(position, 0, -1, range, &mut results);
        self.grid.follow_ray(position, 1, 0, range, &mut results);
        self.grid.follow_ray(position, 0, 1, range, &mut results);
        proof {
            assert(results@ =~= self.spec_blast(entity));
        }
        results
    }
}

} // verus!
