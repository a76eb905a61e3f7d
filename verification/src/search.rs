//! Wall connectivity: which wall cells hang together below a position.
//!
//! The query seeds at the cell one step south (`+z`) of the given
//! position; if that cell is a wall, a flood fill gathers every wall
//! cell reachable from it over cardinal steps, where the small vertical
//! wall kind joins a cluster only as the seed and never propagates it.
//! The caller fades exactly these wall cells so the player stays
//! visible behind them.

use vstd::prelude::*;

use crate::grid::Grid;
use crate::level::Level;
use crate::types::{BlockType, Position};

verus! {

/// Whether two cells touch along one axis-aligned unit step.
pub open spec fn cardinal_adjacent(a: Position, b: Position) -> bool {
    (a.z == b.z && (a.x + 1 == b.x || b.x + 1 == a.x)) || (a.x == b.x && (a.z + 1 == b.z || b.z + 1
        == a.z))
}

/// How many cells of one row are still unmarked.
pub open spec fn row_unmarked(row: Seq<bool>) -> nat
    decreases row.len(),
{
    if row.len() == 0 {
        0
    } else {
        row_unmarked(row.drop_last()) + if row.last() {
            0nat
        } else {
            1nat
        }
    }
}

/// How many cells of the whole mark matrix are still unmarked: the
/// termination measure of the flood fill.
pub open spec fn grid_unmarked(m: Seq<Vec<bool>>) -> nat
    decreases m.len(),
{
    if m.len() == 0 {
        0
    } else {
        grid_unmarked(m.drop_last()) + row_unmarked(m.last()@)
    }
}

/// Whether the mark matrix has the cell `(x, z)` marked.
pub open spec fn marked(m: Seq<Vec<bool>>, x: int, z: int) -> bool {
    m[z]@[x]
}

proof fn lemma_row_mark(row: Seq<bool>, i: int)
    requires
        0 <= i < row.len(),
        !row[i],
    ensures
        row_unmarked(row.update(i, true)) + 1 == row_unmarked(row),
    decreases row.len(),
{
    if i == row.len() - 1 {
        assert(row.update(i, true).drop_last() =~= row.drop_last());
    } else {
        lemma_row_mark(row.drop_last(), i);
        assert(row.update(i, true).drop_last() =~= row.drop_last().update(i, true));
    }
}

proof fn lemma_grid_mark(m: Seq<Vec<bool>>, x: int, z: int, newrow: Vec<bool>)
    requires
        0 <= z < m.len(),
        0 <= x < m[z]@.len(),
        !m[z]@[x],
        newrow@ == m[z]@.update(x, true),
    ensures
        grid_unmarked(m.update(z, newrow)) + 1 == grid_unmarked(m),
    decreases m.len(),
{
    let updated = m.update(z, newrow);
    if z == m.len() - 1 {
        assert(updated.drop_last() =~= m.drop_last());
        lemma_row_mark(m[z]@, x);
    } else {
        lemma_grid_mark(m.drop_last(), x, z, newrow);
        assert(updated.drop_last() =~= m.drop_last().update(z, newrow));
        assert(updated.last() == m.last());
    }
}

impl Grid {
    /// A wall cell that carries the cluster on: any wall kind except
    /// the small vertical wall, which never propagates.
    pub open spec fn connector_at(&self, x: int, z: int) -> bool {
        &&& self.in_bounds(x, z)
        &&& self.spec_kind_at(x, z).spec_is_wall()
        &&& self.spec_kind_at(x, z) != BlockType::WallSmallV
    }

    pub open spec fn connector_pos(&self, p: Position) -> bool {
        self.connector_at(p.x as int, p.z as int)
    }

    /// A walk from the seed to `q`: after the seed, every step lands on
    /// a connector cell cardinally adjacent to the one before.
    pub open spec fn path_connects(&self, seed: Position, path: Seq<Position>, q: Position) -> bool {
        &&& path.len() >= 1
        &&& path[0] == seed
        &&& path.last() == q
        &&& forall|i: int| 1 <= i < path.len() ==> self.connector_pos(#[trigger] path[i])
        &&& forall|i: int| 1 <= i < path.len() ==> cardinal_adjacent(path[i - 1], #[trigger] path[i])
    }

    /// Whether `q` belongs to the wall cluster grown from `seed`: some
    /// walk of connector cells reaches it. The seed itself always
    /// belongs, whatever its kind.
    pub open spec fn wall_connected(&self, seed: Position, q: Position) -> bool {
        exists|path: Seq<Position>| self.path_connects(seed, path, q)
    }

    /// One more connector step keeps a cell connected.
    proof fn lemma_connected_step(&self, seed: Position, p: Position, q: Position)
        requires
            self.wall_connected(seed, p),
            cardinal_adjacent(p, q),
            self.connector_pos(q),
        ensures
            self.wall_connected(seed, q),
    {
        let path = choose|path: Seq<Position>| self.path_connects(seed, path, p);
        let longer = path.push(q);
        assert(longer.last() == q);
        assert forall|i: int| 1 <= i < longer.len() implies self.connector_pos(
            #[trigger] longer[i],
        ) && cardinal_adjacent(longer[i - 1], longer[i]) by {
            if i < path.len() {
                assert(longer[i] == path[i]);
                assert(longer[i - 1] == path[i - 1]);
            } else {
                assert(longer[i] == q);
                assert(longer[i - 1] == path.last());
            }
        }
        assert(self.path_connects(seed, longer, q));
    }

    /// A set of cells that contains the seed and is closed under
    /// connector steps swallows every connected cell.
    proof fn lemma_path_absorbed(&self, seed: Position, rs: Seq<Position>, path: Seq<Position>)
        requires
            rs.contains(seed),
            forall|q: Position, n: Position|
                #![trigger rs.contains(q), cardinal_adjacent(q, n)]
                rs.contains(q) && cardinal_adjacent(q, n) && self.connector_pos(n) ==> rs.contains(
                    n,
                ),
            self.path_connects(seed, path, path.last()),
        ensures
            rs.contains(path.last()),
        decreases path.len(),
    {
        if path.len() == 1 {
            assert(path.last() == seed);
        } else {
            let shorter = path.drop_last();
            assert forall|i: int| 1 <= i < shorter.len() implies self.connector_pos(
                #[trigger] shorter[i],
            ) && cardinal_adjacent(shorter[i - 1], shorter[i]) by {
                assert(shorter[i] == path[i]);
                assert(shorter[i - 1] == path[i - 1]);
            }
            assert(self.path_connects(seed, shorter, shorter.last()));
            self.lemma_path_absorbed(seed, rs, shorter);
            assert(cardinal_adjacent(path[path.len() - 2], path[path.len() - 1]));
            assert(shorter.last() == path[path.len() - 2]);
        }
    }

    /// The mark matrix mirrors the grid's shape.
    pub open spec fn marks_wf(&self, m: Seq<Vec<bool>>) -> bool {
        &&& m.len() == self.height()
        &&& forall|z: int| 0 <= z < self.height() ==> (#[trigger] m[z])@.len() == self.width()
    }

    /// The stack-independent state of the flood fill: the gathered
    /// cells are distinct marked members of the cluster, led by the
    /// seed, and every marked connector cell has been gathered.
    pub open spec fn search_inv(
        &self,
        m: Seq<Vec<bool>>,
        rs: Seq<Position>,
        seed: Position,
    ) -> bool {
        &&& self.marks_wf(m)
        &&& rs.len() >= 1
        &&& rs[0] == seed
        &&& forall|i: int|
            0 <= i < rs.len() ==> self.in_bounds(
                (#[trigger] rs[i]).x as int,
                rs[i].z as int,
            ) && marked(m, rs[i].x as int, rs[i].z as int)
        &&& forall|i: int|
            0 <= i < rs.len() ==> (#[trigger] rs[i]).x < self.width() && self.spec_kind_at(
                rs[i].x as int,
                rs[i].z as int,
            ).spec_is_wall()
        &&& forall|i: int| 1 <= i < rs.len() ==> self.connector_pos(#[trigger] rs[i])
        &&& forall|i: int, j: int| 0 <= i < j < rs.len() ==> rs[i] != rs[j]
        &&& forall|i: int| 0 <= i < rs.len() ==> self.wall_connected(seed, #[trigger] rs[i])
        &&& forall|x: int, z: int|
            self.connector_at(x, z) && marked(m, x, z) ==> rs.contains(
                Position { x: x as usize, z: z as usize },
            )
    }

    /// The frontier property: a gathered cell that is no longer on the
    /// stack has all its connector neighbors marked already.
    pub open spec fn frontier_inv(
        &self,
        m: Seq<Vec<bool>>,
        rs: Seq<Position>,
        stk: Seq<Position>,
    ) -> bool {
        forall|q: Position, n: Position|
            #![trigger rs.contains(q), cardinal_adjacent(q, n)]
            rs.contains(q) && !stk.contains(q) && cardinal_adjacent(q, n) && self.connector_pos(n)
                ==> marked(m, n.x as int, n.z as int)
    }

    /// Examines the neighbor of `p` one step along `(dx, dz)`: marks
    /// it, and gathers it when it is a connector cell.
    #[verifier::rlimit(50)]
    fn examine_neighbor(
        &self,
        p: Position,
        dx: i8,
        dz: i8,
        Ghost(seed): Ghost<Position>,
        marks: &mut Vec<Vec<bool>>,
        res: &mut Vec<Position>,
        stk: &mut Vec<Position>,
    )
        requires
            self.wf(),
            (dx as int == 1 && dz as int == 0) || (dx as int == -1 && dz as int == 0) || (dx as int
                == 0 && dz as int == 1) || (dx as int == 0 && dz as int == -1),
            self.search_inv(old(marks)@, old(res)@, seed),
            old(res)@.contains(p),
        ensures
            self.search_inv(final(marks)@, final(res)@, seed),
            // membership in the gathered cells and the stack only grows
            forall|v: Position| old(res)@.contains(v) ==> final(res)@.contains(v),
            forall|v: Position| old(stk)@.contains(v) ==> final(stk)@.contains(v),
            // a newly gathered cell sits on the new stack, and a new
            // stack entry is gathered
            forall|v: Position|
                final(res)@.contains(v) ==> old(res)@.contains(v) || final(stk)@.contains(v),
            forall|v: Position|
                final(stk)@.contains(v) ==> old(stk)@.contains(v) || final(res)@.contains(v),
            // marking is monotone
            forall|x: int, z: int|
                0 <= x < self.width() && 0 <= z < self.height() && marked(old(marks)@, x, z)
                    ==> marked(final(marks)@, x, z),
            // the examined neighbor is settled
            self.connector_at(p.x + dx, p.z + dz) ==> marked(final(marks)@, p.x + dx, p.z + dz),
            // each stack push pays for itself with a fresh mark
            grid_unmarked(final(marks)@) + final(stk)@.len() <= grid_unmarked(old(marks)@) + old(
                stk,
            )@.len(),
    {
        let ghost nxi = p.x + dx as int;
        let ghost nzi = p.z + dz as int;
        let nx: usize = if dx < 0 {
            if p.x == 0 {
                return ;
            }
            p.x - 1
        } else if dx > 0 {
            if p.x == usize::MAX {
                return ;
            }
            p.x + 1
        } else {
            p.x
        };
        let nz: usize = if dz < 0 {
            if p.z == 0 {
                return ;
            }
            p.z - 1
        } else if dz > 0 {
            if p.z == usize::MAX {
                return ;
            }
            p.z + 1
        } else {
            p.z
        };
        if nx >= self.size.x || nz >= self.size.z {
            return ;
        }
        assert(nx as int == nxi && nz as int == nzi);
        if marks[nz][nx] {
            return ;
        }
        let ghost m0 = marks@;
        let ghost oldrow = marks@[nz as int];
        let ghost res0 = res@;
        let ghost stk0 = stk@;
        marks[nz][nx] = true;
        proof {
            assert(marks@ == m0.update(nz as int, marks@[nz as int]));
            assert(marks@[nz as int]@ == oldrow@.update(nx as int, true));
            lemma_grid_mark(m0, nx as int, nz as int, marks@[nz as int]);
            assert forall|x: int, z: int|
                0 <= x < self.width() && 0 <= z < self.height() && marked(m0, x, z) implies marked(
                marks@,
                x,
                z,
            ) by {
                if z == nz as int {
                    if x != nx as int {
                        assert(marks@[z]@[x] == oldrow@[x]);
                    }
                } else {
                    assert(marks@[z] == m0[z]);
                }
            }
            assert(marked(marks@, nxi, nzi));
            assert(self.marks_wf(marks@)) by {
                assert forall|z: int| 0 <= z < self.height() implies (#[trigger] marks@[z])@.len()
                    == self.width() by {
                    if z != nz as int {
                        assert(marks@[z] == m0[z]);
                    }
                }
            }
        }
        let kind = self.rows[nz][nx].kind;
        let joins = kind.is_wall() && !matches!(kind, BlockType::WallSmallV);
        if joins {
            let found = Position::new(nx, nz);
            proof {
                self.lemma_connected_step(seed, p, found);
                // a gathered cell was marked before, the fresh cell not
                assert forall|i: int| 0 <= i < res0.len() implies res0[i] != found by {
                    assert(marked(m0, res0[i].x as int, res0[i].z as int));
                }
            }
            res.push(found);
            stk.push(found);
            proof {
                assert(res@ == res0.push(found));
                assert(stk@ == stk0.push(found));
                assert(res@.contains(found)) by {
                    assert(res@[res@.len() - 1] == found);
                }
                assert(stk@.contains(found)) by {
                    assert(stk@[stk@.len() - 1] == found);
                }
                assert forall|v: Position| res0.contains(v) implies res@.contains(v) by {
                    let j = choose|j: int| 0 <= j < res0.len() && res0[j] == v;
                    assert(res@[j] == v);
                }
                assert forall|v: Position| stk0.contains(v) implies stk@.contains(v) by {
                    let j = choose|j: int| 0 <= j < stk0.len() && stk0[j] == v;
                    assert(stk@[j] == v);
                }
                assert forall|v: Position| res@.contains(v) implies res0.contains(v)
                    || stk@.contains(v) by {
                    let j = choose|j: int| 0 <= j < res@.len() && res@[j] == v;
                    if j < res0.len() {
                        assert(res0[j] == v);
                    }
                }
                assert forall|v: Position| stk@.contains(v) implies stk0.contains(v)
                    || res@.contains(v) by {
                    let j = choose|j: int| 0 <= j < stk@.len() && stk@[j] == v;
                    if j < stk0.len() {
                        assert(stk0[j] == v);
                    }
                }
                assert(self.search_inv(marks@, res@, seed)) by {
                    assert forall|x: int, z: int|
                        self.connector_at(x, z) && marked(marks@, x, z) implies res@.contains(
                        Position { x: x as usize, z: z as usize },
                    ) by {
                        if x == nxi && z == nzi {
                            assert(found == (Position { x: x as usize, z: z as usize }));
                        } else {
                            assert(marked(m0, x, z)) by {
                                if z == nz as int {
                                    assert(marks@[z]@[x] == oldrow@[x]);
                                } else {
                                    assert(marks@[z] == m0[z]);
                                }
                            }
                            assert(res0.contains(Position { x: x as usize, z: z as usize }));
                            let j = choose|j: int|
                                0 <= j < res0.len() && res0[j] == (Position {
                                    x: x as usize,
                                    z: z as usize,
                                });
                            assert(res@[j] == res0[j]);
                        }
                    }
                }
            }
        } else {
            proof {
                assert(self.search_inv(marks@, res@, seed)) by {
                    assert(!self.connector_at(nxi, nzi));
                    assert forall|x: int, z: int|
                        self.connector_at(x, z) && marked(marks@, x, z) implies res@.contains(
                        Position { x: x as usize, z: z as usize },
                    ) by {
                        assert(marked(m0, x, z)) by {
                            if z == nz as int {
                                assert(marks@[z]@[x] == oldrow@[x]);
                            } else {
                                assert(marks@[z] == m0[z]);
                            }
                        }
                    }
                }
            }
        }
    }

    /// Every wall cell connected, under the wall-connectivity rule, to
    /// the cell directly south (`+z`) of `position`.
    ///
    /// If the south neighbor is off the grid or not a wall, nothing is
    /// hidden and the result is empty. Otherwise the result holds that
    /// seed cell first and then, in search order and without
    /// duplicates, exactly the cells of its wall cluster: the cells a
    /// chain of cardinal steps over wall cells reaches, where the small
    /// vertical wall kind ends every chain.
    pub fn wall_positions(&self, position: Position) -> (r: Vec<Position>)
        requires
            self.wf(),
        ensures
            !(self.in_bounds(position.x as int, position.z + 1) && self.spec_kind_at(
                position.x as int,
                position.z + 1,
            ).spec_is_wall()) ==> r@.len() == 0,
            (self.in_bounds(position.x as int, position.z + 1) && self.spec_kind_at(
                position.x as int,
                position.z + 1,
            ).spec_is_wall()) ==> {
                let seed = Position { x: position.x, z: (position.z + 1) as usize };
                &&& r@.len() >= 1
                &&& r@[0] == seed
                &&& forall|i: int, j: int| 0 <= i < j < r@.len() ==> r@[i] != r@[j]
                &&& forall|i: int| 1 <= i < r@.len() ==> self.connector_pos(#[trigger] r@[i])
                &&& forall|q: Position| r@.contains(q) <==> self.wall_connected(seed, q)
            },
    {
        if position.x >= self.size.x || position.z >= usize::MAX {
            return Vec::new();
        }
        let sz = position.z + 1;
        if sz >= self.size.z {
            return Vec::new();
        }
        let seed_kind = self.rows[sz][position.x].kind;
        if !seed_kind.is_wall() {
            return Vec::new();
        }
        let seed = Position::new(position.x, sz);
        // an all-false mark matrix of the grid's shape
        let mut marks: Vec<Vec<bool>> = Vec::new();
        let mut zz: usize = 0;
        while zz < self.size.z
            invariant
                zz <= self.size.z,
                marks@.len() == zz,
                forall|z: int| 0 <= z < zz ==> (#[trigger] marks@[z])@.len() == self.size.x,
                forall|z: int, x: int|
                    0 <= z < zz && 0 <= x < self.size.x ==> !marked(marks@, x, z),
            decreases self.size.z - zz,
        {
            let mut mrow: Vec<bool> = Vec::new();
            let mut xx: usize = 0;
            while xx < self.size.x
                invariant
                    xx <= self.size.x,
                    mrow@.len() == xx,
                    forall|i: int| 0 <= i < xx ==> !mrow@[i],
                decreases self.size.x - xx,
            {
                mrow.push(false);
                xx = xx + 1;
            }
            let ghost pre = marks@;
            marks.push(mrow);
            proof {
                assert forall|z: int, x: int|
                    0 <= z < zz + 1 && 0 <= x < self.size.x implies !marked(marks@, x, z) by {
                    if z < zz {
                        assert(marks@[z] == pre[z]);
                        assert(!marked(pre, x, z));
                    } else {
                        assert(marks@[z] == mrow);
                        assert(!mrow@[x]);
                    }
                }
            }
            zz = zz + 1;
        }
        let ghost m0 = marks@;
        let ghost oldrow = marks@[seed.z as int];
        marks[seed.z][seed.x] = true;
        proof {
            assert(marks@ == m0.update(seed.z as int, marks@[seed.z as int]));
            assert(marks@[seed.z as int]@ == oldrow@.update(seed.x as int, true));
        }
        let mut res: Vec<Position> = Vec::new();
        res.push(seed);
        let mut stk: Vec<Position> = Vec::new();
        stk.push(seed);
        proof {
            assert(self.wall_connected(seed, seed)) by {
                let unit: Seq<Position> = seq![seed];
                assert(unit.last() == seed);
                assert(self.path_connects(seed, unit, seed));
            }
            assert forall|x: int, z: int|
                self.connector_at(x, z) && marked(marks@, x, z) implies res@.contains(
                Position { x: x as usize, z: z as usize },
            ) by {
                assert(x == seed.x && z == seed.z) by {
                    if z != seed.z {
                        assert(marks@[z] == m0[z]);
                        assert(!marked(m0, x, z));
                    } else if x != seed.x {
                        assert(marks@[z]@[x] == oldrow@[x]);
                        assert(!marked(m0, x, z));
                    }
                }
                assert(res@[0] == Position { x: x as usize, z: z as usize });
            }
            assert(self.search_inv(marks@, res@, seed));
            assert(res@.contains(seed)) by {
                assert(res@[0] == seed);
            }
        }
        loop
            invariant_except_break
                self.wf(),
                self.search_inv(marks@, res@, seed),
                self.frontier_inv(marks@, res@, stk@),
                forall|i: int| 0 <= i < stk@.len() ==> res@.contains(#[trigger] stk@[i]),
            ensures
                self.search_inv(marks@, res@, seed),
                self.frontier_inv(marks@, res@, Seq::<Position>::empty()),
            decreases grid_unmarked(marks@) + stk@.len(),
        {
            let ghost m_head = marks@;
            let ghost res_head = res@;
            let ghost stk_head = stk@;
            let p = match stk.pop() {
                Some(p) => p,
                None => {
                    proof {
                        assert(stk@ =~= Seq::<Position>::empty());
                    }
                    break ;
                },
            };
            proof {
                assert(res@.contains(p)) by {
                    assert(stk_head[stk_head.len() - 1] == p);
                }
            }
            let ghost stk0 = stk@;
            let ghost res0 = res@;
            let ghost m_0 = marks@;
            self.examine_neighbor(p, 1, 0, Ghost(seed), &mut marks, &mut res, &mut stk);
            proof {
                assert(res@.contains(p));
            }
            let ghost stk1 = stk@;
            let ghost res1 = res@;
            let ghost m_1 = marks@;
            self.examine_neighbor(p, -1, 0, Ghost(seed), &mut marks, &mut res, &mut stk);
            proof {
                assert(res@.contains(p));
            }
            let ghost stk2 = stk@;
            let ghost res2 = res@;
            let ghost m_2 = marks@;
            self.examine_neighbor(p, 0, 1, Ghost(seed), &mut marks, &mut res, &mut stk);
            proof {
                assert(res@.contains(p));
            }
            let ghost stk3 = stk@;
            let ghost res3 = res@;
            let ghost m_3 = marks@;
            self.examine_neighbor(p, 0, -1, Ghost(seed), &mut marks, &mut res, &mut stk);
            proof {
                // marking is monotone across the whole iteration
                assert forall|x: int, z: int|
                    0 <= x < self.width() && 0 <= z < self.height() && marked(
                        m_head,
                        x,
                        z,
                    ) implies marked(marks@, x, z) by {
                    assert(marked(m_1, x, z));
                    assert(marked(m_2, x, z));
                    assert(marked(m_3, x, z));
                }
                // so is membership in the gathered cells
                assert forall|v: Position| res_head.contains(v) implies res@.contains(v) by {
                    assert(res1.contains(v));
                    assert(res2.contains(v));
                    assert(res3.contains(v));
                }
                // every stack entry is still gathered
                assert forall|i: int| 0 <= i < stk@.len() implies res@.contains(
                    #[trigger] stk@[i],
                ) by {
                    let v = stk@[i];
                    assert(stk@.contains(v));
                    if !res@.contains(v) {
                        assert(stk3.contains(v));
                        assert(stk2.contains(v)) by {
                            if res3.contains(v) {
                                assert(res@.contains(v));
                            }
                        }
                        assert(stk1.contains(v)) by {
                            if res2.contains(v) {
                                assert(res3.contains(v));
                                assert(res@.contains(v));
                            }
                        }
                        assert(stk0.contains(v)) by {
                            if res1.contains(v) {
                                assert(res2.contains(v));
                                assert(res3.contains(v));
                                assert(res@.contains(v));
                            }
                        }
                        let j = choose|j: int| 0 <= j < stk0.len() && stk0[j] == v;
                        assert(stk_head[j] == v);
                        assert(res_head.contains(v));
                        assert(res@.contains(v));
                    }
                }
                // the frontier is restored
                assert forall|q: Position, n: Position|
                    #![trigger res@.contains(q), cardinal_adjacent(q, n)]
                    res@.contains(q) && !stk@.contains(q) && cardinal_adjacent(q, n)
                        && self.connector_pos(n) implies marked(marks@, n.x as int, n.z as int) by {
                    if res_head.contains(q) {
                        if q == p {
                            // the four calls settled every neighbor of p
                            if n.z as int == p.z as int && n.x as int == p.x + 1 {
                                assert(marked(m_1, p.x + 1, p.z as int));
                                assert(marked(m_2, p.x + 1, p.z as int));
                                assert(marked(m_3, p.x + 1, p.z as int));
                                assert(marked(marks@, p.x + 1, p.z as int));
                            } else if n.z as int == p.z as int && n.x + 1 == p.x as int {
                                assert(self.connector_at(p.x - 1, p.z as int));
                                assert(marked(m_2, p.x - 1, p.z as int));
                                assert(marked(m_3, p.x - 1, p.z as int));
                                assert(marked(marks@, p.x - 1, p.z as int));
                            } else if n.x as int == p.x as int && n.z as int == p.z + 1 {
                                assert(marked(m_3, p.x as int, p.z + 1));
                                assert(marked(marks@, p.x as int, p.z + 1));
                            } else {
                                assert(n.x as int == p.x as int && n.z + 1 == p.z as int);
                                assert(self.connector_at(p.x as int, p.z - 1));
                                assert(marked(marks@, p.x as int, p.z - 1));
                            }
                        } else {
                            assert(!stk_head.contains(q)) by {
                                if stk_head.contains(q) {
                                    let j = choose|j: int|
                                        0 <= j < stk_head.len() && stk_head[j] == q;
                                    assert(j < stk_head.len() - 1);
                                    assert(stk0[j] == q);
                                    assert(stk0.contains(q));
                                    assert(stk1.contains(q));
                                    assert(stk2.contains(q));
                                    assert(stk3.contains(q));
                                    assert(stk@.contains(q));
                                }
                            }
                            assert(marked(m_head, n.x as int, n.z as int));
                            assert(marked(m_1, n.x as int, n.z as int));
                            assert(marked(m_2, n.x as int, n.z as int));
                            assert(marked(m_3, n.x as int, n.z as int));
                        }
                    } else {
                        // a cell gathered this iteration is still on the
                        // stack, contradicting the hypothesis
                        assert(res3.contains(q)) by {
                            if stk@.contains(q) {
                            }
                        }
                        assert(res2.contains(q)) by {
                            if stk3.contains(q) {
                                assert(stk@.contains(q));
                            }
                        }
                        assert(res1.contains(q)) by {
                            if stk2.contains(q) {
                                assert(stk3.contains(q));
                                assert(stk@.contains(q));
                            }
                        }
                        assert(res_head.contains(q)) by {
                            if stk1.contains(q) {
                                assert(stk2.contains(q));
                                assert(stk3.contains(q));
                                assert(stk@.contains(q));
                            }
                        }
                        assert(false);
                    }
                }
            }
        }
        proof {
            // with an empty stack the gathered set is closed, so it
            // holds the whole cluster
            assert forall|q: Position| res@.contains(q) <==> self.wall_connected(
                seed,
                q,
            ) by {
                if res@.contains(q) {
                    let i = choose|i: int| 0 <= i < res@.len() && res@[i] == q;
                    assert(self.wall_connected(seed, res@[i]));
                }
                if self.wall_connected(seed, q) {
                    assert forall|a: Position, n: Position|
                        #![trigger res@.contains(a), cardinal_adjacent(a, n)]
                        res@.contains(a) && cardinal_adjacent(a, n) && self.connector_pos(
                            n,
                        ) implies res@.contains(n) by {
                        assert(!Seq::<Position>::empty().contains(a));
                        assert(marked(marks@, n.x as int, n.z as int));
                    }
                    assert(res@.contains(seed)) by {
                        assert(res@[0] == seed);
                    }
                    let path = choose|path: Seq<Position>| self.path_connects(seed, path, q);
                    assert(path.last() == q);
                    self.lemma_path_absorbed(seed, res@, path);
                }
            }
        }
        res
    }
}

impl Level {
    /// Every wall cell connected to the cell directly south of
    /// `position`; see [`Grid::wall_positions`].
    pub fn wall_positions(&self, position: Position) -> (r: Vec<Position>)
        requires
            self.wf(),
        ensures
            !(self.grid.in_bounds(position.x as int, position.z + 1) && self.grid.spec_kind_at(
                position.x as int,
                position.z + 1,
            ).spec_is_wall()) ==> r@.len() == 0,
            (self.grid.in_bounds(position.x as int, position.z + 1) && self.grid.spec_kind_at(
                position.x as int,
                position.z + 1,
            ).spec_is_wall()) ==> {
                let seed = Position { x: position.x, z: (position.z + 1) as usize };
                &&& r@.len() >= 1
                &&& r@[0] == seed
                &&& forall|i: int, j: int| 0 <= i < j < r@.len() ==> r@[i] != r@[j]
                &&& forall|i: int| 1 <= i < r@.len() ==> self.grid.connector_pos(#[trigger] r@[i])
                &&& forall|q: Position| r@.contains(q) <==> self.grid.wall_connected(seed, q)
            },
    {
        self.grid.wall_positions(position)
    }
}

} // verus!
