//! The immutable cell grid of one level: dimensions, the row-major
//! block matrix, bounds-checked lookup, the grid/render coordinate
//! transform and the free-movement query.

use vstd::prelude::*;

use crate::types::{Block, BlockType, BoardDirection, Position, WorldCoord};

verus! {

/// The static part of a board: its dimensions and its cells, row-major
/// (`rows[z][x]`), fixed once built.
#[derive(Debug)]
pub struct Grid {
    /// `size.x` is the width (cells per row), `size.z` the height (row
    /// count).
    pub size: Position,
    pub rows: Vec<Vec<Block>>,
}

impl Grid {
    pub open spec fn width(&self) -> int {
        self.size.x as int
    }

    pub open spec fn height(&self) -> int {
        self.size.z as int
    }

    /// Whether `(x, z)` names a cell of this grid.
    pub open spec fn in_bounds(&self, x: int, z: int) -> bool {
        0 <= x < self.width() && 0 <= z < self.height()
    }

    pub open spec fn spec_block_at(&self, x: int, z: int) -> Block {
        self.rows@[z]@[x]
    }

    pub open spec fn spec_kind_at(&self, x: int, z: int) -> BlockType {
        self.spec_block_at(x, z).kind
    }

    /// The render anchor of a cell, in half-cell units: the grid is
    /// centered on the origin, so a cell's anchor is its doubled index,
    /// shifted by one half cell, minus the grid's extent.
    pub open spec fn spec_translate(&self, p: Position) -> WorldCoord {
        WorldCoord {
            x: (2 * p.x + 1 - self.width()) as i128,
            z: (2 * p.z + 1 - self.height()) as i128,
        }
    }

    /// A well-formed grid: the matrix matches the dimensions and every
    /// block carries its own grid position and render anchor.
    pub open spec fn wf(&self) -> bool {
        &&& self.rows@.len() == self.size.z
        &&& forall|z: int|
            0 <= z < self.height() ==> (#[trigger] self.rows@[z])@.len() == self.size.x
        &&& forall|x: int, z: int|
            self.in_bounds(x, z) ==> (#[trigger] self.spec_block_at(x, z)).level_position
                == (Position { x: x as usize, z: z as usize })
        &&& forall|x: int, z: int|
            self.in_bounds(x, z) ==> (#[trigger] self.spec_block_at(x, z)).position
                == self.spec_translate(Position { x: x as usize, z: z as usize })
    }

    /// The cell at `(x, z)`, or `None` off the grid.
    pub open spec fn spec_get(&self, x: int, z: int) -> Option<Block> {
        if self.in_bounds(x, z) {
            Some(self.spec_block_at(x, z))
        } else {
            None
        }
    }

    /// Bounds-checked cell lookup: every other query is built on it.
    /// Total: any coordinate off the grid, negative included, answers
    /// `None`.
    pub fn get(&self, x: isize, z: isize) -> (r: Option<Block>)
        requires
            self.wf(),
        ensures
            r == self.spec_get(x as int, z as int),
            r is Some <==> self.in_bounds(x as int, z as int),
    {
        if x < 0 || z < 0 {
            return None;
        }
        let xu = x as usize;
        let zu = z as usize;
        if xu >= self.size.x || zu >= self.size.z {
            return None;
        }
        Some(self.rows[zu][xu])
    }

    /// The cell one step from `p` along `(dx, dz)`, or `None` off the
    /// grid. Steps past `usize::MAX` are off any grid.
    fn neighbor_block(&self, p: Position, dx: i8, dz: i8) -> (r: Option<Block>)
        requires
            self.wf(),
            -1 <= dx <= 1,
            -1 <= dz <= 1,
        ensures
            r == self.spec_get(p.x + dx, p.z + dz),
    {
        let nx: usize = if dx < 0 {
            if p.x == 0 {
                return None;
            }
            p.x - 1
        } else if dx > 0 {
            if p.x == usize::MAX {
                return None;
            }
            p.x + 1
        } else {
            p.x
        };
        let nz: usize = if dz < 0 {
            if p.z == 0 {
                return None;
            }
            p.z - 1
        } else if dz > 0 {
            if p.z == usize::MAX {
                return None;
            }
            p.z + 1
        } else {
            p.z
        };
        if nx >= self.size.x || nz >= self.size.z {
            return None;
        }
        Some(self.rows[nz][nx])
    }

    /// Whether one step from `p` along `(dx, dz)` lands on the grid and
    /// not on a wall.
    pub open spec fn dir_free(&self, p: Position, dx: int, dz: int) -> bool {
        self.in_bounds(p.x + dx, p.z + dz) && !self.spec_kind_at(
            p.x + dx,
            p.z + dz,
        ).spec_is_wall()
    }

    /// The free directions around `p`, in the fixed enumeration order
    /// right, left, forward, backward.
    pub open spec fn spec_free_directions(&self, p: Position) -> Seq<BoardDirection> {
        let right = if self.dir_free(p, 1, 0) {
            seq![BoardDirection { x: 1, z: 0 }]
        } else {
            Seq::<BoardDirection>::empty()
        };
        let left = if self.dir_free(p, -1, 0) {
            seq![BoardDirection { x: -1i8, z: 0 }]
        } else {
            Seq::<BoardDirection>::empty()
        };
        let forward = if self.dir_free(p, 0, 1) {
            seq![BoardDirection { x: 0, z: 1 }]
        } else {
            Seq::<BoardDirection>::empty()
        };
        let backward = if self.dir_free(p, 0, -1) {
            seq![BoardDirection { x: 0, z: -1i8 }]
        } else {
            Seq::<BoardDirection>::empty()
        };
        right + left + forward + backward
    }

    /// The directions in which a move from `position` stays on the grid
    /// and off the walls, in the order right `(+x)`, left `(-x)`,
    /// forward `(+z)`, backward `(-z)`.
    pub fn free_directions(&self, position: Position) -> (r: Vec<BoardDirection>)
        requires
            self.wf(),
        ensures
            r@ == self.spec_free_directions(position),
    {
        let mut r: Vec<BoardDirection> = Vec::new();
        if let Some(b) = self.neighbor_block(position, 1, 0) {
            if !b.kind.is_wall() {
                r.push(BoardDirection::new(1, 0));
            }
        }
        if let Some(b) = self.neighbor_block(position, -1, 0) {
            if !b.kind.is_wall() {
                r.push(BoardDirection::new(-1, 0));
            }
        }
        if let Some(b) = self.neighbor_block(position, 0, 1) {
            if !b.kind.is_wall() {
                r.push(BoardDirection::new(0, 1));
            }
        }
        if let Some(b) = self.neighbor_block(position, 0, -1) {
            if !b.kind.is_wall() {
                r.push(BoardDirection::new(0, -1));
            }
        }
        proof {
            assert(r@ =~= self.spec_free_directions(position));
        }
        r
    }

    /// The render anchor of a grid position, in half-cell units.
    pub fn translate_from_position(&self, position: Position) -> (r: WorldCoord)
        ensures
            r == self.spec_translate(position),
    {
        WorldCoord {
            x: 2 * (position.x as i128) + 1 - (self.size.x as i128),
            z: 2 * (position.z as i128) + 1 - (self.size.z as i128),
        }
    }

    /// The exact inverse of `spec_translate` on this grid: the cell
    /// whose anchor is `w`, or `None` when `w` is no cell's anchor.
    pub open spec fn spec_position_from_translation(&self, w: WorldCoord) -> Option<Position> {
        let cx = w.x - 1 + self.width();
        let cz = w.z - 1 + self.height();
        if 0 <= cx && 0 <= cz && cx % 2 == 0 && cz % 2 == 0 && cx / 2 < self.width() && cz / 2
            < self.height() {
            Some(Position { x: (cx / 2) as usize, z: (cz / 2) as usize })
        } else {
            None
        }
    }

    /// Recovers the grid position whose render anchor is `w`, or `None`
    /// when `w` lies on no cell.
    pub fn position_from_translation(&self, w: WorldCoord) -> (r: Option<Position>)
        ensures
            r == self.spec_position_from_translation(w),
    {
        let sx = self.size.x as i128;
        let sz = self.size.z as i128;
        if w.x <= -sx || w.x >= sx || w.z <= -sz || w.z >= sz {
            return None;
        }
        let cx = w.x - 1 + sx;
        let cz = w.z - 1 + sz;
        if cx < 0 || cz < 0 || cx % 2 != 0 || cz % 2 != 0 {
            return None;
        }
        let px = cx / 2;
        let pz = cz / 2;
        if px >= sx || pz >= sz {
            return None;
        }
        Some(Position { x: px as usize, z: pz as usize })
    }

    /// Round trip of the coordinate transform: every in-bounds grid
    /// position is recovered exactly from its own render anchor.
    pub proof fn lemma_world_round_trip(&self, p: Position)
        requires
            self.in_bounds(p.x as int, p.z as int),
        ensures
            self.spec_position_from_translation(self.spec_translate(p)) == Some(p),
    {
    }

    /// Whether `d` is one of the four axis-aligned unit directions.
    pub open spec fn is_cardinal(d: BoardDirection) -> bool {
        (d.x == 1 && d.z == 0) || (d.x == -1 && d.z == 0) || (d.x == 0 && d.z == 1) || (d.x == 0
            && d.z == -1)
    }

    /// Free-direction exclusivity: a direction is listed exactly when
    /// it is a cardinal unit step whose target cell is on the grid and
    /// not a wall.
    pub proof fn lemma_free_direction_exclusive(&self, p: Position, d: BoardDirection)
        ensures
            self.spec_free_directions(p).contains(d) <==> Self::is_cardinal(d) && self.dir_free(
                p,
                d.x as int,
                d.z as int,
            ),
    {
        let r = self.spec_free_directions(p);
        if Self::is_cardinal(d) && self.dir_free(p, d.x as int, d.z as int) {
            assert(r.contains(d)) by {
                let right = BoardDirection { x: 1, z: 0 };
                let left = BoardDirection { x: -1i8, z: 0 };
                let forward = BoardDirection { x: 0, z: 1 };
                let backward = BoardDirection { x: 0, z: -1i8 };
                if d == right {
                    assert(r[0] == d);
                } else if d == left {
                    let i = if self.dir_free(p, 1, 0) {
                        1int
                    } else {
                        0int
                    };
                    assert(r[i] == d);
                } else if d == forward {
                    let i = (if self.dir_free(p, 1, 0) {
                        1int
                    } else {
                        0int
                    }) + (if self.dir_free(p, -1, 0) {
                        1int
                    } else {
                        0int
                    });
                    assert(r[i] == d);
                } else {
                    assert(r[r.len() - 1] == d);
                }
            }
        }
        if r.contains(d) {
            let i = choose|i: int| 0 <= i < r.len() && r[i] == d;
            assert(Self::is_cardinal(d) && self.dir_free(p, d.x as int, d.z as int));
        }
    }
}

} // verus!
