//! The level board: the immutable cell grid plus everything that moves
//! on it — player, enemies, coins, armed bombs and the exit flag.

use std::collections::HashMap;

use vstd::prelude::*;

use crate::grid::Grid;
use crate::parse::{lines_even, lines_legal};
use crate::textmap::map_lines;
use crate::types::{Block, BlockType, BoardDirection, LevelError, Position, WorldCoord};

verus! {

broadcast use vstd::std_specs::hash::group_hash_axioms;

/// Whether the cell `(x, z)` comes after `a` in row-major scan order.
pub open spec fn row_major_later(a: Position, x: int, z: int) -> bool {
    z > a.z || (z == a.z && x > a.x)
}

/// Whether the cell `(x, z)` lies before the scan cursor `(cx, cz)` in
/// row-major order.
pub open spec fn scanned_before(x: int, z: int, cx: int, cz: int) -> bool {
    z < cz || (z == cz && x < cx)
}

/// Whether any line holds the given character.
pub open spec fn lines_have_char(ls: Seq<Seq<char>>, c: char) -> bool {
    exists|z: int, x: int| 0 <= z < ls.len() && 0 <= x < ls[z].len() && #[trigger] ls[z][x] == c
}

/// One level's full board state. The grid never changes after
/// construction; the dynamic associations map opaque entity
/// identifiers, owned by the surrounding game loop, to grid positions.
#[derive(Debug)]
pub struct Level {
    pub grid: Grid,
    pub player_position: Position,
    pub ending_position: Position,
    pub enemy_positions: HashMap<u64, Position>,
    pub coin_positions: HashMap<u64, Position>,
    pub bombs: HashMap<u64, (usize, Position)>,
    /// The blast range every newly placed bomb gets.
    pub bomb_size: usize,
    /// Set once, irreversibly, when the last enemy is cleared.
    pub ending_visible: bool,
}

impl Level {
    /// The board invariant: the grid is well-formed, the player stands
    /// on a non-wall cell of the grid, the exit is on the grid, and
    /// every tracked enemy and coin position is on the grid.
    pub open spec fn wf(&self) -> bool {
        &&& self.grid.wf()
        &&& self.grid.in_bounds(self.player_position.x as int, self.player_position.z as int)
        &&& !self.grid.spec_kind_at(
            self.player_position.x as int,
            self.player_position.z as int,
        ).spec_is_wall()
        &&& self.grid.in_bounds(self.ending_position.x as int, self.ending_position.z as int)
        &&& forall|k: u64|
            #[trigger] self.enemy_positions@.dom().contains(k) ==> self.grid.in_bounds(
                self.enemy_positions@[k].x as int,
                self.enemy_positions@[k].z as int,
            )
        &&& forall|k: u64|
            #[trigger] self.coin_positions@.dom().contains(k) ==> self.grid.in_bounds(
                self.coin_positions@[k].x as int,
                self.coin_positions@[k].z as int,
            )
    }

    /// The static board state every mutator leaves alone.
    pub open spec fn same_board(&self, other: &Level) -> bool {
        &&& self.grid == other.grid
        &&& self.bomb_size == other.bomb_size
    }

    /// Builds the board for one level from its ASCII map.
    ///
    /// The map's non-blank lines become the rows of the grid. The map
    /// must use only legend characters, its rows must share one length,
    /// and it must name a player start and an exit; each failure is
    /// refused with its own error, in that order of precedence. When
    /// the same marker appears more than once, the last one in
    /// row-major scan order wins. The board starts with no tracked
    /// enemies, coins or bombs, a blast range of 5, and the exit
    /// hidden.
    #[verifier::loop_isolation(false)]
    pub fn new(data: &str) -> (r: Result<Level, LevelError>)
        ensures
            ({
                let ls = map_lines(data@);
                match r {
                    Ok(level) => {
                        &&& level.wf()
                        &&& lines_legal(ls) && lines_even(ls)
                        &&& level.grid.matches_lines(ls)
                        &&& level.grid.spec_kind_at(
                            level.player_position.x as int,
                            level.player_position.z as int,
                        ) == BlockType::Player
                        &&& forall|x: int, z: int|
                            level.grid.in_bounds(x, z) && row_major_later(
                                level.player_position,
                                x,
                                z,
                            ) ==> #[trigger] level.grid.spec_kind_at(x, z) != BlockType::Player
                        &&& level.grid.spec_kind_at(
                            level.ending_position.x as int,
                            level.ending_position.z as int,
                        ) == BlockType::Exit
                        &&& forall|x: int, z: int|
                            level.grid.in_bounds(x, z) && row_major_later(
                                level.ending_position,
                                x,
                                z,
                            ) ==> #[trigger] level.grid.spec_kind_at(x, z) != BlockType::Exit
                        &&& level.enemy_positions@ == Map::<u64, Position>::empty()
                        &&& level.coin_positions@ == Map::<u64, Position>::empty()
                        &&& level.bombs@ == Map::<u64, (usize, Position)>::empty()
                        &&& level.bomb_size == 5
                        &&& level.ending_visible == false
                    },
                    Err(e) => {
                        &&& (e == LevelError::UnknownMapCharacter <==> !lines_legal(ls))
                        &&& (e == LevelError::UnevenRows <==> lines_legal(ls) && !lines_even(ls))
                        &&& (e == LevelError::MissingPlayerStart <==> lines_legal(ls) && lines_even(
                            ls,
                        ) && !lines_have_char(ls, 'o'))
                        &&& (e == LevelError::MissingExit <==> lines_legal(ls) && lines_even(ls)
                            && lines_have_char(ls, 'o') && !lines_have_char(ls, 'e'))
                    },
                }
            }),
    {
        let ghost ls = map_lines(data@);
        let grid = match Grid::parse(data) {
            Ok(g) => g,
            Err(e) => {
                return Err(e);
            },
        };
        let mut player: Option<Position> = None;
        let mut ending: Option<Position> = None;
        let mut z: usize = 0;
        while z < grid.rows.len()
            invariant
                z <= grid.rows.len(),
                Self::scan_inv(&grid, player, BlockType::Player, 0, z as int),
                Self::scan_inv(&grid, ending, BlockType::Exit, 0, z as int),
            decreases grid.rows.len() - z,
        {
            let row = &grid.rows[z];
            let mut x: usize = 0;
            while x < row.len()
                invariant
                    x <= row.len(),
                    row == &grid.rows[z as int],
                    z < grid.rows.len(),
                    Self::scan_inv(&grid, player, BlockType::Player, x as int, z as int),
                    Self::scan_inv(&grid, ending, BlockType::Exit, x as int, z as int),
                decreases row.len() - x,
            {
                let kind = row[x].kind;
                if matches!(kind, BlockType::Player) {
                    player = Some(Position::new(x, z));
                }
                if matches!(kind, BlockType::Exit) {
                    ending = Some(Position::new(x, z));
                }
                x = x + 1;
            }
            proof {
                assert forall|xx: int, zz: int|
                    scanned_before(xx, zz, row@.len() as int, z as int) && grid.in_bounds(
                        xx,
                        zz,
                    ) implies scanned_before(xx, zz, 0, z as int + 1) by {}
            }
            z = z + 1;
        }
        let player_position = match player {
            Some(p) => p,
            None => {
                proof {
                    Self::lemma_no_kind_no_char(&grid, ls, BlockType::Player, 'o');
                }
                return Err(LevelError::MissingPlayerStart);
            },
        };
        let ending_position = match ending {
            Some(p) => p,
            None => {
                proof {
                    Self::lemma_no_kind_no_char(&grid, ls, BlockType::Exit, 'e');
                    assert(grid.in_bounds(
                        player_position.x as int,
                        player_position.z as int,
                    ) && grid.spec_kind_at(player_position.x as int, player_position.z as int)
                        == BlockType::Player);
                    assert(ls[player_position.z as int][player_position.x as int] == 'o');
                    assert(lines_have_char(ls, 'o'));
                }
                return Err(LevelError::MissingExit);
            },
        };
        Ok(
            Level {
                grid,
                player_position,
                ending_position,
                enemy_positions: HashMap::new(),
                coin_positions: HashMap::new(),
                bombs: HashMap::new(),
                bomb_size: 5,
                ending_visible: false,
            },
        )
    }

    /// The marker-scan loop invariant: `found` is the last cell of the
    /// wanted kind before the cursor, or `None` when there is none.
    pub open spec fn scan_inv(
        grid: &Grid,
        found: Option<Position>,
        wanted: BlockType,
        cx: int,
        cz: int,
    ) -> bool {
        match found {
            Some(p) => {
                &&& grid.in_bounds(p.x as int, p.z as int)
                &&& grid.spec_kind_at(p.x as int, p.z as int) == wanted
                &&& scanned_before(p.x as int, p.z as int, cx, cz)
                &&& forall|x: int, z: int|
                    grid.in_bounds(x, z) && scanned_before(x, z, cx, cz) && row_major_later(
                        p,
                        x,
                        z,
                    ) ==> #[trigger] grid.spec_kind_at(x, z) != wanted
            },
            None => forall|x: int, z: int|
                grid.in_bounds(x, z) && scanned_before(x, z, cx, cz)
                    ==> #[trigger] grid.spec_kind_at(x, z) != wanted,
        }
    }

    /// When no cell of the grid has the kind the legend gives to `c`,
    /// the map text holds no `c` anywhere.
    proof fn lemma_no_kind_no_char(grid: &Grid, ls: Seq<Seq<char>>, wanted: BlockType, c: char)
        requires
            grid.matches_lines(ls),
            lines_even(ls),
            BlockType::spec_from_char(c) == Some(wanted),
            forall|x: int, z: int|
                grid.in_bounds(x, z) ==> #[trigger] grid.spec_kind_at(x, z) != wanted,
        ensures
            !lines_have_char(ls, c),
    {
        assert forall|z: int, x: int|
            0 <= z < ls.len() && 0 <= x < ls[z].len() implies #[trigger] ls[z][x] != c by {
            assert(ls[z].len() == ls[0].len());
            assert(grid.in_bounds(x, z));
            assert(Some(grid.spec_kind_at(x, z)) == BlockType::spec_from_char(ls[z][x]));
        }
    }

    /// The rows of the grid, outermost first.
    pub fn rows(&self) -> (r: &Vec<Vec<Block>>)
        ensures
            r == &self.grid.rows,
    {
        &self.grid.rows
    }

    /// Bounds-checked cell lookup; see [`Grid::get`].
    pub fn get(&self, x: isize, z: isize) -> (r: Option<Block>)
        requires
            self.wf(),
        ensures
            r == self.grid.spec_get(x as int, z as int),
            r is Some <==> self.grid.in_bounds(x as int, z as int),
    {
        self.grid.get(x, z)
    }

    /// The free movement directions around `position`; see
    /// [`Grid::free_directions`].
    pub fn free_directions(&self, position: Position) -> (r: Vec<BoardDirection>)
        requires
            self.wf(),
        ensures
            r@ == self.grid.spec_free_directions(position),
    {
        self.grid.free_directions(position)
    }

    /// The render anchor of a grid position; see
    /// [`Grid::translate_from_position`].
    pub fn translate_from_position(&self, position: Position) -> (r: WorldCoord)
        ensures
            r == self.grid.spec_translate(position),
    {
        self.grid.translate_from_position(position)
    }

    /// The inverse of the render transform; see
    /// [`Grid::position_from_translation`].
    pub fn position_from_translation(&self, w: WorldCoord) -> (r: Option<Position>)
        ensures
            r == self.grid.spec_position_from_translation(w),
    {
        self.grid.position_from_translation(w)
    }

    /// Validates one movement step: the cell reached from `from` along
    /// `direction`, or `None` when that direction is not free there.
    ///
    /// A move is accepted exactly when `free_directions(from)` lists
    /// the direction; the accepted target is always an in-bounds,
    /// non-wall cell, so it can be handed straight back to
    /// `set_player_position`.
    pub fn move_target(&self, from: Position, direction: BoardDirection) -> (r: Option<Position>)
        requires
            self.wf(),
        ensures
            match r {
                Some(t) => {
                    &&& self.grid.spec_free_directions(from).contains(direction)
                    &&& t == from.spec_apply_direction(direction)
                    &&& self.grid.in_bounds(t.x as int, t.z as int)
                    &&& !self.grid.spec_kind_at(t.x as int, t.z as int).spec_is_wall()
                },
                None => !self.grid.spec_free_directions(from).contains(direction),
            },
    {
        let free = self.grid.free_directions(from);
        let mut found = false;
        let mut i: usize = 0;
        while i < free.len()
            invariant
                i <= free.len(),
                found <==> exists|j: int| 0 <= j < i && free@[j] == direction,
            decreases free.len() - i,
        {
            if free[i] == direction {
                found = true;
                proof {
                    assert(free@[i as int] == direction);
                }
            }
            i = i + 1;
        }
        if !found {
            proof {
                assert(!free@.contains(direction)) by {
                    if free@.contains(direction) {
                        let j = choose|j: int| 0 <= j < free@.len() && free@[j] == direction;
                    }
                }
            }
            return None;
        }
        proof {
            self.grid.lemma_free_direction_exclusive(from, direction);
        }
        let mut target = from;
        target.apply_direction(&direction);
        Some(target)
    }

    /// Moves the player marker. The caller checks the move first (via
    /// `free_directions` or `move_target`); the board only tracks
    /// positions that keep its invariant.
    pub fn set_player_position(&mut self, position: Position)
        requires
            old(self).wf(),
            old(self).grid.in_bounds(position.x as int, position.z as int),
            !old(self).grid.spec_kind_at(position.x as int, position.z as int).spec_is_wall(),
        ensures
            final(self).wf(),
            final(self).player_position == position,
            final(self).same_board(old(self)),
            final(self).ending_position == old(self).ending_position,
            final(self).enemy_positions@ == old(self).enemy_positions@,
            final(self).coin_positions@ == old(self).coin_positions@,
            final(self).bombs@ == old(self).bombs@,
            final(self).ending_visible == old(self).ending_visible,
    {
        self.player_position = position;
    }

    /// Tracks (or retracks) an enemy at a grid position.
    pub fn insert_enemy(&mut self, entity: u64, position: Position)
        requires
            old(self).wf(),
            old(self).grid.in_bounds(position.x as int, position.z as int),
        ensures
            final(self).wf(),
            final(self).enemy_positions@ == old(self).enemy_positions@.insert(entity, position),
            final(self).same_board(old(self)),
            final(self).player_position == old(self).player_position,
            final(self).ending_position == old(self).ending_position,
            final(self).coin_positions@ == old(self).coin_positions@,
            final(self).bombs@ == old(self).bombs@,
            final(self).ending_visible == old(self).ending_visible,
    {
        self.enemy_positions.insert(entity, position);
    }

    /// Forgets an enemy; unknown identifiers are a no-op.
    pub fn remove_enemy(&mut self, entity: u64)
        requires
            old(self).wf(),
        ensures
            final(self).wf(),
            final(self).enemy_positions@ == old(self).enemy_positions@.remove(entity),
            final(self).same_board(old(self)),
            final(self).player_position == old(self).player_position,
            final(self).ending_position == old(self).ending_position,
            final(self).coin_positions@ == old(self).coin_positions@,
            final(self).bombs@ == old(self).bombs@,
            final(self).ending_visible == old(self).ending_visible,
    {
        self.enemy_positions.remove(&entity);
    }

    /// Whether no enemy is tracked any more: the caller's cue to reveal
    /// the exit.
    pub fn enemies_cleared(&self) -> (r: bool)
        ensures
            r == self.enemy_positions@.is_empty(),
    {
        self.enemy_positions.is_empty()
    }

    /// Tracks (or retracks) a coin at a grid position.
    pub fn insert_coin(&mut self, entity: u64, position: Position)
        requires
            old(self).wf(),
            old(self).grid.in_bounds(position.x as int, position.z as int),
        ensures
            final(self).wf(),
            final(self).coin_positions@ == old(self).coin_positions@.insert(entity, position),
            final(self).same_board(old(self)),
            final(self).player_position == old(self).player_position,
            final(self).ending_position == old(self).ending_position,
            final(self).enemy_positions@ == old(self).enemy_positions@,
            final(self).bombs@ == old(self).bombs@,
            final(self).ending_visible == old(self).ending_visible,
    {
        self.coin_positions.insert(entity, position);
    }

    /// Forgets a coin once collected; unknown identifiers are a no-op.
    pub fn remove_coin(&mut self, entity: u64)
        requires
            old(self).wf(),
        ensures
            final(self).wf(),
            final(self).coin_positions@ == old(self).coin_positions@.remove(entity),
            final(self).same_board(old(self)),
            final(self).player_position == old(self).player_position,
            final(self).ending_position == old(self).ending_position,
            final(self).enemy_positions@ == old(self).enemy_positions@,
            final(self).bombs@ == old(self).bombs@,
            final(self).ending_visible == old(self).ending_visible,
    {
        self.coin_positions.remove(&entity);
    }

    /// Forgets every remaining coin at once (the exit reveal collects
    /// them all).
    pub fn clear_coins(&mut self)
        requires
            old(self).wf(),
        ensures
            final(self).wf(),
            final(self).coin_positions@ == Map::<u64, Position>::empty(),
            final(self).same_board(old(self)),
            final(self).player_position == old(self).player_position,
            final(self).ending_position == old(self).ending_position,
            final(self).enemy_positions@ == old(self).enemy_positions@,
            final(self).bombs@ == old(self).bombs@,
            final(self).ending_visible == old(self).ending_visible,
    {
        self.coin_positions.clear();
    }

    /// Arms a bomb with the configured blast range at a position. The
    /// board does not police duplicates; that rule belongs to the
    /// caller.
    pub fn place_bomb(&mut self, entity: u64, position: Position)
        requires
            old(self).wf(),
        ensures
            final(self).wf(),
            final(self).bombs@ == old(self).bombs@.insert(
                entity,
                (old(self).bomb_size, position),
            ),
            final(self).same_board(old(self)),
            final(self).player_position == old(self).player_position,
            final(self).ending_position == old(self).ending_position,
            final(self).enemy_positions@ == old(self).enemy_positions@,
            final(self).coin_positions@ == old(self).coin_positions@,
            final(self).ending_visible == old(self).ending_visible,
    {
        let range = self.bomb_size;
        self.bombs.insert(entity, (range, position));
    }

    /// Forgets a bomb once resolved; unknown identifiers are a no-op.
    pub fn remove_bomb(&mut self, entity: u64)
        requires
            old(self).wf(),
        ensures
            final(self).wf(),
            final(self).bombs@ == old(self).bombs@.remove(entity),
            final(self).same_board(old(self)),
            final(self).player_position == old(self).player_position,
            final(self).ending_position == old(self).ending_position,
            final(self).enemy_positions@ == old(self).enemy_positions@,
            final(self).coin_positions@ == old(self).coin_positions@,
            final(self).ending_visible == old(self).ending_visible,
    {
        self.bombs.remove(&entity);
    }

    /// Reveals the exit. There is no way back: no board operation ever
    /// resets the flag, so once revealed it stays revealed.
    pub fn reveal_ending(&mut self)
        requires
            old(self).wf(),
        ensures
            final(self).wf(),
            final(self).ending_visible == true,
            final(self).same_board(old(self)),
            final(self).player_position == old(self).player_position,
            final(self).ending_position == old(self).ending_position,
            final(self).enemy_positions@ == old(self).enemy_positions@,
            final(self).coin_positions@ == old(self).coin_positions@,
            final(self).bombs@ == old(self).bombs@,
    {
        self.ending_visible = true;
    }
}

} // verus!

