//! Plain value types of the board model: block kinds, grid positions,
//! cardinal directions, render-space coordinates and parse errors.

use vstd::prelude::*;

verus! {

/// What a single grid cell holds, parsed one-to-one from the ASCII map
/// legend.
#[derive(Debug, Eq, PartialEq, Copy, Clone, Structural)]
pub enum BlockType {
    WallBig,
    WallSmallV,
    WallSmallH,
    Coin,
    Enemy,
    Player,
    Space,
    Exit,
}

impl BlockType {
    /// True for the three wall kinds; walls block movement and blasts.
    pub open spec fn spec_is_wall(&self) -> bool {
        match *self {
            BlockType::WallBig | BlockType::WallSmallH | BlockType::WallSmallV => true,
            _ => false,
        }
    }

    #[verifier::when_used_as_spec(spec_is_wall)]
    pub fn is_wall(&self) -> (r: bool)
        ensures
            r == self.spec_is_wall(),
    {
        matches!(
            self,
            BlockType::WallBig | BlockType::WallSmallH | BlockType::WallSmallV
        )
    }

    /// The map legend. `None` marks a character outside the legend,
    /// which makes the whole map invalid.
    pub open spec fn spec_from_char(c: char) -> Option<BlockType> {
        match c {
            '*' => Some(BlockType::Coin),
            '#' => Some(BlockType::WallBig),
            '-' => Some(BlockType::WallSmallH),
            '|' => Some(BlockType::WallSmallV),
            'o' => Some(BlockType::Player),
            'x' => Some(BlockType::Enemy),
            ' ' => Some(BlockType::Space),
            'e' => Some(BlockType::Exit),
            _ => None,
        }
    }

    #[verifier::when_used_as_spec(spec_from_char)]
    pub fn from_char(c: char) -> (r: Option<BlockType>)
        ensures
            r == BlockType::spec_from_char(c),
    {
        match c {
            '*' => Some(BlockType::Coin),
            '#' => Some(BlockType::WallBig),
            '-' => Some(BlockType::WallSmallH),
            '|' => Some(BlockType::WallSmallV),
            'o' => Some(BlockType::Player),
            'x' => Some(BlockType::Enemy),
            ' ' => Some(BlockType::Space),
            'e' => Some(BlockType::Exit),
            _ => None,
        }
    }
}

/// A grid cell coordinate: column `x`, row `z`. Never negative.
#[derive(Copy, Clone, Debug, Eq, PartialEq, Hash, Structural)]
pub struct Position {
    pub x: usize,
    pub z: usize,
}

/// One coordinate moved by a signed offset, ignoring a move that would
/// go below zero (the original board clamps only on the lower bound).
pub open spec fn step_coord(v: usize, d: int) -> usize
    recommends
        v + d <= usize::MAX,
{
    if v + d >= 0 {
        (v + d) as usize
    } else {
        v
    }
}

impl Position {
    pub fn new(x: usize, z: usize) -> (r: Self)
        ensures
            r.x == x,
            r.z == z,
    {
        Self { x, z }
    }

    /// Where `self` lands after one step along `direction`.
    pub open spec fn spec_apply_direction(self, direction: BoardDirection) -> Position {
        Position {
            x: step_coord(self.x, direction.x as int),
            z: step_coord(self.z, direction.z as int),
        }
    }

    /// Moves one step along `direction`, per axis: a step below zero is
    /// dropped for that axis, all other steps are taken.
    pub fn apply_direction(&mut self, direction: &BoardDirection)
        requires
            old(self).x + direction.x <= usize::MAX,
            old(self).z + direction.z <= usize::MAX,
        ensures
            *final(self) == old(self).spec_apply_direction(*direction),
    {
        let nx: i128 = self.x as i128 + direction.x as i128;
        if nx >= 0 {
            self.x = nx as usize;
        }
        let nz: i128 = self.z as i128 + direction.z as i128;
        if nz >= 0 {
            self.z = nz as usize;
        }
    }
}

impl Default for Position {
    fn default() -> (r: Self)
        ensures
            r.x == 0 && r.z == 0,
    {
        Position { x: 0, z: 0 }
    }
}

/// A unit step on the grid; `(0, 0)` stands for "not moving". Gameplay
/// only ever uses the four axis-aligned unit directions.
#[derive(Copy, Clone, Debug, Eq, PartialEq, Structural)]
pub struct BoardDirection {
    pub x: i8,
    pub z: i8,
}

impl BoardDirection {
    pub fn new(x: i8, z: i8) -> (r: Self)
        ensures
            r.x == x,
            r.z == z,
    {
        Self { x, z }
    }

    /// The direction stretched by a scalar, component-wise.
    pub fn scaled(self, rhs: i8) -> (r: BoardDirection)
        requires
            i8::MIN <= self.x * rhs <= i8::MAX,
            i8::MIN <= self.z * rhs <= i8::MAX,
        ensures
            r.x == self.x * rhs,
            r.z == self.z * rhs,
    {
        BoardDirection { x: self.x * rhs, z: self.z * rhs }
    }
}

impl Default for BoardDirection {
    fn default() -> (r: Self)
        ensures
            r.x == 0 && r.z == 0,
    {
        BoardDirection { x: 0, z: 0 }
    }
}

/// A render-space coordinate in half-cell units, so that every cell
/// anchor is an exact integer: the engine multiplies by half the cell
/// edge length when it builds its floating-point transform.
#[derive(Copy, Clone, Debug, Eq, PartialEq, Structural)]
pub struct WorldCoord {
    pub x: i128,
    pub z: i128,
}

/// One grid cell: its kind, its precomputed render-space anchor and its
/// own grid position. Immutable once the board is built.
#[derive(Debug, Copy, Clone)]
pub struct Block {
    pub kind: BlockType,
    pub position: WorldCoord,
    pub level_position: Position,
}

/// The fatal map-configuration errors; a broken map is a build-time
/// defect, so construction refuses it outright.
#[derive(Debug, Copy, Clone, Eq, PartialEq, Structural)]
pub enum LevelError {
    /// A character outside the map legend.
    UnknownMapCharacter,
    /// Two map rows with different lengths.
    UnevenRows,
    /// No player start cell in the map.
    MissingPlayerStart,
    /// No exit cell in the map.
    MissingExit,
}

} // verus!
