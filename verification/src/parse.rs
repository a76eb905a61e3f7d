//! Building the cell grid from raw ASCII map text.

use vstd::prelude::*;

use crate::grid::Grid;
use crate::textmap::{map_lines, split_map_lines, lines_view};
use crate::types::{Block, BlockType, LevelError, Position, WorldCoord};

verus! {

/// Every character of every line is in the map legend.
pub open spec fn lines_legal(ls: Seq<Seq<char>>) -> bool {
    forall|z: int, x: int|
        0 <= z < ls.len() && 0 <= x < ls[z].len() ==> BlockType::spec_from_char(
            #[trigger] ls[z][x],
        ) is Some
}

/// Every line is as long as the first.
pub open spec fn lines_even(ls: Seq<Seq<char>>) -> bool {
    forall|z: int| 0 <= z < ls.len() ==> (#[trigger] ls[z]).len() == ls[0].len()
}

/// The width the grid will get: the common line length, zero when there
/// are no lines.
pub open spec fn lines_width(ls: Seq<Seq<char>>) -> int {
    if ls.len() == 0 {
        0
    } else {
        ls[0].len() as int
    }
}

impl Grid {
    /// Whether this grid is the one the map lines `ls` describe.
    pub open spec fn matches_lines(&self, ls: Seq<Seq<char>>) -> bool {
        &&& self.wf()
        &&& self.height() == ls.len()
        &&& self.width() == lines_width(ls)
        &&& forall|x: int, z: int|
            self.in_bounds(x, z) ==> Some(#[trigger] self.spec_kind_at(x, z))
                == BlockType::spec_from_char(ls[z][x])
    }

    /// Parses map text into a grid of typed cells.
    ///
    /// The text is split at line breaks and blank lines are discarded;
    /// each remaining line becomes one row. A character outside the
    /// legend refuses the whole map, as do lines of differing lengths,
    /// in that order of precedence.
    #[verifier::loop_isolation(false)]
    pub fn parse(data: &str) -> (r: Result<Grid, LevelError>)
        ensures
            ({
                let ls = map_lines(data@);
                match r {
                    Ok(g) => lines_legal(ls) && lines_even(ls) && g.matches_lines(ls),
                    Err(e) => {
                        &&& (e == LevelError::UnknownMapCharacter <==> !lines_legal(ls))
                        &&& (e == LevelError::UnevenRows <==> lines_legal(ls) && !lines_even(ls))
                        &&& (e == LevelError::UnknownMapCharacter || e == LevelError::UnevenRows)
                    },
                }
            }),
    {
        let ghost ls = map_lines(data@);
        let lines = split_map_lines(data);
        proof {
            assert(lines_view(lines@) == ls);
        }
        // First pass: refuse any character outside the legend.
        let mut z: usize = 0;
        while z < lines.len()
            invariant
                z <= lines.len(),
                lines_view(lines@) == ls,
                forall|zz: int, x: int|
                    0 <= zz < z && 0 <= x < ls[zz].len() ==> BlockType::spec_from_char(
                        #[trigger] ls[zz][x],
                    ) is Some,
            decreases lines.len() - z,
        {
            let row = &lines[z];
            let mut x: usize = 0;
            while x < row.len()
                invariant
                    x <= row.len(),
                    lines_view(lines@) == ls,
                    0 <= z < lines.len(),
                    row@ == ls[z as int],
                    forall|xx: int|
                        0 <= xx < x ==> BlockType::spec_from_char(#[trigger] ls[z as int][xx])
                            is Some,
                decreases row.len() - x,
            {
                if BlockType::from_char(row[x]).is_none() {
                    proof {
                        assert(row@[x as int] == ls[z as int][x as int]);
                        assert(BlockType::spec_from_char(ls[z as int][x as int]) is None);
                        assert(!lines_legal(ls));
                    }
                    return Err(LevelError::UnknownMapCharacter);
                }
                x = x + 1;
            }
            z = z + 1;
        }
        assert(lines_legal(ls));
        // Second pass: every line must be as long as the first.
        let width: usize = if lines.len() == 0 {
            0
        } else {
            lines[0].len()
        };
        let height: usize = lines.len();
        let mut z: usize = 0;
        while z < lines.len()
            invariant
                z <= lines.len(),
                lines_view(lines@) == ls,
                height == lines.len(),
                width as int == lines_width(ls),
                forall|zz: int| 0 <= zz < z ==> (#[trigger] ls[zz]).len() == lines_width(ls),
            decreases lines.len() - z,
        {
            if lines[z].len() != width {
                proof {
                    assert(ls[z as int] == lines@[z as int]@);
                    assert(ls[z as int].len() != lines_width(ls));
                    assert(!lines_even(ls));
                }
                return Err(LevelError::UnevenRows);
            }
            z = z + 1;
        }
        assert(lines_even(ls)) by {
            if ls.len() > 0 {
                assert(ls[0].len() == lines_width(ls));
            }
        }
        // Build the typed rows.
        let mut rows: Vec<Vec<Block>> = Vec::new();
        let size = Position::new(width, height);
        let mut z: usize = 0;
        while z < lines.len()
            invariant
                z <= lines.len(),
                lines_view(lines@) == ls,
                lines_legal(ls),
                lines_even(ls),
                height == lines.len(),
                width as int == lines_width(ls),
                size == (Position { x: width, z: height }),
                rows@.len() == z,
                forall|zz: int| 0 <= zz < z ==> (#[trigger] rows@[zz])@.len() == width,
                forall|zz: int, x: int|
                    0 <= zz < z && 0 <= x < width ==> {
                        let b = #[trigger] rows@[zz]@[x];
                        &&& b.level_position == (Position { x: x as usize, z: zz as usize })
                        &&& Some(b.kind) == BlockType::spec_from_char(ls[zz][x])
                        &&& b.position == (WorldCoord {
                            x: (2 * x + 1 - width) as i128,
                            z: (2 * zz + 1 - height) as i128,
                        })
                    },
            decreases lines.len() - z,
        {
            let row = &lines[z];
            let mut blocks: Vec<Block> = Vec::new();
            let mut x: usize = 0;
            while x < row.len()
                invariant
                    x <= row.len(),
                    lines_view(lines@) == ls,
                    lines_legal(ls),
                    0 <= z < lines.len(),
                    row@ == ls[z as int],
                    row@.len() == width,
                    height == lines.len(),
                    blocks@.len() == x,
                    forall|xx: int|
                        0 <= xx < x ==> {
                            let b = #[trigger] blocks@[xx];
                            &&& b.level_position == (Position { x: xx as usize, z: z as usize })
                            &&& Some(b.kind) == BlockType::spec_from_char(ls[z as int][xx])
                            &&& b.position == (WorldCoord {
                                x: (2 * xx + 1 - width) as i128,
                                z: (2 * z + 1 - height) as i128,
                            })
                        },
                decreases row.len() - x,
            {
                let kind = match BlockType::from_char(row[x]) {
                    Some(k) => k,
                    None => {
                        proof {
                            assert(BlockType::spec_from_char(ls[z as int][x as int]) is Some);
                        }
                        return Err(LevelError::UnknownMapCharacter);
                    },
                };
                let anchor = WorldCoord {
                    x: 2 * (x as i128) + 1 - (width as i128),
                    z: 2 * (z as i128) + 1 - (height as i128),
                };
                blocks.push(
                    Block { kind, position: anchor, level_position: Position::new(x, z) },
                );
                x = x + 1;
            }
            rows.push(blocks);
            z = z + 1;
        }
        let g = Grid { size, rows };
        proof {
            assert forall|x: int, zz: int| g.in_bounds(x, zz) implies Some(
                #[trigger] g.spec_kind_at(x, zz),
            ) == BlockType::spec_from_char(ls[zz][x]) by {
                assert(g.rows@[zz]@[x] == rows@[zz]@[x]);
            }
            assert(g.matches_lines(ls));
        }
        Ok(g)
    }
}

} // verus!
