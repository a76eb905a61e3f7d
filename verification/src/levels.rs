//! The fixed level roster: the built-in ASCII maps, how many levels
//! there are, and how many bombs a run starts with on each level.

use vstd::prelude::*;

verus! {

/// How many built-in levels the game ships with.
pub const LEVEL_COUNT: usize = 5;

/// An index into the fixed level roster.
pub struct CurrentLevel(pub usize);

impl CurrentLevel {
    /// The level after this one, or `None` past the last level.
    pub fn next(&self) -> (r: Option<CurrentLevel>)
        ensures
            match r {
                Some(n) => self.0 + 1 < LEVEL_COUNT && n.0 == self.0 + 1,
                None => self.0 + 1 >= LEVEL_COUNT,
            },
    {
        if self.0 >= LEVEL_COUNT - 1 {
            return None;
        }
        Some(CurrentLevel(self.0 + 1))
    }
}

/// How many bombs the player holds at the start of each level.
pub fn level_bombs(level: usize) -> (r: usize)
    requires
        level < LEVEL_COUNT,
    ensures
        r == if level < 3 { 3usize } else { 5usize },
{
    if level < 3 {
        3
    } else {
        5
    }
}

/// The per-level score sheet: coins collected, moves taken, bombs left.
pub struct Score {
    pub coins: usize,
    pub moves: usize,
    pub bombs: usize,
}

impl Default for Score {
    /// A fresh score sheet, stocked with the first level's bombs.
    fn default() -> (r: Self)
        ensures
            r.coins == 0,
            r.moves == 0,
            r.bombs == 3,
    {
        Self { coins: 0, moves: 0, bombs: level_bombs(0) }
    }
}

/// The screens the surrounding game loop moves through.
#[derive(Copy, Clone, PartialEq, Eq, Debug, Hash, Structural)]
pub enum GameState {
    Menu,
    Loading,
    Game,
    Running,
    Lost,
    Won,
}

/// The built-in map for the given level index, or `None` past the
/// roster's end.
pub fn level_map(level: usize) -> (r: Option<&'static str>)
    ensures
        r is Some <==> level < LEVEL_COUNT,
{
    match level {
        0 => Some(
            "\n#################\n|  *  *  *   #x |\n#  #  #---   #  #\n#  *  |  *   |  #\n#  #  |  #   |  #\n#  *  *  *   |  #\n#          e    #\n|  o            |\n#################\n",
        ),
        1 => Some(
            "\n#####################\n|  *  *  *   #  * * |\n###-##-  ##### #### #\n| * *     *|*   * * |\n#---##-  ##### #### #\n|  *  *  * e # * *  |\n|          o        |\n#  -##-  ##### ---###\n| * *|  *  *  *  * x|\n#####################\n",
        ),
        2 => Some(
            "\n#---------------------#\n| x*  *  * | *  *  *x |\n#--- ----- # ------ --#\n#  *  *  *   *  *  *  #\n#   ##   # o #   ##   #\n|  *| *  #   #  * |*  |\n|  *| *  *   *  * |*  |\n|  *| *  * e *  * |*  |\n#---##-----------##---#\n",
        ),
        3 => Some(
            "\n#---------------------#\n|x *  *  *   *  *  * x|\n#---- --- -#- ---- ---#\n|  *  *  *   *  *  *  |\n#--- ----- # -----# # #\n|  *  *  # e #  * |***|\n##  ------ # -----| # #\n| x*| *  * o *  * |***|\n#---##-----------##---#\n",
        ),
        4 => Some(
            "\n#-----------------------#\n|x* * * * * o * * * * *x|\n| ##---- #-----# ----## |\n| #* *   #  x  #   * *# |\n| #----  # # # #  ----# |\n| * * * * *   * * * * * |\n| --#--- ## e ## ---#-- |\n|  *|*             *|*  |\n#-----------------------#\n",
        ),
        _ => None,
    }
}

} // verus!
