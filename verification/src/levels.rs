//! The levels that come with the game.

use vstd::prelude::*;

verus! {

/// A walled board with the snake in the middle and the food beside it.
pub const SNAKE_1: &'static str =
    "##########\n#        #\n#        #\n#   h    #\n#   b f  #\n##########";

/// An open board: the snake leaves it on one side and comes back on the
/// other.
pub const SNAKE_2: &'static str =
    "          \n          \n    h     \n    b     \n      f   \n          ";

} // verus!
