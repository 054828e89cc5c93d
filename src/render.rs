use vstd::prelude::*;

use crate::board::{Obj, Tile};

verus! {

/// The character that draws terrain `tile` with nothing on it.
pub open spec fn spec_tile_char(tile: Tile) -> char {
    match tile {
        Tile::Empty => ' ',
        Tile::Wall => '▒',
        Tile::Goal => '○',
    }
}

/// The character that draws a cell holding `obj` on terrain `tile`.
pub open spec fn spec_obj_char(obj: Obj, tile: Tile) -> char {
    match obj {
        Obj::Empty => spec_tile_char(tile),
        Obj::Player => '☻',
        Obj::Box => if tile == Tile::Goal {
            '◙'
        } else {
            '■'
        },
    }
}

/// The character that draws terrain `tile` with nothing on it.
pub fn tile_char(tile: Tile) -> (r: char)
    ensures
        r == spec_tile_char(tile),
{
    match tile {
        Tile::Empty => ' ',
        Tile::Wall => '▒',
        Tile::Goal => '○',
    }
}

/// The character that draws a cell holding `obj` on terrain `tile`: the
/// object where there is one (a box on a goal has a mark of its own), else
/// the terrain.
pub fn obj_char(obj: Obj, tile: Tile) -> (r: char)
    ensures
        r == spec_obj_char(obj, tile),
{
    match obj {
        Obj::Empty => tile_char(tile),
        Obj::Player => '☻',
        Obj::Box => {
            if tile == Tile::Goal {
                '◙'
            } else {
                '■'
            }
        },
    }
}

} // verus!
