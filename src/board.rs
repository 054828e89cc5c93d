use vstd::prelude::*;

verus! {

/// Width of the grid, in cells.
pub const BOARD_WIDTH: usize = 8;

/// Height of the grid, in cells.
pub const BOARD_HEIGHT: usize = 8;

/// Number of cells of the grid.
pub const BOARD_SIZE: usize = 64;

/// A coordinate on one axis of the grid.
pub type Coord = usize;

/// A cell of the grid, as `(x, y)`.
pub type Vec2D = (Coord, Coord);

/// A single-step move, as `(dx, dy)`.
pub type Off2D = (isize, isize);

/// Static terrain of a cell.
#[derive(PartialEq, Eq, Structural, Clone, Copy, Debug)]
pub enum Tile {
    Empty,
    Wall,
    Goal,
}

/// Movable content of a cell.
#[derive(PartialEq, Eq, Structural, Clone, Copy, Debug)]
pub enum Obj {
    Empty,
    Player,
    Box,
}

/// Whether `c` addresses a cell of the grid.
pub open spec fn in_bounds(c: Vec2D) -> bool {
    c.0 < BOARD_WIDTH && c.1 < BOARD_HEIGHT
}

/// The row-major position of cell `c` in a layer.
pub open spec fn cell_index(c: Vec2D) -> int {
    c.0 + c.1 * BOARD_WIDTH
}

/// Whether `c` lies on the outer ring of the grid.
pub open spec fn on_border(c: Vec2D) -> bool {
    c.0 == 0 || c.1 == 0 || c.0 == BOARD_WIDTH - 1 || c.1 == BOARD_HEIGHT - 1
}

/// Whether `off` is one of the four single steps: up, down, left, right.
pub open spec fn is_direction(off: Off2D) -> bool {
    ||| off == (0isize, -1isize)
    ||| off == (0isize, 1isize)
    ||| off == (-1isize, 0isize)
    ||| off == (1isize, 0isize)
}

/// Whether `p` moved by `off` stays on the grid.
pub open spec fn can_shift(p: Vec2D, off: Off2D) -> bool {
    &&& 0 <= p.0 + off.0 < BOARD_WIDTH
    &&& 0 <= p.1 + off.1 < BOARD_HEIGHT
}

/// The cell `p` moved by `off`.
pub open spec fn shifted(p: Vec2D, off: Off2D) -> Vec2D {
    ((p.0 + off.0) as usize, (p.1 + off.1) as usize)
}

/// A cell that is not on the outer ring can be left by any single step.
pub proof fn lemma_inner_cell_can_shift(p: Vec2D, off: Off2D)
    requires
        in_bounds(p),
        !on_border(p),
        is_direction(off),
    ensures
        can_shift(p, off),
        in_bounds(shifted(p, off)),
        shifted(p, off) != p,
        cell_index(shifted(p, off)) == cell_index(p) + off.0 + off.1 * BOARD_WIDTH,
{
}

/// The cell `p` moved by `off`.
pub fn offset(p: Vec2D, off: Off2D) -> (r: Vec2D)
    requires
        in_bounds(p),
        can_shift(p, off),
    ensures
        r == shifted(p, off),
        in_bounds(r),
{
    ((p.0 as isize + off.0) as usize, (p.1 as isize + off.1) as usize)
}

/// Distinct cells of the grid sit at distinct positions of a layer.
pub proof fn lemma_cell_index_injective(a: Vec2D, b: Vec2D)
    requires
        in_bounds(a),
        in_bounds(b),
    ensures
        0 <= cell_index(a) < BOARD_SIZE,
        cell_index(a) == cell_index(b) <==> a == b,
{
}

/// One layer of the grid: a value per cell, stored row by row.
pub struct Layer<T>(pub [T; BOARD_SIZE]);

impl<T> View for Layer<T> {
    type V = Seq<T>;

    open spec fn view(&self) -> Seq<T> {
        self.0@
    }
}

impl<T> Layer<T> {
    /// The position of cell `coord` in the layer.
    pub fn index(coord: Vec2D) -> (r: usize)
        requires
            in_bounds(coord),
        ensures
            r == cell_index(coord),
            r < BOARD_SIZE,
    {
        coord.0 + coord.1 * BOARD_WIDTH
    }
}

impl<T: Copy> Layer<T> {
    /// The value held at cell `coord`.
    pub fn get(&self, coord: Vec2D) -> (r: T)
        requires
            in_bounds(coord),
        ensures
            r == self@[cell_index(coord)],
    {
        self.0[Self::index(coord)]
    }

    /// Exchanges the values held at cells `v1` and `v2`.
    pub fn swap(&mut self, v1: Vec2D, v2: Vec2D)
        requires
            in_bounds(v1),
            in_bounds(v2),
        ensures
            final(self)@ == old(self)@.update(cell_index(v1), old(self)@[cell_index(v2)]).update(
                cell_index(v2),
                old(self)@[cell_index(v1)],
            ),
    {
        let i1 = Self::index(v1);
        let i2 = Self::index(v2);
        let a = self.0[i1];
        let b = self.0[i2];
        self.0[i1] = b;
        self.0[i2] = a;
    }
}

/// The contents of a board: its terrain and its objects, row by row.
pub struct BoardView {
    pub tiles: Seq<Tile>,
    pub objects: Seq<Obj>,
}

/// Whether the cell at layer position `i` is a goal that no box covers.
pub open spec fn is_uncovered_goal(tiles: Seq<Tile>, objects: Seq<Obj>, i: int) -> bool {
    tiles[i] == Tile::Goal && objects[i] != Obj::Box
}

/// The number of uncovered goals among the first `n` cells.
pub open spec fn uncovered_in(tiles: Seq<Tile>, objects: Seq<Obj>, n: int) -> nat
    decreases n,
{
    if n <= 0 {
        0
    } else {
        uncovered_in(tiles, objects, n - 1) + if is_uncovered_goal(tiles, objects, n - 1) {
            1nat
        } else {
            0nat
        }
    }
}

impl BoardView {
    /// The terrain of cell `c`.
    pub open spec fn tile(self, c: Vec2D) -> Tile {
        self.tiles[cell_index(c)]
    }

    /// The object at cell `c`.
    pub open spec fn object(self, c: Vec2D) -> Obj {
        self.objects[cell_index(c)]
    }

    /// The board with the objects at cells `a` and `b` exchanged.
    pub open spec fn swapped(self, a: Vec2D, b: Vec2D) -> BoardView {
        BoardView {
            tiles: self.tiles,
            objects: self.objects.update(cell_index(a), self.object(b)).update(
                cell_index(b),
                self.object(a),
            ),
        }
    }

    /// Both layers cover the whole grid.
    pub open spec fn full(self) -> bool {
        self.tiles.len() == BOARD_SIZE && self.objects.len() == BOARD_SIZE
    }

    /// The number of goal cells that hold no box.
    pub open spec fn uncovered_goals(self) -> nat {
        uncovered_in(self.tiles, self.objects, BOARD_SIZE as int)
    }

    /// The layer positions of the cells that hold the player.
    pub open spec fn player_cells(self) -> Set<int> {
        Set::new(|i: int| 0 <= i < BOARD_SIZE && self.objects[i] == Obj::Player)
    }

    /// Every cell of the outer ring is a wall.
    pub open spec fn walled(self) -> bool {
        forall|c: Vec2D| in_bounds(c) && on_border(c) ==> self.tile(c) == Tile::Wall
    }

    /// No wall cell holds an object.
    pub open spec fn walls_hold_nothing(self) -> bool {
        forall|i: int|
            0 <= i < BOARD_SIZE && self.tiles[i] == Tile::Wall ==> self.objects[i] == Obj::Empty
    }

    /// The player stands at `p` and nowhere else.
    pub open spec fn player_only_at(self, p: Vec2D) -> bool {
        &&& in_bounds(p)
        &&& self.object(p) == Obj::Player
        &&& forall|i: int|
            0 <= i < BOARD_SIZE && self.objects[i] == Obj::Player ==> i == cell_index(p)
    }

    /// Some cell holds the player.
    pub open spec fn has_player(self) -> bool {
        exists|i: int| 0 <= i < BOARD_SIZE && self.objects[i] == Obj::Player
    }

    /// Exactly one cell holds the player.
    pub open spec fn has_single_player(self) -> bool {
        exists|i: int|
            #![trigger self.objects[i]]
            0 <= i < BOARD_SIZE && self.objects[i] == Obj::Player && forall|j: int|
                0 <= j < BOARD_SIZE && self.objects[j] == Obj::Player ==> j == i
    }

    /// A layout that play can start from: walled in, walls empty, one player.
    pub open spec fn playable(self) -> bool {
        &&& self.full()
        &&& self.walled()
        &&& self.walls_hold_nothing()
        &&& self.has_single_player()
    }
}

/// The grid: a terrain layer and an object layer of the same shape.
pub struct Board {
    pub tiles: Layer<Tile>,
    pub objects: Layer<Obj>,
}

impl View for Board {
    type V = BoardView;

    open spec fn view(&self) -> BoardView {
        BoardView { tiles: self.tiles@, objects: self.objects@ }
    }
}

impl Board {
    /// The terrain of cell `coord`.
    pub fn tile_at(&self, coord: Vec2D) -> (r: Tile)
        requires
            in_bounds(coord),
        ensures
            r == self@.tile(coord),
    {
        self.tiles.get(coord)
    }

    /// The object at cell `coord`.
    pub fn object_at(&self, coord: Vec2D) -> (r: Obj)
        requires
            in_bounds(coord),
        ensures
            r == self@.object(coord),
    {
        self.objects.get(coord)
    }

    /// Exchanges the objects at cells `a` and `b`; the terrain stays.
    pub fn swap_objects(&mut self, a: Vec2D, b: Vec2D)
        requires
            in_bounds(a),
            in_bounds(b),
        ensures
            final(self)@ == old(self)@.swapped(a, b),
    {
        self.objects.swap(a, b);
    }

    /// The first cell, in row-major order, that holds the player.
    pub fn find_player(&self) -> (r: Vec2D)
        requires
            self@.has_player(),
        ensures
            in_bounds(r),
            self@.object(r) == Obj::Player,
            forall|i: int| 0 <= i < cell_index(r) ==> self@.objects[i] != Obj::Player,
    {
        let mut y: usize = 0;
        while y < BOARD_HEIGHT
            invariant
                y <= BOARD_HEIGHT,
                forall|i: int| 0 <= i < y * BOARD_WIDTH ==> self@.objects[i] != Obj::Player,
            decreases BOARD_HEIGHT - y,
        {
            let mut x: usize = 0;
            while x < BOARD_WIDTH
                invariant
                    y < BOARD_HEIGHT,
                    x <= BOARD_WIDTH,
                    forall|i: int|
                        0 <= i < x + y * BOARD_WIDTH ==> self@.objects[i] != Obj::Player,
                decreases BOARD_WIDTH - x,
            {
                if self.object_at((x, y)) == Obj::Player {
                    return (x, y);
                }
                x = x + 1;
            }
            y = y + 1;
        }
        proof {
            assert(false);
        }
        (0, 0)
    }

    /// The number of goal cells that hold no box.
    pub fn count_goals(&self) -> (r: usize)
        ensures
            r == self@.uncovered_goals(),
            r <= BOARD_SIZE,
    {
        let mut count: usize = 0;
        let mut i: usize = 0;
        while i < BOARD_SIZE
            invariant
                i <= BOARD_SIZE,
                count <= i,
                count == uncovered_in(self@.tiles, self@.objects, i as int),
            decreases BOARD_SIZE - i,
        {
            if self.tiles.0[i] == Tile::Goal && self.objects.0[i] != Obj::Box {
                count = count + 1;
            }
            i = i + 1;
        }
        count
    }

    /// Whether play can start from this layout: the outer ring is wall, no
    /// wall cell holds an object, and exactly one cell holds the player.
    pub fn is_playable(&self) -> (r: bool)
        ensures
            r == self@.playable(),
    {
        let last_x: usize = BOARD_WIDTH - 1;
        let last_y: usize = BOARD_HEIGHT - 1;
        let mut k: usize = 0;
        while k < BOARD_WIDTH
            invariant
                k <= BOARD_WIDTH,
                last_x == BOARD_WIDTH - 1,
                last_y == BOARD_HEIGHT - 1,
                forall|j: usize|
                    j < k ==> {
                        &&& self@.tile((j, 0)) == Tile::Wall
                        &&& self@.tile((j, last_y)) == Tile::Wall
                        &&& self@.tile((0, j)) == Tile::Wall
                        &&& self@.tile((last_x, j)) == Tile::Wall
                    },
            decreases BOARD_WIDTH - k,
        {
            if self.tile_at((k, 0)) != Tile::Wall || self.tile_at((k, last_y)) != Tile::Wall
                || self.tile_at((0, k)) != Tile::Wall || self.tile_at((last_x, k)) != Tile::Wall {
                assert(!self@.walled()) by {
                    assert(on_border((k, 0)) && on_border((k, last_y)));
                    assert(on_border((0, k)) && on_border((last_x, k)));
                }
                return false;
            }
            k = k + 1;
        }
        assert(self@.walled()) by {
            assert forall|c: Vec2D| in_bounds(c) && on_border(c) implies self@.tile(c)
                == Tile::Wall by {
                if c.1 == 0 {
                    assert(c.0 < k);
                } else if c.1 == last_y {
                    assert(c.0 < k);
                } else {
                    assert(c.1 < k);
                }
            }
        }
        let mut found: Option<usize> = None;
        let mut i: usize = 0;
        while i < BOARD_SIZE
            invariant
                i <= BOARD_SIZE,
                self@.walled(),
                forall|j: int|
                    0 <= j < i && self@.tiles[j] == Tile::Wall ==> self@.objects[j] == Obj::Empty,
                found is None ==> forall|j: int| 0 <= j < i ==> self@.objects[j] != Obj::Player,
                found matches Some(f) ==> {
                    &&& f < i
                    &&& self@.objects[f as int] == Obj::Player
                    &&& forall|j: int|
                        0 <= j < i && self@.objects[j] == Obj::Player ==> j == f
                },
            decreases BOARD_SIZE - i,
        {
            let object = self.objects.0[i];
            if self.tiles.0[i] == Tile::Wall && object != Obj::Empty {
                return false;
            }
            if object == Obj::Player {
                match found {
                    Some(f) => {
                        assert(!self@.has_single_player()) by {
                            if self@.has_single_player() {
                                let w = choose|w: int|
                                    #![trigger self@.objects[w]]
                                    0 <= w < BOARD_SIZE && self@.objects[w] == Obj::Player
                                        && forall|j: int|
                                        0 <= j < BOARD_SIZE && self@.objects[j] == Obj::Player
                                            ==> j == w;
                                assert(f as int == w);
                                assert(i as int == w);
                            }
                        }
                        return false;
                    },
                    None => {
                        found = Some(i);
                    },
                }
            }
            i = i + 1;
        }
        match found {
            Some(f) => {
                assert(self@.objects[f as int] == Obj::Player);
                true
            },
            None => false,
        }
    }
}

} // verus!
