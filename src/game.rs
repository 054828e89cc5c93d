use vstd::prelude::*;

use crate::board::{
    cell_index, in_bounds, is_direction, is_uncovered_goal, lemma_cell_index_injective,
    lemma_inner_cell_can_shift, offset, on_border, shifted, uncovered_in, Board, BoardView, Obj,
    Off2D, Tile, Vec2D, BOARD_SIZE,
};

verus! {

/// How many goals a box standing on `t` covers.
pub open spec fn goal_weight(t: Tile) -> int {
    if t == Tile::Goal {
        1
    } else {
        0
    }
}

/// The state of a game: the board, where the player stands and how many
/// goals are still uncovered.
pub struct GameView {
    pub board: BoardView,
    pub player: Vec2D,
    pub goals: nat,
}

impl GameView {
    /// The cached fields agree with the board, and the board is walled in
    /// with nothing on its walls.
    pub open spec fn wf(self) -> bool {
        &&& self.board.full()
        &&& self.board.walled()
        &&& self.board.walls_hold_nothing()
        &&& self.board.player_only_at(self.player)
        &&& self.goals == self.board.uncovered_goals()
    }

    /// Whether the box at `source` can move one step by `off`: the cell it
    /// would enter is no wall and holds nothing.
    pub open spec fn can_push(self, source: Vec2D, off: Off2D) -> bool {
        let t = shifted(source, off);
        self.board.tile(t) != Tile::Wall && self.board.object(t) == Obj::Empty
    }

    /// The state after the box at `source` moved one step by `off`.
    pub open spec fn push(self, source: Vec2D, off: Off2D) -> GameView {
        let t = shifted(source, off);
        GameView {
            board: self.board.swapped(t, source),
            player: self.player,
            goals: (self.goals + goal_weight(self.board.tile(source)) - goal_weight(
                self.board.tile(t),
            )) as nat,
        }
    }

    /// The state after the player walked onto the free cell `t`.
    pub open spec fn walk(self, t: Vec2D) -> GameView {
        GameView { board: self.board.swapped(t, self.player), player: t, goals: self.goals }
    }

    /// The state after the player tried to move one step by `off`.
    pub open spec fn step(self, off: Off2D) -> GameView {
        let t = shifted(self.player, off);
        if self.board.tile(t) == Tile::Wall {
            self
        } else if self.board.object(t) == Obj::Box {
            if self.can_push(t, off) {
                self.push(t, off).walk(t)
            } else {
                self
            }
        } else {
            self.walk(t)
        }
    }
}

/// The state after the player tried each move of `moves` in turn.
pub open spec fn run(s: GameView, moves: Seq<Off2D>) -> GameView
    decreases moves.len(),
{
    if moves.len() == 0 {
        s
    } else {
        run(s.step(moves[0]), moves.drop_first())
    }
}

/// Changing one object changes the count of uncovered goals by what that
/// cell contributes before and after.
proof fn lemma_uncovered_update(tiles: Seq<Tile>, objects: Seq<Obj>, n: int, k: int, v: Obj)
    requires
        0 <= k < n <= objects.len(),
        n <= tiles.len(),
    ensures
        uncovered_in(tiles, objects.update(k, v), n) + (if is_uncovered_goal(
            tiles,
            objects,
            k,
        ) {
            1int
        } else {
            0int
        }) == uncovered_in(tiles, objects, n) + (if is_uncovered_goal(
            tiles,
            objects.update(k, v),
            k,
        ) {
            1int
        } else {
            0int
        }),
    decreases n,
{
    if k < n - 1 {
        lemma_uncovered_update(tiles, objects, n - 1, k, v);
    } else {
        lemma_uncovered_same_prefix(tiles, objects, objects.update(k, v), k);
    }
}

/// The count over a prefix depends on that prefix alone.
proof fn lemma_uncovered_same_prefix(tiles: Seq<Tile>, a: Seq<Obj>, b: Seq<Obj>, n: int)
    requires
        0 <= n <= a.len(),
        n <= b.len(),
        forall|i: int| 0 <= i < n ==> a[i] == b[i],
    ensures
        uncovered_in(tiles, a, n) == uncovered_in(tiles, b, n),
    decreases n,
{
    if n > 0 {
        lemma_uncovered_same_prefix(tiles, a, b, n - 1);
    }
}

/// The count over `n` cells is at most `n`.
proof fn lemma_uncovered_bounded(tiles: Seq<Tile>, objects: Seq<Obj>, n: int)
    requires
        0 <= n,
    ensures
        uncovered_in(tiles, objects, n) <= n,
    decreases n,
{
    if n > 0 {
        lemma_uncovered_bounded(tiles, objects, n - 1);
    }
}

/// A cell that holds an object is no wall, so it lies inside the ring.
proof fn lemma_occupied_is_inner(s: GameView, c: Vec2D)
    requires
        s.wf(),
        in_bounds(c),
        s.board.object(c) != Obj::Empty,
    ensures
        s.board.tile(c) != Tile::Wall,
        !on_border(c),
{
    lemma_cell_index_injective(c, c);
    if s.board.tile(c) == Tile::Wall {
        assert(s.board.tiles[cell_index(c)] == Tile::Wall);
    }
}

/// Moving a box onto a free cell keeps the state consistent.
proof fn lemma_push_wf(s: GameView, source: Vec2D, off: Off2D)
    requires
        s.wf(),
        in_bounds(source),
        s.board.object(source) == Obj::Box,
        is_direction(off),
        s.can_push(source, off),
    ensures
        in_bounds(shifted(source, off)),
        shifted(source, off) != source,
        s.push(source, off).wf(),
        s.push(source, off).board.object(shifted(source, off)) == Obj::Box,
        s.push(source, off).board.object(source) == Obj::Empty,
{
    let t = shifted(source, off);
    lemma_occupied_is_inner(s, source);
    lemma_inner_cell_can_shift(source, off);
    lemma_cell_index_injective(t, source);
    lemma_cell_index_injective(t, s.player);
    lemma_cell_index_injective(source, s.player);
    let o = s.board.objects;
    let o1 = o.update(cell_index(t), Obj::Box);
    let o2 = o1.update(cell_index(source), Obj::Empty);
    let n = s.push(source, off);
    assert(n.board.objects == o2);
    lemma_uncovered_update(s.board.tiles, o, BOARD_SIZE as int, cell_index(t), Obj::Box);
    lemma_uncovered_update(s.board.tiles, o1, BOARD_SIZE as int, cell_index(source), Obj::Empty);
    assert forall|i: int|
        0 <= i < BOARD_SIZE && n.board.objects[i] == Obj::Player implies i == cell_index(
        n.player,
    ) by {
        assert(o[i] == Obj::Player);
    }
    assert forall|i: int|
        0 <= i < BOARD_SIZE && n.board.tiles[i] == Tile::Wall implies n.board.objects[i]
        == Obj::Empty by {
        if i != cell_index(t) && i != cell_index(source) {
            assert(o[i] == Obj::Empty);
        }
    }
}

/// The player stepping onto a free, non-wall cell keeps the state consistent.
proof fn lemma_walk_wf(s: GameView, t: Vec2D)
    requires
        s.wf(),
        in_bounds(t),
        s.board.tile(t) != Tile::Wall,
        s.board.object(t) == Obj::Empty,
    ensures
        s.walk(t).wf(),
{
    let p = s.player;
    lemma_cell_index_injective(t, p);
    let o = s.board.objects;
    let o1 = o.update(cell_index(t), Obj::Player);
    let o2 = o1.update(cell_index(p), Obj::Empty);
    let n = s.walk(t);
    assert(n.board.objects == o2);
    lemma_uncovered_update(s.board.tiles, o, BOARD_SIZE as int, cell_index(t), Obj::Player);
    lemma_uncovered_update(s.board.tiles, o1, BOARD_SIZE as int, cell_index(p), Obj::Empty);
    assert forall|i: int|
        0 <= i < BOARD_SIZE && n.board.objects[i] == Obj::Player implies i == cell_index(t) by {
        if i != cell_index(t) {
            assert(o[i] == Obj::Player);
        }
    }
    assert forall|i: int|
        0 <= i < BOARD_SIZE && n.board.tiles[i] == Tile::Wall implies n.board.objects[i]
        == Obj::Empty by {
        if i != cell_index(t) && i != cell_index(p) {
            assert(o[i] == Obj::Empty);
        }
    }
}

/// Every move keeps the state consistent.
pub proof fn lemma_step_wf(s: GameView, off: Off2D)
    requires
        s.wf(),
        is_direction(off),
    ensures
        in_bounds(shifted(s.player, off)),
        s.step(off).wf(),
{
    let p = s.player;
    let t = shifted(p, off);
    lemma_occupied_is_inner(s, p);
    lemma_inner_cell_can_shift(p, off);
    lemma_cell_index_injective(t, p);
    if s.board.tile(t) == Tile::Wall {
    } else if s.board.object(t) == Obj::Box {
        if s.can_push(t, off) {
            lemma_push_wf(s, t, off);
            lemma_walk_wf(s.push(t, off), t);
        }
    } else {
        lemma_walk_wf(s, t);
    }
}

/// A game in progress: the board, with the player's cell and the number of
/// uncovered goals kept up to date move by move.
pub struct Game {
    board: Board,
    player_position: Vec2D,
    goals_remaining: usize,
}

impl View for Game {
    type V = GameView;

    closed spec fn view(&self) -> GameView {
        GameView {
            board: self.board@,
            player: self.player_position,
            goals: self.goals_remaining as nat,
        }
    }
}

impl Game {
    /// The game's state is consistent (see `GameView::wf`).
    pub open spec fn wf(&self) -> bool {
        self@.wf()
    }

    /// Starts a game on `board`, finding the player and counting the
    /// uncovered goals.
    pub fn new(board: Board) -> (r: Game)
        requires
            board@.playable(),
        ensures
            r.wf(),
            r@.board == board@,
    {
        let player_position = board.find_player();
        let goals_remaining = board.count_goals();
        let r = Game { board, player_position, goals_remaining };
        proof {
            let b = board@;
            let w = choose|w: int|
                #![trigger b.objects[w]]
                0 <= w < BOARD_SIZE && b.objects[w] == Obj::Player && forall|j: int|
                    0 <= j < BOARD_SIZE && b.objects[j] == Obj::Player ==> j == w;
            lemma_cell_index_injective(player_position, player_position);
            assert(cell_index(player_position) == w);
        }
        r
    }

    /// The board as it stands.
    pub fn board(&self) -> (r: &Board)
        ensures
            r@ == self@.board,
    {
        &self.board
    }

    /// The cell that holds the player.
    pub fn player_position(&self) -> (r: Vec2D)
        ensures
            r == self@.player,
    {
        self.player_position
    }

    /// The number of goal cells that hold no box.
    pub fn goals_remaining(&self) -> (r: usize)
        ensures
            r == self@.goals,
    {
        self.goals_remaining
    }

    /// Tries to move the box at `source` one step by `off`. The box moves
    /// only onto a cell that is no wall and holds nothing; the count of
    /// uncovered goals follows the box off and onto goal cells.
    pub fn move_box(&mut self, source: Vec2D, off: Off2D) -> (r: bool)
        requires
            old(self).wf(),
            in_bounds(source),
            old(self)@.board.object(source) == Obj::Box,
            is_direction(off),
        ensures
            r == old(self)@.can_push(source, off),
            final(self)@ == if r {
                old(self)@.push(source, off)
            } else {
                old(self)@
            },
            final(self).wf(),
    {
        proof {
            lemma_occupied_is_inner(self@, source);
            lemma_inner_cell_can_shift(source, off);
        }
        let target = offset(source, off);
        if self.board.tile_at(target) == Tile::Wall || self.board.object_at(target) != Obj::Empty {
            return false;
        }
        proof {
            lemma_push_wf(self@, source, off);
            lemma_uncovered_bounded(self@.board.tiles, self@.board.objects, BOARD_SIZE as int);
            lemma_cell_index_injective(target, target);
            lemma_uncovered_update(
                self@.board.tiles,
                self@.board.objects,
                BOARD_SIZE as int,
                cell_index(target),
                Obj::Box,
            );
        }
        if self.board.tile_at(source) == Tile::Goal {
            self.goals_remaining = self.goals_remaining + 1;
        }
        if self.board.tile_at(target) == Tile::Goal {
            self.goals_remaining = self.goals_remaining - 1;
        }
        self.board.swap_objects(target, source);
        true
    }

    /// Moves the player one step by `off`, pushing a box that stands in the
    /// way. Nothing changes when the player would walk into a wall or push a
    /// box that cannot move.
    pub fn move_player(&mut self, off: Off2D)
        requires
            old(self).wf(),
            is_direction(off),
        ensures
            final(self)@ == old(self)@.step(off),
            final(self).wf(),
    {
        proof {
            lemma_step_wf(self@, off);
            lemma_occupied_is_inner(self@, self@.player);
            lemma_inner_cell_can_shift(self@.player, off);
        }
        let target = offset(self.player_position, off);
        let blocked_box = self.board.object_at(target) == Obj::Box && !self.move_box(target, off);
        if self.board.tile_at(target) == Tile::Wall || blocked_box {
            return;
        }
        proof {
            lemma_cell_index_injective(target, self.player_position);
        }
        self.board.swap_objects(target, self.player_position);
        self.player_position = target;
    }
}

/// Any sequence of moves keeps the state consistent.
pub proof fn lemma_run_wf(s: GameView, moves: Seq<Off2D>)
    requires
        s.wf(),
        forall|i: int| 0 <= i < moves.len() ==> is_direction(#[trigger] moves[i]),
    ensures
        run(s, moves).wf(),
    decreases moves.len(),
{
    if moves.len() > 0 {
        lemma_step_wf(s, moves[0]);
        let rest = moves.drop_first();
        assert forall|i: int| 0 <= i < rest.len() implies is_direction(#[trigger] rest[i]) by {
            assert(rest[i] == moves[i + 1]);
        }
        lemma_run_wf(s.step(moves[0]), rest);
    }
}

/// After any sequence of moves, exactly one cell holds the player.
pub proof fn lemma_moves_keep_one_player(s: GameView, moves: Seq<Off2D>)
    requires
        s.wf(),
        forall|i: int| 0 <= i < moves.len() ==> is_direction(#[trigger] moves[i]),
    ensures
        run(s, moves).board.player_cells().len() == 1,
{
    lemma_run_wf(s, moves);
    let n = run(s, moves);
    lemma_cell_index_injective(n.player, n.player);
    assert(n.board.player_cells() =~= set![cell_index(n.player)]);
}

/// After any sequence of moves, the cached goal count equals the number of
/// goal cells that hold no box, counted afresh.
pub proof fn lemma_moves_keep_goal_count(s: GameView, moves: Seq<Off2D>)
    requires
        s.wf(),
        forall|i: int| 0 <= i < moves.len() ==> is_direction(#[trigger] moves[i]),
    ensures
        run(s, moves).goals == run(s, moves).board.uncovered_goals(),
{
    lemma_run_wf(s, moves);
}

/// Walking into a wall with no box in it changes nothing.
pub proof fn lemma_wall_stops_player(s: GameView, off: Off2D)
    requires
        s.wf(),
        is_direction(off),
        s.board.tile(shifted(s.player, off)) == Tile::Wall,
        s.board.object(shifted(s.player, off)) != Obj::Box,
    ensures
        s.step(off) == s,
{
}

/// Pushing a box into a wall or into another box moves neither the box nor
/// the player, and changes nothing else.
pub proof fn lemma_blocked_push(s: GameView, off: Off2D)
    requires
        s.wf(),
        is_direction(off),
        s.board.object(shifted(s.player, off)) == Obj::Box,
        s.board.tile(shifted(shifted(s.player, off), off)) == Tile::Wall || s.board.object(
            shifted(shifted(s.player, off), off),
        ) == Obj::Box,
    ensures
        s.step(off) == s,
        s.step(off).player == s.player,
        s.step(off).board.object(shifted(s.player, off)) == Obj::Box,
{
}

/// A box that moves off a goal uncovers it, one that moves onto a goal
/// covers it, and one that moves from goal to goal changes nothing.
pub proof fn lemma_push_goal_count(s: GameView, off: Off2D)
    requires
        s.wf(),
        is_direction(off),
        s.board.object(shifted(s.player, off)) == Obj::Box,
        s.board.tile(shifted(shifted(s.player, off), off)) != Tile::Wall,
        s.board.object(shifted(shifted(s.player, off), off)) == Obj::Empty,
    ensures
        ({
            let from = s.board.tile(shifted(s.player, off));
            let to = s.board.tile(shifted(shifted(s.player, off), off));
            let n = s.step(off);
            &&& n.player == shifted(s.player, off)
            &&& n.board.object(shifted(shifted(s.player, off), off)) == Obj::Box
            &&& from == Tile::Goal && to != Tile::Goal ==> n.goals == s.goals + 1
            &&& from != Tile::Goal && to == Tile::Goal ==> n.goals == s.goals - 1
            &&& from == Tile::Goal && to == Tile::Goal ==> n.goals == s.goals
            &&& from != Tile::Goal && to != Tile::Goal ==> n.goals == s.goals
        }),
{
    let p = s.player;
    let t = shifted(p, off);
    let d = shifted(t, off);
    lemma_occupied_is_inner(s, t);
    lemma_push_wf(s, t, off);
    lemma_occupied_is_inner(s, p);
    lemma_inner_cell_can_shift(p, off);
    lemma_cell_index_injective(t, p);
    lemma_cell_index_injective(d, p);
    lemma_cell_index_injective(d, t);
    lemma_uncovered_update(s.board.tiles, s.board.objects, BOARD_SIZE as int, cell_index(d), Obj::Box);
    let m = s.push(t, off);
    assert(m.board.object(d) == Obj::Box);
    assert(s.step(off) == m.walk(t));
}

} // verus!
