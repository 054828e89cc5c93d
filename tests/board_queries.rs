use sokoban::board::{offset, Board, Layer, Obj, Tile, BOARD_HEIGHT, BOARD_SIZE, BOARD_WIDTH};
use sokoban::controls::{command_for_key, Command};
use sokoban::render::{obj_char, tile_char};

/// A walled 8x8 room with the given objects placed inside it.
fn room(objects: &[((usize, usize), Obj)], goals: &[(usize, usize)]) -> Board {
    let mut tiles = [Tile::Empty; BOARD_SIZE];
    for y in 0..BOARD_HEIGHT {
        for x in 0..BOARD_WIDTH {
            if x == 0 || y == 0 || x == BOARD_WIDTH - 1 || y == BOARD_HEIGHT - 1 {
                tiles[x + y * BOARD_WIDTH] = Tile::Wall;
            }
        }
    }
    for &(x, y) in goals {
        tiles[x + y * BOARD_WIDTH] = Tile::Goal;
    }
    let mut cells = [Obj::Empty; BOARD_SIZE];
    for &((x, y), o) in objects {
        cells[x + y * BOARD_WIDTH] = o;
    }
    Board { tiles: Layer(tiles), objects: Layer(cells) }
}

#[test]
fn layer_index_is_row_major() {
    assert_eq!(Layer::<Tile>::index((0, 0)), 0);
    assert_eq!(Layer::<Tile>::index((3, 0)), 3);
    assert_eq!(Layer::<Tile>::index((2, 5)), 42);
    assert_eq!(Layer::<Obj>::index((7, 7)), 63);
}

#[test]
fn layer_swap_exchanges_two_cells() {
    let mut cells = [0u8; BOARD_SIZE];
    cells[9] = 1;
    cells[18] = 2;
    let mut layer = Layer(cells);
    layer.swap((1, 1), (2, 2));
    assert_eq!(layer.get((1, 1)), 2);
    assert_eq!(layer.get((2, 2)), 1);
    assert_eq!(layer.0[0], 0);
}

#[test]
fn swap_objects_keeps_tiles() {
    let mut board = room(&[((2, 3), Obj::Box)], &[(4, 3)]);
    board.swap_objects((2, 3), (4, 3));
    assert_eq!(board.object_at((4, 3)), Obj::Box);
    assert_eq!(board.object_at((2, 3)), Obj::Empty);
    assert_eq!(board.tile_at((4, 3)), Tile::Goal);
    assert_eq!(board.tile_at((2, 3)), Tile::Empty);
}

#[test]
fn find_player_returns_first_in_row_major_order() {
    let board = room(&[((5, 2), Obj::Player), ((1, 3), Obj::Player)], &[]);
    assert_eq!(board.find_player(), (5, 2));
    let board = room(&[((3, 6), Obj::Player)], &[]);
    assert_eq!(board.find_player(), (3, 6));
}

#[test]
fn count_goals_counts_uncovered_goals() {
    let board = room(
        &[((2, 2), Obj::Box), ((3, 3), Obj::Player), ((5, 5), Obj::Box)],
        &[(2, 2), (3, 3), (4, 4)],
    );
    assert_eq!(board.count_goals(), 2);
    let board = room(&[], &[]);
    assert_eq!(board.count_goals(), 0);
}

#[test]
fn playable_layouts() {
    assert!(room(&[((3, 3), Obj::Player)], &[(5, 5)]).is_playable());
}

#[test]
fn layout_without_player_is_not_playable() {
    assert!(!room(&[((3, 3), Obj::Box)], &[]).is_playable());
}

#[test]
fn layout_with_two_players_is_not_playable() {
    assert!(!room(&[((3, 3), Obj::Player), ((4, 3), Obj::Player)], &[]).is_playable());
}

#[test]
fn layout_with_gap_in_ring_is_not_playable() {
    let mut board = room(&[((3, 3), Obj::Player)], &[]);
    board.tiles.0[7 + 4 * BOARD_WIDTH] = Tile::Empty;
    assert!(!board.is_playable());
    let mut board = room(&[((3, 3), Obj::Player)], &[]);
    board.tiles.0[5] = Tile::Goal;
    assert!(!board.is_playable());
}

#[test]
fn layout_with_object_on_wall_is_not_playable() {
    let board = room(&[((3, 3), Obj::Player), ((0, 4), Obj::Box)], &[]);
    assert!(!board.is_playable());
    let mut board = room(&[((3, 3), Obj::Player)], &[]);
    board.tiles.0[2 + 2 * BOARD_WIDTH] = Tile::Wall;
    board.objects.0[2 + 2 * BOARD_WIDTH] = Obj::Box;
    assert!(!board.is_playable());
}

#[test]
fn offset_moves_one_step() {
    assert_eq!(offset((3, 4), (1, 0)), (4, 4));
    assert_eq!(offset((3, 4), (-1, 0)), (2, 4));
    assert_eq!(offset((3, 4), (0, -1)), (3, 3));
    assert_eq!(offset((3, 4), (0, 1)), (3, 5));
}

#[test]
fn tile_chars() {
    assert_eq!(tile_char(Tile::Empty), ' ');
    assert_eq!(tile_char(Tile::Wall), '▒');
    assert_eq!(tile_char(Tile::Goal), '○');
}

#[test]
fn object_chars() {
    assert_eq!(obj_char(Obj::Empty, Tile::Goal), '○');
    assert_eq!(obj_char(Obj::Empty, Tile::Empty), ' ');
    assert_eq!(obj_char(Obj::Player, Tile::Goal), '☻');
    assert_eq!(obj_char(Obj::Box, Tile::Goal), '◙');
    assert_eq!(obj_char(Obj::Box, Tile::Empty), '■');
}

#[test]
fn keys_map_to_commands() {
    assert_eq!(command_for_key('w'), Command::Move((0, -1)));
    assert_eq!(command_for_key('s'), Command::Move((0, 1)));
    assert_eq!(command_for_key('a'), Command::Move((-1, 0)));
    assert_eq!(command_for_key('d'), Command::Move((1, 0)));
    assert_eq!(command_for_key('r'), Command::Restart);
    assert_eq!(command_for_key('q'), Command::Quit);
    assert_eq!(command_for_key('x'), Command::Ignore);
}
