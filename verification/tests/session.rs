use karpas::board::Board;
use karpas::clock::GravityClock;
use karpas::game::{Command, Game, SPAWN_COL, SPAWN_ROW};
use karpas::grid::Coord;
use karpas::piece::{color_of, FallingPiece, Shape};

fn occupied_of(g: &Game) -> Vec<Coord> {
    g.falling.occupied()
}

#[test]
fn can_place_rejects_side_walls_and_floor() {
    let b = Board::new();
    assert!(!b.can_place(&vec![Coord::new(-1, 5)]));
    assert!(!b.can_place(&vec![Coord::new(10, 5)]));
    assert!(!b.can_place(&vec![Coord::new(3, -1)]));
    assert!(!b.can_place(&vec![Coord::new(4, 4), Coord::new(-1, 0)]));
}

#[test]
fn can_place_accepts_everything_in_bounds_on_an_empty_board() {
    let b = Board::new();
    assert!(b.can_place(&vec![
        Coord::new(0, 0),
        Coord::new(9, 0),
        Coord::new(5, 15),
        Coord::new(5, 40),
    ]));
}

#[test]
fn can_place_rejects_landed_cells() {
    let mut b = Board::new();
    b.land(&vec![Coord::new(4, 0)], color_of(Shape::O)).unwrap();
    assert!(!b.can_place(&vec![Coord::new(4, 0)]));
    assert!(b.can_place(&vec![Coord::new(5, 0)]));
}

#[test]
fn land_rejects_overlap_and_changes_nothing() {
    let mut b = Board::new();
    b.land(&vec![Coord::new(2, 0), Coord::new(3, 0)], color_of(Shape::Z)).unwrap();
    assert_eq!(b.count(), 2);
    let r = b.land(&vec![Coord::new(7, 3), Coord::new(3, 0)], color_of(Shape::S));
    assert!(r.is_err());
    assert_eq!(b.count(), 2);
    assert!(!b.is_landed(Coord::new(7, 3)));
}

#[test]
fn clear_empties_the_board() {
    let mut b = Board::new();
    b.land(&vec![Coord::new(2, 0)], color_of(Shape::I)).unwrap();
    b.clear();
    assert_eq!(b.count(), 0);
    assert!(!b.is_landed(Coord::new(2, 0)));
}

#[test]
fn landed_cells_reports_every_cell_with_its_color() {
    let mut b = Board::new();
    b.land(&vec![Coord::new(1, 0)], color_of(Shape::J)).unwrap();
    b.land(&vec![Coord::new(2, 0)], color_of(Shape::L)).unwrap();
    let cells = b.landed_cells();
    assert_eq!(cells.len(), 2);
    assert!(cells.contains(&(Coord::new(1, 0), color_of(Shape::J))));
    assert!(cells.contains(&(Coord::new(2, 0), color_of(Shape::L))));
}

#[test]
fn gravity_clock_fires_once_at_threshold_and_resets() {
    let mut c = GravityClock::new();
    assert!(!c.advance(1499));
    assert_eq!(c.acc_ms, 1499);
    assert!(c.advance(1));
    assert_eq!(c.acc_ms, 0);
    assert!(!c.advance(0));
}

#[test]
fn gravity_clock_discards_drift_past_the_threshold() {
    let mut c = GravityClock::new();
    assert!(c.advance(4000));
    assert_eq!(c.acc_ms, 0);
}

#[test]
fn new_session_has_empty_board_and_spawned_piece() {
    let g = Game::new(Shape::T);
    assert_eq!(g.board.count(), 0);
    assert_eq!(g.falling.shape, Shape::T);
    assert_eq!(g.falling.origin, Coord::new(SPAWN_COL, SPAWN_ROW));
    assert_eq!(g.falling.rot, 0);
    assert_eq!(g.clock.acc_ms, 0);
}

#[test]
fn start_session_spawns_at_the_spawn_coordinate() {
    let g = Game::start_session();
    assert_eq!(g.board.count(), 0);
    assert_eq!(g.falling.origin, Coord::new(SPAWN_COL, SPAWN_ROW));
    assert_eq!(g.falling.rot, 0);
}

#[test]
fn end_session_clears_the_board() {
    let mut g = Game::new(Shape::O);
    g.hard_drop().unwrap();
    assert_eq!(g.board.count(), 4);
    g.end_session();
    assert_eq!(g.board.count(), 0);
}

#[test]
fn moves_commit_only_when_free() {
    let mut g = Game::new(Shape::O);
    g.move_left();
    assert_eq!(g.falling.origin.col, 4);
    g.move_right();
    g.move_right();
    assert_eq!(g.falling.origin.col, 6);
}

#[test]
fn move_left_clamps_at_the_wall() {
    // An O piece covers its pivot column and the one to its right, so the
    // pivot column stops at 0 however often the move is repeated.
    let mut g = Game::new(Shape::O);
    for _ in 0..20 {
        g.move_left();
    }
    assert_eq!(g.falling.origin.col, 0);
}

#[test]
fn move_right_clamps_at_the_wall() {
    let mut g = Game::new(Shape::O);
    for _ in 0..20 {
        g.move_right();
    }
    assert_eq!(g.falling.origin.col, 8);
}

#[test]
fn descend_moves_one_row_when_free() {
    let mut g = Game::new(Shape::O);
    let r = g.descend();
    assert_eq!(r, Ok(false));
    assert_eq!(g.falling.origin, Coord::new(5, 15));
    assert_eq!(g.board.count(), 0);
}

#[test]
fn descend_lands_when_the_floor_blocks() {
    let board = Board::new();
    let piece = FallingPiece::new(Shape::O, Coord::new(5, 0), 0);
    let mut g = Game::from_parts(board, piece);
    let r = g.descend();
    assert_eq!(r, Ok(true));
    assert_eq!(g.board.count(), 4);
    assert!(g.board.is_landed(Coord::new(5, 0)));
    assert_eq!(g.falling.origin, Coord::new(SPAWN_COL, SPAWN_ROW));
    assert_eq!(g.falling.rot, 0);
}

#[test]
fn landing_merges_every_occupied_cell_and_respawns() {
    let piece = FallingPiece::new(Shape::S, Coord::new(4, 7), 2);
    let mut g = Game::from_parts(Board::new(), piece);
    let cells = g.falling.occupied();
    g.land_current_piece().unwrap();
    for c in cells {
        assert!(g.board.is_landed(c));
    }
    assert_eq!(g.board.count(), 4);
    assert_eq!(g.falling.origin, Coord::new(SPAWN_COL, SPAWN_ROW));
    assert_eq!(g.falling.rot, 0);
}

#[test]
fn tick_fires_only_at_the_gravity_interval() {
    let mut g = Game::new(Shape::O);
    assert_eq!(g.tick(700), Ok(false));
    assert_eq!(g.falling.origin.row, 16);
    assert_eq!(g.tick(800), Ok(false));
    assert_eq!(g.falling.origin.row, 15);
    assert_eq!(g.clock.acc_ms, 0);
}

#[test]
fn hard_drop_lands_on_the_floor_of_an_empty_board() {
    let mut g = Game::new(Shape::O);
    let before = occupied_of(&g);
    g.hard_drop().unwrap();
    // Lowest legal pivot row is 0: the piece's cells fill rows 0 and 1.
    for c in [Coord::new(5, 0), Coord::new(6, 0), Coord::new(5, 1), Coord::new(6, 1)] {
        assert!(g.board.is_landed(c));
    }
    assert_eq!(g.board.count(), 4);
    // Columns match the shape offsets at the spawn pivot.
    for c in before {
        assert!(c.col == 5 || c.col == 6);
    }
    // A fresh piece of some shape stands at the spawn coordinate.
    assert_eq!(g.falling.origin, Coord::new(SPAWN_COL, SPAWN_ROW));
    assert_eq!(g.falling.rot, 0);
}

#[test]
fn hard_drop_rests_one_row_above_a_landed_cell_beneath() {
    let mut board = Board::new();
    board.land(&vec![Coord::new(5, 3)], color_of(Shape::I)).unwrap();
    let piece = FallingPiece::new(Shape::O, Coord::new(5, 16), 0);
    let mut g = Game::from_parts(board, piece);
    g.hard_drop().unwrap();
    for c in [Coord::new(5, 4), Coord::new(6, 4), Coord::new(5, 5), Coord::new(6, 5)] {
        assert!(g.board.is_landed(c));
    }
    assert_eq!(g.board.count(), 5);
    assert!(!g.board.is_landed(Coord::new(5, 2)));
}

#[test]
fn hard_drop_reaches_the_floor_for_every_shape() {
    for shape in [Shape::I, Shape::J, Shape::L, Shape::O, Shape::S, Shape::T, Shape::Z] {
        let mut g = Game::new(shape);
        g.hard_drop().unwrap();
        let cells = g.board.landed_cells();
        assert_eq!(cells.len(), 4);
        let lowest = cells.iter().map(|(c, _)| c.row).min().unwrap();
        assert_eq!(lowest, 0);
    }
}

#[test]
fn hard_drop_keeps_the_landed_colors() {
    let mut g = Game::new(Shape::Z);
    g.hard_drop().unwrap();
    let cells = g.board.landed_cells();
    assert_eq!(cells.len(), 4);
    for (_, color) in cells {
        assert_eq!(color, color_of(Shape::Z));
    }
}

#[test]
fn hard_drop_fails_when_the_piece_already_overlaps() {
    // Only an unconditional rotation can park a piece over landed cells;
    // from there a hard drop cannot even land and reports the overlap.
    let mut board = Board::new();
    board.land(&vec![Coord::new(5, 0)], color_of(Shape::I)).unwrap();
    let piece = FallingPiece::new(Shape::T, Coord::new(5, 1), 0);
    let mut g = Game::from_parts(board, piece);
    g.rotate_cw();
    assert!(g.hard_drop().is_err());
    assert_eq!(g.board.count(), 1);
    assert_eq!(g.falling.origin, Coord::new(5, 1));
    assert_eq!(g.falling.rot, 1);
}

#[test]
fn rotation_is_unconditional_even_into_overlap() {
    let mut board = Board::new();
    board.land(&vec![Coord::new(5, 0)], color_of(Shape::I)).unwrap();
    // A T piece whose pivot sits one row above the landed cell: after one
    // clockwise quarter turn one of its cells falls on the landed cell.
    let piece = FallingPiece::new(Shape::T, Coord::new(5, 1), 0);
    let mut g = Game::from_parts(board, piece);
    for c in occupied_of(&g) {
        assert!(!g.board.is_landed(c));
    }
    g.rotate_cw();
    assert_eq!(g.falling.rot, 1);
    let overlapping: Vec<Coord> =
        occupied_of(&g).into_iter().filter(|c| g.board.is_landed(*c)).collect();
    assert_eq!(overlapping, vec![Coord::new(5, 0)]);
}

#[test]
fn rotation_near_a_wall_is_not_checked_against_bounds() {
    let piece = FallingPiece::new(Shape::I, Coord::new(0, 5), 0);
    let mut g = Game::from_parts(Board::new(), piece);
    g.rotate_cw();
    assert_eq!(g.falling.rot, 1);
    let cells = occupied_of(&g);
    assert!(cells.contains(&Coord::new(-1, 4)));
}

#[test]
fn commands_drive_the_same_transitions() {
    let mut g = Game::new(Shape::O);
    g.handle_command(Command::MoveLeft).unwrap();
    assert_eq!(g.falling.origin.col, 4);
    g.handle_command(Command::MoveRight).unwrap();
    assert_eq!(g.falling.origin.col, 5);
    g.handle_command(Command::RotateCw).unwrap();
    assert_eq!(g.falling.rot, 1);
    g.handle_command(Command::RotateCcw).unwrap();
    assert_eq!(g.falling.rot, 0);
    g.handle_command(Command::HardDrop).unwrap();
    assert_eq!(g.board.count(), 4);
}
