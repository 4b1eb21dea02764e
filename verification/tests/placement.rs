use tetris::piece::spawn_piece;
use tetris::{Kind, Piece, Position};

fn pairs(cells: [Position; 4]) -> Vec<(i64, i64)> {
    cells.iter().map(|p| (p.x, p.y)).collect()
}

#[test]
fn pieces_enter_centred_with_their_top_cells_in_row_zero() {
    assert_eq!(spawn_piece(Kind::I, 10), Piece { kind: Kind::I, rotation: 0, x: 3, y: -1 });
    assert_eq!(spawn_piece(Kind::O, 10), Piece { kind: Kind::O, rotation: 0, x: 4, y: 0 });
    assert_eq!(spawn_piece(Kind::T, 10), Piece { kind: Kind::T, rotation: 0, x: 3, y: 0 });
    for kind in [Kind::I, Kind::O, Kind::T, Kind::L, Kind::J, Kind::S, Kind::Z] {
        let top = pairs(spawn_piece(kind, 10).cells()).iter().map(|c| c.1).min();
        assert_eq!(top, Some(0));
    }
}

#[test]
fn odd_spare_width_puts_the_piece_left_of_centre() {
    assert_eq!(spawn_piece(Kind::I, 7).x, 1);
    assert_eq!(spawn_piece(Kind::O, 5).x, 1);
    assert_eq!(spawn_piece(Kind::Z, 4).x, 0);
}

#[test]
fn piece_wider_than_the_board_enters_at_column_zero() {
    assert_eq!(spawn_piece(Kind::I, 3).x, 0);
    assert_eq!(spawn_piece(Kind::T, 0).x, 0);
}

#[test]
fn widest_board_places_the_piece_without_overflow() {
    assert_eq!(spawn_piece(Kind::O, u32::MAX).x, 2147483646);
    assert_eq!(spawn_piece(Kind::I, u32::MAX).x, 2147483645);
}

#[test]
fn cells_are_the_offsets_moved_to_the_position() {
    let piece = Piece { kind: Kind::L, rotation: 1, x: 5, y: 7 };
    assert_eq!(pairs(piece.cells()), vec![(7, 9), (6, 7), (6, 8), (6, 9)]);
}

#[test]
fn position_of_the_box_may_lie_left_of_the_board() {
    let piece = Piece { kind: Kind::I, rotation: 1, x: -2, y: 0 };
    assert_eq!(pairs(piece.cells()), vec![(0, 0), (0, 1), (0, 2), (0, 3)]);
}

#[test]
fn covers_is_true_of_the_four_cells_only() {
    let piece = Piece { kind: Kind::S, rotation: 0, x: 2, y: 3 };
    let mut covered = Vec::new();
    for y in 0..8 {
        for x in 0..8 {
            if piece.covers(Position { x, y }) {
                covered.push((x, y));
            }
        }
    }
    assert_eq!(covered, vec![(3, 3), (4, 3), (2, 4), (3, 4)]);
}
