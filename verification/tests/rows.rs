use tetris::grid::{clear_full_rows, is_row_full, new_grid, new_row, settle};
use tetris::{Kind, Piece};

const T: Option<Kind> = Some(Kind::T);
const Z: Option<Kind> = Some(Kind::Z);
const E: Option<Kind> = None;

#[test]
fn row_is_full_only_when_every_cell_is_occupied() {
    assert!(is_row_full(&vec![T, Z, T]));
    assert!(!is_row_full(&vec![T, E, T]));
    assert!(!is_row_full(&vec![E, E, E]));
}

#[test]
fn row_without_cells_is_never_full() {
    assert!(!is_row_full(&vec![]));
}

#[test]
fn new_row_is_empty_and_has_the_width() {
    assert_eq!(new_row(3), vec![E, E, E]);
    assert_eq!(new_row(0), Vec::<Option<Kind>>::new());
}

#[test]
fn new_grid_has_height_rows_of_width_cells() {
    assert_eq!(new_grid(2, 3), vec![vec![E, E], vec![E, E], vec![E, E]]);
    assert_eq!(new_grid(2, 0), Vec::<Vec<Option<Kind>>>::new());
    assert_eq!(new_grid(0, 2), vec![vec![], vec![]]);
}

#[test]
fn clearing_removes_full_rows_and_keeps_the_others_in_order() {
    let rows = vec![
        vec![T, E, E],
        vec![Z, Z, Z],
        vec![E, T, E],
        vec![T, T, T],
        vec![E, E, Z],
    ];
    let out = clear_full_rows(&rows, 3);
    assert_eq!(
        out,
        vec![
            vec![E, E, E],
            vec![E, E, E],
            vec![T, E, E],
            vec![E, T, E],
            vec![E, E, Z],
        ]
    );
}

#[test]
fn clearing_a_grid_without_full_rows_changes_nothing() {
    let rows = vec![vec![T, E], vec![E, E], vec![E, Z]];
    assert_eq!(clear_full_rows(&rows, 2), rows);
}

#[test]
fn clearing_a_grid_of_full_rows_leaves_it_empty() {
    let rows = vec![vec![T, T], vec![Z, Z]];
    assert_eq!(clear_full_rows(&rows, 2), vec![vec![E, E], vec![E, E]]);
}

#[test]
fn clearing_a_board_without_columns_keeps_its_rows() {
    let rows: Vec<Vec<Option<Kind>>> = vec![vec![], vec![]];
    assert_eq!(clear_full_rows(&rows, 0), rows);
}

#[test]
fn settling_writes_the_four_cells_of_the_piece() {
    let mut rows = new_grid(4, 3);
    let piece = Piece { kind: Kind::T, rotation: 0, x: 1, y: 1 };
    settle(&mut rows, &piece);
    assert_eq!(
        rows,
        vec![vec![E, E, E, E], vec![E, E, T, E], vec![E, T, T, T]]
    );
}

#[test]
fn settling_keeps_what_was_settled_before() {
    let mut rows = vec![vec![E, E], vec![E, E], vec![Z, E]];
    let piece = Piece { kind: Kind::O, rotation: 0, x: 0, y: 0 };
    settle(&mut rows, &piece);
    let o = Some(Kind::O);
    assert_eq!(rows, vec![vec![o, o], vec![o, o], vec![Z, E]]);
}
