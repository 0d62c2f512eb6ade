use tictactoe::board::{cell_label, check_draw, check_win, swap_player, turn, valid_move, Player};

const E: Player = Player::Empty;
const X: Player = Player::X;
const O: Player = Player::O;

#[test]
fn empty_board_has_no_winner() {
    let board = [E; 9];
    assert!(!check_win(&board, X));
    assert!(!check_win(&board, O));
    assert!(!check_draw(&board));
}

#[test]
fn every_line_wins() {
    let lines = [
        [0, 1, 2],
        [3, 4, 5],
        [6, 7, 8],
        [0, 3, 6],
        [1, 4, 7],
        [2, 5, 8],
        [0, 4, 8],
        [2, 4, 6],
    ];
    for line in lines.iter() {
        let mut board = [E; 9];
        for &i in line.iter() {
            board[i] = O;
        }
        assert!(check_win(&board, O));
        assert!(!check_win(&board, X));
    }
}

#[test]
fn two_in_a_line_does_not_win() {
    let board = [X, X, E, O, O, E, E, E, E];
    assert!(!check_win(&board, X));
    assert!(!check_win(&board, O));
}

#[test]
fn bent_line_does_not_win() {
    let board = [X, X, E, E, E, X, E, E, E];
    assert!(!check_win(&board, X));
}

#[test]
fn full_board_without_winner_is_draw() {
    let board = [X, O, X, X, O, O, O, X, X];
    assert!(!check_win(&board, X));
    assert!(!check_win(&board, O));
    assert!(check_draw(&board));
}

#[test]
fn one_empty_cell_is_no_draw() {
    let board = [X, O, X, X, O, O, O, X, E];
    assert!(!check_draw(&board));
}

#[test]
fn full_board_with_line_is_a_win() {
    let mut board = [X, O, X, O, X, O, O, X, E];
    assert!(valid_move(&board, 8));
    assert_eq!(turn(&mut board, X, 8), X);
    assert!(check_draw(&board));
    assert!(check_win(&board, X));
}

#[test]
fn queries_leave_board_unchanged() {
    let board = [X, O, E, E, X, E, O, E, E];
    let copy = board;
    assert_eq!(check_win(&board, X), check_win(&board, X));
    assert_eq!(check_draw(&board), check_draw(&board));
    assert_eq!(board, copy);
}

#[test]
fn legality() {
    let board = [X, E, O, E, E, E, E, E, E];
    assert!(!valid_move(&board, 0));
    assert!(valid_move(&board, 1));
    assert!(!valid_move(&board, 2));
    assert!(!valid_move(&board, 9));
    assert!(!valid_move(&board, usize::MAX));
}

#[test]
fn swap_alternates_sides() {
    assert_eq!(swap_player(X), O);
    assert_eq!(swap_player(O), X);
    assert_eq!(swap_player(E), X);
}

#[test]
fn turn_places_mark() {
    let mut board = [E; 9];
    assert_eq!(turn(&mut board, X, 4), E);
    assert_eq!(board, [E, E, E, E, X, E, E, E, E]);
    assert_eq!(turn(&mut board, O, 0), E);
    assert_eq!(board[0], O);
}

#[test]
fn turn_reports_winner() {
    let mut board = [O, O, E, X, X, E, E, E, E];
    assert_eq!(turn(&mut board, O, 2), O);
    assert!(check_win(&board, O));
}

#[test]
fn labels_of_cells() {
    let board = [X, E, O, E, E, E, E, E, E];
    assert_eq!(cell_label(&board, 0), 'X');
    assert_eq!(cell_label(&board, 1), '2');
    assert_eq!(cell_label(&board, 2), 'O');
    assert_eq!(cell_label(&board, 8), '9');
    assert_eq!(X.symbol(), 'X');
    assert_eq!(O.symbol(), 'O');
    assert_eq!(E.symbol(), ' ');
}
