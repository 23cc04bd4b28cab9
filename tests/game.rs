use tictactoe::game::{Player, PlayerToken, TicTacToe};

fn play(moves: &[(i32, i32)]) -> TicTacToe {
    let mut s = TicTacToe::new();
    for &(x, y) in moves {
        s = s.get_next_state(x, y);
    }
    s
}

#[test]
fn new_game_is_empty_with_x_to_move() {
    let s = TicTacToe::new();
    assert_eq!(s.board, [[PlayerToken::NoToken; 3]; 3]);
    assert_eq!(s.current_player, Player::X);
    for y in 0..3 {
        for x in 0..3 {
            assert!(s.cell_is_empty(x, y));
        }
    }
}

#[test]
fn cell_off_the_board_is_not_empty() {
    let s = TicTacToe::new();
    assert!(!s.cell_is_empty(-1, 0));
    assert!(!s.cell_is_empty(0, -1));
    assert!(!s.cell_is_empty(3, 0));
    assert!(!s.cell_is_empty(0, 3));
    assert!(!s.cell_is_empty(i32::MIN, i32::MAX));
}

#[test]
fn occupied_cell_is_not_empty() {
    let s = TicTacToe::new().get_next_state(2, 1);
    assert!(!s.cell_is_empty(2, 1));
    assert!(s.cell_is_empty(1, 2));
}

#[test]
fn legal_move_places_mark_and_passes_turn() {
    let s = TicTacToe::new().get_next_state(1, 2);
    assert_eq!(s.board[2][1], PlayerToken::Token(Player::X));
    assert_eq!(s.current_player, Player::O);
    let t = s.get_next_state(2, 0);
    assert_eq!(t.board[0][2], PlayerToken::Token(Player::O));
    assert_eq!(t.board[2][1], PlayerToken::Token(Player::X));
    assert_eq!(t.current_player, Player::X);
    let filled = t.board.iter().flatten().filter(|c| **c != PlayerToken::NoToken).count();
    assert_eq!(filled, 2);
}

#[test]
fn first_move_then_same_cell_is_rejected() {
    let s = TicTacToe::new().get_next_state(0, 0);
    assert_eq!(s.board[0][0], PlayerToken::Token(Player::X));
    assert_eq!(s.current_player, Player::O);
    let t = s.get_next_state(0, 0);
    assert!(t == s);
    assert_eq!(t.board[0][0], PlayerToken::Token(Player::X));
    assert_eq!(t.current_player, Player::O);
}

#[test]
fn move_off_the_board_is_rejected() {
    let s = TicTacToe::new().get_next_state(1, 1);
    for &(x, y) in &[(-1, 0), (0, -1), (3, 0), (0, 3), (3, 3), (i32::MAX, 0), (0, i32::MIN)] {
        let t = s.get_next_state(x, y);
        assert!(t == s);
        assert_eq!(t.board, s.board);
        assert_eq!(t.current_player, s.current_player);
    }
}

#[test]
fn equality_sees_each_cell_and_the_turn() {
    let a = TicTacToe::new().get_next_state(2, 2);
    let b = TicTacToe::new().get_next_state(2, 1);
    let c = TicTacToe::new().get_next_state(2, 2);
    assert!(a == c);
    assert!(a != b);
    let mut d = a;
    d.current_player = Player::X;
    assert!(a != d);
}

#[test]
fn turns_alternate_over_legal_moves() {
    let moves = [(0, 0), (1, 0), (2, 0), (0, 1), (1, 1), (2, 1), (0, 2), (1, 2), (2, 2)];
    let mut s = TicTacToe::new();
    for (n, &(x, y)) in moves.iter().enumerate() {
        s = s.get_next_state(x, y);
        let expected = if (n + 1) % 2 == 0 { Player::X } else { Player::O };
        assert_eq!(s.current_player, expected);
    }
}

#[test]
fn row_zero_filled_by_x_wins() {
    let s = play(&[(0, 0), (1, 1), (1, 0), (2, 2), (2, 0)]);
    assert_eq!(s.winner(), Some(Player::X));
    assert!(!s.is_draw());
    assert!(s.is_over());
}

#[test]
fn row_zero_filled_by_o_wins() {
    let s = play(&[(1, 1), (0, 0), (2, 2), (1, 0), (0, 2), (2, 0)]);
    assert_eq!(s.winner(), Some(Player::O));
}

#[test]
fn full_board_without_row_zero_win_is_a_draw() {
    // X O X / X O O / O X X
    let s = play(&[(0, 0), (1, 0), (2, 0), (1, 1), (0, 1), (2, 1), (1, 2), (0, 2), (2, 2)]);
    assert_eq!(s.winner(), None);
    assert!(s.is_draw());
    assert!(s.is_over());
}

#[test]
fn only_row_zero_counts_for_a_win() {
    // X fills row 1
    let row_one = play(&[(0, 1), (0, 0), (1, 1), (1, 0), (2, 1)]);
    assert_eq!(row_one.winner(), None);
    // X fills column 0
    let column = play(&[(0, 0), (1, 0), (0, 1), (1, 1), (0, 2)]);
    assert_eq!(column.winner(), None);
    // X fills the diagonal
    let diagonal = play(&[(0, 0), (1, 0), (1, 1), (2, 0), (2, 2)]);
    assert_eq!(diagonal.winner(), None);
    assert!(!diagonal.is_over());
}

#[test]
fn mixed_row_zero_has_no_winner() {
    let s = play(&[(0, 0), (1, 0), (2, 0)]);
    assert_eq!(s.winner(), None);
    assert!(!s.is_draw());
}

#[test]
fn full_board_with_win_is_also_a_draw() {
    // X X X / O O X / O X O with row 0 full of X
    let mut s = TicTacToe::new();
    s.board = [
        [PlayerToken::Token(Player::X); 3],
        [PlayerToken::Token(Player::O), PlayerToken::Token(Player::O), PlayerToken::Token(Player::X)],
        [PlayerToken::Token(Player::O), PlayerToken::Token(Player::X), PlayerToken::Token(Player::O)],
    ];
    assert_eq!(s.winner(), Some(Player::X));
    assert!(s.is_draw());
}

#[test]
fn one_empty_cell_is_not_a_draw() {
    let s = play(&[(0, 0), (1, 0), (2, 0), (1, 1), (0, 1), (2, 1), (1, 2), (0, 2)]);
    assert!(!s.is_draw());
    assert!(!s.is_over());
    assert!(!TicTacToe::new().is_draw());
}
