use crate::game::{Player, PlayerToken, TicTacToe};
use vstd::prelude::*;

verus! {

/// The state reached from `s` by playing `moves` in order, each a
/// `(column, row)` pair.
pub open spec fn play(s: TicTacToe, moves: Seq<(int, int)>) -> TicTacToe
    decreases moves.len(),
{
    if moves.len() == 0 {
        s
    } else {
        play(s, moves.drop_last()).spec_next_state(moves.last().0, moves.last().1)
    }
}

/// Every move of `moves`, played in order from `s`, lands on an empty cell.
pub open spec fn all_legal(s: TicTacToe, moves: Seq<(int, int)>) -> bool
    decreases moves.len(),
{
    moves.len() == 0 || (all_legal(s, moves.drop_last()) && play(
        s,
        moves.drop_last(),
    ).spec_cell_is_empty(moves.last().0, moves.last().1))
}

/// Turns alternate: from the starting state, after an even number of legal
/// moves `X` is to move, after an odd number `O`.
pub proof fn lemma_turns_alternate(s: TicTacToe, moves: Seq<(int, int)>)
    requires
        s.is_initial(),
        all_legal(s, moves),
    ensures
        play(s, moves).current_player == if moves.len() % 2 == 0 {
            Player::X
        } else {
            Player::O
        },
    decreases moves.len(),
{
    if moves.len() > 0 {
        lemma_turns_alternate(s, moves.drop_last());
    }
}

/// Every legal move keeps the turn order: the states reached from the
/// starting state by legal moves are all well formed.
pub proof fn lemma_play_keeps_turn_order(s: TicTacToe, moves: Seq<(int, int)>)
    requires
        s.wf(),
        all_legal(s, moves),
    ensures
        play(s, moves).wf(),
    decreases moves.len(),
{
    if moves.len() > 0 {
        lemma_play_keeps_turn_order(s, moves.drop_last());
        let before = play(s, moves.drop_last());
        before.lemma_next_state_wf(moves.last().0, moves.last().1);
    }
}

/// A mark has won exactly when it holds all three cells of row 0.
pub proof fn lemma_winner_is_row_zero(s: TicTacToe, p: Player)
    ensures
        s.spec_winner() == Some(p) <==> (forall|x: int|
            0 <= x < 3 ==> #[trigger] s.token_at(x, 0) == PlayerToken::Token(p)),
{
    if forall|x: int| 0 <= x < 3 ==> #[trigger] s.token_at(x, 0) == PlayerToken::Token(p) {
        assert(s.token_at(0, 0) == PlayerToken::Token(p));
        assert(s.token_at(1, 0) == PlayerToken::Token(p));
        assert(s.token_at(2, 0) == PlayerToken::Token(p));
    }
}

/// Only row 0 decides the winner: two boards that agree on row 0 have the
/// same winner, whatever the other rows, the columns and the diagonals hold.
pub proof fn lemma_winner_ignores_other_rows(a: TicTacToe, b: TicTacToe)
    requires
        forall|x: int| 0 <= x < 3 ==> #[trigger] a.token_at(x, 0) == b.token_at(x, 0),
    ensures
        a.spec_winner() == b.spec_winner(),
{
    assert(a.token_at(0, 0) == b.token_at(0, 0));
    assert(a.token_at(1, 0) == b.token_at(1, 0));
    assert(a.token_at(2, 0) == b.token_at(2, 0));
}

} // verus!
