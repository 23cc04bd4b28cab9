use vstd::array::spec_array_update;
use vstd::prelude::*;

verus! {

/// One of the two marks that the players place.
#[derive(Clone, Copy, Debug, PartialEq, Eq, Structural)]
pub enum Player {
    X,
    O,
}

impl Player {
    /// The mark that is not `self`.
    pub open spec fn opponent(self) -> Player {
        match self {
            Player::X => Player::O,
            Player::O => Player::X,
        }
    }
}

/// What a cell of the board holds.
#[derive(Clone, Copy, Debug, PartialEq, Eq, Structural)]
pub enum PlayerToken {
    Token(Player),
    NoToken,
}

/// One snapshot of a game: the board, indexed as `board[row][column]`, and
/// the mark that moves next.
#[derive(Clone, Copy, Debug, Eq)]
pub struct TicTacToe {
    pub board: [[PlayerToken; 3]; 3],
    pub current_player: Player,
}

/// 1 where `t` holds the mark `p`, else 0.
pub open spec fn token_count(t: PlayerToken, p: Player) -> int {
    if t == PlayerToken::Token(p) {
        1
    } else {
        0
    }
}

/// How many cells of `row` hold the mark `p`.
pub open spec fn row_count(row: [PlayerToken; 3], p: Player) -> int {
    token_count(row[0], p) + token_count(row[1], p) + token_count(row[2], p)
}

/// Placing `p` on an empty cell of `row` adds one to the count of `p` and
/// leaves the count of the other mark as it was.
proof fn lemma_row_place(row: [PlayerToken; 3], x: int, p: Player, q: Player)
    requires
        0 <= x < 3,
        row[x] is NoToken,
    ensures
        row_count(spec_array_update(row, x, PlayerToken::Token(p)), q) == row_count(row, q) + (
        if p == q {
            1int
        } else {
            0int
        }),
{
    let after = spec_array_update(row, x, PlayerToken::Token(p));
    assert(after@ == row@.update(x, PlayerToken::Token(p)));
    assert(after[0] == if x == 0 { PlayerToken::Token(p) } else { row[0] });
    assert(after[1] == if x == 1 { PlayerToken::Token(p) } else { row[1] });
    assert(after[2] == if x == 2 { PlayerToken::Token(p) } else { row[2] });
}

/// Whether `(x, y)` names a cell of the board (`x` the column, `y` the row).
pub open spec fn in_range(x: int, y: int) -> bool {
    0 <= x < 3 && 0 <= y < 3
}

impl TicTacToe {
    /// How many cells of the board hold the mark `p`.
    pub open spec fn mark_count(self, p: Player) -> int {
        row_count(self.board[0], p) + row_count(self.board[1], p) + row_count(self.board[2], p)
    }

    /// The turn order has been kept: `X` has placed as many marks as `O` and
    /// moves next, or one more and `O` moves next.
    pub open spec fn wf(self) -> bool {
        ||| self.mark_count(Player::X) == self.mark_count(Player::O) && self.current_player
            == Player::X
        ||| self.mark_count(Player::X) == self.mark_count(Player::O) + 1 && self.current_player
            == Player::O
    }

    /// The state a game starts in: every cell empty, `X` to move.
    pub open spec fn is_initial(self) -> bool {
        &&& forall|x: int, y: int| in_range(x, y) ==> #[trigger] self.token_at(x, y) is NoToken
        &&& self.current_player == Player::X
    }

    /// Creates the starting state of a game.
    pub fn new() -> (r: TicTacToe)
        ensures
            r.is_initial(),
            r.wf(),
    {
        TicTacToe { board: [[PlayerToken::NoToken; 3]; 3], current_player: Player::X }
    }

    /// The token at column `x`, row `y`.
    pub open spec fn token_at(self, x: int, y: int) -> PlayerToken {
        self.board[y][x]
    }

    /// A move at `(x, y)` is accepted exactly when the cell exists and is empty.
    pub open spec fn spec_cell_is_empty(self, x: int, y: int) -> bool {
        in_range(x, y) && self.token_at(x, y) is NoToken
    }

    /// A move keeps the turn order: a well-formed state stays well formed.
    pub proof fn lemma_next_state_wf(self, x: int, y: int)
        ensures
            self.wf() ==> self.spec_next_state(x, y).wf(),
    {
        if self.spec_cell_is_empty(x, y) {
            lemma_place_counts(self, x, y);
        }
    }

    /// Reports whether column `x`, row `y` is an empty cell of the board;
    /// a coordinate off the board is reported as not empty.
    pub fn cell_is_empty(&self, x: i32, y: i32) -> (r: bool)
        ensures
            r == self.spec_cell_is_empty(x as int, y as int),
    {
        if x < 0 || x >= 3 || y < 0 || y >= 3 {
            return false;
        }
        let row = self.board[y as usize];
        match row[x as usize] {
            PlayerToken::NoToken => true,
            PlayerToken::Token(_) => false,
        }
    }

    /// The state after a move at `(x, y)`: on an empty cell, the mark that
    /// moves is placed there and the turn passes; otherwise nothing changes.
    pub open spec fn spec_next_state(self, x: int, y: int) -> TicTacToe {
        if self.spec_cell_is_empty(x, y) {
            TicTacToe {
                board: spec_array_update(
                    self.board,
                    y,
                    spec_array_update(self.board[y], x, PlayerToken::Token(self.current_player)),
                ),
                current_player: self.current_player.opponent(),
            }
        } else {
            self
        }
    }

    /// Plays the mark whose turn it is at column `x`, row `y`. A move off the
    /// board or onto an occupied cell is rejected by returning `self` as it is.
    pub fn get_next_state(self, x: i32, y: i32) -> (r: TicTacToe)
        ensures
            r == self.spec_next_state(x as int, y as int),
            self.spec_cell_is_empty(x as int, y as int) ==> {
                &&& r.token_at(x as int, y as int) == PlayerToken::Token(self.current_player)
                &&& r.current_player == self.current_player.opponent()
                &&& forall|i: int, j: int|
                    in_range(i, j) && (i != x || j != y) ==> #[trigger] r.token_at(i, j)
                        == self.token_at(i, j)
            },
            !self.spec_cell_is_empty(x as int, y as int) ==> r == self,
            self.wf() ==> r.wf(),
    {
        proof {
            self.lemma_next_state_wf(x as int, y as int);
        }
        if self.cell_is_empty(x, y) {
            let mut next_state = TicTacToe {
                board: self.board,
                current_player: match self.current_player {
                    Player::X => Player::O,
                    Player::O => Player::X,
                },
            };
            next_state.board[y as usize][x as usize] = PlayerToken::Token(self.current_player);
            return next_state;
        }
        self
    }

    /// Every cell holds a mark.
    pub open spec fn is_full(self) -> bool {
        forall|x: int, y: int| in_range(x, y) ==> #[trigger] self.token_at(x, y) is Token
    }

    /// Reports whether the board is full, whether or not a mark has won.
    pub fn is_draw(self) -> (r: bool)
        ensures
            r == self.is_full(),
    {
        let mut y: usize = 0;
        while y < 3
            invariant
                y <= 3,
                forall|i: int, j: int|
                    0 <= i < 3 && 0 <= j < y ==> #[trigger] self.token_at(i, j) is Token,
            decreases 3 - y,
        {
            let row = self.board[y];
            let mut x: usize = 0;
            while x < 3
                invariant
                    y < 3,
                    x <= 3,
                    row == self.board[y as int],
                    forall|i: int, j: int|
                        0 <= i < 3 && 0 <= j < y ==> #[trigger] self.token_at(i, j) is Token,
                    forall|i: int| 0 <= i < x ==> #[trigger] row[i] is Token,
                decreases 3 - x,
            {
                match row[x] {
                    PlayerToken::NoToken => {
                        assert(self.token_at(x as int, y as int) is NoToken);
                        return false;
                    },
                    PlayerToken::Token(_) => {},
                }
                x = x + 1;
            }
            assert forall|i: int, j: int|
                0 <= i < 3 && 0 <= j < y + 1 implies #[trigger] self.token_at(i, j) is Token by {
                if j == y {
                    assert(row[i] is Token);
                }
            }
            y = y + 1;
        }
        true
    }

    /// The winning mark: the one that holds all three cells of row 0, if
    /// one does. No other row, column or diagonal is looked at.
    pub open spec fn spec_winner(self) -> Option<Player> {
        match self.token_at(0, 0) {
            PlayerToken::Token(p) => if self.token_at(1, 0) == self.token_at(0, 0)
                && self.token_at(2, 0) == self.token_at(0, 0) {
                Some(p)
            } else {
                None
            },
            PlayerToken::NoToken => None,
        }
    }

    /// Reports the mark that holds all of row 0, or `None`.
    pub fn winner(self) -> (r: Option<Player>)
        ensures
            r == self.spec_winner(),
    {
        check_group(self.board[0])
    }

    /// The game is over: a mark has won or the board is full.
    pub open spec fn spec_is_over(self) -> bool {
        self.spec_winner() is Some || self.is_full()
    }

    /// Reports whether the game is over.
    pub fn is_over(self) -> (r: bool)
        ensures
            r == self.spec_is_over(),
    {
        self.winner().is_some() || self.is_draw()
    }
}

/// Two states are equal when every cell and the mark to move agree.
impl PartialEq for TicTacToe {
    fn eq(&self, other: &TicTacToe) -> (r: bool) {
        if self.current_player != other.current_player {
            return false;
        }
        let mut y: usize = 0;
        while y < 3
            invariant
                y <= 3,
                forall|j: int| 0 <= j < y ==> #[trigger] self.board[j] == other.board[j],
            decreases 3 - y,
        {
            let mut x: usize = 0;
            while x < 3
                invariant
                    y < 3,
                    x <= 3,
                    forall|j: int| 0 <= j < y ==> #[trigger] self.board[j] == other.board[j],
                    forall|i: int| 0 <= i < x ==> #[trigger] self.board[y as int][i]
                        == other.board[y as int][i],
                decreases 3 - x,
            {
                if self.board[y][x] != other.board[y][x] {
                    return false;
                }
                x = x + 1;
            }
            assert(self.board[y as int] =~= other.board[y as int]);
            y = y + 1;
        }
        assert(self.board =~= other.board);
        true
    }
}

impl vstd::std_specs::cmp::PartialEqSpecImpl for TicTacToe {
    open spec fn obeys_eq_spec() -> bool {
        true
    }

    open spec fn eq_spec(&self, other: &TicTacToe) -> bool {
        *self == *other
    }
}

/// The mark that fills all three cells of `group`, if one does.
pub open spec fn spec_check_group(group: [PlayerToken; 3]) -> Option<Player> {
    match group[0] {
        PlayerToken::Token(p) => if group[1] == group[0] && group[2] == group[0] {
            Some(p)
        } else {
            None
        },
        PlayerToken::NoToken => None,
    }
}

/// Returns the mark that fills all three cells of `group`, or `None`.
fn check_group(group: [PlayerToken; 3]) -> (r: Option<Player>)
    ensures
        r == spec_check_group(group),
{
    if let PlayerToken::Token(p) = group[0] {
        let mut i: usize = 0;
        while i < 3
            invariant
                i <= 3,
                group[0] == PlayerToken::Token(p),
                forall|k: int| 0 <= k < i ==> #[trigger] group[k] == PlayerToken::Token(p),
            decreases 3 - i,
        {
            if group[i] != PlayerToken::Token(p) {
                return None;
            }
            i = i + 1;
        }
        return Some(p);
    }
    None
}

/// A legal move adds one mark of the player who moved and none of the other.
proof fn lemma_place_counts(s: TicTacToe, x: int, y: int)
    requires
        s.spec_cell_is_empty(x, y),
    ensures
        s.spec_next_state(x, y).mark_count(s.current_player) == s.mark_count(s.current_player) + 1,
        s.spec_next_state(x, y).mark_count(s.current_player.opponent()) == s.mark_count(
            s.current_player.opponent(),
        ),
{
    let p = s.current_player;
    let n = s.spec_next_state(x, y);
    let row = spec_array_update(s.board[y], x, PlayerToken::Token(p));
    assert(n.board@ == s.board@.update(y, row));
    assert(n.board[0] == if y == 0 { row } else { s.board[0] });
    assert(n.board[1] == if y == 1 { row } else { s.board[1] });
    assert(n.board[2] == if y == 2 { row } else { s.board[2] });
    lemma_row_place(s.board[y], x, p, p);
    lemma_row_place(s.board[y], x, p, p.opponent());
}

} // verus!
