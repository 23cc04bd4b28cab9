use crate::game::{Player, PlayerToken, TicTacToe};
use vstd::prelude::*;
use vstd::string::StringExecFns;

verus! {

/// The text that stands between two cells of a row.
pub open spec fn cell_separator() -> Seq<char> {
    " ┃ "@
}

/// The text that stands between two rows.
pub open spec fn row_separator() -> Seq<char> {
    "\n━━╋━━━╋━━\n"@
}

/// The symbol of a mark.
pub open spec fn player_text(p: Player) -> Seq<char> {
    match p {
        Player::X => "X"@,
        Player::O => "O"@,
    }
}

/// What a cell shows: its mark's symbol, or a blank.
pub open spec fn token_text(t: PlayerToken) -> Seq<char> {
    match t {
        PlayerToken::Token(p) => player_text(p),
        PlayerToken::NoToken => " "@,
    }
}

/// A row's three cells, split by the cell separator.
pub open spec fn row_text(row: [PlayerToken; 3]) -> Seq<char> {
    token_text(row[0]) + cell_separator() + token_text(row[1]) + cell_separator() + token_text(
        row[2],
    )
}

/// The board's three rows, from row 0 down, split by the row separator.
pub open spec fn board_text(s: TicTacToe) -> Seq<char> {
    row_text(s.board[0]) + row_separator() + row_text(s.board[1]) + row_separator() + row_text(
        s.board[2],
    )
}

impl Player {
    /// The mark's symbol, `X` or `O`.
    pub fn to_string(&self) -> (r: String)
        ensures
            r@ == player_text(*self),
    {
        match *self {
            Player::X => String::from_str("X"),
            Player::O => String::from_str("O"),
        }
    }
}

impl PlayerToken {
    /// What the cell shows: the mark's symbol, or a blank for an empty cell.
    pub fn to_string(&self) -> (r: String)
        ensures
            r@ == token_text(*self),
    {
        match *self {
            PlayerToken::Token(p) => p.to_string(),
            PlayerToken::NoToken => String::from_str(" "),
        }
    }
}

/// Writes one row of the board.
fn render_row(row: &[PlayerToken; 3]) -> (r: String)
    ensures
        r@ == row_text(*row),
{
    let mut out = row[0].to_string();
    let mut i: usize = 1;
    while i < 3
        invariant
            1 <= i <= 3,
            out@ == if i == 1 {
                token_text(row[0])
            } else if i == 2 {
                token_text(row[0]) + cell_separator() + token_text(row[1])
            } else {
                row_text(*row)
            },
        decreases 3 - i,
    {
        out.append(" ┃ ");
        out.append(row[i].to_string().as_str());
        i = i + 1;
    }
    out
}

impl TicTacToe {
    /// Draws the board as text: one line per row, the cells split by a
    /// vertical rule, the rows by a horizontal one.
    pub fn to_string(&self) -> (r: String)
        ensures
            r@ == board_text(*self),
    {
        let mut out = render_row(&self.board[0]);
        out.append("\n━━╋━━━╋━━\n");
        out.append(render_row(&self.board[1]).as_str());
        out.append("\n━━╋━━━╋━━\n");
        out.append(render_row(&self.board[2]).as_str());
        out
    }

    /// The closing line of a game: the winner's symbol and ` has won!`, or,
    /// where no mark has won, `It's a draw!`.
    pub fn outcome_text(&self) -> (r: String)
        ensures
            r@ == match self.spec_winner() {
                Some(p) => player_text(p) + " has won!"@,
                None => "It's a draw!"@,
            },
    {
        match self.winner() {
            Some(p) => {
                let mut out = p.to_string();
                out.append(" has won!");
                out
            },
            None => String::from_str("It's a draw!"),
        }
    }
}

} // verus!