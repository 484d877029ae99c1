use vstd::prelude::*;

use crate::board::{is_player, other_player, Board, PLAYER_O, PLAYER_X};
use crate::parse::{number_value, parse_number, split_words, words};

verus! {

/// The move that a line of input names: exactly two words, each a `usize`
/// written in decimal, taken as row and column.
pub open spec fn move_of(s: Seq<char>) -> Option<(int, int)> {
    let w = split_words(s);
    if w.len() == 2 && number_value(w[0]) is Some && number_value(w[1]) is Some {
        Some((number_value(w[0])->0, number_value(w[1])->0))
    } else {
        None
    }
}

/// Where a game stands after a move.
#[derive(Clone, Copy, Debug, PartialEq, Eq, Structural)]
pub enum GameState {
    /// Neither player has won and an empty cell is left.
    InProgress,
    /// The player with this mark has completed a line.
    Won(char),
    /// Every cell is taken and the last move completed no line.
    Draw,
}

/// A game in progress: its board and the player whose turn it is.
pub struct Game {
    board: Board,
    current_player: char,
}

impl Game {
    /// The board of the game.
    pub closed spec fn spec_board(&self) -> Board {
        self.board
    }

    /// The mark of the player whose turn it is.
    pub closed spec fn spec_player(&self) -> char {
        self.current_player
    }

    /// The board is well formed and the turn belongs to one of the two players.
    pub open spec fn wf(&self) -> bool {
        self.spec_board().wf() && is_player(self.spec_player())
    }

    /// Starts a game on an empty board, with the first player to move.
    pub fn new() -> (g: Game)
        ensures
            g.wf(),
            g.spec_board().is_empty_board(),
            g.spec_player() == PLAYER_X,
    {
        Game { board: Board::new(), current_player: PLAYER_X }
    }

    /// The board of the game.
    pub fn board(&self) -> (b: &Board)
        ensures
            *b == self.spec_board(),
    {
        &self.board
    }

    /// The mark of the player whose turn it is.
    pub fn current_player(&self) -> (p: char)
        ensures
            p == self.spec_player(),
    {
        self.current_player
    }

    /// Reads a line as a row and a column: exactly two decimal numbers
    /// separated by white space.
    pub fn parse_move(&self, input: &str) -> (r: Option<(usize, usize)>)
        ensures
            match r {
                Some((row, col)) => move_of(input@) == Some((row as int, col as int)),
                None => move_of(input@) is None,
            },
    {
        let w = words(input);
        assert(w@.len() == split_words(input@).len());
        if w.len() != 2 {
            return None;
        }
        assert(w@[0]@ == split_words(input@)[0]);
        assert(w@[1]@ == split_words(input@)[1]);
        match (parse_number(&w[0]), parse_number(&w[1])) {
            (Some(row), Some(col)) => Some((row, col)),
            _ => None,
        }
    }

    /// Takes a line of input as the current player's move: the position it
    /// names, if that position is a valid move on the board.
    pub fn move_from_line(&self, line: &str) -> (r: Option<(usize, usize)>)
        ensures
            match r {
                Some((row, col)) => move_of(line@) == Some((row as int, col as int))
                    && self.spec_board().valid_move(row as int, col as int),
                None => match move_of(line@) {
                    Some((row, col)) => !self.spec_board().valid_move(row, col),
                    None => true,
                },
            },
    {
        match self.parse_move(line) {
            Some((row, col)) => {
                if self.board.is_valid_move(row, col) {
                    Some((row, col))
                } else {
                    None
                }
            },
            None => None,
        }
    }

    /// Passes the turn to the other player.
    pub fn switch_player(&mut self)
        requires
            old(self).wf(),
        ensures
            final(self).wf(),
            final(self).spec_board() == old(self).spec_board(),
            final(self).spec_player() == other_player(old(self).spec_player()),
    {
        self.current_player = if self.current_player == PLAYER_X {
            PLAYER_O
        } else {
            PLAYER_X
        };
    }

    /// Plays the current player's mark at `(row, col)`, which must be a valid
    /// move. A completed line wins; otherwise a full board is a draw; otherwise
    /// the turn passes to the other player.
    pub fn play_move(&mut self, row: usize, col: usize) -> (s: GameState)
        requires
            old(self).wf(),
            old(self).spec_board().valid_move(row as int, col as int),
        ensures
            final(self).wf(),
            final(self).spec_board().follows_move(
                old(self).spec_board(),
                row as int,
                col as int,
                old(self).spec_player(),
            ),
            ({
                let p = old(self).spec_player();
                let b = final(self).spec_board();
                if b.wins(p) {
                    s == GameState::Won(p) && final(self).spec_player() == p
                } else if b.is_full() {
                    s == GameState::Draw && final(self).spec_player() == p
                } else {
                    s == GameState::InProgress && final(self).spec_player() == other_player(p)
                }
            }),
    {
        let player = self.current_player;
        self.board.make_move(row, col, player);
        if self.board.is_winner(player) {
            GameState::Won(player)
        } else if self.board.is_draw() {
            GameState::Draw
        } else {
            self.switch_player();
            GameState::InProgress
        }
    }
}

/// Turns alternate: along a run of games that starts with the first player to
/// move, each game following the one before by a move that ended nothing, the
/// first player is to move after an even number of moves and the second after
/// an odd number.
pub proof fn lemma_turn_alternation(games: Seq<Game>)
    requires
        games.len() > 0,
        games[0].spec_player() == PLAYER_X,
        forall|i: int|
            0 < i < games.len() ==> #[trigger] games[i].spec_player() == other_player(
                games[i - 1].spec_player(),
            ),
    ensures
        forall|k: int|
            0 <= k < games.len() ==> #[trigger] games[k].spec_player() == if k % 2 == 0 {
                PLAYER_X
            } else {
                PLAYER_O
            },
    decreases games.len(),
{
    if games.len() > 1 {
        let init = games.drop_last();
        assert forall|i: int| 0 < i < init.len() implies #[trigger] init[i].spec_player()
            == other_player(init[i - 1].spec_player()) by {
            assert(init[i] == games[i] && init[i - 1] == games[i - 1]);
        }
        lemma_turn_alternation(init);
        let n = games.len() - 1;
        assert(init[n - 1] == games[n - 1]);
        assert(games[n].spec_player() == other_player(games[n - 1].spec_player()));
        assert forall|k: int| 0 <= k < games.len() implies #[trigger] games[k].spec_player() == if k
            % 2 == 0 {
            PLAYER_X
        } else {
            PLAYER_O
        } by {
            if k < n {
                assert(init[k] == games[k]);
            }
        }
    }
}

} // verus!
