use vstd::prelude::*;

verus! {

/// Mark of the player who moves first.
pub const PLAYER_X: char = 'X';

/// Mark of the player who moves second.
pub const PLAYER_O: char = 'O';

/// Content of a cell that holds no mark.
pub const EMPTY: char = ' ';

/// Number of rows, and of columns, of the board.
pub const BOARD_SIZE: usize = 3;

/// A player's mark.
pub open spec fn is_player(c: char) -> bool {
    c == PLAYER_X || c == PLAYER_O
}

/// The mark of the other player.
pub open spec fn other_player(p: char) -> char {
    if p == PLAYER_X {
        PLAYER_O
    } else {
        PLAYER_X
    }
}

/// The square grid of a game, each cell empty or holding a player's mark.
#[derive(Clone, Copy)]
pub struct Board {
    cells: [[char; BOARD_SIZE]; BOARD_SIZE],
}

impl View for Board {
    /// The grid, row by row.
    type V = Seq<Seq<char>>;

    closed spec fn view(&self) -> Seq<Seq<char>> {
        Seq::new(BOARD_SIZE as nat, |r: int| self.cells[r]@)
    }
}

/// Row and column both lie on the board.
pub open spec fn in_bounds(row: int, col: int) -> bool {
    0 <= row < BOARD_SIZE && 0 <= col < BOARD_SIZE
}

/// Position of the `i`-th cell of line `k`: lines `0..N` are the rows, `N..2N`
/// the columns, `2N` the main diagonal and `2N + 1` the anti-diagonal.
pub open spec fn line_cell(k: int, i: int) -> (int, int) {
    let n = BOARD_SIZE as int;
    if k < n {
        (k, i)
    } else if k < 2 * n {
        (i, k - n)
    } else if k == 2 * n {
        (i, i)
    } else {
        (i, n - 1 - i)
    }
}

/// Number of lines on which a player can win.
pub open spec fn num_lines() -> int {
    2 * BOARD_SIZE + 2
}

/// Position of the `i`-th cell of line `k`.
fn line_position(k: usize, i: usize) -> (rc: (usize, usize))
    requires
        k < num_lines(),
        i < BOARD_SIZE,
    ensures
        rc.0 as int == line_cell(k as int, i as int).0,
        rc.1 as int == line_cell(k as int, i as int).1,
        in_bounds(rc.0 as int, rc.1 as int),
{
    if k < BOARD_SIZE {
        (k, i)
    } else if k < 2 * BOARD_SIZE {
        (i, k - BOARD_SIZE)
    } else if k == 2 * BOARD_SIZE {
        (i, i)
    } else {
        (i, BOARD_SIZE - 1 - i)
    }
}

/// The dashed rule drawn above each row and below the last one.
pub open spec fn rule_text() -> Seq<char> {
    Seq::new(4 * BOARD_SIZE as nat + 1, |i: int| '-').push('\n')
}

/// A cell drawn with a space on each side and a closing bar.
pub open spec fn cell_text(c: char) -> Seq<char> {
    seq![' ', c, ' ', '|']
}

/// The first `k` cells of a row, drawn one after the other.
pub open spec fn cells_text(row: Seq<char>, k: nat) -> Seq<char>
    decreases k,
{
    if k == 0 {
        Seq::empty()
    } else {
        cells_text(row, (k - 1) as nat) + cell_text(row[k - 1])
    }
}

/// One row of the grid: an opening bar, its cells, and a line break.
pub open spec fn row_text(row: Seq<char>) -> Seq<char> {
    seq!['|'] + cells_text(row, BOARD_SIZE as nat) + seq!['\n']
}

/// The first `k` rows of a grid, each below a rule.
pub open spec fn rows_text(grid: Seq<Seq<char>>, k: nat) -> Seq<char>
    decreases k,
{
    if k == 0 {
        Seq::empty()
    } else {
        rows_text(grid, (k - 1) as nat) + rule_text() + row_text(grid[k - 1])
    }
}

/// The whole grid as text: every row below a rule, and a closing rule.
pub open spec fn grid_text(grid: Seq<Seq<char>>) -> Seq<char> {
    rows_text(grid, BOARD_SIZE as nat) + rule_text()
}

/// The dashed rule as a string.
fn rule_str() -> (s: &'static str)
    ensures
        s@ == rule_text(),
{
    proof {
        reveal_strlit("-------------\n");
    }
    let s = "-------------\n";
    assert(s@ =~= rule_text());
    s
}

/// A cell as a string.
fn cell_str(c: char) -> (s: &'static str)
    requires
        c == EMPTY || is_player(c),
    ensures
        s@ == cell_text(c),
{
    proof {
        reveal_strlit(" X |");
        reveal_strlit(" O |");
        reveal_strlit("   |");
    }
    if c == PLAYER_X {
        assert(" X |"@ =~= cell_text(c));
        " X |"
    } else if c == PLAYER_O {
        assert(" O |"@ =~= cell_text(c));
        " O |"
    } else {
        assert("   |"@ =~= cell_text(c));
        "   |"
    }
}

impl Board {
    /// What the cell at `(row, col)` holds.
    pub open spec fn cell(&self, row: int, col: int) -> char {
        self@[row][col]
    }

    /// Every cell is empty or holds a player's mark.
    pub open spec fn wf(&self) -> bool {
        forall|r: int, c: int|
            in_bounds(r, c) ==> #[trigger] self.cell(r, c) == EMPTY || is_player(self.cell(r, c))
    }

    /// This board is `before` with `p`'s mark placed at `(row, col)`.
    pub open spec fn follows_move(&self, before: Board, row: int, col: int, p: char) -> bool {
        forall|r: int, c: int|
            in_bounds(r, c) ==> #[trigger] self.cell(r, c) == if r == row && c == col {
                p
            } else {
                before.cell(r, c)
            }
    }

    /// Every cell is empty.
    pub open spec fn is_empty_board(&self) -> bool {
        forall|r: int, c: int| in_bounds(r, c) ==> #[trigger] self.cell(r, c) == EMPTY
    }

    /// A move at `(row, col)` lies on the board and targets an empty cell.
    pub open spec fn valid_move(&self, row: int, col: int) -> bool {
        in_bounds(row, col) && self.cell(row, col) == EMPTY
    }

    /// Creates a board whose cells are all empty.
    pub fn new() -> (b: Board)
        ensures
            b.wf(),
            b.is_empty_board(),
    {
        Board { cells: [[EMPTY; BOARD_SIZE]; BOARD_SIZE] }
    }

    /// Tells whether `(row, col)` is on the board and its cell is empty.
    pub fn is_valid_move(&self, row: usize, col: usize) -> (r: bool)
        ensures
            r == self.valid_move(row as int, col as int),
    {
        row < BOARD_SIZE && col < BOARD_SIZE && self.cells[row][col] == EMPTY
    }
    /// Every cell of line `k` holds `p`.
    pub open spec fn line_filled_by(&self, k: int, p: char) -> bool {
        forall|i: int| #![auto] 0 <= i < BOARD_SIZE ==> self.cell(line_cell(k, i).0, line_cell(k, i).1) == p
    }

    /// Some row, column or diagonal consists of `p`'s marks alone.
    pub open spec fn wins(&self, p: char) -> bool {
        exists|k: int| 0 <= k < num_lines() && #[trigger] self.line_filled_by(k, p)
    }

    /// No cell is empty.
    pub open spec fn is_full(&self) -> bool {
        forall|r: int, c: int| in_bounds(r, c) ==> #[trigger] self.cell(r, c) != EMPTY
    }

    /// Places `player`'s mark at `(row, col)`, which must be a valid move.
    pub fn make_move(&mut self, row: usize, col: usize, player: char)
        requires
            old(self).wf(),
            old(self).valid_move(row as int, col as int),
            is_player(player),
        ensures
            final(self).wf(),
            final(self).follows_move(*old(self), row as int, col as int, player),
    {
        self.cells[row][col] = player;
        assert forall|r: int, c: int| in_bounds(r, c) implies #[trigger] self.cell(r, c) == if r
            == row && c == col {
            player
        } else {
            old(self).cell(r, c)
        } by {
            assert(self@[r] == self.cells[r]@);
            assert(old(self)@[r] == old(self).cells[r]@);
        }
    }

    /// Tells whether every cell of line `k` holds `player`.
    fn line_is(&self, k: usize, player: char) -> (r: bool)
        requires
            k < num_lines(),
        ensures
            r == self.line_filled_by(k as int, player),
    {
        let mut i: usize = 0;
        while i < BOARD_SIZE
            invariant
                i <= BOARD_SIZE,
                k < num_lines(),
                forall|j: int|
                    #![auto]
                    0 <= j < i ==> self.cell(line_cell(k as int, j).0, line_cell(k as int, j).1)
                        == player,
            decreases BOARD_SIZE - i,
        {
            let (r, c) = line_position(k, i);
            if self.cells[r][c] != player {
                return false;
            }
            i += 1;
        }
        true
    }

    /// Tells whether some row, column or diagonal is filled with `player`'s marks.
    pub fn is_winner(&self, player: char) -> (r: bool)
        ensures
            r == self.wins(player),
    {
        let mut k: usize = 0;
        while k < 2 * BOARD_SIZE + 2
            invariant
                k <= num_lines(),
                forall|j: int| 0 <= j < k ==> !#[trigger] self.line_filled_by(j, player),
            decreases num_lines() - k,
        {
            if self.line_is(k, player) {
                return true;
            }
            k += 1;
        }
        false
    }

    /// Tells whether every cell holds a mark.
    pub fn is_draw(&self) -> (r: bool)
        ensures
            r == self.is_full(),
    {
        let mut row: usize = 0;
        while row < BOARD_SIZE
            invariant
                row <= BOARD_SIZE,
                forall|r: int, c: int| 0 <= r < row && 0 <= c < BOARD_SIZE ==> #[trigger] self.cell(r, c) != EMPTY,
            decreases BOARD_SIZE - row,
        {
            let mut col: usize = 0;
            while col < BOARD_SIZE
                invariant
                    row < BOARD_SIZE,
                    col <= BOARD_SIZE,
                    forall|r: int, c: int| 0 <= r < row && 0 <= c < BOARD_SIZE ==> #[trigger] self.cell(r, c) != EMPTY,
                    forall|c: int| 0 <= c < col ==> #[trigger] self.cell(row as int, c) != EMPTY,
                decreases BOARD_SIZE - col,
            {
                if self.cells[row][col] == EMPTY {
                    assert(in_bounds(row as int, col as int) && self.cell(row as int, col as int) == EMPTY);
                    return false;
                }
                col += 1;
            }
            row += 1;
        }
        true
    }
    /// Draws the board as text, one row per line between dashed rules.
    pub fn render(&self) -> (out: String)
        requires
            self.wf(),
        ensures
            out@ == grid_text(self@),
    {
        let mut out = String::new();
        let mut row: usize = 0;
        while row < BOARD_SIZE
            invariant
                row <= BOARD_SIZE,
                self.wf(),
                out@ == rows_text(self@, row as nat),
            decreases BOARD_SIZE - row,
        {
            out.append(rule_str());
            proof {
                reveal_strlit("|");
            }
            out.append("|");
            assert(out@ =~= rows_text(self@, row as nat) + rule_text() + seq!['|'] + cells_text(
                self@[row as int],
                0,
            ));
            let mut col: usize = 0;
            while col < BOARD_SIZE
                invariant
                    row < BOARD_SIZE,
                    col <= BOARD_SIZE,
                    self.wf(),
                    out@ == rows_text(self@, row as nat) + rule_text() + seq!['|'] + cells_text(
                        self@[row as int],
                        col as nat,
                    ),
                decreases BOARD_SIZE - col,
            {
                let c = self.cells[row][col];
                assert(in_bounds(row as int, col as int) && c == self.cell(row as int, col as int));
                out.append(cell_str(c));
                assert(out@ =~= rows_text(self@, row as nat) + rule_text() + seq!['|'] + cells_text(
                    self@[row as int],
                    (col + 1) as nat,
                ));
                col += 1;
            }
            proof {
                reveal_strlit("\n");
            }
            out.append("\n");
            assert(out@ =~= rows_text(self@, (row + 1) as nat));
            row += 1;
        }
        out.append(rule_str());
        out
    }
}

/// An empty board shows no winner and is not full.
pub proof fn lemma_empty_board_undecided(b: Board, p: char)
    requires
        b.is_empty_board(),
        is_player(p),
    ensures
        !b.wins(p),
        !b.is_full(),
{
    assert(in_bounds(0, 0));
    assert(b.cell(0, 0) == EMPTY);
    assert forall|k: int| 0 <= k < num_lines() implies !#[trigger] b.line_filled_by(k, p) by {
        let (r, c) = line_cell(k, 0);
        assert(in_bounds(r, c));
        assert(b.cell(r, c) == EMPTY);
    }
}

} // verus!
