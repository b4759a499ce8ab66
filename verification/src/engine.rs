//! The game engine: board state, turn state and win/tie detection.

use vstd::prelude::*;

verus! {

broadcast use vstd::array::group_array_axioms;

/// One of the two players, named after the mark it places.
#[derive(Clone, Copy, Debug, PartialEq, Eq, Structural)]
pub enum Player {
    X,
    O,
}

/// A single cell of the 3x3 board: empty, or marked by one player.
#[derive(Clone, Copy, Debug, PartialEq, Eq, Structural)]
pub enum Cell {
    Empty,
    Marked(Player),
}

/// The engine's lifecycle stage.
#[derive(Clone, Copy, Debug, PartialEq, Eq, Structural)]
pub enum Phase {
    InProgress,
    Won,
    Tied,
}

/// The player whose turn comes after `p`'s.
pub open spec fn other_player(p: Player) -> Player {
    match p {
        Player::X => Player::O,
        Player::O => Player::X,
    }
}

/// Mathematical model of the whole game state: the nine cells in row-major
/// order, the player to move, and the phase.
#[verifier::ext_equal]
pub ghost struct GameModel {
    pub grid: Seq<Cell>,
    pub turn: Player,
    pub phase: Phase,
}

/// The cell of model `m` at row `r`, column `c` (row-major order).
pub open spec fn cell_at(m: GameModel, r: int, c: int) -> Cell {
    m.grid[r * 3 + c]
}

/// The state every game starts from: empty board, X to move, in progress.
pub open spec fn initial_model() -> GameModel {
    GameModel { grid: Seq::new(9, |i: int| Cell::Empty), turn: Player::X, phase: Phase::InProgress }
}

/// Whether a move on `(r, c)` is accepted by model `m`: the game must still
/// be in progress and the addressed cell must be empty.
pub open spec fn move_accepted(m: GameModel, r: int, c: int) -> bool {
    m.phase is InProgress && cell_at(m, r, c) is Empty
}

/// The model after an accepted move on `(r, c)`: the cell takes the mover's
/// mark, the turn passes to the other player, the phase is untouched.
pub open spec fn model_after_move(m: GameModel, r: int, c: int) -> GameModel {
    GameModel {
        grid: m.grid.update(r * 3 + c, Cell::Marked(m.turn)),
        turn: other_player(m.turn),
        phase: m.phase,
    }
}

/// What a move attempt came to: either the mark was placed by the carried
/// player, or the attempt was a no-op.
#[derive(Clone, Copy, Debug, PartialEq, Eq, Structural)]
pub enum MoveResult {
    Accepted(Player),
    Rejected,
}

/// A board coordinate: row and column, each in 0..3.
#[derive(Clone, Copy, Debug, PartialEq, Eq, Structural)]
pub struct Coord {
    pub row: usize,
    pub col: usize,
}

/// The three coordinates of a winning line, in the order the line is read:
/// a row left to right, a column top to bottom, or a diagonal from its
/// topmost cell.
#[derive(Clone, Copy, Debug, PartialEq, Eq, Structural)]
pub struct WinLine {
    pub first: Coord,
    pub second: Coord,
    pub third: Coord,
}

/// What an evaluation of the board came to: the game goes on, one player has
/// a full line, or the board is full with no line.
#[derive(Clone, Copy, Debug, PartialEq, Eq, Structural)]
pub enum Outcome {
    Undecided,
    Win(Player, WinLine),
    Tie,
}

/// The `k`-th coordinate (k in 0..3) of line `l`, in the fixed tie-break
/// order: lines 0..3 are the rows top to bottom, 3..6 the columns left to
/// right, 6 the main diagonal, 7 the anti-diagonal.
pub open spec fn line_cell(l: int, k: int) -> (int, int) {
    if l < 3 {
        (l, k)
    } else if l < 6 {
        (k, l - 3)
    } else if l == 6 {
        (k, k)
    } else {
        (k, 2 - k)
    }
}

/// Whether line `l` is fully one non-empty mark in model `m`.
pub open spec fn line_won(m: GameModel, l: int) -> bool {
    let c0 = cell_at(m, line_cell(l, 0).0, line_cell(l, 0).1);
    let c1 = cell_at(m, line_cell(l, 1).0, line_cell(l, 1).1);
    let c2 = cell_at(m, line_cell(l, 2).0, line_cell(l, 2).1);
    c0 is Marked && c0 == c1 && c1 == c2
}

/// The player holding cell `c`; arbitrary fallback on an empty cell.
pub open spec fn mark_of(c: Cell) -> Player
    recommends
        c is Marked,
{
    match c {
        Cell::Marked(p) => p,
        Cell::Empty => Player::X,
    }
}

/// The player whose mark fills line `l` of model `m`.
pub open spec fn line_player(m: GameModel, l: int) -> Player {
    mark_of(cell_at(m, line_cell(l, 0).0, line_cell(l, 0).1))
}

/// Whether some row, column or diagonal is fully one non-empty mark.
pub open spec fn has_win(m: GameModel) -> bool {
    exists|l: int| 0 <= l < 8 && line_won(m, l)
}

/// The least line index at or after `l` that is won, or 8 if none is.
pub open spec fn first_win_from(m: GameModel, l: int) -> int
    decreases 8 - l,
{
    if l >= 8 {
        8
    } else if line_won(m, l) {
        l
    } else {
        first_win_from(m, l + 1)
    }
}

/// The first won line in the tie-break order of `line_cell`.
pub open spec fn first_win_line(m: GameModel) -> int {
    first_win_from(m, 0)
}

/// The coordinates of line `l`, packaged for reporting a win.
pub open spec fn spec_win_line(l: int) -> WinLine {
    WinLine {
        first: Coord { row: line_cell(l, 0).0 as usize, col: line_cell(l, 0).1 as usize },
        second: Coord { row: line_cell(l, 1).0 as usize, col: line_cell(l, 1).1 as usize },
        third: Coord { row: line_cell(l, 2).0 as usize, col: line_cell(l, 2).1 as usize },
    }
}

/// Whether every cell of model `m` is marked.
pub open spec fn board_full(m: GameModel) -> bool {
    forall|i: int| 0 <= i < 9 ==> m.grid[i] is Marked
}

/// Skipping over lines that are not won leaves the first won line unchanged.
proof fn lemma_first_win_skip(m: GameModel, k: int, l: int)
    requires
        0 <= k <= l <= 8,
        forall|j: int| k <= j < l ==> !line_won(m, j),
    ensures
        first_win_from(m, k) == first_win_from(m, l),
    decreases l - k,
{
    if k < l {
        assert(!line_won(m, k));
        lemma_first_win_skip(m, k + 1, l);
    }
}

/// A won line with no won line before it is the first won line.
proof fn lemma_first_win_at(m: GameModel, l: int)
    requires
        0 <= l < 8,
        line_won(m, l),
        forall|j: int| 0 <= j < l ==> !line_won(m, j),
    ensures
        first_win_line(m) == l,
        has_win(m),
{
    lemma_first_win_skip(m, 0, l);
}

/// The authoritative game state. Mutated only through its own methods.
pub struct GameState {
    cells: [Cell; 9],
    turn: Player,
    phase: Phase,
}

impl View for GameState {
    type V = GameModel;

    closed spec fn view(&self) -> GameModel {
        GameModel { grid: self.cells@, turn: self.turn, phase: self.phase }
    }
}

impl GameState {
    /// Creates a fresh game in the initial state.
    pub fn new() -> (s: GameState)
        ensures
            s@ == initial_model(),
    {
        let s = GameState { cells: [Cell::Empty; 9], turn: Player::X, phase: Phase::InProgress };
        proof {
            assert(s@.grid =~= initial_model().grid);
            assert(s@ =~= initial_model());
        }
        s
    }

    /// Attempts a move on `(row, col)` for the player whose turn it is.
    ///
    /// A move on an occupied cell, or after the game has ended, is an
    /// expected no-op: the state is left untouched and the attempt is
    /// reported as rejected. Otherwise the cell takes the mover's mark and
    /// the turn flips.
    pub fn apply_move(&mut self, row: usize, col: usize) -> (r: MoveResult)
        requires
            row < 3,
            col < 3,
        ensures
            move_accepted(old(self)@, row as int, col as int) ==> r == MoveResult::Accepted(
                old(self)@.turn,
            ),
            move_accepted(old(self)@, row as int, col as int) ==> final(self)@ == model_after_move(
                old(self)@,
                row as int,
                col as int,
            ),
            !move_accepted(old(self)@, row as int, col as int) ==> r == MoveResult::Rejected,
            !move_accepted(old(self)@, row as int, col as int) ==> final(self)@ == old(self)@,
    {
        let idx: usize = row * 3 + col;
        if self.phase == Phase::InProgress && self.cells[idx] == Cell::Empty {
            let mover = self.turn;
            self.cells[idx] = Cell::Marked(mover);
            self.turn = match mover {
                Player::X => Player::O,
                Player::O => Player::X,
            };
            proof {
                assert(self@ =~= model_after_move(old(self)@, row as int, col as int));
            }
            MoveResult::Accepted(mover)
        } else {
            MoveResult::Rejected
        }
    }

    /// Pure read: the first winning line in tie-break order, with the player
    /// holding it, or nothing when no line is fully one mark.
    pub fn find_winner(&self) -> (r: Option<(Player, WinLine)>)
        ensures
            r is Some <==> has_win(self@),
            r matches Some(pw) ==> pw.0 == line_player(self@, first_win_line(self@)),
            r matches Some(pw) ==> pw.1 == spec_win_line(first_win_line(self@)),
            r matches Some(pw) ==> line_won(self@, first_win_line(self@)),
    {
        for i in 0..3
            invariant
                forall|l: int| 0 <= l < i ==> !line_won(self@, l),
        {
            let c0 = self.cells[3 * i];
            if let Cell::Marked(p) = c0 {
                if self.cells[3 * i + 1] == c0 && self.cells[3 * i + 2] == c0 {
                    proof {
                        assert(line_won(self@, i as int));
                        lemma_first_win_at(self@, i as int);
                    }
                    return Some(
                        (
                            p,
                            WinLine {
                                first: Coord { row: i, col: 0 },
                                second: Coord { row: i, col: 1 },
                                third: Coord { row: i, col: 2 },
                            },
                        ),
                    );
                }
            }
            proof {
                assert(!line_won(self@, i as int));
            }
        }
        for j in 0..3
            invariant
                forall|l: int| 0 <= l < 3 + j ==> !line_won(self@, l),
        {
            let c0 = self.cells[j];
            if let Cell::Marked(p) = c0 {
                if self.cells[3 + j] == c0 && self.cells[6 + j] == c0 {
                    proof {
                        assert(line_won(self@, 3 + j as int));
                        lemma_first_win_at(self@, 3 + j as int);
                    }
                    return Some(
                        (
                            p,
                            WinLine {
                                first: Coord { row: 0, col: j },
                                second: Coord { row: 1, col: j },
                                third: Coord { row: 2, col: j },
                            },
                        ),
                    );
                }
            }
            proof {
                assert(!line_won(self@, 3 + j as int));
            }
        }
        let c0 = self.cells[0];
        if let Cell::Marked(p) = c0 {
            if self.cells[4] == c0 && self.cells[8] == c0 {
                proof {
                    assert(line_won(self@, 6));
                    lemma_first_win_at(self@, 6);
                }
                return Some(
                    (
                        p,
                        WinLine {
                            first: Coord { row: 0, col: 0 },
                            second: Coord { row: 1, col: 1 },
                            third: Coord { row: 2, col: 2 },
                        },
                    ),
                );
            }
        }
        proof {
            assert(!line_won(self@, 6));
        }
        let a0 = self.cells[2];
        if let Cell::Marked(p) = a0 {
            if self.cells[4] == a0 && self.cells[6] == a0 {
                proof {
                    assert(line_won(self@, 7));
                    lemma_first_win_at(self@, 7);
                }
                return Some(
                    (
                        p,
                        WinLine {
                            first: Coord { row: 0, col: 2 },
                            second: Coord { row: 1, col: 1 },
                            third: Coord { row: 2, col: 0 },
                        },
                    ),
                );
            }
        }
        proof {
            assert(!line_won(self@, 7));
            assert(!has_win(self@));
        }
        None
    }

    /// Pure read: whether every cell of the board is marked.
    pub fn is_full(&self) -> (r: bool)
        ensures
            r == board_full(self@),
    {
        for i in 0..9
            invariant
                forall|j: int| 0 <= j < i ==> self@.grid[j] is Marked,
        {
            if self.cells[i] == Cell::Empty {
                proof {
                    assert(!(self@.grid[i as int] is Marked));
                }
                return false;
            }
        }
        true
    }

    /// Evaluates the current board for a terminal condition, in the fixed
    /// tie-break order of `line_cell`, and moves the phase accordingly: a won
    /// line yields `Win` and the `Won` phase, a full board with no won line
    /// yields `Tie` and the `Tied` phase, anything else leaves the state
    /// untouched. The board and the turn are never changed.
    pub fn evaluate(&mut self) -> (r: Outcome)
        ensures
            final(self)@.grid == old(self)@.grid,
            final(self)@.turn == old(self)@.turn,
            r is Win <==> has_win(old(self)@),
            has_win(old(self)@) ==> r == Outcome::Win(
                line_player(old(self)@, first_win_line(old(self)@)),
                spec_win_line(first_win_line(old(self)@)),
            ),
            has_win(old(self)@) ==> final(self)@.phase == Phase::Won,
            r == Outcome::Tie <==> !has_win(old(self)@) && board_full(old(self)@),
            !has_win(old(self)@) && board_full(old(self)@) ==> final(self)@.phase == Phase::Tied,
            !has_win(old(self)@) && !board_full(old(self)@) ==> r == Outcome::Undecided
                && final(self)@ == old(self)@,
    {
        match self.find_winner() {
            Some((p, line)) => {
                self.phase = Phase::Won;
                Outcome::Win(p, line)
            },
            None => {
                if self.is_full() {
                    self.phase = Phase::Tied;
                    Outcome::Tie
                } else {
                    Outcome::Undecided
                }
            },
        }
    }

    /// Unconditionally restores the initial state.
    pub fn reset(&mut self)
        ensures
            final(self)@ == initial_model(),
    {
        self.cells = [Cell::Empty; 9];
        self.turn = Player::X;
        self.phase = Phase::InProgress;
        proof {
            assert(self@.grid =~= initial_model().grid);
            assert(self@ =~= initial_model());
        }
    }

    /// Pure read: the cell at `(row, col)`.
    pub fn cell(&self, row: usize, col: usize) -> (r: Cell)
        requires
            row < 3,
            col < 3,
        ensures
            r == cell_at(self@, row as int, col as int),
    {
        self.cells[row * 3 + col]
    }

    /// Pure read: the player whose turn it is.
    pub fn turn(&self) -> (r: Player)
        ensures
            r == self@.turn,
    {
        self.turn
    }

    /// Pure read: the current lifecycle phase.
    pub fn phase(&self) -> (r: Phase)
        ensures
            r == self@.phase,
    {
        self.phase
    }
}

impl Player {
    /// The glyph a cell displays for this player's mark.
    pub fn glyph(&self) -> (r: char)
        ensures
            *self is X ==> r == 'X',
            *self is O ==> r == 'O',
    {
        match self {
            Player::X => 'X',
            Player::O => 'O',
        }
    }
}

} // verus!
