use vstd::prelude::*;

verus! {

/// The text a tile is drawn with.
pub open spec fn tile_text(t: Tile) -> Seq<char> {
    match t {
        Tile::O => "O"@,
        Tile::X => "X"@,
        Tile::Empty => " "@,
    }
}

/// One cell of the board.
#[derive(Clone, Copy, Debug, PartialEq, Eq, Structural)]
pub enum Tile {
    O,
    X,
    Empty,
}

impl Tile {
    /// The text a cell is drawn with.
    pub fn to_string(&self) -> (r: &'static str)
        ensures
            r@ == tile_text(*self),
    {
        match self {
            Tile::O => "O",
            Tile::X => "X",
            Tile::Empty => " ",
        }
    }
}

/// The result of evaluating a board.
#[derive(Clone, Copy, Debug, PartialEq, Eq, Structural)]
pub enum Outcome {
    /// O, the human, has three in a line.
    FirstPlayerWins,
    /// X, the computer, has three in a line.
    SecondPlayerWins,
    Undecided,
}

/// Why a move was refused.
#[derive(Clone, Copy, Debug, PartialEq, Eq, Structural)]
pub enum MoveError {
    /// The index lies outside `0..9`.
    InvalidIndexError,
    /// The cell already holds a mark.
    CellOccupiedError,
}

/// Cells `a`, `b` and `c` all hold `t`.
pub open spec fn line(s: Seq<Tile>, a: int, b: int, c: int, t: Tile) -> bool {
    s[a] == t && s[b] == t && s[c] == t
}

pub open spec fn row_win(s: Seq<Tile>, t: Tile) -> bool {
    line(s, 0, 1, 2, t) || line(s, 3, 4, 5, t) || line(s, 6, 7, 8, t)
}

pub open spec fn column_win(s: Seq<Tile>, t: Tile) -> bool {
    line(s, 0, 3, 6, t) || line(s, 1, 4, 7, t) || line(s, 2, 5, 8, t)
}

pub open spec fn diagonal_win(s: Seq<Tile>, t: Tile) -> bool {
    line(s, 0, 4, 8, t) || line(s, 2, 4, 6, t)
}

/// `t` holds one of the eight winning lines.
pub open spec fn has_line(s: Seq<Tile>, t: Tile) -> bool {
    row_win(s, t) || column_win(s, t) || diagonal_win(s, t)
}

/// The score of a board for the computer: rows are looked at before columns,
/// columns before diagonals, and within each group O before X.
pub open spec fn score(s: Seq<Tile>) -> int {
    if row_win(s, Tile::O) {
        -1
    } else if row_win(s, Tile::X) {
        1
    } else if column_win(s, Tile::O) {
        -1
    } else if column_win(s, Tile::X) {
        1
    } else if diagonal_win(s, Tile::O) {
        -1
    } else if diagonal_win(s, Tile::X) {
        1
    } else {
        0
    }
}

/// No cell is empty.
pub open spec fn is_full(s: Seq<Tile>) -> bool {
    forall|i: int| 0 <= i < s.len() ==> s[i] != Tile::Empty
}

/// The score a player's win is reported with.
pub open spec fn win_score(t: Tile) -> int {
    if t == Tile::O {
        -1
    } else {
        1
    }
}

pub open spec fn opponent(t: Tile) -> Tile {
    if t == Tile::O {
        Tile::X
    } else {
        Tile::O
    }
}

/// A player who holds a full line, while the other holds none, is the one the
/// board is scored as won for.
pub proof fn lemma_line_wins(s: Seq<Tile>, t: Tile)
    requires
        s.len() == 9,
        t != Tile::Empty,
        has_line(s, t),
        !has_line(s, opponent(t)),
    ensures
        score(s) == win_score(t),
{
}

/// The board: nine cells in row-major order (`index == row * 3 + column`).
#[derive(Clone, Debug)]
pub struct Game {
    pub tiles: Vec<Tile>,
}

impl View for Game {
    type V = Seq<Tile>;

    open spec fn view(&self) -> Seq<Tile> {
        self.tiles@
    }
}

impl Game {
    /// A board always has exactly nine cells.
    pub open spec fn wf(&self) -> bool {
        self@.len() == 9
    }

    /// An empty board.
    pub fn new() -> (r: Self)
        ensures
            r.wf(),
            r@ == Seq::new(9, |i: int| Tile::Empty),
            score(r@) == 0,
            !is_full(r@),
    {
        let r = Game { tiles: vec![Tile::Empty; 9] };
        assert(r@ =~= Seq::new(9, |i: int| Tile::Empty));
        assert(r@[0] == Tile::Empty);
        r
    }

    fn cell_is(&self, i: usize, t: Tile) -> (r: bool)
        requires
            self.wf(),
            i < 9,
        ensures
            r == (self@[i as int] == t),
    {
        self.tiles[i] == t
    }

    fn line_is(&self, a: usize, b: usize, c: usize, t: Tile) -> (r: bool)
        requires
            self.wf(),
            a < 9,
            b < 9,
            c < 9,
        ensures
            r == line(self@, a as int, b as int, c as int, t),
    {
        self.cell_is(a, t) && self.cell_is(b, t) && self.cell_is(c, t)
    }

    fn any_row(&self, t: Tile) -> (r: bool)
        requires
            self.wf(),
        ensures
            r == row_win(self@, t),
    {
        self.line_is(0, 1, 2, t) || self.line_is(3, 4, 5, t) || self.line_is(6, 7, 8, t)
    }

    fn any_column(&self, t: Tile) -> (r: bool)
        requires
            self.wf(),
        ensures
            r == column_win(self@, t),
    {
        self.line_is(0, 3, 6, t) || self.line_is(1, 4, 7, t) || self.line_is(2, 5, 8, t)
    }

    /// The board's score: `-1` when O has won, `1` when X has won, `0` when
    /// neither has a line. Where both have one, rows decide before columns and
    /// columns before diagonals.
    pub fn evaluate(&self) -> (r: i32)
        requires
            self.wf(),
        ensures
            r == score(self@),
    {
        if self.any_row(Tile::O) {
            return -1;
        }
        if self.any_row(Tile::X) {
            return 1;
        }
        if self.any_column(Tile::O) {
            return -1;
        }
        if self.any_column(Tile::X) {
            return 1;
        }
        if self.line_is(0, 4, 8, Tile::O) || self.line_is(2, 4, 6, Tile::O) {
            return -1;
        }
        if self.line_is(0, 4, 8, Tile::X) || self.line_is(2, 4, 6, Tile::X) {
            return 1;
        }
        0
    }

    /// The evaluation as an outcome.
    pub fn outcome(&self) -> (r: Outcome)
        requires
            self.wf(),
        ensures
            r == Outcome::FirstPlayerWins <==> score(self@) == -1,
            r == Outcome::SecondPlayerWins <==> score(self@) == 1,
            r == Outcome::Undecided <==> score(self@) == 0,
    {
        let s = self.evaluate();
        if s < 0 {
            Outcome::FirstPlayerWins
        } else if s > 0 {
            Outcome::SecondPlayerWins
        } else {
            Outcome::Undecided
        }
    }

    /// The cell at `index`, for writing; `None` outside `0..9`.
    pub fn get_mut(&mut self, index: i32) -> (r: Option<&mut Tile>)
        requires
            old(self).wf(),
        ensures
            (0 <= index < 9) == r.is_some(),
            r.is_none() ==> *final(self) == *old(self),
            r matches Some(t) ==> {
                &&& *t == old(self)@[index as int]
                &&& final(self)@ == old(self)@.update(index as int, *final(t))
            },
    {
        if 0 <= index && index < 9 {
            Some(&mut self.tiles[index as usize])
        } else {
            None
        }
    }

    /// Puts `player`'s mark on the empty cell at `index`. A board whose cell is
    /// taken, or an index outside `0..9`, is refused and left as it was.
    pub fn apply_move(&mut self, index: i32, player: Tile) -> (r: Result<(), MoveError>)
        requires
            old(self).wf(),
            player != Tile::Empty,
        ensures
            final(self).wf(),
            !(0 <= index < 9) ==> r == Err::<(), MoveError>(MoveError::InvalidIndexError),
            0 <= index < 9 && old(self)@[index as int] != Tile::Empty ==> r == Err::<
                (),
                MoveError,
            >(MoveError::CellOccupiedError),
            0 <= index < 9 && old(self)@[index as int] == Tile::Empty ==> r == Ok::<(), MoveError>(
                (),
            ),
            r.is_ok() ==> final(self)@ == old(self)@.update(index as int, player),
            r.is_err() ==> final(self)@ == old(self)@,
    {
        if index < 0 || index > 8 {
            return Err(MoveError::InvalidIndexError);
        }
        let i = index as usize;
        if self.tiles[i] != Tile::Empty {
            return Err(MoveError::CellOccupiedError);
        }
        self.tiles.set(i, player);
        Ok(())
    }

    /// True when no cell is empty.
    pub fn is_full(&self) -> (r: bool)
        ensures
            r == is_full(self@),
    {
        let mut i: usize = 0;
        while i < self.tiles.len()
            invariant
                0 <= i <= self@.len(),
                forall|k: int| 0 <= k < i ==> self@[k] != Tile::Empty,
            decreases self@.len() - i,
        {
            if self.tiles[i] == Tile::Empty {
                return false;
            }
            i += 1;
        }
        true
    }
}

} // verus!
