use vstd::prelude::*;

use crate::board::{is_full, score, Game, Tile};

verus! {

/// The number of empty cells.
pub open spec fn empty_count(s: Seq<Tile>) -> nat
    decreases s.len(),
{
    if s.len() == 0 {
        0
    } else {
        empty_count(s.drop_last()) + if s.last() == Tile::Empty {
            1nat
        } else {
            0nat
        }
    }
}

/// Marking an empty cell leaves one empty cell fewer.
pub proof fn lemma_mark_removes_one_empty(s: Seq<Tile>, i: int, t: Tile)
    requires
        0 <= i < s.len(),
        s[i] == Tile::Empty,
        t != Tile::Empty,
    ensures
        empty_count(s.update(i, t)) + 1 == empty_count(s),
    decreases s.len(),
{
    if i == s.len() - 1 {
        assert(s.update(i, t).drop_last() =~= s.drop_last());
    } else {
        lemma_mark_removes_one_empty(s.drop_last(), i, t);
        assert(s.update(i, t).drop_last() =~= s.drop_last().update(i, t));
    }
}

/// The mark of the side to move.
pub open spec fn mark(computer_turn: bool) -> Tile {
    if computer_turn {
        Tile::X
    } else {
        Tile::O
    }
}

/// The minimax value of a board for the computer, with `computer_turn` telling
/// who moves next. A won or full board is worth its score; otherwise the
/// computer takes the greatest value over its moves and the human the least.
pub open spec fn minimax(s: Seq<Tile>, computer_turn: bool) -> int
    decreases empty_count(s), s.len() + 1,
{
    if score(s) != 0 || is_full(s) {
        score(s)
    } else {
        best_upto(s, s.len() as int, computer_turn)
    }
}

/// The best value for the side to move over its moves on cells `0..n`,
/// starting from `-1` for the computer and from `1` for the human.
pub open spec fn best_upto(s: Seq<Tile>, n: int, computer_turn: bool) -> int
    decreases empty_count(s), n,
{
    if n <= 0 || n > s.len() {
        if computer_turn {
            -1
        } else {
            1
        }
    } else {
        let prev = best_upto(s, n - 1, computer_turn);
        if s[n - 1] == Tile::Empty {
            proof {
                lemma_mark_removes_one_empty(s, n - 1, mark(computer_turn));
            }
            let v = minimax(s.update(n - 1, mark(computer_turn)), !computer_turn);
            if computer_turn {
                if v > prev {
                    v
                } else {
                    prev
                }
            } else {
                if v < prev {
                    v
                } else {
                    prev
                }
            }
        } else {
            prev
        }
    }
}

/// The value to the computer of putting its mark on cell `i`, the human to
/// move after it.
pub open spec fn move_value(s: Seq<Tile>, i: int) -> int {
    minimax(s.update(i, Tile::X), false)
}

/// Cell `i` is the computer's best move: it is empty, no empty cell is worth
/// more, and every empty cell before it is worth strictly less.
pub open spec fn is_best_move(s: Seq<Tile>, i: int) -> bool {
    &&& 0 <= i < s.len()
    &&& s[i] == Tile::Empty
    &&& forall|j: int|
        0 <= j < s.len() && s[j] == Tile::Empty ==> move_value(s, j) <= move_value(s, i)
    &&& forall|j: int| 0 <= j < i && s[j] == Tile::Empty ==> move_value(s, j) < move_value(s, i)
}

/// Every minimax value is a score: `-1`, `0` or `1`.
pub proof fn lemma_minimax_bounds(s: Seq<Tile>, computer_turn: bool)
    ensures
        -1 <= minimax(s, computer_turn) <= 1,
    decreases empty_count(s), s.len() + 1,
{
    if !(score(s) != 0 || is_full(s)) {
        lemma_best_upto_bounds(s, s.len() as int, computer_turn);
    }
}

proof fn lemma_best_upto_bounds(s: Seq<Tile>, n: int, computer_turn: bool)
    ensures
        -1 <= best_upto(s, n, computer_turn) <= 1,
    decreases empty_count(s), n,
{
    if !(n <= 0 || n > s.len()) {
        lemma_best_upto_bounds(s, n - 1, computer_turn);
        if s[n - 1] == Tile::Empty {
            lemma_mark_removes_one_empty(s, n - 1, mark(computer_turn));
            lemma_minimax_bounds(s.update(n - 1, mark(computer_turn)), !computer_turn);
        }
    }
}

/// Over cells `0..n`, the computer's running best is at least the value of
/// every empty cell, and is either the starting `-1` or the value of one of them.
proof fn lemma_best_upto_is_max(s: Seq<Tile>, n: int)
    requires
        0 <= n <= s.len(),
    ensures
        forall|j: int|
            0 <= j < n && s[j] == Tile::Empty ==> move_value(s, j) <= best_upto(s, n, true),
        best_upto(s, n, true) == -1 || exists|j: int|
            0 <= j < n && s[j] == Tile::Empty && move_value(s, j) == best_upto(s, n, true),
    decreases n,
{
    if n > 0 {
        lemma_best_upto_is_max(s, n - 1);
        if s[n - 1] == Tile::Empty {
            lemma_mark_removes_one_empty(s, n - 1, Tile::X);
        }
    }
}

/// On a board that is neither won nor full, the computer's best move is worth
/// exactly the board's minimax value with the computer to move.
pub proof fn lemma_best_move_reaches_minimax(s: Seq<Tile>, i: int)
    requires
        s.len() == 9,
        score(s) == 0,
        !is_full(s),
        is_best_move(s, i),
    ensures
        move_value(s, i) == minimax(s, true),
{
    lemma_best_upto_is_max(s, 9);
    lemma_minimax_bounds(s.update(i, Tile::X), false);
}

impl Game {
    /// A copy of the board with `t` on cell `i`.
    fn placed(&self, i: usize, t: Tile) -> (r: Game)
        requires
            self.wf(),
            i < 9,
        ensures
            r.wf(),
            r@ == self@.update(i as int, t),
    {
        let mut tiles: Vec<Tile> = Vec::new();
        let mut k: usize = 0;
        while k < 9
            invariant
                self.wf(),
                k <= 9,
                i < 9,
                tiles@ == self@.update(i as int, t).take(k as int),
            decreases 9 - k,
        {
            if k == i {
                tiles.push(t);
            } else {
                tiles.push(self.tiles[k]);
            }
            k += 1;
            assert(tiles@ =~= self@.update(i as int, t).take(k as int));
        }
        assert(tiles@ =~= self@.update(i as int, t));
        Game { tiles }
    }

    /// The minimax value of the board for the computer, `computer_turn` saying
    /// whose move comes next.
    pub fn minmax(&self, computer_turn: bool) -> (r: i32)
        requires
            self.wf(),
        ensures
            r == minimax(self@, computer_turn),
        decreases empty_count(self@),
    {
        let current = self.evaluate();
        if current != 0 || self.is_full() {
            return current;
        }
        let side = if computer_turn {
            Tile::X
        } else {
            Tile::O
        };
        let mut best: i32 = if computer_turn {
            -1
        } else {
            1
        };
        let mut i: usize = 0;
        while i < 9
            invariant
                self.wf(),
                i <= 9,
                side == mark(computer_turn),
                score(self@) == 0,
                !is_full(self@),
                best == best_upto(self@, i as int, computer_turn),
            decreases 9 - i,
        {
            if self.tiles[i] == Tile::Empty {
                let game = self.placed(i, side);
                proof {
                    lemma_mark_removes_one_empty(self@, i as int, side);
                }
                let v = game.minmax(!computer_turn);
                if computer_turn {
                    if v > best {
                        best = v;
                    }
                } else {
                    if v < best {
                        best = v;
                    }
                }
            }
            i += 1;
        }
        best
    }

    /// The computer's best move: the first empty cell of greatest minimax value,
    /// the human moving next; `None` when no cell is empty.
    pub fn get_best_move_index(&self) -> (r: Option<usize>)
        requires
            self.wf(),
        ensures
            r.is_none() <==> is_full(self@),
            r matches Some(i) ==> is_best_move(self@, i as int),
    {
        let mut best: Option<usize> = None;
        let mut best_score: i32 = -1;
        let mut i: usize = 0;
        while i < 9
            invariant
                self.wf(),
                i <= 9,
                best.is_none() ==> forall|j: int| 0 <= j < i ==> self@[j] != Tile::Empty,
                best matches Some(b) ==> {
                    &&& b < i
                    &&& self@[b as int] == Tile::Empty
                    &&& best_score == move_value(self@, b as int)
                    &&& forall|j: int|
                        0 <= j < i && self@[j] == Tile::Empty ==> move_value(self@, j)
                            <= best_score
                    &&& forall|j: int|
                        0 <= j < b && self@[j] == Tile::Empty ==> move_value(self@, j)
                            < best_score
                },
            decreases 9 - i,
        {
            if self.tiles[i] == Tile::Empty {
                let game = self.placed(i, Tile::X);
                let v = game.minmax(false);
                if best.is_none() || v > best_score {
                    best = Some(i);
                    best_score = v;
                }
            }
            i += 1;
        }
        best
    }
}

} // verus!
