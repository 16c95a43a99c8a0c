use vstd::prelude::*;

use prettytable::{Cell, Row, Table};

use crate::board::{tile_text, Game, Tile};

verus! {

/// The text that prettytable draws for a table whose rows hold these cell texts.
pub uninterp spec fn grid_text(rows: Seq<Seq<Seq<char>>>) -> Seq<char>;

/// The text of each cell, row by row.
pub open spec fn rows_text(rows: Seq<Vec<&str>>) -> Seq<Seq<Seq<char>>> {
    rows.map_values(|row: Vec<&str>| row@.map_values(|c: &str| c@))
}

/// Every cell text is plain printable ASCII, from `' '` to `'~'`.
pub open spec fn printable(rows: Seq<Vec<&str>>) -> bool {
    forall|i: int, j: int, k: int|
        0 <= i < rows.len() && 0 <= j < rows[i]@.len() && 0 <= k < rows[i]@[j]@.len() ==> ' '
            <= #[trigger] rows[i]@[j]@[k] <= '~'
}

/// The board's cell texts as three rows of three.
pub open spec fn board_text(s: Seq<Tile>) -> Seq<Seq<Seq<char>>> {
    Seq::new(3, |r: int| Seq::new(3, |c: int| tile_text(s[3 * r + c])))
}

/// Relies on prettytable's `Table::init`, `Row::new` and `Cell::new`, and the
/// table's `Display`: with its default features off the drawn text depends on
/// the cell texts alone. Its width count asserts on some escape sequences, so
/// cell texts are kept to printable ASCII.
#[verifier::external_body]
fn draw_table(rows: &Vec<Vec<&str>>) -> (r: String)
    requires
        printable(rows@),
    ensures
        r@ == grid_text(rows_text(rows@)),
{
    let rows: Vec<Row> = rows.iter().map(|row| Row::new(row.iter().map(|c| Cell::new(c)).collect())).collect();
    Table::init(rows).to_string()
}

impl Game {
    /// The cell texts of the board, as three rows of three.
    pub fn rows(&self) -> (r: Vec<Vec<&'static str>>)
        requires
            self.wf(),
        ensures
            rows_text(r@) == board_text(self@),
    {
        let mut rows: Vec<Vec<&'static str>> = Vec::new();
        let mut r: usize = 0;
        while r < 3
            invariant
                self.wf(),
                r <= 3,
                rows@.len() == r,
                forall|k: int| 0 <= k < r ==> rows_text(rows@)[k] == board_text(self@)[k],
            decreases 3 - r,
        {
            let mut row: Vec<&'static str> = Vec::new();
            let mut c: usize = 0;
            while c < 3
                invariant
                    self.wf(),
                    r < 3,
                    c <= 3,
                    row@.len() == c,
                    forall|k: int| 0 <= k < c ==> row@[k]@ == tile_text(self@[3 * r + k]),
                decreases 3 - c,
            {
                row.push(self.tiles[3 * r + c].to_string());
                c += 1;
            }
            assert(row@.map_values(|t: &str| t@) =~= board_text(self@)[r as int]);
            rows.push(row);
            r += 1;
        }
        assert(rows_text(rows@) =~= board_text(self@));
        rows
    }

    /// The board drawn as a three-by-three table.
    pub fn render(&self) -> (r: String)
        requires
            self.wf(),
        ensures
            r@ == grid_text(board_text(self@)),
    {
        let rows = self.rows();
        proof {
            reveal_strlit("O");
            reveal_strlit("X");
            reveal_strlit(" ");
            assert(rows_text(rows@).len() == rows@.len());
            assert(board_text(self@).len() == 3);
            assert forall|i: int, j: int, k: int|
                0 <= i < rows@.len() && 0 <= j < rows@[i]@.len() && 0 <= k
                    < rows@[i]@[j]@.len() implies ' ' <= #[trigger] rows@[i]@[j]@[k] <= '~' by {
                assert(rows_text(rows@)[i] == rows@[i]@.map_values(|c: &str| c@));
                assert(board_text(self@)[i].len() == 3);
                assert(rows_text(rows@)[i].len() == rows@[i]@.len());
                assert(rows_text(rows@)[i][j] == rows@[i]@[j]@);
                assert(rows@[i]@[j]@ == tile_text(self@[3 * i + j]));
            }
        }
        draw_table(&rows)
    }
}

} // verus!
