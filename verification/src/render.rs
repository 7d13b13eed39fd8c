//! The text frame of a grid.
//!
//! A frame shows the grid inside a fence of `#`: a border line, one line
//! for each row, and a border line again. Every cell takes two columns,
//! `o` and a blank where it is alive and two blanks where it is dead.

use crate::coord::Coord;
use crate::grid::Board;
use crate::grid::GOL;
use vstd::prelude::*;

verus! {

/// `posts` fence posts, each `#` and a blank.
pub open spec fn fence(posts: nat) -> Seq<char>
    decreases posts,
{
    if posts == 0 {
        Seq::empty()
    } else {
        fence((posts - 1) as nat) + seq!['#', ' ']
    }
}

/// The border line of a grid of `width` columns: a blank, one fence post
/// more than the grid has columns, and the end of the line.
pub open spec fn border(width: int) -> Seq<char> {
    seq![' '] + fence((width + 1) as nat) + seq!['\n']
}

/// The two columns that show a cell.
pub open spec fn cell_text(alive: bool) -> Seq<char> {
    if alive {
        seq!['o', ' ']
    } else {
        seq![' ', ' ']
    }
}

impl Board {
    /// The text of the first `columns` cells of row `y`.
    pub open spec fn cells_text(self, y: int, columns: nat) -> Seq<char>
        decreases columns,
    {
        if columns == 0 {
            Seq::empty()
        } else {
            self.cells_text(y, (columns - 1) as nat) + cell_text(self.alive_at(columns - 1, y))
        }
    }

    /// The line of row `y`: a fence post, the cells, a `#` and the end of
    /// the line.
    pub open spec fn row_text(self, y: int) -> Seq<char> {
        seq!['#', ' '] + self.cells_text(y, self.width as nat) + seq!['#', '\n']
    }

    /// The lines of the first `rows` rows.
    pub open spec fn rows_text(self, rows: nat) -> Seq<char>
        decreases rows,
    {
        if rows == 0 {
            Seq::empty()
        } else {
            self.rows_text((rows - 1) as nat) + self.row_text(rows - 1)
        }
    }

    /// The frame of the board.
    pub open spec fn frame(self) -> Seq<char> {
        border(self.width) + self.rows_text(self.height as nat) + border(self.width)
    }
}

/// Appends the border line of a grid of `width` columns to `text`.
fn push_border(text: &mut Vec<char>, width: u8)
    ensures
        final(text)@ == old(text)@ + border(width as int),
{
    let ghost before = text@;
    text.push(' ');
    for posts in 0..width as u16 + 1
        invariant
            text@ == before + seq![' '] + fence(posts as nat),
    {
        text.push('#');
        text.push(' ');
        assert(text@ == before + seq![' '] + fence((posts + 1) as nat));
    }
    text.push('\n');
    assert(text@ == before + border(width as int));
}

impl GOL {
    /// Draws the grid as text.
    pub fn render(&self) -> (text: Vec<char>)
        ensures
            text@ == self@.frame(),
    {
        let width = self.width();
        let height = self.height();
        let mut text: Vec<char> = Vec::new();
        push_border(&mut text, width);
        assert(text@ == border(width as int) + self@.rows_text(0));
        for y in 0..height as i16
            invariant
                width == self@.width,
                height == self@.height,
                text@ == border(width as int) + self@.rows_text(y as nat),
        {
            let ghost above = text@;
            text.push('#');
            text.push(' ');
            assert(text@ == above + seq!['#', ' '] + self@.cells_text(y as int, 0));
            for x in 0..width as i16
                invariant
                    width == self@.width,
                    text@ == above + seq!['#', ' '] + self@.cells_text(y as int, x as nat),
            {
                if self.is_alive(&Coord { x, y }) {
                    text.push('o');
                } else {
                    text.push(' ');
                }
                text.push(' ');
                assert(text@ == above + seq!['#', ' '] + self@.cells_text(
                    y as int,
                    (x + 1) as nat,
                ));
            }
            text.push('#');
            text.push('\n');
            assert(text@ == above + self@.row_text(y as int));
            assert(text@ == border(width as int) + self@.rows_text((y + 1) as nat));
        }
        push_border(&mut text, width);
        text
    }
}

} // verus!
