//! A picture of a maze in text, for a human to look at.

use vstd::prelude::*;
use crate::grid::Cell;
use crate::prelude::coordinates::{step, Coordinates};
use crate::prelude::direction::Direction;
use crate::prelude::maze::{Maze, MazeView};

verus! {

/// The corner between four fields.
pub const CORNER: char = '\u{b7}';

impl MazeView {
    /// The two characters above a field: a corner, and a gap where a
    /// passage leads north or a wall where none does.
    pub open spec fn above(self, cell: Cell) -> Seq<char> {
        seq![
            CORNER,
            if self.has_passage(cell, step(cell, Direction::North)) {
                ' '
            } else {
                '-'
            },
        ]
    }

    /// The two characters of a field: a gap where a passage leads west or a
    /// wall where none does, and the mark of the field: `S` for the start,
    /// `G` for the goal, a blank for any other.
    pub open spec fn across(self, cell: Cell) -> Seq<char> {
        seq![
            if self.has_passage(cell, step(cell, Direction::West)) {
                ' '
            } else {
                '|'
            },
            if self.start == cell {
                'S'
            } else if self.goal == cell {
                'G'
            } else {
                ' '
            },
        ]
    }

    /// What stands above the first `count` fields of row `y`.
    pub open spec fn above_row(self, y: i32, count: int) -> Seq<char>
        decreases count,
    {
        if count <= 0 {
            Seq::empty()
        } else {
            self.above_row(y, count - 1) + self.above(((count - 1) as i32, y))
        }
    }

    /// The first `count` fields of row `y`.
    pub open spec fn across_row(self, y: i32, count: int) -> Seq<char>
        decreases count,
    {
        if count <= 0 {
            Seq::empty()
        } else {
            self.across_row(y, count - 1) + self.across(((count - 1) as i32, y))
        }
    }

    /// The two lines of row `y`, each closed on the right and ended.
    pub open spec fn row(self, y: i32) -> Seq<char> {
        self.above_row(y, self.size.0 as int) + seq![CORNER, '\n'] + self.across_row(
            y,
            self.size.0 as int,
        ) + seq!['|', '\n']
    }

    /// The first `count` rows.
    pub open spec fn rows(self, count: int) -> Seq<char>
        decreases count,
    {
        if count <= 0 {
            Seq::empty()
        } else {
            self.rows(count - 1) + self.row((count - 1) as i32)
        }
    }

    /// The wall below the first `count` fields of the last row.
    pub open spec fn below(count: int) -> Seq<char>
        decreases count,
    {
        if count <= 0 {
            Seq::empty()
        } else {
            Self::below(count - 1) + seq![CORNER, '-']
        }
    }

    /// The whole picture: all rows from north to south, and the wall below
    /// the last one. A maze without rows has an empty picture.
    pub open spec fn picture(self) -> Seq<char> {
        if self.size.1 <= 0 {
            Seq::empty()
        } else {
            self.rows(self.size.1 as int) + Self::below(self.size.0 as int) + seq![CORNER, '\n']
        }
    }
}

impl Maze {
    /// Whether a passage leaves the field at `coordinates`, which lie inside
    /// the maze, in a direction.
    fn is_open(&self, coordinates: &Coordinates, direction: Direction) -> (open: bool)
        requires
            self@.inside(coordinates@),
        ensures
            open == self@.has_passage(coordinates@, step(coordinates@, direction)),
    {
        proof {
            self@.lemma_open_directions(coordinates@, direction);
        }
        match self.get_field(coordinates) {
            Some(field) => field.has_passage(&direction),
            None => false,
        }
    }

    /// Draw the maze: two lines of text for each row of fields, with `S` and
    /// `G` on start and goal, and one line for the wall at the bottom.
    pub fn render(&self) -> (text: Vec<char>)
        ensures
            text@ == self@.picture(),
    {
        let mut text: Vec<char> = Vec::new();
        let mut iy: i32 = 0;
        while iy < self.size.1
            invariant
                0 <= iy,
                iy <= self.size.1 || iy == 0,
                text@ == self@.rows(iy as int),
            decreases self.size.1 - iy,
        {
            let ghost done = text@;
            // print top passage
            let mut ix: i32 = 0;
            while ix < self.size.0
                invariant
                    0 <= ix,
                    ix <= self.size.0 || ix == 0,
                    0 <= iy < self.size.1,
                    text@ == done + self@.above_row(iy, ix as int),
                decreases self.size.0 - ix,
            {
                let here = Coordinates::new(ix, iy);
                text.push(CORNER);
                if self.is_open(&here, Direction::North) {
                    text.push(' ');
                } else {
                    text.push('-');
                }
                assert(text@ =~= done + (self@.above_row(iy, ix as int) + self@.above(here@)));
                ix += 1;
            }
            text.push(CORNER);
            text.push('\n');
            let ghost top = text@;
            assert(top =~= done + (self@.above_row(iy, self.size.0 as int) + seq![CORNER, '\n']));

            // print left passage and room icon
            let mut ix: i32 = 0;
            while ix < self.size.0
                invariant
                    0 <= ix,
                    ix <= self.size.0 || ix == 0,
                    0 <= iy < self.size.1,
                    text@ == top + self@.across_row(iy, ix as int),
                decreases self.size.0 - ix,
            {
                let here = Coordinates::new(ix, iy);
                if self.is_open(&here, Direction::West) {
                    text.push(' ');
                } else {
                    text.push('|');
                }
                if self.start == here {
                    text.push('S');
                } else if self.goal == here {
                    text.push('G');
                } else {
                    text.push(' ');
                }
                assert(text@ =~= top + (self@.across_row(iy, ix as int) + self@.across(here@)));
                ix += 1;
            }
            text.push('|');
            text.push('\n');
            assert(text@ =~= done + self@.row(iy));
            iy += 1;
        }
        if self.size.1 > 0 {
            // print bottom line
            let ghost body = text@;
            let mut ix: i32 = 0;
            while ix < self.size.0
                invariant
                    0 <= ix,
                    ix <= self.size.0 || ix == 0,
                    text@ == body + MazeView::below(ix as int),
                decreases self.size.0 - ix,
            {
                text.push(CORNER);
                text.push('-');
                assert(text@ =~= body + (MazeView::below(ix as int) + seq![CORNER, '-']));
                ix += 1;
            }
            text.push(CORNER);
            text.push('\n');
            assert(text@ =~= body + MazeView::below(self.size.0 as int) + seq![CORNER, '\n']);
        }
        text
    }
}

} // verus!
