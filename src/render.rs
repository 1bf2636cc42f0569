use vstd::prelude::*;

use crate::board::{HEIGHT, WIDTH};
use crate::game::GameState;
use crate::piece::{cells, cells_view};

verus! {

/// The character shown for cell (`x`, `y`): `X` for an occupied cell, `O` for
/// a cell of the active piece, a space otherwise.
pub open spec fn glyph(s: GameState, x: int, y: int) -> char {
    if s.board()[y][x] {
        'X'
    } else if cells(s.block_type, s.block_orientation, s.cursor).contains((x, y)) {
        'O'
    } else {
        ' '
    }
}

/// The text of board row `y`, left to right, ended by a carriage return and a line feed.
pub open spec fn row_text(s: GameState, y: int) -> Seq<char> {
    Seq::new(WIDTH as nat, |x: int| glyph(s, x, y)) + seq!['\r', '\n']
}

/// The text of the top `k` rows of the board, top row first.
pub open spec fn rendered(s: GameState, k: int) -> Seq<char>
    decreases k,
{
    if k <= 0 {
        Seq::empty()
    } else {
        rendered(s, k - 1) + row_text(s, HEIGHT - k)
    }
}

/// The whole board as text, top row first.
pub open spec fn render(s: GameState) -> Seq<char> {
    rendered(s, HEIGHT as int)
}

/// Whether (`x`, `y`) is one of `cs`.
fn covers(cs: &[(isize, isize); 4], x: isize, y: isize) -> (r: bool)
    ensures
        r == cells_view(cs@).contains((x as int, y as int)),
{
    let ghost cv = cells_view(cs@);
    let mut i: usize = 0;
    while i < 4
        invariant
            i <= 4,
            cv == cells_view(cs@),
            forall|j: int| 0 <= j < i ==> cv[j] != (x as int, y as int),
        decreases 4 - i,
    {
        if cs[i].0 == x && cs[i].1 == y {
            assert(cv[i as int] == (x as int, y as int));
            return true;
        }
        i = i + 1;
    }
    false
}

impl GameState {
    /// The board and the active piece as text: `HEIGHT` lines of `WIDTH`
    /// characters, top row first, each ended by "\r\n".
    pub fn create_string(&self) -> (r: String)
        requires
            self.wf(),
        ensures
            r@ == render(*self),
    {
        let active_item = self.block_type.realize(&self.block_orientation, &self.cursor);
        let mut return_string = String::new();
        let mut k: isize = 0;
        while k < HEIGHT
            invariant
                0 <= k <= HEIGHT,
                self.wf(),
                cells_view(active_item@) == cells(self.block_type, self.block_orientation, self.cursor),
                return_string@ == rendered(*self, k as int),
            decreases HEIGHT - k,
        {
            let y = HEIGHT - 1 - k;
            assert(self.board()[y as int].len() == WIDTH);
            let mut x: isize = 0;
            while x < WIDTH
                invariant
                    0 <= x <= WIDTH,
                    0 <= y < HEIGHT,
                    self.wf(),
                    self.board()[y as int].len() == WIDTH,
                    cells_view(active_item@) == cells(self.block_type, self.block_orientation, self.cursor),
                    return_string@ == rendered(*self, k as int) + Seq::new(
                        x as nat,
                        |i: int| glyph(*self, i, y as int),
                    ),
                decreases WIDTH - x,
            {
                let ghost before = return_string@;
                proof {
                    reveal_strlit("X");
                    reveal_strlit("O");
                    reveal_strlit(" ");
                }
                assert(self.board()[y as int] == self.blocks_on_board@[y as int]@);
                if self.blocks_on_board[y as usize][x as usize] {
                    return_string.append("X");
                } else if covers(&active_item, x, y) {
                    return_string.append("O");
                } else {
                    return_string.append(" ");
                }
                assert(return_string@ == before.push(glyph(*self, x as int, y as int)));
                x = x + 1;
                assert(return_string@ =~= rendered(*self, k as int) + Seq::new(
                    x as nat,
                    |i: int| glyph(*self, i, y as int),
                ));
            }
            proof {
                reveal_strlit("\r\n");
            }
            return_string.append("\r\n");
            k = k + 1;
            assert(return_string@ =~= rendered(*self, k as int));
        }
        return_string
    }
}

} // verus!
