use vstd::prelude::*;

use crate::board::{
    all_in_bounds, board_shape, cleared, commit, empty_row, empty_rows, in_bounds, kept,
    lemma_kept_len, new_row, occupy, overlaps, row_full, HEIGHT, WIDTH,
};
use crate::piece::{
    block_at, cells, cells_view, clockwise, lemma_rotation_period, lemma_template_shape, Block,
    Cursor, Direction,
};

verus! {

/// What a transition leaves the game in.
#[derive(Clone, Copy, Debug, PartialEq, Eq, Structural)]
pub enum Outcome {
    /// Play goes on.
    Continue,
    /// A piece locked with a cell above the top row: the game has ended normally.
    GameOver,
    /// A piece locked on cells that move and rotate checks should have refused.
    Fatal,
}

/// The board, and the active piece: its kind, orientation and anchor.
pub struct GameState {
    /// Rows bottom to top; `true` is an occupied cell.
    pub blocks_on_board: Vec<Vec<bool>>,
    pub cursor: Cursor,
    pub block_orientation: Direction,
    pub block_type: Block,
}

/// Where a new piece appears: the middle column of the top row.
pub open spec fn spawn_cursor() -> Cursor {
    Cursor { x: (WIDTH / 2) as isize, y: (HEIGHT - 1) as isize }
}

/// The anchor one step away from `c` in direction `d` (`Up` leaves it).
pub open spec fn shifted(c: Cursor, d: Direction) -> Cursor {
    match d {
        Direction::Left => Cursor { x: (c.x - 1) as isize, y: c.y },
        Direction::Right => Cursor { x: (c.x + 1) as isize, y: c.y },
        Direction::Down => Cursor { x: c.x, y: (c.y - 1) as isize },
        Direction::Up => c,
    }
}

/// The piece lies wholly on the board and on empty cells only.
pub open spec fn fits(rows: Seq<Seq<bool>>, b: Block, d: Direction, c: Cursor) -> bool {
    all_in_bounds(cells(b, d, c)) && !overlaps(rows, cells(b, d, c))
}

/// The index of the first cell of `cs` from `i` on that lies off the board,
/// or the length of `cs` if there is none.
pub open spec fn first_off_board(cs: Seq<(int, int)>, i: int) -> int
    decreases cs.len() - i,
{
    if i >= cs.len() {
        cs.len() as int
    } else if !in_bounds(cs[i]) {
        i
    } else {
        first_off_board(cs, i + 1)
    }
}

/// `new` is `old` with the active piece locked, then `next` spawned.
/// Cells are committed in order; the first one off the board stops the lock:
/// above the top it ends the game, anywhere else it is fatal.
pub open spec fn locked(old: GameState, new: GameState, next: Block, o: Outcome) -> bool {
    let cs = cells(old.block_type, old.block_orientation, old.cursor);
    let k = first_off_board(cs, 0);
    if k == 4 {
        &&& o == Outcome::Continue
        &&& new.board() == cleared(commit(old.board(), cs, 4))
        &&& new.cursor == spawn_cursor()
        &&& new.block_orientation == Direction::Up
        &&& new.block_type == next
    } else {
        &&& o == (if cs[k].1 >= HEIGHT {
            Outcome::GameOver
        } else {
            Outcome::Fatal
        })
        &&& new.board() == commit(old.board(), cs, k)
        &&& new.cursor == old.cursor
        &&& new.block_orientation == old.block_orientation
        &&& new.block_type == old.block_type
    }
}

/// `new` keeps everything of `old` but possibly the orientation.
pub open spec fn same_but_orientation(old: GameState, new: GameState) -> bool {
    new.board() == old.board() && new.cursor == old.cursor && new.block_type == old.block_type
}

/// `new` equals `old` in every part.
pub open spec fn unchanged(old: GameState, new: GameState) -> bool {
    same_but_orientation(old, new) && new.block_orientation == old.block_orientation
}

/// The transition for input `d`: `Up` turns the piece clockwise if it then fits;
/// `Left`, `Right` and `Down` shift it by one cell if it then fits. A refused
/// `Down` locks the piece and spawns `next`; any other refusal changes nothing.
pub open spec fn moved(old: GameState, new: GameState, d: Direction, next: Block, o: Outcome) -> bool {
    if d == Direction::Up {
        &&& o == Outcome::Continue
        &&& same_but_orientation(old, new)
        &&& new.block_orientation == if fits(
            old.board(),
            old.block_type,
            clockwise(old.block_orientation),
            old.cursor,
        ) {
            clockwise(old.block_orientation)
        } else {
            old.block_orientation
        }
    } else if fits(old.board(), old.block_type, old.block_orientation, shifted(old.cursor, d)) {
        &&& o == Outcome::Continue
        &&& new.cursor == shifted(old.cursor, d)
        &&& new.board() == old.board()
        &&& new.block_orientation == old.block_orientation
        &&& new.block_type == old.block_type
    } else if d == Direction::Down {
        locked(old, new, next, o)
    } else {
        o == Outcome::Continue && unchanged(old, new)
    }
}

/// A piece that lies on the board has its anchor within two cells of it.
proof fn lemma_fit_anchor(b: Block, d: Direction, c: Cursor)
    requires
        all_in_bounds(cells(b, d, c)),
    ensures
        -2 <= c.x <= WIDTH + 1,
        -2 <= c.y <= HEIGHT + 1,
{
    lemma_template_shape(b, d);
    assert(in_bounds(cells(b, d, c)[0]));
}

/// Every row kept by a clear is a row of the original board.
proof fn lemma_kept_rows(rows: Seq<Seq<bool>>)
    ensures
        forall|i: int| 0 <= i < kept(rows).len() ==> rows.contains(#[trigger] kept(rows)[i]),
    decreases rows.len(),
{
    if rows.len() > 0 {
        let r = rows.drop_last();
        lemma_kept_rows(r);
        assert forall|i: int| 0 <= i < kept(rows).len() implies rows.contains(
            #[trigger] kept(rows)[i],
        ) by {
            if i < kept(r).len() {
                let w = choose|w: int| 0 <= w < r.len() && r[w] == kept(r)[i];
                assert(rows[w] == kept(rows)[i]);
            } else {
                assert(rows[rows.len() - 1] == kept(rows)[i]);
            }
        }
    }
}

/// Clearing rows keeps the board's dimensions.
proof fn lemma_cleared_shape(rows: Seq<Seq<bool>>)
    requires
        board_shape(rows),
    ensures
        board_shape(cleared(rows)),
{
    lemma_kept_rows(rows);
    lemma_kept_len(rows);
    let c = cleared(rows);
    assert forall|i: int| 0 <= i < c.len() implies #[trigger] c[i].len() == WIDTH by {
        if i < kept(rows).len() {
            assert(rows.contains(kept(rows)[i]));
        }
    }
}

/// Committing cells that lie on the board marks each of them occupied and
/// keeps the board's dimensions.
proof fn lemma_commit_marks(rows: Seq<Seq<bool>>, cs: Seq<(int, int)>, k: int)
    requires
        board_shape(rows),
        0 <= k <= cs.len(),
        forall|j: int| 0 <= j < k ==> in_bounds(#[trigger] cs[j]),
    ensures
        board_shape(commit(rows, cs, k)),
        forall|i: int| 0 <= i < k ==> #[trigger] commit(rows, cs, k)[cs[i].1][cs[i].0],
    decreases k,
{
    if k > 0 {
        lemma_commit_marks(rows, cs, k - 1);
        let prev = commit(rows, cs, k - 1);
        let p = cs[k - 1];
        assert(in_bounds(p));
        assert(prev[p.1].len() == WIDTH);
        let c = commit(rows, cs, k);
        assert forall|i: int| 0 <= i < c.len() implies #[trigger] c[i].len() == WIDTH by {
            assert(prev[i].len() == WIDTH);
        }
        assert forall|i: int| 0 <= i < k implies #[trigger] c[cs[i].1][cs[i].0] by {
            if i < k - 1 {
                assert(prev[cs[i].1][cs[i].0]);
                assert(in_bounds(cs[i]));
                assert(prev[cs[i].1].len() == WIDTH);
            }
        }
    }
}

/// A sideways move onto an occupied cell is refused: the game is left as it was.
pub proof fn lemma_blocked_sideways(
    old: GameState,
    new: GameState,
    d: Direction,
    next: Block,
    o: Outcome,
)
    requires
        old.wf(),
        d == Direction::Left || d == Direction::Right,
        overlaps(old.board(), cells(old.block_type, old.block_orientation, shifted(old.cursor, d))),
        moved(old, new, d, next, o),
    ensures
        o == Outcome::Continue,
        new.cursor == old.cursor,
        new.block_orientation == old.block_orientation,
        new.board() == old.board(),
        new.block_type == old.block_type,
{
}

/// A downward move of a piece that rests on the floor locks it: each of its
/// cells is marked occupied before full rows are cleared, and the next piece
/// appears at the spawn position in orientation `Up`.
pub proof fn lemma_floor_lock(old: GameState, new: GameState, next: Block, o: Outcome)
    requires
        old.wf(),
        all_in_bounds(cells(old.block_type, old.block_orientation, old.cursor)),
        exists|i: int|
            0 <= i < 4 && #[trigger] cells(old.block_type, old.block_orientation, old.cursor)[i].1
                == 0,
        moved(old, new, Direction::Down, next, o),
    ensures
        o == Outcome::Continue,
        new.cursor == spawn_cursor(),
        new.block_orientation == Direction::Up,
        new.block_type == next,
        new.board() == cleared(
            commit(old.board(), cells(old.block_type, old.block_orientation, old.cursor), 4),
        ),
        forall|i: int|
            0 <= i < 4 ==> #[trigger] commit(
                old.board(),
                cells(old.block_type, old.block_orientation, old.cursor),
                4,
            )[cells(old.block_type, old.block_orientation, old.cursor)[i].1][cells(
                old.block_type,
                old.block_orientation,
                old.cursor,
            )[i].0],
{
    let cs = cells(old.block_type, old.block_orientation, old.cursor);
    let t = shifted(old.cursor, Direction::Down);
    let ts = cells(old.block_type, old.block_orientation, t);
    lemma_template_shape(old.block_type, old.block_orientation);
    let i = choose|i: int| 0 <= i < 4 && #[trigger] cs[i].1 == 0;
    assert(ts[i].1 == -1);
    assert(!in_bounds(ts[i]));
    assert(!fits(old.board(), old.block_type, old.block_orientation, t));
    reveal_with_fuel(first_off_board, 5);
    assert(in_bounds(cs[0]) && in_bounds(cs[1]) && in_bounds(cs[2]) && in_bounds(cs[3]));
    assert(first_off_board(cs, 0) == 4);
    lemma_commit_marks(old.board(), cs, 4);
}

/// Four accepted clockwise turns in a row bring the piece back to the cells
/// it started on, with the rest of the game as it was.
pub proof fn lemma_four_turns(
    s0: GameState,
    s1: GameState,
    s2: GameState,
    s3: GameState,
    s4: GameState,
    next: Block,
)
    requires
        moved(s0, s1, Direction::Up, next, Outcome::Continue),
        moved(s1, s2, Direction::Up, next, Outcome::Continue),
        moved(s2, s3, Direction::Up, next, Outcome::Continue),
        moved(s3, s4, Direction::Up, next, Outcome::Continue),
        s1.block_orientation == clockwise(s0.block_orientation),
        s2.block_orientation == clockwise(s1.block_orientation),
        s3.block_orientation == clockwise(s2.block_orientation),
        s4.block_orientation == clockwise(s3.block_orientation),
    ensures
        unchanged(s0, s4),
        cells(s4.block_type, s4.block_orientation, s4.cursor) == cells(
            s0.block_type,
            s0.block_orientation,
            s0.cursor,
        ),
{
    lemma_rotation_period(s0.block_type, s0.block_orientation, s0.cursor);
}

impl GameState {
    /// The board as rows of cells.
    pub open spec fn board(&self) -> Seq<Seq<bool>> {
        self.blocks_on_board@.map_values(|r: Vec<bool>| r@)
    }

    /// The board has its fixed dimensions and the anchor can be moved by one
    /// step and realized without overflow.
    pub open spec fn wf(&self) -> bool {
        &&& board_shape(self.board())
        &&& isize::MIN + 3 <= self.cursor.x <= isize::MAX - 3
        &&& isize::MIN + 3 <= self.cursor.y <= isize::MAX - 3
    }

    /// Whether any cell of the piece in orientation `direction` at `cursor`
    /// lies on the board on an occupied cell; cells off the board are ignored.
    pub fn has_overlap(&self, direction: &Direction, cursor: &Cursor) -> (r: bool)
        requires
            board_shape(self.board()),
            cursor.bounded(),
        ensures
            r == overlaps(self.board(), cells(self.block_type, *direction, *cursor)),
    {
        let cs = self.block_type.realize(direction, cursor);
        let ghost cv = cells(self.block_type, *direction, *cursor);
        let mut i: usize = 0;
        while i < 4
            invariant
                i <= 4,
                cells_view(cs@) == cv,
                cv == cells(self.block_type, *direction, *cursor),
                cv.len() == 4,
                board_shape(self.board()),
                forall|j: int| 0 <= j < i ==> !(in_bounds(cv[j]) && self.board()[cv[j].1][cv[j].0]),
            decreases 4 - i,
        {
            let (x, y) = cs[i];
            assert(cv[i as int] == (x as int, y as int));
            if x < 0 || y < 0 || x >= WIDTH || y >= HEIGHT {
            } else {
                assert(self.board()[y as int].len() == WIDTH);
                assert(self.board()[y as int] == self.blocks_on_board@[y as int]@);
                if self.blocks_on_board[y as usize][x as usize] {
                    assert(in_bounds(cv[i as int]) && self.board()[cv[i as int].1][cv[i as int].0]);
                    return true;
                }
            }
            i = i + 1;
        }
        false
    }

    /// Whether any cell of the piece in orientation `direction` at `cursor`
    /// lies off the board.
    pub fn out_of_bounds(&self, direction: &Direction, cursor: &Cursor) -> (r: bool)
        requires
            cursor.bounded(),
        ensures
            r == !all_in_bounds(cells(self.block_type, *direction, *cursor)),
    {
        let cs = self.block_type.realize(direction, cursor);
        let ghost cv = cells(self.block_type, *direction, *cursor);
        let mut i: usize = 0;
        while i < 4
            invariant
                i <= 4,
                cells_view(cs@) == cv,
                cv == cells(self.block_type, *direction, *cursor),
                cv.len() == 4,
                forall|j: int| 0 <= j < i ==> in_bounds(#[trigger] cv[j]),
            decreases 4 - i,
        {
            let (x, y) = cs[i];
            assert(cv[i as int] == (x as int, y as int));
            if x < 0 || x >= WIDTH || y < 0 || y >= HEIGHT {
                assert(!in_bounds(cv[i as int]));
                return true;
            }
            i = i + 1;
        }
        false
    }

    /// Turns the piece clockwise, unless it would then leave the board or
    /// cover an occupied cell.
    pub fn rotate(&mut self)
        requires
            old(self).wf(),
        ensures
            final(self).wf(),
            moved(*old(self), *final(self), Direction::Up, old(self).block_type, Outcome::Continue),
    {
        let new_direction = self.block_orientation.clockwise();
        if self.out_of_bounds(&new_direction, &self.cursor) || self.has_overlap(
            &new_direction,
            &self.cursor,
        ) {
            return ;
        } else {
            self.block_orientation = new_direction;
        }
    }

    /// Marks cell (`x`, `y`) occupied.
    fn occupy_cell(&mut self, x: usize, y: usize)
        requires
            board_shape(old(self).board()),
            x < WIDTH,
            y < HEIGHT,
        ensures
            final(self).board() == occupy(old(self).board(), (x as int, y as int)),
            board_shape(final(self).board()),
            final(self).cursor == old(self).cursor,
            final(self).block_orientation == old(self).block_orientation,
            final(self).block_type == old(self).block_type,
    {
        assert(self.board()[y as int].len() == WIDTH);
        let mut row = self.blocks_on_board.remove(y);
        row.set(x, true);
        self.blocks_on_board.insert(y, row);
        assert(self.board() =~= occupy(old(self).board(), (x as int, y as int)));
        assert forall|i: int| 0 <= i < self.board().len() implies #[trigger] self.board()[i].len()
            == WIDTH by {
            assert(old(self).board()[i].len() == WIDTH);
        }
    }

    /// Locks the active piece onto the board, then clears full rows and
    /// spawns `next` at the spawn position. A cell above the top row ends the
    /// game, and a cell off the board elsewhere is fatal; either stops the lock
    /// at that cell, with the cells before it committed.
    pub fn adhere_blocks_with(&mut self, next: Block) -> (o: Outcome)
        requires
            old(self).wf(),
        ensures
            final(self).wf(),
            locked(*old(self), *final(self), next, o),
    {
        let new_blocks = self.block_type.realize(&self.block_orientation, &self.cursor);
        let ghost cv = cells(self.block_type, self.block_orientation, self.cursor);
        let ghost b0 = self.board();
        let mut i: usize = 0;
        proof {
            lemma_template_shape(self.block_type, self.block_orientation);
        }
        while i < 4
            invariant
                i <= 4,
                cells_view(new_blocks@) == cv,
                cv == cells(old(self).block_type, old(self).block_orientation, old(self).cursor),
                cv.len() == 4,
                b0 == old(self).board(),
                old(self).wf(),
                self.board() == commit(b0, cv, i as int),
                board_shape(self.board()),
                forall|j: int| 0 <= j < i ==> in_bounds(#[trigger] cv[j]),
                first_off_board(cv, 0) == first_off_board(cv, i as int),
                self.cursor == old(self).cursor,
                self.block_orientation == old(self).block_orientation,
                self.block_type == old(self).block_type,
            decreases 4 - i,
        {
            let (x, y) = new_blocks[i];
            assert(cv[i as int] == (x as int, y as int));
            if y >= HEIGHT {
                return Outcome::GameOver;
            }
            if y < 0 || x < 0 || x >= WIDTH {
                return Outcome::Fatal;
            }
            self.occupy_cell(x as usize, y as usize);
            i = i + 1;
        }
        proof {
            lemma_cleared_shape(self.board());
        }
        self.remove_full_lines();
        self.reset_cursor();
        self.block_type = next;
        Outcome::Continue
    }

    /// Locks the active piece as `adhere_blocks_with` does, with a kind
    /// chosen at random to follow it.
    pub fn adhere_blocks(&mut self) -> (o: Outcome)
        requires
            old(self).wf(),
        ensures
            final(self).wf(),
            exists|next: Block| locked(*old(self), *final(self), next, o),
    {
        let next = Block::random();
        self.adhere_blocks_with(next)
    }

    /// Applies input `direction` to the game, with `next` as the kind spawned if the
    /// active piece locks.
    pub fn move_blocks_with(&mut self, direction: &Direction, next: Block) -> (o: Outcome)
        requires
            old(self).wf(),
        ensures
            final(self).wf(),
            moved(*old(self), *final(self), *direction, next, o),
    {
        if *direction == Direction::Up {
            self.rotate();
            return Outcome::Continue;
        }
        let new_cursor = match direction {
            Direction::Left => Cursor { x: self.cursor.x - 1, y: self.cursor.y },
            Direction::Right => Cursor { x: self.cursor.x + 1, y: self.cursor.y },
            _ => Cursor { x: self.cursor.x, y: self.cursor.y - 1 },
        };
        assert(new_cursor == shifted(self.cursor, *direction));
        if !self.out_of_bounds(&self.block_orientation, &new_cursor) && !self.has_overlap(
            &self.block_orientation,
            &new_cursor,
        ) {
            proof {
                lemma_fit_anchor(self.block_type, self.block_orientation, new_cursor);
            }
            self.cursor = new_cursor;
            Outcome::Continue
        } else if *direction == Direction::Down {
            self.adhere_blocks_with(next)
        } else {
            Outcome::Continue
        }
    }

    /// Applies input `direction` to the game; a piece spawned by a lock is of a kind
    /// chosen at random.
    pub fn move_blocks(&mut self, direction: &Direction) -> (o: Outcome)
        requires
            old(self).wf(),
        ensures
            final(self).wf(),
            exists|next: Block| moved(*old(self), *final(self), *direction, next, o),
    {
        let next = Block::random();
        self.move_blocks_with(direction, next)
    }

    /// A game on an empty board, with a piece of a random kind at the spawn
    /// position in orientation `Up`.
    pub fn new() -> (r: GameState)
        ensures
            r.wf(),
            r.board() == empty_rows(HEIGHT as nat),
            r.cursor == spawn_cursor(),
            r.block_orientation == Direction::Up,
            exists|i: int| 0 <= i < 7 && r.block_type == block_at(i),
    {
        let mut rows: Vec<Vec<bool>> = Vec::new();
        let mut i: isize = 0;
        while i < HEIGHT
            invariant
                0 <= i <= HEIGHT,
                rows.len() == i,
                forall|j: int| 0 <= j < i ==> #[trigger] rows@[j]@ == empty_row(),
            decreases HEIGHT - i,
        {
            rows.push(new_row());
            i = i + 1;
        }
        assert(rows@.map_values(|r: Vec<bool>| r@) =~= empty_rows(HEIGHT as nat));
        let mut new_gamestate = GameState {
            blocks_on_board: rows,
            cursor: Cursor { x: 0, y: 0 },
            block_orientation: Direction::Up,
            block_type: Block::Block2x2,
        };
        new_gamestate.reset_cursor();
        new_gamestate.new_block();
        new_gamestate
    }

    /// Replaces the active piece's kind by one chosen at random.
    pub fn new_block(&mut self)
        ensures
            exists|i: int| 0 <= i < 7 && final(self).block_type == block_at(i),
            final(self).board() == old(self).board(),
            final(self).cursor == old(self).cursor,
            final(self).block_orientation == old(self).block_orientation,
    {
        self.block_type = Block::random();
    }

    /// Puts the anchor at the spawn position and the orientation at `Up`.
    pub fn reset_cursor(&mut self)
        ensures
            final(self).cursor == spawn_cursor(),
            final(self).block_orientation == Direction::Up,
            final(self).board() == old(self).board(),
            final(self).block_type == old(self).block_type,
    {
        self.cursor.y = HEIGHT - 1;
        self.cursor.x = WIDTH / 2;
        self.block_orientation = Direction::Up;
    }

    /// Removes row `line` and adds an empty row at the top.
    pub fn clear_line(&mut self, line: &usize)
        requires
            *line < old(self).blocks_on_board.len(),
        ensures
            final(self).board() == old(self).board().remove(*line as int).push(empty_row()),
            final(self).cursor == old(self).cursor,
            final(self).block_orientation == old(self).block_orientation,
            final(self).block_type == old(self).block_type,
    {
        self.blocks_on_board.remove(*line);
        self.blocks_on_board.push(new_row());
        assert(self.board() =~= old(self).board().remove(*line as int).push(empty_row()));
    }

    /// Removes every full row, adding an empty row at the top for each, and
    /// returns how many were removed.
    pub fn remove_full_lines(&mut self) -> (count: usize)
        ensures
            final(self).board() == cleared(old(self).board()),
            count == old(self).board().len() - kept(old(self).board()).len(),
            final(self).cursor == old(self).cursor,
            final(self).block_orientation == old(self).block_orientation,
            final(self).block_type == old(self).block_type,
    {
        let ghost orig = self.board();
        let ghost n: int = orig.len() as int;
        let ghost mut j: int = 0;
        let mut count: usize = 0;
        let mut removed: usize = 0;
        proof {
            assert(orig.take(0) =~= Seq::<Seq<bool>>::empty());
            assert(self.board() =~= kept(orig.take(0)) + orig.skip(0) + empty_rows(0));
        }
        while count < self.blocks_on_board.len()
            invariant
                n == orig.len(),
                self.blocks_on_board.len() == n,
                0 <= j <= n,
                self.board() == kept(orig.take(j)) + orig.skip(j) + empty_rows(removed as nat),
                removed == j - kept(orig.take(j)).len(),
                j < n ==> count == kept(orig.take(j)).len(),
                j == n ==> kept(orig).len() <= count,
                self.cursor == old(self).cursor,
                self.block_orientation == old(self).block_orientation,
                self.block_type == old(self).block_type,
            decreases (n - j) + (n - count),
        {
            let ghost k = kept(orig.take(j));
            proof {
                lemma_kept_len(orig.take(j));
                if j < n {
                    assert(orig.take(j + 1).drop_last() =~= orig.take(j));
                    assert(orig.take(j + 1).last() == orig[j]);
                }
            }
            proof {
                if j < n {
                    assert(self.board()[count as int] == orig[j]);
                } else {
                    assert(orig.take(n) =~= orig);
                    assert(self.board()[count as int] == empty_row());
                }
            }
            if row_full(&self.blocks_on_board[count]) {
                proof {
                    if j == n {
                        assert(!empty_row()[0]);
                    }
                }
                self.clear_line(&count);
                removed = removed + 1;
                proof {
                    assert(self.board() =~= kept(orig.take(j + 1)) + orig.skip(j + 1)
                        + empty_rows(removed as nat));
                    j = j + 1;
                    if j == n {
                        assert(orig.take(n) =~= orig);
                    }
                }
            } else {
                count = count + 1;
                proof {
                    if j < n {
                        assert(self.board() =~= kept(orig.take(j + 1)) + orig.skip(j + 1)
                            + empty_rows(removed as nat));
                        j = j + 1;
                        if j == n {
                            assert(orig.take(n) =~= orig);
                        }
                    }
                }
            }
        }
        proof {
            if j < n {
                lemma_kept_len(orig.take(j));
            }
            assert(orig.take(n) =~= orig);
            assert(orig.skip(n) =~= Seq::<Seq<bool>>::empty());
            assert(self.board() =~= cleared(orig));
        }
        removed
    }
}

} // verus!
