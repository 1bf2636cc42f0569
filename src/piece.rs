use rand::Rng;
use vstd::prelude::*;

verus! {

/// One of the four orientations of a piece; `Up` is the spawn orientation.
#[derive(Clone, Copy, Debug, PartialEq, Eq, Structural)]
pub enum Direction {
    Up,
    Left,
    Right,
    Down,
}

/// The seven kinds of piece.
#[derive(Clone, Copy, Debug, PartialEq, Eq, Structural)]
pub enum Block {
    Block2x2,
    LeftL,
    RightL,
    LightningUp,
    LightningDown,
    Line,
    Prod,
}

/// The reference point from which a piece's cells are laid out.
#[derive(Clone, Copy, Debug, PartialEq, Eq, Structural)]
pub struct Cursor {
    pub x: isize,
    pub y: isize,
}

/// The orientation that follows `d` in a clockwise turn.
pub open spec fn clockwise(d: Direction) -> Direction {
    match d {
        Direction::Up => Direction::Right,
        Direction::Right => Direction::Down,
        Direction::Down => Direction::Left,
        Direction::Left => Direction::Up,
    }
}

/// The four cell offsets of kind `b` in orientation `d`, relative to the anchor.
pub open spec fn template(b: Block, d: Direction) -> Seq<(int, int)> {
    match b {
        Block::Block2x2 => seq![(0, 0), (0, 1), (1, 0), (1, 1)],
        Block::LeftL => match d {
            Direction::Up => seq![(0, 1), (0, 0), (0, -1), (1, -1)],
            Direction::Left => seq![(-1, -1), (0, -1), (1, 0), (1, -1)],
            Direction::Right => seq![(0, 0), (0, -1), (1, 0), (2, 0)],
            Direction::Down => seq![(0, 0), (1, 0), (1, -1), (1, -2)],
        },
        Block::RightL => match d {
            Direction::Up => seq![(1, 1), (1, 0), (0, -1), (1, -1)],
            Direction::Left => seq![(-1, 0), (0, 0), (1, 0), (1, -1)],
            Direction::Right => seq![(0, 0), (0, -1), (1, -1), (2, -1)],
            Direction::Down => seq![(0, 0), (1, 0), (0, -1), (0, -2)],
        },
        Block::LightningUp => match d {
            Direction::Up | Direction::Down => seq![(1, 1), (0, 0), (1, 0), (0, -1)],
            _ => seq![(-1, 0), (0, 0), (0, -1), (1, -1)],
        },
        Block::LightningDown => match d {
            Direction::Up | Direction::Down => seq![(0, 1), (0, 0), (1, 0), (1, -1)],
            _ => seq![(-1, -1), (0, 0), (1, 0), (0, -1)],
        },
        Block::Line => match d {
            Direction::Up | Direction::Down => seq![(0, 1), (0, 0), (0, -1), (0, -2)],
            _ => seq![(-1, 0), (0, 0), (1, 0), (2, 0)],
        },
        Block::Prod => match d {
            Direction::Up => seq![(0, 1), (-1, 0), (0, 0), (1, 0)],
            Direction::Left => seq![(0, 1), (-1, 0), (0, 0), (0, -1)],
            Direction::Right => seq![(0, 1), (0, 0), (1, 0), (0, -1)],
            Direction::Down => seq![(-1, 0), (0, 0), (1, 0), (0, -1)],
        },
    }
}

/// The absolute cells of kind `b` in orientation `d` anchored at `c`.
pub open spec fn cells(b: Block, d: Direction, c: Cursor) -> Seq<(int, int)> {
    template(b, d).map_values(|o: (int, int)| (c.x + o.0, c.y + o.1))
}

/// The view of a realized piece as integer pairs.
pub open spec fn cells_view(r: Seq<(isize, isize)>) -> Seq<(int, int)> {
    r.map_values(|p: (isize, isize)| (p.0 as int, p.1 as int))
}

/// No two entries of `s` are equal.
pub open spec fn distinct(s: Seq<(int, int)>) -> bool {
    forall|i: int, j: int| 0 <= i < s.len() && 0 <= j < s.len() && i != j ==> s[i] != s[j]
}

impl Cursor {
    /// The anchor is far enough from the ends of `isize` for every offset to be
    /// computed without overflow.
    pub open spec fn bounded(self) -> bool {
        isize::MIN + 2 <= self.x <= isize::MAX - 2 && isize::MIN + 2 <= self.y <= isize::MAX - 2
    }
}

/// Every template has four offsets, each within `-1..=2` across and `-2..=1` up.
pub proof fn lemma_template_shape(b: Block, d: Direction)
    ensures
        template(b, d).len() == 4,
        forall|i: int|
            0 <= i < 4 ==> -1 <= #[trigger] template(b, d)[i].0 <= 2 && -2 <= template(b, d)[i].1
                <= 1,
{
}

impl Direction {
    /// The next orientation in the clockwise cycle Up, Right, Down, Left.
    pub fn clockwise(&self) -> (r: Direction)
        ensures
            r == clockwise(*self),
    {
        match self {
            Direction::Up => Direction::Right,
            Direction::Right => Direction::Down,
            Direction::Down => Direction::Left,
            Direction::Left => Direction::Up,
        }
    }
}

/// The kind at position `i` of the list Block2x2, LeftL, RightL, LightningUp,
/// LightningDown, Line, Prod.
pub open spec fn block_at(i: int) -> Block {
    if i == 0 {
        Block::Block2x2
    } else if i == 1 {
        Block::LeftL
    } else if i == 2 {
        Block::RightL
    } else if i == 3 {
        Block::LightningUp
    } else if i == 4 {
        Block::LightningDown
    } else if i == 5 {
        Block::Line
    } else {
        Block::Prod
    }
}

/// Relies on rand::rng and rand::Rng::random_range: a value drawn from
/// `0..n`, a range that random_range refuses when empty.
#[verifier::external_body]
fn random_below(n: usize) -> (r: usize)
    requires
        n > 0,
    ensures
        r < n,
{
    rand::rng().random_range(0..n)
}

impl Block {
    /// The kind at position `i` of the list of kinds.
    pub fn from_index(i: usize) -> (r: Block)
        requires
            i < 7,
        ensures
            r == block_at(i as int),
    {
        if i == 0 {
            Block::Block2x2
        } else if i == 1 {
            Block::LeftL
        } else if i == 2 {
            Block::RightL
        } else if i == 3 {
            Block::LightningUp
        } else if i == 4 {
            Block::LightningDown
        } else if i == 5 {
            Block::Line
        } else {
            Block::Prod
        }
    }

    /// A kind chosen at random.
    pub fn random() -> (r: Block)
        ensures
            exists|i: int| 0 <= i < 7 && r == block_at(i),
    {
        let i = random_below(7);
        Block::from_index(i)
    }

    /// The four cells that this kind occupies in orientation `direction` at `cursor`.
    pub fn realize(&self, direction: &Direction, cursor: &Cursor) -> (r: [(isize, isize); 4])
        requires
            cursor.bounded(),
        ensures
            cells_view(r@) == cells(*self, *direction, *cursor),
            forall|i: int|
                0 <= i < 4 ==> (r[i].0 as int, r[i].1 as int) == #[trigger] cells(
                    *self,
                    *direction,
                    *cursor,
                )[i],
    {
        let (x, y) = (cursor.x, cursor.y);
        let r = match self {
            Block::Block2x2 => [(x, y), (x, y + 1), (x + 1, y), (x + 1, y + 1)],
            Block::LeftL => match direction {
                Direction::Up => [(x, y + 1), (x, y), (x, y - 1), (x + 1, y - 1)],
                Direction::Left => [(x - 1, y - 1), (x, y - 1), (x + 1, y), (x + 1, y - 1)],
                Direction::Right => [(x, y), (x, y - 1), (x + 1, y), (x + 2, y)],
                Direction::Down => [(x, y), (x + 1, y), (x + 1, y - 1), (x + 1, y - 2)],
            },
            Block::RightL => match direction {
                Direction::Up => [(x + 1, y + 1), (x + 1, y), (x, y - 1), (x + 1, y - 1)],
                Direction::Left => [(x - 1, y), (x, y), (x + 1, y), (x + 1, y - 1)],
                Direction::Right => [(x, y), (x, y - 1), (x + 1, y - 1), (x + 2, y - 1)],
                Direction::Down => [(x, y), (x + 1, y), (x, y - 1), (x, y - 2)],
            },
            Block::LightningUp => match direction {
                Direction::Up | Direction::Down => [(x + 1, y + 1), (x, y), (x + 1, y), (x, y - 1)],
                _ => [(x - 1, y), (x, y), (x, y - 1), (x + 1, y - 1)],
            },
            Block::LightningDown => match direction {
                Direction::Up | Direction::Down => [(x, y + 1), (x, y), (x + 1, y), (x + 1, y - 1)],
                _ => [(x - 1, y - 1), (x, y), (x + 1, y), (x, y - 1)],
            },
            Block::Line => match direction {
                Direction::Up | Direction::Down => [(x, y + 1), (x, y), (x, y - 1), (x, y - 2)],
                _ => [(x - 1, y), (x, y), (x + 1, y), (x + 2, y)],
            },
            Block::Prod => match direction {
                Direction::Up => [(x, y + 1), (x - 1, y), (x, y), (x + 1, y)],
                Direction::Left => [(x, y + 1), (x - 1, y), (x, y), (x, y - 1)],
                Direction::Right => [(x, y + 1), (x, y), (x + 1, y), (x, y - 1)],
                Direction::Down => [(x - 1, y), (x, y), (x + 1, y), (x, y - 1)],
            },
        };
        assert(cells_view(r@) =~= cells(*self, *direction, *cursor));
        assert forall|i: int| 0 <= i < 4 implies (r[i].0 as int, r[i].1 as int) == #[trigger] cells(
            *self,
            *direction,
            *cursor,
        )[i] by {
            assert(cells_view(r@)[i] == (r@[i].0 as int, r@[i].1 as int));
        }
        r
    }
}

/// A realized piece never covers one cell twice.
pub proof fn lemma_cells_distinct(b: Block, d: Direction, c: Cursor)
    ensures
        cells(b, d, c).len() == 4,
        distinct(cells(b, d, c)),
{
    lemma_template_shape(b, d);
    let t = template(b, d);
    assert(distinct(t));
    let s = cells(b, d, c);
    assert forall|i: int, j: int| 0 <= i < 4 && 0 <= j < 4 && i != j implies s[i] != s[j] by {
        assert(t[i] != t[j]);
    }
}

/// Four clockwise turns bring a piece back to the cells it started on.
pub proof fn lemma_rotation_period(b: Block, d: Direction, c: Cursor)
    ensures
        clockwise(clockwise(clockwise(clockwise(d)))) == d,
        cells(b, clockwise(clockwise(clockwise(clockwise(d)))), c) == cells(b, d, c),
{
}

} // verus!
