//! Directions and snakes: turning, moving and growing on the torus.

use std::collections::VecDeque;

use vstd::prelude::*;

use crate::game::board::{on_board, wrapped, Board, Position};

verus! {

/// The four headings. On the wire they are the numbers 0 to 3, in this order.
#[derive(Clone, Copy, PartialEq, Eq, Debug, Structural)]
pub enum Direction {
    Up,
    Right,
    Down,
    Left,
}

impl Direction {
    /// The heading that points the other way.
    #[verifier::allow_in_spec]
    pub fn opposite(&self) -> Direction
        returns
            (match self {
                Direction::Up => Direction::Down,
                Direction::Down => Direction::Up,
                Direction::Left => Direction::Right,
                Direction::Right => Direction::Left,
            }),
    {
        match self {
            Direction::Up => Direction::Down,
            Direction::Down => Direction::Up,
            Direction::Left => Direction::Right,
            Direction::Right => Direction::Left,
        }
    }

    /// The heading that the wire number `val` stands for: 0 up, 1 right,
    /// 2 down, 3 left; any other number stands for none.
    #[verifier::allow_in_spec]
    pub fn from_u8(val: u8) -> Option<Direction>
        returns
            (if val == 0 {
                Some(Direction::Up)
            } else if val == 1 {
                Some(Direction::Right)
            } else if val == 2 {
                Some(Direction::Down)
            } else if val == 3 {
                Some(Direction::Left)
            } else {
                None
            }),
    {
        match val {
            0 => Some(Direction::Up),
            1 => Some(Direction::Right),
            2 => Some(Direction::Down),
            3 => Some(Direction::Left),
            _ => None,
        }
    }

    /// The wire number of the heading: 0 up, 1 right, 2 down, 3 left.
    #[verifier::allow_in_spec]
    pub fn to_u8(&self) -> u8
        returns
            (match self {
                Direction::Up => 0u8,
                Direction::Right => 1u8,
                Direction::Down => 2u8,
                Direction::Left => 3u8,
            }),
    {
        match self {
            Direction::Up => 0,
            Direction::Right => 1,
            Direction::Down => 2,
            Direction::Left => 3,
        }
    }

    /// One step in this heading, as `(dx, dy)`; `y` grows downwards.
    #[verifier::allow_in_spec]
    pub fn delta(&self) -> (i32, i32)
        returns
            (match self {
                Direction::Up => (0i32, -1i32),
                Direction::Down => (0i32, 1i32),
                Direction::Left => (-1i32, 0i32),
                Direction::Right => (1i32, 0i32),
            }),
    {
        match self {
            Direction::Up => (0, -1),
            Direction::Down => (0, 1),
            Direction::Left => (-1, 0),
            Direction::Right => (1, 0),
        }
    }
}

/// The cell one step from `p` in heading `dir`, wrapped around the board.
pub open spec fn ahead(p: Position, dir: Direction, width: int, height: int) -> Position {
    let (dx, dy) = dir.delta();
    wrapped(width, height, p.x + dx, p.y + dy)
}

/// The cell `k` steps behind `start` for a snake heading `dir`, wrapped.
pub open spec fn behind(start: Position, dir: Direction, k: int, width: int, height: int) -> Position {
    match dir {
        Direction::Up => wrapped(width, height, start.x as int, start.y + k),
        Direction::Down => wrapped(width, height, start.x as int, start.y - k),
        Direction::Left => wrapped(width, height, start.x + k, start.y as int),
        Direction::Right => wrapped(width, height, start.x - k, start.y as int),
    }
}

/// The body of a fresh snake: `start` first, then the cells behind it, one per
/// segment; a length of 0 still gives the one segment at `start`.
pub open spec fn fresh_body(
    start: Position,
    dir: Direction,
    length: u16,
    width: int,
    height: int,
) -> Seq<Position> {
    let n: nat = if length == 0 { 1 } else { length as nat };
    Seq::new(n, |k: int| if k == 0 { start } else { behind(start, dir, k, width, height) })
}

/// One more step behind the last cell of a trail is the next cell of the trail.
proof fn lemma_trail_step(start: Position, dir: Direction, k: int, width: int, height: int)
    requires
        k >= 1,
        width > 0,
        height > 0,
        width <= u16::MAX + 1,
        height <= u16::MAX + 1,
    ensures
        ({
            let prev = if k == 1 { start } else { behind(start, dir, k - 1, width, height) };
            let (dx, dy) = dir.opposite().delta();
            wrapped(width, height, prev.x + dx, prev.y + dy) == behind(start, dir, k, width, height)
        }),
{
    if k >= 2 {
        let (a, m) = match dir {
            Direction::Up => (start.y + (k - 1), height),
            Direction::Down => (start.y - (k - 1), height),
            Direction::Left => (start.x + (k - 1), width),
            Direction::Right => (start.x - (k - 1), width),
        };
        vstd::arithmetic::div_mod::lemma_mod_bound(a, m);
        vstd::arithmetic::div_mod::lemma_add_mod_noop_right(1, a, m);
        vstd::arithmetic::div_mod::lemma_add_mod_noop_right(-1, a, m);
        vstd::arithmetic::div_mod::lemma_mod_bound(start.x as int, width);
        vstd::arithmetic::div_mod::lemma_mod_bound(start.y as int, height);
        vstd::arithmetic::div_mod::lemma_mod_twice(start.x as int, width);
        vstd::arithmetic::div_mod::lemma_mod_twice(start.y as int, height);
    }
}

/// A snake as plain values.
#[verifier::ext_equal]
pub struct SnakeModel {
    pub name: Seq<char>,
    pub body: Seq<Position>,
    pub dir: Direction,
    pub crowns: u32,
    pub next_dir: Option<Direction>,
    pub growing: u32,
}

/// The snake once `dir` is queued as its next heading; a reversal is ignored.
pub open spec fn queued(m: SnakeModel, dir: Direction) -> SnakeModel {
    SnakeModel { next_dir: if dir != m.dir.opposite() { Some(dir) } else { m.next_dir }, ..m }
}

/// The snake once its queued turn, if any, has been taken.
pub open spec fn turned(m: SnakeModel) -> SnakeModel {
    SnakeModel {
        dir: match m.next_dir {
            Some(d) => d,
            None => m.dir,
        },
        next_dir: None,
        ..m
    }
}

/// The snake once it has moved one cell: a new head in front; the tail cell
/// stays while the snake is still growing (one pending segment is used up), and
/// is dropped otherwise.
pub open spec fn advanced(m: SnakeModel, width: int, height: int) -> SnakeModel {
    let head = ahead(m.body[0], m.dir, width, height);
    SnakeModel {
        body: if m.growing > 0 {
            seq![head] + m.body
        } else {
            seq![head] + m.body.drop_last()
        },
        growing: if m.growing > 0 {
            (m.growing - 1) as u32
        } else {
            0
        },
        ..m
    }
}

/// A snake of the game. Its body runs from head to tail.
pub struct Snake {
    pub name: String,
    pub body: VecDeque<Position>,
    pub dir: Direction,
    pub crowns: u32,
    pub next_dir: Option<Direction>,
    pub growing: u32,
}

impl View for Snake {
    type V = SnakeModel;

    open spec fn view(&self) -> SnakeModel {
        SnakeModel {
            name: self.name@,
            body: self.body@,
            dir: self.dir,
            crowns: self.crowns,
            next_dir: self.next_dir,
            growing: self.growing,
        }
    }
}

impl Snake {
    /// A snake called `name` with its head at `start_pos`, heading `dir`, whose
    /// `length` segments trail behind the head (at least one segment), with no
    /// crowns, no queued turn and no pending growth. Every segment after the
    /// head wraps around the board, so a board without cells allows one segment.
    pub fn new(name: String, start_pos: Position, dir: Direction, length: u16, board: &Board) -> (s:
        Snake)
        requires
            length <= 1 || (board.width > 0 && board.height > 0),
        ensures
            s@ == (SnakeModel {
                name: name@,
                body: fresh_body(start_pos, dir, length, board.width as int, board.height as int),
                dir,
                crowns: 0,
                next_dir: None,
                growing: 0,
            }),
    {
        let ghost w = board.width as int;
        let ghost h = board.height as int;
        let ghost target = fresh_body(start_pos, dir, length, w, h);
        let mut body: VecDeque<Position> = VecDeque::with_capacity(length as usize);
        body.push_back(start_pos);
        let opposite = dir.opposite().delta();
        let mut i: u16 = 1;
        while i < length
            invariant
                1 <= i,
                i <= length || (length == 0 && i == 1),
                length <= 1 || (board.width > 0 && board.height > 0),
                w == board.width,
                h == board.height,
                opposite == dir.opposite().delta(),
                target == fresh_body(start_pos, dir, length, w, h),
                body@.len() == i,
                forall|k: int| 0 <= k < i ==> body@[k] == target[k],
            decreases length - i,
        {
            let prev = body[body.len() - 1];
            let pos = board.wrap(prev.x as i32 + opposite.0, prev.y as i32 + opposite.1);
            proof {
                lemma_trail_step(start_pos, dir, i as int, w, h);
                assert(prev == target[i - 1]);
                assert(pos == target[i as int]);
            }
            body.push_back(pos);
            i = i + 1;
        }
        assert(body@ =~= target);
        Snake { name, body, dir, crowns: 0, next_dir: None, growing: 0 }
    }

    /// Queues `dir` as the next heading, unless it would reverse the snake.
    pub fn queue_turn(&mut self, dir: Direction)
        ensures
            final(self)@ == queued(old(self)@, dir),
    {
        if dir != self.dir.opposite() {
            self.next_dir = Some(dir);
        }
    }

    /// Takes the queued turn, if any.
    pub fn apply_turn(&mut self)
        ensures
            final(self)@ == turned(old(self)@),
    {
        if let Some(dir) = self.next_dir.take() {
            self.dir = dir;
        }
    }

    /// Moves the snake one cell in its heading.
    pub fn advance(&mut self, board: &Board)
        requires
            old(self).body@.len() > 0,
            board.width > 0,
            board.height > 0,
        ensures
            final(self)@ == advanced(old(self)@, board.width as int, board.height as int),
    {
        let (dx, dy) = self.dir.delta();
        let head = self.head();
        let new_head = board.wrap(head.x as i32 + dx, head.y as i32 + dy);
        self.body.push_front(new_head);
        if self.growing > 0 {
            self.growing = self.growing - 1;
        } else {
            let _ = self.body.pop_back();
        }
        assert(self.body@ =~= advanced(old(self)@, board.width as int, board.height as int).body);
    }

    /// One more segment to add on a later move.
    pub fn grow(&mut self)
        requires
            old(self).growing < u32::MAX,
        ensures
            final(self)@ == (SnakeModel { growing: (old(self).growing + 1) as u32, ..old(self)@ }),
    {
        self.growing = self.growing + 1;
    }

    /// The cell of the head.
    pub fn head(&self) -> (p: Position)
        requires
            self.body@.len() > 0,
        ensures
            p == self.body@[0],
    {
        self.body[0]
    }

    /// The number of segments.
    pub fn len(&self) -> (n: usize)
        ensures
            n == self.body@.len(),
    {
        self.body.len()
    }
}

} // verus!
