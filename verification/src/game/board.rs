//! The toroidal board and the food on it.

use vstd::prelude::*;

use crate::chance;
use crate::chance::Dice;

verus! {

/// A cell of the board.
#[derive(Clone, Copy, PartialEq, Eq, Debug, Structural)]
pub struct Position {
    pub x: u16,
    pub y: u16,
}

/// The cell that the coordinates `(x, y)` denote on a `width` by `height` torus:
/// each coordinate taken modulo its dimension (the remainder is never negative).
pub open spec fn wrapped(width: int, height: int, x: int, y: int) -> Position {
    Position { x: (x % width) as u16, y: (y % height) as u16 }
}

/// Whether `p` lies on a `width` by `height` board.
pub open spec fn on_board(width: int, height: int, p: Position) -> bool {
    p.x < width && p.y < height
}

/// `after` is `before` with two more numbers drawn: the coordinates of `p`,
/// `x` then `y`.
pub open spec fn drew_cell(before: Seq<u64>, after: Seq<u64>, p: Position) -> bool {
    after == before.push(p.x as u64).push(p.y as u64)
}

/// A `width` by `height` torus with one cell of food.
pub struct Board {
    pub width: u16,
    pub height: u16,
    pub food: Position,
}

impl Board {
    /// The board has cells, and the food lies on one of them.
    pub open spec fn wf(&self) -> bool {
        &&& self.width > 0
        &&& self.height > 0
        &&& on_board(self.width as int, self.height as int, self.food)
    }

    /// A board of the given size with the food on a random cell.
    /// `rand` panics on an empty range, so both dimensions must be positive.
    pub fn new(width: u16, height: u16, rng: &mut rand::rngs::StdRng) -> (b: Board)
        requires
            width > 0,
            height > 0,
        ensures
            b.width == width,
            b.height == height,
            b.wf(),
    {
        let x = chance::below_u16(rng, width);
        let y = chance::below_u16(rng, height);
        Board { width, height, food: Position { x, y } }
    }

    /// The cell that `(x, y)` denotes once both coordinates wrap around the board.
    pub fn wrap(&self, x: i32, y: i32) -> (p: Position)
        requires
            self.width > 0,
            self.height > 0,
        ensures
            p == wrapped(self.width as int, self.height as int, x as int, y as int),
            on_board(self.width as int, self.height as int, p),
    {
        let w = self.width as i32;
        let h = self.height as i32;
        let rx = x.checked_rem_euclid(w).unwrap();
        let ry = y.checked_rem_euclid(h).unwrap();
        Position { x: rx as u16, y: ry as u16 }
    }

    /// Moves the food to a random cell of the board; the size stays.
    pub fn spawn_food(&mut self, rng: &mut rand::rngs::StdRng)
        requires
            old(self).width > 0,
            old(self).height > 0,
        ensures
            final(self).width == old(self).width,
            final(self).height == old(self).height,
            final(self).wf(),
    {
        let x = chance::below_u16(rng, self.width);
        let y = chance::below_u16(rng, self.height);
        self.food = Position { x, y };
    }

    /// Moves the food to the cell whose coordinates are the next two numbers
    /// drawn from `dice`, `x` then `y`; the size stays.
    pub fn respawn_food(&mut self, dice: &mut Dice)
        requires
            old(self).width > 0,
            old(self).height > 0,
        ensures
            final(self).width == old(self).width,
            final(self).height == old(self).height,
            final(self).wf(),
            drew_cell(old(dice).draws(), final(dice).draws(), final(self).food),
    {
        let x = dice.below_u16(self.width);
        let y = dice.below_u16(self.height);
        self.food = Position { x, y };
    }

    /// The cell that holds the food.
    pub fn food(&self) -> (p: Position)
        ensures
            p == self.food,
    {
        self.food
    }
}

} // verus!
