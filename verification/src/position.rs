use vstd::prelude::*;

use crate::direction::Direction;

verus! {

/// The size of a grid; fixed for the lifetime of a `Map`.
#[derive(Clone, Copy, Debug, PartialEq, Eq, Hash, Structural)]
pub struct Dimensions {
    pub width: usize,
    pub height: usize,
}

impl Dimensions {
    /// Dimensions a grid can actually be built with: both sides positive,
    /// small enough that every coordinate fits in `isize` and the cell
    /// count fits in `usize`.
    pub open spec fn valid(self) -> bool {
        &&& 1 <= self.width
        &&& 1 <= self.height
        &&& self.width + 2 <= isize::MAX
        &&& self.height + 2 <= isize::MAX
        &&& self.width * self.height <= isize::MAX
    }
}

/// A signed 2D grid coordinate. Signed so that an in-bounds test can
/// reject a negative component before any cast to an unsigned index.
#[derive(Clone, Copy, Debug, PartialEq, Eq, Hash, Structural)]
pub struct Position {
    pub x: isize,
    pub y: isize,
}

impl Position {
    pub open spec fn in_bounds(self, dimensions: Dimensions) -> bool {
        &&& 0 <= self.x < dimensions.width
        &&& 0 <= self.y < dimensions.height
    }

    /// The row-major linear index of this position in a grid of the
    /// given stride (row width).
    pub open spec fn linear(self, stride: usize) -> int {
        self.y * stride + self.x
    }

    /// The position one step away in the given direction. `Up` decreases
    /// `y`; the origin is the grid's top-left corner.
    pub open spec fn spec_step(self, direction: Direction) -> Position {
        match direction {
            Direction::Right => Position { x: (self.x + 1) as isize, y: self.y },
            Direction::Up => Position { x: self.x, y: (self.y - 1) as isize },
            Direction::Left => Position { x: (self.x - 1) as isize, y: self.y },
            Direction::Down => Position { x: self.x, y: (self.y + 1) as isize },
        }
    }

    pub fn step(self, direction: Direction) -> (r: Position)
        requires
            isize::MIN < self.x < isize::MAX,
            isize::MIN < self.y < isize::MAX,
        ensures
            r == self.spec_step(direction),
    {
        match direction {
            Direction::Right => Position { x: self.x + 1, y: self.y },
            Direction::Up => Position { x: self.x, y: self.y - 1 },
            Direction::Left => Position { x: self.x - 1, y: self.y },
            Direction::Down => Position { x: self.x, y: self.y + 1 },
        }
    }

    pub fn is_within_bounds(self, dimensions: Dimensions) -> (r: bool)
        ensures
            r == self.in_bounds(dimensions),
    {
        0 <= self.x && (self.x as usize) < dimensions.width && 0 <= self.y && (self.y as usize)
            < dimensions.height
    }

    /// Recovers the position whose row-major linear index is `i`.
    pub fn from_linear(i: usize, stride: usize) -> (r: Position)
        requires
            1 <= stride,
            i / stride <= isize::MAX,
            i % stride <= isize::MAX,
        ensures
            r.x == i % stride,
            r.y == i / stride,
            r.linear(stride) == i,
    {
        let r = Position { x: (i % stride) as isize, y: (i / stride) as isize };
        proof {
            vstd::arithmetic::div_mod::lemma_fundamental_div_mod(i as int, stride as int);
            assert(r.linear(stride) == (i / stride) * stride + (i % stride));
            assert((i / stride) * stride == stride * (i / stride)) by (nonlinear_arith);
        }
        r
    }

    pub fn to_linear(self, stride: usize) -> (r: usize)
        requires
            0 <= self.x < stride,
            0 <= self.y,
            self.y * stride + self.x <= usize::MAX,
        ensures
            r == self.linear(stride),
    {
        (self.y as usize) * stride + (self.x as usize)
    }

    /// The four-directional (taxicab) distance between two positions.
    pub fn manhattan_distance(&self, other: &Position) -> (r: usize)
        requires
            0 <= self.x,
            0 <= self.y,
            0 <= other.x,
            0 <= other.y,
        ensures
            r == vstd::math::abs(self.x - other.x) + vstd::math::abs(self.y - other.y),
    {
        let dx = if self.x >= other.x {
            self.x - other.x
        } else {
            other.x - self.x
        };
        let dy = if self.y >= other.y {
            self.y - other.y
        } else {
            other.y - self.y
        };
        (dx as usize) + (dy as usize)
    }
}

/// Round-trip between a position and its linear index: converting an
/// in-bounds position to a linear index and back yields the same position.
pub proof fn lemma_linear_round_trip(p: Position, dimensions: Dimensions)
    requires
        dimensions.valid(),
        p.in_bounds(dimensions),
    ensures
        0 <= p.linear(dimensions.width) < dimensions.width * dimensions.height,
        p.linear(dimensions.width) % (dimensions.width as int) == p.x,
        p.linear(dimensions.width) / (dimensions.width as int) == p.y,
{
    let w = dimensions.width as int;
    let h = dimensions.height as int;
    assert(p.y * w + p.x < w * h && 0 <= p.y * w) by (nonlinear_arith)
        requires
            0 <= p.x < w,
            0 <= p.y < h,
            1 <= w,
    ;
    vstd::arithmetic::div_mod::lemma_fundamental_div_mod_converse(
        p.linear(dimensions.width),
        w,
        p.y as int,
        p.x as int,
    );
}

/// Two distinct in-bounds positions never share a linear index.
pub proof fn lemma_linear_injective(p: Position, q: Position, dimensions: Dimensions)
    requires
        dimensions.valid(),
        p.in_bounds(dimensions),
        q.in_bounds(dimensions),
        p.linear(dimensions.width) == q.linear(dimensions.width),
    ensures
        p == q,
{
    lemma_linear_round_trip(p, dimensions);
    lemma_linear_round_trip(q, dimensions);
}


/// The compact signed coordinate pair the wire format carries: one
/// byte per axis. Grids small enough for the protocol always fit it.
#[derive(Clone, Copy, Debug, PartialEq, Eq, Hash, Structural)]
pub struct ShittyPosition {
    pub x: i8,
    pub y: i8,
}

impl ShittyPosition {
    pub fn new(x: i8, y: i8) -> (r: ShittyPosition)
        ensures
            r == (ShittyPosition { x, y }),
    {
        ShittyPosition { x, y }
    }

    /// The same coordinate widened to the grid's native form.
    pub fn to_position(self) -> (r: Position)
        ensures
            r.x == self.x,
            r.y == self.y,
    {
        Position { x: self.x as isize, y: self.y as isize }
    }
}

} // verus!

