use vstd::prelude::*;

verus! {

/// The marking recorded at one lattice point.
#[derive(Clone, Copy, Debug, PartialEq, Eq, Hash, Structural)]
pub enum Direction {
    Up,
    Down,
    Left,
    Right,
}

/// The marking that carries the horizontal bit `h` and the vertical bit `v`:
/// (0,0) is up, (1,0) left, (0,1) right and (1,1) down.
pub open spec fn direction_of(h: bool, v: bool) -> Direction {
    match (h, v) {
        (false, false) => Direction::Up,
        (true, false) => Direction::Left,
        (false, true) => Direction::Right,
        (true, true) => Direction::Down,
    }
}

impl Direction {
    /// The horizontal bit of a marking.
    pub open spec fn h_bit(self) -> bool {
        self is Left || self is Down
    }

    /// The vertical bit of a marking.
    pub open spec fn v_bit(self) -> bool {
        self is Right || self is Down
    }

    pub fn from_bits(h: bool, v: bool) -> (d: Direction)
        ensures
            d == direction_of(h, v),
            d.h_bit() == h,
            d.v_bit() == v,
    {
        match (h, v) {
            (false, false) => Direction::Up,
            (true, false) => Direction::Left,
            (false, true) => Direction::Right,
            (true, true) => Direction::Down,
        }
    }

    pub fn horizontal_bit(&self) -> (b: bool)
        ensures
            b == self.h_bit(),
    {
        match self {
            Direction::Left | Direction::Down => true,
            _ => false,
        }
    }

    pub fn vertical_bit(&self) -> (b: bool)
        ensures
            b == self.v_bit(),
    {
        match self {
            Direction::Right | Direction::Down => true,
            _ => false,
        }
    }
}

} // verus!

verus! {

/// The two bits and the marking determine each other.
pub proof fn lemma_direction_bits(d: Direction, h: bool, v: bool)
    ensures
        direction_of(h, v).h_bit() == h,
        direction_of(h, v).v_bit() == v,
        direction_of(d.h_bit(), d.v_bit()) == d,
{
}

} // verus!
