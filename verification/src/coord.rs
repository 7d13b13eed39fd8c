//! Coordinates on an unbounded plane and their mapping into a toroidal
//! grid.
//!
//! A [`Coord`] names a position on the plane. It becomes a cell of a grid
//! of `width` by `height` cells only by wrapping: both axes are reduced
//! by Euclidean remainder, so that a position to the left of column 0
//! lands in the last columns, never on a negative index.

use crate::lcg::next_state;
use crate::lcg::nth_output;
use crate::lcg::state_after;
use crate::lcg::LCG;
use vstd::prelude::*;

verus! {

/// The signed 16-bit number that the low 16 bits of `value` spell in
/// two's complement.
pub open spec fn low_i16(value: u32) -> i16 {
    let low = value as int % 0x1_0000;
    if low < 0x8000 {
        low as i16
    } else {
        (low - 0x1_0000) as i16
    }
}

/// The position that draws number `2 * index` and `2 * index + 1` of a
/// generator started in `state` give: the first is its column, the
/// second its row.
pub open spec fn drawn_coord(state: u64, index: nat) -> Coord {
    Coord {
        x: low_i16(nth_output(state, 2 * index)),
        y: low_i16(nth_output(state, 2 * index + 1)),
    }
}

/// The row-major index, in a grid of `width` by `height` cells, of the
/// cell onto which the position `(x, y)` wraps.
pub open spec fn wrapped_index(x: int, y: int, width: int, height: int) -> int {
    (y % height) * width + (x % width)
}

/// A position on the plane.
#[derive(Debug, Clone, Copy, Hash, PartialEq, Eq, Structural)]
pub struct Coord {
    pub x: i16,
    pub y: i16,
}

impl Coord {
    /// Whether the position moved by `(dx, dy)` is still a `Coord`.
    pub open spec fn can_shift(self, dx: int, dy: int) -> bool {
        &&& i16::MIN <= self.x + dx <= i16::MAX
        &&& i16::MIN <= self.y + dy <= i16::MAX
    }

    /// The position moved by `(dx, dy)`.
    pub open spec fn shifted(self, dx: int, dy: int) -> Coord
        recommends
            self.can_shift(dx, dy),
    {
        Coord { x: (self.x + dx) as i16, y: (self.y + dy) as i16 }
    }

    /// Whether all eight neighbours of the position are `Coord`s.
    pub open spec fn has_neighborhood(self) -> bool {
        &&& i16::MIN < self.x < i16::MAX
        &&& i16::MIN < self.y < i16::MAX
    }

    /// The Moore neighbourhood of the position, row by row from the
    /// north-west corner to the south-east corner.
    pub open spec fn neighborhood(self) -> Seq<Coord>
        recommends
            self.has_neighborhood(),
    {
        seq![
            self.shifted(-1, -1),
            self.shifted(0, -1),
            self.shifted(1, -1),
            self.shifted(-1, 0),
            self.shifted(1, 0),
            self.shifted(-1, 1),
            self.shifted(0, 1),
            self.shifted(1, 1),
        ]
    }

    /// Whether `other` touches the position: it is another position, at
    /// most one column and one row away.
    pub open spec fn is_adjacent(self, other: Coord) -> bool {
        &&& other != self
        &&& -1 <= other.x - self.x <= 1
        &&& -1 <= other.y - self.y <= 1
    }

    /// Moves the position by `(velx, vely)`, without wrapping.
    pub fn step(&self, velx: i16, vely: i16) -> (moved: Coord)
        requires
            self.can_shift(velx as int, vely as int),
        ensures
            moved == self.shifted(velx as int, vely as int),
    {
        Self { x: self.x + velx, y: self.y + vely }
    }

    /// Lists the eight neighbours of the position, in the order NW, N,
    /// NE, W, E, SW, S, SE: eight positions, no two of them equal and
    /// none of them the position itself.
    pub fn neighbors(&self) -> (around: Vec<Coord>)
        requires
            self.has_neighborhood(),
        ensures
            around@ == self.neighborhood(),
            around@.len() == 8,
            forall|i: int, j: int| 0 <= i < j < 8 ==> around@[i] != around@[j],
            forall|i: int| 0 <= i < 8 ==> around@[i] != *self,
    {
        proof {
            lemma_neighborhood_complete(*self);
        }
        vec![
            self.step(-1, -1),
            self.step(0, -1),
            self.step(1, -1),
            self.step(-1, 0),
            self.step(1, 0),
            self.step(-1, 1),
            self.step(0, 1),
            self.step(1, 1),
        ]
    }

    /// Draws `take` positions from `rng`, two values for each: the
    /// column, then the row, each cut to its low 16 bits.
    pub fn random_coords(rng: &mut LCG, take: usize) -> (coords: Vec<Self>)
        ensures
            coords@.len() == take,
            forall|i: int| 0 <= i < take ==> coords@[i] == drawn_coord(old(rng)@, i as nat),
            final(rng)@ == state_after(old(rng)@, 2 * (take as nat)),
    {
        let mut coords: Vec<Self> = Vec::new();
        for drawn in 0..take
            invariant
                coords@.len() == drawn,
                forall|i: int| 0 <= i < drawn ==> coords@[i] == drawn_coord(old(rng)@, i as nat),
                rng@ == state_after(old(rng)@, 2 * (drawn as nat)),
        {
            let x = rng.next().unwrap();
            let y = rng.next().unwrap();
            proof {
                let start = old(rng)@;
                let before = 2 * (drawn as nat);
                assert(state_after(start, before + 1) == next_state(state_after(start, before)));
                assert(state_after(start, before + 2) == next_state(
                    state_after(start, before + 1),
                ));
                lemma_low_i16(x);
                lemma_low_i16(y);
            }
            coords.push(
                Self { x: #[verifier::truncate] (x as i16), y: #[verifier::truncate] (y as i16) },
            );
        }
        coords
    }

    /// Wraps the position into a grid of `width` by `height` cells.
    pub fn wrap(&self, width: u8, height: u8) -> (inside: Coord)
        requires
            width > 0,
            height > 0,
        ensures
            inside.x == self.x as int % width as int,
            inside.y == self.y as int % height as int,
            0 <= inside.x < width,
            0 <= inside.y < height,
    {
        Self { x: wrap_axis(self.x, width), y: wrap_axis(self.y, height) }
    }

    /// The row-major index of the cell onto which the position wraps in a
    /// grid of `width` by `height` cells.
    pub fn index_in(&self, width: u8, height: u8) -> (index: usize)
        requires
            width > 0,
            height > 0,
        ensures
            index == wrapped_index(self.x as int, self.y as int, width as int, height as int),
            index < width * height,
    {
        let coord = self.wrap(width, height);
        proof {
            lemma_wrapped_index_in_grid(self.x as int, self.y as int, width as int, height as int);
            assert(coord.y * width <= 255 * 255) by (nonlinear_arith)
                requires
                    0 <= coord.y < 255,
                    0 < width <= 255,
            ;
        }
        (coord.y as usize) * (width as usize) + (coord.x as usize)
    }
}

/// Reduces `value` to its Euclidean remainder modulo `modulus`.
fn wrap_axis(value: i16, modulus: u8) -> (residue: i16)
    requires
        modulus > 0,
    ensures
        residue == value as int % modulus as int,
        0 <= residue < modulus,
{
    let reduced = value.checked_rem_euclid(modulus as i16);
    reduced.unwrap()
}

/// Casting to `i16` keeps the low 16 bits.
proof fn lemma_low_i16(value: u32)
    ensures
        value as i16 == low_i16(value),
{
    assert(value as i16 == (if (value % 0x1_0000) < 0x8000 {
        (value % 0x1_0000) as i16
    } else {
        ((value % 0x1_0000) - 0x1_0000) as i16
    })) by (bit_vector);
}

/// A wrapped index names a cell of the grid.
pub proof fn lemma_wrapped_index_in_grid(x: int, y: int, width: int, height: int)
    requires
        0 < width,
        0 < height,
    ensures
        0 <= wrapped_index(x, y, width, height) < width * height,
{
    let row = y % height;
    assert(0 <= row * width && row * width + width <= height * width) by (nonlinear_arith)
        requires
            0 <= row < height,
            0 < width,
    ;
    assert(height * width == width * height) by (nonlinear_arith);
}

/// The neighbourhood of a position holds eight positions, no two of them
/// equal and none of them the position itself, and it holds every
/// position that touches it.
pub proof fn lemma_neighborhood_complete(center: Coord)
    requires
        center.has_neighborhood(),
    ensures
        center.neighborhood().len() == 8,
        forall|i: int, j: int|
            0 <= i < j < 8 ==> center.neighborhood()[i] != center.neighborhood()[j],
        forall|i: int| 0 <= i < 8 ==> center.neighborhood()[i] != center,
        forall|other: Coord| center.neighborhood().contains(other) <==> center.is_adjacent(other),
{
    let around = center.neighborhood();
    assert forall|other: Coord| around.contains(other) <==> center.is_adjacent(other) by {
        if center.is_adjacent(other) {
            let dx = other.x - center.x;
            let dy = other.y - center.y;
            let k: int = if dy == -1 {
                dx + 1
            } else if dy == 0 {
                if dx == -1 {
                    3
                } else {
                    4
                }
            } else {
                dx + 6
            };
            assert(around[k] == other);
        }
    }
}

} // verus!
