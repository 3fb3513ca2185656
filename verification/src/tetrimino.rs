//! Piece catalog: the seven piece shapes, their colors, and their
//! rotation-state occupancy masks.
//!
//! A mask is a 4x4 boolean grid, stored row-major as flat indices 0..16.
//! The spec function [`occ`] is the authoritative definition of every mask;
//! the executable lookups are proved against it.

use vstd::prelude::*;

verus! {

/// A board cell value: empty, or one of the seven piece colors.
#[derive(Clone, Copy, Debug, PartialEq, Eq, Structural)]
pub enum Color {
    Empty,
    Cyan,
    Yellow,
    Purple,
    Green,
    Red,
    Blue,
    Orange,
}

/// The seven piece shapes.
#[derive(Clone, Copy, Debug, PartialEq, Eq, Structural)]
pub enum PieceType {
    I,
    O,
    T,
    S,
    Z,
    J,
    L,
}

/// Occupancy of flat mask cell `i` (row-major in a 4x4 grid) for piece type
/// `t` in rotation state `s`. Meaningful for `0 <= s < 4` and `0 <= i < 16`;
/// false outside the grid. The O piece has one effective mask, repeated for
/// every rotation state.
pub open spec fn occ(t: PieceType, s: int, i: int) -> bool {
    match t {
        PieceType::I => {
            if s == 0 {
                i == 2 || i == 6 || i == 10 || i == 14
            } else if s == 1 {
                i == 8 || i == 9 || i == 10 || i == 11
            } else if s == 2 {
                i == 1 || i == 5 || i == 9 || i == 13
            } else {
                i == 4 || i == 5 || i == 6 || i == 7
            }
        },
        PieceType::O => i == 1 || i == 2 || i == 5 || i == 6,
        PieceType::T => {
            if s == 0 {
                i == 4 || i == 5 || i == 6 || i == 9
            } else if s == 1 {
                i == 1 || i == 4 || i == 5 || i == 9
            } else if s == 2 {
                i == 1 || i == 4 || i == 5 || i == 6
            } else {
                i == 1 || i == 5 || i == 6 || i == 9
            }
        },
        PieceType::S => {
            if s == 0 {
                i == 1 || i == 2 || i == 4 || i == 5
            } else if s == 1 {
                i == 1 || i == 5 || i == 6 || i == 10
            } else if s == 2 {
                i == 5 || i == 6 || i == 8 || i == 9
            } else {
                i == 0 || i == 4 || i == 5 || i == 9
            }
        },
        PieceType::Z => {
            if s == 0 {
                i == 0 || i == 1 || i == 5 || i == 6
            } else if s == 1 {
                i == 2 || i == 5 || i == 6 || i == 9
            } else if s == 2 {
                i == 4 || i == 5 || i == 9 || i == 10
            } else {
                i == 1 || i == 4 || i == 5 || i == 8
            }
        },
        PieceType::J => {
            if s == 0 {
                i == 1 || i == 5 || i == 8 || i == 9
            } else if s == 1 {
                i == 0 || i == 4 || i == 5 || i == 6
            } else if s == 2 {
                i == 1 || i == 2 || i == 5 || i == 9
            } else {
                i == 4 || i == 5 || i == 6 || i == 10
            }
        },
        PieceType::L => {
            if s == 0 {
                i == 1 || i == 5 || i == 9 || i == 10
            } else if s == 1 {
                i == 0 || i == 1 || i == 2 || i == 4
            } else if s == 2 {
                i == 0 || i == 1 || i == 5 || i == 9
            } else {
                i == 2 || i == 4 || i == 5 || i == 6
            }
        },
    }
}

/// The fixed color of each piece type.
pub open spec fn color_spec(t: PieceType) -> Color {
    match t {
        PieceType::I => Color::Cyan,
        PieceType::O => Color::Yellow,
        PieceType::T => Color::Purple,
        PieceType::S => Color::Green,
        PieceType::Z => Color::Red,
        PieceType::J => Color::Blue,
        PieceType::L => Color::Orange,
    }
}

/// The numeric code of a piece type, as handed out to the renderer.
pub open spec fn piece_code(t: PieceType) -> u8 {
    match t {
        PieceType::I => 0,
        PieceType::O => 1,
        PieceType::T => 2,
        PieceType::S => 3,
        PieceType::Z => 4,
        PieceType::J => 5,
        PieceType::L => 6,
    }
}

/// Every mask has at least one occupied cell.
pub proof fn lemma_mask_nonempty(t: PieceType, s: int)
    requires
        0 <= s < 4,
    ensures
        exists|i: int| 0 <= i < 16 && occ(t, s, i),
{
    match t {
        PieceType::I => {
            assert(occ(t, s, if s == 0 { 2int } else if s == 1 { 8 } else if s == 2 { 1 } else { 4 }));
        },
        PieceType::O => {
            assert(occ(t, s, 1));
        },
        PieceType::T => {
            assert(occ(t, s, if s == 0 { 4int } else { 1 }));
        },
        PieceType::S => {
            assert(occ(t, s, if s == 3 { 0int } else if s == 2 { 5 } else { 1 }));
        },
        PieceType::Z => {
            assert(occ(t, s, if s == 0 { 0int } else if s == 1 { 2 } else if s == 2 { 4 } else { 1 }));
        },
        PieceType::J => {
            assert(occ(t, s, if s == 1 { 0int } else if s == 3 { 4 } else { 1 }));
        },
        PieceType::L => {
            assert(occ(t, s, if s == 1 { 0int } else if s == 3 { 2 } else if s == 2 { 0 } else { 1 }));
        },
    }
}

/// A piece together with its current rotation state.
pub struct Tetrimino {
    pub ttype: PieceType,
    pub state: usize,
}

impl Tetrimino {
    /// A piece of the given type in its initial rotation state.
    pub fn from(ttype: PieceType) -> (r: Tetrimino)
        ensures
            r.ttype == ttype,
            r.state == 0,
    {
        Tetrimino { ttype, state: 0 }
    }

    /// The color of this piece.
    pub fn color(&self) -> (r: Color)
        ensures
            r == color_spec(self.ttype),
    {
        Tetrimino::color_of(self.ttype)
    }

    /// The fixed color of a piece type.
    pub fn color_of(ttype: PieceType) -> (r: Color)
        ensures
            r == color_spec(ttype),
    {
        match ttype {
            PieceType::I => Color::Cyan,
            PieceType::O => Color::Yellow,
            PieceType::T => Color::Purple,
            PieceType::S => Color::Green,
            PieceType::Z => Color::Red,
            PieceType::J => Color::Blue,
            PieceType::L => Color::Orange,
        }
    }

    /// The occupancy mask of this piece in its current rotation state, as a
    /// flat row-major 4x4 grid.
    pub fn block(&self) -> (r: Vec<bool>)
        requires
            self.state < 4,
        ensures
            r@.len() == 16,
            forall|i: int| 0 <= i < 16 ==> r@[i] == occ(self.ttype, self.state as int, i),
    {
        Tetrimino::block_of(self.ttype, self.state)
    }

    /// The occupancy mask of a piece type in a given rotation state, as a
    /// flat row-major 4x4 grid.
    pub fn block_of(ttype: PieceType, state: usize) -> (r: Vec<bool>)
        requires
            state < 4,
        ensures
            r@.len() == 16,
            forall|i: int| 0 <= i < 16 ==> r@[i] == occ(ttype, state as int, i),
    {
        let mut r: Vec<bool> = Vec::new();
        let mut i: usize = 0;
        while i < 16
            invariant
                state < 4,
                i <= 16,
                r@.len() == i,
                forall|j: int| 0 <= j < i ==> r@[j] == occ(ttype, state as int, j),
            decreases 16 - i,
        {
            r.push(cell_occupied(ttype, state, i));
            i = i + 1;
        }
        r
    }

    /// The piece rotated one step clockwise; the shape is unchanged.
    pub fn rotate_clockwise(&self) -> (r: Tetrimino)
        requires
            self.state < 4,
        ensures
            r.ttype == self.ttype,
            r.state == (if self.state == 0 { 3int } else { self.state - 1 }),
    {
        Tetrimino {
            ttype: self.ttype,
            state: if self.state == 0 { 3 } else { self.state - 1 },
        }
    }

    /// The piece rotated one step counter-clockwise; the shape is unchanged.
    pub fn rotate_counter_clockwise(&self) -> (r: Tetrimino)
        requires
            self.state < 4,
        ensures
            r.ttype == self.ttype,
            r.state == (if self.state == 3 { 0int } else { self.state + 1 }),
    {
        Tetrimino {
            ttype: self.ttype,
            state: if self.state == 3 { 0 } else { self.state + 1 },
        }
    }
}

/// Executable occupancy lookup, proved equal to [`occ`].
pub fn cell_occupied(t: PieceType, s: usize, i: usize) -> (r: bool)
    requires
        s < 4,
        i < 16,
    ensures
        r == occ(t, s as int, i as int),
{
    match t {
        PieceType::I => {
            if s == 0 {
                i == 2 || i == 6 || i == 10 || i == 14
            } else if s == 1 {
                i == 8 || i == 9 || i == 10 || i == 11
            } else if s == 2 {
                i == 1 || i == 5 || i == 9 || i == 13
            } else {
                i == 4 || i == 5 || i == 6 || i == 7
            }
        },
        PieceType::O => i == 1 || i == 2 || i == 5 || i == 6,
        PieceType::T => {
            if s == 0 {
                i == 4 || i == 5 || i == 6 || i == 9
            } else if s == 1 {
                i == 1 || i == 4 || i == 5 || i == 9
            } else if s == 2 {
                i == 1 || i == 4 || i == 5 || i == 6
            } else {
                i == 1 || i == 5 || i == 6 || i == 9
            }
        },
        PieceType::S => {
            if s == 0 {
                i == 1 || i == 2 || i == 4 || i == 5
            } else if s == 1 {
                i == 1 || i == 5 || i == 6 || i == 10
            } else if s == 2 {
                i == 5 || i == 6 || i == 8 || i == 9
            } else {
                i == 0 || i == 4 || i == 5 || i == 9
            }
        },
        PieceType::Z => {
            if s == 0 {
                i == 0 || i == 1 || i == 5 || i == 6
            } else if s == 1 {
                i == 2 || i == 5 || i == 6 || i == 9
            } else if s == 2 {
                i == 4 || i == 5 || i == 9 || i == 10
            } else {
                i == 1 || i == 4 || i == 5 || i == 8
            }
        },
        PieceType::J => {
            if s == 0 {
                i == 1 || i == 5 || i == 8 || i == 9
            } else if s == 1 {
                i == 0 || i == 4 || i == 5 || i == 6
            } else if s == 2 {
                i == 1 || i == 2 || i == 5 || i == 9
            } else {
                i == 4 || i == 5 || i == 6 || i == 10
            }
        },
        PieceType::L => {
            if s == 0 {
                i == 1 || i == 5 || i == 9 || i == 10
            } else if s == 1 {
                i == 0 || i == 1 || i == 2 || i == 4
            } else if s == 2 {
                i == 0 || i == 1 || i == 5 || i == 9
            } else {
                i == 2 || i == 4 || i == 5 || i == 6
            }
        },
    }
}

} // verus!
