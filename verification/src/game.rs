//! The game engine: board, falling piece, queue, hold, scoring, and the
//! per-tick update rules.
//!
//! The board is a row-major grid of cells, origin at the top-left. The
//! active piece is a piece type, a rotation state, and a board-relative
//! origin (x, y) of its 4x4 mask; the origin may stick out of the grid as
//! long as every occupied mask cell that matters stays inside.

use vstd::prelude::*;
use crate::bag::SevenGenerator;
use crate::tetrimino::{occ, color_spec, piece_code, Color, PieceType, Tetrimino, lemma_mask_nonempty};

verus! {

/// Micro-seconds of accumulated time that trigger one gravity row.
pub const FALL_RATE_MICROS: u64 = 500000;

/// Whether the game is still being played.
#[derive(Clone, Copy, Debug, PartialEq, Eq, Structural)]
pub enum State {
    Playing,
    Lost,
}

/// The player intents recorded since the last tick. Each kind is a flag, so
/// repeating an intent within one tick collapses to a single occurrence.
/// When both rotation flags are set, clockwise wins; this replaces an
/// iteration-order accident with a fixed policy.
#[derive(Clone, Copy, Debug, PartialEq, Eq, Structural)]
pub struct Intents {
    pub left: bool,
    pub right: bool,
    pub down: bool,
    pub drop: bool,
    pub hold: bool,
    pub rotate_cw: bool,
    pub rotate_ccw: bool,
}

impl Intents {
    /// No intent recorded.
    pub open spec fn none_spec() -> Intents {
        Intents {
            left: false,
            right: false,
            down: false,
            drop: false,
            hold: false,
            rotate_cw: false,
            rotate_ccw: false,
        }
    }

    /// An empty intent set.
    pub fn none() -> (r: Intents)
        ensures
            r == Intents::none_spec(),
    {
        Intents {
            left: false,
            right: false,
            down: false,
            drop: false,
            hold: false,
            rotate_cw: false,
            rotate_ccw: false,
        }
    }
}

/// The falling piece and its board-relative mask origin.
pub struct ActivePiece {
    pub piece: Tetrimino,
    pub x: isize,
    pub y: isize,
}

/// A mask fits at origin (x, y): every occupied mask cell lands on an
/// in-bounds, empty board cell.
pub open spec fn fits(b: Seq<Color>, w: int, h: int, t: PieceType, s: int, x: int, y: int) -> bool {
    forall|i: int| 0 <= i < 16 && #[trigger] occ(t, s, i) ==> 0 <= x + i % 4 < w && 0 <= y + i / 4 < h
        && b[(y + i / 4) * w + (x + i % 4)] == Color::Empty
}

/// Every occupied mask cell is inside the grid (its board cell may be
/// occupied).
pub open spec fn placed(w: int, h: int, t: PieceType, s: int, x: int, y: int) -> bool {
    forall|i: int| 0 <= i < 16 && #[trigger] occ(t, s, i) ==> 0 <= x + i % 4 < w && 0 <= y + i / 4 < h
}

/// Every occupied mask cell is inside the grid columns and above the floor;
/// rows may stick out above the top (after the loss nudge).
pub open spec fn loosely_placed(w: int, h: int, t: PieceType, s: int, x: int, y: int) -> bool {
    forall|i: int| 0 <= i < 16 && #[trigger] occ(t, s, i) ==> 0 <= x + i % 4 < w && y + i / 4 < h
}

/// The piece is resting: some occupied mask cell sits on the bottom row or
/// directly above a non-empty board cell.
pub open spec fn resting(b: Seq<Color>, w: int, h: int, t: PieceType, s: int, x: int, y: int) -> bool {
    exists|i: int| 0 <= i < 16 && #[trigger] occ(t, s, i)
        && (y + i / 4 == h - 1 || b[(y + i / 4 + 1) * w + (x + i % 4)] != Color::Empty)
}

/// Some occupied mask cell lands on an in-bounds, non-empty board cell.
pub open spec fn overlaps(b: Seq<Color>, w: int, h: int, t: PieceType, s: int, x: int, y: int) -> bool {
    exists|i: int| 0 <= i < 16 && #[trigger] occ(t, s, i)
        && 0 <= x + i % 4 < w && 0 <= y + i / 4 < h
        && b[(y + i / 4) * w + (x + i % 4)] != Color::Empty
}

/// A mask that fits somewhere has its origin row above the grid floor.
pub proof fn lemma_fits_bounds_origin(b: Seq<Color>, w: int, h: int, t: PieceType, s: int, x: int, y: int)
    requires
        0 <= s < 4,
        fits(b, w, h, t, s, x, y),
    ensures
        y < h,
        x < w,
{
    lemma_mask_nonempty(t, s);
    let i = choose|i: int| 0 <= i < 16 && occ(t, s, i);
    assert(y <= y + (i / 4));
    assert(x <= x + (i % 4));
}

/// The canonical spawn column for a piece type: horizontally centered, with
/// a shape-specific correction for J.
pub open spec fn spawn_x(t: PieceType) -> int {
    if t == PieceType::J { 4 } else { 3 }
}

/// The canonical spawn row for a piece type: the top row, except T which
/// starts one row higher (its mask's top row is unoccupied).
pub open spec fn spawn_y(t: PieceType) -> int {
    if t == PieceType::T { -1 } else { 0 }
}

/// The whole game state.
pub struct Game {
    pub width: usize,
    pub height: usize,
    pub board: Vec<Color>,
    pub generator: SevenGenerator,
    pub next_pieces: Vec<PieceType>,
    pub active_piece: ActivePiece,
    pub held_type: Option<PieceType>,
    pub can_hold: bool,
    pub state: State,
    pub elapsed: u64,
    pub active_piece_indexes: Vec<u8>,
    pub ground_hint_indexes: Vec<u8>,
    pub events: Intents,
    pub score: usize,
}

impl Game {
    /// Grid dimensions that the engine supports: room for every spawn
    /// position, and few enough cells that a cell index fits in a byte.
    pub open spec fn dims_wf(&self) -> bool {
        &&& 8 <= self.width <= 32
        &&& 8 <= self.height <= 32
        &&& self.width * self.height <= 256
        &&& self.board@.len() == self.width * self.height
    }

    /// Shorthand views of the active piece.
    pub open spec fn pt(&self) -> PieceType {
        self.active_piece.piece.ttype
    }

    pub open spec fn ps(&self) -> int {
        self.active_piece.piece.state as int
    }

    pub open spec fn px(&self) -> int {
        self.active_piece.x as int
    }

    pub open spec fn py(&self) -> int {
        self.active_piece.y as int
    }

    /// The game invariant: sane dimensions, a well-formed generator, a
    /// queue of exactly three upcoming pieces, and an active piece whose
    /// occupied cells stay inside the grid columns and above the floor —
    /// fully inside the grid while the game is being played.
    pub open spec fn wf(&self) -> bool {
        &&& self.dims_wf()
        &&& self.generator.wf()
        &&& self.next_pieces@.len() == 3
        &&& self.active_piece.piece.state < 4
        &&& -5 <= self.active_piece.x <= self.width
        &&& -5 <= self.active_piece.y <= self.height
        &&& loosely_placed(self.width as int, self.height as int, self.pt(), self.ps(), self.px(), self.py())
        &&& (self.state == State::Playing ==> placed(
            self.width as int,
            self.height as int,
            self.pt(),
            self.ps(),
            self.px(),
            self.py(),
        ))
    }

    /// Flat board index of a row and column.
    fn get_index(&self, row: usize, col: usize) -> (r: usize)
        requires
            self.dims_wf(),
            row < self.height,
            col < self.width,
        ensures
            r == row * self.width + col,
            r < self.width * self.height,
    {
        proof {
            assert((row * self.width + col) < self.width * self.height) by (nonlinear_arith)
                requires row < self.height && col < self.width && self.width >= 1;
        }
        row * self.width + col
    }

    /// Whether the mask of piece type `t` in rotation state `s` fits at
    /// origin (x, y): all occupied cells in bounds and on empty board
    /// cells.
    fn can_fit_block(&self, t: PieceType, s: usize, x: isize, y: isize) -> (r: bool)
        requires
            self.dims_wf(),
            s < 4,
            -300 <= x <= 300,
            -300 <= y <= 300,
        ensures
            r == fits(self.board@, self.width as int, self.height as int, t, s as int, x as int, y as int),
    {
        let w = self.width;
        let h = self.height;
        let mut i: usize = 0;
        while i < 16
            invariant
                self.dims_wf(),
                w == self.width,
                h == self.height,
                s < 4,
                -300 <= x <= 300,
                -300 <= y <= 300,
                i <= 16,
                forall|j: int| 0 <= j < i && #[trigger] occ(t, s as int, j) ==>
                    0 <= x + j % 4 < w && 0 <= y + j / 4 < h
                    && self.board@[(y + j / 4) * w + (x + j % 4)] == Color::Empty,
            decreases 16 - i,
        {
            if crate::tetrimino::cell_occupied(t, s, i) {
                let bx = x + (i % 4) as isize;
                let by = y + (i / 4) as isize;
                if bx < 0 || by < 0 || bx >= w as isize || by >= h as isize {
                    proof {
                        assert(occ(t, s as int, i as int));
                    }
                    return false;
                }
                let idx = self.get_index(by as usize, bx as usize);
                if self.board[idx] != Color::Empty {
                    proof {
                        assert(occ(t, s as int, i as int));
                    }
                    return false;
                }
            }
            i = i + 1;
        }
        true
    }

    /// Whether some occupied cell of the mask lands on an in-bounds,
    /// non-empty board cell.
    fn is_fused_in_ground(&self, t: PieceType, s: usize, x: isize, y: isize) -> (r: bool)
        requires
            self.dims_wf(),
            s < 4,
            -300 <= x <= 300,
            -300 <= y <= 300,
        ensures
            r == overlaps(self.board@, self.width as int, self.height as int, t, s as int, x as int, y as int),
    {
        let w = self.width;
        let h = self.height;
        let mut i: usize = 0;
        while i < 16
            invariant
                self.dims_wf(),
                w == self.width,
                h == self.height,
                s < 4,
                -300 <= x <= 300,
                -300 <= y <= 300,
                i <= 16,
                forall|j: int| 0 <= j < i && #[trigger] occ(t, s as int, j) ==> !(
                    0 <= x + j % 4 < w && 0 <= y + j / 4 < h
                    && self.board@[(y + j / 4) * w + (x + j % 4)] != Color::Empty),
            decreases 16 - i,
        {
            if crate::tetrimino::cell_occupied(t, s, i) {
                let bx = x + (i % 4) as isize;
                let by = y + (i / 4) as isize;
                if bx >= 0 && by >= 0 && bx < w as isize && by < h as isize {
                    let idx = self.get_index(by as usize, bx as usize);
                    if self.board[idx] != Color::Empty {
                        proof {
                            assert(occ(t, s as int, i as int));
                        }
                        return true;
                    }
                }
            }
            i = i + 1;
        }
        false
    }

    /// Whether the active piece is resting: some occupied cell on the
    /// bottom row or directly above a non-empty board cell.
    fn can_fuse_active_piece(&self) -> (r: bool)
        requires
            self.dims_wf(),
            self.active_piece.piece.state < 4,
            -300 <= self.active_piece.x <= 300,
            -300 <= self.active_piece.y <= 300,
            placed(self.width as int, self.height as int, self.pt(), self.ps(), self.px(), self.py()),
        ensures
            r == resting(self.board@, self.width as int, self.height as int, self.pt(), self.ps(), self.px(), self.py()),
    {
        let w = self.width;
        let h = self.height;
        let t = self.active_piece.piece.ttype;
        let s = self.active_piece.piece.state;
        let x = self.active_piece.x;
        let y = self.active_piece.y;
        let mut i: usize = 0;
        while i < 16
            invariant
                self.dims_wf(),
                w == self.width,
                h == self.height,
                t == self.pt(),
                s as int == self.ps(),
                s < 4,
                x as int == self.px(),
                y as int == self.py(),
                -300 <= x <= 300,
                -300 <= y <= 300,
                placed(w as int, h as int, t, s as int, x as int, y as int),
                i <= 16,
                forall|j: int| 0 <= j < i && #[trigger] occ(t, s as int, j) ==> !(
                    y + j / 4 == h - 1
                    || self.board@[(y + j / 4 + 1) * w + (x + j % 4)] != Color::Empty),
            decreases 16 - i,
        {
            if crate::tetrimino::cell_occupied(t, s, i) {
                proof {
                    assert(occ(t, s as int, i as int));
                }
                let bx = x + (i % 4) as isize;
                let by = y + (i / 4) as isize;
                if by == h as isize - 1 {
                    return true;
                }
                let idx = self.get_index(by as usize + 1, bx as usize);
                if self.board[idx] != Color::Empty {
                    return true;
                }
            }
            i = i + 1;
        }
        false
    }

    /// Write the active piece's color into every board cell its mask
    /// occupies; nothing else changes.
    fn fuse_active_piece(&mut self)
        requires
            old(self).dims_wf(),
            old(self).active_piece.piece.state < 4,
            -300 <= old(self).active_piece.x <= 300,
            -300 <= old(self).active_piece.y <= 300,
            placed(
                old(self).width as int,
                old(self).height as int,
                old(self).pt(),
                old(self).ps(),
                old(self).px(),
                old(self).py(),
            ),
        ensures
            final(self).board@ == fused_board(
                old(self).board@,
                old(self).width as int,
                old(self).pt(),
                old(self).ps(),
                old(self).px(),
                old(self).py(),
                color_spec(old(self).pt()),
            ),
            *final(self) == (Game { board: final(self).board, ..*old(self) }),
    {
        let w = self.width;
        let h = self.height;
        let t = self.active_piece.piece.ttype;
        let s = self.active_piece.piece.state;
        let x = self.active_piece.x;
        let y = self.active_piece.y;
        let color = Tetrimino::color_of(t);
        let ghost b0 = self.board@;
        let mut i: usize = 0;
        while i < 16
            invariant
                self.dims_wf(),
                w == self.width,
                h == self.height,
                s < 4,
                -300 <= x <= 300,
                -300 <= y <= 300,
                placed(w as int, h as int, t, s as int, x as int, y as int),
                color == color_spec(t),
                i <= 16,
                self.board@.len() == b0.len(),
                forall|j: int| 0 <= j < b0.len()
                    && #[trigger] covers_upto(t, s as int, x as int, y as int, w as int, j, i as int)
                    ==> self.board@[j] == color,
                forall|j: int| 0 <= j < b0.len()
                    && !(#[trigger] covers_upto(t, s as int, x as int, y as int, w as int, j, i as int))
                    ==> self.board@[j] == b0[j],
                *self == (Game { board: self.board, ..*old(self) }),
            decreases 16 - i,
        {
            let ghost prev = self.board@;
            if crate::tetrimino::cell_occupied(t, s, i) {
                proof {
                    assert(occ(t, s as int, i as int));
                }
                let bx = x + (i % 4) as isize;
                let by = y + (i / 4) as isize;
                let idx = self.get_index(by as usize, bx as usize);
                self.board.set(idx, color);
                proof {
                    assert(covers_upto(t, s as int, x as int, y as int, w as int, idx as int, i + 1));
                }
            }
            proof {
                let ghost si = s as int;
                let ghost xi = x as int;
                let ghost yi = y as int;
                let ghost wi = w as int;
                assert forall|j: int| 0 <= j < b0.len()
                    && #[trigger] covers_upto(t, si, xi, yi, wi, j, i + 1)
                    implies self.board@[j] == color by {
                    let witness = choose|k: int| 0 <= k < i + 1 && occ(t, si, k)
                        && j == (yi + k / 4) * wi + (xi + k % 4);
                    if witness < i {
                        assert(covers_upto(t, si, xi, yi, wi, j, i as int));
                        assert(prev[j] == color);
                    }
                }
                assert forall|j: int| 0 <= j < b0.len()
                    && !(#[trigger] covers_upto(t, si, xi, yi, wi, j, i + 1))
                    implies self.board@[j] == b0[j] by {
                    assert(!covers_upto(t, si, xi, yi, wi, j, i as int));
                    if occ(t, si, i as int) {
                        assert(j != (yi + (i as int) / 4) * wi + (xi + (i as int) % 4));
                    }
                }
            }
            i = i + 1;
        }
        proof {
            assert(self.board@ =~= fused_board(b0, w as int, t, s as int, x as int, y as int, color));
        }
    }

    /// The canonical spawn placement of a freshly drawn piece.
    fn initialize_tetrimino(ttype: PieceType) -> (r: ActivePiece)
        ensures
            r.piece.ttype == ttype,
            r.piece.state == 0,
            r.x as int == spawn_x(ttype),
            r.y as int == spawn_y(ttype),
    {
        let x: isize = if matches!(ttype, PieceType::J) { 4 } else { 3 };
        let y: isize = if matches!(ttype, PieceType::T) { -1 } else { 0 };
        ActivePiece { piece: Tetrimino::from(ttype), x, y }
    }

    /// Overwrite one board cell; everything else is unchanged. Intended for
    /// setting up positions.
    pub fn set_cell(&mut self, row: usize, col: usize, color: Color)
        requires
            old(self).wf(),
            row < old(self).height,
            col < old(self).width,
        ensures
            final(self).wf(),
            final(self).board@ == old(self).board@.update(row * old(self).width + col, color),
            *final(self) == (Game { board: final(self).board, ..*old(self) }),
    {
        let idx = self.get_index(row, col);
        self.board.set(idx, color);
    }
}

/// The board cells covered by the first `n` mask indices of a piece at
/// (x, y).
pub open spec fn covers_upto(t: PieceType, s: int, x: int, y: int, w: int, j: int, n: int) -> bool {
    exists|i: int| 0 <= i < n && #[trigger] occ(t, s, i) && j == (y + i / 4) * w + (x + i % 4)
}

/// The board cells covered by a piece at (x, y).
pub open spec fn covers(t: PieceType, s: int, x: int, y: int, w: int, j: int) -> bool {
    covers_upto(t, s, x, y, w, j, 16)
}

/// The board after writing `col` into every cell the piece covers.
pub open spec fn fused_board(b: Seq<Color>, w: int, t: PieceType, s: int, x: int, y: int, col: Color) -> Seq<Color> {
    Seq::new(b.len(), |j: int| if covers(t, s, x, y, w, j) { col } else { b[j] })
}

/// Every cell of row `r` is occupied.
pub open spec fn row_full(b: Seq<Color>, w: int, r: int) -> bool {
    forall|c: int| 0 <= c < w ==> #[trigger] b[r * w + c] != Color::Empty
}

/// The full rows among rows `0..r`, in ascending order.
pub open spec fn full_rows_upto(b: Seq<Color>, w: int, r: int) -> Seq<int>
    decreases r,
{
    if r <= 0 {
        Seq::empty()
    } else if row_full(b, w, r - 1) {
        full_rows_upto(b, w, r - 1).push(r - 1)
    } else {
        full_rows_upto(b, w, r - 1)
    }
}

/// The full rows of the whole board, in ascending order.
pub open spec fn full_rows(b: Seq<Color>, w: int, h: int) -> Seq<int> {
    full_rows_upto(b, w, h)
}

/// The board after erasing row `line`: every row above it moves down one,
/// the top row becomes empty, rows below it are unchanged.
pub open spec fn erased_row(b: Seq<Color>, w: int, line: int) -> Seq<Color> {
    Seq::new(
        b.len(),
        |j: int|
            if j < w {
                Color::Empty
            } else if j < (line + 1) * w {
                b[j - w]
            } else {
                b[j]
            },
    )
}

/// The board after erasing each listed row in turn, first to last.
pub open spec fn erased_all(b: Seq<Color>, w: int, lines: Seq<int>) -> Seq<Color>
    decreases lines.len(),
{
    if lines.len() == 0 {
        b
    } else {
        erased_all(erased_row(b, w, lines[0]), w, lines.drop_first())
    }
}

/// Erasing the rows of a list and then one more is erasing the extended
/// list.
pub proof fn lemma_erased_all_snoc(b: Seq<Color>, w: int, lines: Seq<int>, l: int)
    ensures
        erased_all(b, w, lines.push(l)) == erased_row(erased_all(b, w, lines), w, l),
    decreases lines.len(),
{
    if lines.len() == 0 {
        assert(lines.push(l).drop_first() =~= Seq::<int>::empty());
        assert(lines.push(l)[0] == l);
        assert(erased_all(b, w, lines.push(l)) == erased_all(erased_row(b, w, l), w, Seq::<int>::empty()));
        assert(erased_all(erased_row(b, w, l), w, Seq::<int>::empty()) == erased_row(b, w, l));
        assert(erased_all(b, w, lines) == b);
    } else {
        let tail = lines.drop_first();
        assert(lines.push(l).drop_first() =~= tail.push(l));
        assert(lines.push(l)[0] == lines[0]);
        assert(erased_all(b, w, lines.push(l)) == erased_all(erased_row(b, w, lines[0]), w, tail.push(l)));
        lemma_erased_all_snoc(erased_row(b, w, lines[0]), w, tail, l);
        assert(erased_all(b, w, lines) == erased_all(erased_row(b, w, lines[0]), w, tail));
    }
}

/// The flat board indices of the occupied cells among the first `n` mask
/// cells of a piece at (x, y), skipping cells above or left of the grid.
pub open spec fn coords_upto(t: PieceType, s: int, x: int, y: int, w: int, n: int) -> Seq<u8>
    decreases n,
{
    if n <= 0 {
        Seq::empty()
    } else if occ(t, s, n - 1) && x + (n - 1) % 4 >= 0 && y + (n - 1) / 4 >= 0 {
        coords_upto(t, s, x, y, w, n - 1).push((((y + (n - 1) / 4) * w + (x + (n - 1) % 4)) as u8))
    } else {
        coords_upto(t, s, x, y, w, n - 1)
    }
}

/// The flat board indices of all occupied cells of a piece at (x, y), in
/// mask order, skipping cells above or left of the grid.
pub open spec fn piece_coords(t: PieceType, s: int, x: int, y: int, w: int) -> Seq<u8> {
    coords_upto(t, s, x, y, w, 16)
}

/// The lowest origin row at or below `y` from which the piece no longer
/// fits, minus one: where the piece would come to rest if dropped straight
/// down (or `y - 1` if it does not even fit at `y`).
pub open spec fn probe_bottom(b: Seq<Color>, w: int, h: int, t: PieceType, s: int, x: int, y: int) -> int
    decreases h - y,
{
    if y < h && fits(b, w, h, t, s, x, y) {
        probe_bottom(b, w, h, t, s, x, y + 1)
    } else {
        y - 1
    }
}

/// The origin row the piece ends on after falling one row at a time for as
/// long as it still fits one row lower.
pub open spec fn descend(b: Seq<Color>, w: int, h: int, t: PieceType, s: int, x: int, y: int) -> int
    decreases h - y,
{
    if y < h && fits(b, w, h, t, s, x, y + 1) {
        descend(b, w, h, t, s, x, y + 1)
    } else {
        y
    }
}

/// Every piece type's canonical spawn placement lies inside a supported
/// grid.
pub proof fn lemma_spawn_placed(t: PieceType, w: int, h: int)
    requires
        8 <= w,
        8 <= h,
    ensures
        placed(w, h, t, 0, spawn_x(t), spawn_y(t)),
{
    assert forall|i: int| 0 <= i < 16 && #[trigger] occ(t, 0, i)
        implies 0 <= spawn_x(t) + i % 4 < w && 0 <= spawn_y(t) + i / 4 < h by {
        match t {
            PieceType::I => {},
            PieceType::O => {},
            PieceType::T => {},
            PieceType::S => {},
            PieceType::Z => {},
            PieceType::J => {},
            PieceType::L => {},
        }
    }
}

/// Erasing rows never changes the board's size.
pub proof fn lemma_erased_all_len(b: Seq<Color>, w: int, lines: Seq<int>)
    ensures
        erased_all(b, w, lines).len() == b.len(),
    decreases lines.len(),
{
    if lines.len() > 0 {
        lemma_erased_all_len(erased_row(b, w, lines[0]), w, lines.drop_first());
    }
}

/// The score bump for clearing `n` rows at once: ten points a row, capped
/// at the top of the counter.
pub open spec fn bumped_score(score: usize, n: int) -> usize {
    if score + 10 * n > usize::MAX {
        usize::MAX
    } else {
        (score + 10 * n) as usize
    }
}

impl Game {
    /// Whether every cell of `row` is occupied.
    fn can_erase_row(&self, row: usize) -> (r: bool)
        requires
            self.dims_wf(),
            row < self.height,
        ensures
            r == row_full(self.board@, self.width as int, row as int),
    {
        let w = self.width;
        let mut cx: usize = 0;
        while cx < w
            invariant
                self.dims_wf(),
                w == self.width,
                row < self.height,
                cx <= w,
                forall|c: int| 0 <= c < cx ==> #[trigger] self.board@[row * w + c] != Color::Empty,
            decreases w - cx,
        {
            let idx = self.get_index(row, cx);
            if self.board[idx] == Color::Empty {
                return false;
            }
            cx = cx + 1;
        }
        true
    }

    /// The indices of all full rows, top to bottom.
    fn check_erasable_lines(&self) -> (r: Vec<usize>)
        requires
            self.dims_wf(),
        ensures
            r@.len() == full_rows(self.board@, self.width as int, self.height as int).len(),
            forall|m: int| 0 <= m < r@.len()
                ==> r@[m] as int == full_rows(self.board@, self.width as int, self.height as int)[m],
            forall|m: int| 0 <= m < r@.len() ==> #[trigger] r@[m] < self.height,
            r@.len() <= self.height,
    {
        let mut lines: Vec<usize> = Vec::new();
        let mut row: usize = 0;
        while row < self.height
            invariant
                self.dims_wf(),
                row <= self.height,
                lines@.len() == full_rows_upto(self.board@, self.width as int, row as int).len(),
                forall|m: int| 0 <= m < lines@.len()
                    ==> lines@[m] as int == full_rows_upto(self.board@, self.width as int, row as int)[m],
                forall|m: int| 0 <= m < lines@.len() ==> #[trigger] lines@[m] < row,
                lines@.len() <= row,
            decreases self.height - row,
        {
            if self.can_erase_row(row) {
                lines.push(row);
            }
            row = row + 1;
        }
        lines
    }

    /// Erase row `line`: rows above move down one, the top row empties.
    fn erase_single_line(&mut self, line: usize)
        requires
            old(self).dims_wf(),
            line < old(self).height,
        ensures
            final(self).board@ == erased_row(old(self).board@, old(self).width as int, line as int),
            *final(self) == (Game { board: final(self).board, ..*old(self) }),
    {
        let w = self.width;
        let ghost b0 = self.board@;
        let mut yy: usize = line;
        while yy > 0
            invariant
                self.dims_wf(),
                w == self.width,
                line < self.height,
                yy <= line,
                self.board@.len() == b0.len(),
                forall|j: int| 0 <= j < b0.len() ==> #[trigger] self.board@[j] == (
                    if (yy + 1) * w <= j < (line + 1) * w { b0[j - w] } else { b0[j] }),
                *self == (Game { board: self.board, ..*old(self) }),
            decreases yy,
        {
            yy = yy - 1;
            proof {
                assert((yy + 1) * w == yy * w + w) by (nonlinear_arith);
                assert((yy + 2) * w == yy * w + w + w) by (nonlinear_arith);
            }
            let mut cx: usize = 0;
            while cx < w
                invariant
                    self.dims_wf(),
                    w == self.width,
                    line < self.height,
                    yy < line,
                    cx <= w,
                    self.board@.len() == b0.len(),
                    forall|j: int| 0 <= j < b0.len() ==> #[trigger] self.board@[j] == (
                        if (yy + 1) * w <= j < (yy + 1) * w + cx { b0[j - w] }
                        else if (yy + 2) * w <= j < (line + 1) * w { b0[j - w] }
                        else { b0[j] }),
                    *self == (Game { board: self.board, ..*old(self) }),
                decreases w - cx,
            {
                proof {
                    assert((yy + 1) * w == yy * w + w) by (nonlinear_arith);
                    assert((yy + 2) * w == yy * w + w + w) by (nonlinear_arith);
                    assert((line + 1) * w == line * w + w) by (nonlinear_arith);
                    assert((yy + 1) * w <= line * w) by (nonlinear_arith)
                        requires yy < line && w >= 1;
                }
                let src = self.get_index(yy, cx);
                let dst = self.get_index(yy + 1, cx);
                let v = self.board[src];
                proof {
                    assert(src < (yy + 1) * w);
                    assert(self.board@[src as int] == b0[src as int]);
                }
                self.board.set(dst, v);
                cx = cx + 1;
            }
            proof {
                assert((yy + 1) * w == yy * w + w) by (nonlinear_arith);
                assert((yy + 2) * w == yy * w + w + w) by (nonlinear_arith);
                assert((yy + 1) * w >= w) by (nonlinear_arith)
                    requires w >= 1;
                assert((line + 1) * w == line * w + w) by (nonlinear_arith);
                assert((yy + 2) * w <= (line + 1) * w) by (nonlinear_arith)
                    requires yy < line && w >= 1;
            }
        }
        let ghost bmid = self.board@;
        let mut cx: usize = 0;
        while cx < w
            invariant
                self.dims_wf(),
                w == self.width,
                line < self.height,
                cx <= w,
                self.board@.len() == b0.len(),
                forall|j: int| 0 <= j < cx ==> #[trigger] self.board@[j] == Color::Empty,
                forall|j: int| cx <= j < b0.len() ==> #[trigger] self.board@[j] == bmid[j],
                forall|j: int| 0 <= j < b0.len() ==> #[trigger] bmid[j] == (
                    if w <= j < (line + 1) * w { b0[j - w] } else { b0[j] }),
                *self == (Game { board: self.board, ..*old(self) }),
            decreases w - cx,
        {
            let idx = self.get_index(0, cx);
            self.board.set(idx, Color::Empty);
            cx = cx + 1;
        }
        proof {
            assert(self.board@ =~= erased_row(b0, w as int, line as int));
        }
    }

    /// Erase every full row, top to bottom, and award ten points a row.
    fn erase_lines(&mut self)
        requires
            old(self).dims_wf(),
        ensures
            final(self).board@.len() == old(self).board@.len(),
            final(self).board@ == erased_all(
                old(self).board@,
                old(self).width as int,
                full_rows(old(self).board@, old(self).width as int, old(self).height as int),
            ),
            final(self).score == bumped_score(
                old(self).score,
                full_rows(old(self).board@, old(self).width as int, old(self).height as int).len() as int,
            ),
            *final(self) == (Game { board: final(self).board, score: final(self).score, ..*old(self) }),
    {
        let ghost b0 = self.board@;
        let ghost fr = full_rows(b0, self.width as int, self.height as int);
        let lines = self.check_erasable_lines();
        let add = lines.len() * 10;
        self.score = self.score.saturating_add(add);
        let mut li: usize = 0;
        while li < lines.len()
            invariant
                self.dims_wf(),
                lines@.len() == fr.len(),
                forall|m: int| 0 <= m < lines@.len() ==> lines@[m] as int == fr[m],
                forall|m: int| 0 <= m < lines@.len() ==> #[trigger] lines@[m] < self.height,
                li <= lines@.len(),
                self.board@ == erased_all(b0, self.width as int, fr.take(li as int)),
                self.score == bumped_score(old(self).score, fr.len() as int),
                b0 == old(self).board@,
                fr == full_rows(b0, self.width as int, self.height as int),
                *self == (Game { board: self.board, score: self.score, ..*old(self) }),
            decreases lines@.len() - li,
        {
            let line = lines[li];
            self.erase_single_line(line);
            proof {
                lemma_erased_all_snoc(b0, self.width as int, fr.take(li as int), line as int);
                assert(fr.take(li as int).push(line as int) =~= fr.take(li + 1));
            }
            li = li + 1;
        }
        proof {
            assert(fr.take(fr.len() as int) =~= fr);
            lemma_erased_all_len(b0, self.width as int, fr);
        }
    }
}

impl Game {
    /// The board indices of the piece's occupied cells at (x, y), skipping
    /// cells above or left of the grid.
    fn mask_cell_indexes(&self, t: PieceType, s: usize, x: isize, y: isize) -> (r: Vec<u8>)
        requires
            self.dims_wf(),
            s < 4,
            -300 <= x <= 300,
            -301 <= y <= 300,
            loosely_placed(self.width as int, self.height as int, t, s as int, x as int, y as int),
        ensures
            r@ == piece_coords(t, s as int, x as int, y as int, self.width as int),
    {
        let w = self.width;
        let mut r: Vec<u8> = Vec::new();
        let mut i: usize = 0;
        while i < 16
            invariant
                self.dims_wf(),
                w == self.width,
                s < 4,
                -300 <= x <= 300,
                -301 <= y <= 300,
                loosely_placed(w as int, self.height as int, t, s as int, x as int, y as int),
                i <= 16,
                r@ == coords_upto(t, s as int, x as int, y as int, w as int, i as int),
            decreases 16 - i,
        {
            if crate::tetrimino::cell_occupied(t, s, i) {
                proof {
                    assert(occ(t, s as int, i as int));
                }
                let cx = x + (i % 4) as isize;
                let cy = y + (i / 4) as isize;
                if cx >= 0 && cy >= 0 {
                    let idx = self.get_index(cy as usize, cx as usize);
                    r.push(idx as u8);
                }
            }
            i = i + 1;
        }
        r
    }

    /// Refresh the render list of the active piece's occupied cells.
    fn update_active_piece_coords(&mut self)
        requires
            old(self).dims_wf(),
            old(self).active_piece.piece.state < 4,
            -300 <= old(self).active_piece.x <= 300,
            -300 <= old(self).active_piece.y <= 300,
            loosely_placed(
                old(self).width as int,
                old(self).height as int,
                old(self).pt(),
                old(self).ps(),
                old(self).px(),
                old(self).py(),
            ),
        ensures
            final(self).active_piece_indexes@ == piece_coords(
                old(self).pt(),
                old(self).ps(),
                old(self).px(),
                old(self).py(),
                old(self).width as int,
            ),
            *final(self) == (Game { active_piece_indexes: final(self).active_piece_indexes, ..*old(self) }),
    {
        let t = self.active_piece.piece.ttype;
        let s = self.active_piece.piece.state;
        let x = self.active_piece.x;
        let y = self.active_piece.y;
        let v = self.mask_cell_indexes(t, s, x, y);
        self.active_piece_indexes = v;
    }

    /// The origin row where the piece would come to rest if dropped from
    /// its current column, per [`probe_bottom`].
    fn drop_origin(&self, t: PieceType, s: usize, x: isize, y: isize) -> (r: isize)
        requires
            self.dims_wf(),
            s < 4,
            -300 <= x <= 300,
            -300 <= y <= 300,
            y <= self.height,
        ensures
            r as int == probe_bottom(self.board@, self.width as int, self.height as int, t, s as int, x as int, y as int),
            r as int == y - 1 || fits(self.board@, self.width as int, self.height as int, t, s as int, x as int, r as int),
            y - 1 <= r <= self.height,
    {
        let ghost b = self.board@;
        let ghost w = self.width as int;
        let ghost h = self.height as int;
        let mut by = y;
        let mut fit = self.can_fit_block(t, s, x, by);
        while fit
            invariant
                self.dims_wf(),
                w == self.width as int,
                h == self.height as int,
                b == self.board@,
                s < 4,
                -300 <= x <= 300,
                -300 <= y <= 300,
                y <= by,
                by <= self.height,
                fit == fits(b, w, h, t, s as int, x as int, by as int),
                by == y || fits(b, w, h, t, s as int, x as int, by as int - 1),
                probe_bottom(b, w, h, t, s as int, x as int, by as int)
                    == probe_bottom(b, w, h, t, s as int, x as int, y as int),
            decreases h - by,
        {
            proof {
                lemma_fits_bounds_origin(b, w, h, t, s as int, x as int, by as int);
            }
            by = by + 1;
            fit = self.can_fit_block(t, s, x, by);
        }
        proof {
            assert(probe_bottom(b, w, h, t, s as int, x as int, by as int) == by - 1);
        }
        by - 1
    }

    /// Refresh the ground-preview list: the cells the piece would cover
    /// after a straight drop; empty once the game is lost.
    fn update_ground_hint_coords(&mut self)
        requires
            old(self).dims_wf(),
            old(self).active_piece.piece.state < 4,
            -300 <= old(self).active_piece.x <= 300,
            -300 <= old(self).active_piece.y <= 300,
            old(self).active_piece.y <= old(self).height,
            loosely_placed(
                old(self).width as int,
                old(self).height as int,
                old(self).pt(),
                old(self).ps(),
                old(self).px(),
                old(self).py(),
            ),
        ensures
            old(self).state == State::Lost ==> final(self).ground_hint_indexes@ == Seq::<u8>::empty(),
            old(self).state == State::Playing ==> final(self).ground_hint_indexes@ == piece_coords(
                old(self).pt(),
                old(self).ps(),
                old(self).px(),
                probe_bottom(
                    old(self).board@,
                    old(self).width as int,
                    old(self).height as int,
                    old(self).pt(),
                    old(self).ps(),
                    old(self).px(),
                    old(self).py(),
                ),
                old(self).width as int,
            ),
            *final(self) == (Game { ground_hint_indexes: final(self).ground_hint_indexes, ..*old(self) }),
    {
        if matches!(self.state, State::Lost) {
            self.ground_hint_indexes = Vec::new();
            return;
        }
        let t = self.active_piece.piece.ttype;
        let s = self.active_piece.piece.state;
        let x = self.active_piece.x;
        let y = self.active_piece.y;
        let gy = self.drop_origin(t, s, x, y);
        proof {
            let w = self.width as int;
            let h = self.height as int;
            if gy as int == y as int - 1 {
                assert forall|i: int| 0 <= i < 16 && #[trigger] occ(t, s as int, i)
                    implies 0 <= x as int + i % 4 < w && gy as int + i / 4 < h by {
                    assert(y as int + i / 4 < h);
                }
            }
        }
        let v = self.mask_cell_indexes(t, s, x, gy);
        self.ground_hint_indexes = v;
    }
}

impl Game {
    /// The hold action. If holding is allowed, the active piece's type is
    /// stored, and either the previously held piece or (drawing once from
    /// the queue and backfilling it from the bag) the next queued piece is
    /// spawned fresh; holding is then disabled until the next lock.
    fn apply_hold(&mut self)
        requires
            old(self).wf(),
            old(self).state == State::Playing,
        ensures
            final(self).wf(),
            final(self).state == State::Playing,
            !old(self).can_hold ==> *final(self) == *old(self),
            old(self).can_hold ==> ({
                &&& final(self).held_type == Some(old(self).pt())
                &&& final(self).can_hold == false
                &&& final(self).active_piece.piece.state == 0
                &&& final(self).px() == spawn_x(final(self).pt())
                &&& final(self).py() == spawn_y(final(self).pt())
                &&& match old(self).held_type {
                    Some(held) => {
                        &&& final(self).pt() == held
                        &&& final(self).next_pieces@ == old(self).next_pieces@
                        &&& final(self).generator == old(self).generator
                    },
                    None => {
                        &&& final(self).pt() == old(self).next_pieces@[0]
                        &&& final(self).next_pieces@ == old(self).next_pieces@.skip(1).push(
                            final(self).next_pieces@[2],
                        )
                        &&& final(self).generator.history@ == old(self).generator.history@.push(
                            final(self).next_pieces@[2],
                        )
                        &&& (old(self).generator.index < 7 ==> final(self).next_pieces@[2]
                            == old(self).generator.shuffled@[old(self).generator.index as int])
                    },
                }
                &&& *final(self) == (Game {
                    active_piece: final(self).active_piece,
                    held_type: final(self).held_type,
                    can_hold: false,
                    next_pieces: final(self).next_pieces,
                    generator: final(self).generator,
                    ..*old(self)
                })
            }),
    {
        if !self.can_hold {
            return;
        }
        let current_type = match self.held_type {
            Some(held) => held,
            None => {
                let head = self.next_pieces[0];
                let a = self.next_pieces[1];
                let b = self.next_pieces[2];
                self.next_pieces.set(0, a);
                self.next_pieces.set(1, b);
                let d = self.generator.next();
                self.next_pieces.set(2, d);
                proof {
                    assert(self.next_pieces@ =~= old(self).next_pieces@.skip(1).push(d));
                }
                head
            },
        };
        self.held_type = Some(self.active_piece.piece.ttype);
        self.can_hold = false;
        self.active_piece = Game::initialize_tetrimino(current_type);
        proof {
            lemma_spawn_placed(self.pt(), self.width as int, self.height as int);
        }
    }

    /// If the active piece is resting, fuse it into the board, spawn the
    /// head of the queue as the new active piece, shift the queue and
    /// backfill it from the bag, and re-enable holding.
    fn try_fuse_active_piece(&mut self)
        requires
            old(self).wf(),
            old(self).state == State::Playing,
        ensures
            final(self).wf(),
            final(self).state == State::Playing,
            !resting(
                old(self).board@,
                old(self).width as int,
                old(self).height as int,
                old(self).pt(),
                old(self).ps(),
                old(self).px(),
                old(self).py(),
            ) ==> *final(self) == *old(self),
            resting(
                old(self).board@,
                old(self).width as int,
                old(self).height as int,
                old(self).pt(),
                old(self).ps(),
                old(self).px(),
                old(self).py(),
            ) ==> ({
                &&& final(self).board@ == fused_board(
                    old(self).board@,
                    old(self).width as int,
                    old(self).pt(),
                    old(self).ps(),
                    old(self).px(),
                    old(self).py(),
                    color_spec(old(self).pt()),
                )
                &&& final(self).pt() == old(self).next_pieces@[0]
                &&& final(self).active_piece.piece.state == 0
                &&& final(self).px() == spawn_x(final(self).pt())
                &&& final(self).py() == spawn_y(final(self).pt())
                &&& final(self).next_pieces@ == old(self).next_pieces@.skip(1).push(
                    final(self).next_pieces@[2],
                )
                &&& final(self).generator.history@ == old(self).generator.history@.push(
                    final(self).next_pieces@[2],
                )
                &&& (old(self).generator.index < 7 ==> final(self).next_pieces@[2]
                    == old(self).generator.shuffled@[old(self).generator.index as int])
                &&& final(self).can_hold == true
                &&& *final(self) == (Game {
                    board: final(self).board,
                    active_piece: final(self).active_piece,
                    next_pieces: final(self).next_pieces,
                    generator: final(self).generator,
                    can_hold: true,
                    ..*old(self)
                })
            }),
    {
        if !self.can_fuse_active_piece() {
            return;
        }
        self.fuse_active_piece();
        let head = self.next_pieces[0];
        let a = self.next_pieces[1];
        let b = self.next_pieces[2];
        self.next_pieces.set(0, a);
        self.next_pieces.set(1, b);
        let d = self.generator.next();
        self.next_pieces.set(2, d);
        proof {
            assert(self.next_pieces@ =~= old(self).next_pieces@.skip(1).push(d));
        }
        self.active_piece = Game::initialize_tetrimino(head);
        self.can_hold = true;
        proof {
            lemma_spawn_placed(self.pt(), self.width as int, self.height as int);
        }
    }

    /// The loss check, run right after a lock attempt: if the active piece
    /// overlaps the board at its position, nudge it up one row and mark the
    /// game lost; check once more and nudge once more if still overlapping.
    fn check_game_over(&mut self)
        requires
            old(self).wf(),
            old(self).state == State::Playing,
        ensures
            final(self).wf(),
            !overlaps(
                old(self).board@,
                old(self).width as int,
                old(self).height as int,
                old(self).pt(),
                old(self).ps(),
                old(self).px(),
                old(self).py(),
            ) ==> *final(self) == *old(self),
            overlaps(
                old(self).board@,
                old(self).width as int,
                old(self).height as int,
                old(self).pt(),
                old(self).ps(),
                old(self).px(),
                old(self).py(),
            ) ==> ({
                &&& final(self).state == State::Lost
                &&& final(self).py() == old(self).py() - (
                    if overlaps(
                        old(self).board@,
                        old(self).width as int,
                        old(self).height as int,
                        old(self).pt(),
                        old(self).ps(),
                        old(self).px(),
                        old(self).py() - 1,
                    ) { 2int } else { 1int })
                &&& *final(self) == (Game {
                    active_piece: ActivePiece {
                        piece: Tetrimino { ttype: old(self).pt(), state: old(self).active_piece.piece.state },
                        x: old(self).active_piece.x,
                        y: final(self).active_piece.y,
                    },
                    state: State::Lost,
                    ..*old(self)
                })
            }),
    {
        let t = self.active_piece.piece.ttype;
        let s = self.active_piece.piece.state;
        proof {
            lemma_mask_nonempty(t, s as int);
            let i = choose|i: int| 0 <= i < 16 && occ(t, s as int, i);
            assert(self.py() + i / 4 >= 0);
            assert(i / 4 <= 3);
        }
        if self.is_fused_in_ground(t, s, self.active_piece.x, self.active_piece.y) {
            self.active_piece.y = self.active_piece.y - 1;
            self.state = State::Lost;
        }
        if self.is_fused_in_ground(t, s, self.active_piece.x, self.active_piece.y) {
            self.active_piece.y = self.active_piece.y - 1;
            self.state = State::Lost;
        }
    }
}

/// Accumulated time, capped at the top of the counter.
pub open spec fn acc_time(e: u64, d: u64) -> u64 {
    if e + d > u64::MAX {
        u64::MAX
    } else {
        (e + d) as u64
    }
}

/// Whether the fall accumulator reaches the fall rate this tick.
pub open spec fn gravity_fires(e: u64, d: u64) -> bool {
    acc_time(e, d) >= FALL_RATE_MICROS
}

/// The fall accumulator after the tick: the threshold is subtracted once
/// when gravity fires; several crossings in one delta are not compounded.
pub open spec fn elapsed_after(e: u64, d: u64) -> u64 {
    if gravity_fires(e, d) {
        (acc_time(e, d) - FALL_RATE_MICROS) as u64
    } else {
        acc_time(e, d)
    }
}

/// The folded horizontal move request: left and right contribute
/// independently and cancel when both are present.
pub open spec fn dx_of(iv: Intents) -> int {
    (if iv.right { 1int } else { 0int }) - (if iv.left { 1int } else { 0int })
}

/// The folded vertical move request: a hard drop asks for the whole board
/// height; otherwise gravity or a down intent asks for one row.
pub open spec fn dy_of(iv: Intents, grav: bool, h: int) -> int {
    if iv.drop {
        h
    } else if grav || iv.down {
        1
    } else {
        0
    }
}

/// The rotation state one step clockwise.
pub open spec fn rot_cw(s: int) -> int {
    if s == 0 { 3 } else { s - 1 }
}

/// The rotation state one step counter-clockwise.
pub open spec fn rot_ccw(s: int) -> int {
    if s == 3 { 0 } else { s + 1 }
}

impl Game {
    /// Whether the hold intent acts this tick.
    pub open spec fn hold_acts(self) -> bool {
        self.events.hold && self.can_hold
    }

    /// Whether the hold action draws from the queue (nothing was held).
    pub open spec fn hold_draws(self) -> bool {
        self.hold_acts() && self.held_type is None
    }

    /// The active piece after the hold phase: (type, rotation state, x, y).
    pub open spec fn piece_after_hold(self) -> (PieceType, int, int, int) {
        if self.hold_acts() {
            let t1 = match self.held_type {
                Some(hd) => hd,
                None => self.next_pieces@[0],
            };
            (t1, 0int, spawn_x(t1), spawn_y(t1))
        } else {
            (self.pt(), self.ps(), self.px(), self.py())
        }
    }

    /// The held piece after the hold phase.
    pub open spec fn held_after_hold(self) -> Option<PieceType> {
        if self.hold_acts() {
            Some(self.pt())
        } else {
            self.held_type
        }
    }

    /// Whether holding is still allowed after the hold phase.
    pub open spec fn can_hold_after_hold(self) -> bool {
        if self.hold_acts() {
            false
        } else {
            self.can_hold
        }
    }

    /// The head of the queue after the hold phase.
    pub open spec fn queue_head_after_hold(self) -> PieceType {
        if self.hold_draws() {
            self.next_pieces@[1]
        } else {
            self.next_pieces@[0]
        }
    }

    /// The active piece after rotation, horizontal and vertical movement:
    /// (type, rotation state, x, y, whether a lock attempt follows).
    pub open spec fn piece_after_moves(self, delta: u64) -> (PieceType, int, int, int, bool) {
        let w = self.width as int;
        let h = self.height as int;
        let (t1, s0, x0, y0) = self.piece_after_hold();
        let rot_requested = self.events.rotate_cw || self.events.rotate_ccw;
        let cand = if self.events.rotate_cw { rot_cw(s0) } else { rot_ccw(s0) };
        let s1 = if rot_requested && fits(self.board@, w, h, t1, cand, x0, y0) { cand } else { s0 };
        let dx = dx_of(self.events);
        let x1 = if dx != 0 && fits(self.board@, w, h, t1, s1, x0 + dx, y0) { x0 + dx } else { x0 };
        let grav = gravity_fires(self.elapsed, delta);
        let dy = dy_of(self.events, grav, h);
        if dy > 1 {
            (t1, s1, x1, descend(self.board@, w, h, t1, s1, x1, y0), true)
        } else if dy == 1 {
            if fits(self.board@, w, h, t1, s1, x1, y0 + 1) {
                (t1, s1, x1, y0 + 1, false)
            } else {
                (t1, s1, x1, y0, true)
            }
        } else {
            (t1, s1, x1, y0, false)
        }
    }

    /// Whether a lock attempt (fuse test, line clear, loss check) runs this
    /// tick.
    pub open spec fn lock_runs(self, delta: u64) -> bool {
        self.piece_after_moves(delta).4
    }

    /// Whether the active piece actually fuses this tick.
    pub open spec fn fuses(self, delta: u64) -> bool {
        let (t1, s1, x1, y1, lock) = self.piece_after_moves(delta);
        lock && resting(self.board@, self.width as int, self.height as int, t1, s1, x1, y1)
    }

    /// The board right after the fuse step of this tick.
    pub open spec fn board_after_fuse(self, delta: u64) -> Seq<Color> {
        let (t1, s1, x1, y1, lock) = self.piece_after_moves(delta);
        if self.fuses(delta) {
            fused_board(self.board@, self.width as int, t1, s1, x1, y1, color_spec(t1))
        } else {
            self.board@
        }
    }

    /// The board at the end of this tick, after fusing and line clearing.
    pub open spec fn board_after_tick(self, delta: u64) -> Seq<Color> {
        if self.lock_runs(delta) {
            erased_all(
                self.board_after_fuse(delta),
                self.width as int,
                full_rows(self.board_after_fuse(delta), self.width as int, self.height as int),
            )
        } else {
            self.board@
        }
    }

    /// The score at the end of this tick.
    pub open spec fn score_after_tick(self, delta: u64) -> usize {
        if self.lock_runs(delta) {
            bumped_score(
                self.score,
                full_rows(self.board_after_fuse(delta), self.width as int, self.height as int).len() as int,
            )
        } else {
            self.score
        }
    }

    /// The active piece after the lock phase, before the loss nudge:
    /// (type, rotation state, x, y).
    pub open spec fn piece_after_lock(self, delta: u64) -> (PieceType, int, int, int) {
        let (t1, s1, x1, y1, lock) = self.piece_after_moves(delta);
        if self.fuses(delta) {
            let t2 = self.queue_head_after_hold();
            (t2, 0int, spawn_x(t2), spawn_y(t2))
        } else {
            (t1, s1, x1, y1)
        }
    }

    /// Whether this tick ends in the lost state.
    pub open spec fn lost_after_tick(self, delta: u64) -> bool {
        let (t2, s2, x2, y2) = self.piece_after_lock(delta);
        self.lock_runs(delta) && overlaps(
            self.board_after_tick(delta),
            self.width as int,
            self.height as int,
            t2,
            s2,
            x2,
            y2,
        )
    }

    /// The active piece's origin row at the end of this tick, after the
    /// loss nudge if the tick was lost.
    pub open spec fn piece_y_final(self, delta: u64) -> int {
        let (t2, s2, x2, y2) = self.piece_after_lock(delta);
        let bt = self.board_after_tick(delta);
        let w = self.width as int;
        let h = self.height as int;
        if !self.lock_runs(delta) || !overlaps(bt, w, h, t2, s2, x2, y2) {
            y2
        } else if overlaps(bt, w, h, t2, s2, x2, y2 - 1) {
            y2 - 2
        } else {
            y2 - 1
        }
    }

    /// The origin row after falling one row at a time while the piece
    /// still fits one row lower, per [`descend`].
    fn descend_origin(&self, t: PieceType, s: usize, x: isize, y: isize) -> (r: isize)
        requires
            self.dims_wf(),
            s < 4,
            -300 <= x <= 300,
            -300 <= y <= 300,
            y <= self.height,
        ensures
            r as int == descend(self.board@, self.width as int, self.height as int, t, s as int, x as int, y as int),
            r as int == y as int || fits(self.board@, self.width as int, self.height as int, t, s as int, x as int, r as int),
            y <= r,
            r <= self.height,
    {
        let ghost b = self.board@;
        let ghost w = self.width as int;
        let ghost h = self.height as int;
        let mut by = y;
        let mut fit = self.can_fit_block(t, s, x, by + 1);
        while fit
            invariant
                self.dims_wf(),
                w == self.width as int,
                h == self.height as int,
                b == self.board@,
                s < 4,
                -300 <= x <= 300,
                -300 <= y <= 300,
                y <= by,
                by <= self.height,
                fit == fits(b, w, h, t, s as int, x as int, by as int + 1),
                by == y || fits(b, w, h, t, s as int, x as int, by as int),
                descend(b, w, h, t, s as int, x as int, by as int)
                    == descend(b, w, h, t, s as int, x as int, y as int),
            decreases h - by,
        {
            proof {
                lemma_fits_bounds_origin(b, w, h, t, s as int, x as int, by as int + 1);
            }
            by = by + 1;
            fit = self.can_fit_block(t, s, x, by + 1);
        }
        by
    }

    /// Advance the simulation by one tick: accumulate time, fold the
    /// pending intents into one move request, process hold, rotation,
    /// horizontal and vertical movement, then fuse, clear lines and check
    /// for loss when a lock attempt runs, and refresh the render lists.
    /// A lost game ignores the tick entirely.
    #[verifier::rlimit(100)]
    pub fn update(&mut self, elapsed: u64)
        requires
            old(self).wf(),
        ensures
            final(self).wf(),
            old(self).state == State::Lost ==> *final(self) == *old(self),
            old(self).state == State::Playing ==> ({
                let pre = *old(self);
                let post = *final(self);
                let w = pre.width as int;
                let h = pre.height as int;
                let fin = pre.piece_after_lock(elapsed);
                let yf = pre.piece_y_final(elapsed);
                &&& post.width == pre.width
                &&& post.height == pre.height
                &&& post.elapsed == elapsed_after(pre.elapsed, elapsed)
                &&& post.events == Intents::none_spec()
                &&& post.board@ == pre.board_after_tick(elapsed)
                &&& post.score == pre.score_after_tick(elapsed)
                &&& post.state == (if pre.lost_after_tick(elapsed) { State::Lost } else { State::Playing })
                &&& post.pt() == fin.0
                &&& post.ps() == fin.1
                &&& post.px() == fin.2
                &&& post.py() == yf
                &&& post.held_type == pre.held_after_hold()
                &&& post.can_hold == (if pre.fuses(elapsed) { true } else { pre.can_hold_after_hold() })
                &&& post.next_pieces@.len() == 3
                &&& (if pre.hold_draws() && pre.fuses(elapsed) {
                        post.next_pieces@[0] == pre.next_pieces@[2]
                    } else if pre.hold_draws() || pre.fuses(elapsed) {
                        post.next_pieces@[0] == pre.next_pieces@[1]
                            && post.next_pieces@[1] == pre.next_pieces@[2]
                    } else {
                        post.next_pieces@ == pre.next_pieces@
                    })
                &&& (if pre.hold_draws() && pre.fuses(elapsed) {
                        post.generator.history@ == pre.generator.history@
                            .push(post.next_pieces@[1]).push(post.next_pieces@[2])
                    } else if pre.hold_draws() || pre.fuses(elapsed) {
                        post.generator.history@ == pre.generator.history@.push(post.next_pieces@[2])
                    } else {
                        post.generator == pre.generator
                    })
                &&& post.active_piece_indexes@ == piece_coords(fin.0, fin.1, fin.2, yf, w)
                &&& post.ground_hint_indexes@ == (if pre.lost_after_tick(elapsed) {
                        Seq::<u8>::empty()
                    } else {
                        piece_coords(
                            fin.0,
                            fin.1,
                            fin.2,
                            probe_bottom(pre.board_after_tick(elapsed), w, h, fin.0, fin.1, fin.2, yf),
                            w,
                        )
                    })
            }),
    {
        if matches!(self.state, State::Lost) {
            return;
        }
        let ghost pre = *self;
        let delta_y = self.pre_move_phase(elapsed);
        self.vertical_phase(delta_y, elapsed, Ghost(pre));
        self.update_active_piece_coords();
        self.update_ground_hint_coords();
    }
}

impl Game {
    /// One lock attempt: fuse the piece if it is resting (advancing the
    /// queue and re-enabling hold), clear full rows, and run the loss
    /// check. The render lists are not touched.
    #[verifier::rlimit(60)]
    fn lock_step(&mut self)
        requires
            old(self).wf(),
            old(self).state == State::Playing,
        ensures
            final(self).wf(),
            ({
                let pre = *old(self);
                let post = *final(self);
                let w = pre.width as int;
                let h = pre.height as int;
                let rest = resting(pre.board@, w, h, pre.pt(), pre.ps(), pre.px(), pre.py());
                let fused = if rest {
                    fused_board(pre.board@, w, pre.pt(), pre.ps(), pre.px(), pre.py(), color_spec(pre.pt()))
                } else {
                    pre.board@
                };
                let bt = erased_all(fused, w, full_rows(fused, w, h));
                let t2 = if rest { pre.next_pieces@[0] } else { pre.pt() };
                let s2 = if rest { 0int } else { pre.ps() };
                let x2 = if rest { spawn_x(t2) } else { pre.px() };
                let y2 = if rest { spawn_y(t2) } else { pre.py() };
                let ovl = overlaps(bt, w, h, t2, s2, x2, y2);
                &&& post.board@ == bt
                &&& post.score == bumped_score(pre.score, full_rows(fused, w, h).len() as int)
                &&& post.state == (if ovl { State::Lost } else { State::Playing })
                &&& post.pt() == t2
                &&& post.ps() == s2
                &&& post.px() == x2
                &&& post.py() == (if !ovl {
                        y2
                    } else if overlaps(bt, w, h, t2, s2, x2, y2 - 1) {
                        y2 - 2
                    } else {
                        y2 - 1
                    })
                &&& post.held_type == pre.held_type
                &&& post.can_hold == (if rest { true } else { pre.can_hold })
                &&& post.elapsed == pre.elapsed
                &&& post.events == pre.events
                &&& post.width == pre.width
                &&& post.height == pre.height
                &&& post.active_piece_indexes@ == pre.active_piece_indexes@
                &&& post.ground_hint_indexes@ == pre.ground_hint_indexes@
                &&& post.next_pieces@.len() == 3
                &&& (if rest {
                        post.next_pieces@ == pre.next_pieces@.skip(1).push(post.next_pieces@[2])
                            && post.generator.history@ == pre.generator.history@.push(post.next_pieces@[2])
                            && (pre.generator.index < 7 ==> post.next_pieces@[2]
                                == pre.generator.shuffled@[pre.generator.index as int])
                    } else {
                        post.next_pieces@ == pre.next_pieces@ && post.generator == pre.generator
                    })
            }),
    {
        self.try_fuse_active_piece();
        self.erase_lines();
        self.check_game_over();
    }
}

impl Game {
    /// The first half of a playing tick: accumulate time, fold the pending
    /// intents, process hold, apply rotation and the horizontal move, and
    /// clear the intent set. Hands back the folded vertical request.
    #[verifier::rlimit(100)]
    fn pre_move_phase(&mut self, elapsed: u64) -> (dy: usize)
        requires
            old(self).wf(),
            old(self).state == State::Playing,
        ensures
            final(self).wf(),
            final(self).state == State::Playing,
            ({
                let pre = *old(self);
                let post = *final(self);
                let m = pre.piece_after_moves(elapsed);
                &&& dy as int == dy_of(pre.events, gravity_fires(pre.elapsed, elapsed), pre.height as int)
                &&& post.pt() == m.0
                &&& post.ps() == m.1
                &&& post.px() == m.2
                &&& post.py() == pre.piece_after_hold().3
                &&& post.elapsed == elapsed_after(pre.elapsed, elapsed)
                &&& post.events == Intents::none_spec()
                &&& post.board@ == pre.board@
                &&& post.score == pre.score
                &&& post.state == State::Playing
                &&& post.width == pre.width
                &&& post.height == pre.height
                &&& post.held_type == pre.held_after_hold()
                &&& post.can_hold == pre.can_hold_after_hold()
                &&& post.active_piece_indexes@ == pre.active_piece_indexes@
                &&& post.ground_hint_indexes@ == pre.ground_hint_indexes@
                &&& post.next_pieces@.len() == 3
                &&& (if pre.hold_draws() {
                        post.next_pieces@ == pre.next_pieces@.skip(1).push(post.next_pieces@[2])
                            && post.generator.history@ == pre.generator.history@.push(post.next_pieces@[2])
                            && (pre.generator.index < 7 ==> post.next_pieces@[2]
                                == pre.generator.shuffled@[pre.generator.index as int])
                    } else {
                        post.next_pieces@ == pre.next_pieces@ && post.generator == pre.generator
                    })
            }),
    {
        let ghost pre = *self;

        self.elapsed = self.elapsed.saturating_add(elapsed);
        let mut delta_y: usize = 0;
        if self.elapsed >= FALL_RATE_MICROS {
            delta_y = 1;
            self.elapsed = self.elapsed - FALL_RATE_MICROS;
        }

        let iv = self.events;
        let mut delta_x: isize = 0;
        if iv.left {
            delta_x = delta_x - 1;
        }
        if iv.right {
            delta_x = delta_x + 1;
        }
        if iv.down && delta_y == 0 {
            delta_y = 1;
        }
        if iv.drop {
            delta_y = self.height;
        }
        if iv.hold {
            self.apply_hold();
        }
        self.events = Intents::none();

        proof {
            assert(self.elapsed == elapsed_after(pre.elapsed, elapsed));
            assert(delta_y as int == dy_of(pre.events, gravity_fires(pre.elapsed, elapsed), pre.height as int));
            assert(delta_x as int == dx_of(pre.events));
            assert(self.wf());
        }

        self.rotation_phase(iv.rotate_cw, iv.rotate_ccw);
        self.horizontal_phase(delta_x);
        proof {
            let m = pre.piece_after_moves(elapsed);
            assert(self.pt() == m.0);
            assert(self.ps() == m.1);
            assert(self.px() == m.2);
        }
        delta_y
    }
}

impl Game {
    /// Apply a requested rotation: the candidate state replaces the
    /// current one only if the rotated mask fits at the current position.
    fn rotation_phase(&mut self, cw: bool, ccw: bool)
        requires
            old(self).wf(),
            old(self).state == State::Playing,
        ensures
            final(self).wf(),
            ({
                let pre = *old(self);
                let post = *final(self);
                let cand = if cw { rot_cw(pre.ps()) } else { rot_ccw(pre.ps()) };
                let turns = (cw || ccw) && fits(
                    pre.board@,
                    pre.width as int,
                    pre.height as int,
                    pre.pt(),
                    cand,
                    pre.px(),
                    pre.py(),
                );
                &&& post.ps() == (if turns { cand } else { pre.ps() })
                &&& post.pt() == pre.pt()
                &&& post.px() == pre.px()
                &&& post.py() == pre.py()
                &&& post.active_piece.x == pre.active_piece.x
                &&& post.active_piece.y == pre.active_piece.y
                &&& post == (Game { active_piece: post.active_piece, ..pre })
            }),
    {
        if cw || ccw {
            let cand = if cw {
                self.active_piece.piece.rotate_clockwise()
            } else {
                self.active_piece.piece.rotate_counter_clockwise()
            };
            if self.can_fit_block(cand.ttype, cand.state, self.active_piece.x, self.active_piece.y) {
                self.active_piece.piece = cand;
                proof {
                    assert(placed(
                        self.width as int,
                        self.height as int,
                        self.pt(),
                        self.ps(),
                        self.px(),
                        self.py(),
                    ));
                }
            }
        }
    }

    /// Apply the folded horizontal move: committed only if the mask fits
    /// at the shifted column, dropped entirely otherwise.
    fn horizontal_phase(&mut self, delta_x: isize)
        requires
            old(self).wf(),
            old(self).state == State::Playing,
            -1 <= delta_x <= 1,
        ensures
            final(self).wf(),
            ({
                let pre = *old(self);
                let post = *final(self);
                let moves = delta_x != 0 && fits(
                    pre.board@,
                    pre.width as int,
                    pre.height as int,
                    pre.pt(),
                    pre.ps(),
                    pre.px() + delta_x as int,
                    pre.py(),
                );
                &&& post.px() == (if moves { pre.px() + delta_x as int } else { pre.px() })
                &&& post.pt() == pre.pt()
                &&& post.ps() == pre.ps()
                &&& post.py() == pre.py()
                &&& post.active_piece.y == pre.active_piece.y
                &&& post.active_piece.piece == pre.active_piece.piece
                &&& post == (Game { active_piece: post.active_piece, ..pre })
            }),
    {
        if delta_x != 0 {
            let t = self.active_piece.piece.ttype;
            let s = self.active_piece.piece.state;
            if self.can_fit_block(t, s, self.active_piece.x + delta_x, self.active_piece.y) {
                self.active_piece.x = self.active_piece.x + delta_x;
                proof {
                    assert(placed(
                        self.width as int,
                        self.height as int,
                        self.pt(),
                        self.ps(),
                        self.px(),
                        self.py(),
                    ));
                    lemma_mask_nonempty(t, s as int);
                    let i = choose|i: int| 0 <= i < 16 && occ(t, s as int, i);
                    assert(self.px() + i % 4 >= 0 && i % 4 <= 3);
                    assert(self.px() + i % 4 < self.width);
                }
            }
        }
    }
}

impl Game {
    /// The second half of a playing tick: the vertical move or hard drop,
    /// and the lock attempt (fuse, line clear, loss check) when one is
    /// due. `pre` is the state the tick started from; the render lists
    /// are not touched.
    #[verifier::rlimit(100)]
    fn vertical_phase(&mut self, delta_y: usize, elapsed: u64, Ghost(pre): Ghost<Game>)
        requires
            old(self).wf(),
            old(self).state == State::Playing,
            pre.wf(),
            pre.state == State::Playing,
            ({
                let m = pre.piece_after_moves(elapsed);
                &&& old(self).pt() == m.0
                &&& old(self).ps() == m.1
                &&& old(self).px() == m.2
                &&& old(self).py() == pre.piece_after_hold().3
                &&& old(self).board@ == pre.board@
                &&& old(self).score == pre.score
                &&& old(self).width == pre.width
                &&& old(self).height == pre.height
                &&& old(self).held_type == pre.held_after_hold()
                &&& old(self).can_hold == pre.can_hold_after_hold()
                &&& old(self).next_pieces@.len() == 3
                &&& delta_y as int == dy_of(pre.events, gravity_fires(pre.elapsed, elapsed), pre.height as int)
                &&& (if pre.hold_draws() {
                        old(self).next_pieces@ == pre.next_pieces@.skip(1).push(old(self).next_pieces@[2])
                            && old(self).generator.history@ == pre.generator.history@.push(old(self).next_pieces@[2])
                    } else {
                        old(self).next_pieces@ == pre.next_pieces@ && old(self).generator == pre.generator
                    })
            }),
        ensures
            final(self).wf(),
            ({
                let post = *final(self);
                let fin = pre.piece_after_lock(elapsed);
                let yf = pre.piece_y_final(elapsed);
                &&& post.board@ == pre.board_after_tick(elapsed)
                &&& post.score == pre.score_after_tick(elapsed)
                &&& post.state == (if pre.lost_after_tick(elapsed) { State::Lost } else { State::Playing })
                &&& post.pt() == fin.0
                &&& post.ps() == fin.1
                &&& post.px() == fin.2
                &&& post.py() == yf
                &&& post.held_type == pre.held_after_hold()
                &&& post.can_hold == (if pre.fuses(elapsed) { true } else { pre.can_hold_after_hold() })
                &&& post.next_pieces@.len() == 3
                &&& (if pre.hold_draws() && pre.fuses(elapsed) {
                        post.next_pieces@[0] == pre.next_pieces@[2]
                    } else if pre.hold_draws() || pre.fuses(elapsed) {
                        post.next_pieces@[0] == pre.next_pieces@[1]
                            && post.next_pieces@[1] == pre.next_pieces@[2]
                    } else {
                        post.next_pieces@ == pre.next_pieces@
                    })
                &&& (if pre.hold_draws() && pre.fuses(elapsed) {
                        post.generator.history@ == pre.generator.history@
                            .push(post.next_pieces@[1]).push(post.next_pieces@[2])
                    } else if pre.hold_draws() || pre.fuses(elapsed) {
                        post.generator.history@ == pre.generator.history@.push(post.next_pieces@[2])
                    } else {
                        post.generator == pre.generator
                    })
                &&& post.elapsed == old(self).elapsed
                &&& post.events == old(self).events
                &&& post.width == pre.width
                &&& post.height == pre.height
                &&& post.active_piece_indexes@ == old(self).active_piece_indexes@
                &&& post.ground_hint_indexes@ == old(self).ground_hint_indexes@
            }),
    {
        if delta_y > 1 {
            let t = self.active_piece.piece.ttype;
            let s = self.active_piece.piece.state;
            let ny = self.descend_origin(t, s, self.active_piece.x, self.active_piece.y);
            self.active_piece.y = ny;
            proof {
                assert(placed(
                    self.width as int,
                    self.height as int,
                    self.pt(),
                    self.ps(),
                    self.px(),
                    self.py(),
                ));
                assert(self.wf());
                assert(self.py() == pre.piece_after_moves(elapsed).3);
            }
            self.lock_step();
        } else if delta_y == 1 {
            let t = self.active_piece.piece.ttype;
            let s = self.active_piece.piece.state;
            if self.can_fit_block(t, s, self.active_piece.x, self.active_piece.y + 1) {
                self.active_piece.y = self.active_piece.y + 1;
                proof {
                    assert(placed(
                        self.width as int,
                        self.height as int,
                        self.pt(),
                        self.ps(),
                        self.px(),
                        self.py(),
                    ));
                    lemma_mask_nonempty(t, s as int);
                    let i = choose|i: int| 0 <= i < 16 && occ(t, s as int, i);
                    assert(self.py() + i / 4 < self.height);
                    assert(self.wf());
                    assert(self.py() == pre.piece_after_moves(elapsed).3);
                    assert(!pre.lock_runs(elapsed));
                }
            } else {
                proof {
                    assert(self.py() == pre.piece_after_moves(elapsed).3);
                    assert(pre.lock_runs(elapsed));
                }
                self.lock_step();
            }
        } else {
            proof {
                assert(!pre.lock_runs(elapsed));
            }
        }
    }
}

impl Game {
    /// A fresh game: an empty board, three pieces drawn into the queue, a
    /// fourth spawned as the active piece, score zero, nothing held.
    pub fn new(width: usize, height: usize, seed: u64) -> (r: Game)
        requires
            8 <= width <= 32,
            8 <= height <= 32,
            width * height <= 256,
        ensures
            r.wf(),
            r.width == width,
            r.height == height,
            r.board@ == Seq::new((width * height) as nat, |j: int| Color::Empty),
            r.state == State::Playing,
            r.score == 0,
            r.held_type is None,
            r.can_hold == true,
            r.elapsed == 0,
            r.events == Intents::none_spec(),
            r.generator.history@.len() == 4,
            r.next_pieces@ == r.generator.history@.take(3),
            r.pt() == r.generator.history@[3],
            r.active_piece.piece.state == 0,
            r.px() == spawn_x(r.pt()),
            r.py() == spawn_y(r.pt()),
            r.active_piece_indexes@ == piece_coords(r.pt(), 0, r.px(), r.py(), width as int),
            r.ground_hint_indexes@ == Seq::<u8>::empty(),
    {
        let mut generator = SevenGenerator::new(seed);
        let mut next_pieces: Vec<PieceType> = Vec::new();
        next_pieces.push(generator.next());
        next_pieces.push(generator.next());
        next_pieces.push(generator.next());
        let fourth = generator.next();
        let active_piece = Game::initialize_tetrimino(fourth);

        let cells = width * height;
        let mut board: Vec<Color> = Vec::new();
        let mut i: usize = 0;
        while i < cells
            invariant
                i <= cells,
                board@.len() == i,
                forall|j: int| 0 <= j < i ==> board@[j] == Color::Empty,
            decreases cells - i,
        {
            board.push(Color::Empty);
            i = i + 1;
        }

        let mut game = Game {
            width,
            height,
            board,
            generator,
            next_pieces,
            active_piece,
            held_type: None,
            can_hold: true,
            state: State::Playing,
            elapsed: 0,
            active_piece_indexes: Vec::new(),
            ground_hint_indexes: Vec::new(),
            events: Intents::none(),
            score: 0,
        };
        proof {
            lemma_spawn_placed(game.pt(), width as int, height as int);
            assert(game.board@ =~= Seq::new((width * height) as nat, |j: int| Color::Empty));
            assert(game.next_pieces@ =~= game.generator.history@.take(3));
        }
        game.update_active_piece_coords();
        game
    }

    /// Start over: everything reinitialized as at construction, with the
    /// bag generator reshuffled from its ongoing random stream.
    pub fn restart_game(&mut self)
        requires
            old(self).wf(),
        ensures
            final(self).wf(),
            final(self).width == old(self).width,
            final(self).height == old(self).height,
            final(self).board@ == Seq::new((old(self).width * old(self).height) as nat, |j: int| Color::Empty),
            final(self).state == State::Playing,
            final(self).score == 0,
            final(self).held_type is None,
            final(self).can_hold == true,
            final(self).elapsed == 0,
            final(self).events == Intents::none_spec(),
            final(self).generator.history@.len() == 4,
            final(self).next_pieces@ == final(self).generator.history@.take(3),
            final(self).pt() == final(self).generator.history@[3],
            final(self).active_piece.piece.state == 0,
            final(self).px() == spawn_x(final(self).pt()),
            final(self).py() == spawn_y(final(self).pt()),
            final(self).active_piece_indexes@ == piece_coords(
                final(self).pt(),
                0,
                final(self).px(),
                final(self).py(),
                old(self).width as int,
            ),
            final(self).ground_hint_indexes@ == Seq::<u8>::empty(),
    {
        self.state = State::Playing;
        self.score = 0;
        let cells = self.width * self.height;
        let mut board: Vec<Color> = Vec::new();
        let mut i: usize = 0;
        while i < cells
            invariant
                i <= cells,
                board@.len() == i,
                forall|j: int| 0 <= j < i ==> board@[j] == Color::Empty,
            decreases cells - i,
        {
            board.push(Color::Empty);
            i = i + 1;
        }
        self.board = board;
        self.active_piece_indexes = Vec::new();
        self.ground_hint_indexes = Vec::new();
        self.events = Intents::none();

        self.generator.reset();
        let mut next_pieces: Vec<PieceType> = Vec::new();
        next_pieces.push(self.generator.next());
        next_pieces.push(self.generator.next());
        next_pieces.push(self.generator.next());
        self.next_pieces = next_pieces;
        let fourth = self.generator.next();
        self.active_piece = Game::initialize_tetrimino(fourth);
        self.held_type = None;
        self.can_hold = true;
        self.elapsed = 0;
        proof {
            lemma_spawn_placed(self.pt(), self.width as int, self.height as int);
            assert(self.board@ =~= Seq::new((self.width * self.height) as nat, |j: int| Color::Empty));
            assert(self.next_pieces@ =~= self.generator.history@.take(3));
        }
        self.update_active_piece_coords();
    }

    /// The board contents, row-major from the top-left.
    pub fn board(&self) -> (r: &Vec<Color>)
        ensures
            r@ == self.board@,
    {
        &self.board
    }

    /// The three upcoming piece types, soonest first.
    pub fn next_pieces(&self) -> (r: &Vec<PieceType>)
        ensures
            r@ == self.next_pieces@,
    {
        &self.next_pieces
    }

    /// How many board indices the active piece currently covers on the
    /// visible grid.
    pub fn active_piece_coords_len(&self) -> (r: usize)
        ensures
            r == self.active_piece_indexes@.len(),
    {
        self.active_piece_indexes.len()
    }

    /// The board indices the active piece currently covers on the visible
    /// grid.
    pub fn active_piece_coords(&self) -> (r: &Vec<u8>)
        ensures
            r@ == self.active_piece_indexes@,
    {
        &self.active_piece_indexes
    }

    /// How many board indices the ground preview covers.
    pub fn ground_hint_coords_len(&self) -> (r: usize)
        ensures
            r == self.ground_hint_indexes@.len(),
    {
        self.ground_hint_indexes.len()
    }

    /// The board indices where the active piece would land if dropped.
    pub fn ground_hint_coords(&self) -> (r: &Vec<u8>)
        ensures
            r@ == self.ground_hint_indexes@,
    {
        &self.ground_hint_indexes
    }

    /// The active piece's color.
    pub fn active_piece_color(&self) -> (r: Color)
        ensures
            r == color_spec(self.pt()),
    {
        self.active_piece.piece.color()
    }

    /// The held piece's numeric code, or zero when nothing is held (the
    /// same code the first piece type uses).
    pub fn get_held(&self) -> (r: u8)
        ensures
            r == (match self.held_type {
                Some(t) => piece_code(t),
                None => 0u8,
            }),
    {
        match self.held_type {
            Some(t) => match t {
                PieceType::I => 0,
                PieceType::O => 1,
                PieceType::T => 2,
                PieceType::S => 3,
                PieceType::Z => 4,
                PieceType::J => 5,
                PieceType::L => 6,
            },
            None => 0,
        }
    }

    /// Whether the game has been lost.
    pub fn is_lost(&self) -> (r: bool)
        ensures
            r == (self.state == State::Lost),
    {
        matches!(self.state, State::Lost)
    }

    /// Record a move-left intent for the next tick.
    pub fn move_left(&mut self)
        ensures
            *final(self) == (Game { events: (Intents { left: true, ..old(self).events }), ..*old(self) }),
    {
        self.events.left = true;
    }

    /// Record a move-right intent for the next tick.
    pub fn move_right(&mut self)
        ensures
            *final(self) == (Game { events: (Intents { right: true, ..old(self).events }), ..*old(self) }),
    {
        self.events.right = true;
    }

    /// Record a move-down intent for the next tick.
    pub fn move_down(&mut self)
        ensures
            *final(self) == (Game { events: (Intents { down: true, ..old(self).events }), ..*old(self) }),
    {
        self.events.down = true;
    }

    /// Record a clockwise-rotation intent for the next tick.
    pub fn rotate_clockwise(&mut self)
        ensures
            *final(self) == (Game { events: (Intents { rotate_cw: true, ..old(self).events }), ..*old(self) }),
    {
        self.events.rotate_cw = true;
    }

    /// Record a counter-clockwise-rotation intent for the next tick.
    pub fn rotate_counter_clockwise(&mut self)
        ensures
            *final(self) == (Game { events: (Intents { rotate_ccw: true, ..old(self).events }), ..*old(self) }),
    {
        self.events.rotate_ccw = true;
    }

    /// Record a hard-drop intent for the next tick.
    pub fn drop(&mut self)
        ensures
            *final(self) == (Game { events: (Intents { drop: true, ..old(self).events }), ..*old(self) }),
    {
        self.events.drop = true;
    }

    /// Record a hold intent for the next tick.
    pub fn hold(&mut self)
        ensures
            *final(self) == (Game { events: (Intents { hold: true, ..old(self).events }), ..*old(self) }),
    {
        self.events.hold = true;
    }
}

/// Fit-test soundness: a piece accepted by the fit test never occupies a
/// cell that is out of bounds or already non-empty.
pub proof fn lemma_fit_sound(b: Seq<Color>, w: int, h: int, t: PieceType, s: int, x: int, y: int)
    requires
        fits(b, w, h, t, s, x, y),
    ensures
        forall|i: int| 0 <= i < 16 && #[trigger] occ(t, s, i) ==> 0 <= x + i % 4 < w
            && 0 <= y + i / 4 < h && b[(y + i / 4) * w + (x + i % 4)] == Color::Empty,
{
}

/// Helper: when exactly one row of the first `r` rows is full, the
/// full-row scan finds exactly that one.
proof fn lemma_full_rows_upto_single(b: Seq<Color>, w: int, line: int, r: int)
    requires
        0 <= line,
        row_full(b, w, line),
        forall|q: int| 0 <= q < r && q != line ==> !row_full(b, w, q),
        0 <= r,
    ensures
        full_rows_upto(b, w, r) == (if line < r { seq![line] } else { Seq::<int>::empty() }),
    decreases r,
{
    if r > 0 {
        lemma_full_rows_upto_single(b, w, line, r - 1);
        if r - 1 == line {
            assert(full_rows_upto(b, w, r) =~= seq![line]);
        }
    }
}

/// Line-clear correctness for a single full row: after one clearing pass
/// over a board whose only full row is `line`, the top row is empty, each
/// row down to `line` is a copy of the row that was above it, and the rows
/// below `line` are unchanged.
pub proof fn lemma_single_full_row_clear(b: Seq<Color>, w: int, h: int, line: int)
    requires
        0 < w,
        0 < h,
        b.len() == w * h,
        0 <= line < h,
        row_full(b, w, line),
        forall|q: int| 0 <= q < h && q != line ==> !row_full(b, w, q),
    ensures
        full_rows(b, w, h) == seq![line],
        erased_all(b, w, full_rows(b, w, h)) == erased_row(b, w, line),
        forall|c: int| 0 <= c < w ==> #[trigger] erased_row(b, w, line)[c] == Color::Empty,
        forall|r: int, c: int| 1 <= r <= line && 0 <= c < w
            ==> #[trigger] erased_row(b, w, line)[r * w + c] == b[(r - 1) * w + c],
        forall|r: int, c: int| line < r < h && 0 <= c < w
            ==> #[trigger] erased_row(b, w, line)[r * w + c] == b[r * w + c],
{
    lemma_full_rows_upto_single(b, w, line, h);
    let fr = full_rows(b, w, h);
    assert(fr == seq![line]);
    assert(fr.drop_first() =~= Seq::<int>::empty());
    assert(fr[0] == line);
    assert(erased_all(b, w, fr) == erased_all(erased_row(b, w, line), w, Seq::<int>::empty()));
    let e = erased_row(b, w, line);
    assert forall|c: int| 0 <= c < w implies #[trigger] e[c] == Color::Empty by {
        assert(c < b.len()) by (nonlinear_arith)
            requires 0 <= c < w && b.len() == w * h && h >= 1;
    }
    assert forall|r: int, c: int| 1 <= r <= line && 0 <= c < w
        implies #[trigger] e[r * w + c] == b[(r - 1) * w + c] by {
        assert(w <= r * w + c) by (nonlinear_arith)
            requires 1 <= r && 0 <= c && 0 < w;
        assert(r * w + c < (line + 1) * w) by (nonlinear_arith)
            requires r <= line && c < w && 0 < w;
        assert(r * w + c < w * h) by (nonlinear_arith)
            requires 0 <= c < w && 0 <= r < h;
        assert(r * w + c - w == (r - 1) * w + c) by (nonlinear_arith);
    }
    assert forall|r: int, c: int| line < r < h && 0 <= c < w
        implies #[trigger] e[r * w + c] == b[r * w + c] by {
        assert((line + 1) * w <= r * w + c) by (nonlinear_arith)
            requires line + 1 <= r && 0 <= c && 0 < w;
        assert(w <= (line + 1) * w) by (nonlinear_arith)
            requires 0 <= line && 0 < w;
        assert(r * w + c < w * h) by (nonlinear_arith)
            requires 0 <= c < w && 0 <= r < h;
    }
}

/// Board-index soundness of the render lists: every index among the first
/// `n` mask cells of a piece inside the grid columns lies inside the
/// board.
pub proof fn lemma_coords_in_range(t: PieceType, s: int, x: int, y: int, w: int, h: int, n: int)
    requires
        0 < w,
        0 < h,
        w * h <= 256,
        loosely_placed(w, h, t, s, x, y),
        0 <= n <= 16,
    ensures
        forall|m: int| 0 <= m < coords_upto(t, s, x, y, w, n).len()
            ==> 0 <= (#[trigger] coords_upto(t, s, x, y, w, n)[m]) < w * h,
    decreases n,
{
    if n > 0 {
        lemma_coords_in_range(t, s, x, y, w, h, n - 1);
        let prev = coords_upto(t, s, x, y, w, n - 1);
        let cur = coords_upto(t, s, x, y, w, n);
        if occ(t, s, n - 1) && x + (n - 1) % 4 >= 0 && y + (n - 1) / 4 >= 0 {
            let r = y + (n - 1) / 4;
            let c = x + (n - 1) % 4;
            assert(0 <= c < w && 0 <= r < h);
            assert(r * w + c < w * h) by (nonlinear_arith)
                requires 0 <= c < w && 0 <= r < h;
            assert(((r * w + c) as u8) as int == r * w + c);
            let v = ((r * w + c) as u8);
            assert(cur == prev.push(v));
            assert forall|m: int| 0 <= m < cur.len() implies 0 <= (#[trigger] cur[m]) < w * h by {
                if m < prev.len() {
                    assert(cur[m] == prev[m]);
                } else {
                    assert(cur[m] == v);
                }
            }
        } else {
            assert(cur == prev);
            assert forall|m: int| 0 <= m < cur.len() implies 0 <= (#[trigger] cur[m]) < w * h by {
                assert(cur[m] == prev[m]);
            }
        }
    }
}

} // verus!
