//! The tetromino catalog and the falling piece.
//!
//! Each shape is four offsets from a shape-local pivot. A falling piece is a
//! pivot coordinate, a quarter-turn count and a shape; its absolute cells are
//! derived by rotating each offset about the pivot and translating. Rotation
//! of a 90-degree-aligned offset is exact in integer grid space: one quarter
//! turn maps `(x, y)` to `(-y, x)`.

use vstd::prelude::*;

use crate::grid::Coord;

verus! {

/// The seven tetromino shapes.
#[derive(Clone, Copy, PartialEq, Eq, Structural, Hash, Debug)]
pub enum Shape {
    I,
    J,
    L,
    O,
    S,
    T,
    Z,
}

/// Display colors for landed and falling blocks; presentation metadata only,
/// the collision logic never reads them.
#[derive(Clone, Copy, PartialEq, Eq, Structural, Hash, Debug)]
pub enum Color {
    Aquamarine,
    Blue,
    Orange,
    Yellow,
    Green,
    Pink,
    Red,
}

/// The four pivot-relative offsets of a shape, as `(column, row)` pairs.
pub open spec fn spec_offsets(s: Shape) -> Seq<(int, int)> {
    match s {
        Shape::I => seq![(-1, 1), (0, 1), (1, 1), (2, 1)],
        Shape::J => seq![(-1, 1), (-1, 0), (0, 0), (1, 0)],
        Shape::L => seq![(1, 1), (-1, 0), (0, 0), (1, 0)],
        Shape::O => seq![(0, 1), (1, 1), (0, 0), (1, 0)],
        Shape::S => seq![(0, 1), (1, 1), (-1, 0), (0, 0)],
        Shape::T => seq![(0, 1), (-1, 0), (0, 0), (1, 0)],
        Shape::Z => seq![(-1, 1), (0, 1), (0, 0), (1, 0)],
    }
}

/// The color drawn for each shape.
pub open spec fn spec_color(s: Shape) -> Color {
    match s {
        Shape::I => Color::Aquamarine,
        Shape::J => Color::Blue,
        Shape::L => Color::Orange,
        Shape::O => Color::Yellow,
        Shape::S => Color::Green,
        Shape::T => Color::Pink,
        Shape::Z => Color::Red,
    }
}

/// One quarter turn counterclockwise about the origin.
pub open spec fn spec_rotate_quarter(o: (int, int)) -> (int, int) {
    (-o.1, o.0)
}

/// `q` quarter turns about the origin.
pub open spec fn spec_rotate_offset(o: (int, int), q: nat) -> (int, int)
    decreases q,
{
    if q == 0 {
        o
    } else {
        spec_rotate_quarter(spec_rotate_offset(o, (q - 1) as nat))
    }
}

/// The `i`-th pivot-relative offset of shape `s`.
pub fn offset_at(s: Shape, i: usize) -> (o: (i32, i32))
    requires
        i < 4,
    ensures
        (o.0 as int, o.1 as int) == spec_offsets(s)[i as int],
{
    match s {
        Shape::I => {
            if i == 0 { (-1, 1) } else if i == 1 { (0, 1) } else if i == 2 { (1, 1) } else { (2, 1) }
        },
        Shape::J => {
            if i == 0 { (-1, 1) } else if i == 1 { (-1, 0) } else if i == 2 { (0, 0) } else { (1, 0) }
        },
        Shape::L => {
            if i == 0 { (1, 1) } else if i == 1 { (-1, 0) } else if i == 2 { (0, 0) } else { (1, 0) }
        },
        Shape::O => {
            if i == 0 { (0, 1) } else if i == 1 { (1, 1) } else if i == 2 { (0, 0) } else { (1, 0) }
        },
        Shape::S => {
            if i == 0 { (0, 1) } else if i == 1 { (1, 1) } else if i == 2 { (-1, 0) } else { (0, 0) }
        },
        Shape::T => {
            if i == 0 { (0, 1) } else if i == 1 { (-1, 0) } else if i == 2 { (0, 0) } else { (1, 0) }
        },
        Shape::Z => {
            if i == 0 { (-1, 1) } else if i == 1 { (0, 1) } else if i == 2 { (0, 0) } else { (1, 0) }
        },
    }
}

/// The color paired with shape `s`.
pub fn color_of(s: Shape) -> (c: Color)
    ensures
        c == spec_color(s),
{
    match s {
        Shape::I => Color::Aquamarine,
        Shape::J => Color::Blue,
        Shape::L => Color::Orange,
        Shape::O => Color::Yellow,
        Shape::S => Color::Green,
        Shape::T => Color::Pink,
        Shape::Z => Color::Red,
    }
}

/// The shape filed under each index of the catalog.
pub open spec fn spec_shape_from_index(i: int) -> Shape {
    if i == 0 {
        Shape::I
    } else if i == 1 {
        Shape::J
    } else if i == 2 {
        Shape::L
    } else if i == 3 {
        Shape::O
    } else if i == 4 {
        Shape::S
    } else if i == 5 {
        Shape::T
    } else {
        Shape::Z
    }
}

/// Relies on rand::random::<u8>: draws one byte, uniformly distributed,
/// from the thread-local generator. Nothing is promised of the value.
#[verifier::external_body]
fn random_byte() -> u8 {
    rand::random::<u8>()
}

/// Draws a shape for the next piece: one random byte reduced modulo seven.
/// (256 is not divisible by 7, so the draw carries a slight bias toward the
/// first four shapes; this reproduces the game's observed behaviour.)
pub fn random_shape() -> Shape {
    shape_from_byte(random_byte())
}

/// Reduces a freshly drawn byte modulo seven and picks the shape it
/// selects from the catalog.
pub fn shape_from_byte(b: u8) -> (s: Shape)
    ensures
        s == spec_shape_from_index(b as int % 7),
{
    let i: u8 = b % 7;
    if i == 0 {
        Shape::I
    } else if i == 1 {
        Shape::J
    } else if i == 2 {
        Shape::L
    } else if i == 3 {
        Shape::O
    } else if i == 4 {
        Shape::S
    } else if i == 5 {
        Shape::T
    } else {
        Shape::Z
    }
}

/// Rotates an offset by `q` quarter turns, exactly in integer grid space.
pub fn rotate_offset(o: (i32, i32), q: u8) -> (r: (i32, i32))
    requires
        q < 4,
        -8 <= o.0 <= 8,
        -8 <= o.1 <= 8,
    ensures
        (r.0 as int, r.1 as int) == spec_rotate_offset((o.0 as int, o.1 as int), q as nat),
{
    proof {
        reveal_with_fuel(spec_rotate_offset, 5);
    }
    if q == 0 {
        o
    } else if q == 1 {
        (-o.1, o.0)
    } else if q == 2 {
        (-o.0, -o.1)
    } else {
        (o.1, -o.0)
    }
}

/// Every offset of every shape has both components in `[-1, 2]`.
pub proof fn lemma_offset_component_bounds(s: Shape, i: int)
    requires
        0 <= i < 4,
    ensures
        -1 <= spec_offsets(s)[i].0 <= 2,
        -1 <= spec_offsets(s)[i].1 <= 2,
{
}

/// Rotating keeps both components of a shape offset in `[-2, 2]`.
pub proof fn lemma_rotated_offset_bounds(s: Shape, i: int, q: nat)
    requires
        0 <= i < 4,
        q < 4,
    ensures
        -2 <= spec_rotate_offset(spec_offsets(s)[i], q).0 <= 2,
        -2 <= spec_rotate_offset(spec_offsets(s)[i], q).1 <= 2,
{
    reveal_with_fuel(spec_rotate_offset, 5);
    lemma_offset_component_bounds(s, i);
}

/// Rotation by a fixed number of quarter turns is injective.
pub proof fn lemma_rotate_offset_injective(a: (int, int), b: (int, int), q: nat)
    requires
        spec_rotate_offset(a, q) == spec_rotate_offset(b, q),
    ensures
        a == b,
    decreases q,
{
    if q > 0 {
        let ra = spec_rotate_offset(a, (q - 1) as nat);
        let rb = spec_rotate_offset(b, (q - 1) as nat);
        assert(ra == rb) by {
            assert(spec_rotate_quarter(ra).1 == ra.0 && spec_rotate_quarter(ra).0 == -ra.1);
        }
        lemma_rotate_offset_injective(a, b, (q - 1) as nat);
    }
}

/// The offsets of each shape are pairwise distinct.
pub proof fn lemma_offsets_distinct(s: Shape, i: int, j: int)
    requires
        0 <= i < 4,
        0 <= j < 4,
        i != j,
    ensures
        spec_offsets(s)[i] != spec_offsets(s)[j],
{
}

/// The single falling piece: a shape, the grid coordinate of its pivot, and
/// its rotation state in quarter turns.
#[derive(Clone, Copy, PartialEq, Eq, Structural, Hash, Debug)]
pub struct FallingPiece {
    pub shape: Shape,
    pub origin: Coord,
    pub rot: u8,
}

impl FallingPiece {
    /// Validity of a piece: the rotation state is one of the four quarter
    /// turns, and the pivot lies in a band wide enough for any reachable
    /// game state, narrow enough that deriving cells never overflows `i32`.
    pub open spec fn wf(self) -> bool {
        &&& self.rot < 4
        &&& -1000 <= self.origin.col <= 1000
        &&& -1000 <= self.origin.row <= 1000
    }

    /// The absolute cell derived from the `i`-th shape offset.
    pub open spec fn spec_cell(self, i: int) -> Coord {
        let off = spec_rotate_offset(spec_offsets(self.shape)[i], self.rot as nat);
        Coord {
            col: (self.origin.col + off.0) as i32,
            row: (self.origin.row + off.1) as i32,
        }
    }

    /// The four absolute cells the piece occupies.
    pub open spec fn spec_occupied(self) -> Seq<Coord> {
        Seq::new(4, |i: int| self.spec_cell(i))
    }

    /// The piece after one clockwise quarter turn.
    pub open spec fn spec_rotated_cw(self) -> FallingPiece {
        FallingPiece { rot: ((self.rot + 1) % 4) as u8, ..self }
    }

    /// The piece after one counterclockwise quarter turn.
    pub open spec fn spec_rotated_ccw(self) -> FallingPiece {
        FallingPiece { rot: ((self.rot + 3) % 4) as u8, ..self }
    }

    /// The piece shifted by whole columns and rows.
    pub open spec fn spec_translated(self, dcol: int, drow: int) -> FallingPiece {
        FallingPiece {
            origin: Coord {
                col: (self.origin.col + dcol) as i32,
                row: (self.origin.row + drow) as i32,
            },
            ..self
        }
    }

    pub fn new(shape: Shape, origin: Coord, rot: u8) -> (p: FallingPiece)
        requires
            rot < 4,
        ensures
            p == (FallingPiece { shape, origin, rot }),
    {
        FallingPiece { shape, origin, rot }
    }

    /// The four absolute grid cells the piece occupies.
    pub fn occupied(&self) -> (cells: Vec<Coord>)
        requires
            self.wf(),
        ensures
            cells@ == self.spec_occupied(),
    {
        let mut cells: Vec<Coord> = Vec::new();
        let mut i: usize = 0;
        while i < 4
            invariant
                self.wf(),
                i <= 4,
                cells@.len() == i as int,
                forall|j: int| 0 <= j < i ==> cells@[j] == self.spec_cell(j),
            decreases 4 - i,
        {
            let off = offset_at(self.shape, i);
            let r = rotate_offset(off, self.rot);
            proof {
                lemma_rotated_offset_bounds(self.shape, i as int, self.rot as nat);
            }
            let cell = Coord { col: self.origin.col + r.0, row: self.origin.row + r.1 };
            cells.push(cell);
            i = i + 1;
        }
        proof {
            assert(cells@ =~= self.spec_occupied());
        }
        cells
    }

    /// Unconditional clockwise quarter turn: never checked against the board.
    pub fn rotate_cw(&mut self)
        requires
            old(self).rot < 4,
        ensures
            *final(self) == old(self).spec_rotated_cw(),
    {
        self.rot = (self.rot + 1) % 4;
    }

    /// Unconditional counterclockwise quarter turn: never checked against
    /// the board.
    pub fn rotate_ccw(&mut self)
        requires
            old(self).rot < 4,
        ensures
            *final(self) == old(self).spec_rotated_ccw(),
    {
        self.rot = (self.rot + 3) % 4;
    }
}

/// Law: a piece occupies exactly four pairwise-distinct grid cells, for
/// every shape, every rotation state and every valid pivot.
pub proof fn lemma_occupied_four_distinct(p: FallingPiece)
    requires
        p.wf(),
    ensures
        p.spec_occupied().len() == 4,
        forall|i: int, j: int|
            0 <= i < j < 4 ==> p.spec_occupied()[i] != p.spec_occupied()[j],
{
    assert forall|i: int, j: int| 0 <= i < j < 4 implies p.spec_occupied()[i]
        != p.spec_occupied()[j] by {
        let oi = spec_rotate_offset(spec_offsets(p.shape)[i], p.rot as nat);
        let oj = spec_rotate_offset(spec_offsets(p.shape)[j], p.rot as nat);
        lemma_offsets_distinct(p.shape, i, j);
        lemma_rotated_offset_bounds(p.shape, i, p.rot as nat);
        lemma_rotated_offset_bounds(p.shape, j, p.rot as nat);
        if oi == oj {
            lemma_rotate_offset_injective(
                spec_offsets(p.shape)[i],
                spec_offsets(p.shape)[j],
                p.rot as nat,
            );
        }
        assert(p.spec_cell(i).col == p.origin.col + oi.0);
        assert(p.spec_cell(j).col == p.origin.col + oj.0);
        assert(p.spec_cell(i).row == p.origin.row + oi.1);
        assert(p.spec_cell(j).row == p.origin.row + oj.1);
    }
}

/// Law: rotation is a group of order four. Four clockwise quarter turns, or
/// four counterclockwise ones, return the piece — and so its occupied set —
/// to exactly its original state.
pub proof fn lemma_rotation_order_four(p: FallingPiece)
    requires
        p.rot < 4,
    ensures
        p.spec_rotated_cw().spec_rotated_cw().spec_rotated_cw().spec_rotated_cw() == p,
        p.spec_rotated_ccw().spec_rotated_ccw().spec_rotated_ccw().spec_rotated_ccw() == p,
        p.spec_rotated_cw().spec_rotated_cw().spec_rotated_cw().spec_rotated_cw().spec_occupied()
            =~= p.spec_occupied(),
        p.spec_rotated_ccw().spec_rotated_ccw().spec_rotated_ccw().spec_rotated_ccw()
            .spec_occupied() =~= p.spec_occupied(),
{
}

} // verus!
