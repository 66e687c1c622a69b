//! The landed cell set and the collision check.
//!
//! The board keeps every cell a stopped piece has left behind, with its
//! display color. Viewed abstractly it is a map from grid coordinate to
//! color; a coordinate appears at most once, and (there being no line
//! clearing) cells are never removed during play, only at session teardown.

use vstd::prelude::*;

use crate::grid::Coord;
use crate::piece::Color;

verus! {

/// Raised when a landing would write over a cell that is already landed.
/// With validated landings this never fires; it can be provoked, because
/// rotation is unconditional and may park a piece on top of landed cells.
#[derive(Clone, Copy, PartialEq, Eq, Structural, Debug)]
pub struct OverlapError;

/// The map described by a list of landed cells, later entries winning.
pub open spec fn cells_to_map(s: Seq<(Coord, Color)>) -> Map<Coord, Color>
    decreases s.len(),
{
    if s.len() == 0 {
        Map::empty()
    } else {
        cells_to_map(s.drop_last()).insert(s.last().0, s.last().1)
    }
}

/// A coordinate is in the described map exactly when some entry carries it.
pub proof fn lemma_cells_to_map_contains(s: Seq<(Coord, Color)>, c: Coord)
    ensures
        cells_to_map(s).contains_key(c) <==> exists|i: int|
            0 <= i < s.len() && #[trigger] s[i].0 == c,
    decreases s.len(),
{
    if s.len() > 0 {
        lemma_cells_to_map_contains(s.drop_last(), c);
        if s.last().0 == c {
            assert(s[s.len() - 1].0 == c);
        } else if cells_to_map(s).contains_key(c) {
            let i = choose|i: int| 0 <= i < s.drop_last().len() && #[trigger] s.drop_last()[i].0 == c;
            assert(s[i].0 == c);
        } else if exists|i: int| 0 <= i < s.len() && #[trigger] s[i].0 == c {
            let i = choose|i: int| 0 <= i < s.len() && #[trigger] s[i].0 == c;
            assert(s.drop_last()[i].0 == c);
        }
    }
}

/// With pairwise-distinct coordinates, the described map has exactly one
/// entry per list element.
pub proof fn lemma_cells_to_map_len(s: Seq<(Coord, Color)>)
    requires
        forall|i: int, j: int| 0 <= i < j < s.len() ==> (#[trigger] s[i]).0 != (#[trigger] s[j]).0,
    ensures
        cells_to_map(s).dom().finite(),
        cells_to_map(s).dom().len() == s.len(),
    decreases s.len(),
{
    if s.len() > 0 {
        lemma_cells_to_map_len(s.drop_last());
        lemma_cells_to_map_contains(s.drop_last(), s.last().0);
        assert(forall|i: int| 0 <= i < s.drop_last().len() ==> (#[trigger] s.drop_last()[i]).0
            != s.last().0) by {
            assert(forall|i: int| 0 <= i < s.len() - 1 ==> (#[trigger] s[i]).0 != s[s.len() - 1].0);
        }
        assert(!cells_to_map(s.drop_last()).contains_key(s.last().0));
    }
}

/// With pairwise-distinct coordinates, each entry keeps its own color.
pub proof fn lemma_cells_to_map_index(s: Seq<(Coord, Color)>, i: int)
    requires
        forall|a: int, b: int| 0 <= a < b < s.len() ==> (#[trigger] s[a]).0 != (#[trigger] s[b]).0,
        0 <= i < s.len(),
    ensures
        cells_to_map(s).contains_key(s[i].0),
        cells_to_map(s)[s[i].0] == s[i].1,
    decreases s.len(),
{
    if i < s.len() - 1 {
        lemma_cells_to_map_index(s.drop_last(), i);
        assert(s.drop_last()[i] == s[i]);
        assert(s[i].0 != s.last().0);
    }
}

/// The set of landed cells, each with its color.
pub struct Board {
    cells: Vec<(Coord, Color)>,
}

impl View for Board {
    type V = Map<Coord, Color>;

    closed spec fn view(&self) -> Map<Coord, Color> {
        cells_to_map(self.cells@)
    }
}

impl Board {
    /// Internal invariant: no coordinate is recorded twice.
    pub closed spec fn wf(self) -> bool {
        forall|i: int, j: int|
            0 <= i < j < self.cells@.len() ==> (#[trigger] self.cells@[i]).0
                != (#[trigger] self.cells@[j]).0
    }

    /// An empty board.
    pub fn new() -> (b: Board)
        ensures
            b.wf(),
            b@ == Map::<Coord, Color>::empty(),
    {
        Board { cells: Vec::new() }
    }

    /// Whether the coordinate is occupied by a landed cell.
    pub fn is_landed(&self, c: Coord) -> (r: bool)
        ensures
            r == self@.contains_key(c),
    {
        proof {
            lemma_cells_to_map_contains(self.cells@, c);
        }
        let mut i: usize = 0;
        while i < self.cells.len()
            invariant
                i <= self.cells@.len(),
                forall|j: int| 0 <= j < i ==> (#[trigger] self.cells@[j]).0 != c,
            decreases self.cells@.len() - i,
        {
            if self.cells[i].0 == c {
                proof {
                    lemma_cells_to_map_contains(self.cells@, c);
                }
                return true;
            }
            i = i + 1;
        }
        proof {
            lemma_cells_to_map_contains(self.cells@, c);
        }
        false
    }

    /// The number of landed cells.
    pub fn count(&self) -> (n: usize)
        requires
            self.wf(),
        ensures
            n == self@.dom().len(),
    {
        proof {
            lemma_cells_to_map_len(self.cells@);
        }
        self.cells.len()
    }

    /// All landed cells with their colors, one entry per coordinate, in
    /// landing order: what a renderer reads each frame.
    pub fn landed_cells(&self) -> (out: Vec<(Coord, Color)>)
        requires
            self.wf(),
        ensures
            out@.len() == self@.dom().len(),
            forall|i: int, j: int|
                0 <= i < j < out@.len() ==> (#[trigger] out@[i]).0 != (#[trigger] out@[j]).0,
            forall|i: int|
                0 <= i < out@.len() ==> self@.contains_key((#[trigger] out@[i]).0)
                    && self@[out@[i].0] == out@[i].1,
            forall|c: Coord|
                self@.contains_key(c) ==> exists|i: int|
                    0 <= i < out@.len() && (#[trigger] out@[i]).0 == c,
    {
        proof {
            lemma_cells_to_map_len(self.cells@);
            assert forall|i: int| 0 <= i < self.cells@.len() implies self@.contains_key(
                (#[trigger] self.cells@[i]).0,
            ) && self@[self.cells@[i].0] == self.cells@[i].1 by {
                lemma_cells_to_map_index(self.cells@, i);
            }
        }
        let mut out: Vec<(Coord, Color)> = Vec::new();
        let mut i: usize = 0;
        while i < self.cells.len()
            invariant
                i <= self.cells@.len(),
                out@.len() == i as int,
                forall|j: int| 0 <= j < i ==> out@[j] == self.cells@[j],
            decreases self.cells@.len() - i,
        {
            out.push(self.cells[i]);
            i = i + 1;
        }
        proof {
            assert forall|c: Coord| self@.contains_key(c) implies exists|i: int|
                0 <= i < out@.len() && (#[trigger] out@[i]).0 == c by {
                lemma_cells_to_map_contains(self.cells@, c);
                let i = choose|i: int| 0 <= i < self.cells@.len() && #[trigger] self.cells@[i].0 == c;
                assert(out@[i].0 == c);
            }
        }
        out
    }

    /// True when every candidate cell may hold a block: inside the side
    /// walls, not below the floor, and not already landed. The single gate
    /// for lateral moves, gravity descents and hard-drop steps; rotation
    /// bypasses it.
    pub open spec fn spec_can_place(self, cells: Seq<Coord>) -> bool {
        forall|i: int|
            0 <= i < cells.len() ==> (#[trigger] cells[i]).spec_in_bounds()
                && !self@.contains_key(cells[i])
    }

    /// Tests whether the candidate cells may all hold blocks.
    pub fn can_place(&self, cells: &Vec<Coord>) -> (r: bool)
        ensures
            r == self.spec_can_place(cells@),
    {
        let mut i: usize = 0;
        while i < cells.len()
            invariant
                i <= cells@.len(),
                forall|j: int|
                    0 <= j < i ==> (#[trigger] cells@[j]).spec_in_bounds()
                        && !self@.contains_key(cells@[j]),
            decreases cells@.len() - i,
        {
            let c = cells[i];
            if !c.in_bounds() || self.is_landed(c) {
                return false;
            }
            i = i + 1;
        }
        true
    }

    /// Adds every given coordinate with the given color. Fails with
    /// `OverlapError`, changing nothing, if any coordinate is already
    /// landed; the caller is expected to have validated the cells, so a
    /// failure marks a broken invariant, not a recoverable outcome.
    pub fn land(&mut self, coords: &Vec<Coord>, color: Color) -> (r: Result<(), OverlapError>)
        requires
            old(self).wf(),
            forall|i: int, j: int|
                0 <= i < j < coords@.len() ==> coords@[i] != coords@[j],
        ensures
            final(self).wf(),
            r is Ok ==> forall|i: int|
                0 <= i < coords@.len() ==> !old(self)@.contains_key(#[trigger] coords@[i]),
            r is Ok ==> forall|c: Coord|
                #[trigger] final(self)@.contains_key(c) ==> old(self)@.contains_key(c)
                    || coords@.contains(c),
            r is Ok ==> forall|i: int|
                0 <= i < coords@.len() ==> final(self)@.contains_key(#[trigger] coords@[i]),
            r is Ok ==> forall|c: Coord|
                #[trigger] old(self)@.contains_key(c) ==> final(self)@.contains_key(c),
            r is Ok ==> forall|i: int|
                0 <= i < coords@.len() ==> final(self)@[#[trigger] coords@[i]] == color,
            r is Ok ==> forall|c: Coord|
                old(self)@.contains_key(c) ==> final(self)@[c] == old(self)@[c],
            r is Err ==> exists|i: int|
                0 <= i < coords@.len() && old(self)@.contains_key(#[trigger] coords@[i]),
            r is Err ==> *final(self) == *old(self),
    {
        let mut i: usize = 0;
        while i < coords.len()
            invariant
                i <= coords@.len(),
                *self == *old(self),
                self.wf(),
                forall|j: int| 0 <= j < i ==> !self@.contains_key(#[trigger] coords@[j]),
            decreases coords@.len() - i,
        {
            if self.is_landed(coords[i]) {
                return Err(OverlapError);
            }
            i = i + 1;
        }
        let mut k: usize = 0;
        let ghost orig = *self;
        while k < coords.len()
            invariant
                k <= coords@.len(),
                self.wf(),
                orig.wf(),
                forall|i: int, j: int|
                    0 <= i < j < coords@.len() ==> coords@[i] != coords@[j],
                forall|j: int| 0 <= j < coords@.len() ==> !orig@.contains_key(#[trigger] coords@[j]),
                forall|c: Coord|
                    self@.contains_key(c) <==> orig@.contains_key(c) || exists|j: int|
                        0 <= j < k && #[trigger] coords@[j] == c,
                forall|j: int| 0 <= j < k ==> self@[#[trigger] coords@[j]] == color,
                forall|c: Coord| orig@.contains_key(c) ==> self@[c] == orig@[c],
            decreases coords@.len() - k,
        {
            self.push_cell(coords[k], color);
            k = k + 1;
        }
        proof {
            assert forall|c: Coord| self@.contains_key(c) implies orig@.contains_key(c)
                || coords@.contains(c) by {}
            assert forall|c: Coord| orig@.contains_key(c) || coords@.contains(c)
                implies self@.contains_key(c) by {
                if coords@.contains(c) {
                    let j = choose|j: int| 0 <= j < coords@.len() && coords@[j] == c;
                    assert(coords@[j] == c);
                }
            }
        }
        Ok(())
    }

    /// Appends one cell known to be fresh and not among the earlier entries.
    fn push_cell(&mut self, c: Coord, color: Color)
        requires
            old(self).wf(),
            !old(self)@.contains_key(c),
        ensures
            final(self).wf(),
            final(self)@ == old(self)@.insert(c, color),
            forall|d: Coord|
                final(self)@.contains_key(d) <==> old(self)@.contains_key(d) || d == c,
            forall|d: Coord|
                old(self)@.contains_key(d) ==> final(self)@[d] == old(self)@[d],
            final(self)@[c] == color,
    {
        proof {
            lemma_cells_to_map_contains(self.cells@, c);
        }
        self.cells.push((c, color));
        proof {
            assert(self.cells@.drop_last() =~= old(self).cells@);
            assert forall|i: int, j: int| 0 <= i < j < self.cells@.len() implies (
            #[trigger] self.cells@[i]).0 != (#[trigger] self.cells@[j]).0 by {
                if j == self.cells@.len() - 1 {
                    assert(old(self).cells@[i] == self.cells@[i]);
                }
            }
        }
    }

    /// Law: a candidate set with any cell beyond the side walls or below
    /// the floor is rejected, whatever the board holds.
    pub proof fn lemma_can_place_rejects_out_of_bounds(self, cells: Seq<Coord>, i: int)
        requires
            0 <= i < cells.len(),
            !cells[i].spec_in_bounds(),
        ensures
            !self.spec_can_place(cells),
    {
    }

    /// Law: an empty board accepts every candidate set whose cells are all
    /// in bounds (side walls respected, rows non-negative).
    pub proof fn lemma_can_place_empty_board(self, cells: Seq<Coord>)
        requires
            self@ == Map::<Coord, Color>::empty(),
            forall|i: int| 0 <= i < cells.len() ==> (#[trigger] cells[i]).spec_in_bounds(),
        ensures
            self.spec_can_place(cells),
    {
    }

    /// Empties the board; session teardown only, never during play.
    pub fn clear(&mut self)
        ensures
            final(self).wf(),
            final(self)@ == Map::<Coord, Color>::empty(),
    {
        self.cells.clear();
    }
}

} // verus!
