//! The game session: command processing, gravity descent and landing.
//!
//! A session owns the board, the single falling piece and the gravity
//! clock. Lateral moves and descents are committed only when the collision
//! check accepts the shifted placement; rotation always commits; a hard
//! drop walks the piece down one row at a time until the first rejected
//! step and then lands it. Landing converts the piece's cells into landed
//! cells and spawns a freshly drawn piece at the spawn pivot.

use vstd::prelude::*;

use crate::board::Board;
use crate::board::OverlapError;
use crate::clock::GravityClock;
use crate::clock::GRAVITY_INTERVAL_MS;
use crate::grid::Coord;
use crate::grid::WIDTH;
use crate::piece::color_of;
use crate::piece::lemma_occupied_four_distinct;
use crate::piece::lemma_rotated_offset_bounds;
use crate::piece::random_shape;
use crate::piece::spec_color;
use crate::piece::Color;
use crate::piece::FallingPiece;
use crate::piece::Shape;

verus! {

/// Column of the spawn pivot: the board's center.
pub const SPAWN_COL: i32 = 5;

/// Row of the spawn pivot: just above the visible board.
pub const SPAWN_ROW: i32 = 16;

/// The fixed coordinate at which every new piece appears.
pub open spec fn spec_spawn_coord() -> Coord {
    Coord { col: SPAWN_COL, row: SPAWN_ROW }
}

/// A new piece of shape `s`, unrotated, at the spawn pivot.
pub open spec fn spec_spawn_piece(s: Shape) -> FallingPiece {
    FallingPiece { shape: s, origin: spec_spawn_coord(), rot: 0 }
}

/// A player command, already decoded from raw input by the host.
#[derive(Clone, Copy, PartialEq, Eq, Structural, Debug)]
pub enum Command {
    MoveLeft,
    MoveRight,
    RotateCw,
    RotateCcw,
    HardDrop,
}

/// One running game session: the landed cells, exactly one falling piece,
/// and the gravity clock.
pub struct Game {
    pub board: Board,
    pub falling: FallingPiece,
    pub clock: GravityClock,
}

/// If a piece's four cells all sit inside the walls and above the floor,
/// its pivot lies in the narrow band around the board.
pub proof fn lemma_can_place_pivot_bounds(b: Board, p: FallingPiece)
    requires
        p.wf(),
        b.spec_can_place(p.spec_occupied()),
    ensures
        -2 <= p.origin.col <= WIDTH + 1,
        -2 <= p.origin.row,
{
    assert(p.spec_occupied()[0].spec_in_bounds());
    lemma_rotated_offset_bounds(p.shape, 0, p.rot as nat);
}

/// The state change of a landing that succeeded: the piece's four cells
/// joined the landed set in the piece's color, nothing else was added or
/// changed, and a new piece stands at the spawn pivot with rotation zero.
/// Which shape it has is left open: the next shape is drawn at random.
pub open spec fn spec_landed_ok(pre: Game, post: Game) -> bool {
    &&& forall|c: Coord|
        post.board@.contains_key(c) <==> pre.board@.contains_key(c)
            || pre.falling.spec_occupied().contains(c)
    &&& forall|i: int|
        0 <= i < 4 ==> post.board@[#[trigger] pre.falling.spec_occupied()[i]] == spec_color(
            pre.falling.shape,
        )
    &&& forall|c: Coord| pre.board@.contains_key(c) ==> post.board@[c] == pre.board@[c]
    &&& post.falling.origin == spec_spawn_coord()
    &&& post.falling.rot == 0
    &&& post.clock == pre.clock
}

/// A landing is refused exactly when some cell of the piece is already
/// landed — reachable only through an unconditional rotation that parked
/// the piece over landed cells.
pub open spec fn spec_land_rejected(pre: Game) -> bool {
    exists|i: int| 0 <= i < 4 && pre.board@.contains_key(#[trigger] pre.falling.spec_occupied()[i])
}

/// The state change of a committed or refused shift by one cell: the piece
/// moves exactly when the collision check accepts the shifted placement;
/// the board and the clock stay as they were.
pub open spec fn spec_shift_step(pre: Game, post: Game, dcol: int, drow: int) -> bool {
    let cand = pre.falling.spec_translated(dcol, drow);
    &&& post.board == pre.board
    &&& post.clock == pre.clock
    &&& post.falling == if pre.board.spec_can_place(cand.spec_occupied()) {
        cand
    } else {
        pre.falling
    }
}

/// `d` is the number of one-row descents a hard drop commits: every step
/// down to `d` is accepted and the next one is refused. These two clauses
/// pin `d` uniquely.
pub open spec fn spec_drop_steps_ok(b: Board, p: FallingPiece, d: int) -> bool {
    &&& 0 <= d
    &&& forall|j: int|
        1 <= j <= d ==> b.spec_can_place((#[trigger] p.spec_translated(0, -j)).spec_occupied())
    &&& !b.spec_can_place(p.spec_translated(0, -(d + 1)).spec_occupied())
}

/// The full outcome of a hard drop that committed `d` descents: on `Ok` the
/// piece landed at its resting position, all four of its cells previously
/// free; on `Err` not even the first descent was accepted and the resting
/// position itself overlaps landed cells, so the session is left unchanged.
pub open spec fn spec_hard_drop_outcome(
    pre: Game,
    post: Game,
    r: Result<(), OverlapError>,
    d: int,
) -> bool {
    &&& spec_drop_steps_ok(pre.board, pre.falling, d)
    &&& match r {
        Ok(()) => ({
            let rest = Game { falling: pre.falling.spec_translated(0, -d), ..pre };
            &&& forall|i: int|
                0 <= i < 4 ==> !pre.board@.contains_key(
                    #[trigger] rest.falling.spec_occupied()[i],
                )
            &&& spec_landed_ok(rest, post)
        }),
        Err(_) => d == 0 && spec_land_rejected(pre) && post == pre,
    }
}

/// Law: a hard drop's outcome is a function of the board and the piece
/// alone. The two clauses of `spec_drop_steps_ok` admit exactly one descent
/// count, so the resting position a hard drop reports is unique.
pub proof fn lemma_drop_steps_unique(b: Board, p: FallingPiece, d1: int, d2: int)
    requires
        spec_drop_steps_ok(b, p, d1),
        spec_drop_steps_ok(b, p, d2),
    ensures
        d1 == d2,
{
    if d1 < d2 {
        assert(b.spec_can_place(p.spec_translated(0, -(d1 + 1)).spec_occupied()));
    }
    if d2 < d1 {
        assert(b.spec_can_place(p.spec_translated(0, -(d2 + 1)).spec_occupied()));
    }
}

impl Game {
    /// Validity of a session: the board holds each coordinate once, the
    /// clock sits below its threshold, and the piece's pivot lies in the
    /// band that spawn, committed moves and rotations can reach.
    pub open spec fn wf(self) -> bool {
        &&& self.board.wf()
        &&& self.clock.wf()
        &&& self.falling.rot < 4
        &&& -2 <= self.falling.origin.col <= WIDTH + 1
        &&& -2 <= self.falling.origin.row <= SPAWN_ROW
    }

    /// A session over an empty board whose first piece has the given
    /// shape, unrotated, at the spawn pivot.
    pub fn new(shape: Shape) -> (g: Game)
        ensures
            g.wf(),
            g.board@ == Map::<Coord, Color>::empty(),
            g.falling == spec_spawn_piece(shape),
            g.clock.acc_ms == 0,
    {
        Game {
            board: Board::new(),
            falling: FallingPiece::new(shape, Coord::new(SPAWN_COL, SPAWN_ROW), 0),
            clock: GravityClock::new(),
        }
    }

    /// A session from explicit parts; the piece must already stand where a
    /// running session could have put it.
    pub fn from_parts(board: Board, falling: FallingPiece) -> (g: Game)
        requires
            board.wf(),
            falling.rot < 4,
            -2 <= falling.origin.col <= WIDTH + 1,
            -2 <= falling.origin.row <= SPAWN_ROW,
        ensures
            g.wf(),
            g.board == board,
            g.falling == falling,
            g.clock.acc_ms == 0,
    {
        Game { board, falling, clock: GravityClock::new() }
    }

    /// Starts a session: an empty board and a first piece of a randomly
    /// drawn shape at the spawn pivot.
    pub fn start_session() -> (g: Game)
        ensures
            g.wf(),
            g.board@ == Map::<Coord, Color>::empty(),
            g.falling.origin == spec_spawn_coord(),
            g.falling.rot == 0,
            g.clock.acc_ms == 0,
    {
        Game::new(random_shape())
    }

    /// Ends the session: the landed cells are cleared.
    pub fn end_session(&mut self)
        requires
            old(self).wf(),
        ensures
            final(self).wf(),
            final(self).board@ == Map::<Coord, Color>::empty(),
            final(self).falling == old(self).falling,
            final(self).clock == old(self).clock,
    {
        self.board.clear();
    }

    /// Shifts the piece by one cell if the collision check accepts the
    /// shifted placement; otherwise leaves everything unchanged.
    fn try_move(&mut self, dcol: i32, drow: i32) -> (moved: bool)
        requires
            old(self).wf(),
            (dcol == -1 && drow == 0) || (dcol == 1 && drow == 0) || (dcol == 0 && drow == -1),
        ensures
            final(self).wf(),
            spec_shift_step(*old(self), *final(self), dcol as int, drow as int),
            moved == old(self).board.spec_can_place(
                old(self).falling.spec_translated(dcol as int, drow as int).spec_occupied(),
            ),
    {
        let cand = FallingPiece {
            origin: Coord {
                col: self.falling.origin.col + dcol,
                row: self.falling.origin.row + drow,
            },
            ..self.falling
        };
        let cells = cand.occupied();
        if self.board.can_place(&cells) {
            proof {
                lemma_can_place_pivot_bounds(self.board, cand);
            }
            self.falling = cand;
            true
        } else {
            false
        }
    }

    /// Moves the piece one column to the left when the shifted placement
    /// is free; a refused move is a silent no-op.
    pub fn move_left(&mut self)
        requires
            old(self).wf(),
        ensures
            final(self).wf(),
            spec_shift_step(*old(self), *final(self), -1, 0),
    {
        self.try_move(-1, 0);
    }

    /// Moves the piece one column to the right when the shifted placement
    /// is free; a refused move is a silent no-op.
    pub fn move_right(&mut self)
        requires
            old(self).wf(),
        ensures
            final(self).wf(),
            spec_shift_step(*old(self), *final(self), 1, 0),
    {
        self.try_move(1, 0);
    }

    /// Rotates the piece one quarter turn clockwise. Rotation always
    /// commits: it is never checked against landed cells or board bounds.
    pub fn rotate_cw(&mut self)
        requires
            old(self).wf(),
        ensures
            final(self).wf(),
            final(self).board == old(self).board,
            final(self).clock == old(self).clock,
            final(self).falling == old(self).falling.spec_rotated_cw(),
    {
        self.falling.rotate_cw();
    }

    /// Rotates the piece one quarter turn counterclockwise. Rotation always
    /// commits: it is never checked against landed cells or board bounds.
    pub fn rotate_ccw(&mut self)
        requires
            old(self).wf(),
        ensures
            final(self).wf(),
            final(self).board == old(self).board,
            final(self).clock == old(self).clock,
            final(self).falling == old(self).falling.spec_rotated_ccw(),
    {
        self.falling.rotate_ccw();
    }

    /// Converts the falling piece into landed cells in its shape's color
    /// and spawns a new piece, of a randomly drawn shape, at the spawn
    /// pivot with rotation zero. No check is made that the spawn pivot is
    /// free. Fails, changing nothing, when a cell of the piece is already
    /// landed (possible only after an unconditional rotation into overlap).
    pub fn land_current_piece(&mut self) -> (r: Result<(), OverlapError>)
        requires
            old(self).wf(),
        ensures
            final(self).wf(),
            match r {
                Ok(()) => ({
                    &&& forall|i: int|
                        0 <= i < 4 ==> !old(self).board@.contains_key(
                            #[trigger] old(self).falling.spec_occupied()[i],
                        )
                    &&& spec_landed_ok(*old(self), *final(self))
                }),
                Err(_) => spec_land_rejected(*old(self)) && *final(self) == *old(self),
            },
    {
        proof {
            lemma_occupied_four_distinct(self.falling);
        }
        let cells = self.falling.occupied();
        let color = color_of(self.falling.shape);
        match self.board.land(&cells, color) {
            Ok(()) => {
                proof {
                    let occ = old(self).falling.spec_occupied();
                    assert forall|c: Coord|
                        self.board@.contains_key(c) <==> old(self).board@.contains_key(c)
                            || occ.contains(c) by {
                        if occ.contains(c) {
                            let i = choose|i: int| 0 <= i < occ.len() && occ[i] == c;
                            assert(cells@[i] == c);
                            assert(self.board@.contains_key(cells@[i]));
                        }
                    }
                }
                self.falling = FallingPiece::new(
                    random_shape(),
                    Coord::new(SPAWN_COL, SPAWN_ROW),
                    0,
                );
                Ok(())
            },
            Err(e) => Err(e),
        }
    }

    /// One gravity-driven descent: moves the piece one row down when that
    /// placement is free (`Ok(false)`); otherwise the piece lands where it
    /// stands and the next piece spawns (`Ok(true)`, or `Err` when the
    /// landing is refused).
    pub fn descend(&mut self) -> (r: Result<bool, OverlapError>)
        requires
            old(self).wf(),
        ensures
            final(self).wf(),
            ({
                let down = old(self).falling.spec_translated(0, -1);
                if old(self).board.spec_can_place(down.spec_occupied()) {
                    &&& r == Ok::<bool, OverlapError>(false)
                    &&& final(self).board == old(self).board
                    &&& final(self).clock == old(self).clock
                    &&& final(self).falling == down
                } else {
                    match r {
                        Ok(landed) => landed && spec_landed_ok(*old(self), *final(self)),
                        Err(_) => spec_land_rejected(*old(self)) && *final(self) == *old(self),
                    }
                }
            }),
    {
        if self.try_move(0, -1) {
            Ok(false)
        } else {
            match self.land_current_piece() {
                Ok(()) => Ok(true),
                Err(e) => Err(e),
            }
        }
    }

    /// One simulation step of the gravity path: advances the clock by the
    /// elapsed milliseconds, and when it fires requests one descent, which
    /// in turn may land the piece.
    pub fn tick(&mut self, delta_ms: u32) -> (r: Result<bool, OverlapError>)
        requires
            old(self).wf(),
        ensures
            final(self).wf(),
            ({
                let fired = old(self).clock.acc_ms + delta_ms >= GRAVITY_INTERVAL_MS;
                let down = old(self).falling.spec_translated(0, -1);
                let mid = (Game { clock: GravityClock { acc_ms: 0 }, ..*old(self) });
                &&& final(self).clock.acc_ms == (if fired {
                    0int
                } else {
                    old(self).clock.acc_ms + delta_ms
                })
                &&& !fired ==> r == Ok::<bool, OverlapError>(false) && final(self).board == old(
                    self,
                ).board && final(self).falling == old(self).falling
                &&& fired ==> (if old(self).board.spec_can_place(down.spec_occupied()) {
                    &&& r == Ok::<bool, OverlapError>(false)
                    &&& final(self).board == old(self).board
                    &&& final(self).falling == down
                } else {
                    match r {
                        Ok(landed) => landed && spec_landed_ok(mid, *final(self)),
                        Err(_) => spec_land_rejected(mid) && *final(self) == mid,
                    }
                })
            }),
    {
        if self.clock.advance(delta_ms) {
            self.descend()
        } else {
            Ok(false)
        }
    }

    /// Hard drop: commits one-row descents while the collision check
    /// accepts them, then lands the piece at the last accepted position
    /// (or, if even the first step is refused, where it stands).
    pub fn hard_drop(&mut self) -> (r: Result<(), OverlapError>)
        requires
            old(self).wf(),
        ensures
            final(self).wf(),
            exists|d: int| #[trigger] spec_hard_drop_outcome(*old(self), *final(self), r, d),
    {
        let ghost pre = *self;
        let ghost mut steps: int = 0;
        loop
            invariant
                pre.wf(),
                self.wf(),
                self.board == pre.board,
                self.clock == pre.clock,
                self.falling.shape == pre.falling.shape,
                self.falling.rot == pre.falling.rot,
                self.falling.origin.col == pre.falling.origin.col,
                steps >= 0,
                self.falling.origin.row == pre.falling.origin.row - steps,
                forall|j: int|
                    1 <= j <= steps ==> pre.board.spec_can_place(
                        (#[trigger] pre.falling.spec_translated(0, -j)).spec_occupied(),
                    ),
            ensures
                self.wf(),
                self.board == pre.board,
                self.clock == pre.clock,
                steps >= 0,
                self.falling == pre.falling.spec_translated(0, -steps),
                spec_drop_steps_ok(pre.board, pre.falling, steps),
            decreases self.falling.origin.row + 3,
        {
            let cand = FallingPiece {
                origin: Coord {
                    col: self.falling.origin.col,
                    row: self.falling.origin.row - 1,
                },
                ..self.falling
            };
            proof {
                assert(cand == pre.falling.spec_translated(0, -(steps + 1)));
            }
            let cells = cand.occupied();
            if !self.board.can_place(&cells) {
                break;
            }
            proof {
                lemma_can_place_pivot_bounds(self.board, cand);
                steps = steps + 1;
            }
            self.falling = cand;
        }
        let r = self.land_current_piece();
        proof {
            let rest = Game { falling: pre.falling.spec_translated(0, -steps), ..pre };
            match r {
                Ok(()) => {
                    assert(spec_hard_drop_outcome(pre, *self, r, steps));
                },
                Err(_) => {
                    if steps > 0 {
                        assert(pre.board.spec_can_place(
                            pre.falling.spec_translated(0, -steps).spec_occupied(),
                        ));
                        assert(false);
                    }
                    assert(pre.falling.spec_translated(0, 0) == pre.falling);
                    assert(spec_hard_drop_outcome(pre, *self, r, steps));
                },
            }
        }
        r
    }

    /// Applies one already-decoded player command. Moves commit only when
    /// the shifted placement is free, rotations always commit, and a hard
    /// drop reports its landing outcome; only a hard drop can fail.
    pub fn handle_command(&mut self, cmd: Command) -> (r: Result<(), OverlapError>)
        requires
            old(self).wf(),
        ensures
            final(self).wf(),
            match cmd {
                Command::MoveLeft => r == Ok::<(), OverlapError>(()) && spec_shift_step(
                    *old(self),
                    *final(self),
                    -1,
                    0,
                ),
                Command::MoveRight => r == Ok::<(), OverlapError>(()) && spec_shift_step(
                    *old(self),
                    *final(self),
                    1,
                    0,
                ),
                Command::RotateCw => r == Ok::<(), OverlapError>(()) && final(self).board == old(
                    self,
                ).board && final(self).clock == old(self).clock && final(self).falling == old(
                    self,
                ).falling.spec_rotated_cw(),
                Command::RotateCcw => r == Ok::<(), OverlapError>(()) && final(self).board == old(
                    self,
                ).board && final(self).clock == old(self).clock && final(self).falling == old(
                    self,
                ).falling.spec_rotated_ccw(),
                Command::HardDrop => exists|d: int| #[trigger] spec_hard_drop_outcome(
                    *old(self),
                    *final(self),
                    r,
                    d,
                ),
            },
    {
        match cmd {
            Command::MoveLeft => {
                self.move_left();
                Ok(())
            },
            Command::MoveRight => {
                self.move_right();
                Ok(())
            },
            Command::RotateCw => {
                self.rotate_cw();
                Ok(())
            },
            Command::RotateCcw => {
                self.rotate_ccw();
                Ok(())
            },
            Command::HardDrop => self.hard_drop(),
        }
    }
}

} // verus!
