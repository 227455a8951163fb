use vstd::prelude::*;
use vstd::arithmetic::div_mod::{lemma_fundamental_div_mod, lemma_fundamental_div_mod_converse};
use crate::board::{at, Board};
use crate::geometry::{
    expand, expand_segments, layout, lemma_expand_first, lemma_expand_shift, lemma_layout_small, positions, shape_layout, valid_kind,
    valid_rotation, TetrominoCharacter, COORD_LIMIT, WIDTH,
};

verus! {

/// The row on which new pieces appear: the first playable row.
pub const SPAWN_ROW: i64 = 1;

/// A falling piece: its kind, the anchor of its layout, its rotation in
/// degrees and whether it has locked. A locked piece never moves again.
#[derive(Clone, Copy, Debug, PartialEq, Eq, Structural)]
pub struct Tetromino {
    pub shape_type: u8,
    pub x: i64,
    pub y: i64,
    pub rotation: u16,
    pub stationary: bool,
}

/// Cell `i` is the lowest cell of the piece in its column.
pub open spec fn lowest_in_column(cells: Seq<(int, int)>, i: int) -> bool {
    forall|j: int| 0 <= j < cells.len() && (#[trigger] cells[j]).0 == cells[i].0 ==> cells[j].1 <= cells[i].1
}

/// The "can it still fall" test: some cell that is the lowest of the piece in
/// its column has an occupied mask cell right below it.
pub open spec fn will_collide(cells: Seq<(int, int)>, board: Board) -> bool {
    exists|i: int|
        0 <= i < cells.len() && lowest_in_column(cells, i) && #[trigger] board.blocked(
            cells[i].1 + 1,
            cells[i].0,
        )
}

/// `rotation + delta` brought into `0..360`.
pub open spec fn normalized_rotation(rotation: int, delta: int) -> int {
    (rotation + delta) % 360
}

impl Tetromino {
    /// The absolute cells of the piece.
    pub open spec fn cells(self) -> Seq<(int, int)> {
        expand(layout(self.shape_type as int, self.rotation as int), self.x as int, self.y as int)
    }

    /// A known kind and rotation, and an anchor within the range where cells
    /// are computed.
    pub open spec fn valid(self) -> bool {
        &&& valid_kind(self.shape_type as int)
        &&& valid_rotation(self.rotation as int)
        &&& -COORD_LIMIT <= self.x <= COORD_LIMIT
        &&& -COORD_LIMIT <= self.y <= COORD_LIMIT
    }

    /// Every cell lies on the grid: in one of its columns, the two border
    /// columns included, and on one of its `height` rows.
    pub open spec fn in_area(self, height: int) -> bool {
        forall|i: int|
            0 <= i < self.cells().len() ==> 0 <= (#[trigger] self.cells()[i]).0 < WIDTH && 0
                <= self.cells()[i].1 < height
    }

    pub open spec fn fits(self, height: int) -> bool {
        self.valid() && self.in_area(height)
    }

    /// The piece with its anchor shifted.
    pub open spec fn shifted(self, dx: int, dy: int) -> Tetromino {
        Tetromino { x: (self.x + dx) as i64, y: (self.y + dy) as i64, ..self }
    }

    /// What a move does: a locked piece stays; a piece that cannot fall locks
    /// where it is; otherwise it shifts. Only the downward test decides: there
    /// is no check for overlap or for the border columns to the side.
    pub open spec fn moved(self, dx: int, dy: int, board: Board) -> Tetromino {
        if self.stationary {
            self
        } else if will_collide(self.cells(), board) {
            Tetromino { stationary: true, ..self }
        } else {
            self.shifted(dx, dy)
        }
    }

    /// A move never takes the piece off the grid.
    pub open spec fn move_stays_on_grid(self, dx: int, dy: int, board: Board) -> bool {
        self.stationary || will_collide(self.cells(), board) || self.shifted(dx, dy).fits(
            board.height as int,
        )
    }

    /// The piece turned by `delta` degrees, before any test.
    pub open spec fn turned(self, delta: int) -> Tetromino {
        Tetromino { rotation: normalized_rotation(self.rotation as int, delta) as u16, ..self }
    }

    /// What a rotation does: a locked piece and the square stay; otherwise the
    /// new layout is taken unless it can no longer fall. As for moves, there is
    /// no check to the side.
    pub open spec fn rotated(self, delta: int, board: Board) -> Tetromino {
        if self.stationary || self.shape_type == 3 {
            self
        } else if !will_collide(self.turned(delta).cells(), board) {
            self.turned(delta)
        } else {
            self
        }
    }

    /// A rotation is by a multiple of 90 degrees and never takes the piece off
    /// the grid, where it does anything at all.
    pub open spec fn rotation_stays_on_grid(self, delta: int, board: Board) -> bool {
        self.stationary || self.shape_type == 3 || (delta % 90 == 0 && self.turned(delta).fits(
            board.height as int,
        ))
    }

    /// A new piece of the given kind at column `x_position` of the spawn row,
    /// at rotation 0 and not locked.
    pub fn new(shape_type: u8, x_position: i64) -> (r: Tetromino)
        requires
            valid_kind(shape_type as int),
        ensures
            r == (Tetromino {
                shape_type,
                x: x_position,
                y: SPAWN_ROW,
                rotation: 0,
                stationary: false,
            }),
    {
        Tetromino { shape_type, x: x_position, y: SPAWN_ROW, rotation: 0, stationary: false }
    }

    /// The absolute cells of the piece, segment by segment.
    pub fn occupied_cells(&self) -> (r: Vec<TetrominoCharacter>)
        requires
            self.valid(),
        ensures
            positions(r@) == self.cells(),
    {
        let segs = shape_layout(self.shape_type, self.rotation);
        proof {
            lemma_layout_small(self.shape_type as int, self.rotation as int);
        }
        expand_segments(&segs, self.x, self.y)
    }

    /// Whether every cell lies in a column of the grid, the borders included, and
    /// on one of `height` rows.
    pub fn in_board(&self, height: usize) -> (b: bool)
        requires
            self.valid(),
        ensures
            b == self.in_area(height as int),
    {
        let cells = self.occupied_cells();
        let mut i: usize = 0;
        while i < cells.len()
            invariant
                self.valid(),
                positions(cells@) == self.cells(),
                0 <= i <= cells@.len(),
                forall|k: int| 0 <= k < i ==> 0 <= (#[trigger] self.cells()[k]).0 < WIDTH && 0
                    <= self.cells()[k].1 < height,
            decreases cells@.len() - i,
        {
            let c = cells[i];
            assert(self.cells()[i as int] == (c.x as int, c.y as int));
            if c.x < 0 || c.x >= WIDTH as i64 || c.y < 0 || c.y as u64 >= height as u64 {
                assert(!(0 <= self.cells()[i as int].0 < WIDTH && 0 <= self.cells()[i as int].1
                    < height));
                return false;
            }
            i = i + 1;
        }
        true
    }

    /// The downward collision test against the occupancy mask.
    pub fn collides(&self, board: &Board) -> (b: bool)
        requires
            board.wf(),
            self.fits(board.height as int),
        ensures
            b == will_collide(self.cells(), *board),
    {
        let cells = self.occupied_cells();
        let ghost s = self.cells();
        let mut i: usize = 0;
        while i < cells.len()
            invariant
                board.wf(),
                self.fits(board.height as int),
                s == self.cells(),
                positions(cells@) == s,
                0 <= i <= cells@.len(),
                forall|k: int|
                    0 <= k < i ==> !(lowest_in_column(s, k) && #[trigger] board.blocked(
                        s[k].1 + 1,
                        s[k].0,
                    )),
            decreases cells@.len() - i,
        {
            let c = cells[i];
            assert(s[i as int] == (c.x as int, c.y as int));
            let mut lowest = true;
            let mut j: usize = 0;
            while j < cells.len()
                invariant
                    positions(cells@) == s,
                    0 <= i < cells@.len(),
                    c == cells@[i as int],
                    0 <= j <= cells@.len(),
                    lowest == forall|m: int|
                        0 <= m < j && (#[trigger] s[m]).0 == s[i as int].0 ==> s[m].1 <= s[i as int].1,
                decreases cells@.len() - j,
            {
                let d = cells[j];
                assert(s[j as int] == (d.x as int, d.y as int));
                if d.x == c.x && d.y > c.y {
                    lowest = false;
                }
                j = j + 1;
            }
            if lowest && board.is_blocked((c.y + 1) as usize, c.x as usize) {
                return true;
            }
            i = i + 1;
        }
        false
    }

    /// Moves the piece by the given units, or locks it where it stands when it
    /// cannot fall; see `moved`. A move that would take the piece off the grid
    /// is a caller's error.
    pub fn move_tetromino(&mut self, x_units: i32, y_units: i32, board: &Board)
        requires
            board.wf(),
            old(self).fits(board.height as int),
            old(self).move_stays_on_grid(x_units as int, y_units as int, *board),
        ensures
            *final(self) == old(self).moved(x_units as int, y_units as int, *board),
            final(self).fits(board.height as int),
    {
        if self.stationary {
            return;
        }
        if self.collides(board) {
            self.stationary = true;
            return;
        }
        self.translate(x_units, y_units);
    }

    /// Whether a move by the given units keeps the piece on the grid.
    pub fn can_move(&self, x_units: i32, y_units: i32, board: &Board) -> (b: bool)
        requires
            board.wf(),
            self.fits(board.height as int),
        ensures
            b == self.move_stays_on_grid(x_units as int, y_units as int, *board),
    {
        if self.stationary || self.collides(board) {
            return true;
        }
        let mut candidate = *self;
        candidate.translate(x_units, y_units);
        if candidate.x < -COORD_LIMIT || candidate.x > COORD_LIMIT || candidate.y < -COORD_LIMIT
            || candidate.y > COORD_LIMIT {
            return false;
        }
        candidate.in_board(board.height)
    }

    /// Whether a rotation by `rotation` degrees keeps the piece on the grid.
    pub fn can_rotate(&self, rotation: i32, board: &Board) -> (b: bool)
        requires
            board.wf(),
            self.fits(board.height as int),
            rotation % 90 == 0,
        ensures
            b == self.rotation_stays_on_grid(rotation as int, *board),
    {
        if self.stationary || self.shape_type == 3 {
            return true;
        }
        let mut candidate = *self;
        candidate.rotate_shape(normalize_rotation(self.rotation, rotation));
        candidate.in_board(board.height)
    }

    /// Shifts the anchor by `(dx, dy)`; a locked piece stays where it is.
    pub fn translate(&mut self, dx: i32, dy: i32)
        requires
            old(self).valid(),
        ensures
            old(self).stationary ==> *final(self) == *old(self),
            !old(self).stationary ==> final(self).x == old(self).x + dx && final(self).y == old(
                self,
            ).y + dy && *final(self) == (Tetromino {
                x: final(self).x,
                y: final(self).y,
                ..*old(self)
            }),
    {
        if self.stationary {
            return;
        }
        self.x = self.x + dx as i64;
        self.y = self.y + dy as i64;
    }

    /// Switches the piece to the table entry of `rotation`.
    pub fn rotate_shape(&mut self, rotation: u16)
        requires
            valid_kind(old(self).shape_type as int),
            valid_rotation(rotation as int),
        ensures
            *final(self) == (Tetromino { rotation, ..*old(self) }),
    {
        self.rotation = rotation;
    }

    /// Rotates the piece by `rotation` degrees; see `rotated`. A locked piece
    /// and the square take any angle and stay as they are; for the others the
    /// angle is a multiple of 90, and a turn off the grid is a caller's error.
    pub fn rotate(&mut self, rotation: i32, board: &Board)
        requires
            board.wf(),
            old(self).fits(board.height as int),
            old(self).rotation_stays_on_grid(rotation as int, *board),
        ensures
            *final(self) == old(self).rotated(rotation as int, *board),
            final(self).fits(board.height as int),
    {
        if self.stationary || self.shape_type == 3 {
            return;
        }
        let new_rotation = normalize_rotation(self.rotation, rotation);
        let past_rotation = self.rotation;
        self.rotate_shape(new_rotation);
        if self.collides(board) {
            self.rotate_shape(past_rotation);
        }
    }
}

/// A piece on the grid that can still fall stays on the grid when it falls
/// one row: the floor stops every piece above it.
pub proof fn lemma_fall_stays_on_grid(p: Tetromino, board: Board)
    requires
        board.wf(),
        p.fits(board.height as int),
    ensures
        p.move_stays_on_grid(0, 1, board),
{
    let h = board.height as int;
    let cells = p.cells();
    if !p.stationary && !will_collide(cells, board) {
        let q = p.shifted(0, 1);
        lemma_expand_shift(layout(p.shape_type as int, p.rotation as int), p.x as int, p.y as int, 0, 1);
        assert forall|i: int| 0 <= i < cells.len() implies (#[trigger] cells[i]).1 < h - 1 by {
            if cells[i].1 == h - 1 {
                assert forall|j: int| 0 <= j < cells.len() && (#[trigger] cells[j]).0 == cells[i].0 implies cells[j].1
                    <= cells[i].1 by {
                    assert(0 <= cells[j].1 < h);
                }
                assert(lowest_in_column(cells, i));
                assert(at(board.game_borders@, h, cells[i].0));
                assert(board.blocked(cells[i].1 + 1, cells[i].0));
            }
        }
        assert forall|i: int| 0 <= i < q.cells().len() implies 0 <= (#[trigger] q.cells()[i]).0 < WIDTH
            && 0 <= q.cells()[i].1 < h by {
            assert(q.cells()[i] == (cells[i].0, cells[i].1 + 1));
            assert(0 <= cells[i].0 < WIDTH && 0 <= cells[i].1);
        }
        lemma_layout_small(p.shape_type as int, p.rotation as int);
        lemma_expand_first(layout(p.shape_type as int, p.rotation as int), p.x as int, p.y as int);
        assert(0 <= cells[0].1 < h);
        assert(q.fits(h));
    }
}

/// `rotation + delta` brought into `0..360`.
pub fn normalize_rotation(rotation: u16, delta: i32) -> (r: u16)
    requires
        valid_rotation(rotation as int),
        delta % 90 == 0,
    ensures
        r as int == normalized_rotation(rotation as int, delta as int),
        valid_rotation(r as int),
{
    let t: i64 = rotation as i64 + delta as i64;
    let r: u64 = if t >= 0 {
        (t as u64) % 360
    } else {
        let q: u64 = ((-t) as u64) % 360;
        if q == 0 {
            0
        } else {
            360 - q
        }
    };
    proof {
        let ti = t as int;
        if ti < 0 {
            let a = -ti;
            lemma_fundamental_div_mod(a, 360);
            let k = a / 360;
            let q = a % 360;
            if q == 0 {
                lemma_fundamental_div_mod_converse(ti, 360, -k, 0);
            } else {
                lemma_fundamental_div_mod_converse(ti, 360, -k - 1, 360 - q);
            }
        }
        lemma_fundamental_div_mod(ti, 360);
        lemma_fundamental_div_mod(delta as int, 90);
        let m = delta as int / 90;
        let k = ti / 360;
        assert(r as int == ti - 360 * k);
        assert(r as int == rotation as int + 90 * m - 360 * k);
    }
    r as u16
}

} // verus!
