use vstd::prelude::*;
use crate::board::{
    at, cell_index, check_complete_line, cleared_count, grid_of, lemma_cell_in_range,
    lemma_cell_index, remake_gameborders, sweep, Board,
};
use crate::geometry::{positions, valid_kind, WIDTH};
use crate::geometry::expand;
use crate::piece::{lemma_fall_stays_on_grid, Tetromino, SPAWN_ROW};

verus! {

/// Every piece of the list fits on a board of `height` rows.
pub open spec fn all_fit(pieces: Seq<Tetromino>, height: int) -> bool {
    forall|i: int| 0 <= i < pieces.len() ==> (#[trigger] pieces[i]).fits(height)
}

/// No piece of the list leaves the grid by a move of `(dx, dy)`.
pub open spec fn all_move_on_grid(pieces: Seq<Tetromino>, dx: int, dy: int, board: Board) -> bool {
    forall|i: int| 0 <= i < pieces.len() ==> (#[trigger] pieces[i]).move_stays_on_grid(dx, dy, board)
}

/// No piece of the list leaves the grid by a rotation of `delta` degrees.
pub open spec fn all_rotation_on_grid(pieces: Seq<Tetromino>, delta: int, board: Board) -> bool {
    forall|i: int| 0 <= i < pieces.len() ==> (#[trigger] pieces[i]).rotation_stays_on_grid(delta, board)
}

pub open spec fn moved_all(pieces: Seq<Tetromino>, dx: int, dy: int, board: Board) -> Seq<Tetromino> {
    Seq::new(pieces.len(), |i: int| pieces[i].moved(dx, dy, board))
}

pub open spec fn rotated_all(pieces: Seq<Tetromino>, delta: int, board: Board) -> Seq<Tetromino> {
    Seq::new(pieces.len(), |i: int| pieces[i].rotated(delta, board))
}

/// Some locked piece among the first `n` has a cell at row `r`, column `c`.
pub open spec fn covered(pieces: Seq<Tetromino>, n: int, r: int, c: int) -> bool {
    exists|i: int, k: int|
        0 <= i < n && pieces[i].stationary && 0 <= k < pieces[i].cells().len() && #[trigger] pieces[i].cells()[k]
            == (c, r)
}

/// The board grid with the cells of every locked piece written in.
pub open spec fn committed_grid(g: Seq<Seq<bool>>, pieces: Seq<Tetromino>) -> Seq<Seq<bool>> {
    Seq::new(
        g.len(),
        |r: int| Seq::new(g[r].len(), |c: int| g[r][c] || covered(pieces, pieces.len() as int, r, c)),
    )
}

/// The pieces that are not locked, in their order.
pub open spec fn unlocked(pieces: Seq<Tetromino>) -> Seq<Tetromino>
    decreases pieces.len(),
{
    if pieces.len() == 0 {
        pieces
    } else if pieces.last().stationary {
        unlocked(pieces.drop_last())
    } else {
        unlocked(pieces.drop_last()).push(pieces.last())
    }
}

proof fn lemma_unlocked_fit(pieces: Seq<Tetromino>, height: int)
    requires
        all_fit(pieces, height),
    ensures
        all_fit(unlocked(pieces), height),
        forall|i: int| 0 <= i < unlocked(pieces).len() ==> !(#[trigger] unlocked(pieces)[i]).stationary,
    decreases pieces.len(),
{
    if pieces.len() > 0 {
        let rest = pieces.drop_last();
        assert forall|i: int| 0 <= i < rest.len() implies (#[trigger] rest[i]).fits(height) by {
            assert(rest[i] == pieces[i]);
        }
        lemma_unlocked_fit(rest, height);
        assert(pieces.last() == pieces[pieces.len() - 1]);
    }
}

/// Moves every piece of the list by `movement` columns.
pub fn move_tetrmonioes(tetrominoes_list: &mut Vec<Tetromino>, movement: i32, board: &Board)
    requires
        board.wf(),
        all_fit(old(tetrominoes_list)@, board.height as int),
        all_move_on_grid(old(tetrominoes_list)@, movement as int, 0, *board),
    ensures
        final(tetrominoes_list)@ == moved_all(old(tetrominoes_list)@, movement as int, 0, *board),
        all_fit(final(tetrominoes_list)@, board.height as int),
{
    shift_all(tetrominoes_list, movement, 0, board);
}

/// Lets every piece of the list fall by one row.
pub fn update_tetrominoes(tetrominoes_list: &mut Vec<Tetromino>, board: &Board)
    requires
        board.wf(),
        all_fit(old(tetrominoes_list)@, board.height as int),
    ensures
        final(tetrominoes_list)@ == moved_all(old(tetrominoes_list)@, 0, 1, *board),
        all_fit(final(tetrominoes_list)@, board.height as int),
{
    proof {
        assert forall|i: int| 0 <= i < tetrominoes_list@.len() implies (
        #[trigger] tetrominoes_list@[i]).move_stays_on_grid(0, 1, *board) by {
            lemma_fall_stays_on_grid(tetrominoes_list@[i], *board);
        }
    }
    shift_all(tetrominoes_list, 0, 1, board);
}

fn shift_all(list: &mut Vec<Tetromino>, dx: i32, dy: i32, board: &Board)
    requires
        board.wf(),
        all_fit(old(list)@, board.height as int),
        all_move_on_grid(old(list)@, dx as int, dy as int, *board),
    ensures
        final(list)@ == moved_all(old(list)@, dx as int, dy as int, *board),
        all_fit(final(list)@, board.height as int),
{
    let n = list.len();
    let mut i: usize = 0;
    while i < n
        invariant
            board.wf(),
            n == list@.len(),
            n == old(list)@.len(),
            0 <= i <= n,
            all_fit(list@, board.height as int),
            all_move_on_grid(old(list)@, dx as int, dy as int, *board),
            forall|k: int| 0 <= k < i ==> list@[k] == old(list)@[k].moved(dx as int, dy as int, *board),
            forall|k: int| i <= k < n ==> list@[k] == old(list)@[k],
        decreases n - i,
    {
        let mut p = list[i];
        p.move_tetromino(dx, dy, board);
        list.set(i, p);
        i = i + 1;
    }
    assert(list@ =~= moved_all(old(list)@, dx as int, dy as int, *board));
}

/// Rotates every piece of the list by `rotation` degrees.
pub fn rotate_tetrominoes(tetrominoes_list: &mut Vec<Tetromino>, rotation: i32, board: &Board)
    requires
        board.wf(),
        all_fit(old(tetrominoes_list)@, board.height as int),
        all_rotation_on_grid(old(tetrominoes_list)@, rotation as int, *board),
    ensures
        final(tetrominoes_list)@ == rotated_all(old(tetrominoes_list)@, rotation as int, *board),
        all_fit(final(tetrominoes_list)@, board.height as int),
{
    let n = tetrominoes_list.len();
    let mut i: usize = 0;
    while i < n
        invariant
            board.wf(),
            all_rotation_on_grid(old(tetrominoes_list)@, rotation as int, *board),
            n == tetrominoes_list@.len(),
            n == old(tetrominoes_list)@.len(),
            0 <= i <= n,
            all_fit(tetrominoes_list@, board.height as int),
            forall|k: int|
                0 <= k < i ==> tetrominoes_list@[k] == old(tetrominoes_list)@[k].rotated(
                    rotation as int,
                    *board,
                ),
            forall|k: int| i <= k < n ==> tetrominoes_list@[k] == old(tetrominoes_list)@[k],
        decreases n - i,
    {
        let mut p = tetrominoes_list[i];
        p.rotate(rotation, board);
        tetrominoes_list.set(i, p);
        i = i + 1;
    }
    assert(tetrominoes_list@ =~= rotated_all(old(tetrominoes_list)@, rotation as int, *board));
}

/// The cell list `s` holds row `r`, column `c`.
pub open spec fn holds_cell(s: Seq<(int, int)>, r: int, c: int) -> bool {
    exists|k: int| 0 <= k < s.len() && #[trigger] s[k] == (c, r)
}

proof fn lemma_covered_step(ps: Seq<Tetromino>, i: int, r: int, c: int)
    requires
        0 <= i < ps.len(),
    ensures
        covered(ps, i + 1, r, c) == (covered(ps, i, r, c) || (ps[i].stationary && holds_cell(
            ps[i].cells(),
            r,
            c,
        ))),
{
    if covered(ps, i + 1, r, c) {
        let (a, k) = choose|a: int, k: int|
            0 <= a < i + 1 && ps[a].stationary && 0 <= k < ps[a].cells().len() && #[trigger] ps[a].cells()[k]
                == (c, r);
        if a < i {
            assert(covered(ps, i, r, c));
        } else {
            assert(ps[i].cells()[k] == (c, r));
        }
    }
    if ps[i].stationary && holds_cell(ps[i].cells(), r, c) {
        let k = choose|k: int| 0 <= k < ps[i].cells().len() && #[trigger] ps[i].cells()[k] == (c, r);
        assert(ps[i].cells()[k] == (c, r));
    }
    if covered(ps, i, r, c) {
        let (a, k) = choose|a: int, k: int|
            0 <= a < i && ps[a].stationary && 0 <= k < ps[a].cells().len() && #[trigger] ps[a].cells()[k]
                == (c, r);
        assert(ps[a].cells()[k] == (c, r));
    }
}

/// Writes the cells of a piece into the board.
fn stamp(board: &mut Board, p: &Tetromino)
    requires
        old(board).wf(),
        p.fits(old(board).height as int),
    ensures
        final(board).wf(),
        final(board).height == old(board).height,
        final(board).game_borders == old(board).game_borders,
        forall|r: int, c: int|
            0 <= r < old(board).height && 0 <= c < WIDTH ==> #[trigger] at(final(board).cells@, r, c)
                == (at(old(board).cells@, r, c) || holds_cell(p.cells(), r, c)),
{
    let cells = p.occupied_cells();
    let ghost s = p.cells();
    let ghost g0 = board.cells@;
    let h = board.height;
    let mut k: usize = 0;
    while k < cells.len()
        invariant
            board.wf(),
            board.height == h,
            board.game_borders == old(board).game_borders,
            g0 == old(board).cells@,
            p.fits(h as int),
            s == p.cells(),
            positions(cells@) == s,
            0 <= k <= cells@.len(),
            forall|r: int, c: int|
                0 <= r < h && 0 <= c < WIDTH ==> #[trigger] at(board.cells@, r, c) == (at(g0, r, c)
                    || exists|m: int| 0 <= m < k && #[trigger] s[m] == (c, r)),
        decreases cells@.len() - k,
    {
        let ch = cells[k];
        assert(s[k as int] == (ch.x as int, ch.y as int));
        let ghost prev = board.cells@;
        board.cells.set((ch.y as usize) * WIDTH + ch.x as usize, true);
        assert forall|r: int, c: int| 0 <= r < h && 0 <= c < WIDTH implies #[trigger] at(
            board.cells@,
            r,
            c,
        ) == (at(g0, r, c) || exists|m: int| 0 <= m < k + 1 && #[trigger] s[m] == (c, r)) by {
            lemma_cell_index(r, c, ch.y as int, ch.x as int);
            lemma_cell_in_range(r, c, h as int);
            assert(at(prev, r, c) == (at(g0, r, c) || exists|m: int| 0 <= m < k && #[trigger] s[m] == (
            c,
            r,
            )));
            if r == ch.y && c == ch.x {
                assert(s[k as int] == (c, r));
            } else {
                assert(at(board.cells@, r, c) == at(prev, r, c));
                if exists|m: int| 0 <= m < k + 1 && #[trigger] s[m] == (c, r) {
                    let m = choose|m: int| 0 <= m < k + 1 && #[trigger] s[m] == (c, r);
                    assert(m != k);
                }
            }
        }
        k = k + 1;
    }
}

/// Writes every locked piece into the board and removes it from the list;
/// the pieces that are not locked stay, in their order. The mask is left as
/// it was; it is rebuilt afterwards.
pub fn move_to_built(tetrominoes_list: &mut Vec<Tetromino>, built_tetrominoes: &mut Board)
    requires
        old(built_tetrominoes).wf(),
        all_fit(old(tetrominoes_list)@, old(built_tetrominoes).height as int),
    ensures
        final(built_tetrominoes).wf(),
        final(built_tetrominoes).height == old(built_tetrominoes).height,
        final(built_tetrominoes).game_borders == old(built_tetrominoes).game_borders,
        final(built_tetrominoes).grid() == committed_grid(
            old(built_tetrominoes).grid(),
            old(tetrominoes_list)@,
        ),
        final(tetrominoes_list)@ == unlocked(old(tetrominoes_list)@),
        all_fit(final(tetrominoes_list)@, old(built_tetrominoes).height as int),
        forall|i: int|
            0 <= i < final(tetrominoes_list)@.len() ==> !(#[trigger] final(tetrominoes_list)@[i]).stationary,
{
    let ghost g0 = built_tetrominoes.cells@;
    let ghost ps = tetrominoes_list@;
    let h = built_tetrominoes.height;
    let n = tetrominoes_list.len();
    let mut rest: Vec<Tetromino> = Vec::new();
    let mut i: usize = 0;
    while i < n
        invariant
            built_tetrominoes.wf(),
            built_tetrominoes.height == h,
            built_tetrominoes.game_borders == old(built_tetrominoes).game_borders,
            g0 == old(built_tetrominoes).cells@,
            tetrominoes_list@ == ps,
            ps == old(tetrominoes_list)@,
            all_fit(ps, h as int),
            n == ps.len(),
            0 <= i <= n,
            rest@ == unlocked(ps.take(i as int)),
            forall|r: int, c: int|
                0 <= r < h && 0 <= c < WIDTH ==> #[trigger] at(built_tetrominoes.cells@, r, c) == (at(
                    g0,
                    r,
                    c,
                ) || covered(ps, i as int, r, c)),
        decreases n - i,
    {
        let p = tetrominoes_list[i];
        assert(ps.take(i + 1).drop_last() =~= ps.take(i as int));
        assert(ps.take(i + 1).last() == p);
        let ghost prev = built_tetrominoes.cells@;
        if p.stationary {
            assert(ps[i as int].fits(h as int));
            stamp(built_tetrominoes, &p);
        } else {
            rest.push(p);
        }
        assert forall|r: int, c: int| 0 <= r < h && 0 <= c < WIDTH implies #[trigger] at(
            built_tetrominoes.cells@,
            r,
            c,
        ) == (at(g0, r, c) || covered(ps, i + 1, r, c)) by {
            lemma_covered_step(ps, i as int, r, c);
            assert(at(prev, r, c) == (at(g0, r, c) || covered(ps, i as int, r, c)));
        }
        i = i + 1;
    }
    assert(ps.take(n as int) =~= ps);
    *tetrominoes_list = rest;
    proof {
        lemma_unlocked_fit(ps, h as int);
    }
    assert(built_tetrominoes.grid() =~~= committed_grid(grid_of(g0, h as int), ps));
}

/// Whether no piece of the list leaves the grid by a move of `(dx, dy)`.
pub fn all_can_move(list: &Vec<Tetromino>, dx: i32, dy: i32, board: &Board) -> (b: bool)
    requires
        board.wf(),
        all_fit(list@, board.height as int),
    ensures
        b == all_move_on_grid(list@, dx as int, dy as int, *board),
{
    let mut i: usize = 0;
    while i < list.len()
        invariant
            board.wf(),
            all_fit(list@, board.height as int),
            0 <= i <= list@.len(),
            forall|k: int| 0 <= k < i ==> (#[trigger] list@[k]).move_stays_on_grid(dx as int, dy as int, *board),
        decreases list@.len() - i,
    {
        if !list[i].can_move(dx, dy, board) {
            return false;
        }
        i = i + 1;
    }
    true
}

/// Whether no piece of the list leaves the grid by a rotation of `delta` degrees.
pub fn all_can_rotate(list: &Vec<Tetromino>, delta: i32, board: &Board) -> (b: bool)
    requires
        board.wf(),
        all_fit(list@, board.height as int),
        delta % 90 == 0,
    ensures
        b == all_rotation_on_grid(list@, delta as int, *board),
{
    let mut i: usize = 0;
    while i < list.len()
        invariant
            board.wf(),
            all_fit(list@, board.height as int),
            delta % 90 == 0,
            0 <= i <= list@.len(),
            forall|k: int| 0 <= k < i ==> (#[trigger] list@[k]).rotation_stays_on_grid(delta as int, *board),
        decreases list@.len() - i,
    {
        if !list[i].can_rotate(delta, board) {
            return false;
        }
        i = i + 1;
    }
    true
}

/// Leftmost anchor column of a new piece.
pub const MIN_SPAWN_COLUMN: i64 = 2;

/// Rightmost anchor column of a new piece: every rotation of every kind
/// anchored between the two bounds stays clear of the border columns.
pub const MAX_SPAWN_COLUMN: i64 = 7;

pub open spec fn spawn_column(column: int) -> bool {
    MIN_SPAWN_COLUMN <= column <= MAX_SPAWN_COLUMN
}

/// The piece that a spawn of `kind` at `column` produces.
pub open spec fn spawned(kind: u8, column: i64) -> Tetromino {
    Tetromino { shape_type: kind, x: column, y: SPAWN_ROW, rotation: 0, stationary: false }
}

/// A new piece of any kind, anchored at any spawn column, lies inside the
/// playable columns of any board of at least three rows.
pub proof fn lemma_spawn_fits(kind: u8, column: i64, height: int)
    requires
        valid_kind(kind as int),
        spawn_column(column as int),
        3 <= height,
    ensures
        spawned(kind, column).fits(height),
{
    reveal_with_fuel(expand, 3);
    let p = spawned(kind, column);
    assert(p.valid());
    assert(p.in_area(height));
}

/// Adds a new piece of `kind` at `column` of the spawn row to the list.
pub fn create_tetronimo(tetrominoes_list: &mut Vec<Tetromino>, kind: u8, column: i64)
    requires
        valid_kind(kind as int),
        spawn_column(column as int),
    ensures
        final(tetrominoes_list)@ == old(tetrominoes_list)@.push(spawned(kind, column)),
{
    tetrominoes_list.push(Tetromino::new(kind, column));
}

/// Relies on rand's `thread_rng` and `Rng::gen_range`: a value drawn from
/// `lo..=hi`, which must not be empty.
#[verifier::external_body]
fn draw_between(lo: u64, hi: u64) -> (r: u64)
    requires
        lo <= hi,
    ensures
        lo <= r <= hi,
{
    rand::Rng::gen_range(&mut rand::thread_rng(), lo..=hi)
}

/// A kind drawn at random.
pub fn random_tetronimo() -> (kind: u8)
    ensures
        valid_kind(kind as int),
{
    draw_between(1, 5) as u8
}

/// A spawn column drawn at random.
pub fn random_tetromino_position() -> (column: i64)
    ensures
        spawn_column(column as int),
{
    draw_between(MIN_SPAWN_COLUMN as u64, MAX_SPAWN_COLUMN as u64) as i64
}

/// The input of one tick.
#[derive(Clone, Copy, Debug, PartialEq, Eq, Structural)]
pub enum Command {
    Idle,
    MoveLeft,
    MoveRight,
    Rotate,
    Quit,
}

impl Command {
    /// The command of a key: `a` left, `d` right, `r` rotate, `q` quit; any
    /// other key is no command.
    pub fn from_key(key: u8) -> (c: Command)
        ensures
            c == (if key == 97 {
                Command::MoveLeft
            } else if key == 100 {
                Command::MoveRight
            } else if key == 114 {
                Command::Rotate
            } else if key == 113 {
                Command::Quit
            } else {
                Command::Idle
            }),
    {
        if key == 97 {
            Command::MoveLeft
        } else if key == 100 {
            Command::MoveRight
        } else if key == 114 {
            Command::Rotate
        } else if key == 113 {
            Command::Quit
        } else {
            Command::Idle
        }
    }
}

/// The pieces after the command of a tick. A command that would take some
/// piece off the grid is skipped as a whole: that is how a tick keeps clear of
/// the out-of-range case that must never happen.
pub open spec fn commanded(pieces: Seq<Tetromino>, cmd: Command, board: Board) -> Seq<Tetromino> {
    match cmd {
        Command::MoveLeft => if all_move_on_grid(pieces, -1, 0, board) {
            moved_all(pieces, -1, 0, board)
        } else {
            pieces
        },
        Command::MoveRight => if all_move_on_grid(pieces, 1, 0, board) {
            moved_all(pieces, 1, 0, board)
        } else {
            pieces
        },
        Command::Rotate => if all_rotation_on_grid(pieces, 90, board) {
            rotated_all(pieces, 90, board)
        } else {
            pieces
        },
        _ => pieces,
    }
}

/// The pieces after the gravity step of a tick, which falls on every other tick.
pub open spec fn fallen(pieces: Seq<Tetromino>, due: bool, board: Board) -> Seq<Tetromino> {
    if due {
        moved_all(pieces, 0, 1, board)
    } else {
        pieces
    }
}

/// The simulation: the board with its mask, the active pieces and the phase
/// of gravity.
pub struct Game {
    pub board: Board,
    pub pieces: Vec<Tetromino>,
    pub gravity_due: bool,
}

impl Game {
    pub open spec fn wf(&self) -> bool {
        &&& self.board.wf()
        &&& self.board.mask_consistent()
        &&& all_fit(self.pieces@, self.board.height as int)
    }

    /// The pieces once a tick has moved them, before any are committed.
    pub open spec fn moved_pieces(&self, cmd: Command) -> Seq<Tetromino> {
        fallen(commanded(self.pieces@, cmd, self.board), self.gravity_due, self.board)
    }

    /// The board grid at the end of a tick.
    pub open spec fn next_grid(&self, cmd: Command) -> Seq<Seq<bool>> {
        sweep(committed_grid(self.board.grid(), self.moved_pieces(cmd)), 0)
    }

    /// The pieces that stay active through a tick.
    pub open spec fn remaining(&self, cmd: Command) -> Seq<Tetromino> {
        unlocked(self.moved_pieces(cmd))
    }

    /// An empty board of `height` rows with one new piece on it.
    pub fn new(height: usize, kind: u8, column: i64) -> (g: Game)
        requires
            3 <= height <= crate::board::MAX_HEIGHT,
            valid_kind(kind as int),
            spawn_column(column as int),
        ensures
            g.wf(),
            g.board.height == height,
            forall|r: int, c: int| 0 <= r < height && 0 <= c < WIDTH ==> !#[trigger] g.board.filled(r, c),
            g.pieces@ == seq![spawned(kind, column)],
            !g.gravity_due,
    {
        let board = Board::new(height);
        let mut pieces: Vec<Tetromino> = Vec::new();
        create_tetronimo(&mut pieces, kind, column);
        proof {
            lemma_spawn_fits(kind, column, height as int);
        }
        Game { board, pieces, gravity_due: false }
    }

    /// One tick: apply the command to every active piece, let them fall if
    /// gravity is due, commit the locked ones, clear full rows, rebuild the
    /// mask, and spawn a piece of `kind` at `column` if none is left. `Quit`
    /// changes nothing and returns false. A move or rotation that would put a
    /// cell of some piece off the grid is skipped: an index out of range is a
    /// fatal case that the tick rules out before it arises. Pieces may enter
    /// the border columns, since only the downward test governs movement.
    pub fn tick(&mut self, cmd: Command, kind: u8, column: i64) -> (running: bool)
        requires
            old(self).wf(),
            valid_kind(kind as int),
            spawn_column(column as int),
        ensures
            running == (cmd != Command::Quit),
            !running ==> *final(self) == *old(self),
            running ==> {
                &&& final(self).wf()
                &&& final(self).board.height == old(self).board.height
                &&& final(self).board.grid() == old(self).next_grid(cmd)
                &&& final(self).pieces@ == if old(self).remaining(cmd).len() == 0 {
                    seq![spawned(kind, column)]
                } else {
                    old(self).remaining(cmd)
                }
                &&& final(self).gravity_due == !old(self).gravity_due
            },
    {
        if cmd == Command::Quit {
            return false;
        }
        match cmd {
            Command::MoveLeft => {
                if all_can_move(&self.pieces, -1, 0, &self.board) {
                    move_tetrmonioes(&mut self.pieces, -1, &self.board);
                }
            },
            Command::MoveRight => {
                if all_can_move(&self.pieces, 1, 0, &self.board) {
                    move_tetrmonioes(&mut self.pieces, 1, &self.board);
                }
            },
            Command::Rotate => {
                if all_can_rotate(&self.pieces, 90, &self.board) {
                    rotate_tetrominoes(&mut self.pieces, 90, &self.board);
                }
            },
            _ => {},
        }
        if self.gravity_due {
            update_tetrominoes(&mut self.pieces, &self.board);
        }
        self.gravity_due = !self.gravity_due;
        move_to_built(&mut self.pieces, &mut self.board);
        check_complete_line(&mut self.board);
        remake_gameborders(&mut self.board);
        if self.pieces.len() == 0 {
            create_tetronimo(&mut self.pieces, kind, column);
            proof {
                lemma_spawn_fits(kind, column, self.board.height as int);
            }
        }
        true
    }

    /// A tick whose new piece, if one is needed, has a random kind and column.
    pub fn tick_random(&mut self, cmd: Command) -> (running: bool)
        requires
            old(self).wf(),
        ensures
            running == (cmd != Command::Quit),
            !running ==> *final(self) == *old(self),
            running ==> {
                &&& final(self).wf()
                &&& final(self).board.height == old(self).board.height
                &&& final(self).board.grid() == old(self).next_grid(cmd)
                &&& old(self).remaining(cmd).len() > 0 ==> final(self).pieces@ == old(
                    self,
                ).remaining(cmd)
                &&& old(self).remaining(cmd).len() == 0 ==> exists|kind: u8, column: i64|
                    valid_kind(kind as int) && spawn_column(column as int) && final(self).pieces@
                        == seq![#[trigger] spawned(kind, column)]
                &&& final(self).gravity_due == !old(self).gravity_due
            },
    {
        if cmd == Command::Quit {
            return false;
        }
        let kind = random_tetronimo();
        let column = random_tetromino_position();
        self.tick(cmd, kind, column)
    }
}

} // verus!
