use vstd::prelude::*;
use crate::geometry::WIDTH;

verus! {

/// Largest board height accepted.
pub const MAX_HEIGHT: usize = 1_000_000;

/// Where cell `(r, c)` lies in a row-major buffer.
pub open spec fn cell_index(r: int, c: int) -> int {
    r * WIDTH as int + c
}

/// The cell `(r, c)` of a row-major buffer.
pub open spec fn at(s: Seq<bool>, r: int, c: int) -> bool {
    s[cell_index(r, c)]
}

/// Distinct cells lie at distinct places of the buffer.
pub proof fn lemma_cell_index(r1: int, c1: int, r2: int, c2: int)
    requires
        0 <= c1 < WIDTH,
        0 <= c2 < WIDTH,
    ensures
        (cell_index(r1, c1) == cell_index(r2, c2)) == (r1 == r2 && c1 == c2),
{
}

pub proof fn lemma_cell_in_range(r: int, c: int, h: int)
    requires
        0 <= r < h,
        0 <= c < WIDTH,
    ensures
        0 <= cell_index(r, c) < h * WIDTH,
{
}

/// A row-major buffer of `h` rows seen as rows of cells.
pub open spec fn grid_of(s: Seq<bool>, h: int) -> Seq<Seq<bool>> {
    Seq::new(h as nat, |r: int| Seq::new(WIDTH as nat, |c: int| at(s, r, c)))
}

pub open spec fn empty_row() -> Seq<bool> {
    Seq::new(WIDTH as nat, |c: int| false)
}

/// Every playable column of the row is occupied; the border columns do not count.
pub open spec fn row_full(row: Seq<bool>) -> bool {
    forall|c: int| 1 <= c < WIDTH - 1 ==> #[trigger] row[c]
}

/// Clearing row `r`: row `r` goes, every row above it moves down by one and
/// row 0 becomes empty; rows below `r` stay.
pub open spec fn collapse(g: Seq<Seq<bool>>, r: int) -> Seq<Seq<bool>> {
    Seq::new(
        g.len(),
        |k: int|
            if k == 0 {
                empty_row()
            } else if k <= r {
                g[k - 1]
            } else {
                g[k]
            },
    )
}

/// One top-to-bottom sweep from row `i`: each full row met is cleared; a row
/// that a clear moves into the position already passed is not looked at again.
pub open spec fn sweep(g: Seq<Seq<bool>>, i: int) -> Seq<Seq<bool>>
    decreases g.len() - i,
{
    if i < 0 || i >= g.len() {
        g
    } else if row_full(g[i]) {
        sweep(collapse(g, i), i + 1)
    } else {
        sweep(g, i + 1)
    }
}

/// How many rows the sweep from row `i` clears.
pub open spec fn cleared_count(g: Seq<Seq<bool>>, i: int) -> int
    decreases g.len() - i,
{
    if i < 0 || i >= g.len() {
        0
    } else if row_full(g[i]) {
        1 + cleared_count(collapse(g, i), i + 1)
    } else {
        cleared_count(g, i + 1)
    }
}

/// The committed cells of the board and the occupancy mask that collisions
/// are tested against. Row 0 is the top. The mask has one more row than the
/// board, the floor, which is always occupied.
pub struct Board {
    pub height: usize,
    pub cells: Vec<bool>,
    pub game_borders: Vec<bool>,
}

/// The glyph of the empty screen at one position: a border or a free cell.
#[derive(Clone, Copy, Debug, PartialEq, Eq, Structural)]
pub enum Backdrop {
    LeftBorder,
    Free,
    RightBorder,
}

pub open spec fn backdrop_row() -> Seq<Backdrop> {
    Seq::new(
        WIDTH as nat,
        |c: int|
            if c == 0 {
                Backdrop::LeftBorder
            } else if c == WIDTH - 1 {
                Backdrop::RightBorder
            } else {
                Backdrop::Free
            },
    )
}

/// The empty screen: `height` rows with a border glyph at each end.
pub fn create_screen(height: usize) -> (screen: Vec<Vec<Backdrop>>)
    ensures
        screen@.len() == height,
        forall|i: int| 0 <= i < height ==> (#[trigger] screen@[i])@ == backdrop_row(),
{
    let mut screen: Vec<Vec<Backdrop>> = Vec::new();
    let mut i: usize = 0;
    while i < height
        invariant
            0 <= i <= height,
            screen@.len() == i,
            forall|k: int| 0 <= k < i ==> (#[trigger] screen@[k])@ == backdrop_row(),
        decreases height - i,
    {
        let mut row: Vec<Backdrop> = Vec::new();
        row.push(Backdrop::LeftBorder);
        let mut j: usize = 1;
        while j < WIDTH - 1
            invariant
                1 <= j <= WIDTH - 1,
                row@.len() == j,
                forall|c: int| 0 <= c < j ==> row@[c] == backdrop_row()[c],
            decreases WIDTH - 1 - j,
        {
            row.push(Backdrop::Free);
            j = j + 1;
        }
        row.push(Backdrop::RightBorder);
        assert(row@ =~= backdrop_row());
        screen.push(row);
        i = i + 1;
    }
    screen
}

impl Board {
    /// Board cell `(r, c)` is occupied.
    pub open spec fn filled(&self, r: int, c: int) -> bool {
        at(self.cells@, r, c)
    }

    /// Mask cell `(r, c)` is occupied.
    pub open spec fn blocked(&self, r: int, c: int) -> bool {
        at(self.game_borders@, r, c)
    }

    pub open spec fn grid(&self) -> Seq<Seq<bool>> {
        grid_of(self.cells@, self.height as int)
    }

    pub open spec fn wf(&self) -> bool {
        &&& 3 <= self.height <= MAX_HEIGHT
        &&& self.cells@.len() == self.height * WIDTH
        &&& self.game_borders@.len() == (self.height + 1) * WIDTH
        &&& forall|c: int| 0 <= c < WIDTH ==> #[trigger] at(self.game_borders@, self.height as int, c)
    }

    /// The mask mirrors the board above the floor.
    pub open spec fn mask_consistent(&self) -> bool {
        forall|r: int, c: int|
            0 <= r < self.height && 0 <= c < WIDTH ==> #[trigger] self.blocked(r, c)
                == self.filled(r, c)
    }

    /// An empty board of `height` rows with its floor.
    pub fn new(height: usize) -> (b: Board)
        requires
            3 <= height <= MAX_HEIGHT,
        ensures
            b.wf(),
            b.mask_consistent(),
            b.height == height,
            forall|r: int, c: int| 0 <= r < height && 0 <= c < WIDTH ==> !#[trigger] b.filled(r, c),
    {
        let n = height * WIDTH;
        let mut cells: Vec<bool> = Vec::new();
        let mut i: usize = 0;
        while i < n
            invariant
                n == height * WIDTH,
                0 <= i <= n,
                cells@.len() == i,
                forall|k: int| 0 <= k < i ==> !#[trigger] cells@[k],
            decreases n - i,
        {
            cells.push(false);
            i = i + 1;
        }
        let mut borders: Vec<bool> = Vec::new();
        let m = n + WIDTH;
        let mut i: usize = 0;
        while i < m
            invariant
                n == height * WIDTH,
                m == n + WIDTH,
                0 <= i <= m,
                borders@.len() == i,
                forall|k: int| 0 <= k < i ==> #[trigger] borders@[k] == (k >= n),
            decreases m - i,
        {
            borders.push(i >= n);
            i = i + 1;
        }
        Board { height, cells, game_borders: borders }
    }

    /// Reads board cell `(r, c)`.
    pub fn is_filled(&self, r: usize, c: usize) -> (b: bool)
        requires
            self.wf(),
            r < self.height,
            c < WIDTH,
        ensures
            b == self.filled(r as int, c as int),
    {
        self.cells[r * WIDTH + c]
    }

    /// Reads mask cell `(r, c)`; row `height` is the floor.
    pub fn is_blocked(&self, r: usize, c: usize) -> (b: bool)
        requires
            self.wf(),
            r <= self.height,
            c < WIDTH,
        ensures
            b == self.blocked(r as int, c as int),
    {
        self.game_borders[r * WIDTH + c]
    }

    /// Whether every playable column of row `r` is occupied.
    pub fn row_is_full(&self, r: usize) -> (b: bool)
        requires
            self.wf(),
            r < self.height,
        ensures
            b == row_full(self.grid()[r as int]),
    {
        let mut c: usize = 1;
        while c < WIDTH - 1
            invariant
                self.wf(),
                r < self.height,
                1 <= c <= WIDTH - 1,
                forall|k: int| 1 <= k < c ==> #[trigger] self.filled(r as int, k),
            decreases WIDTH - 1 - c,
        {
            if !self.cells[r * WIDTH + c] {
                assert(!self.grid()[r as int][c as int]);
                return false;
            }
            c = c + 1;
        }
        assert forall|k: int| 1 <= k < WIDTH - 1 implies #[trigger] self.grid()[r as int][k] by {
            assert(self.filled(r as int, k));
        }
        true
    }

    /// Clears row `r`, moves every row above it down by one and empties row 0.
    pub fn collapse_row(&mut self, r: usize)
        requires
            old(self).wf(),
            r < old(self).height,
        ensures
            final(self).wf(),
            final(self).height == old(self).height,
            final(self).game_borders == old(self).game_borders,
            final(self).grid() == collapse(old(self).grid(), r as int),
    {
        let ghost g0 = self.cells@;
        let h = self.height;
        self.clear_row(r);
        let mut k: usize = r;
        while k > 0
            invariant
                self.wf(),
                self.height == h,
                self.game_borders == old(self).game_borders,
                r < h,
                0 <= k <= r,
                forall|rr: int, cc: int|
                    0 <= rr < h && 0 <= cc < WIDTH ==> #[trigger] at(self.cells@, rr, cc) == if rr
                        > r {
                        at(g0, rr, cc)
                    } else if rr > k {
                        at(g0, rr - 1, cc)
                    } else if rr == r {
                        false
                    } else {
                        at(g0, rr, cc)
                    },
            decreases k,
        {
            let mut c: usize = 0;
            while c < WIDTH
                invariant
                    self.wf(),
                    self.height == h,
                    self.game_borders == old(self).game_borders,
                    r < h,
                    0 < k <= r,
                    0 <= c <= WIDTH,
                    forall|rr: int, cc: int|
                        0 <= rr < h && 0 <= cc < WIDTH ==> #[trigger] at(self.cells@, rr, cc) == if rr
                            > r {
                            at(g0, rr, cc)
                        } else if rr > k || (rr == k && cc < c) {
                            at(g0, rr - 1, cc)
                        } else if rr == r {
                            false
                        } else {
                            at(g0, rr, cc)
                        },
                decreases WIDTH - c,
            {
                let v = self.cells[(k - 1) * WIDTH + c];
                let ghost prev = self.cells@;
                self.cells.set(k * WIDTH + c, v);
                assert forall|rr: int, cc: int| 0 <= rr < h && 0 <= cc < WIDTH implies #[trigger] at(
                    self.cells@,
                    rr,
                    cc,
                ) == if rr > r {
                    at(g0, rr, cc)
                } else if rr > k || (rr == k && cc < c + 1) {
                    at(g0, rr - 1, cc)
                } else if rr == r {
                    false
                } else {
                    at(g0, rr, cc)
                } by {
                    lemma_cell_index(rr, cc, k as int, c as int);
                    lemma_cell_in_range(rr, cc, h as int);
                    lemma_cell_in_range(k - 1, c as int, h as int);
                    assert(self.cells@ == prev.update(cell_index(k as int, c as int), v));
                    assert(v == at(prev, k - 1, c as int));
                    assert(at(prev, k - 1, c as int) == at(g0, k - 1, c as int));
                    if rr == k && cc == c {
                        assert(at(self.cells@, rr, cc) == v);
                    } else {
                        assert(cell_index(rr, cc) != cell_index(k as int, c as int));
                        assert(at(self.cells@, rr, cc) == at(prev, rr, cc));
                    }
                }
                c = c + 1;
            }
            k = k - 1;
        }
        self.clear_row(0);
        assert forall|rr: int, cc: int| 0 <= rr < h && 0 <= cc < WIDTH implies #[trigger] self.grid()[rr][cc]
            == collapse(grid_of(g0, h as int), r as int)[rr][cc] by {
            assert(at(self.cells@, rr, cc) == self.filled(rr, cc));
        }
        assert(self.grid() =~~= collapse(grid_of(g0, h as int), r as int));
    }

    /// Empties row `r`.
    pub fn clear_row(&mut self, r: usize)
        requires
            old(self).wf(),
            r < old(self).height,
        ensures
            final(self).wf(),
            final(self).height == old(self).height,
            final(self).game_borders == old(self).game_borders,
            forall|rr: int, cc: int|
                0 <= rr < old(self).height && 0 <= cc < WIDTH ==> #[trigger] at(
                    final(self).cells@,
                    rr,
                    cc,
                ) == if rr == r {
                    false
                } else {
                    at(old(self).cells@, rr, cc)
                },
    {
        let mut c: usize = 0;
        while c < WIDTH
            invariant
                self.wf(),
                self.height == old(self).height,
                self.game_borders == old(self).game_borders,
                r < self.height,
                0 <= c <= WIDTH,
                forall|rr: int, cc: int|
                    0 <= rr < self.height && 0 <= cc < WIDTH ==> #[trigger] at(self.cells@, rr, cc) == if rr
                        == r && cc < c {
                        false
                    } else {
                        at(old(self).cells@, rr, cc)
                    },
            decreases WIDTH - c,
        {
            let ghost prev = self.cells@;
            self.cells.set(r * WIDTH + c, false);
            assert forall|rr: int, cc: int|
                0 <= rr < self.height && 0 <= cc < WIDTH implies #[trigger] at(self.cells@, rr, cc)
                == if rr == r && cc < c + 1 {
                false
            } else {
                at(old(self).cells@, rr, cc)
            } by {
                lemma_cell_index(rr, cc, r as int, c as int);
                lemma_cell_in_range(rr, cc, self.height as int);
                assert(self.cells@ == prev.update(cell_index(r as int, c as int), false));
                if rr == r && cc == c {
                    assert(at(self.cells@, rr, cc) == false);
                } else {
                    assert(cell_index(rr, cc) != cell_index(r as int, c as int));
                    assert(at(self.cells@, rr, cc) == at(prev, rr, cc));
                }
            }
            c = c + 1;
        }
    }
}

/// Clears every full row in one top-to-bottom sweep and returns how many were
/// cleared. The mask is left as it was; it is rebuilt afterwards.
pub fn check_complete_line(board: &mut Board) -> (count: usize)
    requires
        old(board).wf(),
    ensures
        final(board).wf(),
        final(board).height == old(board).height,
        final(board).game_borders == old(board).game_borders,
        final(board).grid() == sweep(old(board).grid(), 0),
        count == cleared_count(old(board).grid(), 0),
{
    let h = board.height;
    let mut count: usize = 0;
    let mut i: usize = 0;
    while i < h
        invariant
            board.wf(),
            board.height == h,
            board.game_borders == old(board).game_borders,
            0 <= i <= h,
            count <= i,
            sweep(board.grid(), i as int) == sweep(old(board).grid(), 0),
            count + cleared_count(board.grid(), i as int) == cleared_count(old(board).grid(), 0),
        decreases h - i,
    {
        if board.row_is_full(i) {
            board.collapse_row(i);
            count = count + 1;
        }
        i = i + 1;
    }
    count
}

/// Rebuilds the occupancy mask from the board; the floor row stays occupied.
pub fn remake_gameborders(board: &mut Board)
    requires
        old(board).wf(),
    ensures
        final(board).wf(),
        final(board).mask_consistent(),
        final(board).height == old(board).height,
        final(board).cells == old(board).cells,
{
    let n = board.height * WIDTH;
    let mut i: usize = 0;
    while i < n
        invariant
            board.wf(),
            board.height == old(board).height,
            board.cells == old(board).cells,
            n == board.height * WIDTH,
            0 <= i <= n,
            forall|k: int| 0 <= k < i ==> #[trigger] board.game_borders@[k] == board.cells@[k],
        decreases n - i,
    {
        let v = board.cells[i];
        let ghost prev = board.game_borders@;
        board.game_borders.set(i, v);
        assert forall|c: int| 0 <= c < WIDTH implies #[trigger] at(
            board.game_borders@,
            board.height as int,
            c,
        ) by {
            assert(at(prev, board.height as int, c));
        }
        i = i + 1;
    }
    assert forall|r: int, c: int|
        0 <= r < board.height && 0 <= c < WIDTH implies #[trigger] board.blocked(r, c)
        == board.filled(r, c) by {
        assert(cell_index(r, c) < n);
    }
}

} // verus!
