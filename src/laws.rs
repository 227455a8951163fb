use vstd::prelude::*;
use crate::board::{cleared_count, collapse, row_full, sweep, Board};
use crate::engine::committed_grid;
use crate::geometry::WIDTH;
use crate::piece::{normalized_rotation, Tetromino};

verus! {

/// A locked piece stays locked and in place: neither a move nor a rotation
/// changes it, and a move never unlocks a piece.
pub proof fn lemma_lock_is_final(p: Tetromino, dx: int, dy: int, delta: int, board: Board)
    ensures
        p.stationary ==> p.moved(dx, dy, board) == p,
        p.stationary ==> p.rotated(delta, board) == p,
        p.stationary ==> p.moved(dx, dy, board).stationary,
        p.stationary ==> p.rotated(delta, board).stationary,
{
}

/// Committing a list with no locked piece in it leaves the board as it was.
pub proof fn lemma_commit_nothing_locked(board: Board, pieces: Seq<Tetromino>)
    requires
        board.wf(),
        forall|i: int| 0 <= i < pieces.len() ==> !(#[trigger] pieces[i]).stationary,
    ensures
        committed_grid(board.grid(), pieces) == board.grid(),
{
    assert(committed_grid(board.grid(), pieces) =~~= board.grid());
}

proof fn lemma_sweep_nothing_full(g: Seq<Seq<bool>>, i: int)
    requires
        0 <= i,
        forall|k: int| i <= k < g.len() ==> !row_full(#[trigger] g[k]),
    ensures
        sweep(g, i) == g,
        cleared_count(g, i) == 0,
    decreases g.len() - i,
{
    if i < g.len() {
        lemma_sweep_nothing_full(g, i + 1);
    }
}

proof fn lemma_sweep_skips_to(g: Seq<Seq<bool>>, i: int, r: int)
    requires
        0 <= i <= r < g.len(),
        forall|k: int| i <= k < r ==> !row_full(#[trigger] g[k]),
    ensures
        sweep(g, i) == sweep(g, r),
        cleared_count(g, i) == cleared_count(g, r),
    decreases r - i,
{
    if i < r {
        lemma_sweep_skips_to(g, i + 1, r);
    }
}

/// When row `r` is the one full row, the sweep clears exactly that row: row
/// `r` goes, every row above it moves down by one, row 0 is empty, and the
/// rows below `r` stay.
pub proof fn lemma_clear_single_row(g: Seq<Seq<bool>>, r: int)
    requires
        0 <= r < g.len(),
        forall|k: int| 0 <= k < g.len() ==> (#[trigger] g[k]).len() == WIDTH,
        row_full(g[r]),
        forall|k: int| 0 <= k < g.len() && k != r ==> !row_full(#[trigger] g[k]),
    ensures
        sweep(g, 0) == collapse(g, r),
        cleared_count(g, 0) == 1,
        forall|c: int| 0 <= c < WIDTH ==> !(#[trigger] sweep(g, 0)[0][c]),
        forall|k: int| r < k < g.len() ==> #[trigger] sweep(g, 0)[k] == g[k],
        forall|k: int| 0 < k <= r ==> #[trigger] sweep(g, 0)[k] == g[k - 1],
{
    lemma_sweep_skips_to(g, 0, r);
    let h = collapse(g, r);
    assert forall|k: int| r + 1 <= k < h.len() implies !row_full(#[trigger] h[k]) by {
        assert(h[k] == g[k]);
    }
    lemma_sweep_nothing_full(h, r + 1);
}

/// The square ignores rotation: its cells never change.
pub proof fn lemma_square_ignores_rotation(p: Tetromino, delta: int, board: Board)
    requires
        p.shape_type == 3,
    ensures
        p.rotated(delta, board).cells() == p.cells(),
{
}

/// Four quarter turns that are all taken bring a piece back to where it
/// started, with the same cells.
pub proof fn lemma_four_quarter_turns(p: Tetromino, board: Board)
    requires
        p.valid(),
        p.rotated(90, board).rotation != p.rotation,
        p.rotated(90, board).rotated(90, board).rotation != p.rotated(90, board).rotation,
        p.rotated(90, board).rotated(90, board).rotated(90, board).rotation != p.rotated(
            90,
            board,
        ).rotated(90, board).rotation,
        p.rotated(90, board).rotated(90, board).rotated(90, board).rotated(90, board).rotation
            != p.rotated(90, board).rotated(90, board).rotated(90, board).rotation,
    ensures
        p.rotated(90, board).rotated(90, board).rotated(90, board).rotated(90, board) == p,
        p.rotated(90, board).rotated(90, board).rotated(90, board).rotated(90, board).cells()
            == p.cells(),
{
    let q1 = p.rotated(90, board);
    let q2 = q1.rotated(90, board);
    let q3 = q2.rotated(90, board);
    let q4 = q3.rotated(90, board);
    assert(q1.rotation == normalized_rotation(p.rotation as int, 90));
    assert(q2.rotation == normalized_rotation(q1.rotation as int, 90));
    assert(q3.rotation == normalized_rotation(q2.rotation as int, 90));
    assert(q4.rotation == normalized_rotation(q3.rotation as int, 90));
}

} // verus!
