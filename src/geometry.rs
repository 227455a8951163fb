use vstd::prelude::*;

verus! {

/// Columns of the board, the two border columns included.
pub const WIDTH: usize = 12;

/// Largest absolute anchor coordinate for which a piece's cells are computed.
pub const COORD_LIMIT: i64 = 0x1_0000_0000;

/// One cell of a piece, at absolute column `x` and row `y`.
#[derive(Clone, Copy, Debug, PartialEq, Eq, Structural)]
pub struct TetrominoCharacter {
    pub x: i64,
    pub y: i64,
}

/// A run of `len` cells on one row, starting at column `x` of row `y` and
/// extending to the right. In the geometry table `x` and `y` are offsets from
/// the piece's anchor.
#[derive(Clone, Copy, Debug, PartialEq, Eq, Structural)]
pub struct Line {
    pub x: i64,
    pub y: i64,
    pub len: i64,
}

/// The cells of a run of `len` cells from `(x, y)` rightwards; none when
/// `len` is not positive.
pub open spec fn run_cells(x: int, y: int, len: int) -> Seq<(int, int)> {
    if len <= 0 {
        Seq::empty()
    } else {
        Seq::new(len as nat, |k: int| (x + k, y))
    }
}

/// The cells of a list of segments placed at anchor `(x, y)`, segment by
/// segment, each expanded over its length.
pub open spec fn expand(segs: Seq<Line>, x: int, y: int) -> Seq<(int, int)>
    decreases segs.len(),
{
    if segs.len() == 0 {
        Seq::empty()
    } else {
        let s = segs.last();
        expand(segs.drop_last(), x, y) + run_cells(x + s.x, y + s.y, s.len as int)
    }
}

/// The first cell of an expansion is where its first segment starts.
pub proof fn lemma_expand_first(segs: Seq<Line>, x: int, y: int)
    requires
        segs.len() > 0,
        small_segments(segs),
    ensures
        expand(segs, x, y).len() > 0,
        expand(segs, x, y)[0] == (x + segs[0].x, y + segs[0].y),
    decreases segs.len(),
{
    let s = segs.last();
    if segs.len() > 1 {
        lemma_expand_first(segs.drop_last(), x, y);
        assert(segs.drop_last()[0] == segs[0]);
    } else {
        assert(expand(segs.drop_last(), x, y).len() == 0);
        assert(s == segs[0]);
        assert(segs[0].len >= 1);
        assert(run_cells(x + s.x, y + s.y, s.len as int)[0] == (x + s.x, y + s.y));
    }
}

/// Moving the anchor moves every cell by the same amount.
pub proof fn lemma_expand_shift(segs: Seq<Line>, x: int, y: int, dx: int, dy: int)
    ensures
        expand(segs, x + dx, y + dy).len() == expand(segs, x, y).len(),
        forall|i: int|
            0 <= i < expand(segs, x, y).len() ==> #[trigger] expand(segs, x + dx, y + dy)[i] == (
                expand(segs, x, y)[i].0 + dx,
                expand(segs, x, y)[i].1 + dy,
            ),
    decreases segs.len(),
{
    if segs.len() > 0 {
        let s = segs.last();
        lemma_expand_shift(segs.drop_last(), x, y, dx, dy);
        let a = expand(segs.drop_last(), x, y);
        let a2 = expand(segs.drop_last(), x + dx, y + dy);
        let b = run_cells(x + s.x, y + s.y, s.len as int);
        let b2 = run_cells(x + dx + s.x, y + dy + s.y, s.len as int);
        assert forall|i: int| 0 <= i < (a + b).len() implies #[trigger] (a2 + b2)[i] == (
            (a + b)[i].0 + dx,
            (a + b)[i].1 + dy,
        ) by {
            if i < a.len() {
                assert((a2 + b2)[i] == a2[i]);
                assert((a + b)[i] == a[i]);
            } else {
                assert((a2 + b2)[i] == b2[i - a.len()]);
                assert((a + b)[i] == b[i - a.len()]);
            }
        }
    }
}

/// The positions of a sequence of characters.
pub open spec fn positions(cs: Seq<TetrominoCharacter>) -> Seq<(int, int)> {
    cs.map_values(|c: TetrominoCharacter| (c.x as int, c.y as int))
}

pub open spec fn valid_kind(kind: int) -> bool {
    1 <= kind <= 5
}

pub open spec fn valid_rotation(rotation: int) -> bool {
    rotation == 0 || rotation == 90 || rotation == 180 || rotation == 270
}

/// The geometry table: for each kind and rotation, the row segments of the
/// piece relative to its anchor. The entries are hand-authored layouts, not a
/// rotation applied to one shape. Kind 3 (the square) has one layout.
///
/// The anchor is the spawn position, the left end of the first row at
/// rotation 0, and a rotation never moves it. Offsets of every orientation are
/// taken from that one point. So the three-cell row of kind 5 at rotation 0
/// starts at offset 0, and its other orientations sit one column to the right
/// of the anchor.
pub open spec fn layout(kind: int, rotation: int) -> Seq<Line> {
    if kind == 1 {
        if rotation == 90 || rotation == 270 {
            seq![
                Line { x: 0, y: 0, len: 1 },
                Line { x: 0, y: 1, len: 1 },
                Line { x: 0, y: 2, len: 1 },
                Line { x: 0, y: 3, len: 1 },
            ]
        } else {
            seq![Line { x: 0, y: 0, len: 4 }]
        }
    } else if kind == 2 {
        if rotation == 90 {
            seq![Line { x: 0, y: 0, len: 2 }, Line { x: 0, y: 1, len: 1 }, Line { x: 0, y: 2, len: 1 }]
        } else if rotation == 180 {
            seq![Line { x: 0, y: 0, len: 1 }, Line { x: 0, y: 1, len: 3 }]
        } else if rotation == 270 {
            seq![Line { x: 0, y: 0, len: 1 }, Line { x: 0, y: 1, len: 1 }, Line { x: 0, y: 2, len: 2 }]
        } else {
            seq![Line { x: 0, y: 0, len: 3 }, Line { x: 2, y: 1, len: 1 }]
        }
    } else if kind == 3 {
        seq![Line { x: 0, y: 0, len: 2 }, Line { x: 0, y: 1, len: 2 }]
    } else if kind == 4 {
        if rotation == 90 || rotation == 270 {
            seq![Line { x: 0, y: 0, len: 1 }, Line { x: -1i64, y: 1, len: 2 }, Line { x: -1i64, y: 2, len: 1 }]
        } else {
            seq![Line { x: 0, y: 0, len: 2 }, Line { x: 1, y: 1, len: 2 }]
        }
    } else {
        if rotation == 90 {
            seq![Line { x: 1, y: 0, len: 1 }, Line { x: 1, y: 1, len: 2 }, Line { x: 1, y: 2, len: 1 }]
        } else if rotation == 180 {
            seq![Line { x: 1, y: 0, len: 1 }, Line { x: 0, y: 1, len: 3 }]
        } else if rotation == 270 {
            seq![Line { x: 1, y: 0, len: 1 }, Line { x: 0, y: 1, len: 2 }, Line { x: 1, y: 2, len: 1 }]
        } else {
            seq![Line { x: 0, y: 0, len: 3 }, Line { x: 1, y: 1, len: 1 }]
        }
    }
}

/// Every segment of the table is short and lies close to the anchor.
pub open spec fn small_segments(segs: Seq<Line>) -> bool {
    forall|i: int|
        0 <= i < segs.len() ==> -4 <= (#[trigger] segs[i]).x <= 4 && -4 <= segs[i].y <= 4 && 1
            <= segs[i].len <= 4
}

pub proof fn lemma_layout_small(kind: int, rotation: int)
    ensures
        small_segments(layout(kind, rotation)),
{
}

impl TetrominoCharacter {
    pub fn new(x_pos: i64, y_pos: i64) -> (r: TetrominoCharacter)
        ensures
            r.x == x_pos,
            r.y == y_pos,
    {
        TetrominoCharacter { x: x_pos, y: y_pos }
    }

    /// The character at the origin.
    pub fn default() -> (r: TetrominoCharacter)
        ensures
            r.x == 0,
            r.y == 0,
    {
        TetrominoCharacter { x: 0, y: 0 }
    }

    /// Moves the character by the given units.
    pub fn move_character(&mut self, x_units: i64, y_units: i64)
        requires
            i64::MIN <= old(self).x + x_units <= i64::MAX,
            i64::MIN <= old(self).y + y_units <= i64::MAX,
        ensures
            final(self).x == old(self).x + x_units,
            final(self).y == old(self).y + y_units,
    {
        self.x = self.x + x_units;
        self.y = self.y + y_units;
    }
}

impl Line {
    pub fn new(x_pos: i64, y_pos: i64, num: i64) -> (r: Line)
        ensures
            r.x == x_pos,
            r.y == y_pos,
            r.len == num,
    {
        Line { x: x_pos, y: y_pos, len: num }
    }

    /// The `num` characters of the run that starts at `(x_pos, y_pos)`; no
    /// character when `num` is not positive.
    pub fn create_characters(x_pos: i64, y_pos: i64, num: i64) -> (r: Vec<TetrominoCharacter>)
        requires
            x_pos + num <= i64::MAX,
        ensures
            positions(r@) == run_cells(x_pos as int, y_pos as int, num as int),
            num <= 0 ==> r@.len() == 0,
            num > 0 ==> r@.len() == num,
    {
        if num <= 0 {
            let empty: Vec<TetrominoCharacter> = Vec::new();
            assert(positions(empty@) =~= run_cells(x_pos as int, y_pos as int, num as int));
            return empty;
        }
        let mut characters: Vec<TetrominoCharacter> = Vec::new();
        let mut i: i64 = 0;
        while i < num
            invariant
                0 <= i <= num,
                x_pos + num <= i64::MAX,
                characters@.len() == i,
                positions(characters@) == run_cells(x_pos as int, y_pos as int, i as int),
            decreases num - i,
        {
            let ghost prev = characters@;
            characters.push(TetrominoCharacter::new(x_pos + i, y_pos));
            assert forall|k: int| 0 <= k < i + 1 implies positions(characters@)[k] == run_cells(
                x_pos as int,
                y_pos as int,
                i + 1,
            )[k] by {
                if k < i {
                    assert(characters@[k] == prev[k]);
                    assert(positions(prev)[k] == run_cells(x_pos as int, y_pos as int, i as int)[k]);
                }
            }
            assert(positions(characters@) =~= run_cells(x_pos as int, y_pos as int, i + 1));
            i = i + 1;
        }
        characters
    }

    /// Moves the run by the given units.
    pub fn move_line(&mut self, x_units: i64, y_units: i64)
        requires
            i64::MIN <= old(self).x + x_units <= i64::MAX,
            i64::MIN <= old(self).y + y_units <= i64::MAX,
        ensures
            final(self).x == old(self).x + x_units,
            final(self).y == old(self).y + y_units,
            final(self).len == old(self).len,
    {
        self.x = self.x + x_units;
        self.y = self.y + y_units;
    }
}

/// Looks up the geometry table.
pub fn shape_layout(kind: u8, rotation: u16) -> (r: Vec<Line>)
    requires
        valid_kind(kind as int),
        valid_rotation(rotation as int),
    ensures
        r@ == layout(kind as int, rotation as int),
{
    let r = if kind == 1 {
        if rotation == 90 || rotation == 270 {
            vec![Line::new(0, 0, 1), Line::new(0, 1, 1), Line::new(0, 2, 1), Line::new(0, 3, 1)]
        } else {
            vec![Line::new(0, 0, 4)]
        }
    } else if kind == 2 {
        if rotation == 90 {
            vec![Line::new(0, 0, 2), Line::new(0, 1, 1), Line::new(0, 2, 1)]
        } else if rotation == 180 {
            vec![Line::new(0, 0, 1), Line::new(0, 1, 3)]
        } else if rotation == 270 {
            vec![Line::new(0, 0, 1), Line::new(0, 1, 1), Line::new(0, 2, 2)]
        } else {
            vec![Line::new(0, 0, 3), Line::new(2, 1, 1)]
        }
    } else if kind == 3 {
        vec![Line::new(0, 0, 2), Line::new(0, 1, 2)]
    } else if kind == 4 {
        if rotation == 90 || rotation == 270 {
            vec![Line::new(0, 0, 1), Line::new(-1, 1, 2), Line::new(-1, 2, 1)]
        } else {
            vec![Line::new(0, 0, 2), Line::new(1, 1, 2)]
        }
    } else {
        if rotation == 90 {
            vec![Line::new(1, 0, 1), Line::new(1, 1, 2), Line::new(1, 2, 1)]
        } else if rotation == 180 {
            vec![Line::new(1, 0, 1), Line::new(0, 1, 3)]
        } else if rotation == 270 {
            vec![Line::new(1, 0, 1), Line::new(0, 1, 2), Line::new(1, 2, 1)]
        } else {
            vec![Line::new(0, 0, 3), Line::new(1, 1, 1)]
        }
    };
    assert(r@ =~= layout(kind as int, rotation as int));
    r
}

/// The cells of the segments `segs` placed at anchor `(x, y)`.
pub fn expand_segments(segs: &Vec<Line>, x: i64, y: i64) -> (r: Vec<TetrominoCharacter>)
    requires
        small_segments(segs@),
        -COORD_LIMIT <= x <= COORD_LIMIT,
        -COORD_LIMIT <= y <= COORD_LIMIT,
    ensures
        positions(r@) == expand(segs@, x as int, y as int),
{
    let mut cells: Vec<TetrominoCharacter> = Vec::new();
    let mut i: usize = 0;
    while i < segs.len()
        invariant
            0 <= i <= segs.len(),
            small_segments(segs@),
            -COORD_LIMIT <= x <= COORD_LIMIT,
            -COORD_LIMIT <= y <= COORD_LIMIT,
            positions(cells@) == expand(segs@.take(i as int), x as int, y as int),
        decreases segs.len() - i,
    {
        let s = segs[i];
        let mut part = Line::create_characters(x + s.x, y + s.y, s.len);
        let ghost before = cells@;
        let ghost added = part@;
        cells.append(&mut part);
        assert(segs@.take(i + 1).drop_last() =~= segs@.take(i as int));
        assert(positions(cells@) =~= positions(before) + positions(added));
        i = i + 1;
    }
    assert(segs@.take(segs.len() as int) =~= segs@);
    cells
}

} // verus!
