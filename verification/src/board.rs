//! The playfield: a fixed grid of cells that are empty or hold a colour.

use vstd::prelude::*;
use macroquad::color::Color;
use crate::tetromino::Tetromino;
use crate::{COLS, ROWS};

verus! {

/// One row of the grid, left to right.
pub type Row = Seq<Option<Color>>;

/// The grid as rows from top to bottom.
pub type Grid = Seq<Row>;

/// A grid has `ROWS` rows of `COLS` cells.
pub open spec fn grid_wf(grid: Grid) -> bool {
    &&& grid.len() == ROWS
    &&& forall|r: int| 0 <= r < ROWS ==> (#[trigger] grid[r]).len() == COLS
}

/// A row of empty cells.
pub open spec fn empty_row() -> Row {
    Seq::new(COLS as nat, |c: int| None)
}

/// The grid with every cell empty.
pub open spec fn empty_grid() -> Grid {
    Seq::new(ROWS as nat, |r: int| empty_row())
}

/// The cell lies on the grid.
pub open spec fn in_bounds(col: int, row: int) -> bool {
    0 <= col < COLS && 0 <= row < ROWS
}

/// The cell lies on the grid and nothing is locked there.
pub open spec fn cell_free(grid: Grid, col: int, row: int) -> bool {
    in_bounds(col, row) && grid[row][col] is None
}

/// All four cells of the piece lie on the grid.
pub open spec fn on_grid(piece: Tetromino) -> bool {
    forall|i: int| 0 <= i < 4 ==> in_bounds((#[trigger] piece.cell(i)).0, piece.cell(i).1)
}

/// All four cells of the piece lie on the grid and are free.
pub open spec fn valid_position(grid: Grid, piece: Tetromino) -> bool {
    forall|i: int| 0 <= i < 4 ==> cell_free(grid, (#[trigger] piece.cell(i)).0, piece.cell(i).1)
}

/// The grid after the piece's cells were given the colour. Cells of the piece
/// that lie off the grid leave no mark.
pub open spec fn locked(grid: Grid, piece: Tetromino, color: Color) -> Grid {
    Seq::new(
        ROWS as nat,
        |r: int|
            Seq::new(
                COLS as nat,
                |c: int|
                    if piece.covers(c, r) {
                        Some(color)
                    } else {
                        grid[r][c]
                    },
            ),
    )
}

/// A row is full when none of its cells is empty.
pub open spec fn row_full(row: Row) -> bool {
    forall|c: int| 0 <= c < row.len() ==> (#[trigger] row[c]) is Some
}

/// The rows that clearing takes out.
pub open spec fn is_full() -> spec_fn(Row) -> bool {
    |row: Row| row_full(row)
}

/// The rows that clearing keeps.
pub open spec fn is_not_full() -> spec_fn(Row) -> bool {
    |row: Row| !row_full(row)
}

/// Number of full rows.
pub open spec fn full_rows(grid: Grid) -> nat {
    grid.filter(is_full()).len()
}

/// The grid after its full rows were taken out: the other rows, in their
/// order, at the bottom, and as many empty rows on top as were taken out.
pub open spec fn cleared(grid: Grid) -> Grid {
    Seq::new(full_rows(grid), |r: int| empty_row()) + grid.filter(is_not_full())
}

spec fn covers_first(piece: Tetromino, n: int, col: int, row: int) -> bool {
    exists|i: int| 0 <= i < n && #[trigger] piece.cell(i) == (col, row)
}

spec fn locked_first(grid: Grid, piece: Tetromino, color: Color, n: int) -> Grid {
    Seq::new(
        ROWS as nat,
        |r: int|
            Seq::new(
                COLS as nat,
                |c: int|
                    if covers_first(piece, n, c, r) {
                        Some(color)
                    } else {
                        grid[r][c]
                    },
            ),
    )
}

proof fn lemma_filter_one(row: Row, pred: spec_fn(Row) -> bool)
    ensures
        seq![row].filter(pred) == if pred(row) {
            seq![row]
        } else {
            Seq::<Row>::empty()
        },
{
    reveal_with_fuel(Seq::filter, 2);
    assert(seq![row].drop_last() =~= Seq::<Row>::empty());
    assert(seq![row].last() == row);
    assert(Seq::<Row>::empty().push(row) =~= seq![row]);
}

proof fn lemma_filter_front(rows: Grid, from: int, pred: spec_fn(Row) -> bool)
    requires
        0 <= from < rows.len(),
    ensures
        rows.subrange(from, rows.len() as int).filter(pred) == (if pred(rows[from]) {
            seq![rows[from]]
        } else {
            Seq::<Row>::empty()
        }) + rows.subrange(from + 1, rows.len() as int).filter(pred),
{
    let rest = rows.subrange(from + 1, rows.len() as int);
    assert(rows.subrange(from, rows.len() as int) =~= seq![rows[from]] + rest);
    Seq::filter_distributes_over_add(seq![rows[from]], rest, pred);
    lemma_filter_one(rows[from], pred);
}

/// The locked cells of the playfield.
pub struct Board {
    cells: [[Option<Color>; COLS]; ROWS],
}

impl View for Board {
    type V = Grid;

    closed spec fn view(&self) -> Grid {
        Seq::new(ROWS as nat, |r: int| self.cells[r]@)
    }
}

fn row_is_full(row: &[Option<Color>; COLS]) -> (full: bool)
    ensures
        full == row_full(row@),
{
    let mut c: usize = 0;
    while c < COLS
        invariant
            c <= COLS,
            forall|k: int| 0 <= k < c ==> (#[trigger] row@[k]) is Some,
        decreases COLS - c,
    {
        if row[c].is_none() {
            return false;
        }
        c += 1;
    }
    true
}

impl Board {
    /// The view of a board always has the shape of the grid.
    pub proof fn lemma_view_wf(self)
        ensures
            grid_wf(self@),
    {
    }

    /// An empty playfield.
    pub fn new() -> (board: Board)
        ensures
            board@ == empty_grid(),
    {
        let board = Board { cells: [[None; COLS]; ROWS] };
        assert(board@ =~~= empty_grid());
        board
    }

    /// What the cell in the given row and column holds.
    pub fn cell(&self, row: usize, col: usize) -> (content: Option<Color>)
        requires
            row < ROWS,
            col < COLS,
        ensures
            content == self@[row as int][col as int],
    {
        self.cells[row][col]
    }

    /// Marks the piece's cells with the colour. Cells off the grid are passed over.
    pub fn lock_tetromino(&mut self, tet: &Tetromino, color: Color)
        ensures
            final(self)@ == locked(old(self)@, *tet, color),
            forall|i: int|
                0 <= i < 4 && in_bounds((#[trigger] tet.cell(i)).0, tet.cell(i).1)
                    ==> final(self)@[tet.cell(i).1][tet.cell(i).0] == Some(color),
    {
        let ghost before = self@;
        let cells = tet.blocks();
        let mut i: usize = 0;
        assert(self@ =~~= locked_first(before, *tet, color, 0));
        while i < 4
            invariant
                i <= 4,
                forall|k: int|
                    0 <= k < 4 ==> ((#[trigger] cells[k]).0 as int, cells[k].1 as int) == tet.cell(k),
                grid_wf(before),
                self@ == locked_first(before, *tet, color, i as int),
            decreases 4 - i,
        {
            let (col, row) = cells[i];
            let ghost mid = self@;
            assert(tet.cell(i as int) == (col as int, row as int));
            if 0 <= col && col < COLS as i64 && 0 <= row && row < ROWS as i64 {
                self.cells[row as usize][col as usize] = Some(color);
                assert(self@[row as int][col as int] == Some(color));
            }
            proof {
                let next = locked_first(before, *tet, color, i + 1);
                assert forall|r: int, c: int| 0 <= r < ROWS && 0 <= c < COLS implies self@[r][c]
                    == next[r][c] by {
                    if tet.cell(i as int) == (c, r) {
                        assert(covers_first(*tet, i + 1, c, r));
                    } else {
                        assert(self@[r][c] == mid[r][c]);
                        if covers_first(*tet, i as int, c, r) {
                            let k = choose|k: int| 0 <= k < i && #[trigger] tet.cell(k) == (c, r);
                            assert(0 <= k < i + 1 && tet.cell(k) == (c, r));
                        } else {
                            assert(mid[r][c] == before[r][c]);
                            assert(!covers_first(*tet, i + 1, c, r));
                        }
                    }
                }
                assert(self@ =~~= next);
            }
            i += 1;
        }
        proof {
            assert forall|r: int, c: int| 0 <= r < ROWS && 0 <= c < COLS
                implies covers_first(*tet, 4, c, r) == tet.covers(c, r) by {}
            assert(self@ =~~= locked(before, *tet, color));
        }
    }

    /// Whether the piece may stand where it is: all four cells on the grid and free.
    pub fn is_valid_position(&self, tet: &Tetromino) -> (ok: bool)
        ensures
            ok == valid_position(self@, *tet),
    {
        let cells = tet.blocks();
        let mut i: usize = 0;
        while i < 4
            invariant
                i <= 4,
                forall|k: int|
                    0 <= k < 4 ==> ((#[trigger] cells[k]).0 as int, cells[k].1 as int) == tet.cell(k),
                forall|k: int|
                    0 <= k < i ==> cell_free(self@, (#[trigger] tet.cell(k)).0, tet.cell(k).1),
            decreases 4 - i,
        {
            let (col, row) = cells[i];
            assert(tet.cell(i as int) == (col as int, row as int));
            if col < 0 || col >= COLS as i64 || row < 0 || row >= ROWS as i64 {
                return false;
            }
            if self.cells[row as usize][col as usize].is_some() {
                return false;
            }
            i += 1;
        }
        true
    }

    /// Takes out every full row, lets the rows above sink into the gaps and
    /// returns how many rows were taken out.
    pub fn clear_full_lines(&mut self) -> (count: usize)
        ensures
            count == full_rows(old(self)@),
            final(self)@ == cleared(old(self)@),
    {
        let ghost before = self@;
        let mut new_cells: [[Option<Color>; COLS]; ROWS] = [[None; COLS]; ROWS];
        let mut write_row: usize = ROWS;
        let mut count: usize = 0;
        let mut read_row: usize = ROWS;
        proof {
            assert(before.subrange(ROWS as int, ROWS as int) =~= Seq::<Row>::empty());
            reveal_with_fuel(Seq::filter, 1);
        }
        while read_row > 0
            invariant
                self@ == before,
                before.len() == ROWS,
                read_row <= ROWS,
                write_row <= ROWS,
                count + (ROWS - write_row) == ROWS - read_row,
                count == before.subrange(read_row as int, ROWS as int).filter(is_full()).len(),
                before.subrange(read_row as int, ROWS as int).filter(is_not_full()).len() == ROWS
                    - write_row,
                forall|r: int|
                    write_row <= r < ROWS ==> (#[trigger] new_cells[r])@ == before.subrange(
                        read_row as int,
                        ROWS as int,
                    ).filter(is_not_full())[r - write_row],
                forall|r: int| 0 <= r < write_row ==> (#[trigger] new_cells[r])@ == empty_row(),
            decreases read_row,
        {
            read_row -= 1;
            proof {
                lemma_filter_front(before, read_row as int, is_full());
                lemma_filter_front(before, read_row as int, is_not_full());
                assert(before[read_row as int] == self.cells[read_row as int]@);
            }
            if row_is_full(&self.cells[read_row]) {
                count += 1;
            } else {
                write_row -= 1;
                new_cells[write_row] = self.cells[read_row];
            }
        }
        self.cells = new_cells;
        proof {
            assert(before.subrange(0, ROWS as int) =~= before);
            assert(self@ =~~= cleared(before));
        }
        count
    }
}

proof fn lemma_filter_keeps_all(rows: Grid, pred: spec_fn(Row) -> bool)
    requires
        forall|i: int| 0 <= i < rows.len() ==> pred(#[trigger] rows[i]),
    ensures
        rows.filter(pred) == rows,
    decreases rows.len(),
{
    if rows.len() == 0 {
        reveal_with_fuel(Seq::filter, 1);
    } else {
        let front = rows.drop_last();
        lemma_filter_keeps_all(front, pred);
        assert(rows =~= front.push(rows.last()));
        Seq::lemma_filter_push(front, rows.last(), pred);
    }
}

proof fn lemma_filter_drops_all(rows: Grid, pred: spec_fn(Row) -> bool)
    requires
        forall|i: int| 0 <= i < rows.len() ==> !pred(#[trigger] rows[i]),
    ensures
        rows.filter(pred) == Seq::<Row>::empty(),
    decreases rows.len(),
{
    if rows.len() == 0 {
        reveal_with_fuel(Seq::filter, 1);
        assert(rows =~= Seq::<Row>::empty());
    } else {
        let front = rows.drop_last();
        lemma_filter_drops_all(front, pred);
        assert(rows =~= front.push(rows.last()));
        Seq::lemma_filter_push(front, rows.last(), pred);
    }
}

/// Clearing keeps the shape of the grid, and the rows taken out and the rows
/// kept add up to all rows.
pub proof fn lemma_cleared_wf(grid: Grid)
    requires
        grid_wf(grid),
    ensures
        grid_wf(cleared(grid)),
        full_rows(grid) + grid.filter(is_not_full()).len() == ROWS,
{
    lemma_filter_split(grid);
    let kept = grid.filter(is_not_full());
    assert forall|r: int| 0 <= r < ROWS implies (#[trigger] cleared(grid)[r]).len() == COLS by {
        if r >= full_rows(grid) {
            let k = r - full_rows(grid);
            grid.lemma_filter_contains_rev(is_not_full(), kept[k]);
        }
    }
}

proof fn lemma_filter_split(rows: Grid)
    ensures
        rows.filter(is_full()).len() + rows.filter(is_not_full()).len() == rows.len(),
    decreases rows.len(),
{
    if rows.len() == 0 {
        reveal_with_fuel(Seq::filter, 1);
    } else {
        let front = rows.drop_last();
        lemma_filter_split(front);
        assert(rows =~= front.push(rows.last()));
        Seq::lemma_filter_push(front, rows.last(), is_full());
        Seq::lemma_filter_push(front, rows.last(), is_not_full());
    }
}

/// Once a piece is locked, each of its cells that lies on the grid holds the
/// colour it was locked with, so the piece can no longer stand there.
pub proof fn lemma_locked_cells_hold_color(grid: Grid, piece: Tetromino, color: Color)
    requires
        grid_wf(grid),
    ensures
        grid_wf(locked(grid, piece, color)),
        forall|i: int|
            0 <= i < 4 && in_bounds((#[trigger] piece.cell(i)).0, piece.cell(i).1)
                ==> locked(grid, piece, color)[piece.cell(i).1][piece.cell(i).0] == Some(color),
        !valid_position(locked(grid, piece, color), piece),
{
    let after = locked(grid, piece, color);
    assert forall|i: int|
        0 <= i < 4 && in_bounds((#[trigger] piece.cell(i)).0, piece.cell(i).1)
        implies after[piece.cell(i).1][piece.cell(i).0] == Some(color) by {
        assert(piece.covers(piece.cell(i).0, piece.cell(i).1));
    }
    assert(!cell_free(after, piece.cell(0).0, piece.cell(0).1));
}

/// Where no row is full, clearing takes out nothing and leaves the grid as it is.
pub proof fn lemma_clear_without_full_row(grid: Grid)
    requires
        grid_wf(grid),
        forall|r: int| 0 <= r < ROWS ==> !row_full(#[trigger] grid[r]),
    ensures
        full_rows(grid) == 0,
        cleared(grid) == grid,
{
    lemma_filter_drops_all(grid, is_full());
    lemma_filter_keeps_all(grid, is_not_full());
    assert(cleared(grid) =~= grid);
}

/// Clearing leaves no full row behind, so clearing again changes nothing.
pub proof fn lemma_cleared_has_no_full_row(grid: Grid)
    requires
        grid_wf(grid),
    ensures
        forall|r: int| 0 <= r < ROWS ==> !row_full(#[trigger] cleared(grid)[r]),
        full_rows(cleared(grid)) == 0,
        cleared(cleared(grid)) == cleared(grid),
{
    lemma_cleared_wf(grid);
    let kept = grid.filter(is_not_full());
    assert forall|r: int| 0 <= r < ROWS implies !row_full(#[trigger] cleared(grid)[r]) by {
        if r >= full_rows(grid) {
            grid.lemma_filter_pred(is_not_full(), r - full_rows(grid));
        } else {
            assert(empty_row()[0] is None);
        }
    }
    lemma_clear_without_full_row(cleared(grid));
}

/// Where the bottom row is the only full one, clearing takes out that row:
/// every other row sinks by one and the top row becomes empty.
pub proof fn lemma_clear_bottom_row(grid: Grid)
    requires
        grid_wf(grid),
        row_full(grid[ROWS - 1]),
        forall|r: int| 0 <= r < ROWS - 1 ==> !row_full(#[trigger] grid[r]),
    ensures
        full_rows(grid) == 1,
        cleared(grid)[0] == empty_row(),
        forall|r: int| 1 <= r < ROWS ==> #[trigger] cleared(grid)[r] == grid[r - 1],
{
    let above = grid.drop_last();
    let bottom = grid.last();
    assert(grid =~= above.push(bottom));
    lemma_filter_drops_all(above, is_full());
    lemma_filter_keeps_all(above, is_not_full());
    Seq::lemma_filter_push(above, bottom, is_full());
    Seq::lemma_filter_push(above, bottom, is_not_full());
    assert(grid.filter(is_full()) =~= seq![bottom]);
}

} // verus!
