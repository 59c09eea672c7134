//! The seven pieces: their kinds, colours, rotation tables and the cells a
//! placed piece covers.

use vstd::prelude::*;
use macroquad::color::Color;
use crate::color::rgba;
use crate::random::random_below;

verus! {

/// The seven piece kinds.
#[derive(Clone, Copy, Debug, PartialEq, Eq, Structural)]
pub enum TetrominoType {
    I,
    O,
    T,
    S,
    Z,
    J,
    L,
}

/// A piece on the grid: its kind, its rotation state and the grid position of
/// the top-left corner of its bounding box. Rows grow downwards.
#[derive(Clone, Copy, Debug, PartialEq, Eq, Structural)]
pub struct Tetromino {
    pub kind: TetrominoType,
    pub rotation: usize,
    pub x: i32,
    pub y: i32,
}

/// The four offsets of one rotation state, each as (column, row).
pub type Shape = [(i32, i32); 4];

/// Column in which a new piece appears: the middle of the grid, two to the left.
pub const SPAWN_X: i32 = 3;

/// Row in which a new piece appears.
pub const SPAWN_Y: i32 = 0;

/// Every kind once, in the order in which a fresh bag is laid out.
pub const ALL_KINDS: [TetrominoType; 7] = [
    TetrominoType::I,
    TetrominoType::O,
    TetrominoType::T,
    TetrominoType::S,
    TetrominoType::Z,
    TetrominoType::J,
    TetrominoType::L,
];

/// The rotation states of the bar.
pub const SHAPES_I: [Shape; 4] = [
    [(0, 1), (1, 1), (2, 1), (3, 1)],
    [(2, 0), (2, 1), (2, 2), (2, 3)],
    [(0, 2), (1, 2), (2, 2), (3, 2)],
    [(1, 0), (1, 1), (1, 2), (1, 3)],
];

/// The rotation states of the square, all alike.
pub const SHAPES_O: [Shape; 4] = [
    [(1, 0), (2, 0), (1, 1), (2, 1)],
    [(1, 0), (2, 0), (1, 1), (2, 1)],
    [(1, 0), (2, 0), (1, 1), (2, 1)],
    [(1, 0), (2, 0), (1, 1), (2, 1)],
];

/// The rotation states of the T: stem up, right, down, left.
pub const SHAPES_T: [Shape; 4] = [
    [(1, 0), (0, 1), (1, 1), (2, 1)],
    [(1, 0), (1, 1), (2, 1), (1, 2)],
    [(0, 1), (1, 1), (2, 1), (1, 2)],
    [(1, 0), (0, 1), (1, 1), (1, 2)],
];

/// The rotation states of the S.
pub const SHAPES_S: [Shape; 4] = [
    [(1, 0), (2, 0), (0, 1), (1, 1)],
    [(1, 0), (1, 1), (2, 1), (2, 2)],
    [(1, 1), (2, 1), (0, 2), (1, 2)],
    [(0, 0), (0, 1), (1, 1), (1, 2)],
];

/// The rotation states of the Z.
pub const SHAPES_Z: [Shape; 4] = [
    [(0, 0), (1, 0), (1, 1), (2, 1)],
    [(2, 0), (1, 1), (2, 1), (1, 2)],
    [(0, 1), (1, 1), (1, 2), (2, 2)],
    [(1, 0), (0, 1), (1, 1), (0, 2)],
];

/// The rotation states of the J.
pub const SHAPES_J: [Shape; 4] = [
    [(0, 0), (0, 1), (1, 1), (2, 1)],
    [(1, 0), (2, 0), (1, 1), (1, 2)],
    [(0, 1), (1, 1), (2, 1), (2, 2)],
    [(1, 0), (1, 1), (0, 2), (1, 2)],
];

/// The rotation states of the L.
pub const SHAPES_L: [Shape; 4] = [
    [(2, 0), (0, 1), (1, 1), (2, 1)],
    [(1, 0), (1, 1), (1, 2), (2, 2)],
    [(0, 1), (1, 1), (2, 1), (0, 2)],
    [(0, 0), (1, 0), (1, 1), (1, 2)],
];

/// The rotation table of a kind: four states of four offsets each.
pub open spec fn shape_table(kind: TetrominoType) -> [Shape; 4] {
    match kind {
        TetrominoType::I => SHAPES_I,
        TetrominoType::O => SHAPES_O,
        TetrominoType::T => SHAPES_T,
        TetrominoType::S => SHAPES_S,
        TetrominoType::Z => SHAPES_Z,
        TetrominoType::J => SHAPES_J,
        TetrominoType::L => SHAPES_L,
    }
}

/// The colour in which a kind is drawn.
pub open spec fn color_of(kind: TetrominoType) -> Color {
    match kind {
        TetrominoType::I => rgba(0, 255, 255, 255),
        TetrominoType::O => rgba(255, 255, 0, 255),
        TetrominoType::T => rgba(128, 0, 128, 255),
        TetrominoType::S => rgba(0, 255, 0, 255),
        TetrominoType::Z => rgba(255, 0, 0, 255),
        TetrominoType::J => rgba(0, 0, 255, 255),
        TetrominoType::L => rgba(255, 165, 0, 255),
    }
}

/// The piece of the given kind as it enters the grid.
pub open spec fn spawned(kind: TetrominoType) -> Tetromino {
    Tetromino { kind, rotation: 0, x: SPAWN_X, y: SPAWN_Y }
}

impl TetrominoType {
    /// The kind at position `i` of [`ALL_KINDS`].
    pub fn from_index(i: usize) -> (kind: TetrominoType)
        requires
            i < 7,
        ensures
            kind == ALL_KINDS[i as int],
    {
        ALL_KINDS[i]
    }
}

impl Tetromino {
    /// Offset of block `i` in the piece's rotation state, as (column, row).
    pub open spec fn offset(self, i: int) -> (int, int) {
        let o = shape_table(self.kind)[(self.rotation % 4) as int][i];
        (o.0 as int, o.1 as int)
    }

    /// Grid cell of block `i`, as (column, row).
    pub open spec fn cell(self, i: int) -> (int, int) {
        (self.x + self.offset(i).0, self.y + self.offset(i).1)
    }

    /// Whether one of the piece's four blocks lies on the given cell.
    pub open spec fn covers(self, col: int, row: int) -> bool {
        exists|i: int| 0 <= i < 4 && #[trigger] self.cell(i) == (col, row)
    }

    /// The four rotation states of a kind.
    pub fn shapes(kind: TetrominoType) -> (table: [Shape; 4])
        ensures
            table == shape_table(kind),
            forall|r: int, i: int|
                0 <= r < 4 && 0 <= i < 4 ==> 0 <= (#[trigger] table[r][i]).0 < 4 && 0 <= table[r][i].1
                    < 4,
            forall|r: int, i: int, j: int|
                0 <= r < 4 && 0 <= i < j < 4 ==> #[trigger] table[r][i] != #[trigger] table[r][j],
    {
        proof {
            lemma_shape_table(kind);
        }
        match kind {
            TetrominoType::I => SHAPES_I,
            TetrominoType::O => SHAPES_O,
            TetrominoType::T => SHAPES_T,
            TetrominoType::S => SHAPES_S,
            TetrominoType::Z => SHAPES_Z,
            TetrominoType::J => SHAPES_J,
            TetrominoType::L => SHAPES_L,
        }
    }

    /// The four grid cells the piece covers, each as (column, row).
    pub fn blocks(&self) -> (cells: [(i64, i64); 4])
        ensures
            forall|i: int|
                0 <= i < 4 ==> ((#[trigger] cells[i]).0 as int, cells[i].1 as int) == self.cell(i),
    {
        let shape = Self::shapes(self.kind)[self.rotation % 4];
        let x = self.x as i64;
        let y = self.y as i64;
        [
            (x + shape[0].0 as i64, y + shape[0].1 as i64),
            (x + shape[1].0 as i64, y + shape[1].1 as i64),
            (x + shape[2].0 as i64, y + shape[2].1 as i64),
            (x + shape[3].0 as i64, y + shape[3].1 as i64),
        ]
    }

    /// A piece of the given kind at the spawn position, unrotated.
    pub fn spawn(kind: TetrominoType) -> (piece: Tetromino)
        ensures
            piece == spawned(kind),
    {
        Tetromino { kind, rotation: 0, x: SPAWN_X, y: SPAWN_Y }
    }

    /// A piece of a randomly drawn kind at the spawn position.
    pub fn new_random() -> (piece: Tetromino)
        ensures
            piece == spawned(piece.kind),
    {
        let i = random_below(7);
        Self::spawn(TetrominoType::from_index(i))
    }
}

/// The colour in which a kind is drawn.
pub fn kind_color(kind: TetrominoType) -> (color: Color)
    ensures
        color == color_of(kind),
{
    match kind {
        TetrominoType::I => Color::from_rgba(0, 255, 255, 255),
        TetrominoType::O => Color::from_rgba(255, 255, 0, 255),
        TetrominoType::T => Color::from_rgba(128, 0, 128, 255),
        TetrominoType::S => Color::from_rgba(0, 255, 0, 255),
        TetrominoType::Z => Color::from_rgba(255, 0, 0, 255),
        TetrominoType::J => Color::from_rgba(0, 0, 255, 255),
        TetrominoType::L => Color::from_rgba(255, 165, 0, 255),
    }
}

/// Every offset of every rotation state lies in the 4×4 box, and the four
/// offsets of a state are pairwise different.
pub proof fn lemma_shape_table(kind: TetrominoType)
    ensures
        forall|r: int, i: int|
            0 <= r < 4 && 0 <= i < 4 ==> 0 <= (#[trigger] shape_table(kind)[r][i]).0 < 4 && 0
                <= shape_table(kind)[r][i].1 < 4,
        forall|r: int, i: int, j: int|
            0 <= r < 4 && 0 <= i < j < 4 ==> #[trigger] shape_table(kind)[r][i]
                != #[trigger] shape_table(kind)[r][j],
{
    let t = shape_table(kind);
    assert forall|r: int, i: int| 0 <= r < 4 && 0 <= i < 4 implies 0 <= (#[trigger] t[r][i]).0 < 4
        && 0 <= t[r][i].1 < 4 by {
        lemma_shape_entry(kind, r, i);
    }
    assert forall|r: int, i: int, j: int| 0 <= r < 4 && 0 <= i < j < 4 implies #[trigger] t[r][i]
        != #[trigger] t[r][j] by {
        lemma_shape_distinct(kind, r, i, j);
    }
}

/// The box of each kind: O keeps to the same two by two cells in every state,
/// and every kind but I keeps to three columns and three rows.
pub proof fn lemma_shape_boxes(kind: TetrominoType, r: int, i: int)
    requires
        0 <= r < 4,
        0 <= i < 4,
    ensures
        kind != TetrominoType::I ==> shape_table(kind)[r][i].0 < 3 && shape_table(kind)[r][i].1 < 3,
        kind == TetrominoType::O ==> 1 <= shape_table(kind)[r][i].0 <= 2
            && shape_table(kind)[r][i].1 <= 1,
{
    let t = shape_table(kind);
    assert(r == 0 || r == 1 || r == 2 || r == 3);
    assert(i == 0 || i == 1 || i == 2 || i == 3);
}

proof fn lemma_shape_entry(kind: TetrominoType, r: int, i: int)
    requires
        0 <= r < 4,
        0 <= i < 4,
    ensures
        0 <= shape_table(kind)[r][i].0 < 4,
        0 <= shape_table(kind)[r][i].1 < 4,
{
    let t = shape_table(kind);
    assert(r == 0 || r == 1 || r == 2 || r == 3);
    assert(i == 0 || i == 1 || i == 2 || i == 3);
}

proof fn lemma_shape_distinct(kind: TetrominoType, r: int, i: int, j: int)
    requires
        0 <= r < 4,
        0 <= i < j < 4,
    ensures
        shape_table(kind)[r][i] != shape_table(kind)[r][j],
{
    let t = shape_table(kind);
    assert(r == 0 || r == 1 || r == 2 || r == 3);
    assert(i == 0 || i == 1 || i == 2);
    assert(j == 1 || j == 2 || j == 3);
}

} // verus!
