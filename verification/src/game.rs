//! One session of play: the board, the falling piece, the supply of upcoming
//! pieces, the score, and the rules by which a frame changes them.
//!
//! Time is counted in whole microseconds. A session has no end: a piece that
//! enters onto locked cells is played on like any other.

use vstd::prelude::*;
use macroquad::color::Color;
use crate::board::{
    cell_free, cleared, empty_grid, full_rows, grid_wf, in_bounds, lemma_clear_without_full_row,
    lemma_cleared_wf, locked, on_grid, row_full, valid_position, Board, Grid,
};
use crate::input::InputState;
use crate::supply::{bagged, fill_bag, is_full_bag, window, SupplyQueue, BAG_SIZE};
use crate::tetromino::{
    color_of, kind_color, lemma_shape_table, spawned, Tetromino, TetrominoType,
};
use crate::{COLS, ROWS};

verus! {

/// Time after which the falling piece descends by itself, in microseconds.
pub const DROP_INTERVAL: u64 = 500_000;

/// Time for which a direction must be held before it repeats, in microseconds.
pub const DAS: u64 = 150_000;

/// Time between two repeats of a held direction, in microseconds.
pub const ARR: u64 = 120_000;

/// Number of upcoming pieces that the session keeps ready.
pub const QUEUE_SIZE: usize = 5;

/// Points for each cleared row.
pub const LINE_SCORE: usize = 100;

/// Points for each row of a hard drop.
pub const HARD_DROP_SCORE: usize = 2;

/// No frame adds more than this to the score: the points of a hard drop over
/// 23 rows and of 20 cleared rows.
pub const MAX_FRAME_SCORE: usize = 2046;

/// What a session consists of.
pub struct GameView {
    pub board: Grid,
    pub current: Tetromino,
    pub score: nat,
    pub drop_timer: nat,
    pub left_timer: nat,
    pub right_timer: nat,
    /// The pieces that wait, the next one first.
    pub upcoming: Seq<TetrominoType>,
    /// The pieces that were taken from the queue so far.
    pub popped: Seq<TetrominoType>,
    /// What is left of the bag from which the queue is fed.
    pub in_bag: Seq<TetrominoType>,
}

impl GameView {
    /// The state that holds between frames: the piece stands on the grid, the
    /// timers are below their thresholds and the queue is filled.
    pub open spec fn wf(self) -> bool {
        &&& grid_wf(self.board)
        &&& on_grid(self.current)
        &&& self.current.rotation < 4
        &&& self.drop_timer < DROP_INTERVAL
        &&& self.left_timer < DAS + ARR
        &&& self.right_timer < DAS + ARR
        &&& self.upcoming.len() == QUEUE_SIZE
        &&& bagged(self.popped + self.upcoming, self.in_bag)
    }
}

/// The piece moved by the given numbers of columns and rows.
pub open spec fn shifted(piece: Tetromino, dx: int, dy: int) -> Tetromino {
    Tetromino { x: (piece.x + dx) as i32, y: (piece.y + dy) as i32, ..piece }
}

/// The piece in its next rotation state.
pub open spec fn turned(piece: Tetromino) -> Tetromino {
    Tetromino { rotation: ((piece.rotation + 1) % 4) as usize, ..piece }
}

/// The candidate where it may stand, else the piece as it was.
pub open spec fn committed(grid: Grid, piece: Tetromino, candidate: Tetromino) -> Tetromino {
    if valid_position(grid, candidate) {
        candidate
    } else {
        piece
    }
}

/// The timer of a direction after a frame: zero while the key is up, pinned to
/// the delay after a repeat, else grown by the frame's time.
pub open spec fn repeat_timer(timer: nat, held: bool, elapsed: nat) -> nat {
    if !held {
        0
    } else if timer + elapsed >= DAS + ARR {
        DAS as nat
    } else {
        timer + elapsed
    }
}

/// A held direction moves at once in the frame in which its timer starts.
pub open spec fn moves_at_once(timer: nat, held: bool) -> bool {
    held && timer == 0
}

/// A held direction repeats in the frame in which its timer has run for the
/// delay and one more interval.
pub open spec fn repeats(timer: nat, held: bool, elapsed: nat) -> bool {
    held && timer + elapsed >= DAS + ARR
}

/// The piece after the repeat machinery of one direction: one step where the
/// direction moves at once, and one more where it repeats.
pub open spec fn after_repeat(
    grid: Grid,
    piece: Tetromino,
    dx: int,
    at_once: bool,
    again: bool,
) -> Tetromino {
    let first = if at_once {
        committed(grid, piece, shifted(piece, dx, 0))
    } else {
        piece
    };
    if again {
        committed(grid, first, shifted(first, dx, 0))
    } else {
        first
    }
}

/// The piece after the player's part of a frame: the repeats of both
/// directions, one more step for each held direction, the rotation and the
/// soft drop, each taken only where the piece may stand. A held direction is
/// thus stepped in every frame, and twice in a frame in which its timer starts
/// or repeats.
pub open spec fn steered(v: GameView, input: InputState, elapsed: nat) -> Tetromino {
    let grid = v.board;
    let a = after_repeat(
        grid,
        v.current,
        -1,
        moves_at_once(v.left_timer, input.left),
        repeats(v.left_timer, input.left, elapsed),
    );
    let b = after_repeat(
        grid,
        a,
        1,
        moves_at_once(v.right_timer, input.right),
        repeats(v.right_timer, input.right, elapsed),
    );
    let c = if input.left {
        committed(grid, b, shifted(b, -1, 0))
    } else {
        b
    };
    let d = if input.right {
        committed(grid, c, shifted(c, 1, 0))
    } else {
        c
    };
    let e = if input.rotate {
        committed(grid, d, turned(d))
    } else {
        d
    };
    if input.down {
        committed(grid, e, shifted(e, 0, 1))
    } else {
        e
    }
}

/// The session after its piece came to rest: the piece is locked in its
/// colour, full rows are cleared and paid for, `bonus` is added, and the next
/// piece of the queue enters. The queue is one short.
pub open spec fn settled(v: GameView, bonus: nat) -> GameView {
    let grid = locked(v.board, v.current, color_of(v.current.kind));
    GameView {
        board: cleared(grid),
        score: (v.score + bonus + LINE_SCORE * full_rows(grid)) as nat,
        current: spawned(v.upcoming[0]),
        upcoming: v.upcoming.drop_first(),
        popped: v.popped.push(v.upcoming[0]),
        ..v
    }
}

/// The session after gravity had its turn.
pub open spec fn with_gravity(v: GameView, elapsed: nat) -> GameView {
    if v.drop_timer + elapsed < DROP_INTERVAL {
        GameView { drop_timer: v.drop_timer + elapsed, ..v }
    } else if valid_position(v.board, shifted(v.current, 0, 1)) {
        GameView { current: shifted(v.current, 0, 1), drop_timer: 0, ..v }
    } else {
        GameView { drop_timer: 0, ..settled(v, 0) }
    }
}

/// Number of rows that the piece can fall before the row below fails.
pub open spec fn drop_distance(grid: Grid, piece: Tetromino) -> nat
    decreases ROWS - piece.y,
{
    if piece.y < ROWS && valid_position(grid, shifted(piece, 0, 1)) {
        1 + drop_distance(grid, shifted(piece, 0, 1))
    } else {
        0
    }
}

/// The session after a hard drop: the piece falls as far as it can, each row
/// is paid for, and the piece comes to rest.
pub open spec fn hard_dropped(v: GameView) -> GameView {
    let rows = drop_distance(v.board, v.current);
    settled(
        GameView { current: shifted(v.current, 0, rows as int), ..v },
        (HARD_DROP_SCORE * rows) as nat,
    )
}

/// The session after one frame, but for the refill of the queue. A hard drop
/// is the whole frame; else the player's moves come first and gravity last.
pub open spec fn stepped(v: GameView, input: InputState, elapsed: nat) -> GameView {
    if input.hard_drop {
        hard_dropped(v)
    } else {
        with_gravity(
            GameView {
                current: steered(v, input, elapsed),
                left_timer: repeat_timer(v.left_timer, input.left, elapsed),
                right_timer: repeat_timer(v.right_timer, input.right, elapsed),
                ..v
            },
            elapsed,
        )
    }
}

/// `after` is `planned` with the queue filled up again: all else is equal, and
/// the queue begins with what was planned.
pub open spec fn refilled(after: GameView, planned: GameView) -> bool {
    &&& after.board == planned.board
    &&& after.current == planned.current
    &&& after.score == planned.score
    &&& after.drop_timer == planned.drop_timer
    &&& after.left_timer == planned.left_timer
    &&& after.right_timer == planned.right_timer
    &&& after.popped == planned.popped
    &&& planned.upcoming.len() <= after.upcoming.len()
    &&& after.upcoming.subrange(0, planned.upcoming.len() as int) == planned.upcoming
}

/// A piece on the grid has its corner within four cells of it.
pub proof fn lemma_on_grid_bounds(piece: Tetromino)
    requires
        on_grid(piece),
    ensures
        -4 < piece.x < COLS,
        -4 < piece.y < ROWS,
{
    lemma_shape_table(piece.kind);
    assert(in_bounds(piece.cell(0).0, piece.cell(0).1));
    assert(0 <= piece.offset(0).0 < 4 && 0 <= piece.offset(0).1 < 4);
}

/// A piece that has just entered stands on the grid.
pub proof fn lemma_spawned_on_grid(kind: TetrominoType)
    ensures
        on_grid(spawned(kind)),
        spawned(kind).rotation < 4,
{
    lemma_shape_table(kind);
    let piece = spawned(kind);
    assert forall|i: int| 0 <= i < 4
        implies in_bounds((#[trigger] piece.cell(i)).0, piece.cell(i).1) by {
        assert(0 <= piece.offset(i).0 < 4 && 0 <= piece.offset(i).1 < 4);
    }
}

/// The next value of a direction's timer, whether the direction moves at once
/// and whether it repeats.
pub fn advance_repeat(timer: u64, held: bool, elapsed: u64) -> (out: (u64, bool, bool))
    ensures
        out.0 == repeat_timer(timer as nat, held, elapsed as nat),
        out.1 == moves_at_once(timer as nat, held),
        out.2 == repeats(timer as nat, held, elapsed as nat),
        timer < DAS + ARR ==> out.0 < DAS + ARR,
{
    if !held {
        (0, false, false)
    } else {
        let grown = timer.saturating_add(elapsed);
        if grown >= DAS + ARR {
            (DAS, timer == 0, true)
        } else {
            (grown, timer == 0, false)
        }
    }
}

/// A session of play.
pub struct Game {
    board: Board,
    current: Tetromino,
    drop_timer: u64,
    score: usize,
    next_queue: SupplyQueue,
    left_timer: u64,
    right_timer: u64,
}

impl View for Game {
    type V = GameView;

    closed spec fn view(&self) -> GameView {
        GameView {
            board: self.board@,
            current: self.current,
            score: self.score as nat,
            drop_timer: self.drop_timer as nat,
            left_timer: self.left_timer as nat,
            right_timer: self.right_timer as nat,
            upcoming: self.next_queue.upcoming(),
            popped: self.next_queue.popped(),
            in_bag: self.next_queue.in_bag(),
        }
    }
}

impl Game {
    /// The state in which every session is between two frames.
    pub open spec fn wf(&self) -> bool {
        self@.wf()
    }

    /// A session that begins on the given board with the given piece: no
    /// score, all timers at zero and a filled queue. There is none where the
    /// piece does not stand on the grid in one of the four rotation states.
    pub fn with_board(board: Board, first: Tetromino) -> (game: Option<Game>)
        ensures
            game is Some <==> on_grid(first) && first.rotation < 4,
            game matches Some(g) ==> {
                &&& g.wf()
                &&& g@.board == board@
                &&& g@.current == first
                &&& g@.score == 0
                &&& g@.drop_timer == 0
                &&& g@.left_timer == 0
                &&& g@.right_timer == 0
                &&& g@.popped == Seq::<TetrominoType>::empty()
            },
    {
        let empty = Board::new();
        proof {
            board.lemma_view_wf();
        }
        if first.rotation >= 4 || !empty.is_valid_position(&first) {
            return None;
        }
        let mut next_queue = SupplyQueue::new();
        fill_bag(&mut next_queue, QUEUE_SIZE);
        Some(
            Game {
                board,
                current: first,
                drop_timer: 0,
                score: 0,
                next_queue,
                left_timer: 0,
                right_timer: 0,
            },
        )
    }

    /// A fresh session: an empty board and a randomly drawn first piece.
    pub fn new() -> (game: Game)
        ensures
            game.wf(),
            game@.board == empty_grid(),
            game@.current == spawned(game@.current.kind),
            game@.score == 0,
            game@.drop_timer == 0,
            game@.left_timer == 0,
            game@.right_timer == 0,
            game@.popped == Seq::<TetrominoType>::empty(),
    {
        let first = Tetromino::new_random();
        proof {
            lemma_spawned_on_grid(first.kind);
        }
        Self::with_board(Board::new(), first).unwrap()
    }

    /// The locked cells.
    pub fn board(&self) -> (board: &Board)
        ensures
            board@ == self@.board,
    {
        &self.board
    }

    /// The falling piece.
    pub fn current(&self) -> (piece: Tetromino)
        ensures
            piece == self@.current,
    {
        self.current
    }

    /// The score.
    pub fn score(&self) -> (score: usize)
        ensures
            score == self@.score,
    {
        self.score
    }

    /// The queue of upcoming pieces.
    pub fn next_queue(&self) -> (queue: &SupplyQueue)
        ensures
            queue.upcoming() == self@.upcoming,
            queue.popped() == self@.popped,
            queue.in_bag() == self@.in_bag,
    {
        &self.next_queue
    }

    /// Moves the piece by one column where it may stand there.
    fn try_move(&mut self, dx: i32)
        requires
            old(self).wf(),
            dx == -1 || dx == 1,
        ensures
            final(self).wf(),
            final(self)@ == (GameView {
                current: committed(
                    old(self)@.board,
                    old(self)@.current,
                    shifted(old(self)@.current, dx as int, 0),
                ),
                ..old(self)@
            }),
    {
        proof {
            lemma_on_grid_bounds(self.current);
        }
        let mut cand = self.current;
        cand.x += dx;
        if self.board.is_valid_position(&cand) {
            self.current = cand;
        }
    }

    /// Turns the piece to its next rotation state where it may stand so.
    fn try_rotate(&mut self)
        requires
            old(self).wf(),
        ensures
            final(self).wf(),
            final(self)@ == (GameView {
                current: committed(old(self)@.board, old(self)@.current, turned(old(self)@.current)),
                ..old(self)@
            }),
    {
        let mut cand = self.current;
        cand.rotation = (cand.rotation + 1) % 4;
        if self.board.is_valid_position(&cand) {
            self.current = cand;
        }
    }

    /// Moves the piece down by one row where it may stand there, and says
    /// whether it did.
    fn try_fall(&mut self) -> (fell: bool)
        requires
            old(self).wf(),
        ensures
            final(self).wf(),
            fell == valid_position(old(self)@.board, shifted(old(self)@.current, 0, 1)),
            final(self)@ == (GameView {
                current: committed(
                    old(self)@.board,
                    old(self)@.current,
                    shifted(old(self)@.current, 0, 1),
                ),
                ..old(self)@
            }),
    {
        proof {
            lemma_on_grid_bounds(self.current);
        }
        let mut cand = self.current;
        cand.y += 1;
        if self.board.is_valid_position(&cand) {
            self.current = cand;
            true
        } else {
            false
        }
    }

    /// Brings the piece to rest where it stands and lets the next one enter.
    fn settle(&mut self, bonus: usize)
        requires
            old(self).wf(),
            bonus <= HARD_DROP_SCORE * (ROWS + 3),
            old(self)@.score + MAX_FRAME_SCORE <= usize::MAX,
        ensures
            final(self).wf(),
            refilled(final(self)@, settled(old(self)@, bonus as nat)),
    {
        let ghost before = self@;
        let color = kind_color(self.current.kind);
        self.board.lock_tetromino(&self.current, color);
        let ghost grid = self.board@;
        proof {
            self.board.lemma_view_wf();
            lemma_cleared_wf(grid);
        }
        let lines = self.board.clear_full_lines();
        self.score = self.score + bonus + lines * LINE_SCORE;
        match self.next_queue.pop() {
            Some(next) => {
                self.current = Tetromino::spawn(next);
                proof {
                    lemma_spawned_on_grid(next);
                }
            },
            None => {},
        }
        let ghost short = self.next_queue.upcoming();
        fill_bag(&mut self.next_queue, QUEUE_SIZE);
        proof {
            assert(short == before.upcoming.drop_first());
        }
    }

    /// Drops the piece as far as it can fall and brings it to rest there.
    fn hard_drop(&mut self)
        requires
            old(self).wf(),
            old(self)@.score + MAX_FRAME_SCORE <= usize::MAX,
        ensures
            final(self).wf(),
            refilled(final(self)@, hard_dropped(old(self)@)),
    {
        let ghost before = self@;
        let mut rows: usize = 0;
        proof {
            lemma_on_grid_bounds(self.current);
        }
        loop
            invariant
                self.wf(),
                self@ == (GameView { current: shifted(before.current, 0, rows as int), ..before }),
                before.wf(),
                rows + drop_distance(before.board, self@.current)
                    == drop_distance(before.board, before.current),
                rows <= self@.current.y + 3,
            ensures
                drop_distance(before.board, self@.current) == 0,
            decreases ROWS - self.current.y,
        {
            proof {
                lemma_on_grid_bounds(self.current);
            }
            if !self.try_fall() {
                break;
            }
            rows += 1;
        }
        proof {
            lemma_on_grid_bounds(self.current);
        }
        self.settle(rows * HARD_DROP_SCORE);
    }

    /// The repeat machinery of one direction: a step where the direction moves
    /// at once, and one more where it repeats.
    fn repeat_moves(&mut self, dx: i32, at_once: bool, again: bool)
        requires
            old(self).wf(),
            dx == -1 || dx == 1,
        ensures
            final(self).wf(),
            final(self)@ == (GameView {
                current: after_repeat(
                    old(self)@.board,
                    old(self)@.current,
                    dx as int,
                    at_once,
                    again,
                ),
                ..old(self)@
            }),
    {
        if at_once {
            self.try_move(dx);
        }
        if again {
            self.try_move(dx);
        }
    }

    /// The player's part of a frame.
    fn steer(&mut self, input: &InputState, elapsed: u64)
        requires
            old(self).wf(),
        ensures
            final(self).wf(),
            final(self)@ == (GameView {
                current: steered(old(self)@, *input, elapsed as nat),
                left_timer: repeat_timer(old(self)@.left_timer, input.left, elapsed as nat),
                right_timer: repeat_timer(old(self)@.right_timer, input.right, elapsed as nat),
                ..old(self)@
            }),
    {
        let (left_timer, at_once, again) = advance_repeat(self.left_timer, input.left, elapsed);
        self.repeat_moves(-1, at_once, again);
        let (right_timer, at_once, again) = advance_repeat(self.right_timer, input.right, elapsed);
        self.repeat_moves(1, at_once, again);
        self.left_timer = left_timer;
        self.right_timer = right_timer;
        if input.left {
            self.try_move(-1);
        }
        if input.right {
            self.try_move(1);
        }
        if input.rotate {
            self.try_rotate();
        }
        if input.down {
            self.try_fall();
        }
    }

    /// Gravity's part of a frame: once the drop interval has run, the piece
    /// descends, or comes to rest where it cannot.
    fn apply_gravity(&mut self, elapsed: u64)
        requires
            old(self).wf(),
            old(self)@.score + MAX_FRAME_SCORE <= usize::MAX,
        ensures
            final(self).wf(),
            refilled(final(self)@, with_gravity(old(self)@, elapsed as nat)),
    {
        let waited = self.drop_timer.saturating_add(elapsed);
        if waited >= DROP_INTERVAL {
            self.drop_timer = 0;
            if !self.try_fall() {
                self.settle(0);
            }
        } else {
            self.drop_timer = waited;
        }
        proof {
            let planned = with_gravity(old(self)@, elapsed as nat);
            assert(self@.upcoming.subrange(0, planned.upcoming.len() as int) =~= planned.upcoming);
        }
    }

    /// Plays one frame: `input` is what the player holds and presses, and
    /// `elapsed` the time since the frame before, in microseconds. The score
    /// must leave room for what a frame can add.
    pub fn update(&mut self, input: &InputState, elapsed: u64)
        requires
            old(self).wf(),
            old(self)@.score + MAX_FRAME_SCORE <= usize::MAX,
        ensures
            final(self).wf(),
            refilled(final(self)@, stepped(old(self)@, *input, elapsed as nat)),
    {
        if input.hard_drop {
            self.hard_drop();
        } else {
            self.steer(input, elapsed);
            self.apply_gravity(elapsed);
        }
    }
}

/// The largest row offset among the piece's blocks: how far its lowest block
/// lies below its corner.
pub open spec fn depth(piece: Tetromino) -> int {
    let a = piece.offset(0).1;
    let b = piece.offset(1).1;
    let c = piece.offset(2).1;
    let d = piece.offset(3).1;
    let ab = if a >= b {
        a
    } else {
        b
    };
    let cd = if c >= d {
        c
    } else {
        d
    };
    if ab >= cd {
        ab
    } else {
        cd
    }
}

/// A hard drop ends on the last row in which the piece may stand: it may
/// stand in every row it falls through, and not in the row below the last.
pub proof fn lemma_drop_distance_lands(grid: Grid, piece: Tetromino)
    requires
        on_grid(piece),
    ensures
        piece.y + drop_distance(grid, piece) < ROWS,
        forall|k: int|
            1 <= k <= drop_distance(grid, piece)
                ==> valid_position(grid, #[trigger] shifted(piece, 0, k)),
        !valid_position(grid, shifted(piece, 0, drop_distance(grid, piece) as int + 1)),
    decreases ROWS - piece.y,
{
    lemma_on_grid_bounds(piece);
    let below = shifted(piece, 0, 1);
    if valid_position(grid, below) {
        lemma_drop_distance_lands(grid, below);
        let rest = drop_distance(grid, below) as int;
        assert forall|k: int| 1 <= k <= rest + 1
            implies valid_position(grid, #[trigger] shifted(piece, 0, k)) by {
            if k > 1 {
                assert(shifted(piece, 0, k) == shifted(below, 0, k - 1));
            }
        }
        assert(shifted(piece, 0, rest + 2) == shifted(below, 0, rest + 1));
    }
}

/// On an empty board a piece falls until its lowest block lies on the floor.
pub proof fn lemma_drop_on_empty_board(piece: Tetromino)
    requires
        on_grid(piece),
    ensures
        drop_distance(empty_grid(), piece) == ROWS - 1 - (piece.y + depth(piece)),
    decreases ROWS - piece.y,
{
    lemma_on_grid_bounds(piece);
    lemma_shape_table(piece.kind);
    let below = shifted(piece, 0, 1);
    assert(forall|i: int|
        0 <= i < 4 ==> #[trigger] below.cell(i) == (piece.cell(i).0, piece.cell(i).1 + 1));
    assert(piece.cell(0).1 < ROWS && piece.cell(1).1 < ROWS && piece.cell(2).1 < ROWS
        && piece.cell(3).1 < ROWS);
    if piece.y + depth(piece) < ROWS - 1 {
        assert forall|i: int| 0 <= i < 4
            implies cell_free(empty_grid(), (#[trigger] below.cell(i)).0, below.cell(i).1) by {
            assert(in_bounds(piece.cell(i).0, piece.cell(i).1));
            assert(i == 0 || i == 1 || i == 2 || i == 3);
        }
        assert(depth(below) == depth(piece));
        lemma_drop_on_empty_board(below);
    } else {
        let low: int = if piece.offset(0).1 == depth(piece) {
            0
        } else if piece.offset(1).1 == depth(piece) {
            1
        } else if piece.offset(2).1 == depth(piece) {
            2
        } else {
            3
        };
        assert(below.cell(low).1 >= ROWS);
        assert(!cell_free(empty_grid(), below.cell(low).0, below.cell(low).1));
    }
}

/// A piece locked on an empty board fills no row.
pub proof fn lemma_lock_on_empty_board(piece: Tetromino, color: Color)
    ensures
        full_rows(locked(empty_grid(), piece, color)) == 0,
        cleared(locked(empty_grid(), piece, color)) == locked(empty_grid(), piece, color),
{
    let grid = locked(empty_grid(), piece, color);
    lemma_shape_table(piece.kind);
    let free: int = if piece.x > 0 {
        0
    } else {
        COLS - 1
    };
    assert forall|r: int| 0 <= r < ROWS implies !row_full(#[trigger] grid[r]) by {
        if piece.covers(free, r) {
            let i = choose|i: int| 0 <= i < 4 && #[trigger] piece.cell(i) == (free, r);
            assert(0 <= piece.offset(i).0 < 4);
        }
        assert(grid[r][free] is None);
    }
    lemma_clear_without_full_row(grid);
}

/// A hard drop onto an empty board brings the piece to rest with its lowest
/// block on the floor, clears nothing, and pays two points for each row that
/// the piece fell.
pub proof fn lemma_hard_drop_on_empty_board(v: GameView)
    requires
        v.wf(),
        v.board == empty_grid(),
    ensures
        ({
            let rows = ROWS - 1 - (v.current.y + depth(v.current));
            let landed = shifted(v.current, 0, rows);
            &&& rows == drop_distance(v.board, v.current)
            &&& landed.y + depth(landed) == ROWS - 1
            &&& hard_dropped(v).board == locked(empty_grid(), landed, color_of(v.current.kind))
            &&& hard_dropped(v).score == v.score + HARD_DROP_SCORE * rows
            &&& hard_dropped(v).current == spawned(v.upcoming[0])
        }),
{
    lemma_drop_on_empty_board(v.current);
    lemma_on_grid_bounds(v.current);
    let rows = ROWS - 1 - (v.current.y + depth(v.current));
    let landed = shifted(v.current, 0, rows);
    lemma_lock_on_empty_board(landed, color_of(v.current.kind));
}

/// A rotation whose footprint would leave the grid is not taken.
pub proof fn lemma_rotation_off_grid(grid: Grid, piece: Tetromino)
    requires
        !on_grid(turned(piece)),
    ensures
        committed(grid, piece, turned(piece)) == piece,
{
    let cand = turned(piece);
    if valid_position(grid, cand) {
        assert forall|i: int| 0 <= i < 4
            implies in_bounds((#[trigger] cand.cell(i)).0, cand.cell(i).1) by {
            assert(cell_free(grid, cand.cell(i).0, cand.cell(i).1));
        }
    }
}

/// In a frame in which the player only presses rotate and gravity does not
/// fire, a piece whose next rotation state would leave the grid stays as it is.
pub proof fn lemma_blocked_rotation_keeps_piece(v: GameView, input: InputState, elapsed: nat)
    requires
        input.rotate,
        !input.left && !input.right && !input.down && !input.hard_drop,
        v.drop_timer + elapsed < DROP_INTERVAL,
        !on_grid(turned(v.current)),
    ensures
        stepped(v, input, elapsed).current == v.current,
{
    lemma_rotation_off_grid(v.board, v.current);
}

/// The pieces that entered play from the queue came bag by bag: any seven in a
/// row, counted in sevens from the first, are one of each kind.
pub proof fn lemma_entered_pieces_come_in_bags(v: GameView, w: int)
    requires
        v.wf(),
        0 <= w,
        BAG_SIZE * w + BAG_SIZE <= v.popped.len(),
    ensures
        is_full_bag(window(v.popped, w)),
{
    assert(window(v.popped, w) =~= window(v.popped + v.upcoming, w));
}

/// No frame moves or turns the piece to a place where it may not stand: after
/// a frame the piece is as it was, or stands validly on the board as it was
/// before the frame, or has just entered.
pub proof fn lemma_moves_are_validated(v: GameView, input: InputState, elapsed: nat)
    ensures
        ({
            let after = stepped(v, input, elapsed);
            ||| after.current == v.current
            ||| valid_position(v.board, after.current)
            ||| after.current == spawned(v.upcoming[0])
        }),
{
}

/// A direction's timer stands at zero after a frame in which its key was up,
/// and the drop timer after a frame in which gravity had its turn. A hard drop
/// leaves the timers as they were.
pub proof fn lemma_timers_reset(v: GameView, input: InputState, elapsed: nat)
    ensures
        ({
            let after = stepped(v, input, elapsed);
            &&& !input.hard_drop && !input.left ==> after.left_timer == 0
            &&& !input.hard_drop && !input.right ==> after.right_timer == 0
            &&& !input.hard_drop && v.drop_timer + elapsed >= DROP_INTERVAL ==> after.drop_timer
                == 0
            &&& input.hard_drop ==> after.left_timer == v.left_timer && after.right_timer
                == v.right_timer && after.drop_timer == v.drop_timer
        }),
{
}

/// No frame lowers the score.
pub proof fn lemma_score_never_falls(v: GameView, input: InputState, elapsed: nat)
    ensures
        stepped(v, input, elapsed).score >= v.score,
{
}

} // verus!
