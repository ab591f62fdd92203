//! Tetris on a 10 by 20 board: pieces fall one row per gravity interval,
//! can be moved and rotated, lock when they land, and full rows are cleared.
use vstd::prelude::*;
use crate::apps::{AppKey, AppLine, AppMode, AppOutput, AppRuntime, OutputView, SegmentView, app_lines_view, output_view, plain_line};
use crate::random::{RandomSource, next_state};
use crate::text::{decimal, owned, one_line, push_decimal, push_str, repeat, repeat_str, string_of, strings_view};

verus! {

pub const WIDTH: i32 = 10;

pub const HEIGHT: i32 = 20;

/// The number of cells on the board.
pub const CELLS: usize = 200;

#[derive(Clone, Copy, PartialEq, Eq, Structural, Debug)]
pub enum Tetromino {
    I,
    O,
    T,
    S,
    Z,
    J,
    L,
}

/// The falling piece: its kind, rotation and the board position of the top
/// left corner of its 4 by 4 frame.
#[derive(Clone, Copy, PartialEq, Eq, Structural, Debug)]
pub struct ActivePiece {
    pub kind: Tetromino,
    pub rotation: u8,
    pub x: i32,
    pub y: i32,
}

pub type Board = Seq<Option<Tetromino>>;

pub open spec fn start_lines() -> Seq<Seq<char>> {
    seq![
        "tetris started"@,
        "left/right move, up rotates, down drops faster"@,
        "press `escape` to leave"@,
    ]
}

/// The four cells a piece covers within its frame.
pub open spec fn piece_cells(kind: Tetromino, rotation: u8) -> Seq<(i32, i32)> {
    match (kind, rotation % 4) {
        (Tetromino::I, 0) => seq![(0i32, 1i32), (1, 1), (2, 1), (3, 1)],
        (Tetromino::I, 1) => seq![(2i32, 0i32), (2, 1), (2, 2), (2, 3)],
        (Tetromino::I, 2) => seq![(0i32, 2i32), (1, 2), (2, 2), (3, 2)],
        (Tetromino::I, _) => seq![(1i32, 0i32), (1, 1), (1, 2), (1, 3)],
        (Tetromino::O, _) => seq![(1i32, 0i32), (2, 0), (1, 1), (2, 1)],
        (Tetromino::T, 0) => seq![(1i32, 0i32), (0, 1), (1, 1), (2, 1)],
        (Tetromino::T, 1) => seq![(1i32, 0i32), (1, 1), (2, 1), (1, 2)],
        (Tetromino::T, 2) => seq![(0i32, 1i32), (1, 1), (2, 1), (1, 2)],
        (Tetromino::T, _) => seq![(1i32, 0i32), (0, 1), (1, 1), (1, 2)],
        (Tetromino::S, 0) => seq![(1i32, 0i32), (2, 0), (0, 1), (1, 1)],
        (Tetromino::S, 1) => seq![(1i32, 0i32), (1, 1), (2, 1), (2, 2)],
        (Tetromino::S, 2) => seq![(1i32, 1i32), (2, 1), (0, 2), (1, 2)],
        (Tetromino::S, _) => seq![(0i32, 0i32), (0, 1), (1, 1), (1, 2)],
        (Tetromino::Z, 0) => seq![(0i32, 0i32), (1, 0), (1, 1), (2, 1)],
        (Tetromino::Z, 1) => seq![(2i32, 0i32), (1, 1), (2, 1), (1, 2)],
        (Tetromino::Z, 2) => seq![(0i32, 1i32), (1, 1), (1, 2), (2, 2)],
        (Tetromino::Z, _) => seq![(1i32, 0i32), (0, 1), (1, 1), (0, 2)],
        (Tetromino::J, 0) => seq![(0i32, 0i32), (0, 1), (1, 1), (2, 1)],
        (Tetromino::J, 1) => seq![(1i32, 0i32), (2, 0), (1, 1), (1, 2)],
        (Tetromino::J, 2) => seq![(0i32, 1i32), (1, 1), (2, 1), (2, 2)],
        (Tetromino::J, _) => seq![(1i32, 0i32), (1, 1), (0, 2), (1, 2)],
        (Tetromino::L, 0) => seq![(2i32, 0i32), (0, 1), (1, 1), (2, 1)],
        (Tetromino::L, 1) => seq![(1i32, 0i32), (1, 1), (1, 2), (2, 2)],
        (Tetromino::L, 2) => seq![(0i32, 1i32), (1, 1), (2, 1), (0, 2)],
        (Tetromino::L, _) => seq![(0i32, 0i32), (1, 0), (1, 1), (1, 2)],
    }
}

/// Whether the board cell `(x, y)` is a wall or already filled.
pub open spec fn blocked(b: Board, x: int, y: int) -> bool {
    x < 0 || x >= WIDTH || y < 0 || y >= HEIGHT || b[y * WIDTH + x] is Some
}

/// The board position of the `i`-th cell of a piece.
pub open spec fn piece_cell(p: ActivePiece, i: int) -> (int, int) {
    let c = piece_cells(p.kind, p.rotation)[i];
    (p.x + c.0, p.y + c.1)
}

/// Whether a piece overlaps a wall, the floor or a filled cell.
pub open spec fn collides(b: Board, p: ActivePiece) -> bool {
    exists|i: int| 0 <= i < 4 && #[trigger] blocked(b, piece_cell(p, i).0, piece_cell(p, i).1)
}

/// Whether a piece covers the board cell `(x, y)`.
pub open spec fn covers(p: ActivePiece, x: int, y: int) -> bool {
    exists|i: int| 0 <= i < 4 && #[trigger] piece_cell(p, i) == (x, y)
}

/// A fresh piece at the top of the board.
pub open spec fn spawned(kind: Tetromino) -> ActivePiece {
    ActivePiece { kind, rotation: 0, x: 3, y: 0 }
}

pub open spec fn moved(p: ActivePiece, dx: int, dy: int) -> ActivePiece {
    ActivePiece { x: (p.x + dx) as i32, y: (p.y + dy) as i32, ..p }
}

/// The horizontal shifts tried, in order, when a rotation does not fit.
pub open spec fn kick(i: int) -> i32 {
    if i == 0 {
        0
    } else if i == 1 {
        -1i32
    } else if i == 2 {
        1
    } else if i == 3 {
        -2i32
    } else {
        2
    }
}

/// The piece turned once, shifted by the `i`-th kick.
pub open spec fn rotated(p: ActivePiece, i: int) -> ActivePiece {
    ActivePiece { rotation: ((p.rotation + 1) % 4) as u8, x: (p.x + kick(i)) as i32, ..p }
}

/// The result of a rotation from the `i`-th kick on: the first kicked
/// rotation that fits, or the piece unchanged.
pub open spec fn rotate_from(b: Board, p: ActivePiece, i: nat) -> ActivePiece
    decreases 5 - i,
{
    if i >= 5 {
        p
    } else if !collides(b, rotated(p, i as int)) {
        rotated(p, i as int)
    } else {
        rotate_from(b, p, i + 1)
    }
}

/// The board with the piece written into it.
pub open spec fn locked(b: Board, p: ActivePiece) -> Board {
    Seq::new(
        b.len(),
        |k: int| if covers(p, k % WIDTH as int, k / WIDTH as int) { Some(p.kind) } else { b[k] },
    )
}

pub open spec fn row_full(b: Board, y: int) -> bool {
    forall|x: int| 0 <= x < WIDTH ==> (#[trigger] b[y * WIDTH + x]) is Some
}

pub open spec fn row(b: Board, y: int) -> Board {
    b.subrange(y * WIDTH, y * WIDTH + WIDTH)
}

/// The cells of the rows among the first `n` that are not full, top to
/// bottom.
pub open spec fn kept_rows(b: Board, n: nat) -> Board
    decreases n,
{
    if n == 0 {
        Seq::empty()
    } else if row_full(b, n - 1) {
        kept_rows(b, (n - 1) as nat)
    } else {
        kept_rows(b, (n - 1) as nat) + row(b, n - 1)
    }
}

/// How many of the first `n` rows are full.
pub open spec fn full_rows(b: Board, n: nat) -> nat
    decreases n,
{
    if n == 0 {
        0
    } else if row_full(b, n - 1) {
        full_rows(b, (n - 1) as nat) + 1
    } else {
        full_rows(b, (n - 1) as nat)
    }
}

/// The board after its full rows are removed and the rest fall down.
pub open spec fn cleared(b: Board) -> Board {
    Seq::new((full_rows(b, HEIGHT as nat) * WIDTH) as nat, |k: int| None::<Tetromino>) + kept_rows(
        b,
        HEIGHT as nat,
    )
}

pub open spec fn line_score(lines: nat) -> u32 {
    if lines == 1 {
        40
    } else if lines == 2 {
        100
    } else if lines == 3 {
        300
    } else if lines == 4 {
        1200
    } else {
        0
    }
}

pub open spec fn level_of(lines_cleared: u32) -> u32 {
    (lines_cleared / 10 + 1) as u32
}

/// Ticks per gravity step: seven on level one, one fewer per level, and
/// one from level seven on.
pub open spec fn interval_of(level: u32) -> u8 {
    let l = if level < 10 { level } else { 10 };
    if l <= 7 { (8 - l) as u8 } else { 1 }
}

pub open spec fn swapped(s: Seq<Tetromino>, i: int, j: int) -> Seq<Tetromino> {
    s.update(i, s[j]).update(j, s[i])
}

/// The Fisher-Yates shuffle of the first `i + 1` entries of `s`, the
/// generator starting in state `st`: the shuffled sequence and the final
/// state.
pub open spec fn shuffle(s: Seq<Tetromino>, i: nat, st: u64) -> (Seq<Tetromino>, u64)
    decreases i,
{
    if i == 0 {
        (s, st)
    } else {
        let st1 = next_state(st);
        let j = (st1 % ((i + 1) as u64)) as int;
        shuffle(swapped(s, i as int, j), (i - 1) as nat, st1)
    }
}

pub open spec fn all_kinds() -> Seq<Tetromino> {
    seq![Tetromino::I, Tetromino::O, Tetromino::T, Tetromino::S, Tetromino::Z, Tetromino::J, Tetromino::L]
}

/// The bag a draw takes its piece from: the bag itself, or a freshly
/// shuffled set of all seven kinds when it is empty.
pub open spec fn refilled(bag: Seq<Tetromino>, st: u64) -> (Seq<Tetromino>, u64) {
    if bag.len() == 0 {
        shuffle(all_kinds(), 6, st)
    } else {
        (bag, st)
    }
}

pub open spec fn class_of(kind: Tetromino) -> Seq<char> {
    match kind {
        Tetromino::I => "tetris-i"@,
        Tetromino::O => "tetris-o"@,
        Tetromino::T => "tetris-t"@,
        Tetromino::S => "tetris-s"@,
        Tetromino::Z => "tetris-z"@,
        Tetromino::J => "tetris-j"@,
        Tetromino::L => "tetris-l"@,
    }
}

pub open spec fn label_of(kind: Tetromino) -> Seq<char> {
    match kind {
        Tetromino::I => "I"@,
        Tetromino::O => "O"@,
        Tetromino::T => "T"@,
        Tetromino::S => "S"@,
        Tetromino::Z => "Z"@,
        Tetromino::J => "J"@,
        Tetromino::L => "L"@,
    }
}

pub struct TetrisGame {
    board: Vec<Option<Tetromino>>,
    active: ActivePiece,
    next: Tetromino,
    bag: Vec<Tetromino>,
    score: u32,
    lines_cleared: u32,
    gravity_ticks: u8,
    rng: RandomSource,
}

impl TetrisGame {
    pub closed spec fn board(&self) -> Board {
        self.board@
    }

    pub closed spec fn active(&self) -> ActivePiece {
        self.active
    }

    pub closed spec fn next_kind(&self) -> Tetromino {
        self.next
    }

    pub closed spec fn bag(&self) -> Seq<Tetromino> {
        self.bag@
    }

    pub closed spec fn score(&self) -> u32 {
        self.score
    }

    pub closed spec fn lines_cleared(&self) -> u32 {
        self.lines_cleared
    }

    pub closed spec fn gravity_ticks(&self) -> u8 {
        self.gravity_ticks
    }

    pub closed spec fn rng_state(&self) -> u64 {
        self.rng.state()
    }

    /// The board has its 200 cells, the falling piece fits, and the gravity
    /// counter is below its largest interval.
    pub open spec fn is_valid(&self) -> bool {
        &&& self.board().len() == CELLS
        &&& !collides(self.board(), self.active())
        &&& self.active().rotation < 4
        &&& self.gravity_ticks() < 7
    }

    /// What the board shows at `(x, y)`: the falling piece, else the board.
    pub open spec fn shown(&self, x: int, y: int) -> Option<Tetromino> {
        if covers(self.active(), x, y) {
            Some(self.active().kind)
        } else {
            self.board()[y * WIDTH + x]
        }
    }
}

/// A game just started from a generator in state `s`: an empty board, the
/// first two pieces of a shuffled bag drawn, nothing scored.
pub open spec fn fresh(g: TetrisGame, s: u64) -> bool {
    let (full, st) = refilled(Seq::empty(), s);
    &&& g.board() == Seq::new(CELLS as nat, |k: int| None::<Tetromino>)
    &&& g.active() == spawned(full.last())
    &&& g.next_kind() == full.drop_last().last()
    &&& g.bag() == full.drop_last().drop_last()
    &&& g.rng_state() == st
    &&& g.score() == 0
    &&& g.lines_cleared() == 0
    &&& g.gravity_ticks() == 0
}

/// Everything but the falling piece stays as it was.
pub open spec fn same_but_piece(g: TetrisGame, h: TetrisGame) -> bool {
    &&& h.board() == g.board()
    &&& h.next_kind() == g.next_kind()
    &&& h.bag() == g.bag()
    &&& h.score() == g.score()
    &&& h.lines_cleared() == g.lines_cleared()
    &&& h.gravity_ticks() == g.gravity_ticks()
    &&& h.rng_state() == g.rng_state()
}

/// The piece steps down a row; where it cannot, it is locked, full rows
/// are cleared and scored, and the next piece enters, which ends the game
/// when it does not fit. `ticks` is the gravity count when the piece moved.
pub open spec fn stepped_down(g: TetrisGame, h: TetrisGame, o: OutputView, ticks: u8) -> bool {
    &&& (!collides(g.board(), moved(g.active(), 0, 1)) ==> {
        &&& o == OutputView::Continue(Seq::empty())
        &&& h.active() == moved(g.active(), 0, 1)
        &&& h.board() == g.board()
        &&& h.next_kind() == g.next_kind()
        &&& h.bag() == g.bag()
        &&& h.score() == g.score()
        &&& h.lines_cleared() == g.lines_cleared()
        &&& h.gravity_ticks() == ticks
        &&& h.rng_state() == g.rng_state()
    })
    &&& (collides(g.board(), moved(g.active(), 0, 1)) ==> {
        let b = locked(g.board(), g.active());
        let n = full_rows(b, HEIGHT as nat);
        let (full, st) = refilled(g.bag(), g.rng_state());
        &&& h.lines_cleared() == if n > 0 {
            vstd::wrapping::u32_specs::wrapping_add(g.lines_cleared(), n as u32)
        } else {
            g.lines_cleared()
        }
        &&& h.board() == cleared(b)
        &&& h.score() == if n > 0 {
            vstd::wrapping::u32_specs::wrapping_add(
                g.score(),
                vstd::wrapping::u32_specs::wrapping_mul(line_score(n), level_of(h.lines_cleared())),
            )
        } else {
            g.score()
        }
        &&& h.active() == spawned(g.next_kind())
        &&& h.next_kind() == full.last()
        &&& h.bag() == full.drop_last()
        &&& h.rng_state() == st
        &&& h.gravity_ticks() == 0
        &&& o == if collides(cleared(b), spawned(g.next_kind())) {
            OutputView::Exit(game_over_lines(h.score(), level_of(h.lines_cleared())))
        } else {
            OutputView::Continue(Seq::empty())
        }
    })
}

/// What a key does: left and right move the piece where it fits, up
/// rotates it, down steps it down at once, and escape ends the game.
pub open spec fn key_step(g: TetrisGame, key: AppKey, h: TetrisGame, o: OutputView) -> bool {
    match key {
        AppKey::Escape => o == OutputView::Exit(seq!["tetris over"@]) && h == g,
        AppKey::Left | AppKey::Right => {
            let dx: int = if key == AppKey::Left { -1 } else { 1 };
            &&& o == OutputView::Continue(Seq::empty())
            &&& h.active() == if collides(g.board(), moved(g.active(), dx, 0)) {
                g.active()
            } else {
                moved(g.active(), dx, 0)
            }
            &&& same_but_piece(g, h)
        },
        AppKey::Up => {
            &&& o == OutputView::Continue(Seq::empty())
            &&& h.active() == rotate_from(g.board(), g.active(), 0)
            &&& same_but_piece(g, h)
        },
        AppKey::Down => stepped_down(g, h, o, g.gravity_ticks()),
    }
}

/// What a tick does: it is counted, and when the count reaches the
/// gravity interval of the level it restarts and the piece steps down.
pub open spec fn tick_step(g: TetrisGame, h: TetrisGame, o: Option<OutputView>) -> bool {
    if g.gravity_ticks() + 1 < interval_of(level_of(g.lines_cleared())) {
        &&& o is None
        &&& h.gravity_ticks() == g.gravity_ticks() + 1
        &&& h.active() == g.active()
        &&& h.board() == g.board()
        &&& h.next_kind() == g.next_kind()
        &&& h.bag() == g.bag()
        &&& h.score() == g.score()
        &&& h.lines_cleared() == g.lines_cleared()
        &&& h.rng_state() == g.rng_state()
    } else {
        o matches Some(v) && stepped_down(g, h, v, 0)
    }
}

pub open spec fn header_line(g: TetrisGame) -> Seq<char> {
    "score: "@ + decimal(g.score() as nat) + "   level: "@ + decimal(level_of(g.lines_cleared()) as nat)
        + "   lines: "@ + decimal(g.lines_cleared() as nat) + "   next: "@ + label_of(g.next_kind())
}

pub open spec fn border_line() -> Seq<char> {
    "+"@ + repeat("--"@, 10) + "+"@
}

pub open spec fn cell_segment(c: Option<Tetromino>) -> SegmentView {
    match c {
        Some(kind) => ("[]"@, Some(class_of(kind))),
        None => ("  "@, None),
    }
}

pub open spec fn row_segments(g: TetrisGame, y: int) -> Seq<SegmentView> {
    seq![("|"@, None::<Seq<char>>)] + Seq::new(10, |x: int| cell_segment(g.shown(x, y))) + seq![
        ("|"@, None::<Seq<char>>),
    ]
}

/// The lines the game draws: the status line, then the board in a frame.
pub open spec fn board_view(g: TetrisGame) -> Seq<Seq<SegmentView>> {
    seq![plain_line(header_line(g)), plain_line(border_line())] + Seq::new(
        20,
        |y: int| row_segments(g, y),
    ) + seq![plain_line(border_line())]
}

pub open spec fn game_over_lines(score: u32, level: u32) -> Seq<Seq<char>> {
    seq![
        "game over with score "@ + decimal(score as nat) + " on level "@ + decimal(level as nat),
        "type `tetris` to play again"@,
    ]
}

/// Every cell of every piece lies within its 4 by 4 frame.
pub proof fn lemma_piece_cells_range(kind: Tetromino, rotation: u8)
    ensures
        piece_cells(kind, rotation).len() == 4,
        forall|i: int|
            0 <= i < 4 ==> 0 <= (#[trigger] piece_cells(kind, rotation)[i]).0 <= 3 && 0
                <= piece_cells(kind, rotation)[i].1 <= 3,
{
}

/// Clearing one, two, three or four rows at once scores 40, 100, 300 and
/// 1200 points a level; clearing more rows at once always scores more, and
/// clearing no row scores nothing.
pub proof fn lemma_line_scores()
    ensures
        line_score(0) == 0,
        line_score(1) == 40,
        line_score(2) == 100,
        line_score(3) == 300,
        line_score(4) == 1200,
        forall|a: nat, b: nat| 1 <= a < b <= 4 ==> line_score(a) < line_score(b),
        forall|n: nat| 1 <= n <= 4 ==> line_score(n) > 0,
{
}

/// The game starts on level one and goes up a level every ten cleared rows;
/// pieces fall every seven ticks on level one, one tick sooner on each level
/// up to the seventh, and every tick from there on, so a higher level never
/// falls slower.
pub proof fn lemma_levels_and_speed()
    ensures
        forall|n: u32| n < 10 ==> level_of(n) == 1,
        forall|n: u32| n + 10 <= u32::MAX ==> #[trigger] level_of((n + 10) as u32) == level_of(n) + 1,
        forall|m: u32, n: u32| m <= n ==> level_of(m) <= level_of(n),
        interval_of(1) == 7,
        forall|l: u32| 1 <= l < 7 ==> #[trigger] interval_of((l + 1) as u32) + 1 == interval_of(l),
        forall|l: u32| l >= 7 ==> interval_of(l) == 1,
        forall|l: u32, m: u32| 1 <= l <= m ==> interval_of(m) <= interval_of(l),
{
    assert forall|m: u32, n: u32| m <= n implies level_of(m) <= level_of(n) by {
        vstd::arithmetic::div_mod::lemma_div_is_ordered(m as int, n as int, 10);
    }
}

/// When a piece locks and fills `n` rows (one to four), the score grows by
/// 40, 100, 300 or 1200 times the level reached, so long as the score does
/// not pass `u32::MAX`.
pub proof fn lemma_clearing_rows_scores(g: TetrisGame, h: TetrisGame, o: OutputView, ticks: u8, n: nat)
    requires
        stepped_down(g, h, o, ticks),
        collides(g.board(), moved(g.active(), 0, 1)),
        n == full_rows(locked(g.board(), g.active()), HEIGHT as nat),
        1 <= n <= 4,
        g.score() + 1200 * level_of(h.lines_cleared()) <= u32::MAX,
    ensures
        h.score() == g.score() + (if n == 1 {
            40int
        } else if n == 2 {
            100int
        } else if n == 3 {
            300int
        } else {
            1200int
        }) * level_of(h.lines_cleared()),
        h.score() > g.score(),
        g.lines_cleared() + n <= u32::MAX ==> h.lines_cleared() == g.lines_cleared() + n,
{
    let l = level_of(h.lines_cleared());
    let ls = line_score(n);
    assert(l >= 1);
    assert(ls <= 1200);
    assert(ls * l <= 1200 * l) by (nonlinear_arith)
        requires
            ls <= 1200,
            l >= 1,
    ;
    assert(ls * l >= 40) by (nonlinear_arith)
        requires
            ls >= 40,
            l >= 1,
    ;
    assert((ls as nat * l as nat) % 0x1_0000_0000 == ls * l);
}

/// A cell's coordinates as integers.
pub open spec fn at(c: (i32, i32)) -> (int, int) {
    (c.0 as int, c.1 as int)
}

/// The cells a piece covers, as integer pairs.
pub open spec fn cells_of(kind: Tetromino, rotation: u8) -> Seq<(int, int)> {
    let p = piece_cells(kind, rotation);
    seq![at(p[0]), at(p[1]), at(p[2]), at(p[3])]
}

/// `c` turned `k` quarter turns clockwise (on a screen, where y grows
/// downwards) about the origin.
pub open spec fn turned(c: (int, int), k: int) -> (int, int) {
    if k == 0 {
        c
    } else if k == 1 {
        (-c.1, c.0)
    } else if k == 2 {
        (-c.0, -c.1)
    } else {
        (c.1, -c.0)
    }
}

/// Four cells turned `k` quarter turns, then shifted by `(dx, dy)`.
pub open spec fn placed(s: Seq<(int, int)>, k: int, dx: int, dy: int) -> Seq<(int, int)> {
    seq![
        (turned(s[0], k).0 + dx, turned(s[0], k).1 + dy),
        (turned(s[1], k).0 + dx, turned(s[1], k).1 + dy),
        (turned(s[2], k).0 + dx, turned(s[2], k).1 + dy),
        (turned(s[3], k).0 + dx, turned(s[3], k).1 + dy),
    ]
}

/// Whether `c` is one of the four cells `s`.
pub open spec fn has4(s: Seq<(int, int)>, c: (int, int)) -> bool {
    s[0] == c || s[1] == c || s[2] == c || s[3] == c
}

/// Two groups of four cells cover the same cells.
pub open spec fn same_cells(a: Seq<(int, int)>, b: Seq<(int, int)>) -> bool {
    &&& has4(b, a[0]) && has4(b, a[1]) && has4(b, a[2]) && has4(b, a[3])
    &&& has4(a, b[0]) && has4(a, b[1]) && has4(a, b[2]) && has4(a, b[3])
}

/// `a` is `b` turned and shifted.
pub open spec fn congruent(a: Seq<(int, int)>, b: Seq<(int, int)>) -> bool {
    exists|k: int, dx: int, dy: int| 0 <= k < 4 && #[trigger] same_cells(a, placed(b, k, dx, dy))
}

/// The standard shape of each tetromino: I four in a row, O a square, T
/// three in a row with one centred below, S and Z two offset pairs, J and L
/// three in a row with one below an end.
pub open spec fn standard_shape(kind: Tetromino) -> Seq<(int, int)> {
    match kind {
        Tetromino::I => seq![(0int, 0int), (1, 0), (2, 0), (3, 0)],
        Tetromino::O => seq![(0int, 0int), (1, 0), (0, 1), (1, 1)],
        Tetromino::T => seq![(0int, 0int), (1, 0), (2, 0), (1, 1)],
        Tetromino::S => seq![(1int, 0int), (2, 0), (0, 1), (1, 1)],
        Tetromino::Z => seq![(0int, 0int), (1, 0), (1, 1), (2, 1)],
        Tetromino::J => seq![(0int, 0int), (0, 1), (1, 1), (2, 1)],
        Tetromino::L => seq![(2int, 0int), (0, 1), (1, 1), (2, 1)],
    }
}

/// Every piece, in every rotation, is its kind's standard shape turned and
/// shifted.
pub proof fn lemma_pieces_keep_their_shapes(kind: Tetromino, rotation: u8)
    ensures
        congruent(cells_of(kind, rotation), standard_shape(kind)),
{
    let q = rotation % 4;
    if kind == Tetromino::I {
        if q == 0 {
            assert(same_cells(cells_of(kind, rotation), placed(standard_shape(kind), 0, 0, 1)));
        }
        if q == 1 {
            assert(same_cells(cells_of(kind, rotation), placed(standard_shape(kind), 1, 2, 0)));
        }
        if q == 2 {
            assert(same_cells(cells_of(kind, rotation), placed(standard_shape(kind), 0, 0, 2)));
        }
        if q == 3 {
            assert(same_cells(cells_of(kind, rotation), placed(standard_shape(kind), 1, 1, 0)));
        }
    }
    if kind == Tetromino::O {
        if q == 0 {
            assert(same_cells(cells_of(kind, rotation), placed(standard_shape(kind), 0, 1, 0)));
        }
        if q == 1 {
            assert(same_cells(cells_of(kind, rotation), placed(standard_shape(kind), 0, 1, 0)));
        }
        if q == 2 {
            assert(same_cells(cells_of(kind, rotation), placed(standard_shape(kind), 0, 1, 0)));
        }
        if q == 3 {
            assert(same_cells(cells_of(kind, rotation), placed(standard_shape(kind), 0, 1, 0)));
        }
    }
    if kind == Tetromino::T {
        if q == 0 {
            assert(same_cells(cells_of(kind, rotation), placed(standard_shape(kind), 2, 2, 1)));
        }
        if q == 1 {
            assert(same_cells(cells_of(kind, rotation), placed(standard_shape(kind), 3, 1, 2)));
        }
        if q == 2 {
            assert(same_cells(cells_of(kind, rotation), placed(standard_shape(kind), 0, 0, 1)));
        }
        if q == 3 {
            assert(same_cells(cells_of(kind, rotation), placed(standard_shape(kind), 1, 1, 0)));
        }
    }
    if kind == Tetromino::S {
        if q == 0 {
            assert(same_cells(cells_of(kind, rotation), placed(standard_shape(kind), 0, 0, 0)));
        }
        if q == 1 {
            assert(same_cells(cells_of(kind, rotation), placed(standard_shape(kind), 1, 2, 0)));
        }
        if q == 2 {
            assert(same_cells(cells_of(kind, rotation), placed(standard_shape(kind), 0, 0, 1)));
        }
        if q == 3 {
            assert(same_cells(cells_of(kind, rotation), placed(standard_shape(kind), 1, 1, 0)));
        }
    }
    if kind == Tetromino::Z {
        if q == 0 {
            assert(same_cells(cells_of(kind, rotation), placed(standard_shape(kind), 0, 0, 0)));
        }
        if q == 1 {
            assert(same_cells(cells_of(kind, rotation), placed(standard_shape(kind), 1, 2, 0)));
        }
        if q == 2 {
            assert(same_cells(cells_of(kind, rotation), placed(standard_shape(kind), 0, 0, 1)));
        }
        if q == 3 {
            assert(same_cells(cells_of(kind, rotation), placed(standard_shape(kind), 1, 1, 0)));
        }
    }
    if kind == Tetromino::J {
        if q == 0 {
            assert(same_cells(cells_of(kind, rotation), placed(standard_shape(kind), 0, 0, 0)));
        }
        if q == 1 {
            assert(same_cells(cells_of(kind, rotation), placed(standard_shape(kind), 1, 2, 0)));
        }
        if q == 2 {
            assert(same_cells(cells_of(kind, rotation), placed(standard_shape(kind), 2, 2, 2)));
        }
        if q == 3 {
            assert(same_cells(cells_of(kind, rotation), placed(standard_shape(kind), 3, 0, 2)));
        }
    }
    if kind == Tetromino::L {
        if q == 0 {
            assert(same_cells(cells_of(kind, rotation), placed(standard_shape(kind), 0, 0, 0)));
        }
        if q == 1 {
            assert(same_cells(cells_of(kind, rotation), placed(standard_shape(kind), 1, 2, 0)));
        }
        if q == 2 {
            assert(same_cells(cells_of(kind, rotation), placed(standard_shape(kind), 2, 2, 2)));
        }
        if q == 3 {
            assert(same_cells(cells_of(kind, rotation), placed(standard_shape(kind), 3, 0, 2)));
        }
    }
}

/// Rotating a piece turns it a quarter turn clockwise: the cells of the
/// next rotation are those of this one turned once and shifted.
pub proof fn lemma_rotation_turns_the_piece(kind: Tetromino, q: u8)
    requires
        q < 4,
    ensures
        exists|dx: int, dy: int|
            #[trigger] same_cells(cells_of(kind, ((q + 1) % 4) as u8), placed(cells_of(kind, q), 1, dx, dy)),
{
    if kind == Tetromino::I {
        if q == 0 {
            assert(same_cells(cells_of(kind, ((q + 1) % 4) as u8), placed(cells_of(kind, q), 1, 3, 0)));
        }
        if q == 1 {
            assert(same_cells(cells_of(kind, ((q + 1) % 4) as u8), placed(cells_of(kind, q), 1, 3, 0)));
        }
        if q == 2 {
            assert(same_cells(cells_of(kind, ((q + 1) % 4) as u8), placed(cells_of(kind, q), 1, 3, 0)));
        }
        if q == 3 {
            assert(same_cells(cells_of(kind, ((q + 1) % 4) as u8), placed(cells_of(kind, q), 1, 3, 0)));
        }
    }
    if kind == Tetromino::O {
        if q == 0 {
            assert(same_cells(cells_of(kind, ((q + 1) % 4) as u8), placed(cells_of(kind, q), 1, 2, -1)));
        }
        if q == 1 {
            assert(same_cells(cells_of(kind, ((q + 1) % 4) as u8), placed(cells_of(kind, q), 1, 2, -1)));
        }
        if q == 2 {
            assert(same_cells(cells_of(kind, ((q + 1) % 4) as u8), placed(cells_of(kind, q), 1, 2, -1)));
        }
        if q == 3 {
            assert(same_cells(cells_of(kind, ((q + 1) % 4) as u8), placed(cells_of(kind, q), 1, 2, -1)));
        }
    }
    if kind == Tetromino::T {
        if q == 0 {
            assert(same_cells(cells_of(kind, ((q + 1) % 4) as u8), placed(cells_of(kind, q), 1, 2, 0)));
        }
        if q == 1 {
            assert(same_cells(cells_of(kind, ((q + 1) % 4) as u8), placed(cells_of(kind, q), 1, 2, 0)));
        }
        if q == 2 {
            assert(same_cells(cells_of(kind, ((q + 1) % 4) as u8), placed(cells_of(kind, q), 1, 2, 0)));
        }
        if q == 3 {
            assert(same_cells(cells_of(kind, ((q + 1) % 4) as u8), placed(cells_of(kind, q), 1, 2, 0)));
        }
    }
    if kind == Tetromino::S {
        if q == 0 {
            assert(same_cells(cells_of(kind, ((q + 1) % 4) as u8), placed(cells_of(kind, q), 1, 2, 0)));
        }
        if q == 1 {
            assert(same_cells(cells_of(kind, ((q + 1) % 4) as u8), placed(cells_of(kind, q), 1, 2, 0)));
        }
        if q == 2 {
            assert(same_cells(cells_of(kind, ((q + 1) % 4) as u8), placed(cells_of(kind, q), 1, 2, 0)));
        }
        if q == 3 {
            assert(same_cells(cells_of(kind, ((q + 1) % 4) as u8), placed(cells_of(kind, q), 1, 2, 0)));
        }
    }
    if kind == Tetromino::Z {
        if q == 0 {
            assert(same_cells(cells_of(kind, ((q + 1) % 4) as u8), placed(cells_of(kind, q), 1, 2, 0)));
        }
        if q == 1 {
            assert(same_cells(cells_of(kind, ((q + 1) % 4) as u8), placed(cells_of(kind, q), 1, 2, 0)));
        }
        if q == 2 {
            assert(same_cells(cells_of(kind, ((q + 1) % 4) as u8), placed(cells_of(kind, q), 1, 2, 0)));
        }
        if q == 3 {
            assert(same_cells(cells_of(kind, ((q + 1) % 4) as u8), placed(cells_of(kind, q), 1, 2, 0)));
        }
    }
    if kind == Tetromino::J {
        if q == 0 {
            assert(same_cells(cells_of(kind, ((q + 1) % 4) as u8), placed(cells_of(kind, q), 1, 2, 0)));
        }
        if q == 1 {
            assert(same_cells(cells_of(kind, ((q + 1) % 4) as u8), placed(cells_of(kind, q), 1, 2, 0)));
        }
        if q == 2 {
            assert(same_cells(cells_of(kind, ((q + 1) % 4) as u8), placed(cells_of(kind, q), 1, 2, 0)));
        }
        if q == 3 {
            assert(same_cells(cells_of(kind, ((q + 1) % 4) as u8), placed(cells_of(kind, q), 1, 2, 0)));
        }
    }
    if kind == Tetromino::L {
        if q == 0 {
            assert(same_cells(cells_of(kind, ((q + 1) % 4) as u8), placed(cells_of(kind, q), 1, 2, 0)));
        }
        if q == 1 {
            assert(same_cells(cells_of(kind, ((q + 1) % 4) as u8), placed(cells_of(kind, q), 1, 2, 0)));
        }
        if q == 2 {
            assert(same_cells(cells_of(kind, ((q + 1) % 4) as u8), placed(cells_of(kind, q), 1, 2, 0)));
        }
        if q == 3 {
            assert(same_cells(cells_of(kind, ((q + 1) % 4) as u8), placed(cells_of(kind, q), 1, 2, 0)));
        }
    }
}

/// No turn by `k` quarter turns and shift takes the standard shape of `b`
/// onto that of another kind `a`.
#[verifier::rlimit(100)]
#[verifier::spinoff_prover]
proof fn lemma_shapes_differ_turned(a: Tetromino, b: Tetromino, k: int)
    requires
        a != b,
        0 <= k < 4,
    ensures
        forall|dx: int, dy: int| !#[trigger] same_cells(standard_shape(a), placed(standard_shape(b), k, dx, dy)),
{
    assert forall|dx: int, dy: int| !#[trigger] same_cells(standard_shape(a), placed(standard_shape(b), k, dx, dy)) by {
        let sa = standard_shape(a);
        let pb = placed(standard_shape(b), k, dx, dy);
        if same_cells(sa, pb) {
            assert(has4(pb, sa[0]) && has4(pb, sa[1]) && has4(pb, sa[2]) && has4(pb, sa[3]));
        }
    }
}

/// The seven standard shapes are pairwise different: no turn and shift
/// takes one onto another.
pub proof fn lemma_shapes_differ(a: Tetromino, b: Tetromino)
    requires
        a != b,
    ensures
        !congruent(standard_shape(a), standard_shape(b)),
{
    lemma_shapes_differ_turned(a, b, 0);
    lemma_shapes_differ_turned(a, b, 1);
    lemma_shapes_differ_turned(a, b, 2);
    lemma_shapes_differ_turned(a, b, 3);
}

/// Two cells share a side.
pub open spec fn adjacent(a: (i32, i32), b: (i32, i32)) -> bool {
    ||| a.0 == b.0 && (a.1 + 1 == b.1 || b.1 + 1 == a.1)
    ||| a.1 == b.1 && (a.0 + 1 == b.0 || b.0 + 1 == a.0)
}

/// Whether cell `i` of four is in the group the bits of `m` select.
pub open spec fn in_group(m: int, i: int) -> bool {
    if i == 0 {
        m % 2 == 1
    } else if i == 1 {
        (m / 2) % 2 == 1
    } else if i == 2 {
        (m / 4) % 2 == 1
    } else {
        (m / 8) % 2 == 1
    }
}

/// Cells `i` and `j` share a side and lie on opposite sides of the split `m`.
pub open spec fn split_by(c: Seq<(i32, i32)>, m: int, i: int, j: int) -> bool {
    in_group(m, i) != in_group(m, j) && adjacent(c[i], c[j])
}

/// Some two cells that share a side lie on opposite sides of the split `m`.
pub open spec fn crosses(c: Seq<(i32, i32)>, m: int) -> bool {
    ||| split_by(c, m, 0, 1)
    ||| split_by(c, m, 0, 2)
    ||| split_by(c, m, 0, 3)
    ||| split_by(c, m, 1, 2)
    ||| split_by(c, m, 1, 3)
    ||| split_by(c, m, 2, 3)
}

/// Four cells are connected side to side: however they are split into two
/// nonempty groups, two cells that share a side lie in different groups.
pub open spec fn connected(c: Seq<(i32, i32)>) -> bool {
    forall|m: int| 1 <= m <= 14 ==> #[trigger] crosses(c, m)
}

/// The splits `1..=n` are all crossed.
spec fn crossed_up_to(c: Seq<(i32, i32)>, n: nat) -> bool
    decreases n,
{
    n == 0 || (crosses(c, n as int) && crossed_up_to(c, (n - 1) as nat))
}

proof fn lemma_crossed_up_to(c: Seq<(i32, i32)>, n: nat)
    requires
        crossed_up_to(c, n),
    ensures
        forall|m: int| 1 <= m <= n ==> #[trigger] crosses(c, m),
    decreases n,
{
    if n > 0 {
        lemma_crossed_up_to(c, (n - 1) as nat);
    }
}

/// Every piece is four distinct cells, connected side to side, inside its
/// four by four frame; rotations repeat every four turns, and the O piece
/// looks the same in every rotation.
pub proof fn lemma_piece_shapes(kind: Tetromino, rotation: u8)
    ensures
        piece_cells(kind, rotation).len() == 4,
        forall|i: int, j: int|
            0 <= i < j < 4 ==> #[trigger] piece_cells(kind, rotation)[i] != #[trigger] piece_cells(
                kind,
                rotation,
            )[j],
        forall|i: int|
            0 <= i < 4 ==> 0 <= (#[trigger] piece_cells(kind, rotation)[i]).0 <= 3 && 0
                <= piece_cells(kind, rotation)[i].1 <= 3,
        connected(piece_cells(kind, rotation)),
        piece_cells(kind, rotation) == piece_cells(kind, rotation % 4),
        piece_cells(Tetromino::O, rotation) == piece_cells(Tetromino::O, 0),
{
    let c = piece_cells(kind, rotation);
    reveal_with_fuel(crossed_up_to, 15);
    assert(crossed_up_to(c, 14));
    lemma_crossed_up_to(c, 14);
}

/// A piece that fits lies within the board, so its frame does too.
pub proof fn lemma_fitting_bounds(b: Board, p: ActivePiece)
    requires
        !collides(b, p),
    ensures
        -3 <= p.x <= 9,
        -3 <= p.y <= 19,
        forall|i: int|
            0 <= i < 4 ==> 0 <= (#[trigger] piece_cell(p, i)).0 < WIDTH && 0 <= piece_cell(p, i).1
                < HEIGHT && !blocked(b, piece_cell(p, i).0, piece_cell(p, i).1),
{
    lemma_piece_cells_range(p.kind, p.rotation);
    assert forall|i: int| 0 <= i < 4 implies 0 <= (#[trigger] piece_cell(p, i)).0 < WIDTH && 0 <= piece_cell(p, i).1
                < HEIGHT && !blocked(b, piece_cell(p, i).0, piece_cell(p, i).1) by {
        assert(!blocked(b, piece_cell(p, i).0, piece_cell(p, i).1));
    }
    assert(!blocked(b, piece_cell(p, 0).0, piece_cell(p, 0).1));
}

/// The cells a piece covers, as offsets within its frame.
fn piece_blocks(kind: Tetromino, rotation: u8) -> (r: [(i32, i32); 4])
    ensures
        r@ == piece_cells(kind, rotation),
{
    let r = match (kind, rotation % 4) {
        (Tetromino::I, 0) => [(0, 1), (1, 1), (2, 1), (3, 1)],
        (Tetromino::I, 1) => [(2, 0), (2, 1), (2, 2), (2, 3)],
        (Tetromino::I, 2) => [(0, 2), (1, 2), (2, 2), (3, 2)],
        (Tetromino::I, _) => [(1, 0), (1, 1), (1, 2), (1, 3)],
        (Tetromino::O, _) => [(1, 0), (2, 0), (1, 1), (2, 1)],
        (Tetromino::T, 0) => [(1, 0), (0, 1), (1, 1), (2, 1)],
        (Tetromino::T, 1) => [(1, 0), (1, 1), (2, 1), (1, 2)],
        (Tetromino::T, 2) => [(0, 1), (1, 1), (2, 1), (1, 2)],
        (Tetromino::T, _) => [(1, 0), (0, 1), (1, 1), (1, 2)],
        (Tetromino::S, 0) => [(1, 0), (2, 0), (0, 1), (1, 1)],
        (Tetromino::S, 1) => [(1, 0), (1, 1), (2, 1), (2, 2)],
        (Tetromino::S, 2) => [(1, 1), (2, 1), (0, 2), (1, 2)],
        (Tetromino::S, _) => [(0, 0), (0, 1), (1, 1), (1, 2)],
        (Tetromino::Z, 0) => [(0, 0), (1, 0), (1, 1), (2, 1)],
        (Tetromino::Z, 1) => [(2, 0), (1, 1), (2, 1), (1, 2)],
        (Tetromino::Z, 2) => [(0, 1), (1, 1), (1, 2), (2, 2)],
        (Tetromino::Z, _) => [(1, 0), (0, 1), (1, 1), (0, 2)],
        (Tetromino::J, 0) => [(0, 0), (0, 1), (1, 1), (2, 1)],
        (Tetromino::J, 1) => [(1, 0), (2, 0), (1, 1), (1, 2)],
        (Tetromino::J, 2) => [(0, 1), (1, 1), (2, 1), (2, 2)],
        (Tetromino::J, _) => [(1, 0), (1, 1), (0, 2), (1, 2)],
        (Tetromino::L, 0) => [(2, 0), (0, 1), (1, 1), (2, 1)],
        (Tetromino::L, 1) => [(1, 0), (1, 1), (1, 2), (2, 2)],
        (Tetromino::L, 2) => [(0, 1), (1, 1), (2, 1), (0, 2)],
        (Tetromino::L, _) => [(0, 0), (1, 0), (1, 1), (1, 2)],
    };
    assert(r@ =~= piece_cells(kind, rotation));
    r
}

fn line_clear_score(lines: usize) -> (r: u32)
    ensures
        r == line_score(lines as nat),
{
    match lines {
        1 => 40,
        2 => 100,
        3 => 300,
        4 => 1200,
        _ => 0,
    }
}

impl Tetromino {
    pub fn class_name(self) -> (r: &'static str)
        ensures
            r@ == class_of(self),
    {
        match self {
            Tetromino::I => "tetris-i",
            Tetromino::O => "tetris-o",
            Tetromino::T => "tetris-t",
            Tetromino::S => "tetris-s",
            Tetromino::Z => "tetris-z",
            Tetromino::J => "tetris-j",
            Tetromino::L => "tetris-l",
        }
    }

    pub fn label(self) -> (r: &'static str)
        ensures
            r@ == label_of(self),
    {
        match self {
            Tetromino::I => "I",
            Tetromino::O => "O",
            Tetromino::T => "T",
            Tetromino::S => "S",
            Tetromino::Z => "Z",
            Tetromino::J => "J",
            Tetromino::L => "L",
        }
    }
}

impl ActivePiece {
    pub fn spawn(kind: Tetromino) -> (p: Self)
        ensures
            p == spawned(kind),
    {
        ActivePiece { kind, rotation: 0, x: 3, y: 0 }
    }
}

/// Swaps two entries of the bag.
fn swap_kinds(bag: &mut Vec<Tetromino>, i: usize, j: usize)
    requires
        i < old(bag)@.len(),
        j < old(bag)@.len(),
    ensures
        final(bag)@ == swapped(old(bag)@, i as int, j as int),
{
    let a = bag[i];
    let b = bag[j];
    bag.set(i, b);
    bag.set(j, a);
}

/// Shuffling keeps a bag's length and its set of pieces.
pub proof fn lemma_shuffle_permutes(s: Seq<Tetromino>, i: nat, st: u64)
    requires
        i < s.len(),
        s.len() <= 7,
        s.no_duplicates(),
    ensures
        shuffle(s, i, st).0.len() == s.len(),
        shuffle(s, i, st).0.no_duplicates(),
        forall|k: Tetromino| s.contains(k) <==> #[trigger] shuffle(s, i, st).0.contains(k),
    decreases i,
{
    if i > 0 {
        let st1 = next_state(st);
        let j = (st1 % ((i + 1) as u64)) as int;
        assert(0 <= j <= i);
        let s1 = swapped(s, i as int, j);
        assert(s1.len() == s.len());
        assert forall|a: int, b: int| 0 <= a < s1.len() && 0 <= b < s1.len() && a != b implies s1[a]
            != s1[b] by {
            let pa = if a == i { j } else if a == j { i as int } else { a };
            let pb = if b == i { j } else if b == j { i as int } else { b };
            assert(s1[a] == s[pa]);
            assert(s1[b] == s[pb]);
        }
        assert forall|k: Tetromino| s.contains(k) <==> s1.contains(k) by {
            if s.contains(k) {
                let a = choose|a: int| 0 <= a < s.len() && s[a] == k;
                let pa = if a == i { j } else if a == j { i as int } else { a };
                assert(s1[pa] == k);
            }
            if s1.contains(k) {
                let a = choose|a: int| 0 <= a < s1.len() && s1[a] == k;
                let pa = if a == i { j } else if a == j { i as int } else { a };
                assert(s[pa] == k);
            }
        }
        lemma_shuffle_permutes(s1, (i - 1) as nat, st1);
    }
}

/// A refilled bag holds each of the seven kinds exactly once.
pub proof fn lemma_refill_is_permutation(st: u64)
    ensures
        shuffle(all_kinds(), 6, st).0.len() == 7,
        shuffle(all_kinds(), 6, st).0.no_duplicates(),
        forall|k: Tetromino| #[trigger] shuffle(all_kinds(), 6, st).0.contains(k),
{
    let s = all_kinds();
    assert(s.no_duplicates());
    assert forall|k: Tetromino| s.contains(k) by {
        match k {
            Tetromino::I => assert(s[0] == k),
            Tetromino::O => assert(s[1] == k),
            Tetromino::T => assert(s[2] == k),
            Tetromino::S => assert(s[3] == k),
            Tetromino::Z => assert(s[4] == k),
            Tetromino::J => assert(s[5] == k),
            Tetromino::L => assert(s[6] == k),
        }
    }
    lemma_shuffle_permutes(s, 6, st);
}

/// Takes the next piece from the bag, refilling it with a shuffled set of
/// all seven kinds when it is empty.
pub fn draw_tetromino(bag: &mut Vec<Tetromino>, rng: &mut RandomSource) -> (t: Tetromino)
    ensures
        ({
            let (full, st) = refilled(old(bag)@, old(rng).state());
            &&& t == full.last()
            &&& final(bag)@ == full.drop_last()
            &&& final(rng).state() == st
        }),
{
    if bag.len() == 0 {
        *bag = vec![
            Tetromino::I,
            Tetromino::O,
            Tetromino::T,
            Tetromino::S,
            Tetromino::Z,
            Tetromino::J,
            Tetromino::L,
        ];
        assert(bag@ =~= all_kinds());
        let ghost st0 = rng.state();
        let mut index: usize = 6;
        while index >= 1
            invariant
                index <= 6,
                bag@.len() == 7,
                shuffle(bag@, index as nat, rng.state()) == shuffle(all_kinds(), 6, st0),
            decreases index,
        {
            let swap_index = rng.next_below((index + 1) as u32) as usize;
            swap_kinds(bag, index, swap_index);
            index = index - 1;
        }
    }
    let t = bag.pop();
    match t {
        Some(kind) => kind,
        None => Tetromino::I,
    }
}

fn push_cell_segment(row: &mut AppLine, c: Option<Tetromino>)
    ensures
        final(row)@ == old(row)@.push(cell_segment(c)),
{
    match c {
        Some(kind) => row.push_styled(owned("[]"), kind.class_name()),
        None => row.push_plain(owned("  ")),
    }
}

impl TetrisGame {
    /// A game on an empty board with the first two pieces drawn from `rng`.
    pub fn new(mut rng: RandomSource) -> (g: Self)
        ensures
            g.is_valid(),
            g.board() == Seq::new(CELLS as nat, |k: int| None::<Tetromino>),
            fresh(g, rng.state()),
    {
        let mut bag: Vec<Tetromino> = Vec::new();
        proof {
            lemma_refill_is_permutation(rng.state());
        }
        let active_kind = draw_tetromino(&mut bag, &mut rng);
        let next = draw_tetromino(&mut bag, &mut rng);
        let mut board: Vec<Option<Tetromino>> = Vec::new();
        let mut i: usize = 0;
        while i < CELLS
            invariant
                i <= CELLS,
                board@ == Seq::new(i as nat, |k: int| None::<Tetromino>),
            decreases CELLS - i,
        {
            board.push(None);
            i = i + 1;
            assert(board@ =~= Seq::new(i as nat, |k: int| None::<Tetromino>));
        }
        let g = TetrisGame {
            board,
            active: ActivePiece::spawn(active_kind),
            next,
            bag,
            score: 0,
            lines_cleared: 0,
            gravity_ticks: 0,
            rng,
        };
        proof {
            lemma_piece_cells_range(active_kind, 0);
            assert forall|i: int| 0 <= i < 4 implies !blocked(g.board(), #[trigger] piece_cell(g.active, i).0, piece_cell(g.active, i).1) by {}
        }
        g
    }

    pub fn level(&self) -> (l: u32)
        ensures
            l == level_of(self.lines_cleared()),
    {
        (self.lines_cleared / 10) + 1
    }

    pub fn gravity_interval(&self) -> (t: u8)
        ensures
            t == interval_of(level_of(self.lines_cleared())),
            1 <= t <= 7,
    {
        let level = self.level();
        let capped: u8 = if level < 10 {
            level as u8
        } else {
            10
        };
        let t = 7u8.saturating_sub(capped.saturating_sub(1));
        if t > 1 {
            t
        } else {
            1
        }
    }

    /// Whether the board cell `(x, y)` is a wall or filled.
    fn is_blocked(&self, x: i32, y: i32) -> (r: bool)
        requires
            self.board@.len() == CELLS,
        ensures
            r == blocked(self.board(), x as int, y as int),
    {
        if x < 0 || x >= WIDTH || y < 0 || y >= HEIGHT {
            return true;
        }
        let k = (y * WIDTH + x) as usize;
        self.board[k].is_some()
    }

    /// Whether `piece` overlaps a wall, the floor or a filled cell.
    fn collides_piece(&self, piece: &ActivePiece) -> (r: bool)
        requires
            self.board@.len() == CELLS,
            -10 <= piece.x <= 20,
            -10 <= piece.y <= 30,
        ensures
            r == collides(self.board(), *piece),
    {
        let blocks = piece_blocks(piece.kind, piece.rotation);
        proof {
            lemma_piece_cells_range(piece.kind, piece.rotation);
        }
        let mut i: usize = 0;
        while i < 4
            invariant
                i <= 4,
                blocks@ == piece_cells(piece.kind, piece.rotation),
                self.board@.len() == CELLS,
                -10 <= piece.x <= 20,
                -10 <= piece.y <= 30,
                forall|j: int| 0 <= j < i ==> !#[trigger] blocked(self.board(), piece_cell(*piece, j).0, piece_cell(*piece, j).1),
            decreases 4 - i,
        {
            let (dx, dy) = blocks[i];
            if self.is_blocked(piece.x + dx, piece.y + dy) {
                assert(blocked(self.board(), piece_cell(*piece, i as int).0, piece_cell(*piece, i as int).1));
                return true;
            }
            i = i + 1;
        }
        false
    }

    /// Whether the falling piece covers the board cell `(x, y)`.
    fn active_covers(&self, x: i32, y: i32) -> (r: bool)
        requires
            -10 <= self.active.x <= 20,
            -10 <= self.active.y <= 30,
        ensures
            r == covers(self.active(), x as int, y as int),
    {
        let blocks = piece_blocks(self.active.kind, self.active.rotation);
        proof {
            lemma_piece_cells_range(self.active.kind, self.active.rotation);
        }
        let mut i: usize = 0;
        while i < 4
            invariant
                i <= 4,
                blocks@ == piece_cells(self.active.kind, self.active.rotation),
                -10 <= self.active.x <= 20,
                -10 <= self.active.y <= 30,
                forall|j: int| 0 <= j < i ==> #[trigger] piece_cell(self.active, j) != (x as int, y as int),
            decreases 4 - i,
        {
            let (dx, dy) = blocks[i];
            if self.active.x + dx == x && self.active.y + dy == y {
                assert(piece_cell(self.active, i as int) == (x as int, y as int));
                return true;
            }
            i = i + 1;
        }
        false
    }

    /// What the board shows at `(x, y)`.
    fn cell_at(&self, x: i32, y: i32) -> (r: Option<Tetromino>)
        requires
            self.is_valid(),
            0 <= x < WIDTH,
            0 <= y < HEIGHT,
        ensures
            r == self.shown(x as int, y as int),
    {
        proof {
            lemma_fitting_bounds(self.board(), self.active());
        }
        if self.active_covers(x, y) {
            return Some(self.active.kind);
        }
        self.board[(y * WIDTH + x) as usize]
    }

    /// Moves the falling piece by `(dx, dy)` if it fits there.
    fn try_move(&mut self, dx: i32, dy: i32) -> (moved_ok: bool)
        requires
            old(self).is_valid(),
            -1 <= dx <= 1,
            -1 <= dy <= 1,
        ensures
            final(self).is_valid(),
            moved_ok == !collides(old(self).board(), moved(old(self).active(), dx as int, dy as int)),
            final(self).active() == if moved_ok {
                moved(old(self).active(), dx as int, dy as int)
            } else {
                old(self).active()
            },
            final(self).board() == old(self).board(),
            final(self).next_kind() == old(self).next_kind(),
            final(self).bag() == old(self).bag(),
            final(self).score() == old(self).score(),
            final(self).lines_cleared() == old(self).lines_cleared(),
            final(self).gravity_ticks() == old(self).gravity_ticks(),
            final(self).rng_state() == old(self).rng_state(),
    {
        proof {
            lemma_fitting_bounds(self.board(), self.active());
        }
        let mut candidate = self.active;
        candidate.x = candidate.x + dx;
        candidate.y = candidate.y + dy;
        if self.collides_piece(&candidate) {
            return false;
        }
        self.active = candidate;
        true
    }

    /// Turns the falling piece once, shifting it sideways by the first kick
    /// that makes it fit; it stays as it was when none does.
    fn try_rotate(&mut self)
        requires
            old(self).is_valid(),
        ensures
            final(self).is_valid(),
            final(self).active() == rotate_from(old(self).board(), old(self).active(), 0),
            final(self).board() == old(self).board(),
            final(self).next_kind() == old(self).next_kind(),
            final(self).bag() == old(self).bag(),
            final(self).score() == old(self).score(),
            final(self).lines_cleared() == old(self).lines_cleared(),
            final(self).gravity_ticks() == old(self).gravity_ticks(),
            final(self).rng_state() == old(self).rng_state(),
    {
        proof {
            lemma_fitting_bounds(self.board(), self.active());
        }
        let kicks: [i32; 5] = [0, -1, 1, -2, 2];
        let next_rotation = (self.active.rotation + 1) % 4;
        let start_piece = self.active;
        let mut i: usize = 0;
        while i < 5
            invariant
                i <= 5,
                kicks@ == seq![0i32, -1i32, 1i32, -2i32, 2i32],
                *self == *old(self),
                start_piece == old(self).active(),
                next_rotation == ((start_piece.rotation + 1) % 4) as u8,
                self.is_valid(),
                -3 <= start_piece.x <= 9,
                -3 <= start_piece.y <= 19,
                rotate_from(old(self).board(), start_piece, 0) == rotate_from(old(self).board(), start_piece, i as nat),
            decreases 5 - i,
        {
            let candidate = ActivePiece {
                rotation: next_rotation,
                x: start_piece.x + kicks[i],
                ..start_piece
            };
            assert(candidate == rotated(start_piece, i as int));
            if !self.collides_piece(&candidate) {
                self.active = candidate;
                return;
            }
            i = i + 1;
        }
    }

    /// Writes the falling piece into the board.
    fn lock_piece(&mut self)
        requires
            old(self).is_valid(),
        ensures
            final(self).board() == locked(old(self).board(), old(self).active()),
            final(self).board().len() == CELLS,
            final(self).active() == old(self).active(),
            final(self).next_kind() == old(self).next_kind(),
            final(self).bag() == old(self).bag(),
            final(self).score() == old(self).score(),
            final(self).lines_cleared() == old(self).lines_cleared(),
            final(self).gravity_ticks() == old(self).gravity_ticks(),
            final(self).rng_state() == old(self).rng_state(),
    {
        proof {
            lemma_fitting_bounds(self.board(), self.active());
        }
        let blocks = piece_blocks(self.active.kind, self.active.rotation);
        proof {
            lemma_piece_cells_range(self.active.kind, self.active.rotation);
        }
        let p = self.active;
        let ghost b0 = self.board@;
        let mut i: usize = 0;
        while i < 4
            invariant
                i <= 4,
                p == old(self).active(),
                self.active == p,
                b0 == old(self).board(),
                blocks@ == piece_cells(p.kind, p.rotation),
                -3 <= p.x <= 9,
                -3 <= p.y <= 19,
                forall|j: int| 0 <= j < 4 ==> 0 <= (#[trigger] blocks@[j]).0 <= 3 && 0 <= blocks@[j].1 <= 3,
                self.board@.len() == CELLS,
                forall|j: int| 0 <= j < 4 ==> 0 <= (#[trigger] piece_cell(p, j)).0 < WIDTH && 0 <= piece_cell(p, j).1 < HEIGHT,
                forall|k: int| 0 <= k < CELLS ==> #[trigger] self.board@[k] == if exists|j: int| 0 <= j < i && #[trigger] piece_cell(p, j) == (k % WIDTH as int, k / WIDTH as int) {
                    Some(p.kind)
                } else {
                    b0[k]
                },
                self.next == old(self).next,
                self.bag@ == old(self).bag(),
                self.score == old(self).score,
                self.lines_cleared == old(self).lines_cleared,
                self.gravity_ticks == old(self).gravity_ticks,
                self.rng == old(self).rng,
            decreases 4 - i,
        {
            let (dx, dy) = blocks[i];
            let x = p.x + dx;
            let y = p.y + dy;
            assert(piece_cell(p, i as int) == (x as int, y as int));
            let k = (y * WIDTH + x) as usize;
            proof {
                assert(k as int % WIDTH as int == x as int);
                assert(k as int / WIDTH as int == y as int);
            }
            self.board.set(k, Some(p.kind));
            proof {
                assert forall|m: int| 0 <= m < CELLS implies #[trigger] self.board@[m] == if exists|j: int| 0 <= j < i + 1 && #[trigger] piece_cell(p, j) == (m % WIDTH as int, m / WIDTH as int) {
                    Some(p.kind)
                } else {
                    b0[m]
                } by {
                    if m == k {
                        assert(piece_cell(p, i as int) == (m % WIDTH as int, m / WIDTH as int));
                    } else {
                        if exists|j: int| 0 <= j < i + 1 && #[trigger] piece_cell(p, j) == (m % WIDTH as int, m / WIDTH as int) {
                            let j = choose|j: int| 0 <= j < i + 1 && #[trigger] piece_cell(p, j) == (m % WIDTH as int, m / WIDTH as int);
                            if j == i {
                                assert(m == (m / WIDTH as int) * WIDTH as int + m % WIDTH as int);
                                assert(m == k);
                            }
                        }
                    }
                }
            }
            i = i + 1;
        }
        assert(self.board@ =~= locked(b0, p));
    }

    /// Whether row `y` is full.
    fn is_row_full(&self, y: usize) -> (r: bool)
        requires
            self.board@.len() == CELLS,
            y < 20,
        ensures
            r == row_full(self.board(), y as int),
    {
        let mut x: usize = 0;
        while x < 10
            invariant
                x <= 10,
                y < 20,
                self.board@.len() == CELLS,
                forall|j: int| 0 <= j < x ==> (#[trigger] self.board@[y * WIDTH + j]) is Some,
            decreases 10 - x,
        {
            if self.board[y * 10 + x].is_none() {
                return false;
            }
            x = x + 1;
        }
        true
    }

    /// Removes the full rows, lets the rows above fall into their place,
    /// and returns how many rows were removed.
    fn clear_lines(&mut self) -> (count: usize)
        requires
            old(self).board().len() == CELLS,
        ensures
            count == full_rows(old(self).board(), HEIGHT as nat),
            count <= 20,
            final(self).board() == cleared(old(self).board()),
            final(self).board().len() == CELLS,
            final(self).active() == old(self).active(),
            final(self).next_kind() == old(self).next_kind(),
            final(self).bag() == old(self).bag(),
            final(self).score() == old(self).score(),
            final(self).lines_cleared() == old(self).lines_cleared(),
            final(self).gravity_ticks() == old(self).gravity_ticks(),
            final(self).rng_state() == old(self).rng_state(),
    {
        let ghost b = self.board@;
        let mut kept: Vec<Option<Tetromino>> = Vec::new();
        let mut count: usize = 0;
        let mut y: usize = 0;
        while y < 20
            invariant
                y <= 20,
                self.board@ == b,
                b.len() == CELLS,
                kept@ == kept_rows(b, y as nat),
                count == full_rows(b, y as nat),
                count <= y,
                kept@.len() == (y - count) * 10,
            decreases 20 - y,
        {
            if self.is_row_full(y) {
                count = count + 1;
            } else {
                let mut x: usize = 0;
                let ghost before = kept@;
                while x < 10
                    invariant
                        x <= 10,
                        y < 20,
                        b.len() == CELLS,
                        self.board@ == b,
                        kept@ == before + b.subrange(y * 10, y * 10 + x),
                    decreases 10 - x,
                {
                    kept.push(self.board[y * 10 + x]);
                    x = x + 1;
                    assert(kept@ =~= before + b.subrange(y * 10, y * 10 + x));
                }
            }
            y = y + 1;
        }
        let mut next_board: Vec<Option<Tetromino>> = Vec::new();
        let mut i: usize = 0;
        while i < count * 10
            invariant
                i <= count * 10,
                count <= 20,
                next_board@ == Seq::new(i as nat, |k: int| None::<Tetromino>),
            decreases count * 10 - i,
        {
            next_board.push(None);
            i = i + 1;
            assert(next_board@ =~= Seq::new(i as nat, |k: int| None::<Tetromino>));
        }
        let mut j: usize = 0;
        while j < kept.len()
            invariant
                j <= kept@.len(),
                next_board@ == Seq::new((count * 10) as nat, |k: int| None::<Tetromino>) + kept@.subrange(0, j as int),
            decreases kept@.len() - j,
        {
            next_board.push(kept[j]);
            j = j + 1;
            assert(next_board@ =~= Seq::new((count * 10) as nat, |k: int| None::<Tetromino>) + kept@.subrange(0, j as int));
        }
        assert(kept@.subrange(0, kept@.len() as int) =~= kept@);
        assert(next_board@ =~= cleared(b));
        self.board = next_board;
        count
    }

    /// Drops the piece one row; when it cannot fall it locks, full rows are
    /// cleared and scored, and the next piece enters. The game ends when
    /// the new piece does not fit.
    fn step_down(&mut self, soft_drop: bool) -> (out: AppOutput)
        requires
            old(self).is_valid(),
        ensures
            stepped_down(*old(self), *final(self), out@, old(self).gravity_ticks()),
            out@ is Continue ==> final(self).is_valid(),
    {
        if self.try_move(0, 1) {
            let out = AppOutput::Continue(Vec::new());
            assert(strings_view(Seq::<String>::empty()) =~= Seq::empty());
            return out;
        }
        self.lock_piece();
        let cleared_count = self.clear_lines();
        if cleared_count > 0 {
            self.lines_cleared = self.lines_cleared.wrapping_add(cleared_count as u32);
            let gained = line_clear_score(cleared_count).wrapping_mul(self.level());
            self.score = self.score.wrapping_add(gained);
        }
        self.gravity_ticks = 0;
        self.active = ActivePiece::spawn(self.next);
        self.next = draw_tetromino(&mut self.bag, &mut self.rng);
        proof {
            lemma_piece_cells_range(self.active.kind, self.active.rotation);
        }
        if self.collides_piece(&self.active) {
            let mut msg: Vec<char> = Vec::new();
            push_str(&mut msg, "game over with score ");
            push_decimal(&mut msg, self.score);
            push_str(&mut msg, " on level ");
            let level = self.level();
            push_decimal(&mut msg, level);
            let lines = vec![string_of(msg.as_slice()), owned("type `tetris` to play again")];
            assert(strings_view(lines@) =~= game_over_lines(self.score, level_of(self.lines_cleared)));
            return AppOutput::Exit(lines);
        }
        let out = AppOutput::Continue(Vec::new());
        assert(strings_view(Seq::<String>::empty()) =~= Seq::empty());
        out
    }
}

pub fn start_lines_vec() -> (r: Vec<String>)
    ensures
        strings_view(r@) == start_lines(),
{
    let r = vec![
        owned("tetris started"),
        owned("left/right move, up rotates, down drops faster"),
        owned("press `escape` to leave"),
    ];
    assert(strings_view(r@) =~= start_lines());
    r
}

/// Starts a game of tetris whose pieces are drawn from `rng`.
pub fn launch(rng: RandomSource) -> (r: (TetrisGame, Vec<String>))
    ensures
        fresh(r.0, rng.state()),
        r.0.is_valid(),
        strings_view(r.1@) == start_lines(),
{
    (TetrisGame::new(rng), start_lines_vec())
}

fn border() -> (r: String)
    ensures
        r@ == border_line(),
{
    let dashes = repeat_str("--", 10);
    let mut v: Vec<char> = Vec::new();
    push_str(&mut v, "+");
    push_str(&mut v, dashes.as_str());
    push_str(&mut v, "+");
    assert(v@ =~= border_line());
    string_of(v.as_slice())
}

impl AppRuntime for TetrisGame {
    open spec fn valid(&self) -> bool {
        self.is_valid()
    }

    open spec fn tick_returns(&self) -> bool {
        true
    }

    fn handle_command(&mut self, input: &str) -> (out: AppOutput)
        ensures
            out@ == OutputView::Continue(Seq::empty()),
            *final(self) == *old(self),
    {
        let out = AppOutput::Continue(Vec::new());
        assert(strings_view(Seq::<String>::empty()) =~= Seq::empty());
        out
    }

    fn on_enter(&mut self) {
    }

    /// Left and right move the piece, up rotates it, down drops it one row
    /// at once, and escape ends the game.
    fn handle_key(&mut self, key: AppKey) -> (out: Option<AppOutput>)
        ensures
            out matches Some(o) && key_step(*old(self), key, *final(self), o@),
    {
        match key {
            AppKey::Left => {
                self.try_move(-1, 0);
                let out = AppOutput::Continue(Vec::new());
                assert(strings_view(Seq::<String>::empty()) =~= Seq::empty());
                Some(out)
            },
            AppKey::Right => {
                self.try_move(1, 0);
                let out = AppOutput::Continue(Vec::new());
                assert(strings_view(Seq::<String>::empty()) =~= Seq::empty());
                Some(out)
            },
            AppKey::Down => Some(self.step_down(true)),
            AppKey::Up => {
                self.try_rotate();
                let out = AppOutput::Continue(Vec::new());
                assert(strings_view(Seq::<String>::empty()) =~= Seq::empty());
                Some(out)
            },
            AppKey::Escape => Some(AppOutput::Exit(one_line("tetris over"))),
        }
    }

    fn can_tick(&self) -> (r: bool) {
        true
    }

    /// Counts a tick; when the count reaches the gravity interval it
    /// restarts and the piece steps down.
    fn tick(&mut self) -> (out: Option<AppOutput>)
        ensures
            tick_step(*old(self), *final(self), output_view(out)),
    {
        self.gravity_ticks = self.gravity_ticks + 1;
        if self.gravity_ticks < self.gravity_interval() {
            return None;
        }
        self.gravity_ticks = 0;
        Some(self.step_down(false))
    }

    /// The status line, then the board in a frame with the falling piece.
    fn view(&self) -> (lines: Vec<AppLine>)
        ensures
            app_lines_view(lines@) == board_view(*self),
    {
        let mut header: Vec<char> = Vec::new();
        push_str(&mut header, "score: ");
        push_decimal(&mut header, self.score);
        push_str(&mut header, "   level: ");
        push_decimal(&mut header, self.level());
        push_str(&mut header, "   lines: ");
        push_decimal(&mut header, self.lines_cleared);
        push_str(&mut header, "   next: ");
        push_str(&mut header, self.next.label());
        assert(header@ =~= header_line(*self));
        let mut lines: Vec<AppLine> = Vec::new();
        lines.push(AppLine::text(string_of(header.as_slice())));
        lines.push(AppLine::text(border()));
        let mut y: i32 = 0;
        while y < HEIGHT
            invariant
                0 <= y <= HEIGHT,
                self.is_valid(),
                app_lines_view(lines@) == seq![plain_line(header_line(*self)), plain_line(border_line())]
                    + Seq::new(y as nat, |k: int| row_segments(*self, k)),
            decreases HEIGHT - y,
        {
            let mut row = AppLine::default();
            row.push_plain(owned("|"));
            let mut x: i32 = 0;
            while x < WIDTH
                invariant
                    0 <= x <= WIDTH,
                    0 <= y < HEIGHT,
                    self.is_valid(),
                    row@ == seq![("|"@, None::<Seq<char>>)] + Seq::new(x as nat, |k: int| cell_segment(self.shown(k, y as int))),
                decreases WIDTH - x,
            {
                let c = self.cell_at(x, y);
                push_cell_segment(&mut row, c);
                x = x + 1;
                assert(row@ =~= seq![("|"@, None::<Seq<char>>)] + Seq::new(x as nat, |k: int| cell_segment(self.shown(k, y as int))));
            }
            row.push_plain(owned("|"));
            assert(row@ =~= row_segments(*self, y as int));
            let ghost prev = lines@;
            lines.push(row);
            assert(app_lines_view(lines@) =~= app_lines_view(prev).push(row_segments(*self, y as int)));
            assert(app_lines_view(lines@) =~= seq![plain_line(header_line(*self)), plain_line(border_line())]
                + Seq::new((y + 1) as nat, |k: int| row_segments(*self, k)));
            y = y + 1;
        }
        let ghost prev = lines@;
        lines.push(AppLine::text(border()));
        assert(app_lines_view(lines@) =~= app_lines_view(prev).push(plain_line(border_line())));
        assert(app_lines_view(lines@) =~= board_view(*self));
        lines
    }

    fn mode(&self) -> (m: AppMode)
        ensures
            m == AppMode::Realtime,
    {
        AppMode::Realtime
    }

    fn on_exit(&mut self) {
    }
}

} // verus!
