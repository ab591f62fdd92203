//! Snake on an 18 by 12 board: the snake moves one cell per tick, grows when
//! it eats, and the game ends when it hits a wall or itself.
use vstd::prelude::*;
use vstd::set_lib::{lemma_int_range, lemma_len_subset, set_int_range};
use crate::apps::{
    AppKey, AppLine, AppMode, AppOutput, AppRuntime, OutputView, SegmentView, app_lines_view, plain_line,
};
use crate::random::{RandomSource, next_state};
use crate::text::{decimal, owned, one_line, push_decimal, push_str, repeat, repeat_str, string_of, strings_view, concat_strs};

verus! {

pub const WIDTH: i32 = 18;

pub const HEIGHT: i32 = 12;

/// The number of cells on the board.
pub const CELLS: usize = 216;

pub type Cell = (i32, i32);

#[derive(Clone, Copy, PartialEq, Eq, Structural, Debug)]
pub enum Direction {
    Up,
    Down,
    Left,
    Right,
}

pub open spec fn start_lines() -> Seq<Seq<char>> {
    seq!["snake started"@, "use arrow keys or wasd to move"@, "press `escape` to leave"@]
}

pub open spec fn in_bounds(c: Cell) -> bool {
    0 <= c.0 < WIDTH && 0 <= c.1 < HEIGHT
}

/// The cell one step from `c` in direction `d`.
pub open spec fn step_spec(c: Cell, d: Direction) -> Cell {
    match d {
        Direction::Up => (c.0, (c.1 - 1) as i32),
        Direction::Down => (c.0, (c.1 + 1) as i32),
        Direction::Left => ((c.0 - 1) as i32, c.1),
        Direction::Right => ((c.0 + 1) as i32, c.1),
    }
}

pub open spec fn opposite(a: Direction, b: Direction) -> bool {
    ||| a == Direction::Up && b == Direction::Down
    ||| a == Direction::Down && b == Direction::Up
    ||| a == Direction::Left && b == Direction::Right
    ||| a == Direction::Right && b == Direction::Left
}

/// The position of a cell in row-major order.
pub open spec fn cell_index(c: Cell) -> int {
    c.1 * WIDTH + c.0
}

/// The cell at a row-major position.
pub open spec fn cell_at_index(i: int) -> Cell {
    ((i % 18) as i32, (i / 18) as i32)
}

/// The cells among the first `n` (in row-major order) that `body` does not
/// cover, in that order.
pub open spec fn free_cells(body: Seq<Cell>, n: nat) -> Seq<Cell>
    decreases n,
{
    if n == 0 {
        Seq::empty()
    } else {
        let prev = free_cells(body, (n - 1) as nat);
        let c = cell_at_index(n - 1);
        if body.contains(c) {
            prev
        } else {
            prev.push(c)
        }
    }
}

/// The food a generator in state `s` places beside `body`: a free cell
/// chosen by the next draw.
pub open spec fn placed_food(body: Seq<Cell>, s: u64) -> Cell {
    let free = free_cells(body, CELLS as nat);
    free[(next_state(s) % (free.len() as u64)) as int]
}

/// A body that lies on the board and never covers a cell twice.
pub open spec fn body_ok(body: Seq<Cell>) -> bool {
    &&& forall|i: int| 0 <= i < body.len() ==> in_bounds(#[trigger] body[i])
    &&& body.no_duplicates()
}

pub struct SnakeGame {
    snake: Vec<Cell>,
    direction: Direction,
    queued_direction: Direction,
    food: Cell,
    score: u16,
    rng: RandomSource,
}

pub open spec fn wall_lines(score: u16) -> Seq<Seq<char>> {
    seq!["snake crashed into a wall with score "@ + decimal(score as nat), "type `snake` to play again"@]
}

pub open spec fn self_lines(score: u16) -> Seq<Seq<char>> {
    seq!["snake crashed into itself with score "@ + decimal(score as nat), "type `snake` to play again"@]
}

/// The character drawn for the cell `(x, y)`.
pub open spec fn cell_char(g: SnakeGame, x: i32, y: i32) -> char {
    if (x, y) == g.body()[0] {
        '@'
    } else if g.body().skip(1).contains((x, y)) {
        'o'
    } else if (x, y) == g.food() {
        '*'
    } else {
        ' '
    }
}

pub open spec fn border_line() -> Seq<char> {
    "+"@ + repeat("-"@, 18) + "+"@
}

/// The style class of the food cell.
pub open spec fn food_class() -> Seq<char> {
    "snake-food"@
}

/// The segment drawn for the cell `(x, y)`: the food is styled, the other
/// cells are plain.
pub open spec fn cell_segment(g: SnakeGame, x: i32, y: i32) -> SegmentView {
    if cell_char(g, x, y) == '*' {
        (seq!['*'], Some(food_class()))
    } else {
        (seq![cell_char(g, x, y)], None)
    }
}

/// The row `y` of the board in its frame, cell by cell.
pub open spec fn row_segments(g: SnakeGame, y: i32) -> Seq<SegmentView> {
    seq![("|"@, None::<Seq<char>>)] + Seq::new(18, |x: int| cell_segment(g, x as i32, y)) + seq![
        ("|"@, None::<Seq<char>>),
    ]
}

/// The board as the game draws it: the score, then the rows in a frame.
pub open spec fn board_view(g: SnakeGame) -> Seq<Seq<SegmentView>> {
    seq![plain_line("snake score: "@ + decimal(g.score() as nat)), plain_line(border_line())]
        + Seq::new(12, |y: int| row_segments(g, y as i32)) + seq![plain_line(border_line())]
}

impl SnakeGame {
    /// The cells of the snake, head first.
    pub closed spec fn body(&self) -> Seq<Cell> {
        self.snake@
    }

    pub closed spec fn direction(&self) -> Direction {
        self.direction
    }

    pub closed spec fn queued(&self) -> Direction {
        self.queued_direction
    }

    pub closed spec fn food(&self) -> Cell {
        self.food
    }

    pub closed spec fn score(&self) -> u16 {
        self.score
    }

    pub closed spec fn rng_state(&self) -> u64 {
        self.rng.state()
    }

    /// The snake lies on the board without overlapping itself, is two cells
    /// longer than the score, the food lies on a free cell, and the queued
    /// turn never reverses the current direction.
    pub open spec fn is_valid(&self) -> bool {
        &&& body_ok(self.body())
        &&& self.body().len() == self.score() + 2
        &&& in_bounds(self.food())
        &&& !self.body().contains(self.food())
        &&& !opposite(self.direction(), self.queued())
    }

    /// The cell the head moves to on the next tick.
    pub open spec fn next_head(&self) -> Cell {
        step_spec(self.body()[0], self.queued())
    }

    /// Eating now would leave no free cell for the next food.
    pub open spec fn fills_board(&self) -> bool {
        self.next_head() == self.food() && self.body().len() + 1 == CELLS
    }

    /// A game with the snake in the middle heading right and the food placed
    /// by `rng`.
    pub fn new(mut rng: RandomSource) -> (g: Self)
        ensures
            g.body() == seq![(9i32, 6i32), (8i32, 6i32)],
            g.direction() == Direction::Right,
            g.queued() == Direction::Right,
            g.score() == 0,
            g.food() == placed_food(g.body(), rng.state()),
            g.rng_state() == next_state(rng.state()),
            g.is_valid(),
    {
        let snake = vec![(WIDTH / 2, HEIGHT / 2), (WIDTH / 2 - 1, HEIGHT / 2)];
        assert(snake@.no_duplicates());
        proof {
            lemma_body_len(snake@);
        }
        let food = random_food(&snake, &mut rng);
        SnakeGame {
            snake,
            direction: Direction::Right,
            queued_direction: Direction::Right,
            food,
            score: 0,
            rng,
        }
    }
}

/// The cells of a valid body number at most the cells of the board, and a
/// body that covers every cell fills it.
pub proof fn lemma_body_len(body: Seq<Cell>)
    requires
        body_ok(body),
    ensures
        body.len() <= CELLS,
        body.len() < CELLS ==> free_cells(body, CELLS as nat).len() > 0,
{
    let idx = body.map_values(|c: Cell| cell_index(c));
    assert forall|i: int, j: int| 0 <= i < idx.len() && 0 <= j < idx.len() && i != j implies idx[i]
        != idx[j] by {
        assert(body[i] != body[j]);
        assert(in_bounds(body[i]) && in_bounds(body[j]));
    }
    assert(idx.no_duplicates());
    idx.unique_seq_to_set();
    lemma_int_range(0, CELLS as int);
    assert(idx.to_set().subset_of(set_int_range(0, CELLS as int))) by {
        assert forall|k: int| idx.to_set().contains(k) implies set_int_range(0, CELLS as int).contains(k) by {
            let i = choose|i: int| 0 <= i < idx.len() && idx[i] == k;
            assert(in_bounds(body[i]));
        }
    }
    lemma_len_subset(idx.to_set(), set_int_range(0, CELLS as int));
    if body.len() < CELLS && free_cells(body, CELLS as nat).len() == 0 {
        assert forall|k: int| set_int_range(0, CELLS as int).contains(k) implies idx.to_set().contains(k) by {
            lemma_free_cells_complete(body, CELLS as nat, k);
            let c = cell_at_index(k);
            let i = choose|i: int| 0 <= i < body.len() && body[i] == c;
            assert(idx[i] == k);
        }
        lemma_len_subset(set_int_range(0, CELLS as int), idx.to_set());
    }
}

/// Every cell among the first `n` is either covered or listed as free.
pub proof fn lemma_free_cells_complete(body: Seq<Cell>, n: nat, k: int)
    requires
        0 <= k < n,
        n <= CELLS,
    ensures
        body.contains(cell_at_index(k)) || free_cells(body, n).contains(cell_at_index(k)),
    decreases n,
{
    if k < n - 1 {
        lemma_free_cells_complete(body, (n - 1) as nat, k);
        if !body.contains(cell_at_index(k)) {
            let prev = free_cells(body, (n - 1) as nat);
            let j = choose|j: int| 0 <= j < prev.len() && prev[j] == cell_at_index(k);
            if !body.contains(cell_at_index(n - 1)) {
                assert(prev.push(cell_at_index(n - 1))[j] == cell_at_index(k));
            }
        }
    } else {
        if !body.contains(cell_at_index(k)) {
            let prev = free_cells(body, (n - 1) as nat);
            assert(prev.push(cell_at_index(k))[prev.len() as int] == cell_at_index(k));
        }
    }
}

/// The listed free cells are on the board and not covered.
pub proof fn lemma_free_cells_sound(body: Seq<Cell>, n: nat)
    requires
        n <= CELLS,
    ensures
        forall|i: int|
            0 <= i < free_cells(body, n).len() ==> in_bounds(#[trigger] free_cells(body, n)[i])
                && !body.contains(free_cells(body, n)[i]),
    decreases n,
{
    if n > 0 {
        lemma_free_cells_sound(body, (n - 1) as nat);
        lemma_cell_at_index_in_bounds(n - 1);
        let prev = free_cells(body, (n - 1) as nat);
        let cur = free_cells(body, n);
        assert forall|i: int| 0 <= i < cur.len() implies in_bounds(#[trigger] cur[i]) && !body.contains(
            cur[i],
        ) by {
            if i < prev.len() {
                assert(cur[i] == prev[i]);
            }
        }
    }
}

pub proof fn lemma_cell_at_index_in_bounds(i: int)
    requires
        0 <= i < CELLS,
    ensures
        in_bounds(cell_at_index(i)),
        cell_index(cell_at_index(i)) == i,
{
    assert(0 <= i % 18 < 18);
    assert(0 <= i / 18 < 12);
    assert(i == (i / 18) * 18 + i % 18);
}

/// There are never more free cells than cells looked at.
pub proof fn lemma_free_cells_len(body: Seq<Cell>, n: nat)
    ensures
        free_cells(body, n).len() <= n,
    decreases n,
{
    if n > 0 {
        lemma_free_cells_len(body, (n - 1) as nat);
    }
}

/// Whether `body` covers `c`.
fn covers(body: &Vec<Cell>, c: Cell) -> (r: bool)
    ensures
        r == body@.contains(c),
{
    let mut i: usize = 0;
    while i < body.len()
        invariant
            i <= body@.len(),
            forall|j: int| 0 <= j < i ==> body@[j] != c,
        decreases body@.len() - i,
    {
        if body[i].0 == c.0 && body[i].1 == c.1 {
            return true;
        }
        i = i + 1;
    }
    false
}

/// Whether `body` covers `c` anywhere but at its head.
fn covers_tail(body: &Vec<Cell>, c: Cell) -> (r: bool)
    requires
        body@.len() >= 1,
    ensures
        r == body@.skip(1).contains(c),
{
    let mut i: usize = 1;
    while i < body.len()
        invariant
            1 <= i <= body@.len(),
            forall|j: int| 1 <= j < i ==> body@[j] != c,
        decreases body@.len() - i,
    {
        if body[i].0 == c.0 && body[i].1 == c.1 {
            assert(body@.skip(1)[i - 1] == c);
            return true;
        }
        i = i + 1;
    }
    assert forall|j: int| 0 <= j < body@.skip(1).len() implies body@.skip(1)[j] != c by {
        assert(body@.skip(1)[j] == body@[j + 1]);
    }
    false
}

/// A free cell for the food, chosen by the next draw of `rng`.
pub fn random_food(snake: &Vec<Cell>, rng: &mut RandomSource) -> (food: Cell)
    requires
        body_ok(snake@),
        snake@.len() < CELLS,
    ensures
        food == placed_food(snake@, old(rng).state()),
        final(rng).state() == next_state(old(rng).state()),
        in_bounds(food),
        !snake@.contains(food),
{
    let mut free: Vec<Cell> = Vec::new();
    let mut i: usize = 0;
    while i < CELLS
        invariant
            i <= CELLS,
            free@ == free_cells(snake@, i as nat),
            free@.len() <= i,
        decreases CELLS - i,
    {
        let c: Cell = ((i % 18) as i32, (i / 18) as i32);
        assert(c == cell_at_index(i as int));
        proof {
            lemma_free_cells_len(snake@, i as nat);
        }
        if !covers(snake, c) {
            free.push(c);
        }
        i = i + 1;
    }
    proof {
        lemma_body_len(snake@);
        lemma_free_cells_sound(snake@, CELLS as nat);
    }
    let k = rng.next_below(free.len() as u32);
    free[k as usize]
}

/// The cell one step from `c` in direction `d`.
fn step(c: Cell, d: Direction) -> (r: Cell)
    requires
        in_bounds(c),
    ensures
        r == step_spec(c, d),
{
    match d {
        Direction::Up => (c.0, c.1 - 1),
        Direction::Down => (c.0, c.1 + 1),
        Direction::Left => (c.0 - 1, c.1),
        Direction::Right => (c.0 + 1, c.1),
    }
}

fn is_opposite(current: Direction, next: Direction) -> (r: bool)
    ensures
        r == opposite(current, next),
{
    match (current, next) {
        (Direction::Up, Direction::Down) => true,
        (Direction::Down, Direction::Up) => true,
        (Direction::Left, Direction::Right) => true,
        (Direction::Right, Direction::Left) => true,
        _ => false,
    }
}

pub fn start_lines_vec() -> (r: Vec<String>)
    ensures
        strings_view(r@) == start_lines(),
{
    let r = vec![
        owned("snake started"),
        owned("use arrow keys or wasd to move"),
        owned("press `escape` to leave"),
    ];
    assert(strings_view(r@) =~= start_lines());
    r
}

/// Starts a game of snake whose food is placed by `rng`.
pub fn launch(rng: RandomSource) -> (r: (SnakeGame, Vec<String>))
    ensures
        fresh(r.0, rng.state()),
        r.0.is_valid(),
        strings_view(r.1@) == start_lines(),
{
    (SnakeGame::new(rng), start_lines_vec())
}

/// The lines that end the game, with the score.
fn crash_lines(prefix: &str, score: u16) -> (r: Vec<String>)
    ensures
        strings_view(r@) == seq![prefix@ + decimal(score as nat), "type `snake` to play again"@],
{
    let mut msg: Vec<char> = Vec::new();
    push_str(&mut msg, prefix);
    push_decimal(&mut msg, score as u32);
    let r = vec![string_of(msg.as_slice()), owned("type `snake` to play again")];
    assert(strings_view(r@) =~= seq![prefix@ + decimal(score as nat), "type `snake` to play again"@]);
    r
}

fn key_direction(key: AppKey) -> (d: Direction)
    requires
        key != AppKey::Escape,
    ensures
        key == AppKey::Up ==> d == Direction::Up,
        key == AppKey::Down ==> d == Direction::Down,
        key == AppKey::Left ==> d == Direction::Left,
        key == AppKey::Right ==> d == Direction::Right,
{
    match key {
        AppKey::Up => Direction::Up,
        AppKey::Down => Direction::Down,
        AppKey::Left => Direction::Left,
        _ => Direction::Right,
    }
}

/// A game just started from a generator in state `s`: the snake in the
/// middle heading right, the food placed by the next draw.
pub open spec fn fresh(g: SnakeGame, s: u64) -> bool {
    &&& g.body() == seq![(9i32, 6i32), (8i32, 6i32)]
    &&& g.direction() == Direction::Right
    &&& g.queued() == Direction::Right
    &&& g.score() == 0
    &&& g.food() == placed_food(g.body(), s)
    &&& g.rng_state() == next_state(s)
}

/// What a key does: escape ends the game, an arrow queues a turn unless it
/// reverses the snake.
pub open spec fn key_step(g: SnakeGame, key: AppKey, h: SnakeGame, o: OutputView) -> bool {
    &&& (key == AppKey::Escape ==> {
        &&& o == OutputView::Exit(seq!["snake over"@])
        &&& h == g
    })
    &&& (key != AppKey::Escape ==> {
        &&& o == OutputView::Continue(Seq::empty())
        &&& h.body() == g.body()
        &&& h.food() == g.food()
        &&& h.score() == g.score()
        &&& h.rng_state() == g.rng_state()
        &&& h.direction() == g.direction()
        &&& h.queued() == if opposite(g.direction(), key_dir(key)) {
            g.queued()
        } else {
            key_dir(key)
        }
    })
}

/// What a tick does: the snake moves one cell; a wall or its own body ends
/// the game, the food makes it grow and is placed again.
pub open spec fn tick_step(g: SnakeGame, h: SnakeGame, o: OutputView) -> bool {
    &&& h.direction() == g.queued()
    &&& h.queued() == g.queued()
    &&& (!in_bounds(g.next_head()) ==> {
        &&& o == OutputView::Exit(wall_lines(g.score()))
        &&& h.body() == g.body()
        &&& h.food() == g.food()
        &&& h.score() == g.score()
        &&& h.rng_state() == g.rng_state()
    })
    &&& (in_bounds(g.next_head()) && g.body().contains(g.next_head()) ==> {
        &&& o == OutputView::Exit(self_lines(g.score()))
        &&& h.body() == g.body()
        &&& h.food() == g.food()
        &&& h.score() == g.score()
        &&& h.rng_state() == g.rng_state()
    })
    &&& (in_bounds(g.next_head()) && !g.body().contains(g.next_head()) ==> {
        &&& o == OutputView::Continue(Seq::empty())
        &&& if g.next_head() == g.food() {
            &&& h.body() == seq![g.next_head()] + g.body()
            &&& h.score() == g.score() + 1
            &&& h.food() == placed_food(h.body(), g.rng_state())
            &&& h.rng_state() == next_state(g.rng_state())
        } else {
            &&& h.body() == seq![g.next_head()] + g.body().drop_last()
            &&& h.score() == g.score()
            &&& h.food() == g.food()
            &&& h.rng_state() == g.rng_state()
        }
    })
}

/// The direction a key asks for.
pub open spec fn key_dir(key: AppKey) -> Direction {
    match key {
        AppKey::Up => Direction::Up,
        AppKey::Down => Direction::Down,
        AppKey::Left => Direction::Left,
        _ => Direction::Right,
    }
}

impl AppRuntime for SnakeGame {
    open spec fn valid(&self) -> bool {
        self.is_valid()
    }

    open spec fn tick_returns(&self) -> bool {
        !self.fills_board()
    }

    fn handle_command(&mut self, input: &str) -> (out: AppOutput)
        ensures
            out@ == OutputView::Continue(Seq::empty()),
            *final(self) == *old(self),
    {
        let out = AppOutput::Continue(Vec::new());
        assert(strings_view(Seq::<String>::empty()) =~= Seq::empty());
        out
    }

    fn on_enter(&mut self) {
    }

    /// Arrow keys queue a turn unless it reverses the snake; escape ends
    /// the game.
    fn handle_key(&mut self, key: AppKey) -> (out: Option<AppOutput>)
        ensures
            out matches Some(o) && key_step(*old(self), key, *final(self), o@),
    {
        if key == AppKey::Escape {
            return Some(AppOutput::Exit(one_line("snake over")));
        }
        let next = key_direction(key);
        if !is_opposite(self.direction, next) {
            self.queued_direction = next;
        }
        let out = AppOutput::Continue(Vec::new());
        assert(strings_view(Seq::<String>::empty()) =~= Seq::empty());
        Some(out)
    }

    fn can_tick(&self) -> (r: bool) {
        let next = step(self.snake[0], self.queued_direction);
        !(next.0 == self.food.0 && next.1 == self.food.1 && self.snake.len() == CELLS - 1)
    }

    /// Moves the snake one cell: a wall or its own body ends the game, the
    /// food makes it grow and is placed again.
    fn tick(&mut self) -> (out: Option<AppOutput>)
        ensures
            out matches Some(o) && tick_step(*old(self), *final(self), o@),
    {
        proof {
            lemma_body_len(self.snake@);
        }
        self.direction = self.queued_direction;
        let head = self.snake[0];
        let next = step(head, self.direction);
        if next.0 < 0 || next.0 >= WIDTH || next.1 < 0 || next.1 >= HEIGHT {
            return Some(AppOutput::Exit(crash_lines("snake crashed into a wall with score ", self.score)));
        }
        if covers(&self.snake, next) {
            return Some(AppOutput::Exit(crash_lines("snake crashed into itself with score ", self.score)));
        }
        let ghost before = self.snake@;
        self.snake.insert(0, next);
        assert(self.snake@ =~= seq![next] + before);
        proof {
            assert forall|i: int, j: int|
                0 <= i < self.snake@.len() && 0 <= j < self.snake@.len() && i != j implies self.snake@[i]
                != self.snake@[j] by {
                if i == 0 {
                    assert(before.contains(self.snake@[j]));
                } else if j == 0 {
                    assert(before.contains(self.snake@[i]));
                }
            }
        }
        if next.0 == self.food.0 && next.1 == self.food.1 {
            self.score = self.score + 1;
            proof {
                lemma_body_len(self.snake@);
            }
            self.food = random_food(&self.snake, &mut self.rng);
        } else {
            self.snake.pop();
            assert(self.snake@ =~= seq![next] + before.drop_last());
            assert(!self.snake@.contains(self.food)) by {
                if self.snake@.contains(self.food) {
                    let i = choose|i: int| 0 <= i < self.snake@.len() && self.snake@[i] == self.food;
                    if i > 0 {
                        assert(before[i - 1] == self.food);
                    }
                }
            }
        }
        let out = AppOutput::Continue(Vec::new());
        assert(strings_view(Seq::<String>::empty()) =~= Seq::empty());
        Some(out)
    }

    /// The score, then the board in a frame, with the food styled.
    fn view(&self) -> (lines: Vec<AppLine>)
        ensures
            app_lines_view(lines@) == board_view(*self),
    {
        let mut head_msg: Vec<char> = Vec::new();
        push_str(&mut head_msg, "snake score: ");
        push_decimal(&mut head_msg, self.score as u32);
        let mut lines: Vec<AppLine> = Vec::new();
        lines.push(AppLine::text(string_of(head_msg.as_slice())));
        lines.push(AppLine::text(border()));
        let mut y: i32 = 0;
        while y < HEIGHT
            invariant
                0 <= y <= HEIGHT,
                self.snake@.len() >= 1,
                app_lines_view(lines@) == seq![
                    plain_line("snake score: "@ + decimal(self.score as nat)),
                    plain_line(border_line()),
                ] + Seq::new(y as nat, |k: int| row_segments(*self, k as i32)),
            decreases HEIGHT - y,
        {
            let row = self.row(y);
            let ghost prev = lines@;
            lines.push(row);
            proof {
                assert(app_lines_view(lines@) =~= app_lines_view(prev).push(row_segments(*self, y)));
                assert(app_lines_view(lines@) =~= seq![
                    plain_line("snake score: "@ + decimal(self.score as nat)),
                    plain_line(border_line()),
                ] + Seq::new((y + 1) as nat, |k: int| row_segments(*self, k as i32)));
            }
            y = y + 1;
        }
        let ghost prev = lines@;
        lines.push(AppLine::text(border()));
        assert(app_lines_view(lines@) =~= app_lines_view(prev).push(plain_line(border_line())));
        assert(app_lines_view(lines@) =~= board_view(*self));
        lines
    }

    fn mode(&self) -> (m: AppMode)
        ensures
            m == AppMode::Realtime,
    {
        AppMode::Realtime
    }

    fn on_exit(&mut self) {
    }
}

fn border() -> (r: String)
    ensures
        r@ == border_line(),
{
    let dashes = repeat_str("-", 18);
    let mut v: Vec<char> = Vec::new();
    push_str(&mut v, "+");
    push_str(&mut v, dashes.as_str());
    push_str(&mut v, "+");
    assert(v@ =~= border_line());
    string_of(v.as_slice())
}

impl SnakeGame {
    /// One row of the board, framed.
    /// The row `y` of the board, cell by cell.
    fn row(&self, y: i32) -> (r: AppLine)
        requires
            self.snake@.len() >= 1,
        ensures
            r@ == row_segments(*self, y),
    {
        let mut line = AppLine::empty();
        line.push_plain(owned("|"));
        let mut x: i32 = 0;
        while x < WIDTH
            invariant
                0 <= x <= WIDTH,
                self.snake@.len() >= 1,
                line@ == seq![("|"@, None::<Seq<char>>)] + Seq::new(
                    x as nat,
                    |k: int| cell_segment(*self, k as i32, y),
                ),
            decreases WIDTH - x,
        {
            let head = self.snake[0];
            let c = if x == head.0 && y == head.1 {
                '@'
            } else if covers_tail(&self.snake, (x, y)) {
                'o'
            } else if x == self.food.0 && y == self.food.1 {
                '*'
            } else {
                ' '
            };
            assert(c == cell_char(*self, x, y));
            let ghost prev = line@;
            if c == '*' {
                line.push_styled(owned("*"), "snake-food");
                proof {
                    reveal_strlit("*");
                    assert("*"@ =~= seq!['*']);
                    assert(cell_segment(*self, x, y) == (seq!['*'], Some(food_class())));
                    assert(line@ == prev.push(("*"@, Some("snake-food"@))));
                }
            } else {
                let one: Vec<char> = vec![c];
                assert(one@ =~= seq![c]);
                line.push_plain(string_of(one.as_slice()));
                assert(cell_segment(*self, x, y) == (seq![c], None::<Seq<char>>));
                assert(line@ == prev.push((seq![c], None::<Seq<char>>)));
            }
            assert(line@ =~= prev.push(cell_segment(*self, x, y)));
            assert(line@ =~= seq![("|"@, None::<Seq<char>>)] + Seq::new(
                (x + 1) as nat,
                |k: int| cell_segment(*self, k as i32, y),
            ));
            x = x + 1;
        }
        let ghost prev = line@;
        line.push_plain(owned("|"));
        assert(line@ =~= row_segments(*self, y));
        line
    }
}

/// Two directions are opposite exactly when a step in the one followed by a
/// step in the other leads back to the cell where it began, from any cell on
/// the board.
pub proof fn lemma_opposite_is_reversal(a: Direction, b: Direction, c: Cell)
    requires
        in_bounds(c),
    ensures
        opposite(a, b) <==> step_spec(step_spec(c, a), b) == c,
{
}

/// A key that would send the snake straight back over its own neck never
/// changes the queued turn; any other arrow key becomes the queued turn.
pub proof fn lemma_reversing_key_is_ignored(g: SnakeGame, key: AppKey, h: SnakeGame, o: OutputView)
    requires
        g.is_valid(),
        key != AppKey::Escape,
        key_step(g, key, h, o),
    ensures
        step_spec(step_spec(g.body()[0], g.direction()), key_dir(key)) == g.body()[0]
            ==> h.queued() == g.queued(),
        step_spec(step_spec(g.body()[0], g.direction()), key_dir(key)) != g.body()[0]
            ==> h.queued() == key_dir(key),
        h.direction() == g.direction(),
        h.body() == g.body(),
{
    assert(in_bounds(g.body()[0]));
    lemma_opposite_is_reversal(g.direction(), key_dir(key), g.body()[0]);
}

/// The arrow keys steer the head one cell toward the top, the bottom, the
/// left or the right edge of the board; rows count down from the top.
pub proof fn lemma_keys_steer(c: Cell)
    requires
        in_bounds(c),
    ensures
        step_spec(c, key_dir(AppKey::Up)) == (c.0, (c.1 - 1) as i32),
        step_spec(c, key_dir(AppKey::Down)) == (c.0, (c.1 + 1) as i32),
        step_spec(c, key_dir(AppKey::Left)) == ((c.0 - 1) as i32, c.1),
        step_spec(c, key_dir(AppKey::Right)) == ((c.0 + 1) as i32, c.1),
{
}

} // verus!
