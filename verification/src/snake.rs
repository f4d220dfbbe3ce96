//! The snake game: steer the snake to the food on a 20 × 13 board without
//! running into the walls or into itself.

use vstd::prelude::*;
use vstd::set_lib::set_int_range;

verus! {

pub const BOARD_WIDTH: u8 = 20;

pub const BOARD_HEIGHT: u8 = 13;

pub const BOARD_CELLS: usize = 260;

/// Tick interval of the game, in milliseconds.
pub const TICK_MS: u64 = 140;

/// One board cell.
#[derive(Clone, Copy, Debug, PartialEq, Eq, Structural)]
pub struct Cell {
    pub x: u8,
    pub y: u8,
}

/// A cell as the UI draws it.
#[derive(Clone, Copy, Debug, PartialEq, Eq, Structural)]
pub struct SnakeCell {
    pub x: i32,
    pub y: i32,
}

impl SnakeCell {
    pub fn from(cell: Cell) -> (ui: SnakeCell)
        ensures
            ui.x == cell.x as i32,
            ui.y == cell.y as i32,
    {
        SnakeCell { x: cell.x as i32, y: cell.y as i32 }
    }
}

/// A direction the snake can move in.
#[derive(Clone, Copy, Debug, PartialEq, Eq, Structural)]
pub enum Direction {
    Up,
    Down,
    Left,
    Right,
}

pub open spec fn opposite(a: Direction, b: Direction) -> bool {
    match (a, b) {
        (Direction::Up, Direction::Down) => true,
        (Direction::Down, Direction::Up) => true,
        (Direction::Left, Direction::Right) => true,
        (Direction::Right, Direction::Left) => true,
        _ => false,
    }
}

impl Direction {
    /// Whether `other` points the opposite way.
    pub fn is_opposite(self, other: Self) -> (result: bool)
        ensures
            result == opposite(self, other),
    {
        match (self, other) {
            (Direction::Up, Direction::Down) => true,
            (Direction::Down, Direction::Up) => true,
            (Direction::Left, Direction::Right) => true,
            (Direction::Right, Direction::Left) => true,
            _ => false,
        }
    }
}

/// What one tick of the game did.
#[derive(Clone, Copy, Debug, PartialEq, Eq, Structural)]
pub enum AdvanceResult {
    Moved,
    Ate,
    GameOver,
    Won,
}

// ── random numbers ───────────────────────────────────────────────────────

/// One step of the 32-bit xorshift generator (shifts 13, 17, 5).
pub open spec fn xorshift(value: u32) -> u32 {
    let a = value ^ (value << 13u32);
    let b = a ^ (a >> 17u32);
    b ^ (b << 5u32)
}

/// A 32-bit xorshift random number generator.
pub struct XorShift32(pub u32);

impl XorShift32 {
    /// Seeds the generator; a zero seed, which xorshift would never leave,
    /// is replaced by a fixed nonzero one.
    pub fn new(seed: u32) -> (rng: Self)
        ensures
            rng.0 == if seed == 0 { 0x6d2b_79f5u32 } else { seed },
            rng.0 != 0,
    {
        XorShift32(if seed == 0 { 0x6d2b_79f5 } else { seed })
    }

    /// Advances the generator and returns the new state.
    pub fn next(&mut self) -> (value: u32)
        ensures
            value == xorshift(old(self).0),
            final(self).0 == value,
    {
        let mut value = self.0;
        value ^= value << 13u32;
        value ^= value >> 17u32;
        value ^= value << 5u32;
        self.0 = value;
        value
    }
}

/// A nonzero xorshift state stays nonzero, so the generator never gets
/// stuck at zero.
pub proof fn lemma_xorshift_nonzero(value: u32)
    requires
        value != 0,
    ensures
        xorshift(value) != 0,
{
    let a = value ^ (value << 13u32);
    let b = a ^ (a >> 17u32);
    assert(value != 0 ==> value ^ (value << 13u32) != 0) by (bit_vector);
    assert(a != 0 ==> a ^ (a >> 17u32) != 0) by (bit_vector);
    assert(b != 0 ==> b ^ (b << 5u32) != 0) by (bit_vector);
}

// ── the fixed-capacity snake body and turn queue ─────────────────────────

/// The cells of a snake body, head first.
pub uninterp spec fn snake_body(body: heapless::Vec<Cell, 260>) -> Seq<Cell>;

/// The queued turns of a turn queue, front first.
pub uninterp spec fn turn_queue(queue: heapless::Deque<Direction, 2>) -> Seq<Direction>;

/// `heapless::Vec::new`: an empty body.
#[verifier::external_body]
fn body_new() -> (body: heapless::Vec<Cell, 260>)
    ensures
        snake_body(body) == Seq::<Cell>::empty(),
{
    heapless::Vec::new()
}

/// The length of a body; never more than its capacity of 260.
#[verifier::external_body]
fn body_len(body: &heapless::Vec<Cell, 260>) -> (len: usize)
    ensures
        len == snake_body(*body).len(),
        len <= 260,
{
    body.len()
}

/// Reads cell `index` of a body.
#[verifier::external_body]
fn body_get(body: &heapless::Vec<Cell, 260>, index: usize) -> (cell: Cell)
    requires
        index < snake_body(*body).len(),
    ensures
        cell == snake_body(*body)[index as int],
{
    body[index]
}

/// `heapless::Vec::push`: appends unless full; returns whether it did.
#[verifier::external_body]
fn body_push(body: &mut heapless::Vec<Cell, 260>, cell: Cell) -> (pushed: bool)
    ensures
        pushed == (snake_body(*old(body)).len() < 260),
        pushed ==> snake_body(*final(body)) == snake_body(*old(body)).push(cell),
        !pushed ==> snake_body(*final(body)) == snake_body(*old(body)),
{
    body.push(cell).is_ok()
}

/// `heapless::Vec::pop`: removes the last cell.
#[verifier::external_body]
fn body_pop(body: &mut heapless::Vec<Cell, 260>) -> (cell: Option<Cell>)
    ensures
        snake_body(*old(body)).len() == 0 ==> cell is None && snake_body(*final(body)) == snake_body(
            *old(body),
        ),
        snake_body(*old(body)).len() > 0 ==> cell == Some(snake_body(*old(body)).last())
            && snake_body(*final(body)) == snake_body(*old(body)).drop_last(),
{
    body.pop()
}

/// `heapless::Vec::insert` at the front: inserts unless full; returns
/// whether it did.
#[verifier::external_body]
fn body_insert_front(body: &mut heapless::Vec<Cell, 260>, cell: Cell) -> (inserted: bool)
    ensures
        inserted == (snake_body(*old(body)).len() < 260),
        inserted ==> snake_body(*final(body)) == seq![cell] + snake_body(*old(body)),
        !inserted ==> snake_body(*final(body)) == snake_body(*old(body)),
{
    body.insert(0, cell).is_ok()
}

/// `heapless::Deque::new`: an empty queue.
#[verifier::external_body]
fn queue_new() -> (queue: heapless::Deque<Direction, 2>)
    ensures
        turn_queue(queue) == Seq::<Direction>::empty(),
{
    heapless::Deque::new()
}

/// `heapless::Deque::back`: the last queued turn.
#[verifier::external_body]
fn queue_back(queue: &heapless::Deque<Direction, 2>) -> (back: Option<Direction>)
    ensures
        turn_queue(*queue).len() == 0 ==> back is None,
        turn_queue(*queue).len() > 0 ==> back == Some(turn_queue(*queue).last()),
{
    queue.back().copied()
}

/// `heapless::Deque::push_back`: queues a turn unless full; returns whether
/// it did.
#[verifier::external_body]
fn queue_push_back(queue: &mut heapless::Deque<Direction, 2>, direction: Direction) -> (pushed: bool)
    ensures
        pushed == (turn_queue(*old(queue)).len() < 2),
        pushed ==> turn_queue(*final(queue)) == turn_queue(*old(queue)).push(direction),
        !pushed ==> turn_queue(*final(queue)) == turn_queue(*old(queue)),
{
    queue.push_back(direction).is_ok()
}

/// `heapless::Deque::pop_front`: takes the first queued turn.
#[verifier::external_body]
fn queue_pop_front(queue: &mut heapless::Deque<Direction, 2>) -> (front: Option<Direction>)
    ensures
        turn_queue(*old(queue)).len() == 0 ==> front is None && turn_queue(*final(queue)) == turn_queue(
            *old(queue),
        ),
        turn_queue(*old(queue)).len() > 0 ==> front == Some(turn_queue(*old(queue))[0])
            && turn_queue(*final(queue)) == turn_queue(*old(queue)).drop_first(),
{
    queue.pop_front()
}

// ── game model ───────────────────────────────────────────────────────────

/// Board cell number `i`, row by row from the top left.
pub open spec fn board_cell(i: int) -> Cell {
    Cell { x: (i % 20) as u8, y: (i / 20) as u8 }
}

/// Whether a cell lies on the board.
pub open spec fn on_board(c: Cell) -> bool {
    c.x < BOARD_WIDTH && c.y < BOARD_HEIGHT
}

/// The free cells among the first `k` board cells, in board order.
pub open spec fn free_prefix(snake: Seq<Cell>, k: nat) -> Seq<Cell>
    decreases k,
{
    if k == 0 {
        Seq::empty()
    } else if snake.contains(board_cell(k - 1)) {
        free_prefix(snake, (k - 1) as nat)
    } else {
        free_prefix(snake, (k - 1) as nat).push(board_cell(k - 1))
    }
}

/// The cells not covered by the snake, in board order.
pub open spec fn free_cells(snake: Seq<Cell>) -> Seq<Cell> {
    free_prefix(snake, BOARD_CELLS as nat)
}

/// The `n`-th free cell in board order, if there are more than `n`.
pub open spec fn nth_free(snake: Seq<Cell>, n: int) -> Option<Cell> {
    if 0 <= n < free_cells(snake).len() {
        Some(free_cells(snake)[n])
    } else {
        None
    }
}

/// Where food is placed for the random number `r`: the `r mod f`-th free
/// cell, where `f` is the number of cells the snake leaves free.
pub open spec fn food_for(snake: Seq<Cell>, r: u32) -> Option<Cell> {
    if snake.len() >= BOARD_CELLS {
        None
    } else {
        nth_free(snake, (r as int) % ((BOARD_CELLS - snake.len()) as int))
    }
}

/// The food and generator state after placing food: a snake that covers
/// the board gets no food and leaves the generator alone; otherwise the
/// generator steps once and its new value picks the cell.
pub open spec fn placed_food(snake: Seq<Cell>, rng: u32) -> (Option<Cell>, u32) {
    if snake.len() >= BOARD_CELLS {
        (None, rng)
    } else {
        (food_for(snake, xorshift(rng)), xorshift(rng))
    }
}

/// The head position after one step in `direction`, if it stays on the board.
pub open spec fn step(head: Cell, direction: Direction) -> Option<Cell> {
    let (dx, dy) = match direction {
        Direction::Up => (0int, -1int),
        Direction::Down => (0int, 1int),
        Direction::Left => (-1int, 0int),
        Direction::Right => (1int, 0int),
    };
    let nx = head.x + dx;
    let ny = head.y + dy;
    if nx < 0 || nx >= BOARD_WIDTH || ny < 0 || ny >= BOARD_HEIGHT {
        None
    } else {
        Some(Cell { x: nx as u8, y: ny as u8 })
    }
}

/// The state of a snake game as specifications see it.
pub struct SnakeView {
    pub snake: Seq<Cell>,
    pub direction: Direction,
    pub queued: Seq<Direction>,
    pub food: Option<Cell>,
    pub score: u16,
    pub rng: u32,
}

/// Whether a snake game state is consistent: the snake is on the board,
/// never crosses itself, grows by one cell per food eaten, and the food
/// lies on a free board cell.
pub open spec fn snake_wf(g: SnakeView) -> bool {
    &&& 1 <= g.snake.len() <= BOARD_CELLS
    &&& g.snake.no_duplicates()
    &&& forall|i: int| 0 <= i < g.snake.len() ==> on_board(#[trigger] g.snake[i])
    &&& g.snake.len() == 4 + g.score
    &&& g.queued.len() <= 2
    &&& g.food matches Some(f) ==> on_board(f) && !g.snake.contains(f)
}

/// The direction queue after the player asks for `direction`: it is queued
/// unless it repeats or reverses the last queued (or current) direction, or
/// two turns are already queued.
pub open spec fn queued_after(g: SnakeView, direction: Direction) -> Seq<Direction> {
    let previous = if g.queued.len() > 0 { g.queued.last() } else { g.direction };
    if direction != previous && !opposite(direction, previous) && g.queued.len() < 2 {
        g.queued.push(direction)
    } else {
        g.queued
    }
}

/// The game after one tick and what happened.
pub open spec fn advanced(g: SnakeView) -> (SnakeView, AdvanceResult) {
    let direction = if g.queued.len() > 0 { g.queued[0] } else { g.direction };
    let queued = if g.queued.len() > 0 { g.queued.drop_first() } else { g.queued };
    let turned = SnakeView { direction, queued, ..g };
    match step(g.snake[0], direction) {
        None => (turned, AdvanceResult::GameOver),
        Some(next) => {
            let ate = g.food == Some(next);
            let collision_length = if ate { g.snake.len() } else { (g.snake.len() - 1) as nat };
            if g.snake.take(collision_length as int).contains(next) {
                (turned, AdvanceResult::GameOver)
            } else if !ate {
                (SnakeView { snake: seq![next] + g.snake.drop_last(), ..turned }, AdvanceResult::Moved)
            } else {
                let snake = seq![next] + g.snake;
                let (food, rng) = placed_food(snake, g.rng);
                (
                    SnakeView {
                        snake,
                        score: (g.score + 1) as u16,
                        food,
                        rng,
                        ..turned
                    },
                    if food is Some { AdvanceResult::Ate } else { AdvanceResult::Won },
                )
            }
        },
    }
}

/// A tick moves the head one cell in the direction it takes (the first
/// queued turn, else the current direction): left is one column less,
/// right one more, up one row less, down one row more. Only a step off the
/// board or onto the snake ends the game; otherwise the new head is that
/// cell and the snake keeps the direction taken.
pub proof fn lemma_tick_moves_head(g: SnakeView)
    requires
        g.snake.len() >= 1,
    ensures
        ({
            let (after, result) = advanced(g);
            let taken = if g.queued.len() > 0 { g.queued[0] } else { g.direction };
            let head = g.snake[0];
            let off_board = match taken {
                Direction::Left => head.x == 0,
                Direction::Right => head.x + 1 >= 20,
                Direction::Up => head.y == 0,
                Direction::Down => head.y + 1 >= 13,
            };
            &&& after.direction == taken
            &&& off_board ==> result == AdvanceResult::GameOver
            &&& result != AdvanceResult::GameOver ==> {
                &&& after.snake.len() >= 1
                &&& match taken {
                    Direction::Left => after.snake[0].x == head.x - 1 && after.snake[0].y == head.y,
                    Direction::Right => after.snake[0].x == head.x + 1 && after.snake[0].y == head.y,
                    Direction::Up => after.snake[0].x == head.x && after.snake[0].y == head.y - 1,
                    Direction::Down => after.snake[0].x == head.x && after.snake[0].y == head.y + 1,
                }
            }
        }),
{
}

/// What a tick does to the snake: a plain move keeps the length, the body
/// following the head cell by cell, and keeps score and food; eating grows
/// the snake by one cell at the head, keeps the whole old body and scores
/// one point, with new food placed off the snake, or none when the board
/// is full (the game is won); a collision leaves snake and score as they
/// were. A tick that goes on never moves the head onto the body it keeps.
pub proof fn lemma_tick_outcomes(g: SnakeView)
    requires
        snake_wf(g),
    ensures
        ({
            let (after, result) = advanced(g);
            let n = g.snake.len() as int;
            &&& result == AdvanceResult::Moved ==> {
                &&& after.snake.len() == n
                &&& after.snake.subrange(1, n) == g.snake.subrange(0, n - 1)
                &&& after.score == g.score
                &&& after.food == g.food
                &&& !g.snake.subrange(0, n - 1).contains(after.snake[0])
            }
            &&& result == AdvanceResult::Ate ==> {
                &&& after.snake.len() == n + 1
                &&& after.snake.subrange(1, n + 1) == g.snake
                &&& after.score == g.score + 1
                &&& g.food == Some(after.snake[0])
                &&& !g.snake.contains(after.snake[0])
                &&& after.food matches Some(f) && !after.snake.contains(f)
            }
            &&& result == AdvanceResult::Won ==> {
                &&& after.snake.len() == n + 1
                &&& after.snake.subrange(1, n + 1) == g.snake
                &&& after.score == g.score + 1
                &&& after.food is None
            }
            &&& result == AdvanceResult::GameOver ==> after.snake == g.snake && after.score == g.score
        }),
{
    let (after, result) = advanced(g);
    let n = g.snake.len() as int;
    if result == AdvanceResult::Moved {
        assert(after.snake.subrange(1, n) =~= g.snake.subrange(0, n - 1));
    }
    if result == AdvanceResult::Ate || result == AdvanceResult::Won {
        assert(after.snake.subrange(1, n + 1) =~= g.snake);
        assert(g.snake.take(n) =~= g.snake);
    }
    if result == AdvanceResult::Ate {
        lemma_food_for_free(after.snake, g.rng);
    }
}

/// A running snake game.
pub struct Game {
    snake: heapless::Vec<Cell, 260>,
    direction: Direction,
    queued_directions: heapless::Deque<Direction, 2>,
    food: Option<Cell>,
    score: u16,
    rng: XorShift32,
}

impl Game {
    pub closed spec fn view(&self) -> SnakeView {
        SnakeView {
            snake: snake_body(self.snake),
            direction: self.direction,
            queued: turn_queue(self.queued_directions),
            food: self.food,
            score: self.score,
            rng: self.rng.0,
        }
    }

    pub open spec fn wf(&self) -> bool {
        snake_wf(self.view())
    }

    /// The starting snake: four cells in the middle row, heading right.
    pub open spec fn start_snake() -> Seq<Cell> {
        seq![Cell { x: 10, y: 6 }, Cell { x: 9, y: 6 }, Cell { x: 8, y: 6 }, Cell { x: 7, y: 6 }]
    }

    /// A new game seeded with `seed`, with the first food placed.
    pub fn new(seed: u32) -> (game: Self)
        ensures
            game.wf(),
            game.view().snake == Self::start_snake(),
            game.view().direction == Direction::Right,
            game.view().queued == Seq::<Direction>::empty(),
            game.view().score == 0,
            ({
                let s0 = if seed == 0 { 0x6d2b_79f5u32 } else { seed };
                &&& (game.view().food, game.view().rng) == placed_food(Self::start_snake(), s0)
            }),
    {
        let mut snake = body_new();
        body_push(&mut snake, Cell { x: 10, y: 6 });
        body_push(&mut snake, Cell { x: 9, y: 6 });
        body_push(&mut snake, Cell { x: 8, y: 6 });
        body_push(&mut snake, Cell { x: 7, y: 6 });
        let mut game = Game {
            snake,
            direction: Direction::Right,
            queued_directions: queue_new(),
            food: None,
            score: 0,
            rng: XorShift32::new(seed),
        };
        proof {
            let s = snake_body(game.snake);
            assert(s =~= Self::start_snake());
            assert(s.no_duplicates()) by {
                assert forall|a: int, b: int| 0 <= a < s.len() && 0 <= b < s.len() && a != b implies s[a]
                    != s[b] by {}
            }
        }
        let ghost rng0 = game.view().rng;
        let food = game.place_food();
        game.food = food;
        proof {
            lemma_food_for_free(game.view().snake, rng0);
        }
        game
    }

    /// The snake's cells, head first.
    pub fn cells(&self) -> (cells: Vec<Cell>)
        ensures
            cells@ == self.view().snake,
    {
        let mut out: Vec<Cell> = Vec::new();
        let n = body_len(&self.snake);
        let mut i: usize = 0;
        while i < n
            invariant
                i <= n,
                n == self.view().snake.len(),
                out@ == self.view().snake.take(i as int),
            decreases n - i,
        {
            out.push(body_get(&self.snake, i));
            proof {
                assert(out@ =~= self.view().snake.take(i + 1));
            }
            i = i + 1;
        }
        proof {
            assert(self.view().snake.take(n as int) =~= self.view().snake);
        }
        out
    }

    /// The snake's cells as the UI draws them, head first.
    pub fn ui_cells(&self) -> (cells: Vec<SnakeCell>)
        ensures
            cells@.len() == self.view().snake.len(),
            forall|i: int|
                0 <= i < cells@.len() ==> #[trigger] cells@[i] == (SnakeCell {
                    x: self.view().snake[i].x as i32,
                    y: self.view().snake[i].y as i32,
                }),
    {
        let mut out: Vec<SnakeCell> = Vec::new();
        let n = body_len(&self.snake);
        let mut i: usize = 0;
        while i < n
            invariant
                i <= n,
                n == self.view().snake.len(),
                out@.len() == i,
                forall|j: int|
                    0 <= j < i ==> #[trigger] out@[j] == (SnakeCell {
                        x: self.view().snake[j].x as i32,
                        y: self.view().snake[j].y as i32,
                    }),
            decreases n - i,
        {
            out.push(SnakeCell::from(body_get(&self.snake, i)));
            i = i + 1;
        }
        out
    }

    /// The cell of the snake's head.
    pub fn head(&self) -> (head: Cell)
        requires
            self.wf(),
        ensures
            head == self.view().snake[0],
    {
        body_get(&self.snake, 0)
    }

    pub fn food(&self) -> (food: Option<Cell>)
        ensures
            food == self.view().food,
    {
        self.food
    }

    pub fn score(&self) -> (score: u16)
        ensures
            score == self.view().score,
    {
        self.score
    }

    /// Whether the snake covers `cell`, looking at its first `len` cells.
    fn covers(&self, cell: Cell, len: usize) -> (found: bool)
        requires
            len <= self.view().snake.len(),
        ensures
            found == self.view().snake.take(len as int).contains(cell),
    {
        let mut i: usize = 0;
        while i < len
            invariant
                i <= len,
                len <= self.view().snake.len(),
                forall|j: int| 0 <= j < i ==> self.view().snake[j] != cell,
            decreases len - i,
        {
            if body_get(&self.snake, i) == cell {
                proof {
                    assert(self.view().snake.take(len as int)[i as int] == cell);
                }
                return true;
            }
            i = i + 1;
        }
        proof {
            if self.view().snake.take(len as int).contains(cell) {
                let j = choose|j: int| 0 <= j < len && self.view().snake.take(len as int)[j] == cell;
                assert(self.view().snake[j] == cell);
            }
        }
        false
    }

    /// Queues a turn unless it repeats or reverses the last queued (or
    /// current) direction; at most two turns are queued.
    pub fn queue_direction(&mut self, direction: Direction)
        requires
            old(self).wf(),
        ensures
            final(self).wf(),
            final(self).view() == (SnakeView {
                queued: queued_after(old(self).view(), direction),
                ..old(self).view()
            }),
    {
        let previous = match queue_back(&self.queued_directions) {
            Some(d) => d,
            None => self.direction,
        };
        if direction != previous && !direction.is_opposite(previous) {
            let _ = queue_push_back(&mut self.queued_directions, direction);
        }
    }

    /// The `n`-th cell, in board order, that the snake leaves free.
    fn nth_free_cell(&self, n: usize) -> (cell: Option<Cell>)
        ensures
            cell == nth_free(self.view().snake, n as int),
    {
        let ghost snake = self.view().snake;
        let len = body_len(&self.snake);
        proof {
            assert(snake.take(len as int) =~= snake);
        }
        let mut remaining = n;
        let mut y: u8 = 0;
        while y < BOARD_HEIGHT
            invariant
                y <= BOARD_HEIGHT,
                snake == self.view().snake,
                len == snake.len(),
                snake.take(len as int) == snake,
                free_prefix(snake, (y as int * 20) as nat).len() + remaining == n,
            decreases BOARD_HEIGHT - y,
        {
            let mut x: u8 = 0;
            while x < BOARD_WIDTH
                invariant
                    x <= BOARD_WIDTH,
                    y < BOARD_HEIGHT,
                    snake == self.view().snake,
                    len == snake.len(),
                    snake.take(len as int) == snake,
                    free_prefix(snake, (y as int * 20 + x as int) as nat).len() + remaining == n,
                decreases BOARD_WIDTH - x,
            {
                let cell = Cell { x, y };
                let ghost k = (y as int * 20 + x as int) as nat;
                proof {
                    assert(board_cell(k as int) == cell) by {
                        assert((y as int * 20 + x as int) % 20 == x as int);
                        assert((y as int * 20 + x as int) / 20 == y as int);
                    }
                    assert((k + 1 - 1) as nat == k);
                }
                if !self.covers(cell, len) {
                    if remaining == 0 {
                        proof {
                            lemma_free_prefix_grows(snake, (k + 1) as nat, BOARD_CELLS as nat);
                            assert(free_prefix(snake, (k + 1) as nat)[n as int] == cell);
                        }
                        return Some(cell);
                    }
                    remaining = remaining - 1;
                }
                x = x + 1;
            }
            proof {
                assert((y as int * 20 + 20) == (y + 1) as int * 20);
            }
            y = y + 1;
        }
        None
    }

    /// Picks a free cell for the food with the next random number, or
    /// `None` when the snake covers the board.
    fn place_food(&mut self) -> (food: Option<Cell>)
        ensures
            (food, final(self).view().rng) == placed_food(old(self).view().snake, old(self).view().rng),
            final(self).view() == (SnakeView { rng: final(self).view().rng, ..old(self).view() }),
    {
        let len = body_len(&self.snake);
        if len >= BOARD_CELLS {
            return None;
        }
        let free_count = BOARD_CELLS - len;
        let r = self.rng.next();
        proof {
            assert((r as usize) as int == r as int);
        }
        self.nth_free_cell((r as usize) % free_count)
    }

    /// Advances the game by one tick: take the next queued turn, move the
    /// head one cell, and eat, grow and place new food, or end the game on
    /// a wall or on the snake itself.
    pub fn advance(&mut self) -> (result: AdvanceResult)
        requires
            old(self).wf(),
        ensures
            (final(self).view(), result) == advanced(old(self).view()),
            result != AdvanceResult::GameOver ==> final(self).wf(),
    {
        let ghost g = self.view();
        match queue_pop_front(&mut self.queued_directions) {
            Some(direction) => {
                self.direction = direction;
            },
            None => {},
        }
        let head = body_get(&self.snake, 0);
        let (dx, dy): (i16, i16) = match self.direction {
            Direction::Up => (0, -1),
            Direction::Down => (0, 1),
            Direction::Left => (-1, 0),
            Direction::Right => (1, 0),
        };
        let next_x = head.x as i16 + dx;
        let next_y = head.y as i16 + dy;
        if next_x < 0 || next_x >= BOARD_WIDTH as i16 || next_y < 0 || next_y >= BOARD_HEIGHT as i16 {
            return AdvanceResult::GameOver;
        }
        let next = Cell { x: next_x as u8, y: next_y as u8 };
        let ate = self.food == Some(next);
        let len = body_len(&self.snake);
        let collision_length = if ate {
            len
        } else {
            len - 1
        };
        if self.covers(next, collision_length) {
            return AdvanceResult::GameOver;
        }
        if !ate {
            body_pop(&mut self.snake);
        } else {
            proof {
                lemma_room_for_food(g.snake, next);
            }
        }
        let ghost before_insert = self.view().snake;
        body_insert_front(&mut self.snake, next);
        proof {
            let s = self.view().snake;
            assert(s =~= seq![next] + before_insert);
            assert forall|i: int| 0 <= i < s.len() implies on_board(#[trigger] s[i]) by {
                if i > 0 {
                    assert(s[i] == g.snake[i - 1]);
                }
            }
            let prefix = g.snake.take(collision_length as int);
            assert(before_insert =~= prefix);
            assert(s.no_duplicates()) by {
                assert forall|a: int, b: int| 0 <= a < s.len() && 0 <= b < s.len() && a != b implies s[a] != s[b] by {
                    if a == 0 {
                        assert(s[b] == prefix[b - 1]);
                    } else if b == 0 {
                        assert(s[a] == prefix[a - 1]);
                    } else {
                        assert(s[a] == g.snake[a - 1]);
                        assert(s[b] == g.snake[b - 1]);
                    }
                }
            }
        }
        if !ate {
            proof {
                let s = self.view().snake;
                if let Some(f) = g.food {
                    assert(f != next);
                    assert(!s.contains(f)) by {
                        if s.contains(f) {
                            let i = choose|i: int| 0 <= i < s.len() && s[i] == f;
                            assert(s[i] == g.snake[i - 1]);
                        }
                    }
                }
                assert(g.snake.drop_last() =~= g.snake.take(collision_length as int));
            }
            return AdvanceResult::Moved;
        }
        self.score = self.score + 1;
        let food = self.place_food();
        self.food = food;
        proof {
            assert(g.snake.take(collision_length as int) =~= g.snake);
            lemma_food_for_free(self.view().snake, g.rng);
        }
        if food.is_some() {
            AdvanceResult::Ate
        } else {
            AdvanceResult::Won
        }
    }
}

/// The free cells among the first `k` board cells are a prefix of those
/// among the first `n`, for `k <= n`.
proof fn lemma_free_prefix_grows(snake: Seq<Cell>, k: nat, n: nat)
    requires
        k <= n,
    ensures
        free_prefix(snake, k).len() <= free_prefix(snake, n).len(),
        forall|i: int| 0 <= i < free_prefix(snake, k).len() ==> #[trigger] free_prefix(snake, n)[i] == free_prefix(snake, k)[i],
    decreases n - k,
{
    if k < n {
        lemma_free_prefix_grows(snake, k, (n - 1) as nat);
    }
}

/// Each free cell lies on the board, off the snake.
proof fn lemma_free_prefix_cells(snake: Seq<Cell>, k: nat)
    requires
        k <= BOARD_CELLS,
    ensures
        forall|i: int| 0 <= i < free_prefix(snake, k).len() ==> on_board(#[trigger] free_prefix(snake, k)[i])
            && !snake.contains(free_prefix(snake, k)[i]),
    decreases k,
{
    if k > 0 {
        lemma_free_prefix_cells(snake, (k - 1) as nat);
        let c = board_cell(k - 1);
        let p = free_prefix(snake, (k - 1) as nat);
        assert(on_board(c)) by {
            assert((k - 1) / 20 < 13);
            assert((k - 1) % 20 < 20);
        }
        if !snake.contains(c) {
            assert forall|i: int| 0 <= i < p.push(c).len() implies on_board(#[trigger] p.push(c)[i])
                && !snake.contains(p.push(c)[i]) by {
                if i < p.len() {
                    assert(p.push(c)[i] == p[i]);
                }
            }
        }
    }
}

/// Placed food lies on a free board cell.
proof fn lemma_food_for_free(snake: Seq<Cell>, rng: u32)
    ensures
        placed_food(snake, rng).0 matches Some(f) ==> on_board(f) && !snake.contains(f),
{
    lemma_free_prefix_cells(snake, BOARD_CELLS as nat);
}

/// Number of a board cell, row by row.
pub open spec fn cell_number(c: Cell) -> int {
    (c.y as int) * 20 + (c.x as int)
}

/// A snake whose distinct cells all lie on the board, with a board cell
/// left free, is shorter than the board: there is room to grow into it.
proof fn lemma_room_for_food(snake: Seq<Cell>, free: Cell)
    requires
        snake.no_duplicates(),
        forall|i: int| 0 <= i < snake.len() ==> on_board(#[trigger] snake[i]),
        on_board(free),
        !snake.contains(free),
    ensures
        snake.len() < BOARD_CELLS,
{
    let all = snake.push(free);
    let numbers = all.map_values(|c: Cell| cell_number(c));
    assert forall|i: int| 0 <= i < all.len() implies on_board(#[trigger] all[i]) by {
        if i < snake.len() {
            assert(all[i] == snake[i]);
        }
    }
    assert(numbers.no_duplicates()) by {
        assert forall|a: int, b: int| 0 <= a < numbers.len() && 0 <= b < numbers.len() && a != b implies numbers[a]
            != numbers[b] by {
            let ca = all[a];
            let cb = all[b];
            assert(on_board(ca) && on_board(cb));
            if cell_number(ca) == cell_number(cb) {
                assert(ca.x == cb.x && ca.y == cb.y) by (nonlinear_arith)
                    requires
                        ca.x < 20,
                        cb.x < 20,
                        (ca.y as int) * 20 + (ca.x as int) == (cb.y as int) * 20 + (cb.x as int),
                ;
                if a < snake.len() && b < snake.len() {
                    assert(snake[a] == snake[b]);
                } else if a < snake.len() {
                    assert(snake[a] == free);
                } else {
                    assert(snake[b] == free);
                }
            }
        }
    }
    numbers.unique_seq_to_set();
    vstd::set_lib::lemma_int_range(0, BOARD_CELLS as int);
    assert(numbers.to_set().subset_of(set_int_range(0, BOARD_CELLS as int))) by {
        assert forall|n: int| numbers.to_set().contains(n) implies set_int_range(0, BOARD_CELLS as int).contains(n) by {
            let i = choose|i: int| 0 <= i < numbers.len() && numbers[i] == n;
            let c = all[i];
            assert(on_board(c));
            assert(0 <= (c.y as int) * 20 + (c.x as int) < 260) by (nonlinear_arith)
                requires
                    c.x < 20,
                    c.y < 13,
            ;
        }
    }
    vstd::set_lib::lemma_len_subset(numbers.to_set(), set_int_range(0, BOARD_CELLS as int));
}

// ── what the UI shows ───────────────────────────────────────────────────

/// A cell as the UI draws it.
pub open spec fn ui_cell(c: Cell) -> SnakeCell {
    SnakeCell { x: c.x as i32, y: c.y as i32 }
}

/// The snake as the UI draws it.
pub open spec fn ui_snake(snake: Seq<Cell>) -> Seq<SnakeCell> {
    snake.map_values(|c: Cell| ui_cell(c))
}

/// The UI's snake after a move: the new head in front, trimmed to the
/// snake's length.
pub open spec fn synced(model: Seq<SnakeCell>, head: SnakeCell, len: int) -> Seq<SnakeCell> {
    let grown = seq![head] + model;
    if grown.len() > len {
        grown.take(len)
    } else {
        grown
    }
}

/// Brings the UI's snake up to date after a move: puts the new head in
/// front and drops cells beyond the snake's length.
pub fn sync_snake_model(model: &mut Vec<SnakeCell>, game: &Game)
    requires
        game.wf(),
    ensures
        final(model)@ == synced(old(model)@, ui_cell(game.view().snake[0]), game.view().snake.len() as int),
{
    let head = SnakeCell::from(game.head());
    model.insert(0, head);
    let len = body_len(&game.snake);
    let ghost grown = model@;
    proof {
        assert(grown =~= seq![head] + old(model)@);
    }
    while model.len() > len
        invariant
            len == game.view().snake.len(),
            model@.len() <= grown.len(),
            model@.len() == grown.len() || len <= model@.len(),
            model@ == grown.take(model@.len() as int),
        decreases model@.len(),
    {
        model.pop();
        proof {
            assert(model@ =~= grown.take(model@.len() as int));
        }
    }
    proof {
        if model@.len() == grown.len() {
            assert(model@ =~= grown);
        }
    }
}

/// After a tick that moved the snake or made it eat, bringing the UI's
/// snake up to date with [`sync_snake_model`] gives exactly the new snake:
/// the UI never needs to redraw the whole snake.
pub proof fn lemma_sync_tracks_snake(before: SnakeView, after: SnakeView, result: AdvanceResult)
    requires
        snake_wf(before),
        (after, result) == advanced(before),
        result == AdvanceResult::Moved || result == AdvanceResult::Ate || result == AdvanceResult::Won,
    ensures
        synced(ui_snake(before.snake), ui_cell(after.snake[0]), after.snake.len() as int) == ui_snake(after.snake),
{
    let model = ui_snake(before.snake);
    let head = ui_cell(after.snake[0]);
    let grown = seq![head] + model;
    if result == AdvanceResult::Moved {
        assert(after.snake.len() == before.snake.len());
        assert(synced(model, head, after.snake.len() as int) =~= ui_snake(after.snake)) by {
            assert forall|i: int| 0 <= i < after.snake.len() implies grown.take(after.snake.len() as int)[i] == ui_snake(after.snake)[i] by {
                if i > 0 {
                    assert(after.snake[i] == before.snake[i - 1]);
                }
            }
        }
    } else {
        assert(after.snake.len() == before.snake.len() + 1);
        assert(synced(model, head, after.snake.len() as int) =~= ui_snake(after.snake)) by {
            assert forall|i: int| 0 <= i < after.snake.len() implies grown[i] == ui_snake(after.snake)[i] by {
                if i > 0 {
                    assert(after.snake[i] == before.snake[i - 1]);
                }
            }
        }
    }
}

/// Where the UI draws the food: its cell, or (-1, -1) when there is none.
pub fn food_ui(food: Option<Cell>) -> (position: (i32, i32))
    ensures
        position == match food {
            Some(c) => (c.x as i32, c.y as i32),
            None => (-1i32, -1i32),
        },
{
    match food {
        Some(c) => (c.x as i32, c.y as i32),
        None => (-1, -1),
    }
}

/// Where a snake session stands.
#[derive(Clone, Copy, Debug, PartialEq, Eq, Structural)]
pub enum SnakePhase {
    /// The game runs.
    Playing,
    /// The game is lost or won; any button leaves.
    GameOver,
    /// The session is over.
    Finished,
}

/// What happened: a direction button was pressed, or the game clock ticked.
#[derive(Clone, Copy, Debug, PartialEq, Eq, Structural)]
pub enum SnakeInput {
    Pressed(Direction),
    Tick,
}

/// What the UI has to do after an input.
#[derive(Clone, Copy, Debug, PartialEq, Eq, Structural)]
pub enum SnakeEffect {
    /// Nothing changes on screen.
    Unchanged,
    /// Redraw the snake; `stats` says whether score and food changed too.
    Redraw { stats: bool },
    /// Show the game-over screen; `won` says whether the snake filled the
    /// board, in which case snake, score and food are redrawn first.
    ShowGameOver { won: bool },
    /// Hide the UI and leave the app.
    Exit,
}

/// A snake session: the game and the game-over screen.
pub struct SnakeSession {
    pub phase: SnakePhase,
    pub game: Game,
}

impl SnakeSession {
    pub open spec fn wf(&self) -> bool {
        self.phase == SnakePhase::Playing ==> self.game.wf()
    }

    /// A new session running a game seeded with `seed`.
    pub fn new(seed: u32) -> (session: Self)
        ensures
            session.wf(),
            session.phase == SnakePhase::Playing,
            session.game.view().snake == Game::start_snake(),
            ({
                let s0 = if seed == 0 { 0x6d2b_79f5u32 } else { seed };
                (session.game.view().food, session.game.view().rng) == placed_food(Game::start_snake(), s0)
            }),
    {
        SnakeSession { phase: SnakePhase::Playing, game: Game::new(seed) }
    }

    /// Handles one input. `up_held` and `down_held` are the states of the up
    /// and down buttons read right after a press of one of them; holding
    /// both quits.
    pub fn on_input(&mut self, input: SnakeInput, up_held: bool, down_held: bool) -> (effect: SnakeEffect)
        requires
            old(self).wf(),
        ensures
            final(self).wf(),
            match (old(self).phase, input) {
                (SnakePhase::Playing, SnakeInput::Pressed(direction)) => {
                    if (direction == Direction::Up || direction == Direction::Down) && up_held && down_held {
                        &&& final(self).phase == SnakePhase::Finished
                        &&& effect == SnakeEffect::Exit
                    } else {
                        &&& final(self).phase == SnakePhase::Playing
                        &&& final(self).game.view() == (SnakeView {
                            queued: queued_after(old(self).game.view(), direction),
                            ..old(self).game.view()
                        })
                        &&& effect == SnakeEffect::Unchanged
                    }
                },
                (SnakePhase::Playing, SnakeInput::Tick) => {
                    let (g, result) = advanced(old(self).game.view());
                    &&& final(self).game.view() == g
                    &&& match result {
                        AdvanceResult::Moved => final(self).phase == SnakePhase::Playing
                            && effect == SnakeEffect::Redraw { stats: false },
                        AdvanceResult::Ate => final(self).phase == SnakePhase::Playing
                            && effect == SnakeEffect::Redraw { stats: true },
                        AdvanceResult::GameOver => final(self).phase == SnakePhase::GameOver
                            && effect == SnakeEffect::ShowGameOver { won: false },
                        AdvanceResult::Won => final(self).phase == SnakePhase::GameOver
                            && effect == SnakeEffect::ShowGameOver { won: true },
                    }
                },
                (_, SnakeInput::Pressed(_)) => {
                    &&& final(self).phase == SnakePhase::Finished
                    &&& effect == SnakeEffect::Exit
                },
                (_, SnakeInput::Tick) => {
                    &&& final(self).phase == old(self).phase
                    &&& final(self).game == old(self).game
                    &&& effect == SnakeEffect::Unchanged
                },
            },
    {
        match (self.phase, input) {
            (SnakePhase::Playing, SnakeInput::Pressed(direction)) => {
                let vertical = match direction {
                    Direction::Up | Direction::Down => true,
                    _ => false,
                };
                if vertical && up_held && down_held {
                    self.phase = SnakePhase::Finished;
                    return SnakeEffect::Exit;
                }
                self.game.queue_direction(direction);
                SnakeEffect::Unchanged
            },
            (SnakePhase::Playing, SnakeInput::Tick) => {
                match self.game.advance() {
                    AdvanceResult::Moved => SnakeEffect::Redraw { stats: false },
                    AdvanceResult::Ate => SnakeEffect::Redraw { stats: true },
                    AdvanceResult::GameOver => {
                        self.phase = SnakePhase::GameOver;
                        SnakeEffect::ShowGameOver { won: false }
                    },
                    AdvanceResult::Won => {
                        self.phase = SnakePhase::GameOver;
                        SnakeEffect::ShowGameOver { won: true }
                    },
                }
            },
            (_, SnakeInput::Pressed(_)) => {
                self.phase = SnakePhase::Finished;
                SnakeEffect::Exit
            },
            (_, SnakeInput::Tick) => SnakeEffect::Unchanged,
        }
    }
}

} // verus!
