use vstd::prelude::*;

use std::collections::VecDeque;

use rand::Rng;

use vstd::arithmetic::div_mod::lemma_fundamental_div_mod_converse;
use vstd::arithmetic::mul::lemma_mul_inequality;
use vstd::set_lib::{lemma_int_range, lemma_len_subset, set_int_range};

use crate::direction::Direction;
use crate::input::Input;
use crate::screen::{GameItems, SegmentType};

verus! {

/// A cell of the board: (row, column), counted from the top-left corner.
pub type Position = (u32, u32);

/// How much the target length grows for each apple eaten.
pub const GROWTH: u32 = 2;

/// Why a game ended.
#[derive(Debug, Clone, Copy)]
pub enum EndReason {
    PlayerQuit,
    WallCollision,
    SelfCollision,
    /// The snake covers every cell, so no apple can be placed.
    BoardFull,
}

/// The state of the game loop after a tick.
#[derive(Debug, Clone, Copy)]
pub enum Status {
    Running,
    Terminated(EndReason),
}

pub open spec fn in_bounds(p: Position, width: u32, height: u32) -> bool {
    p.0 < height && p.1 < width
}

/// The cell one step from `p` in direction `d`, or `None` where that step
/// leaves the board.
pub open spec fn next_cell(p: Position, d: Direction, width: u32, height: u32) -> Option<Position> {
    match d {
        Direction::Up => if p.0 > 0 {
            Some(((p.0 - 1) as u32, p.1))
        } else {
            None
        },
        Direction::Down => if p.0 + 1 < height {
            Some(((p.0 + 1) as u32, p.1))
        } else {
            None
        },
        Direction::Left => if p.1 > 0 {
            Some((p.0, (p.1 - 1) as u32))
        } else {
            None
        },
        Direction::Right => if p.1 + 1 < width {
            Some((p.0, (p.1 + 1) as u32))
        } else {
            None
        },
    }
}

/// The heading after asking for `requested`: a reversal is ignored.
pub open spec fn steered(heading: Direction, requested: Direction) -> Direction {
    if requested == heading.reversed() {
        heading
    } else {
        requested
    }
}

/// The heading that a tick moves in, given the command it polled.
pub open spec fn next_heading(heading: Direction, input: Option<Input>) -> Direction {
    match input {
        Some(Input::D(d)) => steered(heading, d),
        _ => heading,
    }
}

/// The body after the head moves to `head`: the new head is appended, and
/// the oldest segment is dropped where the body would outgrow `target`.
pub open spec fn moved_body(body: Seq<Position>, head: Position, target: u32) -> Seq<Position> {
    let grown = body.push(head);
    if grown.len() > target {
        grown.drop_first()
    } else {
        grown
    }
}

/// The game as a mathematical value.
pub struct GameView {
    /// The cells of the snake, oldest segment first and the head last.
    pub body: Seq<Position>,
    pub heading: Direction,
    pub target_length: u32,
    pub score: u32,
    /// `None` once an apple is eaten, until the next one is placed.
    pub apple: Option<Position>,
    pub width: u32,
    pub height: u32,
    pub initial_length: u32,
}

impl GameView {
    pub open spec fn head(self) -> Position {
        self.body.last()
    }

    /// The invariant of a game: the body is not empty, no longer than the
    /// target, inside the board and without repeated cells; the target has
    /// grown by `GROWTH` for each point scored; and the apple, if any, lies
    /// on a free cell. The board is small enough that the target length of
    /// a snake that fills it still fits in a `u32`.
    pub open spec fn wf(self) -> bool {
        &&& self.initial_length >= 1
        &&& self.initial_length + GROWTH * (self.width * self.height) <= u32::MAX
        &&& 1 <= self.body.len() <= self.target_length
        &&& forall|i: int|
            0 <= i < self.body.len() ==> in_bounds(#[trigger] self.body[i], self.width, self.height)
        &&& self.body.no_duplicates()
        &&& self.target_length == self.initial_length + GROWTH * self.score
        &&& self.score <= self.body.len()
        &&& self.apple matches Some(p) ==> in_bounds(p, self.width, self.height)
            && !self.body.contains(p)
    }

    /// Whether `p` lies on the board and off the snake.
    pub open spec fn is_free(self, p: Position) -> bool {
        in_bounds(p, self.width, self.height) && !self.body.contains(p)
    }

    /// The number of free cells that come before (`row`, `col`) in row-major
    /// order, for `col <= width`.
    pub open spec fn free_before(self, row: nat, col: nat) -> nat
        decreases row, col,
    {
        if col > 0 {
            self.free_before(row, (col - 1) as nat) + if self.body.contains(
                (row as u32, (col - 1) as u32),
            ) {
                0nat
            } else {
                1nat
            }
        } else if row > 0 {
            self.free_before((row - 1) as nat, self.width as nat)
        } else {
            0
        }
    }

    /// The number of free cells on the board.
    pub open spec fn free_count(self) -> nat {
        self.free_before(self.height as nat, 0)
    }

    /// Whether `p` is the free cell with `k` free cells before it in
    /// row-major order.
    pub open spec fn is_nth_free(self, p: Position, k: nat) -> bool {
        self.is_free(p) && self.free_before(p.0 as nat, p.1 as nat) == k
    }
}

/// One tick of the snake: `Quit` ends the game; otherwise the heading
/// follows the command unless it is a reversal, the head moves one cell,
/// and the game ends on leaving the board or on running into a segment that
/// stays. On the apple, the score goes up by one, the target length by
/// `GROWTH`, and the apple is gone until the next is placed. A game that
/// ends keeps its state.
pub open spec fn step_spec(g: GameView, input: Option<Input>) -> (GameView, Status) {
    match input {
        Some(Input::Quit) => (g, Status::Terminated(EndReason::PlayerQuit)),
        _ => {
            let heading = next_heading(g.heading, input);
            match next_cell(g.head(), heading, g.width, g.height) {
                None => (g, Status::Terminated(EndReason::WallCollision)),
                Some(head) => {
                    let body = moved_body(g.body, head, g.target_length);
                    if body.drop_last().contains(head) {
                        (g, Status::Terminated(EndReason::SelfCollision))
                    } else if g.apple == Some(head) {
                        (
                            GameView {
                                body,
                                heading,
                                target_length: (g.target_length + GROWTH) as u32,
                                score: (g.score + 1) as u32,
                                apple: None,
                                ..g
                            },
                            Status::Running,
                        )
                    } else {
                        (GameView { body, heading, ..g }, Status::Running)
                    }
                },
            }
        },
    }
}

proof fn lemma_row_major_unique(r1: int, c1: int, r2: int, c2: int, width: int)
    requires
        0 <= c1 < width,
        0 <= c2 < width,
        r1 * width + c1 == r2 * width + c2,
    ensures
        r1 == r2,
        c1 == c2,
{
    let x = r1 * width + c1;
    lemma_fundamental_div_mod_converse(x, width, r1, c1);
    lemma_fundamental_div_mod_converse(x, width, r2, c2);
}

proof fn lemma_row_major_in_range(r: int, c: int, width: int, height: int)
    requires
        0 <= r < height,
        0 <= c < width,
    ensures
        0 <= r * width + c < height * width,
{
    lemma_mul_inequality(r + 1, height, width);
    lemma_mul_inequality(0, r, width);
    assert((r + 1) * width == r * width + width) by (nonlinear_arith);
}

/// Distinct cells of a board number at most its area.
pub proof fn lemma_cells_fit(cells: Seq<Position>, width: u32, height: u32)
    requires
        cells.no_duplicates(),
        forall|i: int| 0 <= i < cells.len() ==> in_bounds(#[trigger] cells[i], width, height),
    ensures
        cells.len() <= width * height,
{
    let w = width as int;
    let h = height as int;
    let idx = cells.map(|i: int, p: Position| p.0 * w + p.1);
    assert forall|i: int, j: int| 0 <= i < idx.len() && 0 <= j < idx.len() && i != j implies idx[i]
        != idx[j] by {
        if idx[i] == idx[j] {
            assert(in_bounds(cells[i], width, height));
            assert(in_bounds(cells[j], width, height));
            lemma_row_major_unique(cells[i].0 as int, cells[i].1 as int, cells[j].0 as int, cells[j].1 as int, w);
            assert(cells[i] == cells[j]);
        }
    }
    assert(idx.no_duplicates());
    idx.unique_seq_to_set();
    assert forall|x: int| idx.to_set().contains(x) implies set_int_range(0, h * w).contains(x) by {
        let i = choose|i: int| 0 <= i < idx.len() && idx[i] == x;
        assert(in_bounds(cells[i], width, height));
        lemma_row_major_in_range(cells[i].0 as int, cells[i].1 as int, w, h);
    }
    lemma_int_range(0, h * w);
    lemma_len_subset(idx.to_set(), set_int_range(0, h * w));
    assert(h * w == w * h) by (nonlinear_arith);
}

proof fn lemma_next_cell_in_bounds(p: Position, d: Direction, width: u32, height: u32)
    requires
        in_bounds(p, width, height),
    ensures
        next_cell(p, d, width, height) matches Some(q) ==> in_bounds(q, width, height),
{
}

/// The segments that stay when the head moves on: all of them, or all but
/// the oldest where the body is at its target length.
pub proof fn lemma_kept_segments(g: GameView, head: Position)
    requires
        g.wf(),
    ensures
        moved_body(g.body, head, g.target_length) == moved_body(g.body, head, g.target_length).drop_last().push(head),
        moved_body(g.body, head, g.target_length).drop_last() == g.body.subrange(
            if g.body.len() >= g.target_length { 1int } else { 0int },
            g.body.len() as int,
        ),
{
    let body = moved_body(g.body, head, g.target_length);
    let start: int = if g.body.len() >= g.target_length { 1 } else { 0 };
    assert(body.drop_last() =~= g.body.subrange(start, g.body.len() as int));
    assert(body =~= body.drop_last().push(head));
}

/// A step keeps the invariant of a game.
pub proof fn lemma_step_keeps_wf(g: GameView, input: Option<Input>)
    requires
        g.wf(),
    ensures
        step_spec(g, input).0.wf(),
{
    if !(input matches Some(Input::Quit)) {
        let heading = next_heading(g.heading, input);
        assert(in_bounds(g.body[g.body.len() - 1], g.width, g.height));
        lemma_next_cell_in_bounds(g.head(), heading, g.width, g.height);
        if let Some(head) = next_cell(g.head(), heading, g.width, g.height) {
            let body = moved_body(g.body, head, g.target_length);
            let kept = body.drop_last();
            if !kept.contains(head) {
                lemma_kept_segments(g, head);
                let start: int = if g.body.len() >= g.target_length { 1 } else { 0 };
                assert forall|i: int| 0 <= i < body.len() implies in_bounds(
                    #[trigger] body[i],
                    g.width,
                    g.height,
                ) by {
                    if i < kept.len() {
                        assert(body[i] == g.body[start + i]);
                    }
                }
                assert forall|i: int, j: int|
                    0 <= i < body.len() && 0 <= j < body.len() && i != j implies body[i]
                    != body[j] by {
                    if i < kept.len() && j < kept.len() {
                        assert(body[i] == g.body[start + i]);
                        assert(body[j] == g.body[start + j]);
                    } else if i < kept.len() {
                        assert(kept[i] == body[i]);
                    } else {
                        assert(kept[j] == body[j]);
                    }
                }
                assert(body.no_duplicates());
                lemma_cells_fit(body, g.width, g.height);
                assert forall|p: Position| !kept.contains(p) && p != head implies !body.contains(p) by {
                    if body.contains(p) {
                        let i = choose|i: int| 0 <= i < body.len() && body[i] == p;
                        if i < kept.len() {
                            assert(kept[i] == p);
                        }
                    }
                }
                assert forall|p: Position| g.body.contains(p) || !kept.contains(p) by {
                    if kept.contains(p) {
                        let i = choose|i: int| 0 <= i < kept.len() && kept[i] == p;
                        assert(g.body[start + i] == p);
                    }
                }
                if g.apple == Some(head) {
                    assert((g.score + 1) * GROWTH == g.score * GROWTH + GROWTH);
                    assert(g.width * g.height >= body.len());
                }
            }
        }
    }
}

/// The state of one game: the snake, its heading and target length, the
/// score, the apple and the size of the board.
pub struct Game {
    body: VecDeque<Position>,
    heading: Direction,
    target_length: u32,
    score: u32,
    apple: Option<Position>,
    width: u32,
    height: u32,
    initial_length: u32,
}

impl View for Game {
    type V = GameView;

    closed spec fn view(&self) -> GameView {
        GameView {
            body: self.body@,
            heading: self.heading,
            target_length: self.target_length,
            score: self.score,
            apple: self.apple,
            width: self.width,
            height: self.height,
            initial_length: self.initial_length,
        }
    }
}

fn same_cell(a: Position, b: Position) -> (r: bool)
    ensures
        r == (a == b),
{
    a.0 == b.0 && a.1 == b.1
}

impl Game {
    /// A new game on a `width` by `height` board: a snake of one segment in
    /// the middle cell, heading up, that grows to `initial_length`; no
    /// apple yet and no score.
    pub fn new(width: u32, height: u32, initial_length: u32) -> (r: Game)
        requires
            width >= 1,
            height >= 1,
            initial_length >= 1,
            initial_length + GROWTH * (width * height) <= u32::MAX,
        ensures
            r@.wf(),
            r@.body == seq![(height / 2, width / 2)],
            r@.heading == Direction::Up,
            r@.target_length == initial_length,
            r@.score == 0,
            r@.apple is None,
            r@.width == width,
            r@.height == height,
            r@.initial_length == initial_length,
    {
        let mut body: VecDeque<Position> = VecDeque::new();
        body.push_back((height / 2, width / 2));
        let g = Game {
            body,
            heading: Direction::Up,
            target_length: initial_length,
            score: 0,
            apple: None,
            width,
            height,
            initial_length,
        };
        assert(g@.body =~= seq![(height / 2, width / 2)]);
        g
    }

    /// Whether a segment of the snake lies on `p`.
    pub fn occupies(&self, p: Position) -> (r: bool)
        ensures
            r == self@.body.contains(p),
    {
        let mut i: usize = 0;
        while i < self.body.len()
            invariant
                i <= self@.body.len(),
                forall|j: int| 0 <= j < i ==> self@.body[j] != p,
            decreases self@.body.len() - i,
        {
            if same_cell(self.body[i], p) {
                return true;
            }
            i = i + 1;
        }
        false
    }

    /// Whether a segment that stays when the head moves on lies on `p`: the
    /// segments from index `start` on.
    fn occupies_from(&self, start: usize, p: Position) -> (r: bool)
        requires
            start <= self@.body.len(),
        ensures
            r == self@.body.subrange(start as int, self@.body.len() as int).contains(p),
    {
        let ghost kept = self@.body.subrange(start as int, self@.body.len() as int);
        let mut i: usize = start;
        while i < self.body.len()
            invariant
                start <= i <= self@.body.len(),
                kept == self@.body.subrange(start as int, self@.body.len() as int),
                forall|j: int| start <= j < i ==> self@.body[j] != p,
            decreases self@.body.len() - i,
        {
            if same_cell(self.body[i], p) {
                assert(kept[i - start] == p);
                return true;
            }
            i = i + 1;
        }
        assert forall|j: int| 0 <= j < kept.len() implies kept[j] != p by {
            assert(kept[j] == self@.body[start + j]);
        }
        false
    }

    /// The cell of the head.
    pub fn head(&self) -> (r: Position)
        requires
            self@.wf(),
        ensures
            r == self@.head(),
    {
        self.body[self.body.len() - 1]
    }

    /// Advances the game by one tick (see `step_spec`).
    pub fn step(&mut self, input: Option<Input>) -> (r: Status)
        requires
            old(self)@.wf(),
        ensures
            (final(self)@, r) == step_spec(old(self)@, input),
            final(self)@.wf(),
    {
        proof {
            lemma_step_keeps_wf(self@, input);
        }
        let heading = match input {
            Some(Input::Quit) => {
                return Status::Terminated(EndReason::PlayerQuit);
            },
            Some(Input::D(d)) => if d == self.heading.opposite() {
                self.heading
            } else {
                d
            },
            None => self.heading,
        };
        let head = self.head();
        let next = match heading {
            Direction::Up => if head.0 > 0 {
                (head.0 - 1, head.1)
            } else {
                return Status::Terminated(EndReason::WallCollision);
            },
            Direction::Down => if head.0 < self.height - 1 {
                (head.0 + 1, head.1)
            } else {
                return Status::Terminated(EndReason::WallCollision);
            },
            Direction::Left => if head.1 > 0 {
                (head.0, head.1 - 1)
            } else {
                return Status::Terminated(EndReason::WallCollision);
            },
            Direction::Right => if head.1 < self.width - 1 {
                (head.0, head.1 + 1)
            } else {
                return Status::Terminated(EndReason::WallCollision);
            },
        };
        assert(next_cell(head, heading, self.width, self.height) == Some(next));
        let full = self.body.len() as u64 >= self.target_length as u64;
        let start: usize = if full { 1 } else { 0 };
        proof {
            lemma_kept_segments(self@, next);
        }
        if self.occupies_from(start, next) {
            return Status::Terminated(EndReason::SelfCollision);
        }
        let ghost old_body = self@.body;
        self.body.push_back(next);
        if full {
            self.body.pop_front();
        }
        assert(self@.body =~= moved_body(old_body, next, self.target_length));
        self.heading = heading;
        let ate = match self.apple {
            Some(a) => same_cell(a, next),
            None => false,
        };
        if ate {
            self.target_length = self.target_length + GROWTH;
            self.score = self.score + 1;
            self.apple = None;
        }
        Status::Running
    }
}

impl Game {
    /// The number of cells that are free for an apple.
    pub fn free_cell_count(&self) -> (r: u64)
        requires
            self@.wf(),
        ensures
            r == self@.free_count(),
    {
        let ghost g = self@;
        let mut count: u64 = 0;
        let mut row: u32 = 0;
        while row < self.height
            invariant
                g == self@,
                g.wf(),
                row <= g.height,
                count == g.free_before(row as nat, 0),
                count <= row * g.width,
            decreases g.height - row,
        {
            let mut col: u32 = 0;
            while col < self.width
                invariant
                    g == self@,
                    g.wf(),
                    row < g.height,
                    col <= g.width,
                    count == g.free_before(row as nat, col as nat),
                    count <= row * g.width + col,
                decreases g.width - col,
            {
                proof {
                    lemma_row_major_in_range(row as int, col as int, g.width as int, g.height as int);
                    assert(g.height * g.width == g.width * g.height) by (nonlinear_arith);
                    assert(count < u32::MAX);
                }
                if !self.occupies((row, col)) {
                    count = count + 1;
                }
                col = col + 1;
            }
            assert(g.free_before((row + 1) as nat, 0) == g.free_before(row as nat, g.width as nat));
            assert(row * g.width + g.width == (row + 1) * g.width) by (nonlinear_arith);
            row = row + 1;
        }
        count
    }

    /// The free cell with `k` free cells before it in row-major order.
    pub fn nth_free_cell(&self, k: u64) -> (r: Position)
        requires
            self@.wf(),
            k < self@.free_count(),
        ensures
            self@.is_nth_free(r, k as nat),
    {
        let ghost g = self@;
        let mut count: u64 = 0;
        let mut row: u32 = 0;
        while row < self.height
            invariant
                g == self@,
                g.wf(),
                row <= g.height,
                count == g.free_before(row as nat, 0),
                count <= k,
            decreases g.height - row,
        {
            let mut col: u32 = 0;
            while col < self.width
                invariant
                    g == self@,
                    g.wf(),
                    row < g.height,
                    col <= g.width,
                    count == g.free_before(row as nat, col as nat),
                    count <= k,
                decreases g.width - col,
            {
                if !self.occupies((row, col)) {
                    if count == k {
                        return (row, col);
                    }
                    count = count + 1;
                }
                col = col + 1;
            }
            assert(g.free_before((row + 1) as nat, 0) == g.free_before(row as nat, g.width as nat));
            row = row + 1;
        }
        (0, 0)
    }

    /// Puts the apple on the free cell with `k` free cells before it in
    /// row-major order.
    pub fn place_apple(&mut self, k: u64)
        requires
            old(self)@.wf(),
            k < old(self)@.free_count(),
        ensures
            final(self)@.wf(),
            final(self)@ == (GameView { apple: final(self)@.apple, ..old(self)@ }),
            final(self)@.apple matches Some(p) && old(self)@.is_nth_free(p, k as nat),
    {
        let p = self.nth_free_cell(k);
        self.apple = Some(p);
    }
}

#[verifier::external_type_specification]
#[verifier::external_body]
pub struct ExThreadRng(rand::rngs::ThreadRng);

/// Relies on rand's `Rng::gen_range(low, high)`, which returns a value in
/// `low..high` and panics when `low >= high`.
#[verifier::external_body]
fn draw_below(rng: &mut rand::rngs::ThreadRng, n: u64) -> (r: u64)
    requires
        n > 0,
    ensures
        r < n,
{
    rng.gen_range(0, n)
}

impl Game {
    /// Puts the apple on a free cell drawn uniformly at random; returns
    /// `false`, and leaves the game as it is, when no cell is free.
    pub fn spawn_apple(&mut self, rng: &mut rand::rngs::ThreadRng) -> (r: bool)
        requires
            old(self)@.wf(),
        ensures
            final(self)@.wf(),
            r == (old(self)@.free_count() > 0),
            !r ==> final(self)@ == old(self)@,
            r ==> final(self)@ == (GameView { apple: final(self)@.apple, ..old(self)@ }),
            r ==> (final(self)@.apple matches Some(p) && old(self)@.is_free(p)),
    {
        let free = self.free_cell_count();
        if free == 0 {
            return false;
        }
        let k = draw_below(rng, free);
        self.place_apple(k);
        true
    }

    /// One tick of the game loop: the step of `step_spec`; then, where the
    /// apple was eaten, a new one on a random free cell, or the end of the
    /// game when none is free.
    pub fn tick(&mut self, input: Option<Input>, rng: &mut rand::rngs::ThreadRng) -> (r: Status)
        requires
            old(self)@.wf(),
        ensures
            final(self)@.wf(),
            ({
                let (s, status) = step_spec(old(self)@, input);
                if status is Running && s.apple is None {
                    if s.free_count() > 0 {
                        &&& r is Running
                        &&& final(self)@ == (GameView { apple: final(self)@.apple, ..s })
                        &&& final(self)@.apple matches Some(p) && s.is_free(p)
                    } else {
                        &&& r == Status::Terminated(EndReason::BoardFull)
                        &&& final(self)@ == s
                    }
                } else {
                    &&& r == status
                    &&& final(self)@ == s
                }
            }),
    {
        let status = self.step(input);
        if let Status::Running = status {
            if self.apple.is_none() && !self.spawn_apple(rng) {
                return Status::Terminated(EndReason::BoardFull);
            }
        }
        status
    }
}

/// What the cell (`row`, `col`) shows: the head, facing the heading; a body
/// segment; the apple; or nothing.
pub open spec fn cell_item(g: GameView, row: int, col: int) -> GameItems {
    let p = (row as u32, col as u32);
    if p == g.head() {
        GameItems::SnakeHead(g.heading)
    } else if g.body.contains(p) {
        GameItems::SnakeTailSegment(SegmentType::Def)
    } else if g.apple == Some(p) {
        GameItems::Apple
    } else {
        GameItems::Empty
    }
}

impl Game {
    /// Paints the board: `height` rows of `width` cells (see `cell_item`).
    pub fn paint(&self) -> (r: Vec<Vec<GameItems>>)
        requires
            self@.wf(),
        ensures
            r@.len() == self@.height,
            forall|i: int| 0 <= i < self@.height ==> (#[trigger] r@[i])@.len() == self@.width,
            forall|i: int, j: int|
                0 <= i < self@.height && 0 <= j < self@.width ==> r@[i]@[j] == cell_item(
                    self@,
                    i,
                    j,
                ),
    {
        let head = self.head();
        let mut screen: Vec<Vec<GameItems>> = Vec::new();
        let mut row: u32 = 0;
        while row < self.height
            invariant
                self@.wf(),
                head == self@.head(),
                row <= self@.height,
                screen@.len() == row,
                forall|i: int| 0 <= i < row ==> (#[trigger] screen@[i])@.len() == self@.width,
                forall|i: int, j: int|
                    0 <= i < row && 0 <= j < self@.width ==> screen@[i]@[j] == cell_item(
                        self@,
                        i,
                        j,
                    ),
            decreases self@.height - row,
        {
            let mut line: Vec<GameItems> = Vec::new();
            let mut col: u32 = 0;
            while col < self.width
                invariant
                    self@.wf(),
                    head == self@.head(),
                    row < self@.height,
                    col <= self@.width,
                    line@.len() == col,
                    forall|j: int| 0 <= j < col ==> line@[j] == cell_item(self@, row as int, j),
                decreases self@.width - col,
            {
                let p = (row, col);
                let item = if same_cell(p, head) {
                    GameItems::SnakeHead(self.heading)
                } else if self.occupies(p) {
                    GameItems::SnakeTailSegment(SegmentType::Def)
                } else {
                    match self.apple {
                        Some(a) => if same_cell(a, p) {
                            GameItems::Apple
                        } else {
                            GameItems::Empty
                        },
                        None => GameItems::Empty,
                    }
                };
                line.push(item);
                col = col + 1;
            }
            screen.push(line);
            row = row + 1;
        }
        screen
    }

    /// The direction the head moves in.
    pub fn heading(&self) -> (r: Direction)
        ensures
            r == self@.heading,
    {
        self.heading
    }

    /// The number of apples eaten.
    pub fn score(&self) -> (r: u32)
        ensures
            r == self@.score,
    {
        self.score
    }

    /// The length the body grows to.
    pub fn target_length(&self) -> (r: u32)
        ensures
            r == self@.target_length,
    {
        self.target_length
    }

    /// The cell of the apple, if one is placed.
    pub fn apple(&self) -> (r: Option<Position>)
        ensures
            r == self@.apple,
    {
        self.apple
    }

    /// The number of columns of the board.
    pub fn width(&self) -> (r: u32)
        ensures
            r == self@.width,
    {
        self.width
    }

    /// The number of rows of the board.
    pub fn height(&self) -> (r: u32)
        ensures
            r == self@.height,
    {
        self.height
    }

    /// The cells of the snake, oldest segment first and the head last.
    pub fn body(&self) -> (r: Vec<Position>)
        ensures
            r@ == self@.body,
    {
        let mut cells: Vec<Position> = Vec::new();
        let mut i: usize = 0;
        while i < self.body.len()
            invariant
                i <= self@.body.len(),
                cells@ == self@.body.take(i as int),
            decreases self@.body.len() - i,
        {
            cells.push(self.body[i]);
            i = i + 1;
            assert(cells@ =~= self@.body.take(i as int));
        }
        assert(cells@ =~= self@.body);
        cells
    }
}

/// How long to wait before the next tick, in nanoseconds: what is left of
/// the frame budget, or nothing when the tick took the whole budget or
/// more.
pub fn frame_pause(elapsed: u64, budget: u64) -> (r: u64)
    ensures
        r == if elapsed < budget {
            budget - elapsed
        } else {
            0
        },
{
    if elapsed < budget {
        budget - elapsed
    } else {
        0
    }
}

} // verus!
