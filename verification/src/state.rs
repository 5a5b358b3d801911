//! The mathematical model of a game: its state, the rules that change it,
//! and the shapes a snake can have.

use vstd::prelude::*;
use crate::board::{adjacent, board_full, on_board, shifted, BOARD_SIZE};
use crate::direction::Direction;
use crate::error::GameError;
use crate::input::{Command, Event};

verus! {

/// Milliseconds between two ticks when a game starts.
pub const START_INTERVAL: u64 = 200;

/// The shortest time between two ticks, in milliseconds.
pub const MIN_INTERVAL: u64 = 50;

/// Milliseconds by which each apple shortens the time between two ticks.
pub const SPEED_UP: u64 = 10;

/// Whether a run goes on.
#[derive(Debug, Clone, Copy, PartialEq, Eq, Structural)]
pub enum Status {
    Running,
    Stopped(StopReason),
}

/// Why a run has ended without a failure.
#[derive(Debug, Clone, Copy, PartialEq, Eq, Structural)]
pub enum StopReason {
    /// The player asked to leave.
    Quit,
    /// The snake ran into a wall or into itself.
    Collision,
}

/// What one round of the game loop has come to.
#[derive(Debug, Clone, Copy, PartialEq, Eq, Structural)]
pub struct Step {
    /// Whether the run goes on.
    pub status: Status,
    /// Whether the snake has moved, so that the time to the next tick starts anew.
    pub moved: bool,
}

/// A chain of cells: all on the board, no cell twice, each next to the one before it.
pub open spec fn chain(s: Seq<(u16, u16)>) -> bool {
    &&& forall|i: int| 0 <= i < s.len() ==> on_board(#[trigger] s[i])
    &&& s.no_duplicates()
    &&& forall|i: int| 0 <= i < s.len() - 1 ==> adjacent(#[trigger] s[i], s[i + 1])
}

/// A snake at rest: a chain of at least one cell.
pub open spec fn settled(s: Seq<(u16, u16)>) -> bool {
    s.len() >= 1 && chain(s)
}

/// A snake that has just grown: a settled snake and behind it one more cell,
/// which lies next to the old tail or, where a wall was in the way, on it.
/// This last cell alone may lie off the board or on a cell of the body.
pub open spec fn sprouted(s: Seq<(u16, u16)>) -> bool {
    &&& s.len() >= 2
    &&& settled(s.drop_last())
    &&& (s.last() == s[s.len() - 2] || adjacent(s[s.len() - 2], s.last()))
}

/// The time between two ticks after one more apple.
pub open spec fn sped_up(interval: u64) -> u64 {
    if interval - SPEED_UP > MIN_INTERVAL {
        (interval - SPEED_UP) as u64
    } else {
        MIN_INTERVAL
    }
}

/// The time between two ticks after a number of apples.
pub open spec fn sped_up_times(interval: u64, meals: nat) -> u64
    decreases meals,
{
    if meals == 0 {
        interval
    } else {
        sped_up(sped_up_times(interval, (meals - 1) as nat))
    }
}

/// The state of a game as plain mathematical values.
pub struct GameState {
    /// The cells of the snake, head first.
    pub snake: Seq<(u16, u16)>,
    /// The current heading.
    pub direction: Direction,
    /// The cell of the apple.
    pub apple: (u16, u16),
    /// Milliseconds between two ticks.
    pub interval: u64,
}

impl GameState {
    /// The state every game starts in: one cell at the centre of the board,
    /// heading right, the apple above it.
    pub open spec fn initial() -> GameState {
        GameState {
            snake: seq![((BOARD_SIZE / 2) as u16, (BOARD_SIZE / 2) as u16)],
            direction: Direction::Right,
            apple: ((BOARD_SIZE / 2) as u16, (BOARD_SIZE / 3) as u16),
            interval: START_INTERVAL,
        }
    }

    /// The states a game can be in. The snake is settled, or it has just
    /// grown and the apple has left its head. The apple lies on the board and
    /// the interval between its two bounds.
    pub open spec fn wf(self) -> bool {
        &&& settled(self.snake) || (sprouted(self.snake) && self.apple != self.snake[0])
        &&& on_board(self.apple)
        &&& MIN_INTERVAL <= self.interval <= START_INTERVAL
    }

    /// The head of the snake.
    pub open spec fn head(self) -> (u16, u16) {
        self.snake[0]
    }

    /// Whether the snake may turn to `requested`. With a neck, every turn is
    /// allowed but the one that leads onto the neck; without, every turn but
    /// the one that reverses the heading.
    pub open spec fn valid_turn(self, requested: Direction) -> bool {
        if self.snake.len() > 1 {
            shifted(self.snake[0], requested.vec2()) != self.snake[1]
        } else {
            self.direction.reversed() != requested
        }
    }

    /// The state after a request to turn: the heading changes if the turn is
    /// valid, and nothing changes if it is not.
    pub open spec fn turned(self, requested: Direction) -> GameState {
        if self.valid_turn(requested) {
            GameState { direction: requested, ..self }
        } else {
            self
        }
    }

    /// The state after an input event.
    pub open spec fn after_event(self, event: Event) -> GameState {
        match event.bound_command() {
            Command::Turn(d) => self.turned(d),
            _ => self,
        }
    }

    /// The state after the events of `events` up to the first that quits,
    /// and whether one of them quits.
    pub open spec fn after_events(self, events: Seq<Event>) -> (GameState, bool)
        decreases events.len(),
    {
        if events.len() == 0 {
            (self, false)
        } else if events[0].bound_command() == Command::Quit {
            (self, true)
        } else {
            self.after_event(events[0]).after_events(events.drop_first())
        }
    }

    /// Whether one step along the heading leads the head off the board.
    pub open spec fn leaves_board(self) -> bool {
        let h = self.head();
        let d = self.direction.vec2();
        !(0 <= h.0 + d.0 < BOARD_SIZE && 0 <= h.1 + d.1 < BOARD_SIZE)
    }

    /// The cell one step along the heading from the head.
    pub open spec fn next_head(self) -> (u16, u16) {
        shifted(self.head(), self.direction.vec2())
    }

    /// Whether the next head runs into the snake once the tail has left its cell.
    pub open spec fn bites(self) -> bool {
        self.snake.drop_last().contains(self.next_head())
    }

    /// Whether a tick ends the run.
    pub open spec fn crashes(self) -> bool {
        self.leaves_board() || self.bites()
    }

    /// The state after a tick. Before a wall nothing changes. Else the tail
    /// leaves, and the next head joins at the front unless it bites.
    pub open spec fn after_tick(self) -> GameState {
        if self.leaves_board() {
            self
        } else if self.bites() {
            GameState { snake: self.snake.drop_last(), ..self }
        } else {
            GameState { snake: seq![self.next_head()] + self.snake.drop_last(), ..self }
        }
    }

    /// Whether a tick is due when `elapsed_nanos` nanoseconds have passed since the last.
    pub open spec fn due(self, elapsed_nanos: u128) -> bool {
        elapsed_nanos > self.interval * 1_000_000
    }

    /// Whether the head lies on the apple.
    pub open spec fn eats(self) -> bool {
        self.head() == self.apple
    }

    /// The direction in which the snake grows: the way the tail has been
    /// trailing, or against the heading where the snake has no tail yet.
    pub open spec fn growth_vector(self) -> (int, int) {
        let n = self.snake.len() as int;
        if n > 1 {
            (self.snake[n - 1].0 - self.snake[n - 2].0, self.snake[n - 1].1 - self.snake[n - 2].1)
        } else {
            (-self.direction.vec2().0, -self.direction.vec2().1)
        }
    }

    /// The cell that the snake gains when it eats.
    pub open spec fn growth_cell(self) -> (u16, u16) {
        shifted(self.snake.last(), self.growth_vector())
    }

    /// The state after the snake has grown by one cell.
    pub open spec fn grown(self) -> GameState {
        GameState { snake: self.snake.push(self.growth_cell()), ..self }
    }

    /// What a meal may lead from `self` to. With the head off the apple
    /// nothing happens. Else the snake grows; if it then fills the board the
    /// meal fails there; if not, the apple moves to some free cell of the
    /// board and the game speeds up.
    pub open spec fn meal(self, post: GameState, result: Result<bool, GameError>) -> bool {
        if !self.eats() {
            post == self && result == Ok::<bool, GameError>(false)
        } else if board_full(self.grown().snake) {
            post == self.grown() && result == Err::<bool, GameError>(GameError::NoFreeCell)
        } else {
            &&& result == Ok::<bool, GameError>(true)
            &&& post.snake == self.grown().snake
            &&& post.direction == self.direction
            &&& post.interval == sped_up(self.interval)
            &&& on_board(post.apple)
            &&& !post.snake.contains(post.apple)
        }
    }

    /// What the part of a round that follows the input may lead from `self`
    /// to, `elapsed_nanos` nanoseconds after the last tick. A tick that is
    /// due comes first, and a collision ends the run there. Else a meal
    /// follows, whether or not a tick was due, and its failure is the round's.
    pub open spec fn advances(
        self,
        elapsed_nanos: u128,
        post: GameState,
        result: Result<Step, GameError>,
    ) -> bool {
        let ticks = self.due(elapsed_nanos);
        if ticks && self.crashes() {
            &&& post == self.after_tick()
            &&& result == Ok::<Step, GameError>(
                Step { status: Status::Stopped(StopReason::Collision), moved: false },
            )
        } else {
            let mid = if ticks {
                self.after_tick()
            } else {
                self
            };
            match result {
                Ok(step) => {
                    &&& mid.meal(post, Ok(mid.eats()))
                    &&& step == Step { status: Status::Running, moved: ticks }
                },
                Err(e) => mid.meal(post, Err(e)),
            }
        }
    }

    /// What a whole round may lead from `self` to: the events in the order
    /// they came, up to one that quits, which ends the run; else what
    /// `advances` describes.
    pub open spec fn steps(
        self,
        events: Seq<Event>,
        elapsed_nanos: u128,
        post: GameState,
        result: Result<Step, GameError>,
    ) -> bool {
        let (mid, quit) = self.after_events(events);
        if quit {
            &&& post == mid
            &&& result == Ok::<Step, GameError>(
                Step { status: Status::Stopped(StopReason::Quit), moved: false },
            )
        } else {
            mid.advances(elapsed_nanos, post, result)
        }
    }
}

/// A well-formed state has a head on the board, and all that precedes the
/// last cell of its snake is a chain.
pub proof fn lemma_wf_front(s: GameState)
    requires
        s.wf(),
    ensures
        s.snake.len() >= 1,
        on_board(s.head()),
        chain(s.snake.drop_last()),
        s.snake.len() >= 2 ==> adjacent(s.snake[0], s.snake[1]) || s.snake[1] == s.snake[0],
{
    let b = s.snake.drop_last();
    if settled(s.snake) {
        assert forall|i: int| 0 <= i < b.len() implies on_board(#[trigger] b[i]) by {
            assert(b[i] == s.snake[i]);
        }
        assert forall|i: int| 0 <= i < b.len() - 1 implies adjacent(#[trigger] b[i], b[i + 1]) by {
            assert(b[i] == s.snake[i]);
            assert(b[i + 1] == s.snake[i + 1]);
        }
        assert(b.no_duplicates());
    } else {
        assert(b[0] == s.snake[0]);
        if s.snake.len() >= 3 {
            assert(b[1] == s.snake[1]);
            assert(adjacent(b[0], b[0int + 1]));
        }
    }
}

/// After a meal the state is well-formed again: the snake has sprouted from
/// a settled one, and the apple lies on a free cell of the board.
pub proof fn lemma_meal_wf(pre: GameState, post: GameState)
    requires
        pre.wf(),
        pre.eats(),
        post.snake == pre.grown().snake,
        post.interval == sped_up(pre.interval),
        on_board(post.apple),
        !post.snake.contains(post.apple),
    ensures
        settled(pre.snake),
        sprouted(post.snake),
        post.wf(),
{
    let s = pre.snake;
    let t = post.snake;
    assert(t.drop_last() =~= s);
    assert(t[0] == s[0]);
    assert(t.contains(t[0]));
    if s.len() > 1 {
        assert(adjacent(s[s.len() - 2], s[s.len() - 2 + 1]));
    }
}

/// A tick leads from a well-formed state to a well-formed state, and a tick
/// that does not end the run leaves the snake settled.
pub proof fn lemma_tick_wf(s: GameState)
    requires
        s.wf(),
    ensures
        s.after_tick().wf(),
        s.after_tick().snake.len() >= 1,
        !s.crashes() ==> settled(s.after_tick().snake),
        !s.crashes() ==> s.after_tick().snake.len() == s.snake.len(),
        !s.crashes() ==> s.after_tick().head() == s.next_head(),
        !s.leaves_board() ==> on_board(s.next_head()) && adjacent(s.next_head(), s.head()),
{
    lemma_wf_front(s);
    let b = s.snake.drop_last();
    let n = s.next_head();
    if s.leaves_board() {
    } else if s.bites() {
        assert(b.len() >= 1);
        assert(settled(b));
    } else {
        let t = seq![n] + b;
        assert(t[0] == n);
        assert forall|i: int| 0 <= i < t.len() implies on_board(#[trigger] t[i]) by {
            if i > 0 {
                assert(t[i] == b[i - 1]);
            }
        }
        assert forall|i: int, j: int| 0 <= i < t.len() && 0 <= j < t.len() && i != j implies t[i]
            != t[j] by {
            if i > 0 {
                assert(t[i] == b[i - 1]);
            }
            if j > 0 {
                assert(t[j] == b[j - 1]);
            }
            if i == 0 {
                assert(b.contains(b[j - 1]));
            }
            if j == 0 {
                assert(b.contains(b[i - 1]));
            }
        }
        assert forall|i: int| 0 <= i < t.len() - 1 implies adjacent(#[trigger] t[i], t[i + 1]) by {
            assert(t[i + 1] == b[i]);
            if i > 0 {
                assert(t[i] == b[i - 1]);
                assert(adjacent(b[i - 1], b[i - 1 + 1]));
            } else {
                assert(b[0] == s.snake[0]);
            }
        }
        assert(settled(t));
    }
}

/// In every state a run can reach the snake has a cell, its head lies on the
/// board and so does every cell but perhaps the last, of which no coordinate
/// is greater than the side of the board. A settled snake lies on the board
/// as a whole.
pub proof fn lemma_snake_within_bounds(s: GameState)
    requires
        s.wf(),
    ensures
        s.snake.len() >= 1,
        on_board(s.head()),
        forall|i: int| 0 <= i < s.snake.len() - 1 ==> on_board(#[trigger] s.snake[i]),
        forall|i: int|
            0 <= i < s.snake.len() ==> (#[trigger] s.snake[i]).0 <= BOARD_SIZE && s.snake[i].1
                <= BOARD_SIZE,
        settled(s.snake) ==> forall|i: int| 0 <= i < s.snake.len() ==> on_board(#[trigger] s.snake[i]),
{
    lemma_wf_front(s);
    let b = s.snake.drop_last();
    assert forall|i: int| 0 <= i < s.snake.len() - 1 implies on_board(#[trigger] s.snake[i]) by {
        assert(b[i] == s.snake[i]);
    }
    if !settled(s.snake) {
        assert(b[b.len() - 1] == s.snake[s.snake.len() - 2]);
    }
}

/// In every state a run can reach no two cells of the snake before its last
/// are the same, and a settled snake holds no cell twice.
pub proof fn lemma_snake_distinct(s: GameState)
    requires
        s.wf(),
    ensures
        s.snake.drop_last().no_duplicates(),
        settled(s.snake) ==> s.snake.no_duplicates(),
{
    lemma_wf_front(s);
}

/// Each apple shortens the time between two ticks by 10 ms, but never below
/// 50 ms: once enough apples are eaten it is 50 ms, whatever is eaten after.
pub proof fn lemma_speed_floor(interval: u64, meals: nat)
    requires
        interval >= MIN_INTERVAL,
    ensures
        sped_up_times(interval, meals) >= MIN_INTERVAL,
        sped_up_times(interval, meals) == if interval - SPEED_UP * meals > MIN_INTERVAL {
            interval - SPEED_UP * meals
        } else {
            MIN_INTERVAL as int
        },
        SPEED_UP * meals >= interval - MIN_INTERVAL ==> sped_up_times(interval, meals)
            == MIN_INTERVAL,
    decreases meals,
{
    if meals > 0 {
        lemma_speed_floor(interval, (meals - 1) as nat);
    }
}

/// An input event leaves the snake, the apple and the interval alone, and so
/// leads from a well-formed state to a well-formed state.
pub proof fn lemma_event_wf(s: GameState, event: Event)
    requires
        s.wf(),
    ensures
        s.after_event(event).wf(),
        s.after_event(event).snake == s.snake,
        s.after_event(event).apple == s.apple,
        s.after_event(event).interval == s.interval,
{
}

} // verus!
