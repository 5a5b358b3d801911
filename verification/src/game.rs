//! The game itself: the state that a run owns and the steps that change it.

use vstd::prelude::*;
use crate::board::{
    adjacent, board_cells, free_cells, holds, is_adjacent, is_on_board, lemma_free_cells,
    lemma_room_left, offset_cell, on_board, untaken, BOARD_SIZE,
};
use crate::chance::pick_cell;
use crate::direction::Direction;
use crate::error::GameError;
use crate::input::{Command, Event};
use crate::scene::{compose, picture, Area, Scene};
use crate::state::{
    chain, lemma_meal_wf, lemma_snake_within_bounds, lemma_tick_wf, lemma_wf_front, settled,
    sped_up, GameState, Status, Step, StopReason, MIN_INTERVAL, SPEED_UP, START_INTERVAL,
};

verus! {

/// A game of Snake on the fixed board.
#[derive(Debug)]
pub struct Game {
    snake: Vec<(u16, u16)>,
    snake_direction: Direction,
    apple_position: (u16, u16),
    snake_move_time: u64,
}

impl View for Game {
    type V = GameState;

    closed spec fn view(&self) -> GameState {
        GameState {
            snake: self.snake@,
            direction: self.snake_direction,
            apple: self.apple_position,
            interval: self.snake_move_time,
        }
    }
}

impl Default for Game {
    /// A new game: a snake of one cell at the centre of the board, heading
    /// right, the apple above it, and 200 ms between two ticks.
    fn default() -> (game: Game)
        ensures
            game@ == GameState::initial(),
            game.wf(),
    {
        let mut snake: Vec<(u16, u16)> = Vec::new();
        snake.push((BOARD_SIZE / 2, BOARD_SIZE / 2));
        let game = Game {
            snake,
            snake_direction: Direction::Right,
            apple_position: (BOARD_SIZE / 2, BOARD_SIZE / 3),
            snake_move_time: START_INTERVAL,
        };
        assert(game@.snake =~= GameState::initial().snake);
        game
    }
}

/// Tells whether the first `n` of `cells` are a chain.
fn is_chain(cells: &Vec<(u16, u16)>, n: usize) -> (ok: bool)
    requires
        n <= cells.len(),
    ensures
        ok == chain(cells@.take(n as int)),
{
    let ghost all = cells@.take(n as int);
    let mut i: usize = 0;
    while i < n
        invariant
            i <= n <= cells.len(),
            all == cells@.take(n as int),
            chain(cells@.take(i as int)),
        decreases n - i,
    {
        let cell = cells[i];
        assert(all[i as int] == cell);
        if !is_on_board(cell) {
            return false;
        }
        if i > 0 && !is_adjacent(cells[i - 1], cell) {
            assert(all[i - 1] == cells@[i - 1]);
            assert(all[i - 1 + 1] == cell);
            return false;
        }
        let mut j: usize = 0;
        while j < i
            invariant
                j <= i < n <= cells.len(),
                cell == cells@[i as int],
                all == cells@.take(n as int),
                forall|k: int| 0 <= k < j ==> cells@[k] != cell,
            decreases i - j,
        {
            let other = cells[j];
            if other.0 == cell.0 && other.1 == cell.1 {
                assert(all[j as int] == all[i as int]);
                return false;
            }
            j += 1;
        }
        proof {
            let shorter = cells@.take(i as int);
            let longer = cells@.take(i + 1);
            assert forall|k: int| 0 <= k < longer.len() implies on_board(#[trigger] longer[k]) by {
                if k < i {
                    assert(shorter[k] == longer[k]);
                }
            }
            assert forall|k: int, l: int|
                0 <= k < longer.len() && 0 <= l < longer.len() && k != l implies longer[k]
                != longer[l] by {
                if k < i && l < i {
                    assert(shorter[k] == longer[k]);
                    assert(shorter[l] == longer[l]);
                }
            }
            assert forall|k: int| 0 <= k < longer.len() - 1 implies adjacent(
                #[trigger] longer[k],
                longer[k + 1],
            ) by {
                if k + 1 < i {
                    assert(shorter[k] == longer[k]);
                    assert(shorter[k + 1] == longer[k + 1]);
                }
            }
        }
        i += 1;
    }
    assert(cells@.take(i as int) == all);
    true
}

impl Game {
    /// Whether the game is in one of the states a run can reach.
    pub open spec fn wf(&self) -> bool {
        self@.wf()
    }

    /// Makes a game from its parts, if they form a state a run can reach:
    /// the snake settled, or sprouted with the apple off its head, the apple
    /// on the board, and the interval from 50 to 200 ms.
    pub fn from_parts(
        snake: Vec<(u16, u16)>,
        direction: Direction,
        apple: (u16, u16),
        interval: u64,
    ) -> (game: Option<Game>)
        ensures
            game is Some <==> (GameState { snake: snake@, direction, apple, interval }).wf(),
            game matches Some(g) ==> g@ == (GameState { snake: snake@, direction, apple, interval }),
    {
        let game = Game {
            snake,
            snake_direction: direction,
            apple_position: apple,
            snake_move_time: interval,
        };
        if game.is_well_formed() {
            Some(game)
        } else {
            None
        }
    }

    /// Tells whether the game is in one of the states a run can reach.
    ///
    /// A game is, as long as no step has failed.
    pub fn is_well_formed(&self) -> (ok: bool)
        ensures
            ok == self.wf(),
    {
        let n = self.snake.len();
        if n == 0 || !is_on_board(self.apple_position) || self.snake_move_time < MIN_INTERVAL
            || self.snake_move_time > START_INTERVAL {
            return false;
        }
        assert(self.snake@.take(n as int) =~= self.snake@);
        assert(self.snake@.take(n - 1) =~= self.snake@.drop_last());
        if is_chain(&self.snake, n) {
            true
        } else if n >= 2 && is_chain(&self.snake, n - 1) {
            let tail = self.snake[n - 1];
            let before = self.snake[n - 2];
            let head = self.snake[0];
            let apple = self.apple_position;
            ((tail.0 == before.0 && tail.1 == before.1) || is_adjacent(before, tail)) && !(apple.0
                == head.0 && apple.1 == head.1)
        } else {
            false
        }
    }

    /// Returns the cells of the snake, head first.
    pub fn snake(&self) -> (cells: &Vec<(u16, u16)>)
        ensures
            cells@ == self@.snake,
    {
        &self.snake
    }

    /// Returns the current heading.
    pub fn direction(&self) -> (d: Direction)
        ensures
            d == self@.direction,
    {
        self.snake_direction
    }

    /// Returns the cell of the apple.
    pub fn apple(&self) -> (cell: (u16, u16))
        ensures
            cell == self@.apple,
    {
        self.apple_position
    }

    /// Returns the time between two ticks, in milliseconds.
    pub fn move_interval(&self) -> (ms: u64)
        ensures
            ms == self@.interval,
    {
        self.snake_move_time
    }

    /// Returns the score: the cells the snake has gained since the start.
    pub fn score(&self) -> (score: usize)
        requires
            self.wf(),
        ensures
            score == self@.snake.len() - 1,
    {
        self.snake.len() - 1
    }

    /// Lays out the frame that shows the game on `area`.
    ///
    /// Fails with `TerminalTooSmall` where the area has less than 44 columns
    /// or less than 22 rows. The score in the title is the length of the
    /// snake less one.
    pub fn render(&self, area: Area) -> (result: Result<Scene, GameError>)
        requires
            self.wf(),
            area.bounded(),
        ensures
            result is Ok <==> area.fits(),
            result matches Err(e) ==> e == GameError::TerminalTooSmall,
            result matches Ok(scene) ==> scene@ == picture(area, self@.snake, self@.apple),
    {
        proof {
            lemma_snake_within_bounds(self@);
        }
        compose(area, &self.snake, self.apple_position)
    }

    /// Tells whether the snake may turn to `direction`.
    ///
    /// A snake with a neck may turn anywhere but onto its neck. A snake of
    /// one cell may turn anywhere but against its heading.
    pub fn is_valid_turn(&self, direction: Direction) -> (valid: bool)
        ensures
            valid == self@.valid_turn(direction),
    {
        if self.snake.len() > 1 {
            let vector = direction.get_vec2();
            let head = self.snake[0];
            let target = offset_cell(head, vector);
            let neck = self.snake[1];

            !(target.0 == neck.0 && target.1 == neck.1)
        } else {
            self.snake_direction.opposite() != direction
        }
    }

    /// Applies one input event: a valid turn changes the heading, a request
    /// to quit ends the run, and everything else is ignored.
    pub fn handle_event(&mut self, event: Event) -> (status: Status)
        ensures
            final(self)@ == old(self)@.after_event(event),
            old(self).wf() ==> final(self).wf(),
            status == if event.bound_command() == Command::Quit {
                Status::Stopped(StopReason::Quit)
            } else {
                Status::Running
            },
    {
        match event.command() {
            Command::Turn(direction) => {
                if self.is_valid_turn(direction) {
                    self.snake_direction = direction;
                }
                Status::Running
            },
            Command::Quit => Status::Stopped(StopReason::Quit),
            Command::Ignore => Status::Running,
        }
    }

    /// Tells whether a tick is due, `elapsed_nanos` nanoseconds after the last.
    pub fn is_due(&self, elapsed_nanos: u128) -> (due: bool)
        ensures
            due == self@.due(elapsed_nanos),
    {
        elapsed_nanos > self.snake_move_time as u128 * 1_000_000
    }

    /// Advances the snake by one cell along its heading.
    ///
    /// Before a wall the run ends and nothing changes. Else the tail leaves
    /// its cell; if the next head then lies on the snake the run ends, and if
    /// not it becomes the new head.
    pub fn tick(&mut self) -> (status: Status)
        requires
            old(self).wf(),
        ensures
            final(self)@ == old(self)@.after_tick(),
            final(self).wf(),
            status == if old(self)@.crashes() {
                Status::Stopped(StopReason::Collision)
            } else {
                Status::Running
            },
    {
        proof {
            lemma_wf_front(self@);
            lemma_tick_wf(self@);
        }
        let direction = self.snake_direction.get_vec2();
        let head = self.snake[0];

        if (head.0 == 0 && direction.0 < 0) || (head.1 == 0 && direction.1 < 0) || (head.0
            == BOARD_SIZE - 1 && direction.0 > 0) || (head.1 == BOARD_SIZE - 1 && direction.1 > 0) {
            return Status::Stopped(StopReason::Collision);
        }
        self.snake.pop();
        assert(self.snake@ =~= old(self)@.snake.drop_last());

        let next_head = offset_cell(head, direction);

        if holds(&self.snake, next_head) {
            return Status::Stopped(StopReason::Collision);
        }
        self.snake.insert(0, next_head);
        assert(self.snake@ =~= seq![next_head] + old(self)@.snake.drop_last());
        Status::Running
    }

    /// Lengthens the snake by one cell behind its tail.
    fn grow(&mut self)
        requires
            settled(old(self)@.snake),
        ensures
            final(self)@ == old(self)@.grown(),
    {
        let tail_direction = if self.snake.len() > 1 {
            let (x1, y1) = self.snake[self.snake.len() - 1];
            let (x2, y2) = self.snake[self.snake.len() - 2];
            assert(on_board(self.snake@[self.snake@.len() - 1]));
            assert(on_board(self.snake@[self.snake@.len() - 2]));
            (x1 as i16 - x2 as i16, y1 as i16 - y2 as i16)
        } else {
            let (x, y) = self.snake_direction.get_vec2();
            (-x, -y)
        };
        let tail = self.snake[self.snake.len() - 1];

        self.snake.push(offset_cell(tail, tail_direction));
    }

    /// Lists the cells of the board on which the snake does not lie, column
    /// by column.
    pub fn free_cells(&self) -> (cells: Vec<(u16, u16)>)
        ensures
            cells@ == free_cells(self@.snake),
    {
        assert(BOARD_SIZE == 20);
        let mut possible_positions: Vec<(u16, u16)> = Vec::with_capacity(
            BOARD_SIZE as usize * BOARD_SIZE as usize,
        );
        let ghost pred = untaken(self.snake@);
        proof {
            reveal(Seq::filter);
            assert(board_cells().take(0) =~= Seq::<(u16, u16)>::empty());
        }

        for x in 0..BOARD_SIZE
            invariant
                pred == untaken(self.snake@),
                possible_positions@ == board_cells().take(x * BOARD_SIZE).filter(pred),
        {
            for y in 0..BOARD_SIZE
                invariant
                    x < BOARD_SIZE,
                    pred == untaken(self.snake@),
                    possible_positions@ == board_cells().take(x * BOARD_SIZE + y).filter(pred),
            {
                proof {
                    let k = x * BOARD_SIZE + y;
                    board_cells().lemma_take_succ_push(k);
                    board_cells().take(k).lemma_filter_push((x, y), pred);
                    assert(board_cells()[k] == (x, y));
                }
                if !holds(&self.snake, (x, y)) {
                    possible_positions.push((x, y));
                }
            }
        }
        proof {
            board_cells().lemma_take_len();
        }
        possible_positions
    }

    /// Ends a meal with the cell that was drawn for the new apple.
    ///
    /// With a cell, the apple moves there and the game speeds up. With none,
    /// no cell was free: the meal fails and nothing changes.
    pub fn place_apple(&mut self, pick: Option<(u16, u16)>) -> (result: Result<(), GameError>)
        ensures
            match pick {
                Some(c) => result is Ok && final(self)@ == (GameState {
                    apple: c,
                    interval: sped_up(old(self)@.interval),
                    ..old(self)@
                }),
                None => result == Err::<(), GameError>(GameError::NoFreeCell) && final(self)@
                    == old(self)@,
            },
    {
        match pick {
            Some(cell) => {
                self.apple_position = cell;
                self.snake_move_time = if self.snake_move_time > MIN_INTERVAL + SPEED_UP {
                    self.snake_move_time - SPEED_UP
                } else {
                    MIN_INTERVAL
                };
                Ok(())
            },
            None => Err(GameError::NoFreeCell),
        }
    }

    /// Lets the snake eat the apple if its head lies on it.
    ///
    /// Returns `Ok(false)` and changes nothing when the head is elsewhere.
    /// Else the snake grows by one cell. If it then fills the board the meal
    /// fails with `NoFreeCell`. If not, the apple moves to a cell drawn at
    /// random from the free ones, the game speeds up, and the result is
    /// `Ok(true)`.
    pub fn eat(&mut self) -> (result: Result<bool, GameError>)
        requires
            old(self).wf(),
        ensures
            old(self)@.meal(final(self)@, result),
            result is Ok ==> final(self).wf(),
            old(self)@.snake.len() + 1 < BOARD_SIZE * BOARD_SIZE ==> result is Ok,
    {
        let head = self.snake[0];
        if !(head.0 == self.apple_position.0 && head.1 == self.apple_position.1) {
            return Ok(false);
        }
        self.grow();
        let possible_positions = self.free_cells();
        let pick = pick_cell(&possible_positions);
        proof {
            lemma_free_cells(self@.snake);
            if self@.snake.len() < BOARD_SIZE * BOARD_SIZE {
                lemma_room_left(self@.snake);
            }
        }
        match self.place_apple(pick) {
            Ok(()) => {
                proof {
                    lemma_meal_wf(old(self)@, self@);
                }
                Ok(true)
            },
            Err(e) => Err(e),
        }
    }

    /// Plays the part of a round that follows the input: a tick if one is
    /// due, `elapsed_nanos` nanoseconds after the last, and then a meal.
    ///
    /// A collision ends the run before the meal. The result says whether the
    /// run goes on and whether the snake has moved.
    pub fn advance(&mut self, elapsed_nanos: u128) -> (result: Result<Step, GameError>)
        requires
            old(self).wf(),
        ensures
            old(self)@.advances(elapsed_nanos, final(self)@, result),
            result is Ok ==> final(self).wf(),
    {
        let due = self.is_due(elapsed_nanos);
        if due {
            match self.tick() {
                Status::Stopped(reason) => {
                    return Ok(Step { status: Status::Stopped(reason), moved: false });
                },
                Status::Running => {},
            }
        }
        match self.eat() {
            Ok(_) => Ok(Step { status: Status::Running, moved: due }),
            Err(e) => Err(e),
        }
    }

    /// Plays one round: the events in the order they came, then `advance`.
    ///
    /// An event that quits ends the run at once: the events after it, the
    /// tick and the meal are left out.
    pub fn step(&mut self, events: &Vec<Event>, elapsed_nanos: u128) -> (result: Result<
        Step,
        GameError,
    >)
        requires
            old(self).wf(),
        ensures
            old(self)@.steps(events@, elapsed_nanos, final(self)@, result),
            result is Ok ==> final(self).wf(),
    {
        let mut i: usize = 0;
        assert(events@.skip(0) =~= events@);
        while i < events.len()
            invariant
                i <= events.len(),
                self.wf(),
                self@.after_events(events@.skip(i as int)) == old(self)@.after_events(events@),
            decreases events.len() - i,
        {
            let ghost rest = events@.skip(i as int);
            assert(rest[0] == events@[i as int]);
            assert(rest.drop_first() =~= events@.skip(i + 1));
            match self.handle_event(events[i]) {
                Status::Stopped(reason) => {
                    return Ok(Step { status: Status::Stopped(reason), moved: false });
                },
                Status::Running => {},
            }
            i += 1;
        }
        assert(events@.skip(i as int).len() == 0);
        self.advance(elapsed_nanos)
    }
}

} // verus!
