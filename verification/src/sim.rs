//! The simulation: the whole game state and the step that advances it by
//! one tick.

use crate::food::{has_free_cell, is_free, lemma_room_left, Food, SpawnError};
use crate::grid::{cell_at_xy, lemma_neighbor_adjacent, Cell, Direction};
use crate::input::{frame_request, InputBuffer, Key};
use crate::playfield::Playfield;
use crate::snake::{
    advanced, is_chain, lemma_advance_keeps_chain, lemma_kept_within, linked, spec_arbitrate,
    Snake,
};
use vstd::prelude::*;

verus! {

/// Why a game ended.
#[derive(Clone, Copy, Debug, PartialEq, Eq, Structural)]
pub enum GameOverReason {
    /// The head would have left the playfield.
    BoundaryCollision,
    /// The head would have moved onto the snake's own body.
    SelfCollision,
}

/// State of the game. `GameOver` is terminal.
#[derive(Clone, Copy, Debug, PartialEq, Eq, Structural)]
pub enum GameState {
    Running,
    GameOver(GameOverReason),
}

/// What one step did.
#[derive(Clone, Copy, Debug, PartialEq, Eq, Structural)]
pub enum TickOutcome {
    /// The snake moved by one cell.
    Moved,
    /// The snake moved onto the food and grew by one cell.
    Ate,
    /// The move would have been a collision; the game is over.
    GameOver(GameOverReason),
}

/// The game state as a mathematical value.
pub struct SimulationView {
    pub playfield: Playfield,
    /// The snake's body, head first.
    pub body: Seq<Cell>,
    /// The snake's direction of travel.
    pub direction: Direction,
    /// The direction request held by the input buffer.
    pub pending: Direction,
    /// The cell the food lies on, if there is food.
    pub food: Option<Cell>,
    pub state: GameState,
}

impl SimulationView {
    /// The snake is a chain of cells of the playfield, and the food, if
    /// any, lies on a cell of the playfield that the snake does not cover.
    pub open spec fn wf(self) -> bool {
        &&& self.playfield.wf()
        &&& is_chain(self.body)
        &&& forall|i: int| 0 <= i < self.body.len() ==> self.playfield.spec_contains(#[trigger] self.body[i])
        &&& self.food matches Some(c) ==> is_free(self.playfield, self.body, c)
    }

    /// The direction the snake takes on the next step.
    pub open spec fn next_direction(self) -> Direction {
        spec_arbitrate(self.direction, self.pending)
    }

    /// The cell the head moves to on the next step.
    pub open spec fn next_head(self) -> Cell {
        self.body[0].neighbor(self.next_direction())
    }

    /// The collision that a move of the head to `target` would be, judged
    /// against the body as it lies before the move.
    pub open spec fn collision_at(self, target: Cell) -> Option<GameOverReason> {
        if !self.playfield.spec_contains(target) {
            Some(GameOverReason::BoundaryCollision)
        } else if self.body.contains(target) {
            Some(GameOverReason::SelfCollision)
        } else {
            None
        }
    }

    /// The next step eats the food.
    pub open spec fn eats(self) -> bool {
        self.food == Some(self.next_head())
    }

    /// The state after one step, before new food is placed. A finished game
    /// stays as it is. Otherwise the direction request is arbitrated and
    /// consumed; on a collision the game ends with the snake unmoved; else
    /// the snake advances, growing and removing the food where it eats.
    pub open spec fn stepped(self) -> SimulationView {
        match self.state {
            GameState::GameOver(_) => self,
            GameState::Running => {
                let d = self.next_direction();
                match self.collision_at(self.next_head()) {
                    Some(reason) => SimulationView {
                        direction: d,
                        pending: d,
                        state: GameState::GameOver(reason),
                        ..self
                    },
                    None => SimulationView {
                        direction: d,
                        pending: d,
                        body: advanced(self.body, self.next_head(), self.eats()),
                        food: if self.eats() {
                            None
                        } else {
                            self.food
                        },
                        ..self
                    },
                }
            },
        }
    }

    /// What the next step reports.
    pub open spec fn outcome(self) -> TickOutcome {
        match self.state {
            GameState::GameOver(reason) => TickOutcome::GameOver(reason),
            GameState::Running => match self.collision_at(self.next_head()) {
                Some(reason) => TickOutcome::GameOver(reason),
                None => if self.eats() {
                    TickOutcome::Ate
                } else {
                    TickOutcome::Moved
                },
            },
        }
    }

    /// `after` is a state that one tick can lead to from `self`, with `fed`
    /// telling whether the tick succeeded. Everything but the food is as
    /// the step leaves it. Food that the step leaves stays, and so does the
    /// lack of food in a finished game. Where a running game is left without
    /// food, new food lies on a cell of the playfield clear of the snake;
    /// only where there is no such cell does the game stay without food, and
    /// the tick fails.
    pub open spec fn ticks_to(self, after: SimulationView, fed: bool) -> bool {
        let mid = self.stepped();
        &&& after == (SimulationView { food: after.food, ..mid })
        &&& if mid.state != GameState::Running || mid.food.is_some() {
            after.food == mid.food && fed
        } else {
            match after.food {
                Some(c) => is_free(mid.playfield, mid.body, c) && fed,
                None => !has_free_cell(mid.playfield, mid.body) && !fed,
            }
        }
    }
}

/// The game: playfield, snake, input buffer, food and state.
#[derive(Debug)]
pub struct Simulation {
    playfield: Playfield,
    snake: Snake,
    input: InputBuffer,
    food: Option<Food>,
    state: GameState,
}

impl View for Simulation {
    type V = SimulationView;

    closed spec fn view(&self) -> SimulationView {
        SimulationView {
            playfield: self.playfield,
            body: self.snake@,
            direction: self.snake.spec_direction(),
            pending: self.input.spec_pending(),
            food: match self.food {
                Some(f) => Some(f.spec_position()),
                None => None,
            },
            state: self.state,
        }
    }
}

impl Simulation {
    /// The state is well formed.
    pub open spec fn wf(&self) -> bool {
        self@.wf()
    }

    /// A new game: the snake at the centre, two cells long and heading
    /// right, no request pending but to go on, no food yet. A playfield less
    /// than three cells wide has no room for the snake.
    pub fn new(playfield: Playfield) -> (r: Option<Simulation>)
        requires
            playfield.wf(),
        ensures
            r.is_some() == (playfield.spec_width() >= 3),
            r matches Some(sim) ==> sim.wf() && sim@ == (SimulationView {
                playfield,
                body: seq![cell_at_xy(0, 0), cell_at_xy(-1, 0)],
                direction: Direction::Right,
                pending: Direction::Right,
                food: None,
                state: GameState::Running,
            }),
    {
        if playfield.half_width() < 1 {
            return None;
        }
        let snake = Snake::new();
        Some(
            Simulation {
                playfield,
                snake,
                input: InputBuffer::new(Direction::Right),
                food: None,
                state: GameState::Running,
            },
        )
    }

    pub fn playfield(&self) -> (p: Playfield)
        ensures
            p == self@.playfield,
    {
        self.playfield
    }

    pub fn snake(&self) -> (s: &Snake)
        ensures
            s@ == self@.body,
            s.spec_direction() == self@.direction,
            self.wf() ==> s.wf(),
    {
        &self.snake
    }

    /// The food, if there is any.
    pub fn food(&self) -> (f: Option<Food>)
        ensures
            f.is_some() == self@.food.is_some(),
            f matches Some(food) ==> self@.food == Some(food.spec_position()),
    {
        self.food
    }

    pub fn state(&self) -> (s: GameState)
        ensures
            s == self@.state,
    {
        self.state
    }

    /// The direction request currently held.
    pub fn pending_direction(&self) -> (d: Direction)
        ensures
            d == self@.pending,
    {
        self.input.pending()
    }

    /// Stores a direction request, replacing whatever was held. Nothing but
    /// the held request changes.
    pub fn request_direction(&mut self, d: Direction)
        ensures
            final(self)@ == (SimulationView { pending: d, ..old(self)@ }),
    {
        self.input.request(d);
    }

    /// Handles the keys pressed within one frame: the frame's request, if
    /// there is one, replaces the held request. Nothing else changes.
    pub fn press_keys(&mut self, keys: &Vec<Key>)
        ensures
            final(self)@ == (SimulationView {
                pending: match frame_request(keys@) {
                    Some(d) => d,
                    None => old(self)@.pending,
                },
                ..old(self)@
            }),
    {
        self.input.press_frame(keys);
    }
    /// A running game put together from its parts, with the snake's
    /// direction as the held request. The result is `None` where a cell of
    /// the snake lies off the playfield, or the food lies off the playfield
    /// or under the snake.
    pub fn from_parts(playfield: Playfield, snake: Snake, food: Option<Food>) -> (r: Option<
        Simulation,
    >)
        requires
            playfield.wf(),
            snake.wf(),
        ensures
            r.is_some() == (SimulationView {
                playfield,
                body: snake@,
                direction: snake.spec_direction(),
                pending: snake.spec_direction(),
                food: match food {
                    Some(f) => Some(f.spec_position()),
                    None => None,
                },
                state: GameState::Running,
            }).wf(),
            r matches Some(sim) ==> sim.wf() && sim@ == (SimulationView {
                playfield,
                body: snake@,
                direction: snake.spec_direction(),
                pending: snake.spec_direction(),
                food: match food {
                    Some(f) => Some(f.spec_position()),
                    None => None,
                },
                state: GameState::Running,
            }),
    {
        let n = snake.len();
        let mut i: usize = 0;
        while i < n
            invariant
                i <= n,
                n == snake@.len(),
                playfield.wf(),
                forall|j: int| 0 <= j < i ==> playfield.spec_contains(#[trigger] snake@[j]),
            decreases n - i,
        {
            if !playfield.contains(snake.segments()[i]) {
                return None;
            }
            i += 1;
        }
        match food {
            Some(f) => {
                if !playfield.contains(f.position()) || snake.occupies(f.position()) {
                    return None;
                }
            },
            None => {},
        }
        let input = InputBuffer::new(snake.direction());
        Some(Simulation { playfield, snake, input, food, state: GameState::Running })
    }

    /// The collision that a move of the head to `target` would be: leaving
    /// the playfield is a boundary collision, landing on any cell of the
    /// body as it lies now is a self collision.
    pub fn collision_at(&self, target: Cell) -> (r: Option<GameOverReason>)
        requires
            self.wf(),
        ensures
            r == self@.collision_at(target),
    {
        if !self.playfield.contains(target) {
            Some(GameOverReason::BoundaryCollision)
        } else if self.snake.occupies(target) {
            Some(GameOverReason::SelfCollision)
        } else {
            None
        }
    }

    /// Advances the game by one step without placing new food: arbitrates
    /// and consumes the direction request, then either ends the game on a
    /// collision or moves the snake, which grows by one cell and removes the
    /// food where it eats. A finished game is left as it is.
    pub fn step(&mut self) -> (outcome: TickOutcome)
        requires
            old(self).wf(),
        ensures
            final(self).wf(),
            final(self)@ == old(self)@.stepped(),
            outcome == old(self)@.outcome(),
            final(self)@.body.len() == old(self)@.body.len() + if outcome == TickOutcome::Ate {
                1int
            } else {
                0int
            },
    {
        match self.state {
            GameState::GameOver(reason) => {
                return TickOutcome::GameOver(reason);
            },
            GameState::Running => {},
        }
        let direction = self.input.consume(self.snake.direction());
        self.snake.turn(direction);
        let target = self.snake.next_head();
        match self.collision_at(target) {
            Some(reason) => {
                self.state = GameState::GameOver(reason);
                TickOutcome::GameOver(reason)
            },
            None => {
                let grow = match self.food {
                    Some(f) => f.position() == target,
                    None => false,
                };
                let ghost before = self.snake@;
                proof {
                    lemma_kept_within(before, grow, target);
                }
                self.snake.advance(target, grow);
                if grow {
                    self.food = None;
                }
                proof {
                    let after = self.snake@;
                    assert forall|i: int| 0 <= i < after.len() implies self.playfield.spec_contains(
                        #[trigger] after[i],
                    ) by {
                        if i > 0 {
                            assert(after[i] == before[i - 1]);
                        }
                    }
                    if let Some(c) = self@.food {
                        assert(!after.contains(c)) by {
                            if after.contains(c) {
                                let k = choose|k: int| 0 <= k < after.len() && after[k] == c;
                                if k > 0 {
                                    assert(before.contains(before[k - 1]));
                                }
                            }
                        }
                    }
                }
                if grow {
                    TickOutcome::Ate
                } else {
                    TickOutcome::Moved
                }
            },
        }
    }

    /// Places food on a random free cell if there is none. Food that exists
    /// stays where it is. Fails, leaving the game without food, exactly when
    /// there is none and the snake covers every cell.
    pub fn ensure_food(&mut self) -> (r: Result<(), SpawnError>)
        requires
            old(self).wf(),
        ensures
            final(self).wf(),
            final(self)@ == (SimulationView { food: final(self)@.food, ..old(self)@ }),
            old(self)@.food.is_some() ==> r.is_ok() && final(self)@.food == old(self)@.food,
            old(self)@.food.is_none() ==> r.is_ok() == has_free_cell(
                old(self)@.playfield,
                old(self)@.body,
            ),
            r.is_ok() == final(self)@.food.is_some(),
            r matches Err(e) ==> e == SpawnError::NoSpaceAvailable,
            old(self)@.body.len() < old(self)@.playfield.spec_cell_count() ==> r.is_ok(),
    {
        if self.food.is_some() {
            return Ok(());
        }
        match Food::spawn(&self.playfield, self.snake.segments()) {
            Ok(f) => {
                self.food = Some(f);
                Ok(())
            },
            Err(e) => Err(e),
        }
    }

    /// One tick of a game: a step, then new food if the game goes on and
    /// there is none. The snake, the direction, the held request and the
    /// state come out as the step leaves them. The food the step leaves
    /// stays; where it leaves none, new food lies on a cell of the playfield
    /// clear of the moved snake. The tick fails, after the step, exactly when
    /// food is due and the snake covers the whole playfield.
    pub fn tick(&mut self) -> (r: Result<TickOutcome, SpawnError>)
        requires
            old(self).wf(),
        ensures
            final(self).wf(),
            old(self)@.ticks_to(final(self)@, r.is_ok()),
            r matches Ok(outcome) ==> outcome == old(self)@.outcome(),
            r matches Err(e) ==> e == SpawnError::NoSpaceAvailable,
            final(self)@.body.len() == old(self)@.body.len() + if old(self)@.outcome()
                == TickOutcome::Ate {
                1int
            } else {
                0int
            },
    {
        let outcome = self.step();
        match self.state {
            GameState::GameOver(_) => Ok(outcome),
            GameState::Running => match self.ensure_food() {
                Ok(()) => Ok(outcome),
                Err(e) => Err(e),
            },
        }
    }
}

/// A request to reverse is always ignored, and arbitration never yields the
/// reverse of the current direction.
pub proof fn lemma_reversal_ignored(current: Direction, pending: Direction)
    ensures
        spec_arbitrate(current, current.spec_opposite()) == current,
        spec_arbitrate(current, pending) != current.spec_opposite(),
        pending != current.spec_opposite() ==> spec_arbitrate(current, pending) == pending,
{
}

/// A step keeps the state well formed: the snake stays a chain of adjacent,
/// distinct cells of the playfield, and food stays clear of it.
pub proof fn lemma_step_keeps_wf(m: SimulationView)
    requires
        m.wf(),
    ensures
        m.stepped().wf(),
        linked(m.stepped().body),
{
    if m.state == GameState::Running && m.collision_at(m.next_head()).is_none() {
        let target = m.next_head();
        let after = m.stepped().body;
        assert(m.playfield.spec_contains(m.body[0]));
        lemma_neighbor_adjacent(m.body[0], m.next_direction());
        lemma_kept_within(m.body, m.eats(), target);
        lemma_advance_keeps_chain(m.body, target, m.eats());
        assert forall|i: int| 0 <= i < after.len() implies m.playfield.spec_contains(
            #[trigger] after[i],
        ) by {
            if i > 0 {
                assert(after[i] == m.body[i - 1]);
            }
        }
        if let Some(c) = m.stepped().food {
            if after.contains(c) {
                let k = choose|k: int| 0 <= k < after.len() && after[k] == c;
                if k > 0 {
                    assert(m.body.contains(m.body[k - 1]));
                }
            }
        }
    }
}

/// A step lengthens the snake by exactly one cell when it eats and leaves
/// its length unchanged otherwise.
pub proof fn lemma_step_length(m: SimulationView)
    requires
        m.wf(),
    ensures
        m.outcome() == TickOutcome::Ate ==> m.stepped().body.len() == m.body.len() + 1,
        m.outcome() != TickOutcome::Ate ==> m.stepped().body.len() == m.body.len(),
{
}

/// Whatever state a tick leads to is well formed, and the snake in it is
/// one cell longer if the tick ate and as long as before if not. New food
/// never lies under the snake or off the playfield.
pub proof fn lemma_tick_keeps_wf(m: SimulationView, after: SimulationView, fed: bool)
    requires
        m.wf(),
        m.ticks_to(after, fed),
    ensures
        after.wf(),
        linked(after.body),
        after.body.len() == m.body.len() + if m.outcome() == TickOutcome::Ate {
            1int
        } else {
            0int
        },
        after.food matches Some(c) ==> after.playfield.spec_contains(c) && !after.body.contains(c),
{
    lemma_step_keeps_wf(m);
    lemma_step_length(m);
}

/// In a running game, a held request to reverse leaves the direction of
/// travel as it was.
pub proof fn lemma_tick_ignores_reversal(m: SimulationView, after: SimulationView, fed: bool)
    requires
        m.state == GameState::Running,
        m.pending == m.direction.spec_opposite(),
        m.ticks_to(after, fed),
    ensures
        after.direction == m.direction,
        after.pending == m.direction,
{
}

/// A finished game does not change any more.
pub proof fn lemma_game_over_is_terminal(m: SimulationView, after: SimulationView, fed: bool)
    requires
        m.state != GameState::Running,
        m.ticks_to(after, fed),
    ensures
        m.stepped() == m,
        after == m,
        fed,
{
}

/// While the snake is shorter than the playfield has cells, a tick never
/// fails for want of space, and a running game has food after it.
pub proof fn lemma_tick_feeds(m: SimulationView, after: SimulationView, fed: bool)
    requires
        m.wf(),
        m.ticks_to(after, fed),
        m.stepped().body.len() < m.playfield.spec_cell_count(),
    ensures
        fed,
        after.state == GameState::Running ==> after.food.is_some(),
{
    lemma_room_left(m.playfield, m.stepped().body);
}

} // verus!
