//! The session: one snake on one board, driven by input events and by
//! fixed-length ticks. The caller polls the terminal, hands each event to
//! [`Game::handle_input`], calls [`Game::tick`] once per tick and draws what
//! comes back.

use rand::rngs::StdRng;
use vstd::prelude::*;
use crate::frame::{extend_batch, painted, snake_painted, CellUpdate, GlyphKind};
use crate::random::fresh_rng;
use crate::scene::{clamped, config_fault, ConfigError, Scene, MAX_HEIGHT, MAX_WIDTH};
use crate::snake::{grown_by, neighbor, shifted, Direction, Snake};

verus! {

/// The time between two ticks, in milliseconds.
pub const TICK_MILLIS: u64 = 100;

/// The border thickness of the boards that [`Game::new`] builds.
pub const BORDER_WIDTH: u16 = 1;

/// Where a session stands.
#[derive(Clone, Copy, Debug, PartialEq, Eq, Structural)]
pub enum Phase {
    /// The snake moves on every tick.
    Running,
    /// The snake has hit the border band or itself; nothing moves.
    Lost,
    /// The player has paused the session; nothing moves.
    Paused,
}

/// What the player can tell the session.
#[derive(Clone, Copy, Debug, PartialEq, Eq, Structural)]
pub enum InputEvent {
    /// Turn towards this direction.
    DirectionKey(Direction),
    /// Start again after a loss.
    Confirm,
    /// Pause, or go on after a pause.
    PauseToggle,
    /// Leave the game.
    Quit,
    /// Any other key.
    Other,
}

/// What an input event did to the session.
#[derive(Clone, Copy, Debug, PartialEq, Eq, Structural)]
pub enum Reaction {
    /// Nothing changed.
    Ignored,
    /// The turn will be made on the next tick.
    Steered,
    /// The session is now paused.
    Paused,
    /// The session is running again after a pause.
    Resumed,
    /// A new round has begun.
    Restarted,
    /// The player wants to leave; the session itself is unchanged.
    Quit,
}

/// What one tick did.
#[derive(Clone, Debug, PartialEq, Eq)]
pub enum TickOutcome {
    /// The session is lost or paused: nothing changed.
    Frozen,
    /// The snake was found on the border band or on itself: the session is
    /// now lost and the snake has not moved.
    Collided,
    /// The snake has moved one cell. The batch erases its old cells, draws
    /// its new ones and draws the food, in this order.
    Advanced(Vec<CellUpdate>),
}

/// The pending turn after a direction key: a key that asks for the reverse
/// of the current heading changes nothing, any other key replaces whatever
/// was pending.
pub open spec fn steered(heading: Direction, pending: Option<Direction>, key: Direction) -> Option<
    Direction,
> {
    if key == heading.opposite() {
        pending
    } else {
        Some(key)
    }
}

/// The heading once the pending turn, if any, has been made.
pub open spec fn turned(heading: Direction, pending: Option<Direction>) -> Direction {
    match pending {
        Some(d) => d,
        None => heading,
    }
}

/// Whichever heading the snake has, a key for the reverse heading leaves the
/// pending turn as it was; with no turn pending, the snake keeps its heading
/// on the next tick.
pub proof fn law_reverse_key_is_ignored(heading: Direction, pending: Option<Direction>)
    ensures
        steered(heading, pending, heading.opposite()) == pending,
        turned(heading, steered(heading, None, heading.opposite())) == heading,
        steered(Direction::Right, pending, Direction::Left) == pending,
        steered(Direction::Left, pending, Direction::Right) == pending,
        steered(Direction::Up, pending, Direction::Down) == pending,
        steered(Direction::Down, pending, Direction::Up) == pending,
{
}

/// A key for any heading but the reverse of the current one becomes the
/// pending turn, and the snake takes that heading on the next tick.
pub proof fn law_other_key_is_taken(heading: Direction, pending: Option<Direction>, key: Direction)
    requires
        key != heading.opposite(),
    ensures
        steered(heading, pending, key) == Some(key),
        turned(heading, steered(heading, pending, key)) == key,
{
}

/// One session of the game. It owns the snake, the board and the random
/// source that food is spawned with.
pub struct Game {
    snake: Snake,
    scene: Scene,
    rng: StdRng,
    phase: Phase,
    pending: Option<Direction>,
    grow: bool,
}

impl Game {
    /// The snake, for contracts.
    pub closed spec fn spec_snake(&self) -> &Snake {
        &self.snake
    }

    /// The board, for contracts.
    pub closed spec fn spec_scene(&self) -> &Scene {
        &self.scene
    }

    /// Where the session stands, for contracts.
    pub closed spec fn spec_phase(&self) -> Phase {
        self.phase
    }

    /// The turn to make on the next tick, for contracts.
    pub closed spec fn spec_pending_turn(&self) -> Option<Direction> {
        self.pending
    }

    /// Whether the snake grows on the next tick, for contracts.
    pub closed spec fn spec_will_grow(&self) -> bool {
        self.grow
    }

    /// Snake and board are both well-formed.
    pub open spec fn wf(&self) -> bool {
        &&& self.snake().wf()
        &&& self.scene().wf()
    }

    /// Whether the snake's head is on the border band or off the board, or
    /// two of its segments share a cell.
    pub open spec fn collides(&self) -> bool {
        !self.scene().is_interior(self.snake().head()) || !self.snake()@.no_duplicates()
    }

    /// Whether both sessions agree on everything but the state of their
    /// random sources.
    pub open spec fn same_state(&self, other: &Game) -> bool {
        &&& self.snake()@ == other.snake()@
        &&& self.snake().direction() == other.snake().direction()
        &&& self.scene().same_board(other.scene())
        &&& self.scene().fruits() == other.scene().fruits()
        &&& self.phase() == other.phase()
        &&& self.pending_turn() == other.pending_turn()
        &&& self.will_grow() == other.will_grow()
    }

    /// Whether both sessions agree on everything but the phase and the
    /// state of their random sources.
    pub open spec fn same_but_phase(&self, other: &Game) -> bool {
        &&& self.snake()@ == other.snake()@
        &&& self.snake().direction() == other.snake().direction()
        &&& self.scene().same_board(other.scene())
        &&& self.scene().fruits() == other.scene().fruits()
        &&& self.pending_turn() == other.pending_turn()
        &&& self.will_grow() == other.will_grow()
    }

    /// Whether both sessions agree on everything but the pending turn and
    /// the state of their random sources. This is all that direction keys
    /// can change, however many are pressed.
    pub open spec fn same_but_turn(&self, other: &Game) -> bool {
        &&& self.snake()@ == other.snake()@
        &&& self.snake().direction() == other.snake().direction()
        &&& self.scene().same_board(other.scene())
        &&& self.scene().fruits() == other.scene().fruits()
        &&& self.phase() == other.phase()
        &&& self.will_grow() == other.will_grow()
    }

    /// Whether `after` is what one tick may make of this session.
    ///
    /// A lost or paused session stays as it is. In a running one the
    /// pending turn is made first. If the snake then collides, the session
    /// is lost and nothing else changes. Otherwise the snake advances one
    /// cell in its heading, growing exactly when growth was due; growth is
    /// due next time exactly when the new head lies on food; and that
    /// food, if any, is replaced by a newly spawned piece.
    pub open spec fn ticked(&self, after: &Game) -> bool {
        let heading = turned(self.snake().direction(), self.pending_turn());
        let head = neighbor(self.snake().head(), heading);
        let food = self.scene().fruits();
        &&& after.scene().same_board(self.scene())
        &&& if self.phase() != Phase::Running {
            after.same_state(self)
        } else if self.collides() {
            &&& after.phase() == Phase::Lost
            &&& after.pending_turn() is None
            &&& after.snake().direction() == heading
            &&& after.snake()@ == self.snake()@
            &&& after.scene().fruits() == food
            &&& after.will_grow() == self.will_grow()
        } else {
            &&& after.phase() == Phase::Running
            &&& after.pending_turn() is None
            &&& after.snake().direction() == heading
            &&& after.snake()@ == shifted(self.snake()@, head, self.will_grow())
            &&& after.will_grow() == food.contains(head)
            &&& if food.contains(head) {
                after.scene().spawned(
                    after.snake(),
                    food.remove(food.index_of(head)),
                    after.scene().fruits(),
                )
            } else {
                after.scene().fruits() == food
            }
        }
    }

    /// Whether the session is at the start of a round: running, the snake
    /// one segment long in the middle of the board and heading down, no
    /// turn pending, no growth due, and one piece of food spawned on an
    /// otherwise empty board (or none, where no cell is free).
    pub open spec fn at_start(&self) -> bool {
        &&& self.phase() == Phase::Running
        &&& self.snake()@ == seq![(self.scene().width() / 2, self.scene().height() / 2)]
        &&& self.snake().direction() == Direction::Down
        &&& self.pending_turn() is None
        &&& !self.will_grow()
        &&& self.scene().spawned(self.snake(), Seq::<(u16, u16)>::empty(), self.scene().fruits())
    }

    /// The snake.
    #[verifier::when_used_as_spec(spec_snake)]
    pub fn snake(&self) -> (s: &Snake)
        ensures
            s == self.spec_snake(),
    {
        &self.snake
    }

    /// The board.
    #[verifier::when_used_as_spec(spec_scene)]
    pub fn scene(&self) -> (s: &Scene)
        ensures
            s == self.spec_scene(),
    {
        &self.scene
    }

    /// Where the session stands.
    #[verifier::when_used_as_spec(spec_phase)]
    pub fn phase(&self) -> (p: Phase)
        ensures
            p == self.spec_phase(),
    {
        self.phase
    }

    /// The turn to make on the next tick.
    #[verifier::when_used_as_spec(spec_pending_turn)]
    pub fn pending_turn(&self) -> (d: Option<Direction>)
        ensures
            d == self.spec_pending_turn(),
    {
        self.pending
    }

    /// Whether the snake grows on the next tick.
    #[verifier::when_used_as_spec(spec_will_grow)]
    pub fn will_grow(&self) -> (g: bool)
        ensures
            g == self.spec_will_grow(),
    {
        self.grow
    }

    /// A running session made of the given snake and board, drawing its
    /// random choices from `rng`.
    pub fn from_parts(snake: Snake, scene: Scene, rng: StdRng) -> (game: Game)
        requires
            snake.wf(),
            scene.wf(),
        ensures
            game.wf(),
            *game.snake() == snake,
            *game.scene() == scene,
            game.phase() == Phase::Running,
            game.pending_turn() is None,
            !game.will_grow(),
    {
        Game { snake, scene, rng, phase: Phase::Running, pending: None, grow: false }
    }

    /// A session on a terminal of the given size, drawing its random
    /// choices from `rng`. The board fills the terminal up to the size
    /// limits and has a border of `BORDER_WIDTH`; the round starts with one
    /// piece of food if there is a free cell for it. A terminal too small
    /// for such a board is refused.
    pub fn with_rng(term_width: u16, term_height: u16, rng: StdRng) -> (r: Result<
        Game,
        ConfigError,
    >)
        ensures
            match r {
                Ok(game) => {
                    &&& config_fault(term_width, term_height, BORDER_WIDTH) is None
                    &&& game.wf()
                    &&& game.scene().width() == clamped(term_width, MAX_WIDTH)
                    &&& game.scene().height() == clamped(term_height, MAX_HEIGHT)
                    &&& game.scene().border_width() == BORDER_WIDTH
                    &&& game.at_start()
                },
                Err(e) => config_fault(term_width, term_height, BORDER_WIDTH) == Some(e),
            },
    {
        match Scene::new(term_width, term_height, BORDER_WIDTH) {
            Err(e) => Err(e),
            Ok(scene) => {
                let snake = Snake::new(scene.width() / 2, scene.height() / 2, Direction::Down);
                let mut game = Game::from_parts(snake, scene, rng);
                game.scene.add_fruit_seeded(&game.snake, &mut game.rng);
                Ok(game)
            },
        }
    }

    /// A session on a terminal of the given size, with a random source of
    /// its own. See [`Game::with_rng`].
    pub fn new(term_width: u16, term_height: u16) -> (r: Result<Game, ConfigError>)
        ensures
            match r {
                Ok(game) => {
                    &&& config_fault(term_width, term_height, BORDER_WIDTH) is None
                    &&& game.wf()
                    &&& game.scene().width() == clamped(term_width, MAX_WIDTH)
                    &&& game.scene().height() == clamped(term_height, MAX_HEIGHT)
                    &&& game.scene().border_width() == BORDER_WIDTH
                    &&& game.at_start()
                },
                Err(e) => config_fault(term_width, term_height, BORDER_WIDTH) == Some(e),
            },
    {
        Game::with_rng(term_width, term_height, fresh_rng())
    }

    /// Starts a new round on the same board: the snake is back in the
    /// middle, one segment long and heading down, all food is gone but for
    /// one new piece, and the session is running.
    pub fn reset(&mut self)
        requires
            old(self).wf(),
        ensures
            final(self).wf(),
            final(self).scene().same_board(old(self).scene()),
            final(self).at_start(),
    {
        self.snake = Snake::new(self.scene.width() / 2, self.scene.height() / 2, Direction::Down);
        self.scene.clear_fruits();
        self.phase = Phase::Running;
        self.pending = None;
        self.grow = false;
        self.scene.add_fruit_seeded(&self.snake, &mut self.rng);
    }

    /// Where to put the message that goes with the current phase: a third
    /// of the way across for a loss, halfway across for a pause, both
    /// halfway down; nothing while the session runs.
    pub fn overlay(&self) -> (anchor: Option<CellUpdate>)
        ensures
            anchor == match self.phase() {
                Phase::Running => None,
                Phase::Lost => Some(
                    CellUpdate {
                        x: self.scene().width() / 3,
                        y: self.scene().height() / 2,
                        glyph: GlyphKind::TextOverlay,
                    },
                ),
                Phase::Paused => Some(
                    CellUpdate {
                        x: self.scene().width() / 2,
                        y: self.scene().height() / 2,
                        glyph: GlyphKind::TextOverlay,
                    },
                ),
            },
    {
        match self.phase {
            Phase::Running => None,
            Phase::Lost => Some(
                CellUpdate {
                    x: self.scene.width() / 3,
                    y: self.scene.height() / 2,
                    glyph: GlyphKind::TextOverlay,
                },
            ),
            Phase::Paused => Some(
                CellUpdate {
                    x: self.scene.width() / 2,
                    y: self.scene.height() / 2,
                    glyph: GlyphKind::TextOverlay,
                },
            ),
        }
    }

    /// Takes one input event.
    ///
    /// `Quit` is reported in every phase and changes nothing. While the
    /// session runs, a direction key becomes the pending turn unless it
    /// asks for the reverse of the snake's heading, and the pause key
    /// pauses. While it is paused, only the pause key does anything: it
    /// resumes. After a loss, only `Confirm` does anything: it starts a new
    /// round. Everything else is ignored.
    pub fn handle_input(&mut self, event: InputEvent) -> (reaction: Reaction)
        requires
            old(self).wf(),
        ensures
            final(self).wf(),
            final(self).scene().same_board(old(self).scene()),
            match (old(self).phase(), event) {
                (_, InputEvent::Quit) => reaction == Reaction::Quit && final(self).same_state(
                    old(self),
                ),
                (Phase::Running, InputEvent::DirectionKey(key)) => {
                    &&& reaction == if key == old(self).snake().direction().opposite() {
                        Reaction::Ignored
                    } else {
                        Reaction::Steered
                    }
                    &&& final(self).pending_turn() == steered(
                        old(self).snake().direction(),
                        old(self).pending_turn(),
                        key,
                    )
                    &&& final(self).same_but_turn(old(self))
                },
                (Phase::Running, InputEvent::PauseToggle) => {
                    &&& reaction == Reaction::Paused
                    &&& final(self).same_but_phase(old(self))
                    &&& final(self).phase() == Phase::Paused
                },
                (Phase::Paused, InputEvent::PauseToggle) => {
                    &&& reaction == Reaction::Resumed
                    &&& final(self).same_but_phase(old(self))
                    &&& final(self).phase() == Phase::Running
                },
                (Phase::Lost, InputEvent::Confirm) => {
                    &&& reaction == Reaction::Restarted
                    &&& final(self).at_start()
                },
                _ => reaction == Reaction::Ignored && final(self).same_state(old(self)),
            },
    {
        match event {
            InputEvent::Quit => Reaction::Quit,
            InputEvent::DirectionKey(key) => {
                match self.phase {
                    Phase::Running => {
                        if key == self.snake.direction().opposite() {
                            Reaction::Ignored
                        } else {
                            self.pending = Some(key);
                            Reaction::Steered
                        }
                    },
                    _ => Reaction::Ignored,
                }
            },
            InputEvent::PauseToggle => {
                match self.phase {
                    Phase::Running => {
                        self.phase = Phase::Paused;
                        Reaction::Paused
                    },
                    Phase::Paused => {
                        self.phase = Phase::Running;
                        Reaction::Resumed
                    },
                    Phase::Lost => Reaction::Ignored,
                }
            },
            InputEvent::Confirm => {
                match self.phase {
                    Phase::Lost => {
                        self.reset();
                        Reaction::Restarted
                    },
                    _ => Reaction::Ignored,
                }
            },
            InputEvent::Other => Reaction::Ignored,
        }
    }

    /// Plays one tick.
    ///
    /// A lost or paused session is left as it is. In a running one the
    /// pending turn is made first. If the snake's head then is on the
    /// border band or on another segment, the session is lost and nothing
    /// moves. Otherwise the snake advances one cell, growing by one segment
    /// exactly when it ate on the tick before; if its head is now on a
    /// piece of food, the piece is taken off the board, a new one is
    /// spawned, and the snake will grow on the next tick.
    pub fn tick(&mut self) -> (outcome: TickOutcome)
        requires
            old(self).wf(),
        ensures
            final(self).wf(),
            old(self).ticked(final(self)),
            old(self).phase() == Phase::Running && !old(self).collides()
                ==> final(self).snake()@.len() == old(self).snake()@.len() + grown_by(
                old(self).will_grow(),
            ),
            match outcome {
                TickOutcome::Frozen => old(self).phase() != Phase::Running,
                TickOutcome::Collided => old(self).phase() == Phase::Running && old(
                    self,
                ).collides(),
                TickOutcome::Advanced(batch) => {
                    &&& old(self).phase() == Phase::Running
                    &&& !old(self).collides()
                    &&& batch@ == painted(old(self).snake()@, GlyphKind::Empty) + snake_painted(
                        final(self).snake()@,
                    ) + painted(final(self).scene().fruits(), GlyphKind::Food)
                },
            },
    {
        match self.phase {
            Phase::Running => {},
            _ => {
                return TickOutcome::Frozen;
            },
        }
        if let Some(turn) = self.pending {
            self.snake.update_direction(turn);
        }
        self.pending = None;
        if self.scene.is_snake_out_of_bound(&self.snake) || self.scene.is_snake_touch_himself(
            &self.snake,
        ) {
            self.phase = Phase::Lost;
            return TickOutcome::Collided;
        }
        let mut batch = self.scene.clear_snake(&self.snake);
        self.snake.move_snake(self.grow);
        let drawn = self.scene.draw_snake(&self.snake);
        extend_batch(&mut batch, &drawn);
        if self.scene.snake_ate_food(&self.snake) {
            self.grow = true;
            self.scene.add_fruit_seeded(&self.snake, &mut self.rng);
        } else {
            self.grow = false;
        }
        let food = self.scene.draw_fruit();
        extend_batch(&mut batch, &food);
        TickOutcome::Advanced(batch)
    }
}

/// Growth follows the meal. Take two ticks in a row of a running session
/// that does not collide, with any direction keys pressed in between. If
/// the head landed on food on the first tick, the second tick makes the
/// snake exactly one segment longer; if it did not, the second tick leaves
/// the snake's length as it is.
pub proof fn law_growth_follows_meal(start: &Game, fed: &Game, steered: &Game, end: &Game)
    requires
        start.wf(),
        start.phase() == Phase::Running,
        !start.collides(),
        start.ticked(fed),
        steered.same_but_turn(fed),
        !steered.collides(),
        steered.ticked(end),
    ensures
        end.snake()@.len() == fed.snake()@.len() + grown_by(
            start.scene().fruits().contains(fed.snake().head()),
        ),
{
}

/// Reversal is refused. A running session with no turn pending that gets
/// a key for the reverse of its heading still has its old heading after
/// the next tick.
pub proof fn law_reversal_keeps_heading(before: &Game, keyed: &Game, after: &Game)
    requires
        before.phase() == Phase::Running,
        before.pending_turn() is None,
        keyed.same_but_turn(before),
        keyed.pending_turn() == steered(
            before.snake().direction(),
            before.pending_turn(),
            before.snake().direction().opposite(),
        ),
        keyed.ticked(after),
    ensures
        after.snake().direction() == before.snake().direction(),
{
}

/// Nothing has been eaten at the start of a round: whatever direction keys
/// are pressed before it, the first tick leaves the snake one segment long.
pub proof fn law_no_growth_at_start(start: &Game, steered: &Game, end: &Game)
    requires
        start.wf(),
        start.at_start(),
        steered.same_but_turn(start),
        steered.ticked(end),
    ensures
        end.snake()@.len() == 1,
{
}

/// Direction keys never change the snake's length, however many are
/// pressed: what they may change is closed under repetition.
pub proof fn law_keys_keep_length(a: &Game, b: &Game, c: &Game)
    requires
        b.same_but_turn(a),
        c.same_but_turn(b),
    ensures
        c.same_but_turn(a),
        c.snake()@.len() == a.snake()@.len(),
{
}

} // verus!
