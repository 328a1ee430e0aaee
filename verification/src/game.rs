//! The game: one board, one snake, one piece of food, advanced tick by tick.

use crate::geometry::{Direction, Point};
use crate::level::{level_of, parse_level, LayoutView, ParseError};
use crate::random::random_below;
use crate::snake::{contains_point, Snake, SnakeView};
use crate::speed::{calculate_period_duration, period_of};
use std::time::Duration;
use vstd::prelude::*;

verus! {

/// How often a tick draws a cell for new food before it gives up.
pub const MAX_FOOD_ATTEMPTS: usize = 100_000;

/// Why a tick did not take place.
#[derive(Debug, Clone, Copy, PartialEq, Eq, Structural)]
pub enum TickError {
    /// The snake would have eaten, and no free cell was found for new food.
    NoFreeCell,
}

/// What a [`Snapshot`] records.
pub struct SnapshotView {
    pub on_food: bool,
    pub on_wall: bool,
    pub eat_itself: bool,
    pub food_position: Point,
    pub snake: Seq<Point>,
    pub score: nat,
    pub period_duration: Duration,
}

impl SnapshotView {
    /// What every snapshot of a game on a `width` by `height` board holds:
    /// a head on the board with at least one segment behind it, and the
    /// period that belongs to the score.
    pub open spec fn wf_on(self, width: nat, height: nat) -> bool {
        &&& self.snake.len() >= 2
        &&& self.snake[0].within(width, height)
        &&& self.period_duration == period_of(self.score)
    }
}

/// The facts of the game after a tick.
#[derive(Debug)]
pub struct Snapshot {
    /// The head reached the food in this tick.
    pub on_food: bool,
    /// The head stands on a wall.
    pub on_wall: bool,
    /// The head stands on a trailing segment.
    pub eat_itself: bool,
    /// Where the food is now.
    pub food_position: Point,
    /// The snake, head first, then the trailing segments in ring order.
    pub snake: Vec<Point>,
    /// How often the snake has eaten.
    pub score: usize,
    /// How long the host should wait before the next tick.
    pub period_duration: Duration,
}

impl View for Snapshot {
    type V = SnapshotView;

    open spec fn view(&self) -> SnapshotView {
        SnapshotView {
            on_food: self.on_food,
            on_wall: self.on_wall,
            eat_itself: self.eat_itself,
            food_position: self.food_position,
            snake: self.snake@,
            score: self.score as nat,
            period_duration: self.period_duration,
        }
    }
}

impl Clone for Snapshot {
    fn clone(&self) -> (r: Snapshot)
        ensures
            r@ == self@,
    {
        Snapshot {
            on_food: self.on_food,
            on_wall: self.on_wall,
            eat_itself: self.eat_itself,
            food_position: self.food_position,
            snake: self.snake.clone(),
            score: self.score,
            period_duration: self.period_duration,
        }
    }
}

/// What a [`Game`] is, mathematically.
pub struct GameView {
    pub width: nat,
    pub height: nat,
    pub snake: SnakeView,
    pub walls: Seq<Point>,
    pub food: Point,
    pub previous_direction: Direction,
    pub pending_growth: nat,
    pub score: nat,
    pub period_duration: Duration,
    pub snapshot: SnapshotView,
}

impl GameView {
    /// What holds of every game: the board has cells, the head is on the
    /// board, the ring is well formed, at most one segment is owed, the score
    /// stays below the length that the snake has or is owed, and the period
    /// belongs to the score.
    pub open spec fn wf(self) -> bool {
        &&& 0 < self.width <= usize::MAX
        &&& 0 < self.height <= usize::MAX
        &&& self.snake.wf()
        &&& self.snake.head.within(self.width, self.height)
        &&& self.pending_growth <= 1
        &&& self.score < self.snake.body.len() + self.pending_growth
        &&& self.period_duration == period_of(self.score)
        &&& self.snapshot.wf_on(self.width, self.height)
    }

    /// The game at the start of a level.
    pub open spec fn initial(layout: LayoutView) -> GameView {
        let snake = SnakeView { head: layout.head, body: layout.body, index: 0 };
        GameView {
            width: layout.width,
            height: layout.height,
            snake,
            walls: layout.walls,
            food: layout.food,
            previous_direction: Direction::Up,
            pending_growth: 0,
            score: 0,
            period_duration: period_of(0),
            snapshot: SnapshotView {
                on_food: false,
                on_wall: false,
                eat_itself: false,
                food_position: layout.food,
                snake: snake.cells(),
                score: 0,
                period_duration: period_of(0),
            },
        }
    }

    /// Whether `point` is neither a wall nor a part of the snake.
    pub open spec fn is_free(self, point: Point) -> bool {
        !self.walls.contains(point) && !self.snake.contains(point)
    }

    /// Whether the food lies on a free cell.
    pub open spec fn food_is_free(self) -> bool {
        self.is_free(self.food)
    }

    /// The direction that the snake takes when `requested` is asked of it.
    pub open spec fn heading(self, requested: Direction) -> Direction {
        self.previous_direction.arbitrate(requested)
    }

    /// Whether the snake grows in the next tick.
    pub open spec fn grows(self) -> bool {
        self.pending_growth > 0
    }

    /// The snake after the next tick.
    pub open spec fn moved_snake(self, requested: Direction) -> SnakeView {
        self.snake.moved(self.heading(requested), self.grows(), self.width, self.height)
    }

    /// Whether the head reaches the food in the next tick.
    pub open spec fn eats(self, requested: Direction) -> bool {
        self.moved_snake(requested).head == self.food
    }

    /// Whether new food may be put on `point` once the snake has moved: the
    /// point is on the board, no wall, and no part of the moved snake.
    pub open spec fn accepts(self, requested: Direction, point: Point) -> bool {
        &&& point.within(self.width, self.height)
        &&& !self.walls.contains(point)
        &&& !self.moved_snake(requested).contains(point)
    }

    /// Whether no cell of the board is a wall or a part of `snake`: then new
    /// food may be put on whatever cell is drawn.
    pub open spec fn no_cell_is_taken(self, snake: SnakeView) -> bool {
        forall|point: Point| #[trigger]
            point.within(self.width, self.height) ==> !self.walls.contains(point)
                && !snake.contains(point)
    }

    /// The first of the candidates on which new food may be put.
    pub open spec fn first_accepted(self, requested: Direction, candidates: Seq<Point>) -> Option<
        Point,
    >
        decreases candidates.len(),
    {
        if candidates.len() == 0 {
            None
        } else if self.accepts(requested, candidates[0]) {
            Some(candidates[0])
        } else {
            self.first_accepted(requested, candidates.drop_first())
        }
    }

    /// The game after a tick in which `requested` was asked of the snake.
    /// `new_food` is where the food goes if the snake eats; else it counts
    /// for nothing.
    pub open spec fn after_tick(self, requested: Direction, new_food: Point) -> GameView {
        let snake = self.moved_snake(requested);
        let on_food = snake.head == self.food;
        let consumed = if self.grows() {
            (self.pending_growth - 1) as nat
        } else {
            self.pending_growth
        };
        let pending_growth = if on_food {
            consumed + 1
        } else {
            consumed
        };
        let score = if on_food {
            self.score + 1
        } else {
            self.score
        };
        let food = if on_food {
            new_food
        } else {
            self.food
        };
        let period_duration = if on_food {
            period_of(score)
        } else {
            self.period_duration
        };
        GameView {
            width: self.width,
            height: self.height,
            snake,
            walls: self.walls,
            food,
            previous_direction: self.heading(requested),
            pending_growth,
            score,
            period_duration,
            snapshot: SnapshotView {
                on_food,
                on_wall: self.walls.contains(snake.head),
                eat_itself: snake.on_body(snake.head),
                food_position: food,
                snake: snake.cells(),
                score,
                period_duration,
            },
        }
    }

    /// What a tick with the given candidates for new food comes to: the next
    /// game, or the reason why the tick does not take place. The candidates
    /// count only if the snake eats; the first that is accepted takes the
    /// food.
    pub open spec fn tick_with_outcome(self, requested: Direction, candidates: Seq<Point>) -> Result<
        GameView,
        TickError,
    > {
        if !self.eats(requested) {
            Ok(self.after_tick(requested, self.food))
        } else {
            match self.first_accepted(requested, candidates) {
                Some(p) => Ok(self.after_tick(requested, p)),
                None => Err(TickError::NoFreeCell),
            }
        }
    }

    /// The candidate that is picked is one of the candidates, and is
    /// accepted.
    pub proof fn lemma_first_accepted(self, requested: Direction, candidates: Seq<Point>)
        ensures
            self.first_accepted(requested, candidates) matches Some(p) ==> self.accepts(
                requested,
                p,
            ) && candidates.contains(p),
        decreases candidates.len(),
    {
        if candidates.len() > 0 && !self.accepts(requested, candidates[0]) {
            self.lemma_first_accepted(requested, candidates.drop_first());
            if let Some(p) = self.first_accepted(requested, candidates.drop_first()) {
                let rest = candidates.drop_first();
                let k = choose|k: int| 0 <= k < rest.len() && rest[k] == p;
                assert(candidates[k + 1] == p);
            }
        }
    }

    /// Food on a free cell is on a free cell after a tick, whether the snake
    /// passed it by or ate it and new food was put on an accepted cell.
    pub proof fn lemma_food_stays_free(self, requested: Direction, new_food: Point)
        requires
            self.wf(),
            self.food_is_free(),
            self.eats(requested) ==> self.accepts(requested, new_food),
        ensures
            self.after_tick(requested, new_food).food_is_free(),
    {
        self.snake.lemma_moved(self.heading(requested), self.grows(), self.width, self.height);
    }

    /// A tick keeps a game well formed.
    pub proof fn lemma_after_tick_wf(self, requested: Direction, new_food: Point)
        requires
            self.wf(),
        ensures
            self.after_tick(requested, new_food).wf(),
    {
        let heading = self.heading(requested);
        self.snake.lemma_moved(heading, self.grows(), self.width, self.height);
        self.snake.head.lemma_step_within(heading, self.width, self.height);
    }
}

/// A game in progress.
pub struct Game {
    /// The size of the board.
    width: usize,
    height: usize,
    /// The snake.
    snake: Snake,
    /// The walls.
    walls: Vec<Point>,
    /// Where the food is.
    food: Point,
    /// The direction of the last tick.
    previous_direction: Direction,
    /// The segments that the snake is owed.
    new_piece_to_generate: usize,
    /// How often the snake has eaten.
    score: usize,
    /// The time between two ticks.
    period_duration: Duration,
    /// The facts of the last tick.
    last_snapshot: Snapshot,
}

impl View for Game {
    type V = GameView;

    closed spec fn view(&self) -> GameView {
        GameView {
            width: self.width as nat,
            height: self.height as nat,
            snake: self.snake@,
            walls: self.walls@,
            food: self.food,
            previous_direction: self.previous_direction,
            pending_growth: self.new_piece_to_generate as nat,
            score: self.score as nat,
            period_duration: self.period_duration,
            snapshot: self.last_snapshot@,
        }
    }
}

impl std::str::FromStr for Game {
    type Err = ParseError;

    /// Reads a level text as [`Game::parse`] does.
    fn from_str(s: &str) -> (r: Result<Game, ParseError>)
        ensures
            match r {
                Ok(game) => level_of(s@) matches Ok(layout) && game@ == GameView::initial(layout)
                    && game@.wf() && game@.food_is_free(),
                Err(e) => level_of(s@) == Err::<LayoutView, ParseError>(e),
            },
    {
        Game::parse(s)
    }
}

impl Game {
    #[verifier::type_invariant]
    spec fn inv(self) -> bool {
        self@.wf()
    }

    /// Reads a level text and sets up the game that it describes.
    pub fn parse(s: &str) -> (r: Result<Game, ParseError>)
        ensures
            match r {
                Ok(game) => level_of(s@) matches Ok(layout) && game@ == GameView::initial(layout)
                    && game@.wf() && game@.food_is_free(),
                Err(e) => level_of(s@) == Err::<LayoutView, ParseError>(e),
            },
    {
        let layout = match parse_level(s) {
            Ok(layout) => layout,
            Err(e) => {
                return Err(e);
            },
        };
        let snake = match Snake::new(layout.head, layout.body) {
            Some(snake) => snake,
            // A layout always has a trailing segment.
            None => {
                return Err(ParseError::MissingBody);
            },
        };
        let mut cells = snake.body().clone();
        cells.insert(0, snake.head());
        let period = calculate_period_duration(0);
        proof {
            assert(cells@ =~= snake@.cells());
        }
        Ok(
            Game {
                width: layout.width,
                height: layout.height,
                snake,
                walls: layout.walls,
                food: layout.food,
                previous_direction: Direction::Up,
                new_piece_to_generate: 0,
                score: 0,
                period_duration: period,
                last_snapshot: Snapshot {
                    on_food: false,
                    on_wall: false,
                    eat_itself: false,
                    food_position: layout.food,
                    snake: cells,
                    score: 0,
                    period_duration: period,
                },
            },
        )
    }

    /// The facts of the last tick, or of the start if there was none.
    pub fn last_snapshot(&self) -> (r: Snapshot)
        ensures
            r@ == self@.snapshot,
            self@.wf(),
    {
        proof {
            use_type_invariant(self);
        }
        self.last_snapshot.clone()
    }

    /// The width and the height of the board.
    pub fn dim(&self) -> (r: (usize, usize))
        ensures
            r.0 == self@.width,
            r.1 == self@.height,
            self@.wf(),
    {
        proof {
            use_type_invariant(self);
        }
        (self.width, self.height)
    }

    /// The walls, in the order in which the level text holds them.
    pub fn walls(&self) -> (r: Vec<Point>)
        ensures
            r@ == self@.walls,
    {
        self.walls.clone()
    }

    /// The snake.
    pub fn snake(&self) -> (r: &Snake)
        ensures
            r@ == self@.snake,
            self@.wf(),
    {
        proof {
            use_type_invariant(self);
        }
        &self.snake
    }

    /// Where the food is.
    pub fn food(&self) -> (r: Point)
        ensures
            r == self@.food,
    {
        self.food
    }

    /// Advances the game by one tick.
    ///
    /// The snake keeps its direction if `direction` would reverse it, grows if
    /// it is owed a segment, and moves one cell. If its head reaches the food,
    /// the score rises and new food is put on a cell drawn at random: a draw
    /// on a wall or on the snake is thrown away and made again, at most
    /// [`MAX_FOOD_ATTEMPTS`] times. If no draw is accepted the tick does not take
    /// place: the game stays as it was and the error says so. Otherwise the
    /// snapshot is replaced by the facts of this tick.
    pub fn tick(&mut self, direction: Direction) -> (r: Result<(), TickError>)
        ensures
            old(self)@.wf(),
            final(self)@.wf(),
            match r {
                Ok(()) => {
                    &&& final(self)@ == old(self)@.after_tick(direction, final(self)@.food)
                    &&& old(self)@.eats(direction) ==> old(self)@.accepts(
                        direction,
                        final(self)@.food,
                    )
                },
                Err(e) => {
                    &&& e == TickError::NoFreeCell
                    &&& old(self)@.eats(direction)
                    &&& final(self)@ == old(self)@
                },
            },
            r is Ok && old(self)@.food_is_free() ==> final(self)@.food_is_free(),
    {
        proof {
            use_type_invariant(&*self);
        }
        let snake = self.moved_snake(direction);
        let new_food = if snake.head() == self.food {
            match self.generate_new_food_position(&snake) {
                Some(point) => point,
                None => {
                    return Err(TickError::NoFreeCell);
                },
            }
        } else {
            self.food
        };
        proof {
            if self@.food_is_free() {
                self@.lemma_food_stays_free(direction, new_food);
            }
        }
        self.commit(direction, snake, new_food);
        Ok(())
    }

    /// Advances the game by one tick as [`Game::tick`] does, but takes the
    /// cells for new food from `candidates` in place of drawing them: if the
    /// snake eats, the food goes to the first candidate that lies on the board
    /// and is neither a wall nor a part of the snake. If the snake eats and no
    /// candidate is accepted, the tick does not take place.
    pub fn tick_with(&mut self, direction: Direction, candidates: &Vec<Point>) -> (r: Result<
        (),
        TickError,
    >)
        ensures
            old(self)@.wf(),
            final(self)@.wf(),
            match r {
                Ok(()) => old(self)@.tick_with_outcome(direction, candidates@) == Ok::<
                    GameView,
                    TickError,
                >(final(self)@),
                Err(e) => old(self)@.tick_with_outcome(direction, candidates@) == Err::<
                    GameView,
                    TickError,
                >(e) && final(self)@ == old(self)@,
            },
            r is Ok && old(self)@.food_is_free() ==> final(self)@.food_is_free(),
    {
        proof {
            use_type_invariant(&*self);
        }
        let snake = self.moved_snake(direction);
        let new_food = if snake.head() == self.food {
            proof {
                self@.lemma_first_accepted(direction, candidates@);
            }
            match self.first_accepted(direction, &snake, candidates) {
                Some(point) => point,
                None => {
                    return Err(TickError::NoFreeCell);
                },
            }
        } else {
            self.food
        };
        proof {
            if self@.food_is_free() {
                self@.lemma_food_stays_free(direction, new_food);
            }
        }
        self.commit(direction, snake, new_food);
        Ok(())
    }

    /// The direction that the snake takes when `direction` is asked of it: a
    /// reversal is ignored.
    fn heading(&self, direction: Direction) -> (r: Direction)
        ensures
            r == self@.heading(direction),
    {
        if direction.is_compatible_with(self.previous_direction) {
            direction
        } else {
            self.previous_direction
        }
    }

    /// The snake as it lies after a tick in which `direction` is asked of it.
    fn moved_snake(&self, direction: Direction) -> (snake: Snake)
        ensures
            snake@ == self@.moved_snake(direction),
            snake@.wf(),
    {
        proof {
            use_type_invariant(self);
        }
        let heading = self.heading(direction);
        let should_add_new_body_piece = self.new_piece_to_generate > 0;
        let mut snake = self.snake.clone();
        snake.advance(heading, should_add_new_body_piece, self.width, self.height);
        snake
    }

    /// Tells whether new food may be put on `point` when the snake lies as
    /// `snake` does.
    fn accepts_food(&self, snake: &Snake, point: Point) -> (r: bool)
        ensures
            r == (point.within(self@.width, self@.height) && !self@.walls.contains(point)
                && !snake@.contains(point)),
    {
        point.x < self.width && point.y < self.height && !contains_point(&self.walls, point)
            && !snake.contains(point)
    }

    /// Draws cells of the board until one is accepted for new food, at most
    /// [`MAX_FOOD_ATTEMPTS`] times. A cell that is returned is on the board, no
    /// wall and no part of `snake`. Chance decides whether one is found,
    /// unless no cell of the board is taken: then the first draw is accepted.
    fn generate_new_food_position(&self, snake: &Snake) -> (r: Option<Point>)
        ensures
            r matches Some(point) ==> point.within(self@.width, self@.height)
                && !self@.walls.contains(point) && !snake@.contains(point),
            self@.no_cell_is_taken(snake@) ==> r is Some,
    {
        proof {
            use_type_invariant(self);
        }
        let mut attempts: usize = 0;
        while attempts < MAX_FOOD_ATTEMPTS
            invariant
                self.width > 0,
                self.height > 0,
                attempts > 0 ==> !self@.no_cell_is_taken(snake@),
            decreases MAX_FOOD_ATTEMPTS - attempts,
        {
            let x: usize = random_below(self.width);
            let y: usize = random_below(self.height);
            let point = Point { x, y };
            if self.accepts_food(snake, point) {
                return Some(point);
            }
            proof {
                assert(point.within(self@.width, self@.height));
            }
            attempts += 1;
        }
        None
    }

    /// The first of the candidates that is accepted for new food.
    fn first_accepted(&self, direction: Direction, snake: &Snake, candidates: &Vec<Point>) -> (r:
        Option<Point>)
        requires
            snake@ == self@.moved_snake(direction),
        ensures
            r == self@.first_accepted(direction, candidates@),
    {
        let mut i: usize = 0;
        proof {
            assert(candidates@.skip(0) =~= candidates@);
        }
        while i < candidates.len()
            invariant
                i <= candidates.len(),
                snake@ == self@.moved_snake(direction),
                self@.first_accepted(direction, candidates@) == self@.first_accepted(
                    direction,
                    candidates@.skip(i as int),
                ),
            decreases candidates.len() - i,
        {
            proof {
                assert(candidates@.skip(i as int).drop_first() =~= candidates@.skip(i + 1));
            }
            if self.accepts_food(snake, candidates[i]) {
                return Some(candidates[i]);
            }
            i += 1;
        }
        None
    }

    /// Takes the moved snake in, settles what the move brought, and replaces
    /// the snapshot.
    fn commit(&mut self, direction: Direction, snake: Snake, new_food: Point)
        requires
            snake@ == old(self)@.moved_snake(direction),
        ensures
            final(self)@ == old(self)@.after_tick(direction, new_food),
    {
        proof {
            use_type_invariant(&*self);
            self@.lemma_after_tick_wf(direction, new_food);
        }
        let heading = self.heading(direction);
        let head = snake.head();
        let on_wall = contains_point(&self.walls, head);
        let on_food = head == self.food;
        let eat_itself = snake.on_body(head);
        let mut cells = snake.body().clone();
        cells.insert(0, head);
        proof {
            assert(cells@ =~= snake@.cells());
        }
        let mut new_piece_to_generate: usize = self.new_piece_to_generate;
        if new_piece_to_generate > 0 {
            new_piece_to_generate -= 1;
        }
        let mut food = self.food;
        let mut score: usize = self.score;
        let mut period_duration = self.period_duration;
        if on_food {
            new_piece_to_generate += 1;
            food = new_food;
            score += 1;
            period_duration = calculate_period_duration(score);
        }
        let last_snapshot = Snapshot {
            on_food,
            on_wall,
            eat_itself,
            food_position: food,
            snake: cells,
            score,
            period_duration,
        };
        // The game is replaced in one piece, so that it is well formed at
        // every point on the way. The walls move over without being copied.
        let mut walls: Vec<Point> = Vec::new();
        std::mem::swap(&mut self.walls, &mut walls);
        *self = Game {
            width: self.width,
            height: self.height,
            snake,
            walls,
            food,
            previous_direction: heading,
            new_piece_to_generate,
            score,
            period_duration,
            last_snapshot,
        };
    }

    /// Puts the food on `point`. The snapshot stays as it is until the next
    /// tick.
    pub fn set_food(&mut self, point: Point)
        ensures
            final(self)@ == (GameView { food: point, ..old(self)@ }),
    {
        proof {
            use_type_invariant(&*self);
        }
        self.food = point;
    }

    /// Turns the snake: the next tick goes on from `direction`.
    pub fn set_previous_direction(&mut self, direction: Direction)
        ensures
            final(self)@ == (GameView { previous_direction: direction, ..old(self)@ }),
    {
        proof {
            use_type_invariant(&*self);
        }
        self.previous_direction = direction;
    }
}

} // verus!
