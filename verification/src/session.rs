//! The host's side of a session.
//!
//! A host that draws the game keeps a few values beside the game itself: the
//! walls, the score, the snake and the food as it last drew them, and the
//! direction that the player last asked for. This module holds those values
//! and the rules by which a tick and the player's keys change them. Drawing,
//! timers and events are the host's own business.

use crate::game::{Game, GameView, Snapshot, SnapshotView, TickError};
use crate::geometry::{Direction, Point};
use crate::level::{level_of, LayoutView, ParseError};
use std::time::Duration;
use vstd::prelude::*;

verus! {

/// The game of the running session.
pub struct GameResource(pub Game);

/// The walls as the host draws them, or nothing before a level is set up.
pub struct WallsResource(pub Option<Vec<Point>>);

/// The score as the host shows it.
pub struct ScoreResource(pub usize);

/// The snake as the host draws it: head first.
pub struct SnakeResource(pub Vec<Point>);

/// The food as the host draws it.
pub struct FoodPositionResource(pub Point);

/// The direction that the player asked for last.
pub struct CurrentDirection(pub Direction);

/// What stands on a cell that the host draws.
#[derive(Debug, Clone, Copy, PartialEq, Eq, Structural)]
pub enum BundleType {
    Wall,
    SnakeBody,
    SnakeHead,
    Food,
}

/// Why a session is over.
#[derive(Debug, Clone, Copy, PartialEq, Eq, Structural)]
pub enum GameOverReason {
    /// The head stands on a wall.
    OnWall,
    /// The head stands on a trailing segment.
    OnSnake,
}

impl GameOverReason {
    /// The reason in words, for the player.
    pub fn as_str(&self) -> (r: &'static str)
        ensures
            r@ == match *self {
                GameOverReason::OnWall => "on wall"@,
                GameOverReason::OnSnake => "on snake"@,
            },
    {
        match self {
            GameOverReason::OnWall => "on wall",
            GameOverReason::OnSnake => "on snake",
        }
    }
}

impl SnapshotView {
    /// Why the session is over after this snapshot, if it is: a wall counts
    /// before the snake's own body.
    pub open spec fn game_over_reason(self) -> Option<GameOverReason> {
        if self.on_wall {
            Some(GameOverReason::OnWall)
        } else if self.eat_itself {
            Some(GameOverReason::OnSnake)
        } else {
            None
        }
    }
}

impl Snapshot {
    /// Tells why the session is over, if it is.
    pub fn get_game_over_reason(&self) -> (r: Option<GameOverReason>)
        ensures
            r == self@.game_over_reason(),
    {
        if self.on_wall {
            Some(GameOverReason::OnWall)
        } else if self.eat_itself {
            Some(GameOverReason::OnSnake)
        } else {
            None
        }
    }
}

/// What a host keeps beside the game when a session starts.
pub struct Resources {
    pub walls: WallsResource,
    pub score: ScoreResource,
    pub snake: SnakeResource,
    pub food_position: FoodPositionResource,
    pub current_direction: CurrentDirection,
    /// How long the host waits before the first tick.
    pub period_duration: Duration,
}

/// How a tick ended for the host.
pub enum PlayOutcome {
    /// The game goes on, and the host's values are those of the new
    /// snapshot. The host waits this long before the next tick.
    Running(Duration),
    /// The session is over; the host's values are left as they were.
    GameOver(GameOverReason),
}

impl GameResource {
    /// Sets up the game that a level text describes.
    pub fn new(board: &str) -> (r: Result<GameResource, ParseError>)
        ensures
            match r {
                Ok(game) => level_of(board@) matches Ok(layout) && game.0@ == GameView::initial(
                    layout,
                ) && game.0@.wf() && game.0@.food_is_free(),
                Err(e) => level_of(board@) == Err::<LayoutView, ParseError>(e),
            },
    {
        match Game::parse(board) {
            Ok(game) => Ok(GameResource(game)),
            Err(e) => Err(e),
        }
    }
}

/// The values that a host keeps beside the game, as they are when the
/// session starts: what the game's snapshot holds, all the walls, and `Up`
/// for the player's direction.
pub fn add_all_resources(game: &GameResource) -> (r: Resources)
    ensures
        r.walls.0 matches Some(walls) && walls@ == game.0@.walls,
        r.score.0 == game.0@.snapshot.score,
        r.snake.0@ == game.0@.snapshot.snake,
        r.food_position.0 == game.0@.snapshot.food_position,
        r.current_direction.0 == Direction::Up,
        r.period_duration == game.0@.snapshot.period_duration,
{
    let snapshot = game.0.last_snapshot();
    let walls = game.0.walls();
    Resources {
        walls: WallsResource(Some(walls)),
        score: ScoreResource(snapshot.score),
        snake: SnakeResource(snapshot.snake),
        food_position: FoodPositionResource(snapshot.food_position),
        current_direction: CurrentDirection(Direction::Up),
        period_duration: snapshot.period_duration,
    }
}

/// Plays one tick in the direction that the player asked for last, and
/// brings the host's values up to date.
///
/// If the tick does not take place, nothing changes. If the snake ran into a
/// wall or into itself, the game has moved on but the host's values stay as
/// they were drawn, and the reason is returned. Otherwise the host's values
/// become those of the new snapshot.
pub fn play(
    game: &mut GameResource,
    score: &mut ScoreResource,
    snake: &mut SnakeResource,
    food_position: &mut FoodPositionResource,
    current_direction: &CurrentDirection,
) -> (r: Result<PlayOutcome, TickError>)
    ensures
        final(game).0@.wf(),
        match r {
            Err(e) => {
                &&& e == TickError::NoFreeCell
                &&& old(game).0@.eats(current_direction.0)
                &&& final(game).0@ == old(game).0@
                &&& *final(score) == *old(score)
                &&& *final(snake) == *old(snake)
                &&& *final(food_position) == *old(food_position)
            },
            Ok(outcome) => {
                &&& final(game).0@ == old(game).0@.after_tick(
                    current_direction.0,
                    final(game).0@.food,
                )
                &&& old(game).0@.eats(current_direction.0) ==> old(game).0@.accepts(
                    current_direction.0,
                    final(game).0@.food,
                )
                &&& match outcome {
                    PlayOutcome::GameOver(reason) => {
                        &&& final(game).0@.snapshot.game_over_reason() == Some(reason)
                        &&& *final(score) == *old(score)
                        &&& *final(snake) == *old(snake)
                        &&& *final(food_position) == *old(food_position)
                    },
                    PlayOutcome::Running(period) => {
                        &&& final(game).0@.snapshot.game_over_reason() is None
                        &&& period == final(game).0@.snapshot.period_duration
                        &&& final(score).0 == final(game).0@.snapshot.score
                        &&& final(snake).0@ == final(game).0@.snapshot.snake
                        &&& final(food_position).0 == final(game).0@.snapshot.food_position
                    },
                }
            },
        },
{
    match game.0.tick(current_direction.0) {
        Ok(()) => {},
        Err(e) => {
            return Err(e);
        },
    }
    let snapshot = game.0.last_snapshot();
    if let Some(reason) = snapshot.get_game_over_reason() {
        return Ok(PlayOutcome::GameOver(reason));
    }
    snake.0 = snapshot.snake;
    score.0 = snapshot.score;
    food_position.0 = snapshot.food_position;
    Ok(PlayOutcome::Running(snapshot.period_duration))
}

/// The last of the directions, or `current` where there is none.
pub open spec fn last_pressed(current: Direction, pressed: Seq<Direction>) -> Direction {
    if pressed.len() == 0 {
        current
    } else {
        pressed.last()
    }
}

/// Takes in the arrow keys that the player pressed since the last call, in
/// the order in which they were pressed: the last one counts.
pub fn handle_keyboard_input(current_direction: &mut CurrentDirection, pressed: &Vec<Direction>)
    ensures
        final(current_direction).0 == last_pressed(old(current_direction).0, pressed@),
{
    let n: usize = pressed.len();
    if n > 0 {
        current_direction.0 = pressed[n - 1];
    }
}

/// What the host draws when a session starts, in drawing order: the head,
/// the trailing segments, the food.
pub open spec fn first_drawing(snake: Seq<Point>, food: Point) -> Seq<(BundleType, Point)> {
    Seq::new(
        snake.len() + 1,
        |i: int|
            if i == 0 {
                (BundleType::SnakeHead, snake[0])
            } else if i < snake.len() {
                (BundleType::SnakeBody, snake[i])
            } else {
                (BundleType::Food, food)
            },
    )
}

/// Lists what the host draws when a session starts. There is nothing to
/// draw of a snake without a head.
pub fn init_draw(snake: &SnakeResource, food_position: &FoodPositionResource) -> (r: Vec<
    (BundleType, Point),
>)
    requires
        snake.0@.len() > 0,
    ensures
        r@ == first_drawing(snake.0@, food_position.0),
{
    let mut drawing: Vec<(BundleType, Point)> = Vec::new();
    drawing.push((BundleType::SnakeHead, snake.0[0]));
    let mut i: usize = 1;
    while i < snake.0.len()
        invariant
            1 <= i <= snake.0.len(),
            drawing@.len() == i,
            forall|j: int|
                0 <= j < i ==> drawing@[j] == first_drawing(snake.0@, food_position.0)[j],
        decreases snake.0.len() - i,
    {
        drawing.push((BundleType::SnakeBody, snake.0[i]));
        i += 1;
    }
    drawing.push((BundleType::Food, food_position.0));
    proof {
        assert(drawing@ =~= first_drawing(snake.0@, food_position.0));
    }
    drawing
}

/// The walls that the host draws: each wall, in order, or nothing before a
/// level is set up.
pub open spec fn wall_drawing(walls: Option<Vec<Point>>) -> Seq<(BundleType, Point)> {
    match walls {
        Some(walls) => Seq::new(walls@.len(), |i: int| (BundleType::Wall, walls@[i])),
        None => Seq::empty(),
    }
}

/// Lists the walls that the host draws.
pub fn draw_walls(walls: &WallsResource) -> (r: Vec<(BundleType, Point)>)
    ensures
        r@ == wall_drawing(walls.0),
{
    let mut drawing: Vec<(BundleType, Point)> = Vec::new();
    if let Some(cells) = &walls.0 {
        let mut i: usize = 0;
        while i < cells.len()
            invariant
                i <= cells.len(),
                drawing@.len() == i,
                forall|j: int| 0 <= j < i ==> drawing@[j] == (BundleType::Wall, cells@[j]),
            decreases cells.len() - i,
        {
            drawing.push((BundleType::Wall, cells[i]));
            i += 1;
        }
        proof {
            assert(drawing@ =~= wall_drawing(walls.0));
        }
    }
    drawing
}

/// How the host brings a drawn snake up to date.
pub struct SnakeUpdate {
    /// Where the drawn head goes.
    pub head: Point,
    /// Where the drawn trailing segments go, one cell for each segment that
    /// stays, in order.
    pub moved: Vec<Point>,
    /// How many drawn trailing segments are taken away, from the end.
    pub despawned: usize,
    /// The cells on which new trailing segments are drawn.
    pub spawned: Vec<Point>,
}

/// How many drawn segments stay when `drawn` are on screen and the snake has
/// `segments` of them.
pub open spec fn kept(drawn: int, segments: int) -> int {
    if drawn <= segments {
        drawn
    } else {
        segments
    }
}

/// Works out how a snake that is drawn with `drawn` trailing segments is
/// brought up to date: the drawn segments take the cells of the snake's
/// segments in order, those left over are taken away, and segments that are
/// not drawn yet are added.
pub fn update_snake(snake: &SnakeResource, drawn: usize) -> (r: SnakeUpdate)
    requires
        snake.0@.len() > 0,
    ensures
        r.head == snake.0@[0],
        r.moved@ == snake.0@.subrange(1, 1 + kept(drawn as int, snake.0@.len() - 1)),
        r.despawned == drawn - kept(drawn as int, snake.0@.len() - 1),
        r.spawned@ == snake.0@.subrange(
            1 + kept(drawn as int, snake.0@.len() - 1),
            snake.0@.len() as int,
        ),
{
    let cells = &snake.0;
    let segments: usize = cells.len() - 1;
    let stay: usize = if drawn <= segments {
        drawn
    } else {
        segments
    };
    let mut moved: Vec<Point> = Vec::new();
    let mut i: usize = 0;
    while i < stay
        invariant
            i <= stay < cells.len(),
            moved@ == cells@.subrange(1, 1 + i),
        decreases stay - i,
    {
        moved.push(cells[i + 1]);
        proof {
            assert(moved@ =~= cells@.subrange(1, 2 + i));
        }
        i += 1;
    }
    let mut spawned: Vec<Point> = Vec::new();
    let mut j: usize = stay + 1;
    while j < cells.len()
        invariant
            stay + 1 <= j <= cells.len(),
            spawned@ == cells@.subrange(1 + stay, j as int),
        decreases cells.len() - j,
    {
        spawned.push(cells[j]);
        proof {
            assert(spawned@ =~= cells@.subrange(1 + stay, j + 1));
        }
        j += 1;
    }
    SnakeUpdate { head: cells[0], moved, despawned: drawn - stay, spawned }
}

} // verus!
