//! A deterministic stepper for a grid-based snake game.
//!
//! A level is described as text, parsed into a [`Game`], and advanced one
//! tick at a time. After each tick the game publishes a [`Snapshot`] that
//! the host reads to draw the board and to decide when the session ends.

pub mod geometry;
pub mod snake;
pub mod level;
pub mod speed;
mod random;
pub mod game;
pub mod levels;
pub mod laws;
pub mod session;

pub use geometry::{index_to_coordinate, Direction, Point};
pub use snake::{Snake, SnakeView};
pub use level::{parse_level, Layout, LayoutView, ParseError};
pub use speed::{calculate_period_duration, period_duration_millis};
pub use game::{Game, GameView, Snapshot, SnapshotView, TickError, MAX_FOOD_ATTEMPTS};
pub use levels::{SNAKE_1, SNAKE_2};
pub use session::{
    add_all_resources, draw_walls, handle_keyboard_input, init_draw, play, update_snake, BundleType,
    CurrentDirection, FoodPositionResource, GameOverReason, GameResource, PlayOutcome, Resources,
    ScoreResource, SnakeResource, SnakeUpdate, WallsResource,
};
