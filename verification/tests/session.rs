use snake::{
    add_all_resources, draw_walls, handle_keyboard_input, init_draw, play, update_snake,
    BundleType, CurrentDirection, Direction, FoodPositionResource, Game, GameOverReason,
    GameResource, ParseError, PlayOutcome, Point, ScoreResource, SnakeResource, Snapshot,
    TickError, WallsResource,
};
use std::time::Duration;

fn p(x: usize, y: usize) -> Point {
    Point { x, y }
}

fn snapshot(on_wall: bool, eat_itself: bool) -> Snapshot {
    Snapshot {
        on_food: false,
        on_wall,
        eat_itself,
        food_position: p(0, 0),
        snake: vec![p(1, 1), p(1, 0)],
        score: 0,
        period_duration: Duration::from_millis(2000),
    }
}

#[test]
fn game_over_reasons() {
    assert_eq!(snapshot(false, false).get_game_over_reason(), None);
    assert_eq!(snapshot(true, false).get_game_over_reason(), Some(GameOverReason::OnWall));
    assert_eq!(snapshot(false, true).get_game_over_reason(), Some(GameOverReason::OnSnake));
    assert_eq!(snapshot(true, true).get_game_over_reason(), Some(GameOverReason::OnWall));
    assert_eq!(GameOverReason::OnWall.as_str(), "on wall");
    assert_eq!(GameOverReason::OnSnake.as_str(), "on snake");
}

#[test]
fn a_session_starts_from_the_first_snapshot() {
    let game = GameResource::new("#h#\nbf#").unwrap();
    let resources = add_all_resources(&game);
    assert_eq!(resources.walls.0, Some(vec![p(2, 0), p(0, 1), p(2, 1)]));
    assert_eq!(resources.score.0, 0);
    assert_eq!(resources.snake.0, vec![p(1, 1), p(0, 0)]);
    assert_eq!(resources.food_position.0, p(1, 0));
    assert_eq!(resources.current_direction.0, Direction::Up);
    assert_eq!(resources.period_duration, Duration::from_millis(2000));
}

#[test]
fn a_session_needs_a_level() {
    assert_eq!(GameResource::new("#b#").err(), Some(ParseError::MissingHead));
}

#[test]
fn play_brings_the_values_up_to_date() {
    let mut game = GameResource::new("      \n bhf  \n      ").unwrap();
    let resources = add_all_resources(&game);
    let (mut score, mut snake, mut food) =
        (resources.score, resources.snake, resources.food_position);
    let mut direction = resources.current_direction;

    let outcome = play(&mut game, &mut score, &mut snake, &mut food, &direction).unwrap();
    assert!(matches!(outcome, PlayOutcome::Running(d) if d == Duration::from_millis(2000)));
    assert_eq!(snake.0, vec![p(2, 2), p(2, 1)]);
    assert_eq!(score.0, 0);
    assert_eq!(food.0, p(3, 1));

    handle_keyboard_input(&mut direction, &vec![Direction::Right, Direction::Down]);
    let outcome = play(&mut game, &mut score, &mut snake, &mut food, &direction).unwrap();
    assert!(matches!(outcome, PlayOutcome::Running(_)));
    // The last key was Down, a reversal: the snake went on upwards, over the edge.
    assert_eq!(direction.0, Direction::Down);
    assert_eq!(snake.0, vec![p(2, 0), p(2, 2)]);
    handle_keyboard_input(&mut direction, &vec![Direction::Right]);
    let outcome = play(&mut game, &mut score, &mut snake, &mut food, &direction).unwrap();
    assert!(matches!(outcome, PlayOutcome::Running(_)));
    assert_eq!(snake.0, vec![p(3, 0), p(2, 0)]);
}

#[test]
fn play_reports_a_meal() {
    let mut game = GameResource::new("      \n bhf  \n      ").unwrap();
    let resources = add_all_resources(&game);
    let (mut score, mut snake, mut food) =
        (resources.score, resources.snake, resources.food_position);
    let direction = CurrentDirection(Direction::Right);
    let outcome = play(&mut game, &mut score, &mut snake, &mut food, &direction).unwrap();
    assert!(matches!(outcome, PlayOutcome::Running(d) if d == Duration::from_millis(2000)));
    assert_eq!(score.0, 1);
    assert_eq!(snake.0, vec![p(3, 1), p(2, 1)]);
    assert_ne!(food.0, p(3, 1));
    assert_eq!(food.0, game.0.food());
}

#[test]
fn play_ends_at_a_wall_and_leaves_the_drawing() {
    let mut game = GameResource::new("#####\n#bh #\n#  f#\n#####").unwrap();
    let resources = add_all_resources(&game);
    let (mut score, mut snake, mut food) =
        (resources.score, resources.snake, resources.food_position);
    let direction = CurrentDirection(Direction::Up);
    let outcome = play(&mut game, &mut score, &mut snake, &mut food, &direction).unwrap();
    assert!(matches!(outcome, PlayOutcome::GameOver(GameOverReason::OnWall)));
    // The game moved on, the drawing did not.
    assert_eq!(game.0.snake().head(), p(2, 3));
    assert_eq!(snake.0, vec![p(2, 2), p(1, 2)]);
    assert_eq!(score.0, 0);
    assert_eq!(food.0, p(3, 1));
}

#[test]
fn play_passes_a_failed_tick_on() {
    let mut game = GameResource::new("bhf").unwrap();
    let resources = add_all_resources(&game);
    let (mut score, mut snake, mut food) =
        (resources.score, resources.snake, resources.food_position);
    let direction = CurrentDirection(Direction::Right);
    assert!(play(&mut game, &mut score, &mut snake, &mut food, &direction).is_ok());
    assert_eq!(score.0, 1);
    let outcome = play(&mut game, &mut score, &mut snake, &mut food, &direction);
    assert!(matches!(outcome, Err(TickError::NoFreeCell)));
    assert_eq!(score.0, 1);
    assert_eq!(snake.0, vec![p(2, 0), p(1, 0)]);
    assert_eq!(food.0, p(0, 0));
}

#[test]
fn the_last_key_counts() {
    let mut direction = CurrentDirection(Direction::Up);
    handle_keyboard_input(&mut direction, &vec![]);
    assert_eq!(direction.0, Direction::Up);
    handle_keyboard_input(&mut direction, &vec![Direction::Left]);
    assert_eq!(direction.0, Direction::Left);
    handle_keyboard_input(
        &mut direction,
        &vec![Direction::Up, Direction::Right, Direction::Down],
    );
    assert_eq!(direction.0, Direction::Down);
    handle_keyboard_input(&mut direction, &vec![]);
    assert_eq!(direction.0, Direction::Down);
}

#[test]
fn the_first_drawing() {
    let snake = SnakeResource(vec![p(4, 3), p(4, 2), p(4, 1)]);
    let food = FoodPositionResource(p(6, 1));
    assert_eq!(
        init_draw(&snake, &food),
        vec![
            (BundleType::SnakeHead, p(4, 3)),
            (BundleType::SnakeBody, p(4, 2)),
            (BundleType::SnakeBody, p(4, 1)),
            (BundleType::Food, p(6, 1)),
        ]
    );
    let head_only = SnakeResource(vec![p(0, 0)]);
    assert_eq!(
        init_draw(&head_only, &food),
        vec![(BundleType::SnakeHead, p(0, 0)), (BundleType::Food, p(6, 1))]
    );
}

#[test]
fn the_walls_drawing() {
    assert_eq!(draw_walls(&WallsResource(None)), vec![]);
    assert_eq!(draw_walls(&WallsResource(Some(vec![]))), vec![]);
    assert_eq!(
        draw_walls(&WallsResource(Some(vec![p(0, 0), p(1, 0)]))),
        vec![(BundleType::Wall, p(0, 0)), (BundleType::Wall, p(1, 0))]
    );
}

#[test]
fn a_drawn_snake_is_brought_up_to_date() {
    let snake = SnakeResource(vec![p(5, 5), p(5, 4), p(5, 3), p(5, 2)]);
    // As many drawn segments as the snake has.
    let update = update_snake(&snake, 3);
    assert_eq!(update.head, p(5, 5));
    assert_eq!(update.moved, vec![p(5, 4), p(5, 3), p(5, 2)]);
    assert_eq!(update.despawned, 0);
    assert_eq!(update.spawned, vec![]);
    // The snake grew: one segment is not drawn yet.
    let update = update_snake(&snake, 2);
    assert_eq!(update.moved, vec![p(5, 4), p(5, 3)]);
    assert_eq!(update.despawned, 0);
    assert_eq!(update.spawned, vec![p(5, 2)]);
    // Nothing is drawn yet.
    let update = update_snake(&snake, 0);
    assert_eq!(update.moved, vec![]);
    assert_eq!(update.spawned, vec![p(5, 4), p(5, 3), p(5, 2)]);
    // More is drawn than the snake has.
    let update = update_snake(&snake, 5);
    assert_eq!(update.moved, vec![p(5, 4), p(5, 3), p(5, 2)]);
    assert_eq!(update.despawned, 2);
    assert_eq!(update.spawned, vec![]);
    // A head alone.
    let update = update_snake(&SnakeResource(vec![p(1, 1)]), 1);
    assert_eq!(update.head, p(1, 1));
    assert_eq!(update.moved, vec![]);
    assert_eq!(update.despawned, 1);
}

#[test]
fn resources_hold_plain_values() {
    let score = ScoreResource(7);
    assert_eq!(score.0, 7);
    let game = GameResource(Game::parse("bhf").unwrap());
    assert_eq!(game.0.dim(), (3, 1));
}
