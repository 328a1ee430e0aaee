use snake::{
    index_to_coordinate, parse_level, Direction, Game, ParseError, Point, SNAKE_1, SNAKE_2,
};
use std::time::Duration;

const FIRST_LEVEL: &str =
    "##########\n#        #\n#   h    #\n#   b    #\n#     f  #\n##########";

#[test]
fn first_level_round_trip() {
    let game = Game::parse(FIRST_LEVEL).unwrap();
    assert_eq!(game.dim(), (10, 6));
    assert_eq!(game.snake().head(), Point { x: 4, y: 3 });
    assert_eq!(game.snake().body(), &vec![Point { x: 4, y: 2 }]);
    assert_eq!(game.snake().index(), 0);
    assert_eq!(game.food(), Point { x: 6, y: 1 });
}

#[test]
fn first_level_initial_snapshot() {
    let game = Game::parse(FIRST_LEVEL).unwrap();
    let snapshot = game.last_snapshot();
    assert!(!snapshot.on_food);
    assert!(!snapshot.on_wall);
    assert!(!snapshot.eat_itself);
    assert_eq!(snapshot.food_position, Point { x: 6, y: 1 });
    assert_eq!(snapshot.snake, vec![Point { x: 4, y: 3 }, Point { x: 4, y: 2 }]);
    assert_eq!(snapshot.score, 0);
    assert_eq!(snapshot.period_duration, Duration::from_millis(2000));
}

#[test]
fn walls_come_in_reading_order() {
    let game = Game::parse("#h#\nbf#").unwrap();
    assert_eq!(game.dim(), (3, 2));
    assert_eq!(
        game.walls(),
        vec![Point { x: 2, y: 0 }, Point { x: 0, y: 1 }, Point { x: 2, y: 1 }]
    );
    assert_eq!(game.snake().head(), Point { x: 1, y: 1 });
    assert_eq!(game.snake().body(), &vec![Point { x: 0, y: 0 }]);
    assert_eq!(game.food(), Point { x: 1, y: 0 });
}

#[test]
fn first_level_walls() {
    let game = Game::parse(FIRST_LEVEL).unwrap();
    let walls = game.walls();
    assert_eq!(walls.len(), 28);
    assert_eq!(walls[0], Point { x: 0, y: 0 });
    assert_eq!(walls[9], Point { x: 9, y: 0 });
    assert_eq!(walls[10], Point { x: 0, y: 1 });
    assert_eq!(walls[11], Point { x: 9, y: 1 });
    assert_eq!(walls[27], Point { x: 9, y: 5 });
}

#[test]
fn shipped_levels_parse() {
    let one = Game::parse(SNAKE_1).unwrap();
    assert_eq!(one.dim(), (10, 6));
    assert_eq!(one.snake().head(), Point { x: 4, y: 2 });
    assert_eq!(one.snake().body(), &vec![Point { x: 4, y: 1 }]);
    assert_eq!(one.food(), Point { x: 6, y: 1 });
    assert_eq!(one.walls().len(), 28);

    let two = Game::parse(SNAKE_2).unwrap();
    assert_eq!(two.dim(), (10, 6));
    assert_eq!(two.snake().head(), Point { x: 4, y: 3 });
    assert_eq!(two.snake().body(), &vec![Point { x: 4, y: 2 }]);
    assert_eq!(two.food(), Point { x: 6, y: 1 });
    assert!(two.walls().is_empty());
}

#[test]
fn from_str_agrees_with_parse() {
    let parsed: Result<Game, ParseError> = "h?".parse();
    assert_eq!(parsed.err(), Some(ParseError::InvalidChar { c: '?', index: 1 }));
    let game: Game = "bhf".parse().unwrap();
    assert_eq!(game.dim(), (3, 1));
}

#[test]
fn invalid_char_carries_its_reading_position() {
    // The bottom line is read first: its three cells take positions 0 to 2.
    let outcome = Game::parse("hXf\nb  ");
    assert_eq!(outcome.err(), Some(ParseError::InvalidChar { c: 'X', index: 4 }));
}

#[test]
fn first_invalid_char_in_reading_order_is_reported() {
    let outcome = Game::parse("A  \n  B");
    assert_eq!(outcome.err(), Some(ParseError::InvalidChar { c: 'B', index: 2 }));
}

#[test]
fn invalid_char_counts_before_ragged_rows() {
    let outcome = Game::parse("hbf\n#x");
    assert_eq!(outcome.err(), Some(ParseError::InvalidChar { c: 'x', index: 1 }));
}

#[test]
fn ragged_rows_are_turned_down() {
    assert_eq!(Game::parse("hbf\n##").err(), Some(ParseError::InconsistentRowWidth));
    assert_eq!(Game::parse("hb\nf  ").err(), Some(ParseError::InconsistentRowWidth));
    assert_eq!(Game::parse("\nhbf").err(), Some(ParseError::InconsistentRowWidth));
}

#[test]
fn missing_markers_are_turned_down() {
    assert_eq!(Game::parse("#bf").err(), Some(ParseError::MissingHead));
    assert_eq!(Game::parse("#bh").err(), Some(ParseError::MissingFood));
    assert_eq!(Game::parse("#fh").err(), Some(ParseError::MissingBody));
    // The head is looked for first, then the food, then the body.
    assert_eq!(Game::parse("###").err(), Some(ParseError::MissingHead));
    assert_eq!(Game::parse("#h#").err(), Some(ParseError::MissingFood));
}

#[test]
fn empty_texts_have_no_head() {
    assert_eq!(Game::parse("").err(), Some(ParseError::MissingHead));
    assert_eq!(Game::parse("\n").err(), Some(ParseError::MissingHead));
    assert_eq!(Game::parse("\n\n").err(), Some(ParseError::MissingHead));
}

#[test]
fn line_endings() {
    // A line feed at the very end opens no further line.
    let game = Game::parse("hbf\n").unwrap();
    assert_eq!(game.dim(), (3, 1));
    // A carriage return before a line feed belongs to the line ending.
    let game = Game::parse("h  \r\nbf \r\n").unwrap();
    assert_eq!(game.dim(), (3, 2));
    assert_eq!(game.snake().head(), Point { x: 0, y: 1 });
    // A carriage return at the very end is a character like any other.
    assert_eq!(
        Game::parse("h  \r\nbf \r").err(),
        Some(ParseError::InvalidChar { c: '\r', index: 3 })
    );
    // An empty line in the middle is a row of width zero.
    assert_eq!(Game::parse("hbf\n\nhbf").err(), Some(ParseError::InconsistentRowWidth));
}

#[test]
fn last_head_and_last_food_count() {
    let game = Game::parse("hfb\nfh ").unwrap();
    // Reading order: "fh " first, then "hfb".
    assert_eq!(game.snake().head(), Point { x: 0, y: 1 });
    assert_eq!(game.food(), Point { x: 1, y: 1 });
    assert_eq!(game.snake().body(), &vec![Point { x: 2, y: 1 }]);
}

#[test]
fn non_ascii_characters_are_single_cells() {
    let outcome = Game::parse("h\u{e9}\nbf");
    assert_eq!(outcome.err(), Some(ParseError::InvalidChar { c: '\u{e9}', index: 3 }));
}

#[test]
fn parse_level_gives_the_layout() {
    let layout = parse_level("bbh\n#f ").unwrap();
    assert_eq!(layout.width, 3);
    assert_eq!(layout.height, 2);
    assert_eq!(layout.walls, vec![Point { x: 0, y: 0 }]);
    assert_eq!(layout.food, Point { x: 1, y: 0 });
    assert_eq!(layout.body, vec![Point { x: 0, y: 1 }, Point { x: 1, y: 1 }]);
    assert_eq!(layout.head, Point { x: 2, y: 1 });
    assert_eq!(parse_level("b\nh").err(), Some(ParseError::MissingFood));
}

#[test]
fn index_to_coordinate_reads_row_by_row() {
    assert_eq!(index_to_coordinate(0, 10), Point { x: 0, y: 0 });
    assert_eq!(index_to_coordinate(9, 10), Point { x: 9, y: 0 });
    assert_eq!(index_to_coordinate(10, 10), Point { x: 0, y: 1 });
    assert_eq!(index_to_coordinate(34, 10), Point { x: 4, y: 3 });
    assert_eq!(index_to_coordinate(7, 1), Point { x: 0, y: 7 });
}

#[test]
fn directions_are_compatible_unless_reversed() {
    let all = [Direction::Up, Direction::Down, Direction::Left, Direction::Right];
    for a in all {
        for b in all {
            let reversed = matches!(
                (a, b),
                (Direction::Up, Direction::Down)
                    | (Direction::Down, Direction::Up)
                    | (Direction::Left, Direction::Right)
                    | (Direction::Right, Direction::Left)
            );
            assert_eq!(a.is_compatible_with(b), !reversed);
        }
    }
}
