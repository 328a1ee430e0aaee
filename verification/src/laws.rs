//! What holds of every level text, and of every game, whatever is asked of
//! it.

use crate::game::{GameView, SnapshotView, TickError};
use crate::geometry::{cell_at, Direction, Point};
use crate::level::{
    first_invalid, is_cell, lemma_scan_len, marked, rectangular, rows, scan, split, trim_return,
    width_of,
};
use crate::speed::period_of;
use vstd::prelude::*;

verus! {

/// The first character that a level may not hold is the one before which
/// every character is one that it may hold; there is none exactly if every
/// character is one that it may hold.
pub proof fn law_first_invalid_is_first(cells: Seq<char>)
    ensures
        match first_invalid(cells) {
            Some(i) => {
                &&& 0 <= i < cells.len()
                &&& !is_cell(cells[i])
                &&& forall|j: int| 0 <= j < i ==> is_cell(#[trigger] cells[j])
            },
            None => forall|j: int| 0 <= j < cells.len() ==> is_cell(#[trigger] cells[j]),
        },
    decreases cells.len(),
{
    if cells.len() > 0 {
        let before = cells.drop_last();
        law_first_invalid_is_first(before);
        match first_invalid(before) {
            Some(i) => {
                assert forall|j: int| 0 <= j < i implies is_cell(#[trigger] cells[j]) by {
                    assert(cells[j] == before[j]);
                }
            },
            None => {
                assert forall|j: int| 0 <= j < cells.len() - 1 implies is_cell(
                    #[trigger] cells[j],
                ) by {
                    assert(cells[j] == before[j]);
                }
            },
        }
    }
}

/// The cell `(x, y)` of a rectangular block is read at position
/// `y * width + x`, and holds the character at column `x` of the line that
/// stands `y` lines above the last one.
pub proof fn law_cell_of_line(lines: Seq<Seq<char>>, x: int, y: int)
    requires
        rectangular(lines),
        0 <= y < lines.len(),
        0 <= x < width_of(lines),
    ensures
        0 <= y * width_of(lines) + x < scan(lines).len(),
        scan(lines)[y * width_of(lines) + x] == lines[lines.len() - 1 - y][x],
        (y * width_of(lines) + x) % (width_of(lines) as int) == x,
        (y * width_of(lines) + x) / (width_of(lines) as int) == y,
    decreases lines.len(),
{
    let w = width_of(lines) as int;
    let h = lines.len() as int;
    let rest = lines.drop_first();
    lemma_scan_len(lines);
    vstd::arithmetic::div_mod::lemma_fundamental_div_mod_converse(y * w + x, w, y, x);
    assert((h - 1) * w + w == h * w) by (nonlinear_arith);
    if y < h - 1 {
        assert forall|i: int| 0 <= i < rest.len() implies (#[trigger] rest[i]).len()
            == rest[0].len() by {
            assert(rest[i] == lines[i + 1]);
            assert(rest[0] == lines[1]);
        }
        assert(rest[0] == lines[1]);
        law_cell_of_line(rest, x, y);
        lemma_scan_len(rest);
        assert(rest[rest.len() - 1 - y] == lines[h - 1 - y]);
    } else {
        if rest.len() > 0 {
            assert forall|i: int| 0 <= i < rest.len() implies (#[trigger] rest[i]).len()
                == rest[0].len() by {
                assert(rest[i] == lines[i + 1]);
                assert(rest[0] == lines[1]);
            }
            assert(rest[0] == lines[1]);
            lemma_scan_len(rest);
            assert(scan(rest).len() == (h - 1) * w);
        } else {
            assert(scan(rest).len() == 0);
            assert((h - 1) * w == 0) by (nonlinear_arith)
                requires
                    h == 1,
            ;
        }
    }
    assert(0 <= y * w + x < h * w) by (nonlinear_arith)
        requires
            0 <= y < h,
            0 <= x < w,
    ;
    assert(y < h - 1 ==> y * w + x < (h - 1) * w) by (nonlinear_arith)
        requires
            0 <= y,
            0 <= x < w,
    ;
}

/// A position of the reading order that holds `mark` is among the marked
/// cells.
pub proof fn law_marked_cells_are_complete(cells: Seq<char>, mark: char, width: nat, i: int)
    requires
        0 <= i < cells.len(),
        cells[i] == mark,
    ensures
        marked(cells, mark, width).contains(cell_at(i as nat, width)),
    decreases cells.len(),
{
    let before = marked(cells.drop_last(), mark, width);
    let all = marked(cells, mark, width);
    if i == cells.len() - 1 {
        assert(all[before.len() as int] == cell_at(i as nat, width));
    } else {
        law_marked_cells_are_complete(cells.drop_last(), mark, width, i);
        let k = choose|k: int| 0 <= k < before.len() && before[k] == cell_at(i as nat, width);
        assert(all[k] == cell_at(i as nat, width));
    }
}

/// No line holds a line feed.
pub proof fn law_lines_hold_no_line_feed(text: Seq<char>)
    ensures
        forall|k: int| 0 <= k < rows(text).len() ==> !(#[trigger] rows(text)[k]).contains('\n'),
        !split(text).1.contains('\n'),
        forall|k: int| 0 <= k < split(text).0.len() ==> !(#[trigger] split(text).0[k]).contains('\n'),
    decreases text.len(),
{
    if text.len() > 0 {
        law_lines_hold_no_line_feed(text.drop_last());
        let (closed, open) = split(text.drop_last());
        if text.last() == '\n' {
            let line = trim_return(open);
            assert forall|j: int| 0 <= j < line.len() implies line[j] != '\n' by {
                assert(line[j] == open[j]);
            }
        } else {
            let longer = open.push(text.last());
            assert forall|j: int| 0 <= j < longer.len() implies longer[j] != '\n' by {
                if j < open.len() {
                    assert(longer[j] == open[j]);
                }
            }
        }
    }
}

/// Wherever the snake is sent, its head stays on the board: a step over an
/// edge comes back in on the other side.
pub proof fn law_head_stays_on_board(game: GameView, direction: Direction, new_food: Point)
    requires
        game.wf(),
    ensures
        game.after_tick(direction, new_food).snake.head.within(game.width, game.height),
        game.after_tick(direction, new_food).snapshot.snake[0] == game.after_tick(
            direction,
            new_food,
        ).snake.head,
{
    game.lemma_after_tick_wf(direction, new_food);
}

/// A snake cannot be turned back on itself: asking for the reverse of the
/// direction it travels in comes to the same as asking for that direction
/// again.
pub proof fn law_reversal_is_ignored(game: GameView, new_food: Point)
    ensures
        game.after_tick(game.previous_direction.opposite(), new_food) == game.after_tick(
            game.previous_direction,
            new_food,
        ),
{
}

/// A meal shows one tick later: after a tick in which the head reached the
/// food, the next tick's snapshot holds a snake that is longer by exactly
/// one cell.
pub proof fn law_growth_follows_food(
    game: GameView,
    first: Direction,
    first_food: Point,
    second: Direction,
    second_food: Point,
)
    requires
        game.wf(),
        game.after_tick(first, first_food).snapshot.on_food,
    ensures
        game.after_tick(first, first_food).after_tick(second, second_food).snapshot.snake.len()
            == game.after_tick(first, first_food).snapshot.snake.len() + 1,
{
    let fed = game.after_tick(first, first_food);
    game.lemma_after_tick_wf(first, first_food);
    fed.snake.lemma_moved(fed.heading(second), fed.grows(), fed.width, fed.height);
}

/// Without a meal the snake keeps its length, unless it is still owed a
/// segment.
pub proof fn law_length_without_food(game: GameView, direction: Direction, new_food: Point)
    requires
        game.wf(),
    ensures
        game.after_tick(direction, new_food).snapshot.snake.len() == game.snake.body.len() + 1
            + if game.grows() {
            1nat
        } else {
            0nat
        },
{
    game.snake.lemma_moved(game.heading(direction), game.grows(), game.width, game.height);
}

/// Food that lies on a free cell lies on a free cell after every tick:
/// either the snake passed it by, or it ate it and new food was put on a
/// cell that is no wall and no part of the snake.
pub proof fn law_food_stays_free(game: GameView, direction: Direction, new_food: Point)
    requires
        game.wf(),
        game.food_is_free(),
        game.eats(direction) ==> game.accepts(direction, new_food),
    ensures
        game.after_tick(direction, new_food).food_is_free(),
        game.after_tick(direction, new_food).snapshot.food_position == game.after_tick(
            direction,
            new_food,
        ).food,
{
    game.lemma_food_stays_free(direction, new_food);
}

/// The period of every snapshot is the one that belongs to its score.
pub proof fn law_period_follows_score(game: GameView, direction: Direction, new_food: Point)
    requires
        game.wf(),
    ensures
        game.after_tick(direction, new_food).snapshot.period_duration == period_of(
            game.after_tick(direction, new_food).snapshot.score,
        ),
{
    game.lemma_after_tick_wf(direction, new_food);
}

/// The snapshots of a run: the game is ticked once for each input, with the
/// direction asked for and the candidates for new food. A tick that does not
/// take place leaves the game, and so the snapshot, as it was.
pub open spec fn replay(game: GameView, inputs: Seq<(Direction, Seq<Point>)>) -> Seq<
    SnapshotView,
>
    decreases inputs.len(),
{
    if inputs.len() == 0 {
        Seq::empty()
    } else {
        let next = match game.tick_with_outcome(inputs[0].0, inputs[0].1) {
            Ok(next) => next,
            Err(_) => game,
        };
        seq![next.snapshot] + replay(next, inputs.drop_first())
    }
}

/// Chance enters a game only through the cells that are offered for new
/// food: two runs that start from the same game and get the same directions
/// and the same candidates give the same snapshots.
pub proof fn law_runs_are_determined(
    one: GameView,
    other: GameView,
    inputs: Seq<(Direction, Seq<Point>)>,
)
    requires
        one == other,
    ensures
        replay(one, inputs) == replay(other, inputs),
        forall|direction: Direction, candidates: Seq<Point>|
            one.tick_with_outcome(direction, candidates) == other.tick_with_outcome(
                direction,
                candidates,
            ),
{
}

/// A tick that takes its food from candidates fails only for want of an
/// accepted candidate, and a tick in which the snake does not eat never
/// fails.
pub proof fn law_tick_fails_only_for_food(
    game: GameView,
    direction: Direction,
    candidates: Seq<Point>,
)
    ensures
        game.tick_with_outcome(direction, candidates) is Err <==> game.eats(direction) && (
        forall|i: int| 0 <= i < candidates.len() ==> !game.accepts(direction, candidates[i])),
        game.tick_with_outcome(direction, candidates) matches Err(e) ==> e
            == TickError::NoFreeCell,
    decreases candidates.len(),
{
    if candidates.len() > 0 {
        let rest = candidates.drop_first();
        law_tick_fails_only_for_food(game, direction, rest);
        if !game.accepts(direction, candidates[0]) {
            if forall|i: int| 0 <= i < rest.len() ==> !game.accepts(direction, rest[i]) {
                assert forall|i: int| 0 <= i < candidates.len() implies !game.accepts(
                    direction,
                    candidates[i],
                ) by {
                    if i > 0 {
                        assert(candidates[i] == rest[i - 1]);
                    }
                }
            } else {
                let i = choose|i: int| 0 <= i < rest.len() && game.accepts(direction, rest[i]);
                assert(candidates[i + 1] == rest[i]);
            }
        }
    }
}

} // verus!
