//! The text form of a level.
//!
//! A level is a rectangular block of text. Its last line is the bottom row of
//! the board (`y = 0`) and its first line the top row. Within a line the
//! characters run from `x = 0` to the right. `#` is a wall, a blank is free
//! ground, `h` the head of the snake, `b` one of its trailing segments and `f`
//! the food. The characters are read bottom row first, each row from left to
//! right: that reading order gives an unknown character its position, and the
//! trailing segments their order in the ring.

use crate::geometry::{cell_at, index_to_coordinate, Point};
use vstd::prelude::*;

verus! {

/// Why a level text was turned down.
#[derive(Debug, Clone, Copy, PartialEq, Eq, Structural)]
pub enum ParseError {
    /// A character that stands for nothing, with its position in reading order.
    InvalidChar { c: char, index: usize },
    /// The lines are not all as long as the first one.
    InconsistentRowWidth,
    /// No `h` in the text.
    MissingHead,
    /// No `f` in the text.
    MissingFood,
    /// No `b` in the text.
    MissingBody,
}

/// What a level text describes.
pub struct LayoutView {
    pub width: nat,
    pub height: nat,
    pub walls: Seq<Point>,
    pub head: Point,
    pub body: Seq<Point>,
    pub food: Point,
}

impl LayoutView {
    /// Whether `point` is neither a wall nor a part of the snake.
    pub open spec fn is_free(self, point: Point) -> bool {
        !self.walls.contains(point) && self.head != point && !self.body.contains(point)
    }

    /// What holds of every board that a level text describes: it has cells,
    /// the snake has a trailing segment, walls and snake lie on the board, and
    /// the food lies on a free cell of it.
    pub open spec fn wf(self) -> bool {
        &&& 0 < self.width
        &&& 0 < self.height
        &&& self.body.len() > 0
        &&& self.head.within(self.width, self.height)
        &&& forall|p: Point| #[trigger] self.body.contains(p) ==> p.within(self.width, self.height)
        &&& forall|p: Point| #[trigger] self.walls.contains(p) ==> p.within(self.width, self.height)
        &&& self.food.within(self.width, self.height)
        &&& self.is_free(self.food)
    }
}

/// The board that a level text describes: its size, its walls, where the
/// snake lies and where the food is.
#[derive(Debug)]
pub struct Layout {
    pub width: usize,
    pub height: usize,
    pub walls: Vec<Point>,
    pub head: Point,
    pub body: Vec<Point>,
    pub food: Point,
}

impl View for Layout {
    type V = LayoutView;

    open spec fn view(&self) -> LayoutView {
        LayoutView {
            width: self.width as nat,
            height: self.height as nat,
            walls: self.walls@,
            head: self.head,
            body: self.body@,
            food: self.food,
        }
    }
}

/// The characters that a level may hold.
pub open spec fn is_cell(c: char) -> bool {
    c == '#' || c == ' ' || c == 'h' || c == 'b' || c == 'f'
}

/// A line without the carriage return that may stand before its line feed.
pub open spec fn trim_return(line: Seq<char>) -> Seq<char> {
    if line.len() > 0 && line.last() == '\r' {
        line.drop_last()
    } else {
        line
    }
}

/// The text read character by character: the lines that a line feed has
/// closed so far, and the characters of the line that is still open.
pub open spec fn split(text: Seq<char>) -> (Seq<Seq<char>>, Seq<char>)
    decreases text.len(),
{
    if text.len() == 0 {
        (Seq::empty(), Seq::empty())
    } else {
        let (closed, open) = split(text.drop_last());
        if text.last() == '\n' {
            (closed.push(trim_return(open)), Seq::empty())
        } else {
            (closed, open.push(text.last()))
        }
    }
}

/// The lines of a text, top line first. A line ends at a line feed or at the
/// end of the text; a line feed at the very end opens no further line.
pub open spec fn rows(text: Seq<char>) -> Seq<Seq<char>> {
    let (closed, open) = split(text);
    if open.len() > 0 {
        closed.push(open)
    } else {
        closed
    }
}

/// The characters of the rows in reading order: bottom row first, each row
/// from left to right.
pub open spec fn scan(rows: Seq<Seq<char>>) -> Seq<char>
    decreases rows.len(),
{
    if rows.len() == 0 {
        Seq::empty()
    } else {
        scan(rows.drop_first()) + rows.first()
    }
}

/// Whether every row is as long as the first one.
pub open spec fn rectangular(rows: Seq<Seq<char>>) -> bool {
    forall|i: int| 0 <= i < rows.len() ==> (#[trigger] rows[i]).len() == rows[0].len()
}

/// The length of the first row, or zero where there is none.
pub open spec fn width_of(rows: Seq<Seq<char>>) -> nat {
    if rows.len() == 0 {
        0
    } else {
        rows[0].len()
    }
}

/// The position of the first character that a level may not hold.
pub open spec fn first_invalid(cells: Seq<char>) -> Option<int>
    decreases cells.len(),
{
    if cells.len() == 0 {
        None
    } else {
        match first_invalid(cells.drop_last()) {
            Some(i) => Some(i),
            None => if is_cell(cells.last()) {
                None
            } else {
                Some(cells.len() - 1)
            },
        }
    }
}

/// The cells that hold `mark`, in reading order, on a board of the given
/// width.
pub open spec fn marked(cells: Seq<char>, mark: char, width: nat) -> Seq<Point>
    decreases cells.len(),
{
    if cells.len() == 0 {
        Seq::empty()
    } else {
        let before = marked(cells.drop_last(), mark, width);
        if cells.last() == mark {
            before.push(cell_at((cells.len() - 1) as nat, width))
        } else {
            before
        }
    }
}

/// What a level text stands for: the board it describes, or the reason why
/// it describes none. The reasons are tried in the order in which they are
/// written here. Where `h` or `f` stands more than once, the last one
/// in reading order counts.
pub open spec fn level_of(text: Seq<char>) -> Result<LayoutView, ParseError> {
    let lines = rows(text);
    let cells = scan(lines);
    let width = width_of(lines);
    if let Some(i) = first_invalid(cells) {
        Err(ParseError::InvalidChar { c: cells[i], index: i as usize })
    } else if !rectangular(lines) {
        Err(ParseError::InconsistentRowWidth)
    } else if marked(cells, 'h', width).len() == 0 {
        Err(ParseError::MissingHead)
    } else if marked(cells, 'f', width).len() == 0 {
        Err(ParseError::MissingFood)
    } else if marked(cells, 'b', width).len() == 0 {
        Err(ParseError::MissingBody)
    } else {
        Ok(
            LayoutView {
                width,
                height: lines.len(),
                walls: marked(cells, '#', width),
                head: marked(cells, 'h', width).last(),
                body: marked(cells, 'b', width),
                food: marked(cells, 'f', width).last(),
            },
        )
    }
}

/// The rows held by vectors, as sequences.
pub open spec fn lines_of(rows: Seq<Vec<char>>) -> Seq<Seq<char>> {
    Seq::new(rows.len(), |i: int| rows[i]@)
}

/// Splits a text into its lines.
pub fn read_rows(s: &str) -> (lines: Vec<Vec<char>>)
    ensures
        lines_of(lines@) == rows(s@),
{
    let mut closed: Vec<Vec<char>> = Vec::new();
    let mut open: Vec<char> = Vec::new();
    for c in it: s.chars()
        invariant
            it.seq() == s@,
            split(it.seq().take(it.index() as int)) == (lines_of(closed@), open@),
    {
        proof {
            let read = s@.take(it.index() as int + 1);
            assert(read.drop_last() =~= s@.take(it.index() as int));
            assert(read.last() == c);
        }
        if c == '\n' {
            let n: usize = open.len();
            if n > 0 && open[n - 1] == '\r' {
                open.pop();
            }
            proof {
                assert(lines_of(closed@.push(open)) =~= lines_of(closed@).push(open@));
            }
            closed.push(open);
            open = Vec::new();
        } else {
            open.push(c);
        }
    }
    proof {
        assert(s@.take(s@.len() as int) =~= s@);
    }
    if open.len() > 0 {
        proof {
            assert(lines_of(closed@.push(open)) =~= lines_of(closed@).push(open@));
        }
        closed.push(open);
    }
    closed
}

/// Lays the rows out in reading order and tells whether they are all of one
/// length.
pub fn scan_rows(lines: &Vec<Vec<char>>) -> (r: (Vec<char>, bool))
    ensures
        r.0@ == scan(lines_of(lines@)),
        r.1 == rectangular(lines_of(lines@)),
{
    let n: usize = lines.len();
    let ghost all = lines_of(lines@);
    let mut cells: Vec<char> = Vec::new();
    let mut even: bool = true;
    let mut k: usize = n;
    proof {
        assert(all.subrange(n as int, n as int) =~= Seq::<Seq<char>>::empty());
    }
    while k > 0
        invariant
            k <= n,
            n == lines.len(),
            all == lines_of(lines@),
            cells@ == scan(all.subrange(k as int, n as int)),
            even == (forall|i: int| k <= i < n ==> (#[trigger] all[i]).len() == all[0].len()),
        decreases k,
    {
        k -= 1;
        let row = &lines[k];
        if row.len() != lines[0].len() {
            even = false;
        }
        let ghost below = cells@;
        let mut j: usize = 0;
        while j < row.len()
            invariant
                j <= row.len(),
                cells@ == below + row@.take(j as int),
            decreases row.len() - j,
        {
            cells.push(row[j]);
            proof {
                assert(row@.take(j + 1) =~= row@.take(j as int).push(row@[j as int]));
                assert(cells@ =~= below + row@.take(j + 1));
            }
            j += 1;
        }
        proof {
            assert(row@.take(row@.len() as int) =~= row@);
            let part = all.subrange(k as int, n as int);
            assert(part.drop_first() =~= all.subrange(k + 1, n as int));
            assert(part.first() == row@);
        }
    }
    proof {
        assert(all.subrange(0, n as int) =~= all);
    }
    (cells, even)
}

/// Finds the first character that a level may not hold.
pub fn find_invalid(cells: &Vec<char>) -> (r: Option<usize>)
    ensures
        match r {
            Some(i) => first_invalid(cells@) == Some(i as int) && i < cells@.len(),
            None => first_invalid(cells@) is None,
        },
{
    let mut i: usize = 0;
    while i < cells.len()
        invariant
            i <= cells.len(),
            first_invalid(cells@.take(i as int)) is None,
        decreases cells.len() - i,
    {
        let c = cells[i];
        proof {
            assert(cells@.take(i + 1).drop_last() =~= cells@.take(i as int));
        }
        if !(c == '#' || c == ' ' || c == 'h' || c == 'b' || c == 'f') {
            proof {
                lemma_first_invalid_stays(cells@, i + 1);
            }
            return Some(i);
        }
        i += 1;
    }
    proof {
        assert(cells@.take(cells@.len() as int) =~= cells@);
    }
    None
}

/// Once a prefix holds a character that a level may not hold, reading on
/// does not change which one is the first.
pub proof fn lemma_first_invalid_stays(cells: Seq<char>, n: int)
    requires
        0 <= n <= cells.len(),
        first_invalid(cells.take(n)) is Some,
    ensures
        first_invalid(cells) == first_invalid(cells.take(n)),
    decreases cells.len(),
{
    if n < cells.len() {
        assert(cells.drop_last().take(n) =~= cells.take(n));
        lemma_first_invalid_stays(cells.drop_last(), n);
    } else {
        assert(cells.take(n) =~= cells);
    }
}

/// Collects the cells that hold `mark`, in reading order.
pub fn collect_marked(cells: &Vec<char>, mark: char, width: usize) -> (r: Vec<Point>)
    requires
        width > 0,
    ensures
        r@ == marked(cells@, mark, width as nat),
{
    let mut found: Vec<Point> = Vec::new();
    let mut i: usize = 0;
    while i < cells.len()
        invariant
            i <= cells.len(),
            width > 0,
            found@ == marked(cells@.take(i as int), mark, width as nat),
        decreases cells.len() - i,
    {
        proof {
            assert(cells@.take(i + 1).drop_last() =~= cells@.take(i as int));
        }
        if cells[i] == mark {
            found.push(index_to_coordinate(i, width));
        }
        i += 1;
    }
    proof {
        assert(cells@.take(cells@.len() as int) =~= cells@);
    }
    found
}

/// Whether position `i` of the reading order holds `mark` and is the cell
/// `point`.
pub open spec fn marks(cells: Seq<char>, mark: char, width: nat, point: Point, i: int) -> bool {
    0 <= i < cells.len() && cells[i] == mark && point == cell_at(i as nat, width)
}

/// Every cell among the marked ones stands at a position that holds the mark.
pub proof fn lemma_marked_position(cells: Seq<char>, mark: char, width: nat, point: Point)
    requires
        marked(cells, mark, width).contains(point),
    ensures
        exists|i: int| marks(cells, mark, width, point, i),
    decreases cells.len(),
{
    if cells.len() > 0 {
        let before = marked(cells.drop_last(), mark, width);
        if before.contains(point) {
            lemma_marked_position(cells.drop_last(), mark, width, point);
            let i = choose|i: int| marks(cells.drop_last(), mark, width, point, i);
            assert(marks(cells, mark, width, point, i));
        } else {
            let all = marked(cells, mark, width);
            let k = choose|k: int| 0 <= k < all.len() && all[k] == point;
            assert(k == before.len());
            assert(marks(cells, mark, width, point, cells.len() - 1));
        }
    }
}

/// Two positions of the reading order are two cells.
pub proof fn lemma_cell_at_injective(i: nat, j: nat, width: nat)
    requires
        width > 0,
        i <= usize::MAX,
        j <= usize::MAX,
        cell_at(i, width) == cell_at(j, width),
    ensures
        i == j,
{
    vstd::arithmetic::div_mod::lemma_fundamental_div_mod(i as int, width as int);
    vstd::arithmetic::div_mod::lemma_fundamental_div_mod(j as int, width as int);
    vstd::arithmetic::div_mod::lemma_mod_bound(i as int, width as int);
    vstd::arithmetic::div_mod::lemma_mod_bound(j as int, width as int);
    vstd::arithmetic::div_mod::lemma_div_pos_is_pos(i as int, width as int);
    vstd::arithmetic::div_mod::lemma_div_pos_is_pos(j as int, width as int);
    vstd::arithmetic::div_mod::lemma_div_is_ordered_by_denominator(i as int, 1, width as int);
    vstd::arithmetic::div_mod::lemma_div_is_ordered_by_denominator(j as int, 1, width as int);
}

/// A position of the reading order of a `width` by `height` board is a cell
/// of that board.
pub proof fn lemma_cell_at_within(i: nat, width: nat, height: nat)
    requires
        width > 0,
        i < width * height,
    ensures
        0 <= (i as int) % (width as int) < width,
        0 <= (i as int) / (width as int) < height,
{
    vstd::arithmetic::div_mod::lemma_mod_bound(i as int, width as int);
    vstd::arithmetic::div_mod::lemma_div_pos_is_pos(i as int, width as int);
    vstd::arithmetic::div_mod::lemma_multiply_divide_lt(i as int, width as int, height as int);
}

/// The marked cells of a rectangular block lie on its board, and cells with
/// different marks differ.
pub proof fn lemma_marked_cells(lines: Seq<Seq<char>>, mark: char, point: Point)
    requires
        rectangular(lines),
        scan(lines).len() <= usize::MAX,
        marked(scan(lines), mark, width_of(lines)).contains(point),
    ensures
        0 < width_of(lines),
        0 < lines.len(),
        point.within(width_of(lines), lines.len()),
        forall|other: char, q: Point|
            other != mark && #[trigger] marked(scan(lines), other, width_of(lines)).contains(q)
                ==> q != point,
{
    let cells = scan(lines);
    let width = width_of(lines);
    lemma_scan_len(lines);
    lemma_marked_position(cells, mark, width, point);
    let i = choose|i: int| marks(cells, mark, width, point, i);
    assert(0 < width && 0 < lines.len() && cells.len() == width * lines.len())
        by (nonlinear_arith)
        requires
            cells.len() == lines.len() * width,
            cells.len() > 0,
            lines.len() >= 0,
            width >= 0,
    ;
    lemma_cell_at_within(i as nat, width, lines.len());
    assert forall|other: char, q: Point|
        other != mark && #[trigger] marked(cells, other, width).contains(q) implies q != point by {
        lemma_marked_position(cells, other, width, q);
        let j = choose|j: int| marks(cells, other, width, q, j);
        if q == point {
            lemma_cell_at_injective(i as nat, j as nat, width);
        }
    }
}

/// A level text that describes a board describes a well-formed one.
pub proof fn lemma_level_wf(text: Seq<char>)
    requires
        scan(rows(text)).len() <= usize::MAX,
        level_of(text) is Ok,
    ensures
        level_of(text)->Ok_0.wf(),
{
    let lines = rows(text);
    let cells = scan(lines);
    let width = width_of(lines);
    let layout = level_of(text)->Ok_0;
    let heads = marked(cells, 'h', width);
    let foods = marked(cells, 'f', width);
    assert(heads.contains(heads.last()));
    assert(foods.contains(foods.last()));
    lemma_marked_cells(lines, 'h', layout.head);
    lemma_marked_cells(lines, 'f', layout.food);
    assert forall|p: Point| #[trigger] layout.body.contains(p) implies p.within(
        layout.width,
        layout.height,
    ) by {
        lemma_marked_cells(lines, 'b', p);
    }
    assert forall|p: Point| #[trigger] layout.walls.contains(p) implies p.within(
        layout.width,
        layout.height,
    ) by {
        lemma_marked_cells(lines, '#', p);
    }
}

/// Reads a level text.
pub fn parse_level(s: &str) -> (r: Result<Layout, ParseError>)
    ensures
        match r {
            Ok(layout) => level_of(s@) == Ok::<LayoutView, ParseError>(layout@) && layout@.wf(),
            Err(e) => level_of(s@) == Err::<LayoutView, ParseError>(e),
        },
{
    let lines = read_rows(s);
    let (cells, even) = scan_rows(&lines);
    if let Some(i) = find_invalid(&cells) {
        return Err(ParseError::InvalidChar { c: cells[i], index: i });
    }
    if !even {
        return Err(ParseError::InconsistentRowWidth);
    }
    let height: usize = lines.len();
    let width: usize = if height == 0 {
        0
    } else {
        lines[0].len()
    };
    if width == 0 {
        proof {
            let all = lines_of(lines@);
            lemma_scan_len(all);
            assert(all.len() * width_of(all) == 0) by (nonlinear_arith)
                requires
                    width_of(all) == 0,
            ;
            assert(cells@ =~= Seq::<char>::empty());
        }
        return Err(ParseError::MissingHead);
    }
    let heads = collect_marked(&cells, 'h', width);
    if heads.len() == 0 {
        return Err(ParseError::MissingHead);
    }
    let foods = collect_marked(&cells, 'f', width);
    if foods.len() == 0 {
        return Err(ParseError::MissingFood);
    }
    let body = collect_marked(&cells, 'b', width);
    if body.len() == 0 {
        return Err(ParseError::MissingBody);
    }
    let walls = collect_marked(&cells, '#', width);
    let head = heads[heads.len() - 1];
    let food = foods[foods.len() - 1];
    proof {
        assert(cells@.len() == cells.len());
        lemma_level_wf(s@);
    }
    Ok(Layout { width, height, walls, head, body, food })
}

/// A rectangular block holds as many characters as its width times its
/// height.
pub proof fn lemma_scan_len(rows: Seq<Seq<char>>)
    requires
        rectangular(rows),
    ensures
        scan(rows).len() == rows.len() * width_of(rows),
    decreases rows.len(),
{
    if rows.len() > 0 {
        let rest = rows.drop_first();
        assert forall|i: int| 0 <= i < rest.len() implies (#[trigger] rest[i]).len()
            == rows[0].len() by {
            assert(rest[i] == rows[i + 1]);
        }
        let w = rows[0].len();
        if rest.len() > 0 {
            assert(rest[0].len() == w);
            lemma_scan_len(rest);
            assert(scan(rest).len() == rest.len() * w);
        } else {
            assert(scan(rest).len() == 0);
            assert(0 == rest.len() * w) by (nonlinear_arith)
                requires
                    rest.len() == 0,
            ;
        }
        assert(scan(rows).len() == rows.len() * w) by (nonlinear_arith)
            requires
                scan(rows).len() == scan(rest).len() + w,
                scan(rest).len() == rest.len() * w,
                rest.len() == rows.len() - 1,
        ;
    }
}

} // verus!
