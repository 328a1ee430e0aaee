//! The snake: a head and a ring of trailing segments.

use crate::geometry::{Direction, Point};
use vstd::prelude::*;

verus! {

/// What a [`Snake`] is, mathematically: its head, its trailing segments in
/// ring order, and the slot of the segment that was written last.
pub struct SnakeView {
    pub head: Point,
    pub body: Seq<Point>,
    pub index: nat,
}

impl SnakeView {
    /// The ring is never empty and the cursor points into it.
    pub open spec fn wf(self) -> bool {
        self.index < self.body.len()
    }

    /// Whether `point` is the head or one of the trailing segments.
    pub open spec fn contains(self, point: Point) -> bool {
        self.head == point || self.body.contains(point)
    }

    /// Whether `point` is one of the trailing segments.
    pub open spec fn on_body(self, point: Point) -> bool {
        self.body.contains(point)
    }

    /// Head first, then the trailing segments in ring order.
    pub open spec fn cells(self) -> Seq<Point> {
        seq![self.head] + self.body
    }

    /// The snake with one more segment: a copy of the segment under the
    /// cursor is added at the end of the ring.
    pub open spec fn grown(self) -> SnakeView {
        SnakeView { body: self.body.push(self.body[self.index as int]), ..self }
    }

    /// The slot that the next shift writes.
    pub open spec fn next_index(self) -> nat {
        (((self.index + 1) as int) % (self.body.len() as int)) as nat
    }

    /// The snake after its ring took in the head's cell: the slot after the
    /// cursor now holds the head's cell and the cursor rests on it.
    pub open spec fn shifted(self) -> SnakeView {
        SnakeView {
            body: self.body.update(self.next_index() as int, self.head),
            index: self.next_index(),
            ..self
        }
    }

    /// The snake after one movement step on a `width` by `height` board.
    pub open spec fn moved(self, direction: Direction, grow: bool, width: nat, height: nat) -> SnakeView {
        let ring = if grow {
            self.grown().shifted()
        } else {
            self.shifted()
        };
        SnakeView { head: self.head.step(direction, width, height), ..ring }
    }

    /// A movement step keeps the ring well formed, lengthens it by one exactly
    /// when it grows, and brings no cell into the ring but the old head's.
    pub proof fn lemma_moved(self, direction: Direction, grow: bool, width: nat, height: nat)
        requires
            self.wf(),
        ensures
            self.moved(direction, grow, width, height).wf(),
            self.moved(direction, grow, width, height).body.len() == self.body.len() + if grow {
                1nat
            } else {
                0nat
            },
            forall|p: Point| #[trigger]
                self.moved(direction, grow, width, height).on_body(p) ==> self.contains(p),
            self.moved(direction, grow, width, height).on_body(self.head),
    {
        let ring = if grow {
            self.grown()
        } else {
            self
        };
        let after = self.moved(direction, grow, width, height);
        let next = ring.next_index() as int;
        assert(0 <= next < ring.body.len()) by (nonlinear_arith)
            requires
                next == ((ring.index + 1) as int) % (ring.body.len() as int),
                ring.body.len() > 0,
        ;
        assert(after.body[next] == self.head);
        assert forall|p: Point| #[trigger] after.on_body(p) implies self.contains(p) by {
            let i = choose|i: int| 0 <= i < after.body.len() && after.body[i] == p;
            if i != next {
                if i < self.body.len() {
                    assert(self.body[i] == p);
                } else {
                    assert(self.body[self.index as int] == p);
                }
            }
        }
    }
}

/// Reducing a coordinate before stepping over the edge changes nothing.
proof fn lemma_wrap_next(v: int, size: int)
    requires
        0 <= v,
        0 < size,
    ensures
        (v % size + 1) % size == (v + 1) % size,
{
    vstd::arithmetic::div_mod::lemma_add_mod_noop(v, 1, size);
    vstd::arithmetic::div_mod::lemma_mod_twice(v, size);
    vstd::arithmetic::div_mod::lemma_add_mod_noop(v % size, 1, size);
}

/// The snake of a game in progress.
///
/// The trailing segments live in a ring: a step overwrites the slot after
/// the cursor with the head's cell, so no segment is ever shifted.
#[derive(Debug)]
pub struct Snake {
    head: Point,
    body: Vec<Point>,
    index: usize,
}

impl View for Snake {
    type V = SnakeView;

    closed spec fn view(&self) -> SnakeView {
        SnakeView { head: self.head, body: self.body@, index: self.index as nat }
    }
}

/// Whether `point` occurs in `points`.
pub fn contains_point(points: &Vec<Point>, point: Point) -> (r: bool)
    ensures
        r == points@.contains(point),
{
    let mut i: usize = 0;
    while i < points.len()
        invariant
            i <= points.len(),
            forall|j: int| 0 <= j < i ==> points@[j] != point,
        decreases points.len() - i,
    {
        if points[i] == point {
            return true;
        }
        i += 1;
    }
    false
}

impl Clone for Snake {
    fn clone(&self) -> (r: Snake)
        ensures
            r@ == self@,
    {
        Snake { head: self.head, body: self.body.clone(), index: self.index }
    }
}

impl Snake {
    /// A snake with the given head and trailing segments, the cursor on the
    /// first segment. There is no snake without a trailing segment.
    pub fn new(head: Point, body: Vec<Point>) -> (r: Option<Snake>)
        ensures
            r is Some <==> body@.len() > 0,
            r matches Some(s) ==> s@ == (SnakeView { head, body: body@, index: 0 }) && s@.wf(),
    {
        if body.len() == 0 {
            None
        } else {
            Some(Snake { head, body, index: 0 })
        }
    }

    /// The cell of the head.
    pub fn head(&self) -> (r: Point)
        ensures
            r == self@.head,
    {
        self.head
    }

    /// The trailing segments in ring order.
    pub fn body(&self) -> (r: &Vec<Point>)
        ensures
            r@ == self@.body,
    {
        &self.body
    }

    /// The slot of the segment that was written last.
    pub fn index(&self) -> (r: usize)
        ensures
            r == self@.index,
    {
        self.index
    }

    /// Moves the snake one cell in `direction` on a `w` by `h` board that
    /// wraps around, growing by one segment first if asked to, and returns the
    /// new cell of the head.
    pub fn advance(&mut self, direction: Direction, should_add_new_body_piece: bool, w: usize, h: usize) -> (r: Point)
        requires
            old(self)@.wf(),
            w > 0,
            h > 0,
        ensures
            final(self)@ == old(self)@.moved(direction, should_add_new_body_piece, w as nat, h as nat),
            final(self)@.wf(),
            r == final(self)@.head,
    {
        proof {
            self@.lemma_moved(direction, should_add_new_body_piece, w as nat, h as nat);
        }
        self.move_body(should_add_new_body_piece);
        self.move_head(direction, w, h);
        self.head
    }

    /// Tells whether `point` is the head or a trailing segment.
    pub fn contains(&self, point: Point) -> (r: bool)
        ensures
            r == self@.contains(point),
    {
        self.head == point || contains_point(&self.body, point)
    }

    /// Tells whether `point` is a trailing segment.
    pub fn on_body(&self, point: Point) -> (r: bool)
        ensures
            r == self@.on_body(point),
    {
        contains_point(&self.body, point)
    }

    fn move_body(&mut self, should_add_new_body_piece: bool)
        requires
            old(self)@.wf(),
        ensures
            final(self)@ == if should_add_new_body_piece {
                old(self)@.grown().shifted()
            } else {
                old(self)@.shifted()
            },
    {
        if should_add_new_body_piece {
            let last = self.body[self.index];
            self.body.push(last);
        }
        let len: usize = self.body.len();
        let index_to_move: usize = (self.index + 1) % len;
        self.body.set(index_to_move, self.head);
        self.index = index_to_move;
    }

    fn move_head(&mut self, direction: Direction, w: usize, h: usize)
        requires
            w > 0,
            h > 0,
        ensures
            final(self)@ == (SnakeView {
                head: old(self)@.head.step(direction, w as nat, h as nat),
                ..old(self)@
            }),
    {
        let head = self.head;
        proof {
            lemma_wrap_next(head.x as int, w as int);
            lemma_wrap_next(head.y as int, h as int);
        }
        match direction {
            Direction::Up => {
                self.head = Point { x: head.x, y: (head.y % h + 1) % h };
            },
            Direction::Down => {
                self.head = Point {
                    x: head.x,
                    y: if head.y == 0 {
                        h - 1
                    } else {
                        head.y - 1
                    },
                };
            },
            Direction::Right => {
                self.head = Point { x: (head.x % w + 1) % w, y: head.y };
            },
            Direction::Left => {
                self.head = Point {
                    x: if head.x == 0 {
                        w - 1
                    } else {
                        head.x - 1
                    },
                    y: head.y,
                };
            },
        }
    }
}

} // verus!
