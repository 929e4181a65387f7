//! The snake: its cells from tail to head, its heading, and the growth it
//! still has to make.

use std::collections::VecDeque;
use vstd::prelude::*;

verus! {

/// A heading on the board. The y axis points down.
#[derive(Copy, Clone, Debug, PartialEq, Eq, Structural)]
pub enum Dir {
    Up,
    Down,
    Left,
    Right,
}

impl Dir {
    /// The heading that points the other way.
    pub open spec fn reversed(self) -> Dir {
        match self {
            Dir::Up => Dir::Down,
            Dir::Down => Dir::Up,
            Dir::Left => Dir::Right,
            Dir::Right => Dir::Left,
        }
    }

    /// One step in this heading.
    pub open spec fn step(self) -> (int, int) {
        match self {
            Dir::Up => (0, -1),
            Dir::Down => (0, 1),
            Dir::Left => (-1, 0),
            Dir::Right => (1, 0),
        }
    }

    /// The heading after a quarter turn to the left.
    pub open spec fn left_of(self) -> Dir {
        match self {
            Dir::Up => Dir::Left,
            Dir::Down => Dir::Right,
            Dir::Left => Dir::Down,
            Dir::Right => Dir::Up,
        }
    }

    /// The heading after a quarter turn to the right.
    pub open spec fn right_of(self) -> Dir {
        match self {
            Dir::Up => Dir::Right,
            Dir::Down => Dir::Left,
            Dir::Left => Dir::Up,
            Dir::Right => Dir::Down,
        }
    }

    /// The heading that a relative action asks for: 0 turns left, 2 turns
    /// right, anything else goes straight on.
    pub open spec fn relative_spec(self, action: u8) -> Dir {
        if action == 0 {
            self.left_of()
        } else if action == 2 {
            self.right_of()
        } else {
            self
        }
    }

    /// The heading that a relative action asks for.
    pub fn relative(self, action: u8) -> (r: Dir)
        ensures
            r == self.relative_spec(action),
            r != self.reversed(),
    {
        match (self, action) {
            (Dir::Up, 0) => Dir::Left,
            (Dir::Up, 2) => Dir::Right,
            (Dir::Down, 0) => Dir::Right,
            (Dir::Down, 2) => Dir::Left,
            (Dir::Left, 0) => Dir::Down,
            (Dir::Left, 2) => Dir::Up,
            (Dir::Right, 0) => Dir::Up,
            (Dir::Right, 2) => Dir::Down,
            _ => self,
        }
    }

    /// Whether `other` points the other way.
    pub fn is_opposite(self, other: Dir) -> (r: bool)
        ensures
            r == (other == self.reversed()),
    {
        match (self, other) {
            (Dir::Up, Dir::Down) => true,
            (Dir::Down, Dir::Up) => true,
            (Dir::Left, Dir::Right) => true,
            (Dir::Right, Dir::Left) => true,
            _ => false,
        }
    }

    /// One step in this heading, as a change of `(x, y)`.
    pub fn delta(self) -> (d: (i32, i32))
        ensures
            d.0 == self.step().0,
            d.1 == self.step().1,
    {
        match self {
            Dir::Up => (0, -1),
            Dir::Down => (0, 1),
            Dir::Left => (-1, 0),
            Dir::Right => (1, 0),
        }
    }
}

/// What a snake holds.
pub struct SnakeView {
    /// The cells, tail first, head last.
    pub body: Seq<(i32, i32)>,
    pub dir: Dir,
    /// Number of coming steps on which the tail stays.
    pub grow: nat,
}

impl SnakeView {
    pub open spec fn head(self) -> (i32, i32) {
        self.body.last()
    }

    /// The cell that the head moves to next.
    pub open spec fn ahead(self) -> (int, int) {
        (self.head().0 + self.dir.step().0, self.head().1 + self.dir.step().1)
    }

    /// That cell has coordinates that can be stored.
    pub open spec fn can_advance(self) -> bool {
        &&& i32::MIN <= self.ahead().0 <= i32::MAX
        &&& i32::MIN <= self.ahead().1 <= i32::MAX
    }

    /// The snake heading for `want`, unless that is a reversal.
    pub open spec fn turned(self, want: Dir) -> SnakeView {
        if want == self.dir.reversed() {
            self
        } else {
            SnakeView { dir: want, ..self }
        }
    }

    /// The snake one step on: a new head, and the tail gone unless the snake
    /// is growing.
    pub open spec fn advanced(self) -> SnakeView {
        let moved = self.body.push((self.ahead().0 as i32, self.ahead().1 as i32));
        if self.grow > 0 {
            SnakeView { body: moved, grow: (self.grow - 1) as nat, ..self }
        } else {
            SnakeView { body: moved.drop_first(), ..self }
        }
    }

    pub open spec fn occupies(self, x: int, y: int) -> bool {
        exists|i: int|
            0 <= i < self.body.len() && (#[trigger] self.body[i]).0 == x && self.body[i].1 == y
    }

    /// The head lies on a cell of the rest of the body.
    pub open spec fn self_collision(self) -> bool {
        exists|i: int| 0 <= i < self.body.len() - 1 && #[trigger] self.body[i] == self.head()
    }
}

pub struct Snake {
    body: VecDeque<(i32, i32)>,
    dir: Dir,
    grow: usize,
}

impl View for Snake {
    type V = SnakeView;

    closed spec fn view(&self) -> SnakeView {
        SnakeView { body: self.body@, dir: self.dir, grow: self.grow as nat }
    }
}

impl Snake {
    /// A snake has a head.
    pub open spec fn wf(&self) -> bool {
        self@.body.len() >= 1
    }

    /// A snake of three cells, centred on `(cx, cy)` and heading right.
    pub fn new(cx: i32, cy: i32) -> (r: Self)
        requires
            i32::MIN < cx < i32::MAX,
        ensures
            r@ == (SnakeView {
                body: seq![((cx - 1) as i32, cy), (cx, cy), ((cx + 1) as i32, cy)],
                dir: Dir::Right,
                grow: 0,
            }),
            r.wf(),
    {
        let mut body: VecDeque<(i32, i32)> = VecDeque::new();
        body.push_back((cx - 1, cy));
        body.push_back((cx, cy));
        body.push_back((cx + 1, cy));
        assert(body@ =~= seq![((cx - 1) as i32, cy), (cx, cy), ((cx + 1) as i32, cy)]);
        Self { body, dir: Dir::Right, grow: 0 }
    }

    pub fn head(&self) -> (r: (i32, i32))
        requires
            self.wf(),
        ensures
            r == self@.head(),
    {
        self.body[self.body.len() - 1]
    }

    /// The cells, tail first.
    pub fn segments_vec(&self) -> (r: Vec<(i32, i32)>)
        ensures
            r@ == self@.body,
    {
        let n: usize = self.body.len();
        let mut r: Vec<(i32, i32)> = Vec::new();
        let mut i: usize = 0;
        while i < n
            invariant
                i <= n,
                n == self.body@.len(),
                r@ == self.body@.subrange(0, i as int),
            decreases n - i,
        {
            r.push(self.body[i]);
            i += 1;
            assert(r@ =~= self.body@.subrange(0, i as int));
        }
        assert(self.body@.subrange(0, n as int) =~= self.body@);
        r
    }

    pub fn dir(&self) -> (r: Dir)
        ensures
            r == self@.dir,
    {
        self.dir
    }

    pub fn len(&self) -> (r: usize)
        ensures
            r == self@.body.len(),
    {
        self.body.len()
    }

    /// Takes the heading `want` unless it reverses the snake.
    pub fn apply_dir(&mut self, want: Dir)
        ensures
            final(self)@ == old(self)@.turned(want),
    {
        if !want.is_opposite(self.dir) {
            self.dir = want;
        }
    }

    /// Moves one step: adds a head, and removes the tail unless the snake is
    /// growing.
    pub fn advance(&mut self)
        requires
            old(self).wf(),
            old(self)@.can_advance(),
        ensures
            final(self)@ == old(self)@.advanced(),
            final(self).wf(),
    {
        let (dx, dy) = self.dir.delta();
        let (hx, hy) = self.head();
        let new_head: (i32, i32) = (hx + dx, hy + dy);
        self.body.push_back(new_head);
        if self.grow > 0 {
            self.grow -= 1;
        } else {
            self.body.pop_front();
        }
    }

    /// Lets the snake grow by one more cell.
    pub fn feed(&mut self)
        requires
            old(self)@.grow < usize::MAX,
        ensures
            final(self)@ == (SnakeView { grow: old(self)@.grow + 1, ..old(self)@ }),
    {
        self.grow += 1;
    }

    /// Whether the snake lies on the cell `(x, y)`.
    pub fn occupies(&self, x: i32, y: i32) -> (r: bool)
        ensures
            r == self@.occupies(x as int, y as int),
    {
        let n: usize = self.body.len();
        let mut i: usize = 0;
        while i < n
            invariant
                i <= n,
                n == self.body@.len(),
                forall|k: int|
                    0 <= k < i ==> !((#[trigger] self.body@[k]).0 == x && self.body@[k].1 == y),
            decreases n - i,
        {
            let c: (i32, i32) = self.body[i];
            if c.0 == x && c.1 == y {
                assert(self@.body[i as int].0 == x && self@.body[i as int].1 == y);
                return true;
            }
            i += 1;
        }
        false
    }

    /// Whether the head lies on a cell of the rest of the body.
    pub fn self_collision(&self) -> (r: bool)
        requires
            self.wf(),
        ensures
            r == self@.self_collision(),
    {
        let head: (i32, i32) = self.head();
        let n: usize = self.body.len() - 1;
        let mut i: usize = 0;
        while i < n
            invariant
                i <= n,
                n == self.body@.len() - 1,
                head == self@.head(),
                forall|k: int| 0 <= k < i ==> self.body@[k] != head,
            decreases n - i,
        {
            let c: (i32, i32) = self.body[i];
            if c.0 == head.0 && c.1 == head.1 {
                assert(self.body@[i as int] == head);
                return true;
            }
            i += 1;
        }
        false
    }
}

} // verus!
