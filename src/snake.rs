use vstd::prelude::*;

verus! {

/// A cell of the grid, as `(x, y)`.
pub type Point = (usize, usize);

/// The mathematical model of a snake.
pub struct SnakeView {
    /// Occupied cells, head first, tail last.
    pub cells: Seq<Point>,
    /// Displacement of the last successful move, used when no direction is given.
    pub last_x: i32,
    pub last_y: i32,
    /// The cell the head stood on when the latest move began.
    pub neck: Option<Point>,
    /// Recorded neck cells whose extra segment is still pending, oldest first.
    pub growth: Seq<Point>,
}

impl SnakeView {
    /// The displacement actually used for a request of `(dx, dy)`.
    pub open spec fn step(self, dx: i32, dy: i32) -> (i32, i32) {
        if dx == 0 && dy == 0 {
            (self.last_x, self.last_y)
        } else {
            (dx, dy)
        }
    }

    /// Where the head would go, as unbounded integers.
    pub open spec fn target(self, dx: i32, dy: i32) -> (int, int) {
        (self.cells[0].0 + self.step(dx, dy).0, self.cells[0].1 + self.step(dx, dy).1)
    }

    pub open spec fn target_in_bounds(self, dx: i32, dy: i32, width: i32, height: i32) -> bool {
        let t = self.target(dx, dy);
        0 <= t.0 < width && 0 <= t.1 < height
    }

    pub open spec fn target_point(self, dx: i32, dy: i32) -> Point {
        (self.target(dx, dy).0 as usize, self.target(dx, dy).1 as usize)
    }

    /// A move succeeds when the new head is inside the grid and not on the body.
    pub open spec fn can_move(self, dx: i32, dy: i32, width: i32, height: i32) -> bool {
        self.target_in_bounds(dx, dy, width, height) && !self.cells.contains(
            self.target_point(dx, dy),
        )
    }

    /// The state after one move request, whether it moved, and whether a
    /// pending growth was realised by it.
    pub open spec fn after_move(self, dx: i32, dy: i32, width: i32, height: i32) -> (
        SnakeView,
        bool,
        bool,
    ) {
        let neck = Some(self.cells[0]);
        if !self.can_move(dx, dy, width, height) {
            (
                SnakeView {
                    cells: self.cells,
                    last_x: self.last_x,
                    last_y: self.last_y,
                    neck,
                    growth: self.growth,
                },
                false,
                false,
            )
        } else {
            let head = self.target_point(dx, dy);
            let tail = self.cells.last();
            let s = self.step(dx, dy);
            if self.growth.contains(tail) {
                (
                    SnakeView {
                        cells: seq![head] + self.cells,
                        last_x: s.0,
                        last_y: s.1,
                        neck,
                        growth: self.growth.remove_value(tail),
                    },
                    true,
                    true,
                )
            } else {
                (
                    SnakeView {
                        cells: seq![head] + self.cells.drop_last(),
                        last_x: s.0,
                        last_y: s.1,
                        neck,
                        growth: self.growth,
                    },
                    true,
                    false,
                )
            }
        }
    }

    /// The state after `grow`: the recorded neck becomes a pending growth.
    pub open spec fn after_grow(self) -> SnakeView {
        SnakeView {
            cells: self.cells,
            last_x: self.last_x,
            last_y: self.last_y,
            neck: self.neck,
            growth: match self.neck {
                Some(p) => self.growth.push(p),
                None => self.growth,
            },
        }
    }

    /// At least three cells, none repeated.
    pub open spec fn wf(self) -> bool {
        self.cells.len() >= 3 && self.cells.no_duplicates()
    }
}

/// The straight horizontal body of `len` cells whose tail is `tail`, head first.
pub open spec fn initial_cells(len: nat, tail: Point) -> Seq<Point> {
    Seq::new(len, |i: int| ((tail.0 + len - 1 - i) as usize, tail.1))
}

pub open spec fn max3(n: usize) -> nat {
    if n < 3 {
        3
    } else {
        n as nat
    }
}

/// A snake: an ordered chain of cells, head first, with deferred growth.
pub struct Snake {
    points: Vec<Point>,
    last_x: i32,
    last_y: i32,
    neck_point: Option<Point>,
    grow_points: Vec<Point>,
}

impl View for Snake {
    type V = SnakeView;

    closed spec fn view(&self) -> SnakeView {
        SnakeView {
            cells: self.points@,
            last_x: self.last_x,
            last_y: self.last_y,
            neck: self.neck_point,
            growth: self.grow_points@,
        }
    }
}


impl Snake {
    pub open spec fn wf(&self) -> bool {
        self@.wf()
    }

    /// A body of `max(init_length, 3)` cells extending rightward from `pos_tail`.
    pub fn new(init_length: usize, pos_tail: Point, last_x: i32, last_y: i32) -> (r: Snake)
        requires
            pos_tail.0 + max3(init_length) <= usize::MAX,
        ensures
            r.wf(),
            r@.cells == initial_cells(max3(init_length), pos_tail),
            r@.last_x == last_x,
            r@.last_y == last_y,
            r@.neck is None,
            r@.growth == Seq::<Point>::empty(),
    {
        let init_length: usize = if init_length < 3 {
            3
        } else {
            init_length
        };
        let mut points: Vec<Point> = Vec::new();
        let mut i: usize = init_length;
        while i > 0
            invariant
                i <= init_length,
                init_length == max3(init_length),
                pos_tail.0 + init_length <= usize::MAX,
                points@ == initial_cells(init_length as nat, pos_tail).take(
                    (init_length - i) as int,
                ),
            decreases i,
        {
            i = i - 1;
            points.push((pos_tail.0 + i, pos_tail.1));
            assert(points@ == initial_cells(init_length as nat, pos_tail).take(
                (init_length - i) as int,
            ));
        }
        let r = Snake {
            points,
            last_x,
            last_y,
            neck_point: None,
            grow_points: Vec::new(),
        };
        assert(points@ == initial_cells(init_length as nat, pos_tail));
        assert(r@.cells.no_duplicates());
        r
    }

    /// Records the neck of the latest move as a pending growth.
    pub fn grow(&mut self)
        ensures
            final(self)@ == old(self)@.after_grow(),
    {
        match self.neck_point {
            Some(p) => self.grow_points.push(p),
            None => {},
        }
    }

    pub fn move_left(&mut self, width: i32, height: i32) -> (r: (bool, bool))
        requires
            old(self).wf(),
        ensures
            final(self).wf(),
            (final(self)@, r.0, r.1) == old(self)@.after_move(-1i32, 0, width, height),
    {
        self.mov(-1, 0, width, height)
    }

    pub fn move_right(&mut self, width: i32, height: i32) -> (r: (bool, bool))
        requires
            old(self).wf(),
        ensures
            final(self).wf(),
            (final(self)@, r.0, r.1) == old(self)@.after_move(1, 0, width, height),
    {
        self.mov(1, 0, width, height)
    }

    pub fn move_up(&mut self, width: i32, height: i32) -> (r: (bool, bool))
        requires
            old(self).wf(),
        ensures
            final(self).wf(),
            (final(self)@, r.0, r.1) == old(self)@.after_move(0, -1i32, width, height),
    {
        self.mov(0, -1, width, height)
    }

    pub fn move_down(&mut self, width: i32, height: i32) -> (r: (bool, bool))
        requires
            old(self).wf(),
        ensures
            final(self).wf(),
            (final(self)@, r.0, r.1) == old(self)@.after_move(0, 1, width, height),
    {
        self.mov(0, 1, width, height)
    }

    /// Moves in the direction of the last successful move.
    pub fn move_last(&mut self, width: i32, height: i32) -> (r: (bool, bool))
        requires
            old(self).wf(),
        ensures
            final(self).wf(),
            (final(self)@, r.0, r.1) == old(self)@.after_move(0, 0, width, height),
    {
        self.mov(0, 0, width, height)
    }

    /// Moves the head by `(x, y)`, or by the last displacement when both are 0.
    /// Returns whether it moved and whether a pending growth was realised.
    pub fn mov(&mut self, x: i32, y: i32, width: i32, height: i32) -> (r: (bool, bool))
        requires
            old(self).wf(),
        ensures
            final(self).wf(),
            (final(self)@, r.0, r.1) == old(self)@.after_move(x, y, width, height),
    {
        let ghost v = self@;
        let head: Point = *self.get_head();
        self.neck_point = Some(head);
        let (dx, dy) = if x == 0 && y == 0 {
            (self.last_x, self.last_y)
        } else {
            (x, y)
        };
        let nx: i128 = head.0 as i128 + dx as i128;
        let ny: i128 = head.1 as i128 + dy as i128;
        if nx < 0 || ny < 0 || nx >= width as i128 || ny >= height as i128 {
            return (false, false);
        }
        let new_pos: Point = (nx as usize, ny as usize);
        assert(new_pos == v.target_point(x, y));
        if self.contains(new_pos.0, new_pos.1) {
            return (false, false);
        }
        let tail: Point = *self.get_tail();
        self.points.insert(0, new_pos);
        let n: usize = self.grow_points.len();
        let mut found: Option<usize> = None;
        let mut i: usize = 0;
        while i < n
            invariant
                0 <= i <= n,
                n == self.grow_points@.len(),
                self.grow_points@ == v.growth,
                found is None ==> forall|j: int| 0 <= j < i ==> self.grow_points@[j] != tail,
                found matches Some(k) ==> {
                    &&& k < i
                    &&& self.grow_points@[k as int] == tail
                    &&& forall|j: int| 0 <= j < k ==> self.grow_points@[j] != tail
                },
            decreases n - i,
        {
            let g: Point = self.grow_points[i];
            if found.is_none() && g.0 == tail.0 && g.1 == tail.1 {
                found = Some(i);
            }
            i = i + 1;
        }
        proof {
            v.growth.index_of_first_ensures(tail);
            lemma_move_keeps_cells_distinct(v, x, y, width, height);
        }
        let scored = match found {
            Some(k) => {
                assert(v.growth.contains(tail));
                assert(v.growth.index_of_first(tail) == Some(k as int));
                self.grow_points.remove(k);
                true
            },
            None => {
                assert(!v.growth.contains(tail));
                self.points.pop();
                false
            },
        };
        self.last_x = dx;
        self.last_y = dy;
        assert(self@.cells =~= v.after_move(x, y, width, height).0.cells);
        (true, scored)
    }

    /// Whether `(x, y)` is a cell of the body.
    pub fn contains(&self, x: usize, y: usize) -> (r: bool)
        ensures
            r == self@.cells.contains((x, y)),
    {
        let mut i: usize = 0;
        while i < self.points.len()
            invariant
                0 <= i <= self.points@.len(),
                forall|j: int| 0 <= j < i ==> self.points@[j] != (x, y),
            decreases self.points@.len() - i,
        {
            let p: Point = self.points[i];
            if p.0 == x && p.1 == y {
                return true;
            }
            i = i + 1;
        }
        false
    }

    /// The cells, head first.
    pub fn get_points(&self) -> (r: &Vec<Point>)
        ensures
            r@ == self@.cells,
    {
        &self.points
    }

    pub fn get_head(&self) -> (r: &Point)
        requires
            self.wf(),
        ensures
            *r == self@.cells[0],
    {
        &self.points[0]
    }

    pub fn get_tail(&self) -> (r: &Point)
        requires
            self.wf(),
        ensures
            *r == self@.cells.last(),
    {
        &self.points[self.points.len() - 1]
    }
}

/// A successful move never makes the body cross itself, and keeps at least
/// three cells.
pub proof fn lemma_move_keeps_cells_distinct(s: SnakeView, dx: i32, dy: i32, width: i32, height: i32)
    requires
        s.wf(),
    ensures
        s.after_move(dx, dy, width, height).0.wf(),
{
    let r = s.after_move(dx, dy, width, height).0;
    if s.can_move(dx, dy, width, height) {
        let h = s.target_point(dx, dy);
        let body = if s.growth.contains(s.cells.last()) {
            s.cells
        } else {
            s.cells.drop_last()
        };
        assert(r.cells == seq![h] + body);
        assert forall|i: int, j: int| 0 <= i < r.cells.len() && 0 <= j < r.cells.len() && i != j
            implies r.cells[i] != r.cells[j] by {
            if i > 0 && j > 0 {
                assert(r.cells[i] == s.cells[i - 1]);
                assert(r.cells[j] == s.cells[j - 1]);
            } else if i == 0 {
                assert(r.cells[j] == s.cells[j - 1]);
            } else {
                assert(r.cells[i] == s.cells[i - 1]);
            }
        }
    }
}


/// A move whose new head would leave the grid is refused and leaves the
/// body, the pending growth and the last direction as they were.
pub proof fn lemma_out_of_bounds_rejected(s: SnakeView, dx: i32, dy: i32, width: i32, height: i32)
    requires
        s.wf(),
        !s.target_in_bounds(dx, dy, width, height),
    ensures
        !s.after_move(dx, dy, width, height).1,
        !s.after_move(dx, dy, width, height).2,
        s.after_move(dx, dy, width, height).0.cells == s.cells,
        s.after_move(dx, dy, width, height).0.growth == s.growth,
        s.after_move(dx, dy, width, height).0.last_x == s.last_x,
        s.after_move(dx, dy, width, height).0.last_y == s.last_y,
{
}

/// A move whose new head would land on a cell of the body, the current
/// tail included, is refused and leaves the body, the pending growth and the
/// last direction as they were.
pub proof fn lemma_self_collision_rejected(
    s: SnakeView,
    dx: i32,
    dy: i32,
    width: i32,
    height: i32,
)
    requires
        s.wf(),
        s.cells.contains(s.target_point(dx, dy)),
    ensures
        !s.after_move(dx, dy, width, height).1,
        !s.after_move(dx, dy, width, height).2,
        s.after_move(dx, dy, width, height).0.cells == s.cells,
        s.after_move(dx, dy, width, height).0.growth == s.growth,
        s.after_move(dx, dy, width, height).0.last_x == s.last_x,
        s.after_move(dx, dy, width, height).0.last_y == s.last_y,
{
}

/// A successful move lengthens the body by exactly one, and reports a score,
/// exactly when the tail stands on a pending growth cell; otherwise the length
/// stays. A pending growth cell other than the tail stays pending.
pub proof fn lemma_growth_only_at_tail(
    s: SnakeView,
    dx: i32,
    dy: i32,
    width: i32,
    height: i32,
    g: Point,
)
    requires
        s.wf(),
        s.can_move(dx, dy, width, height),
    ensures
        ({
            let (r, moved, scored) = s.after_move(dx, dy, width, height);
            &&& moved
            &&& scored == s.growth.contains(s.cells.last())
            &&& r.cells.len() == s.cells.len() + if scored {
                1int
            } else {
                0int
            }
            &&& r.cells[0] == s.target_point(dx, dy)
            &&& (s.growth.contains(g) && g != s.cells.last()) ==> r.growth.contains(g)
        }),
{
    let tail = s.cells.last();
    if s.growth.contains(g) && g != tail && s.growth.contains(tail) {
        s.growth.index_of_first_ensures(tail);
        let i = s.growth.index_of_first(tail)->0;
        let j = choose|j: int| 0 <= j < s.growth.len() && s.growth[j] == g;
        let r = s.growth.remove_value(tail);
        if j < i {
            assert(r[j] == g);
        } else {
            assert(r[j - 1] == g);
        }
    }
}

/// After `grow`, the neck recorded by the latest move is pending growth.
pub proof fn lemma_grow_records_neck(s: SnakeView, dx: i32, dy: i32, width: i32, height: i32)
    requires
        s.wf(),
    ensures
        s.after_move(dx, dy, width, height).0.after_grow().growth == s.growth.push(s.cells[0])
            || s.after_move(dx, dy, width, height).0.after_grow().growth == s.growth.remove_value(
            s.cells.last(),
        ).push(s.cells[0]),
        s.after_move(dx, dy, width, height).0.after_grow().growth.contains(s.cells[0]),
{
    let r = s.after_move(dx, dy, width, height).0.after_grow();
    assert(r.growth.last() == s.cells[0]);
    assert(r.growth[r.growth.len() - 1] == s.cells[0]);
}


/// Two cells one step apart, horizontally or vertically.
pub open spec fn adjacent(p: Point, q: Point) -> bool {
    ||| p.1 == q.1 && (p.0 + 1 == q.0 || q.0 + 1 == p.0)
    ||| p.0 == q.0 && (p.1 + 1 == q.1 || q.1 + 1 == p.1)
}

/// Each cell is one step from the next.
pub open spec fn connected(cells: Seq<Point>) -> bool {
    forall|i: int| 0 <= i < cells.len() - 1 ==> adjacent(#[trigger] cells[i], cells[i + 1])
}

/// A displacement of one cell in one of the four directions.
pub open spec fn unit_step(d: (i32, i32)) -> bool {
    ||| d.0 == 0 && (d.1 == 1 || d.1 == -1)
    ||| d.1 == 0 && (d.0 == 1 || d.0 == -1)
}

/// A newly built body is a connected straight line.
pub proof fn lemma_initial_cells_connected(len: nat, tail: Point)
    requires
        tail.0 + len <= usize::MAX,
    ensures
        connected(initial_cells(len, tail)),
        initial_cells(len, tail).len() == len,
        len > 0 ==> initial_cells(len, tail)[0] == ((tail.0 + len - 1) as usize, tail.1),
        len > 0 ==> initial_cells(len, tail).last() == tail,
{
}

/// A move by one cell, or by the last displacement when that is one cell,
/// keeps a connected body connected.
pub proof fn lemma_unit_moves_keep_body_connected(
    s: SnakeView,
    dx: i32,
    dy: i32,
    width: i32,
    height: i32,
)
    requires
        s.wf(),
        connected(s.cells),
        unit_step(s.step(dx, dy)),
    ensures
        connected(s.after_move(dx, dy, width, height).0.cells),
        s.after_move(dx, dy, width, height).1 ==> unit_step(
            (s.after_move(dx, dy, width, height).0.last_x, s.after_move(dx, dy, width, height).0.last_y),
        ),
{
    let r = s.after_move(dx, dy, width, height).0;
    if s.can_move(dx, dy, width, height) {
        assert(adjacent(r.cells[0], s.cells[0]));
        assert forall|i: int| 0 <= i < r.cells.len() - 1 implies adjacent(
            #[trigger] r.cells[i],
            r.cells[i + 1],
        ) by {
            if i > 0 {
                assert(r.cells[i] == s.cells[i - 1]);
                assert(r.cells[i + 1] == s.cells[i]);
            }
        }
    }
}

} // verus!
