use vstd::prelude::*;
use crate::snake::{initial_cells, max3, Point, Snake, SnakeView};

verus! {

#[derive(Clone, Copy, Debug, PartialEq, Eq, Structural)]
pub enum Direction {
    Left,
    Right,
    Up,
    Down,
}

/// The displacement of a requested direction; none means "keep going".
pub open spec fn delta(dir: Option<Direction>) -> (i32, i32) {
    match dir {
        Some(Direction::Left) => (-1i32, 0i32),
        Some(Direction::Right) => (1i32, 0i32),
        Some(Direction::Up) => (0i32, -1i32),
        Some(Direction::Down) => (0i32, 1i32),
        None => (0i32, 0i32),
    }
}

/// `val` clamped into `[min, max]`.
pub open spec fn clamp(val: int, min: int, max: int) -> int {
    if val < min {
        min
    } else if val > max {
        max
    } else {
        val
    }
}

pub open spec fn in_grid(p: Point, width: nat, height: nat) -> bool {
    p.0 < width && p.1 < height
}

/// Every cell of the grid is covered by `cells`.
pub open spec fn covers_grid(cells: Seq<Point>, width: nat, height: nat) -> bool {
    forall|x: usize, y: usize| x < width && y < height ==> cells.contains((x, y))
}

/// The column of the initial tail for a grid of `width` and a snake of `size`.
pub open spec fn start_x(width: usize, size: usize) -> int {
    width as int / 2 - size as int / 2
}

/// Whether the initial snake fits into the grid.
pub open spec fn start_fits(width: usize, height: usize, size: usize) -> bool {
    &&& 0 <= start_x(width, size)
    &&& start_x(width, size) + max3(size) <= width
    &&& height > 0
}

/// The mathematical model of a field.
pub struct FieldView<T> {
    pub width: nat,
    pub height: nat,
    /// Background content, row by row: `background[y][x]`.
    pub background: Seq<Seq<T>>,
    pub default_val: T,
    pub snake_val: T,
    pub head_val: T,
    pub cookie_val: T,
    pub snake: SnakeView,
    pub cookie: Point,
}

impl<T> FieldView<T> {
    /// Everything but where the item lies relative to the snake.
    pub open spec fn shape_ok(self) -> bool {
        &&& 0 < self.width <= i32::MAX
        &&& 0 < self.height <= i32::MAX
        &&& self.background.len() == self.height
        &&& forall|y: int| 0 <= y < self.height ==> #[trigger] self.background[y].len()
            == self.width
        &&& self.snake.wf()
        &&& forall|i: int|
            0 <= i < self.snake.cells.len() ==> in_grid(
                #[trigger] self.snake.cells[i],
                self.width,
                self.height,
            )
        &&& in_grid(self.cookie, self.width, self.height)
    }

    /// The item lies off the snake, unless the snake covers the whole grid.
    pub open spec fn wf(self) -> bool {
        &&& self.shape_ok()
        &&& (!self.snake.cells.contains(self.cookie) || covers_grid(
            self.snake.cells,
            self.width,
            self.height,
        ))
    }

    /// A cell inside the grid and off the snake.
    pub open spec fn is_free(self, p: Point) -> bool {
        in_grid(p, self.width, self.height) && !self.snake.cells.contains(p)
    }

    pub open spec fn has_free(self) -> bool {
        exists|p: Point| self.is_free(p)
    }

    /// The first of `draws` that is a free cell, if any.
    pub open spec fn first_free_draw(self, draws: Seq<Point>) -> Option<Point>
        decreases draws.len(),
    {
        if draws.len() == 0 {
            None
        } else if self.is_free(draws[0]) {
            Some(draws[0])
        } else {
            self.first_free_draw(draws.drop_first())
        }
    }

    /// `p` is the free cell that comes first row by row.
    pub open spec fn is_first_free_cell(self, p: Point) -> bool {
        &&& self.is_free(p)
        &&& forall|q: Point| #[trigger]
            self.is_free(q) ==> !(q.1 < p.1 || (q.1 == p.1 && q.0 < p.0))
    }

    /// The same field with the item at `p`.
    pub open spec fn with_cookie(self, p: Point) -> FieldView<T> {
        FieldView { cookie: p, ..self }
    }

    /// The same field with the snake `s`.
    pub open spec fn with_snake(self, s: SnakeView) -> FieldView<T> {
        FieldView { snake: s, ..self }
    }

    /// The same field with the background `b`.
    pub open spec fn with_background(self, b: Seq<Seq<T>>) -> FieldView<T> {
        FieldView { background: b, ..self }
    }

    /// The snake's transition for a tick in `dir`: new snake, moved, scored.
    pub open spec fn tick_move(self, dir: Option<Direction>) -> (SnakeView, bool, bool) {
        self.snake.after_move(delta(dir).0, delta(dir).1, self.width as i32, self.height as i32)
    }

    /// Whether a tick in `dir` moves the head onto the item.
    pub open spec fn eats(self, dir: Option<Direction>) -> bool {
        self.tick_move(dir).1 && self.tick_move(dir).0.cells[0] == self.cookie
    }

    /// The three updates of every successful tick: erase the old tail,
    /// demote the old head to body, mark the new head.
    pub open spec fn move_diff(self, dir: Option<Direction>) -> Seq<(Point, T)> {
        seq![
            (self.snake.cells.last(), self.default_val),
            (self.snake.cells[0], self.snake_val),
            (self.tick_move(dir).0.cells[0], self.head_val),
        ]
    }

    /// What the cell `(x, y)` shows: the item over the head over the body
    /// over the background.
    pub open spec fn shown(self, x: int, y: int) -> T {
        if self.cookie == (x as usize, y as usize) {
            self.cookie_val
        } else if self.snake.cells[0] == (x as usize, y as usize) {
            self.head_val
        } else if self.snake.cells.contains((x as usize, y as usize)) {
            self.snake_val
        } else {
            self.background[y][x]
        }
    }
}

/// A grid of `height` rows of `width` copies of `v`.
pub open spec fn filled<T>(width: nat, height: nat, v: T) -> Seq<Seq<T>> {
    Seq::new(height, |y: int| Seq::new(width, |x: int| v))
}

/// `val` limited to `[min, max]`.
pub fn limit(val: usize, min: usize, max: usize) -> (r: usize)
    ensures
        r == clamp(val as int, min as int, max as int),
{
    if val < min {
        min
    } else if val > max {
        max
    } else {
        val
    }
}

/// `point` clamped into a grid of `width` by `height`.
pub fn limit_point(point: Point, width: usize, height: usize) -> (r: Point)
    requires
        width > 0,
        height > 0,
    ensures
        r.0 == clamp(point.0 as int, 0, width - 1),
        r.1 == clamp(point.1 as int, 0, height - 1),
{
    let x = limit(point.0, 0, width - 1);
    let y = limit(point.1, 0, height - 1);
    (x, y)
}

/// Relies on rand's `Range::new(0, n)` and `IndependentSample::ind_sample`
/// with the thread-local generator: a value drawn from `[0, n)`.
/// `Range::new` panics when `n == 0`.
#[verifier::external_body]
fn random_below(n: usize) -> (r: usize)
    requires
        n > 0,
    ensures
        r < n,
{
    rand::distributions::IndependentSample::ind_sample(
        &rand::distributions::Range::new(0, n),
        &mut rand::thread_rng(),
    )
}

/// Random cells drawn for the item before the free cells are searched in order.
const ITEM_DRAWS: usize = 1024;

/// A grid with a snake and an item on it, over a background of display values.
pub struct Field<T: Copy> {
    field: Vec<Vec<T>>,
    default_val: T,
    snake_val: T,
    head_val: T,
    cookie_val: T,
    width: usize,
    height: usize,
    snake: Snake,
    cookie: Point,
}

impl<T: Copy> View for Field<T> {
    type V = FieldView<T>;

    closed spec fn view(&self) -> FieldView<T> {
        FieldView {
            width: self.width as nat,
            height: self.height as nat,
            background: self.field@.map_values(|row: Vec<T>| row@),
            default_val: self.default_val,
            snake_val: self.snake_val,
            head_val: self.head_val,
            cookie_val: self.cookie_val,
            snake: self.snake@,
            cookie: self.cookie,
        }
    }
}

fn filled_rows<T: Copy>(width: usize, height: usize, v: T) -> (r: Vec<Vec<T>>)
    ensures
        r@.map_values(|row: Vec<T>| row@) == filled(width as nat, height as nat, v),
{
    let mut rows: Vec<Vec<T>> = Vec::new();
    let mut y: usize = 0;
    while y < height
        invariant
            y <= height,
            rows@.len() == y,
            forall|j: int| 0 <= j < y ==> #[trigger] rows@[j]@ == Seq::new(width as nat, |x: int| v),
        decreases height - y,
    {
        let mut row: Vec<T> = Vec::new();
        let mut x: usize = 0;
        while x < width
            invariant
                x <= width,
                row@ == Seq::new(x as nat, |i: int| v),
            decreases width - x,
        {
            row.push(v);
            x = x + 1;
            assert(row@ =~= Seq::new(x as nat, |i: int| v));
        }
        rows.push(row);
        y = y + 1;
    }
    assert(rows@.map_values(|row: Vec<T>| row@) =~= filled(width as nat, height as nat, v));
    rows
}

impl<T: Copy> Field<T> {
    pub open spec fn wf(&self) -> bool {
        self@.wf()
    }

    /// A field of `width` by `height` cells, all showing `default_val`, with a
    /// straight snake of `max(snake_size, 3)` cells centred on it, heading
    /// right, and the item on a free cell. `None` when the snake does not fit
    /// or leaves no cell free.
    pub fn new(
        width: usize,
        height: usize,
        default_val: T,
        snake_val: T,
        head_val: T,
        cookie_val: T,
        snake_size: usize,
    ) -> (r: Option<Field<T>>)
        requires
            width <= i32::MAX,
            height <= i32::MAX,
        ensures
            r is Some <==> start_fits(width, height, snake_size) && width * height > max3(
                snake_size,
            ),
            r matches Some(f) ==> {
                &&& f.wf()
                &&& !f@.snake.cells.contains(f@.cookie)
                &&& f@.width == width
                &&& f@.height == height
                &&& f@.background == filled(width as nat, height as nat, default_val)
                &&& f@.default_val == default_val
                &&& f@.snake_val == snake_val
                &&& f@.head_val == head_val
                &&& f@.cookie_val == cookie_val
                &&& f@.snake.cells.len() == max3(snake_size)
                &&& f@.snake.cells[0] == (
                    (start_x(width, snake_size) + max3(snake_size) - 1) as usize,
                    height / 2,
                )
                &&& f@.snake.cells.last() == (start_x(width, snake_size) as usize, height / 2)
                &&& f@.snake.cells == initial_cells(
                    max3(snake_size),
                    (start_x(width, snake_size) as usize, height / 2),
                )
                &&& f@.snake.last_x == 1 && f@.snake.last_y == 0
                &&& f@.snake.neck is None
                &&& f@.snake.growth.len() == 0
            },
    {
        if snake_size / 2 > width / 2 || height == 0 {
            return None;
        }
        let start_x: usize = width / 2 - snake_size / 2;
        let size: usize = if snake_size < 3 {
            3
        } else {
            snake_size
        };
        if size > width - start_x {
            return None;
        }
        assert((width as u64) * (height as u64) <= (i32::MAX as u64) * (i32::MAX as u64))
            by (nonlinear_arith)
            requires
                width <= i32::MAX,
                height <= i32::MAX,
        ;
        if (width as u64) * (height as u64) <= size as u64 {
            return None;
        }
        let snake = Snake::new(snake_size, (start_x, height / 2), 1, 0);
        let mut field = Field {
            field: filled_rows(width, height, default_val),
            default_val,
            snake_val,
            head_val,
            cookie_val,
            width,
            height,
            snake,
            cookie: (0, 0),
        };
        assert forall|y: int| 0 <= y < height implies #[trigger] field@.background[y].len()
            == width by {
            assert(field@.background[y] == filled(width as nat, height as nat, default_val)[y]);
        }
        proof {
            let cells = field@.snake.cells;
            let p: Point = if height >= 2 || start_x > 0 {
                (0usize, 0usize)
            } else {
                ((width - 1) as usize, 0usize)
            };
            if height == 1 {
                assert(width > size) by (nonlinear_arith)
                    requires
                        width * height > size,
                        height == 1,
                ;
            }
            if cells.contains(p) {
                let i = choose|i: int| 0 <= i < cells.len() && cells[i] == p;
                assert(cells[i] == ((start_x + size - 1 - i) as usize, height / 2));
            }
            assert(field@.is_free(p));
        }
        field.new_cookie();
        Some(field)
    }

    /// Puts the item on `(x, y)` when that cell is inside the grid and off
    /// the snake; otherwise changes nothing.
    pub fn place_item(&mut self, x: usize, y: usize) -> (r: bool)
        requires
            old(self)@.shape_ok(),
        ensures
            r == (x < old(self)@.width && y < old(self)@.height && !old(
                self,
            )@.snake.cells.contains((x, y))),
            r ==> final(self)@ == old(self)@.with_cookie((x, y)),
            !r ==> final(self)@ == old(self)@,
    {
        if x < self.width && y < self.height && !self.snake.contains(x, y) {
            self.cookie = (x, y);
            true
        } else {
            false
        }
    }

    /// Moves the item to the first of `draws` that is a free cell; when
    /// none is, to the first free cell row by row; when the grid has no free
    /// cell, leaves it where it is.
    pub fn respawn_item(&mut self, draws: &Vec<Point>)
        requires
            old(self)@.shape_ok(),
        ensures
            final(self).wf(),
            final(self)@ == old(self)@.with_cookie(final(self)@.cookie),
            old(self)@.first_free_draw(draws@) matches Some(p) ==> final(self)@.cookie == p,
            old(self)@.first_free_draw(draws@) is None && old(self)@.has_free()
                ==> old(self)@.is_first_free_cell(final(self)@.cookie),
            old(self)@.has_free() ==> old(self)@.is_free(final(self)@.cookie),
            !old(self)@.has_free() ==> final(self)@ == old(self)@,
    {
        let ghost v = self@;
        let n: usize = draws.len();
        let mut i: usize = 0;
        assert(draws@.subrange(0, n as int) =~= draws@);
        while i < n
            invariant
                self@ == v,
                v == old(self)@,
                v.shape_ok(),
                n == draws@.len(),
                i <= n,
                v.first_free_draw(draws@) == v.first_free_draw(draws@.subrange(i as int, n as int)),
            decreases n - i,
        {
            let p: Point = draws[i];
            assert(draws@.subrange(i as int, n as int)[0] == p);
            if self.place_item(p.0, p.1) {
                return;
            }
            assert(draws@.subrange(i as int, n as int).drop_first() =~= draws@.subrange(
                i + 1,
                n as int,
            ));
            i = i + 1;
        }
        assert(draws@.subrange(n as int, n as int).len() == 0);
        let mut y: usize = 0;
        while y < self.height
            invariant
                self@ == v,
                v == old(self)@,
                v.shape_ok(),
                v.first_free_draw(draws@) is None,
                y <= self.height,
                forall|a: usize, b: usize|
                    a < self.width && b < y ==> self@.snake.cells.contains((a, b)),
            decreases self.height - y,
        {
            let mut x: usize = 0;
            while x < self.width
                invariant
                    self@ == v,
                    v == old(self)@,
                    v.shape_ok(),
                    v.first_free_draw(draws@) is None,
                    y < self.height,
                    x <= self.width,
                    forall|a: usize, b: usize|
                        a < self.width && b < y ==> self@.snake.cells.contains((a, b)),
                    forall|a: usize| a < x ==> self@.snake.cells.contains((a, y)),
                decreases self.width - x,
            {
                if self.place_item(x, y) {
                    assert forall|q: Point| #[trigger] v.is_free(q) implies !(q.1 < y || (q.1
                        == y && q.0 < x)) by {
                        if q.1 < y {
                            assert(v.snake.cells.contains((q.0, q.1)));
                        } else if q.1 == y && q.0 < x {
                            assert(v.snake.cells.contains((q.0, y)));
                        }
                    }
                    return;
                }
                x = x + 1;
            }
            y = y + 1;
        }
        assert(!v.has_free()) by {
            assert forall|q: Point| !v.is_free(q) by {
                if in_grid(q, v.width, v.height) {
                    assert(v.snake.cells.contains((q.0, q.1)));
                }
            }
        }
        assert(covers_grid(v.snake.cells, v.width, v.height));
    }

    /// Moves the item to a cell drawn at random among the free ones.
    fn new_cookie(&mut self)
        requires
            old(self)@.shape_ok(),
        ensures
            final(self).wf(),
            final(self)@ == old(self)@.with_cookie(final(self)@.cookie),
            old(self)@.has_free() ==> old(self)@.is_free(final(self)@.cookie),
    {
        let mut draws: Vec<Point> = Vec::new();
        let mut k: usize = 0;
        while k < ITEM_DRAWS
            invariant
                self@ == old(self)@,
                old(self)@.shape_ok(),
            decreases ITEM_DRAWS - k,
        {
            let x = random_below(self.width);
            let y = random_below(self.height);
            draws.push((x, y));
            k = k + 1;
        }
        self.respawn_item(&draws);
    }
}

impl<T: Copy> Field<T> {
    /// One tick: moves the snake in `dir` (or on, for `None`). On a collision
    /// returns no updates. Otherwise returns the cells to redraw, in order;
    /// when the head reaches the item, the item moves to a free cell, the neck
    /// is recorded for growth, and the item's new cell is the last update.
    /// The flag tells whether the item was eaten or a pending growth was
    /// realised on this tick.
    pub fn mov(&mut self, dir: Option<Direction>) -> (r: (Option<Vec<(Point, T)>>, bool))
        requires
            old(self).wf(),
        ensures
            final(self).wf(),
            r.1 == (old(self)@.tick_move(dir).2 || old(self)@.eats(dir)),
            r.0 is Some <==> old(self)@.tick_move(dir).1,
            !old(self)@.eats(dir) ==> final(self)@ == old(self)@.with_snake(
                old(self)@.tick_move(dir).0,
            ),
            old(self)@.eats(dir) ==> final(self)@ == old(self)@.with_snake(
                old(self)@.tick_move(dir).0.after_grow(),
            ).with_cookie(final(self)@.cookie),
            r.0 matches Some(d) ==> d@ == old(self)@.move_diff(dir) + if old(self)@.eats(dir) {
                seq![(final(self)@.cookie, old(self)@.cookie_val)]
            } else {
                Seq::empty()
            },
    {
        let ghost v = self@;
        let old_tail: Point = *self.snake.get_tail();
        let old_front: Point = *self.snake.get_head();
        let w: i32 = self.width as i32;
        let h: i32 = self.height as i32;
        let (move_ok, score) = match dir {
            Some(Direction::Left) => self.snake.move_left(w, h),
            Some(Direction::Right) => self.snake.move_right(w, h),
            Some(Direction::Up) => self.snake.move_up(w, h),
            Some(Direction::Down) => self.snake.move_down(w, h),
            None => self.snake.move_last(w, h),
        };
        proof {
            let m = v.tick_move(dir);
            assert(self@.snake == m.0);
            if m.1 {
                assert forall|i: int| 0 <= i < m.0.cells.len() implies in_grid(
                    #[trigger] m.0.cells[i],
                    v.width,
                    v.height,
                ) by {
                    if i > 0 {
                        assert(m.0.cells[i] == v.snake.cells[i - 1]);
                    }
                }
                if !v.eats(dir) && v.snake.cells.contains(v.cookie) {
                    let t = v.snake.target_point(delta(dir).0, delta(dir).1);
                    assert(v.snake.cells.contains(t));
                }
                if !v.eats(dir) && !v.snake.cells.contains(v.cookie) {
                    assert forall|i: int| 0 <= i < m.0.cells.len() implies m.0.cells[i]
                        != v.cookie by {
                        if i > 0 {
                            assert(m.0.cells[i] == v.snake.cells[i - 1]);
                        }
                    }
                }
            }
        }
        if move_ok {
            let mut to_update: Vec<(Point, T)> = Vec::new();
            to_update.push((old_tail, self.default_val));
            to_update.push((old_front, self.snake_val));
            let head: Point = *self.snake.get_head();
            to_update.push((head, self.head_val));
            if head.0 == self.cookie.0 && head.1 == self.cookie.1 {
                self.new_cookie();
                self.snake.grow();
                to_update.push((self.cookie, self.cookie_val));
                assert(to_update@ =~= v.move_diff(dir) + seq![(self@.cookie, v.cookie_val)]);
                (Some(to_update), true)
            } else {
                assert(to_update@ =~= v.move_diff(dir) + Seq::empty());
                (Some(to_update), score)
            }
        } else {
            (None, score)
        }
    }

    /// What one cell of the grid shows.
    fn shown_at(&self, x: usize, y: usize) -> (r: T)
        requires
            self.wf(),
            x < self@.width,
            y < self@.height,
        ensures
            r == self@.shown(x as int, y as int),
    {
        if self.cookie.0 == x && self.cookie.1 == y {
            self.cookie_val
        } else {
            let head: Point = *self.snake.get_head();
            if head.0 == x && head.1 == y {
                self.head_val
            } else if self.snake.contains(x, y) {
                self.snake_val
            } else {
                assert(self.field@[y as int]@ == self@.background[y as int]);
                self.field[y][x]
            }
        }
    }

    /// The whole grid as it is shown: background, snake and item.
    pub fn get_field(&self) -> (r: Vec<Vec<T>>)
        requires
            self.wf(),
        ensures
            r@.len() == self@.height,
            forall|y: int| 0 <= y < self@.height ==> #[trigger] r@[y]@.len() == self@.width,
            forall|y: int, x: int|
                0 <= y < self@.height && 0 <= x < self@.width ==> #[trigger] r@[y]@[x]
                    == self@.shown(x, y),
    {
        let mut rows: Vec<Vec<T>> = Vec::new();
        let mut y: usize = 0;
        while y < self.height
            invariant
                self.wf(),
                y <= self@.height,
                rows@.len() == y,
                forall|j: int| 0 <= j < y ==> #[trigger] rows@[j]@.len() == self@.width,
                forall|j: int, x: int|
                    0 <= j < y && 0 <= x < self@.width ==> #[trigger] rows@[j]@[x]
                        == self@.shown(x, j),
            decreases self@.height - y,
        {
            let mut row: Vec<T> = Vec::new();
            let mut x: usize = 0;
            while x < self.width
                invariant
                    self.wf(),
                    y < self@.height,
                    x <= self@.width,
                    row@.len() == x,
                    forall|i: int| 0 <= i < x ==> #[trigger] row@[i] == self@.shown(i, y as int),
                decreases self@.width - x,
            {
                row.push(self.shown_at(x, y));
                x = x + 1;
            }
            rows.push(row);
            y = y + 1;
        }
        rows
    }

    /// The snake's cells with their display values: body cells from tail to
    /// neck, then the head.
    pub fn get_snake_with_chars(&self) -> (r: Vec<(Point, T)>)
        requires
            self.wf(),
        ensures
            r@.len() == self@.snake.cells.len(),
            forall|k: int|
                0 <= k < r@.len() - 1 ==> #[trigger] r@[k] == (
                    self@.snake.cells[r@.len() - 1 - k],
                    self@.snake_val,
                ),
            r@.last() == (self@.snake.cells[0], self@.head_val),
    {
        let points = self.snake.get_points();
        let n: usize = points.len();
        let mut out: Vec<(Point, T)> = Vec::new();
        let mut i: usize = n;
        while i > 1
            invariant
                points@ == self@.snake.cells,
                n == points@.len(),
                n >= 3,
                1 <= i <= n,
                out@.len() == n - i,
                forall|k: int|
                    0 <= k < n - i ==> #[trigger] out@[k] == (points@[n - 1 - k], self@.snake_val),
            decreases i,
        {
            i = i - 1;
            out.push((points[i], self.snake_val));
        }
        out.push((points[0], self.head_val));
        out
    }

    /// Sets the background of `(x, y)`, clamped into the grid.
    pub fn set_point(&mut self, x: usize, y: usize, data: T)
        requires
            old(self).wf(),
        ensures
            final(self).wf(),
            ({
                let cx = clamp(x as int, 0, old(self)@.width - 1);
                let cy = clamp(y as int, 0, old(self)@.height - 1);
                final(self)@ == old(self)@.with_background(
                    old(self)@.background.update(cy, old(self)@.background[cy].update(cx, data)),
                )
            }),
    {
        let p = limit_point((x, y), self.width, self.height);
        let ghost v = self@;
        assert(self.field@[p.1 as int]@ == v.background[p.1 as int]);
        self.field[p.1][p.0] = data;
        assert(self@.background =~= v.background.update(
            p.1 as int,
            v.background[p.1 as int].update(p.0 as int, data),
        ));
    }

    /// The background of `(x, y)`, clamped into the grid.
    pub fn get_point(&self, x: usize, y: usize) -> (r: &T)
        requires
            self.wf(),
        ensures
            *r == self@.background[clamp(y as int, 0, self@.height - 1)][clamp(
                x as int,
                0,
                self@.width - 1,
            )],
    {
        let p = limit_point((x, y), self.width, self.height);
        assert(self.field@[p.1 as int]@ == self@.background[p.1 as int]);
        &self.field[p.1][p.0]
    }

    /// Sets every background cell back to the default value.
    pub fn reset_field(&mut self)
        requires
            old(self).wf(),
        ensures
            final(self).wf(),
            final(self)@ == old(self)@.with_background(
                filled(old(self)@.width, old(self)@.height, old(self)@.default_val),
            ),
    {
        self.field = filled_rows(self.width, self.height, self.default_val);
        let ghost b = filled(self@.width, self@.height, self.default_val);
        assert forall|y: int| 0 <= y < self@.height implies #[trigger] self@.background[y].len()
            == self@.width by {
            assert(self@.background[y] == b[y]);
        }
    }

    pub fn get_width(&self) -> (r: usize)
        ensures
            r == self@.width,
    {
        self.width
    }

    pub fn get_height(&self) -> (r: usize)
        ensures
            r == self@.height,
    {
        self.height
    }

    pub fn default_val(&self) -> (r: &T)
        ensures
            *r == self@.default_val,
    {
        &self.default_val
    }

    pub fn get_snake_val(&self) -> (r: &T)
        ensures
            *r == self@.snake_val,
    {
        &self.snake_val
    }

    pub fn get_head_val(&self) -> (r: &T)
        ensures
            *r == self@.head_val,
    {
        &self.head_val
    }

    pub fn get_snake(&self) -> (r: &Snake)
        ensures
            r@ == self@.snake,
    {
        &self.snake
    }
}

} // verus!
