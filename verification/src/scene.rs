//! The board: its size, its border band, the food lying on it, and the
//! questions it answers about a snake.

use std::collections::HashSet;
use rand::rngs::StdRng;
use vstd::prelude::*;
use crate::frame::{paint, painted, snake_painted, CellUpdate, GlyphKind};
use crate::random::{choose_cell, fresh_rng};
use crate::snake::Snake;

verus! {

/// Boards are never wider than this many cells.
pub const MAX_WIDTH: u16 = 150;

/// Boards are never taller than this many cells.
pub const MAX_HEIGHT: u16 = 40;

/// Why a board could not be built.
#[derive(Clone, Copy, Debug, PartialEq, Eq, Structural)]
pub enum ConfigError {
    /// The width or the height is zero.
    ZeroDimension,
    /// The border band leaves no playable cell.
    NoInterior,
}

/// The smaller of `n` and `max`.
pub open spec fn clamped(n: u16, max: u16) -> u16 {
    if n <= max {
        n
    } else {
        max
    }
}

/// Whether a border of thickness `border` at both ends of a line of
/// `extent` cells leaves a cell strictly inside the band.
pub open spec fn leaves_interior(extent: u16, border: u16) -> bool {
    border < extent / 2
}

/// Whether `c` lies strictly inside the border band on all four sides of a
/// board of the given size. The cells that touch the band from inside count
/// as part of it.
pub open spec fn interior(width: u16, height: u16, border: u16, c: (u16, u16)) -> bool {
    &&& border < c.0 < width - border
    &&& border < c.1 < height - border
}

/// Whether `c` is interior and occurs neither in `body` nor in `food`.
pub open spec fn vacant(
    width: u16,
    height: u16,
    border: u16,
    body: Seq<(u16, u16)>,
    food: Seq<(u16, u16)>,
    c: (u16, u16),
) -> bool {
    &&& interior(width, height, border, c)
    &&& !body.contains(c)
    &&& !food.contains(c)
}

/// Whether `after` is what spawning one piece of food may turn the food
/// list `before` into: `before` with one more piece at its end, on a cell
/// that was vacant; or, where no cell was vacant, `before` itself.
pub open spec fn spawn_result(
    width: u16,
    height: u16,
    border: u16,
    body: Seq<(u16, u16)>,
    before: Seq<(u16, u16)>,
    after: Seq<(u16, u16)>,
) -> bool {
    if exists|c: (u16, u16)| vacant(width, height, border, body, before, c) {
        exists|c: (u16, u16)|
            #[trigger] vacant(width, height, border, body, before, c) && after == before.push(c)
    } else {
        after == before
    }
}

/// What is wrong with a requested board, if anything: a zero dimension
/// first, then a border band that leaves no interior in the board once it
/// is cut down to the size limits.
pub open spec fn config_fault(width: u16, height: u16, border: u16) -> Option<ConfigError> {
    if width == 0 || height == 0 {
        Some(ConfigError::ZeroDimension)
    } else if !leaves_interior(clamped(width, MAX_WIDTH), border) || !leaves_interior(
        clamped(height, MAX_HEIGHT),
        border,
    ) {
        Some(ConfigError::NoInterior)
    } else {
        None
    }
}

/// A single number that stands for a cell; different cells get different
/// numbers.
pub open spec fn cell_key(c: (u16, u16)) -> u32 {
    (c.0 * 65536 + c.1) as u32
}

/// Whether `i` is the first position of `s` whose cell already occurs
/// earlier in `s`.
pub open spec fn is_first_repeat(s: Seq<(u16, u16)>, i: int) -> bool {
    &&& 0 <= i < s.len()
    &&& s.take(i).no_duplicates()
    &&& s.take(i).contains(s[i])
}

/// Spawning never puts food on the snake: a piece that a spawn adds lies on
/// an interior cell that is neither on the snake nor under older food, and
/// at most one piece is added.
pub proof fn law_spawn_avoids_snake(
    width: u16,
    height: u16,
    border: u16,
    body: Seq<(u16, u16)>,
    before: Seq<(u16, u16)>,
    after: Seq<(u16, u16)>,
)
    requires
        spawn_result(width, height, border, body, before, after),
    ensures
        after == before || (after.len() == before.len() + 1 && after.drop_last() == before),
        forall|c: (u16, u16)|
            after.contains(c) && !before.contains(c) ==> !body.contains(c) && interior(
                width,
                height,
                border,
                c,
            ),
{
    if after != before {
        let added = choose|c: (u16, u16)|
            #[trigger] vacant(width, height, border, body, before, c) && after == before.push(c);
        assert(after.drop_last() == before);
        assert forall|c: (u16, u16)| after.contains(c) && !before.contains(c) implies c
            == added by {
            let i = choose|i: int| 0 <= i < after.len() && after[i] == c;
            if i < before.len() {
                assert(before[i] == c);
            }
        }
    }
}

/// A board has an interior cell exactly when its border is thinner than
/// half its width and half its height.
pub proof fn law_interior_exists(width: u16, height: u16, border: u16)
    ensures
        (exists|c: (u16, u16)| interior(width, height, border, c)) <==> (leaves_interior(
            width,
            border,
        ) && leaves_interior(height, border)),
{
    if leaves_interior(width, border) && leaves_interior(height, border) {
        assert(interior(width, height, border, ((border + 1) as u16, (border + 1) as u16)));
    }
}

/// Different cells have different keys.
proof fn lemma_cell_key_injective(a: (u16, u16), b: (u16, u16))
    requires
        cell_key(a) == cell_key(b),
    ensures
        a == b,
{
}

fn key_of(c: (u16, u16)) -> (k: u32)
    ensures
        k == cell_key(c),
{
    (c.0 as u32) * 65536 + (c.1 as u32)
}

/// Whether `a` comes before `b` when cells are listed column by column,
/// each column from top to bottom.
pub open spec fn column_before(a: (u16, u16), b: (u16, u16)) -> bool {
    a.0 < b.0 || (a.0 == b.0 && a.1 < b.1)
}

/// Whether `s` lists its cells column by column, each column from top to
/// bottom, without repeating one.
pub open spec fn column_ordered(s: Seq<(u16, u16)>) -> bool {
    forall|i: int, j: int| 0 <= i < j < s.len() ==> column_before(#[trigger] s[i], #[trigger] s[j])
}

/// A column-ordered list is determined by the cells it holds: two such
/// lists with the same cells are the same list.
pub proof fn law_column_order_determines(a: Seq<(u16, u16)>, b: Seq<(u16, u16)>)
    requires
        column_ordered(a),
        column_ordered(b),
        forall|c: (u16, u16)| a.contains(c) <==> b.contains(c),
    ensures
        a == b,
    decreases a.len(),
{
    if a.len() == 0 {
        if b.len() > 0 {
            assert(b.contains(b[0]));
        }
        assert(a =~= b);
    } else {
        assert(a.contains(a.last()));
        assert(b.contains(a.last()));
        assert(b.contains(b.last()));
        let in_b = choose|j: int| 0 <= j < b.len() && b[j] == a.last();
        let in_a = choose|i: int| 0 <= i < a.len() && a[i] == b.last();
        if in_b < b.len() - 1 {
            assert(column_before(b[in_b], b[b.len() - 1]));
        }
        if in_a < a.len() - 1 {
            assert(column_before(a[in_a], a[a.len() - 1]));
        }
        assert(a.last() == b.last());
        let shorter_a = a.drop_last();
        let shorter_b = b.drop_last();
        assert forall|c: (u16, u16)| shorter_a.contains(c) <==> shorter_b.contains(c) by {
            if shorter_a.contains(c) {
                let i = choose|i: int| 0 <= i < shorter_a.len() && shorter_a[i] == c;
                assert(column_before(a[i], a[a.len() - 1]));
                assert(a.contains(c));
                let j = choose|j: int| 0 <= j < b.len() && b[j] == c;
                assert(shorter_b[j] == c);
            }
            if shorter_b.contains(c) {
                let j = choose|j: int| 0 <= j < shorter_b.len() && shorter_b[j] == c;
                assert(column_before(b[j], b[b.len() - 1]));
                assert(b.contains(c));
                let i = choose|i: int| 0 <= i < a.len() && a[i] == c;
                assert(shorter_a[i] == c);
            }
        }
        assert forall|i: int, j: int| 0 <= i < j < shorter_a.len() implies column_before(
            #[trigger] shorter_a[i],
            #[trigger] shorter_a[j],
        ) by {
            assert(column_before(a[i], a[j]));
        }
        assert forall|i: int, j: int| 0 <= i < j < shorter_b.len() implies column_before(
            #[trigger] shorter_b[i],
            #[trigger] shorter_b[j],
        ) by {
            assert(column_before(b[i], b[j]));
        }
        law_column_order_determines(shorter_a, shorter_b);
        assert(a =~= shorter_a.push(a.last()));
        assert(b =~= shorter_b.push(b.last()));
    }
}

/// Whether `batch` lists its updates row by row, each row from left to
/// right, without naming a cell twice.
pub open spec fn row_ordered(batch: Seq<CellUpdate>) -> bool {
    forall|i: int, j: int|
        0 <= i < j < batch.len() ==> {
            let a = #[trigger] batch[i];
            let b = #[trigger] batch[j];
            a.y < b.y || (a.y == b.y && a.x < b.x)
        }
}

/// Whether `c` occurs in `cells`.
pub fn contains_cell(cells: &Vec<(u16, u16)>, c: (u16, u16)) -> (found: bool)
    ensures
        found == cells@.contains(c),
{
    let mut i: usize = 0;
    while i < cells.len()
        invariant
            i <= cells@.len(),
            !cells@.take(i as int).contains(c),
        decreases cells@.len() - i,
    {
        let (x, y) = cells[i];
        if x == c.0 && y == c.1 {
            return true;
        }
        proof {
            let longer = cells@.take(i + 1);
            assert forall|j: int| 0 <= j < longer.len() implies longer[j] != c by {
                if j < i {
                    assert(cells@.take(i as int)[j] == longer[j]);
                }
            }
        }
        i += 1;
    }
    assert(cells@.take(i as int) == cells@);
    false
}

/// Adds the key of every cell of `cells` to `keys`.
fn insert_keys(keys: &mut HashSet<u32>, cells: &Vec<(u16, u16)>)
    ensures
        forall|c: (u16, u16)|
            final(keys)@.contains(#[trigger] cell_key(c)) <==> (old(keys)@.contains(cell_key(c))
                || cells@.contains(c)),
{
    let mut i: usize = 0;
    while i < cells.len()
        invariant
            i <= cells@.len(),
            forall|c: (u16, u16)|
                keys@.contains(#[trigger] cell_key(c)) <==> (old(keys)@.contains(cell_key(c))
                    || cells@.take(i as int).contains(c)),
        decreases cells@.len() - i,
    {
        keys.insert(key_of(cells[i]));
        proof {
            let shorter = cells@.take(i as int);
            let longer = cells@.take(i + 1);
            assert(longer == shorter.push(cells@[i as int]));
            assert forall|c: (u16, u16)|
                keys@.contains(#[trigger] cell_key(c)) <==> (old(keys)@.contains(cell_key(c))
                    || longer.contains(c)) by {
                if cell_key(c) == cell_key(cells@[i as int]) {
                    lemma_cell_key_injective(c, cells@[i as int]);
                    assert(longer[i as int] == c);
                }
                if shorter.contains(c) {
                    let j = choose|j: int| 0 <= j < shorter.len() && shorter[j] == c;
                    assert(longer[j] == c);
                }
                if longer.contains(c) && c != cells@[i as int] {
                    let j = choose|j: int| 0 <= j < longer.len() && longer[j] == c;
                    assert(shorter[j] == c);
                }
            }
        }
        i += 1;
    }
    assert(cells@.take(i as int) == cells@);
}

/// The board. It knows its size, the thickness of its border band and the
/// food lying on it; the snake is handed to it with every question.
pub struct Scene {
    width: u16,
    height: u16,
    border_width: u16,
    list_fruits: Vec<(u16, u16)>,
}

impl Scene {
    /// The number of columns, for contracts.
    pub closed spec fn spec_width(&self) -> u16 {
        self.width
    }

    /// The number of rows, for contracts.
    pub closed spec fn spec_height(&self) -> u16 {
        self.height
    }

    /// The thickness of the border band, for contracts.
    pub closed spec fn spec_border_width(&self) -> u16 {
        self.border_width
    }

    /// The food on the board, oldest first.
    pub closed spec fn fruits(&self) -> Seq<(u16, u16)> {
        self.list_fruits@
    }

    /// A cell is interior when it lies strictly inside the border band on
    /// all four sides.
    pub open spec fn is_interior(&self, c: (u16, u16)) -> bool {
        interior(self.width(), self.height(), self.border_width(), c)
    }

    /// A cell is drawn as border when it lies on the board and in its first
    /// column, in its first row, or within the border's thickness of its
    /// right or bottom edge.
    pub open spec fn on_border(&self, c: (u16, u16)) -> bool {
        &&& c.0 < self.width()
        &&& c.1 < self.height()
        &&& {
            ||| c.0 == 0
            ||| c.0 >= self.width() - self.border_width()
            ||| c.1 == 0
            ||| c.1 >= self.height() - self.border_width()
        }
    }

    /// A cell is free when it is interior and neither the snake nor a
    /// piece of food lies on it.
    pub open spec fn is_free(&self, snake: &Snake, c: (u16, u16)) -> bool {
        vacant(self.width(), self.height(), self.border_width(), snake@, self.fruits(), c)
    }

    /// Whether `after` is what spawning one piece of food on this board may
    /// turn the food list `before` into, with the snake where it is.
    pub open spec fn spawned(
        &self,
        snake: &Snake,
        before: Seq<(u16, u16)>,
        after: Seq<(u16, u16)>,
    ) -> bool {
        spawn_result(self.width(), self.height(), self.border_width(), snake@, before, after)
    }

    /// Whether both boards have the same size and border band.
    pub open spec fn same_board(&self, other: &Scene) -> bool {
        &&& self.width() == other.width()
        &&& self.height() == other.height()
        &&& self.border_width() == other.border_width()
    }

    /// The board is within the size limits, its border band leaves an
    /// interior, and its food lies on distinct interior cells.
    pub open spec fn wf(&self) -> bool {
        &&& 0 < self.width() <= MAX_WIDTH
        &&& 0 < self.height() <= MAX_HEIGHT
        &&& leaves_interior(self.width(), self.border_width())
        &&& leaves_interior(self.height(), self.border_width())
        &&& self.fruits().no_duplicates()
        &&& forall|i: int|
            0 <= i < self.fruits().len() ==> self.is_interior(#[trigger] self.fruits()[i])
    }

    /// A board without food. The requested size is cut down to
    /// `MAX_WIDTH` by `MAX_HEIGHT`; a board with a zero dimension, or whose
    /// border band leaves no interior cell, is refused.
    pub fn new(width: u16, height: u16, border_width: u16) -> (r: Result<Scene, ConfigError>)
        ensures
            match r {
                Ok(s) => {
                    &&& config_fault(width, height, border_width) is None
                    &&& s.wf()
                    &&& s.width() == clamped(width, MAX_WIDTH)
                    &&& s.height() == clamped(height, MAX_HEIGHT)
                    &&& s.border_width() == border_width
                    &&& s.fruits() == Seq::<(u16, u16)>::empty()
                },
                Err(e) => config_fault(width, height, border_width) == Some(e),
            },
    {
        if width == 0 || height == 0 {
            return Err(ConfigError::ZeroDimension);
        }
        let w = if width <= MAX_WIDTH {
            width
        } else {
            MAX_WIDTH
        };
        let h = if height <= MAX_HEIGHT {
            height
        } else {
            MAX_HEIGHT
        };
        if border_width >= w / 2 || border_width >= h / 2 {
            return Err(ConfigError::NoInterior);
        }
        Ok(Scene { width: w, height: h, border_width, list_fruits: Vec::new() })
    }

    /// The number of columns.
    #[verifier::when_used_as_spec(spec_width)]
    pub fn width(&self) -> (w: u16)
        ensures
            w == self.spec_width(),
    {
        self.width
    }

    /// The number of rows.
    #[verifier::when_used_as_spec(spec_height)]
    pub fn height(&self) -> (h: u16)
        ensures
            h == self.spec_height(),
    {
        self.height
    }

    /// The thickness of the border band.
    #[verifier::when_used_as_spec(spec_border_width)]
    pub fn border_width(&self) -> (b: u16)
        ensures
            b == self.spec_border_width(),
    {
        self.border_width
    }

    /// The food on the board, oldest first.
    pub fn list_fruits(&self) -> (cells: &Vec<(u16, u16)>)
        ensures
            cells@ == self.fruits(),
    {
        &self.list_fruits
    }

    /// The batch that erases the snake: the empty glyph on each of its cells,
    /// head first.
    pub fn clear_snake(&self, snake: &Snake) -> (batch: Vec<CellUpdate>)
        ensures
            batch@ == painted(snake@, GlyphKind::Empty),
    {
        paint(snake.segments(), GlyphKind::Empty)
    }

    /// The batch that draws the border: the border glyph on every border
    /// cell, once, row by row and each row from left to right.
    pub fn draw_border(&self) -> (batch: Vec<CellUpdate>)
        requires
            self.wf(),
        ensures
            forall|u: CellUpdate|
                batch@.contains(u) <==> (u.glyph == GlyphKind::Border && self.on_border(
                    (u.x, u.y),
                )),
            row_ordered(batch@),
    {
        let right: u16 = self.width - self.border_width;
        let bottom: u16 = self.height - self.border_width;
        let mut batch: Vec<CellUpdate> = Vec::new();
        let mut y: u16 = 0;
        while y < self.height
            invariant
                self.wf(),
                right == self.width() - self.border_width(),
                bottom == self.height() - self.border_width(),
                y <= self.height(),
                forall|u: CellUpdate|
                    batch@.contains(u) <==> (u.glyph == GlyphKind::Border && self.on_border(
                        (u.x, u.y),
                    ) && u.y < y),
                row_ordered(batch@),
            decreases self.height() - y,
        {
            let mut x: u16 = 0;
            while x < self.width
                invariant
                    self.wf(),
                    right == self.width() - self.border_width(),
                    bottom == self.height() - self.border_width(),
                    y < self.height(),
                    x <= self.width(),
                    forall|u: CellUpdate|
                        batch@.contains(u) <==> (u.glyph == GlyphKind::Border && self.on_border(
                            (u.x, u.y),
                        ) && (u.y < y || (u.y == y && u.x < x))),
                    row_ordered(batch@),
                decreases self.width() - x,
            {
                let ghost before = batch@;
                let here = CellUpdate { x, y, glyph: GlyphKind::Border };
                if (x == 0) || (x >= right) || (y == 0) || (y >= bottom) {
                    batch.push(here);
                    proof {
                        assert(batch@[before.len() as int] == here);
                        assert forall|i: int, j: int| 0 <= i < j < batch@.len() implies ({
                            let a = #[trigger] batch@[i];
                            let b = #[trigger] batch@[j];
                            a.y < b.y || (a.y == b.y && a.x < b.x)
                        }) by {
                            if j == before.len() {
                                assert(before.contains(before[i]));
                            } else {
                                assert(before[i] == batch@[i] && before[j] == batch@[j]);
                            }
                        }
                    }
                }
                proof {
                    assert forall|u: CellUpdate|
                        batch@.contains(u) <==> (u.glyph == GlyphKind::Border && self.on_border(
                            (u.x, u.y),
                        ) && (u.y < y || (u.y == y && u.x < x + 1))) by {
                        if before.contains(u) {
                            let i = choose|i: int| 0 <= i < before.len() && before[i] == u;
                            assert(batch@[i] == u);
                        }
                        if batch@.contains(u) && u != here {
                            let i = choose|i: int| 0 <= i < batch@.len() && batch@[i] == u;
                            assert(before[i] == u);
                        }
                    }
                }
                x += 1;
            }
            y += 1;
        }
        batch
    }

    /// The batch that draws the snake: the head glyph on its first cell,
    /// the body glyph on each of the others, head first.
    pub fn draw_snake(&self, snake: &Snake) -> (batch: Vec<CellUpdate>)
        ensures
            batch@ == snake_painted(snake@),
    {
        let cells = snake.segments();
        let mut batch: Vec<CellUpdate> = Vec::new();
        let mut i: usize = 0;
        while i < cells.len()
            invariant
                i <= cells@.len(),
                batch@ == snake_painted(cells@.take(i as int)),
            decreases cells@.len() - i,
        {
            let (x, y) = cells[i];
            let glyph = if i == 0 {
                GlyphKind::SnakeHead
            } else {
                GlyphKind::SnakeBody
            };
            batch.push(CellUpdate { x, y, glyph });
            assert(batch@ == snake_painted(cells@.take(i + 1)));
            i += 1;
        }
        assert(cells@.take(i as int) == cells@);
        batch
    }

    /// The batch that draws the food: the food glyph on each piece, oldest
    /// first.
    pub fn draw_fruit(&self) -> (batch: Vec<CellUpdate>)
        ensures
            batch@ == painted(self.fruits(), GlyphKind::Food),
    {
        paint(&self.list_fruits, GlyphKind::Food)
    }

    /// Whether the snake's head has entered the border band or left the
    /// board: true exactly when the head is not an interior cell.
    pub fn is_snake_out_of_bound(&self, snake: &Snake) -> (out: bool)
        requires
            self.wf(),
            snake.wf(),
        ensures
            out == !self.is_interior(snake.head()),
            out == {
                ||| snake.head().0 <= self.border_width()
                ||| snake.head().0 >= self.width() - self.border_width()
                ||| snake.head().1 <= self.border_width()
                ||| snake.head().1 >= self.height() - self.border_width()
            },
    {
        let (x, y) = snake.segments()[0];
        if (x <= self.border_width) || (x >= self.width - self.border_width) || (y
            <= self.border_width) || (y >= self.height - self.border_width) {
            return true;
        }
        false
    }

    /// The first cell of `v` that also occurs earlier in `v`, if there is
    /// one.
    pub fn find_duplicate_tuples(v: &Vec<(u16, u16)>) -> (r: Option<(u16, u16)>)
        ensures
            r is None <==> v@.no_duplicates(),
            r matches Some(c) ==> exists|i: int| is_first_repeat(v@, i) && v@[i] == c,
    {
        let mut seen: HashSet<u32> = HashSet::new();
        let mut i: usize = 0;
        while i < v.len()
            invariant
                i <= v@.len(),
                v@.take(i as int).no_duplicates(),
                forall|k: u32|
                    seen@.contains(k) <==> exists|j: int|
                        0 <= j < i && cell_key(#[trigger] v@[j]) == k,
            decreases v@.len() - i,
        {
            let c = v[i];
            let key = key_of(c);
            if seen.contains(&key) {
                proof {
                    let j = choose|j: int| 0 <= j < i && cell_key(#[trigger] v@[j]) == key;
                    lemma_cell_key_injective(v@[j], c);
                    assert(v@.take(i as int)[j] == c);
                    assert(is_first_repeat(v@, i as int));
                    assert(v@[j] == v@[i as int] && j != i);
                }
                return Some(c);
            }
            seen.insert(key);
            proof {
                let longer = v@.take(i + 1);
                assert forall|a: int, b: int|
                    0 <= a < longer.len() && 0 <= b < longer.len() && a != b implies longer[a]
                    != longer[b] by {
                    if a < i && b < i {
                        assert(v@.take(i as int)[a] != v@.take(i as int)[b]);
                    } else {
                        let other = if a < i { a } else { b };
                        if v@[other] == c {
                            assert(cell_key(v@[other]) == key);
                        }
                    }
                }
            }
            i += 1;
        }
        assert(v@.take(i as int) == v@);
        None
    }

    /// Every free cell, once, listed column by column and each column from
    /// top to bottom.
    pub fn free_cells(&self, snake: &Snake) -> (cells: Vec<(u16, u16)>)
        requires
            self.wf(),
        ensures
            forall|c: (u16, u16)| cells@.contains(c) <==> self.is_free(snake, c),
            column_ordered(cells@),
            cells@.no_duplicates(),
    {
        let mut taken: HashSet<u32> = HashSet::new();
        insert_keys(&mut taken, snake.segments());
        insert_keys(&mut taken, &self.list_fruits);
        let first: u16 = self.border_width + 1;
        let end_x: u16 = self.width - self.border_width;
        let end_y: u16 = self.height - self.border_width;
        let mut cells: Vec<(u16, u16)> = Vec::new();
        let mut x: u16 = first;
        while x < end_x
            invariant
                self.wf(),
                first == self.border_width() + 1,
                end_x == self.width() - self.border_width(),
                end_y == self.height() - self.border_width(),
                first <= x <= end_x,
                forall|c: (u16, u16)|
                    taken@.contains(#[trigger] cell_key(c)) <==> (snake@.contains(c)
                        || self.fruits().contains(c)),
                forall|c: (u16, u16)|
                    cells@.contains(c) <==> (self.is_free(snake, c) && c.0 < x),
                column_ordered(cells@),
            decreases end_x - x,
        {
            let mut y: u16 = first;
            while y < end_y
                invariant
                    self.wf(),
                    first == self.border_width() + 1,
                    end_x == self.width() - self.border_width(),
                    end_y == self.height() - self.border_width(),
                    first <= x < end_x,
                    first <= y <= end_y,
                    forall|c: (u16, u16)|
                        taken@.contains(#[trigger] cell_key(c)) <==> (snake@.contains(c)
                            || self.fruits().contains(c)),
                    forall|c: (u16, u16)|
                        cells@.contains(c) <==> (self.is_free(snake, c) && column_before(
                            c,
                            (x, y),
                        )),
                    column_ordered(cells@),
                decreases end_y - y,
            {
                let ghost before = cells@;
                let key = key_of((x, y));
                if !taken.contains(&key) {
                    cells.push((x, y));
                    proof {
                        assert(cells@[before.len() as int] == (x, y));
                        assert forall|i: int, j: int|
                            0 <= i < j < cells@.len() implies column_before(
                            #[trigger] cells@[i],
                            #[trigger] cells@[j],
                        ) by {
                            if j == before.len() {
                                assert(before.contains(before[i]));
                            } else {
                                assert(column_before(before[i], before[j]));
                            }
                        }
                    }
                }
                proof {
                    let next = (x, (y + 1) as u16);
                    assert forall|c: (u16, u16)|
                        cells@.contains(c) <==> (self.is_free(snake, c) && column_before(
                            c,
                            next,
                        )) by {
                        if before.contains(c) {
                            let i = choose|i: int| 0 <= i < before.len() && before[i] == c;
                            assert(cells@[i] == c);
                        }
                        if cells@.contains(c) && c != (x, y) {
                            let i = choose|i: int| 0 <= i < cells@.len() && cells@[i] == c;
                            assert(before[i] == c);
                        }
                    }
                }
                y += 1;
            }
            x += 1;
        }
        proof {
            assert forall|i: int, j: int|
                0 <= i < cells@.len() && 0 <= j < cells@.len() && i != j implies cells@[i]
                != cells@[j] by {
                if i < j {
                    assert(column_before(cells@[i], cells@[j]));
                } else {
                    assert(column_before(cells@[j], cells@[i]));
                }
            }
        }
        cells
    }

    /// Puts a piece of food on `cell` if the cell is free, and says whether
    /// it did. Food already on the board stays where it is.
    pub fn place_fruit(&mut self, snake: &Snake, cell: (u16, u16)) -> (placed: bool)
        requires
            old(self).wf(),
        ensures
            final(self).wf(),
            final(self).same_board(old(self)),
            placed == old(self).is_free(snake, cell),
            placed ==> final(self).fruits() == old(self).fruits().push(cell),
            !placed ==> final(self).fruits() == old(self).fruits(),
    {
        let (x, y) = cell;
        let inside = self.border_width < x && x < self.width - self.border_width
            && self.border_width < y && y < self.height - self.border_width;
        if !inside || contains_cell(snake.segments(), cell) || contains_cell(
            &self.list_fruits,
            cell,
        ) {
            return false;
        }
        self.list_fruits.push(cell);
        proof {
            let before = old(self).fruits();
            let after = self.fruits();
            assert forall|i: int, j: int|
                0 <= i < after.len() && 0 <= j < after.len() && i != j implies after[i]
                != after[j] by {
                if i < before.len() {
                    assert(before.contains(before[i]));
                }
                if j < before.len() {
                    assert(before.contains(before[j]));
                }
            }
        }
        true
    }

    /// One free cell picked by `rng`, each free cell being as likely as any
    /// other; nothing where no cell is free.
    pub fn generate_random_tuple(&self, snake: &Snake, rng: &mut StdRng) -> (picked: Option<
        (u16, u16),
    >)
        requires
            self.wf(),
        ensures
            picked is None <==> forall|c: (u16, u16)| !self.is_free(snake, c),
            picked matches Some(c) ==> self.is_free(snake, c),
    {
        let all_values = self.free_cells(snake);
        let picked = choose_cell(&all_values, rng);
        proof {
            if picked is None {
                assert forall|c: (u16, u16)| !self.is_free(snake, c) by {
                    assert(!all_values@.contains(c));
                }
            }
        }
        picked
    }

    /// Puts one piece of food on a free cell picked by `rng`, each free cell
    /// being as likely as any other. Without a free cell the board is left
    /// as it is.
    pub fn add_fruit_seeded(&mut self, snake: &Snake, rng: &mut StdRng)
        requires
            old(self).wf(),
        ensures
            final(self).wf(),
            final(self).same_board(old(self)),
            old(self).spawned(snake, old(self).fruits(), final(self).fruits()),
    {
        match self.generate_random_tuple(snake, rng) {
            Some(fruit) => {
                self.place_fruit(snake, fruit);
            },
            None => {
                assert forall|c: (u16, u16)| !#[trigger] vacant(
                    self.width(),
                    self.height(),
                    self.border_width(),
                    snake@,
                    self.fruits(),
                    c,
                ) by {
                    assert(!self.is_free(snake, c));
                }
            },
        }
    }

    /// Puts one piece of food on a free cell picked at random, each free
    /// cell being as likely as any other. Without a free cell the board is
    /// left as it is.
    pub fn add_fruit(&mut self, snake: &Snake)
        requires
            old(self).wf(),
        ensures
            final(self).wf(),
            final(self).same_board(old(self)),
            old(self).spawned(snake, old(self).fruits(), final(self).fruits()),
    {
        let mut rng = fresh_rng();
        self.add_fruit_seeded(snake, &mut rng);
    }

    /// Takes all food off the board.
    pub fn clear_fruits(&mut self)
        requires
            old(self).wf(),
        ensures
            final(self).wf(),
            final(self).same_board(old(self)),
            final(self).fruits() == Seq::<(u16, u16)>::empty(),
    {
        self.list_fruits.clear();
    }

    /// Takes the food on `fruit_to_remove` off the board, and says whether
    /// there was any.
    pub fn remove_fruit(&mut self, fruit_to_remove: &(u16, u16)) -> (removed: bool)
        requires
            old(self).wf(),
        ensures
            final(self).wf(),
            final(self).same_board(old(self)),
            removed == old(self).fruits().contains(*fruit_to_remove),
            !final(self).fruits().contains(*fruit_to_remove),
            removed ==> final(self).fruits() == old(self).fruits().remove(
                old(self).fruits().index_of(*fruit_to_remove),
            ),
            !removed ==> final(self).fruits() == old(self).fruits(),
    {
        let mut index: usize = 0;
        while index < self.list_fruits.len()
            invariant
                *self == *old(self),
                self.wf(),
                index <= self.list_fruits@.len(),
                !self.list_fruits@.take(index as int).contains(*fruit_to_remove),
            decreases self.list_fruits@.len() - index,
        {
            let (x, y) = self.list_fruits[index];
            if x == fruit_to_remove.0 && y == fruit_to_remove.1 {
                proof {
                    let before = old(self).fruits();
                    let at = before.index_of(*fruit_to_remove);
                    assert(before[index as int] == *fruit_to_remove);
                    assert(before.contains(*fruit_to_remove));
                    assert(at == index);
                }
                self.list_fruits.remove(index);
                proof {
                    let before = old(self).fruits();
                    let after = self.fruits();
                    assert forall|i: int| 0 <= i < after.len() implies after[i]
                        != *fruit_to_remove && self.is_interior(#[trigger] after[i]) by {
                        if i < index {
                            assert(after[i] == before[i]);
                        } else {
                            assert(after[i] == before[i + 1]);
                        }
                    }
                    assert forall|i: int, j: int|
                        0 <= i < after.len() && 0 <= j < after.len() && i != j implies after[i]
                        != after[j] by {
                        let oi = if i < index { i } else { i + 1 };
                        let oj = if j < index { j } else { j + 1 };
                        assert(after[i] == before[oi] && after[j] == before[oj]);
                    }
                }
                return true;
            }
            proof {
                let longer = self.list_fruits@.take(index + 1);
                assert forall|j: int| 0 <= j < longer.len() implies longer[j]
                    != *fruit_to_remove by {
                    if j < index {
                        assert(self.list_fruits@.take(index as int)[j] == longer[j]);
                    }
                }
            }
            index += 1;
        }
        assert(self.list_fruits@.take(index as int) == self.list_fruits@);
        false
    }

    /// If the snake's head is on a piece of food, takes that food off the
    /// board and says so; otherwise changes nothing.
    pub fn snake_ate_food(&mut self, snake: &Snake) -> (ate: bool)
        requires
            old(self).wf(),
            snake.wf(),
        ensures
            final(self).wf(),
            final(self).same_board(old(self)),
            ate == old(self).fruits().contains(snake.head()),
            !final(self).fruits().contains(snake.head()),
            ate ==> final(self).fruits() == old(self).fruits().remove(
                old(self).fruits().index_of(snake.head()),
            ),
            !ate ==> final(self).fruits() == old(self).fruits(),
    {
        let head = snake.segments()[0];
        self.remove_fruit(&head)
    }

    /// Whether two segments of the snake share a cell.
    pub fn is_snake_touch_himself(&self, snake: &Snake) -> (touching: bool)
        ensures
            touching == !snake@.no_duplicates(),
            touching == (snake@.to_set().len() < snake@.len()),
    {
        proof {
            if snake@.no_duplicates() {
                snake@.unique_seq_to_set();
            } else {
                snake@.lemma_cardinality_of_set();
                if snake@.to_set().len() == snake@.len() {
                    snake@.lemma_no_dup_set_cardinality();
                }
            }
        }
        match Scene::find_duplicate_tuples(snake.segments()) {
            Some(_) => true,
            None => false,
        }
    }
}

} // verus!
