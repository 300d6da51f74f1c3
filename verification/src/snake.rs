//! The snake: an ordered, never-empty list of grid cells (head first) and a
//! heading.

use vstd::prelude::*;

verus! {

/// One of the four headings on the grid. The origin is the top-left corner,
/// so `Up` decreases `y` and `Left` decreases `x`.
#[derive(Clone, Copy, Debug, PartialEq, Eq, Structural)]
pub enum Direction {
    Up,
    Down,
    Left,
    Right,
}

impl Direction {
    /// The heading that points the other way, for contracts.
    pub open spec fn spec_opposite(self) -> Direction {
        match self {
            Direction::Up => Direction::Down,
            Direction::Down => Direction::Up,
            Direction::Left => Direction::Right,
            Direction::Right => Direction::Left,
        }
    }

    /// The heading that points the other way.
    #[verifier::when_used_as_spec(spec_opposite)]
    pub fn opposite(self) -> (r: Direction)
        ensures
            r == self.spec_opposite(),
    {
        match self {
            Direction::Up => Direction::Down,
            Direction::Down => Direction::Up,
            Direction::Left => Direction::Right,
            Direction::Right => Direction::Left,
        }
    }
}

/// The cell one step from `c` in direction `d`. Moving up or left from
/// coordinate 0 stays at 0.
pub open spec fn neighbor(c: (u16, u16), d: Direction) -> (u16, u16) {
    match d {
        Direction::Up => (c.0, if c.1 > 0 { (c.1 - 1) as u16 } else { 0u16 }),
        Direction::Down => (c.0, (c.1 + 1) as u16),
        Direction::Left => (if c.0 > 0 { (c.0 - 1) as u16 } else { 0u16 }, c.1),
        Direction::Right => ((c.0 + 1) as u16, c.1),
    }
}

/// The body after one follow-the-leader shift: the head moves to `head`, each
/// later segment takes the place of the one before it, and with `grow` the
/// cell the tail just left is kept as a new last segment.
pub open spec fn shifted(body: Seq<(u16, u16)>, head: (u16, u16), grow: bool) -> Seq<(u16, u16)> {
    if grow {
        seq![head] + body
    } else {
        seq![head] + body.drop_last()
    }
}

/// How many segments one step adds: one with `grow`, none without.
pub open spec fn grown_by(grow: bool) -> int {
    if grow {
        1
    } else {
        0
    }
}

/// A shift keeps the body's length, and with `grow` makes it longer by
/// exactly one, for every body that has a head. The head ends up where it
/// was sent, and every other segment where the one before it was.
pub proof fn law_shift_length(body: Seq<(u16, u16)>, head: (u16, u16), grow: bool)
    requires
        body.len() >= 1,
    ensures
        shifted(body, head, grow).len() == body.len() + grown_by(grow),
        shifted(body, head, grow)[0] == head,
        forall|i: int|
            1 <= i < shifted(body, head, grow).len() ==> shifted(body, head, grow)[i] == body[i
                - 1],
{
}

/// The snake: its cells from head to tail, and where it is heading.
pub struct Snake {
    body: Vec<(u16, u16)>,
    direction: Direction,
}

impl View for Snake {
    type V = Seq<(u16, u16)>;

    /// The body cells, head first.
    closed spec fn view(&self) -> Seq<(u16, u16)> {
        self.body@
    }
}

impl Snake {
    /// The current heading, for contracts.
    pub closed spec fn spec_direction(&self) -> Direction {
        self.direction
    }

    /// A snake always has a head.
    pub open spec fn wf(&self) -> bool {
        self@.len() >= 1
    }

    /// The head cell.
    pub open spec fn head(&self) -> (u16, u16) {
        self@[0]
    }

    /// Whether one step in the current heading keeps the head's coordinates
    /// within `u16`. Steps up and left always do, since they stop at 0.
    pub open spec fn can_advance(&self) -> bool {
        &&& self.direction() == Direction::Right ==> self.head().0 < u16::MAX
        &&& self.direction() == Direction::Down ==> self.head().1 < u16::MAX
    }

    /// A snake of one segment at `(start_x, start_y)`.
    pub fn new(start_x: u16, start_y: u16, direction: Direction) -> (s: Snake)
        ensures
            s.wf(),
            s@ == seq![(start_x, start_y)],
            s.direction() == direction,
    {
        let mut body: Vec<(u16, u16)> = Vec::new();
        body.push((start_x, start_y));
        Snake { body, direction }
    }

    /// A copy of the body cells, head first.
    pub fn body(&self) -> (cells: Vec<(u16, u16)>)
        ensures
            cells@ == self@,
    {
        let mut cells: Vec<(u16, u16)> = Vec::new();
        let mut i: usize = 0;
        while i < self.body.len()
            invariant
                i <= self.body@.len(),
                cells@ == self.body@.take(i as int),
            decreases self.body@.len() - i,
        {
            cells.push(self.body[i]);
            assert(self.body@.take(i + 1) == self.body@.take(i as int).push(self.body@[i as int]));
            i += 1;
        }
        assert(self.body@.take(i as int) == self.body@);
        cells
    }

    /// The body cells, head first, without copying.
    pub fn segments(&self) -> (cells: &Vec<(u16, u16)>)
        ensures
            cells@ == self@,
    {
        &self.body
    }

    /// The current heading.
    #[verifier::when_used_as_spec(spec_direction)]
    pub fn direction(&self) -> (d: Direction)
        ensures
            d == self.spec_direction(),
    {
        self.direction
    }

    /// Moves the head to `new_head_pos` and lets every later segment follow
    /// the one before it. With `add_segment` the snake is one longer
    /// afterwards, its new tail on the cell the old tail just left; without
    /// it the length is unchanged.
    pub fn update_snake(&mut self, new_head_pos: (u16, u16), add_segment: bool)
        requires
            old(self).wf(),
        ensures
            final(self).wf(),
            final(self)@ == shifted(old(self)@, new_head_pos, add_segment),
            final(self)@.len() == old(self)@.len() + grown_by(add_segment),
            final(self).direction() == old(self).direction(),
    {
        let mut prev_pos = self.body[0];
        self.body[0] = new_head_pos;
        let n = self.body.len();
        let mut i: usize = 1;
        while i < n
            invariant
                1 <= i <= n,
                n == self.body@.len(),
                n == old(self).body@.len(),
                self.direction == old(self).direction,
                self.body@[0] == new_head_pos,
                forall|j: int| 1 <= j < i ==> self.body@[j] == old(self).body@[j - 1],
                forall|j: int| i <= j < n ==> self.body@[j] == old(self).body@[j],
                prev_pos == old(self).body@[i - 1],
            decreases n - i,
        {
            let current_pos = self.body[i];
            self.body[i] = prev_pos;
            prev_pos = current_pos;
            i += 1;
        }
        assert(self.body@ == shifted(old(self).body@, new_head_pos, false));
        if add_segment {
            self.add_segment_body(prev_pos);
            assert(self.body@ == shifted(old(self).body@, new_head_pos, true));
        }
    }

    /// Overwrites the heading. Whether a turn is allowed is the caller's
    /// business.
    pub fn update_direction(&mut self, direction: Direction)
        ensures
            final(self)@ == old(self)@,
            final(self).direction() == direction,
    {
        self.direction = direction
    }

    /// One step to the right: the head's `x` grows by one.
    pub fn move_right(&mut self, add_segment: bool)
        requires
            old(self).wf(),
            old(self).head().0 < u16::MAX,
        ensures
            final(self).wf(),
            final(self)@ == shifted(
                old(self)@,
                neighbor(old(self).head(), Direction::Right),
                add_segment,
            ),
            final(self)@.len() == old(self)@.len() + grown_by(add_segment),
            final(self).direction() == old(self).direction(),
    {
        let (x_head, y_head) = self.body[0];
        let new_head_pos = (x_head + 1, y_head);
        self.update_snake(new_head_pos, add_segment);
    }

    /// One step to the left: the head's `x` shrinks by one, or stays at 0.
    pub fn move_left(&mut self, add_segment: bool)
        requires
            old(self).wf(),
        ensures
            final(self).wf(),
            final(self)@ == shifted(
                old(self)@,
                neighbor(old(self).head(), Direction::Left),
                add_segment,
            ),
            final(self)@.len() == old(self)@.len() + grown_by(add_segment),
            final(self).direction() == old(self).direction(),
    {
        let (x_head, y_head) = self.body[0];
        let new_head_pos = if x_head > 0 {
            (x_head - 1, y_head)
        } else {
            (x_head, y_head)
        };
        self.update_snake(new_head_pos, add_segment);
    }

    /// One step up: the head's `y` shrinks by one, or stays at 0.
    pub fn move_up(&mut self, add_segment: bool)
        requires
            old(self).wf(),
        ensures
            final(self).wf(),
            final(self)@ == shifted(
                old(self)@,
                neighbor(old(self).head(), Direction::Up),
                add_segment,
            ),
            final(self)@.len() == old(self)@.len() + grown_by(add_segment),
            final(self).direction() == old(self).direction(),
    {
        let (x_head, y_head) = self.body[0];
        let new_head_pos = if y_head > 0 {
            (x_head, y_head - 1)
        } else {
            (x_head, y_head)
        };
        self.update_snake(new_head_pos, add_segment);
    }

    /// One step down: the head's `y` grows by one.
    pub fn move_down(&mut self, add_segment: bool)
        requires
            old(self).wf(),
            old(self).head().1 < u16::MAX,
        ensures
            final(self).wf(),
            final(self)@ == shifted(
                old(self)@,
                neighbor(old(self).head(), Direction::Down),
                add_segment,
            ),
            final(self)@.len() == old(self)@.len() + grown_by(add_segment),
            final(self).direction() == old(self).direction(),
    {
        let (x_head, y_head) = self.body[0];
        let new_head_pos = (x_head, y_head + 1);
        self.update_snake(new_head_pos, add_segment);
    }

    /// One step in the current heading. The body keeps its length, or is one
    /// longer with `add_segment`.
    pub fn move_snake(&mut self, add_segment: bool)
        requires
            old(self).wf(),
            old(self).can_advance(),
        ensures
            final(self).wf(),
            final(self)@ == shifted(
                old(self)@,
                neighbor(old(self).head(), old(self).direction()),
                add_segment,
            ),
            final(self)@.len() == old(self)@.len() + grown_by(add_segment),
            final(self).direction() == old(self).direction(),
    {
        match self.direction {
            Direction::Right => self.move_right(add_segment),
            Direction::Left => self.move_left(add_segment),
            Direction::Up => self.move_up(add_segment),
            Direction::Down => self.move_down(add_segment),
        }
    }

    /// Appends `pos` as the new last segment.
    pub fn add_segment_body(&mut self, pos: (u16, u16))
        ensures
            final(self)@ == old(self)@.push(pos),
            final(self).direction() == old(self).direction(),
    {
        self.body.push(pos);
    }
}

} // verus!
