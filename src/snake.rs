use crate::grid::Direction;
use vstd::prelude::*;

verus! {

/// A grid cell occupied by the snake, as its index on the grid.
#[derive(Clone, Copy, Debug, PartialEq, Eq, Structural)]
pub struct SnakeCell(pub usize);

/// The only way building a game can fail.
#[derive(Clone, Copy, Debug, PartialEq, Eq, Structural)]
pub enum GameError {
    /// The spawn cell is too close to cell 0 for the body to trail behind it.
    InvalidSpawn,
}

/// An ordered body of cells, head first, and the current heading.
pub struct Snake {
    body: Vec<SnakeCell>,
    direction: Direction,
}

/// The body a snake of `length` cells spawns with: `spawn`, `spawn - 1`, ...
pub open spec fn spawn_body(spawn: nat, length: nat) -> Seq<nat> {
    Seq::new(length, |i: int| (spawn - i) as nat)
}

impl View for Snake {
    type V = Seq<nat>;

    /// The body's cell indices, head first.
    closed spec fn view(&self) -> Seq<nat> {
        self.body@.map_values(|c: SnakeCell| c.0 as nat)
    }
}

impl Snake {
    /// The direction the snake travels in.
    pub closed spec fn heading(&self) -> Direction {
        self.direction
    }

    /// A snake of `length` cells whose head is at `spawn_index` and whose
    /// body trails to the left of it, heading right.
    pub fn new(spawn_index: usize, length: usize) -> (r: Result<Snake, GameError>)
        requires
            length >= 1,
        ensures
            match r {
                Ok(s) => {
                    &&& spawn_index + 1 >= length
                    &&& s@ == spawn_body(spawn_index as nat, length as nat)
                    &&& s.heading() == Direction::Right
                },
                Err(e) => spawn_index + 1 < length && e == GameError::InvalidSpawn,
            },
    {
        if spawn_index < length - 1 {
            return Err(GameError::InvalidSpawn);
        }
        let mut body: Vec<SnakeCell> = Vec::new();
        let mut i: usize = 0;
        while i < length
            invariant
                i <= length,
                length - 1 <= spawn_index,
                body@.len() == i,
                forall|j: int| 0 <= j < i ==> #[trigger] body@[j].0 == spawn_index - j,
            decreases length - i,
        {
            body.push(SnakeCell(spawn_index - i));
            i += 1;
        }
        let s = Snake { body, direction: Direction::Right };
        assert(s@ =~= spawn_body(spawn_index as nat, length as nat));
        Ok(s)
    }

    /// The cells of the body, head first.
    pub fn body(&self) -> (r: &[SnakeCell])
        ensures
            r@.len() == self@.len(),
            forall|i: int| 0 <= i < r@.len() ==> r@[i].0 == #[trigger] self@[i],
    {
        self.body.as_slice()
    }

    /// The direction the snake travels in.
    pub fn direction(&self) -> (r: Direction)
        ensures
            r == self.heading(),
    {
        self.direction
    }

    /// The number of cells in the body.
    pub fn len(&self) -> (r: usize)
        ensures
            r == self@.len(),
    {
        self.body.len()
    }

    /// The cell at position `i` of the body, counting from the head.
    pub fn cell(&self, i: usize) -> (r: usize)
        requires
            i < self@.len(),
        ensures
            r == self@[i as int],
    {
        self.body[i].0
    }

    /// Whether the body covers `cell`.
    pub fn contains(&self, cell: usize) -> (r: bool)
        ensures
            r == self@.contains(cell as nat),
    {
        let mut i: usize = 0;
        while i < self.body.len()
            invariant
                i <= self@.len(),
                self@.len() == self.body@.len(),
                forall|j: int| 0 <= j < i ==> self@[j] != cell,
            decreases self@.len() - i,
        {
            if self.body[i].0 == cell {
                assert(self@[i as int] == cell);
                return true;
            }
            i += 1;
        }
        false
    }

    /// Turns the snake to `direction`; the body stays where it is.
    pub fn set_direction(&mut self, direction: Direction)
        ensures
            final(self)@ == old(self)@,
            final(self).heading() == direction,
    {
        self.direction = direction;
    }

    /// Moves the head to `new_head`, each other cell taking the place of the
    /// one before it. When `grow` holds, the old tail cell stays as a new last
    /// cell, so the body is one cell longer.
    pub fn advance(&mut self, new_head: usize, grow: bool)
        requires
            old(self)@.len() >= 1,
        ensures
            final(self)@ == if grow {
                seq![new_head as nat] + old(self)@
            } else {
                seq![new_head as nat] + old(self)@.drop_last()
            },
            final(self).heading() == old(self).heading(),
    {
        self.body.insert(0, SnakeCell(new_head));
        if !grow {
            self.body.pop();
        }
        assert(self@ =~= if grow {
            seq![new_head as nat] + old(self)@
        } else {
            seq![new_head as nat] + old(self)@.drop_last()
        });
    }
}

} // verus!
