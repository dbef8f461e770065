use crate::grid::{lemma_step_on_grid, step, step_cell, Direction};
use crate::snake::{spawn_body, GameError, Snake, SnakeCell};
use vstd::prelude::*;

verus! {

/// Length of the snake when a game starts.
pub const SPAWN_LENGTH: usize = 3;

/// The whole state of a game, as the host sees it.
pub struct WorldView {
    /// Side length of the square grid.
    pub width: nat,
    /// The snake's cells, head first.
    pub body: Seq<nat>,
    /// The snake's heading.
    pub heading: Direction,
    /// The cell holding the reward, or `None` while a new one is awaited.
    pub reward: Option<nat>,
    /// The next head cell buffered by a direction change since the last tick.
    pub pending: Option<nat>,
}

/// A game: the grid, the snake on it, and the reward it chases.
pub struct World {
    width: usize,
    size: usize,
    reward_cell: Option<usize>,
    snake: Snake,
    next_cell: Option<SnakeCell>,
}

/// The body after one tick that moves the head to `new_head`: every other cell
/// takes the place of the one before it, and on growth the old tail stays.
pub open spec fn moved_body(body: Seq<nat>, new_head: nat, grow: bool) -> Seq<nat> {
    if grow {
        seq![new_head] + body
    } else {
        seq![new_head] + body.drop_last()
    }
}

impl View for World {
    type V = WorldView;

    closed spec fn view(&self) -> WorldView {
        WorldView {
            width: self.width as nat,
            body: self.snake@,
            heading: self.snake.heading(),
            reward: match self.reward_cell {
                Some(r) => Some(r as nat),
                None => None,
            },
            pending: match self.next_cell {
                Some(c) => Some(c.0 as nat),
                None => None,
            },
        }
    }
}

impl WorldView {
    /// The cell the head moves to on the next tick, by the current heading.
    pub open spec fn next_head(self) -> int {
        step_cell(self.width as int, self.body[0] as int, self.heading)
    }

    /// A state that a game can be in between calls.
    pub open spec fn valid(self) -> bool {
        &&& 0 < self.width
        &&& self.width * self.width <= usize::MAX
        &&& self.body.len() >= SPAWN_LENGTH
        &&& forall|i: int| 0 <= i < self.body.len() ==> #[trigger] self.body[i] < self.width * self.width
        &&& self.pending matches Some(c) ==> c == self.next_head()
        &&& self.reward matches Some(r) ==> r < self.width * self.width && !self.body.contains(r)
    }

    /// The state after asking to turn to `direction`. The cell one step from
    /// the head that way is computed; if it is the cell just behind the head,
    /// the request would reverse the snake into itself and changes nothing.
    /// Otherwise the heading becomes `direction` and that cell is buffered as
    /// the next head.
    pub open spec fn turn(self, direction: Direction) -> WorldView {
        let target = step_cell(self.width as int, self.body[0] as int, direction);
        if target == self.body[1] {
            self
        } else {
            WorldView { heading: direction, pending: Some(target as nat), ..self }
        }
    }

    /// The head cell of the next tick: the buffered one if any, else one step
    /// by the heading.
    pub open spec fn tick_head(self) -> nat {
        match self.pending {
            Some(c) => c,
            None => self.next_head() as nat,
        }
    }

    /// The next tick moves the head onto the reward.
    pub open spec fn eats(self) -> bool {
        self.reward == Some(self.tick_head())
    }

    /// The state after one tick: the snake moves one cell, growing by one if
    /// it reaches the reward, which is then consumed; the buffer is cleared.
    pub open spec fn tick(self) -> WorldView {
        WorldView {
            body: moved_body(self.body, self.tick_head(), self.eats()),
            reward: if self.eats() {
                None
            } else {
                self.reward
            },
            pending: None,
            ..self
        }
    }

    /// `cell` can hold the reward: it lies on the grid and the snake is not on it.
    pub open spec fn free_cell(self, cell: int) -> bool {
        0 <= cell < self.width * self.width && !self.body.contains(cell as nat)
    }
}

/// A request that would send the head into the cell just behind it leaves
/// the heading and the buffered cell as they were.
pub proof fn lemma_reversal_ignored(v: WorldView, direction: Direction)
    requires
        v.valid(),
        v.body[1] == step_cell(v.width as int, v.body[0] as int, direction),
    ensures
        v.turn(direction).heading == v.heading,
        v.turn(direction).pending == v.pending,
{
}

/// A tick keeps a valid state valid: every cell stays on the grid and a
/// reward left in place stays off the body.
pub proof fn lemma_tick_valid(v: WorldView)
    requires
        v.valid(),
    ensures
        v.tick().valid(),
{
    lemma_step_on_grid(v.width as int, v.body[0] as int, v.heading);
    let body = v.tick().body;
    assert(body[0] == v.tick_head());
    assert forall|i: int| 0 <= i < body.len() implies #[trigger] body[i] < v.width * v.width by {
        if i > 0 {
            assert(body[i] == v.body[i - 1]);
        }
    }
    if let Some(r) = v.tick().reward {
        assert(!body.contains(r)) by {
            if body.contains(r) {
                let i = choose|i: int| 0 <= i < body.len() && body[i] == r;
                assert(v.body[i - 1] == r);
            }
        }
    }
}

/// A tick that reaches the reward lengthens the body by one cell and keeps
/// the old tail as the last cell; once a free cell is accepted as the new
/// reward, the state is valid again, so the reward lies off the body.
pub proof fn lemma_growth(v: WorldView, cell: int)
    requires
        v.valid(),
        v.eats(),
        v.tick().free_cell(cell),
    ensures
        v.tick().body.len() == v.body.len() + 1,
        v.tick().body.last() == v.body.last(),
        (WorldView { reward: Some(cell as nat), ..v.tick() }).valid(),
{
    lemma_tick_valid(v);
}

/// A tick that misses the reward keeps the body's length, and every cell
/// but the head takes the place of the one before it.
pub proof fn lemma_shift(v: WorldView)
    requires
        v.valid(),
        !v.eats(),
    ensures
        v.tick().body.len() == v.body.len(),
        forall|i: int| 1 <= i < v.body.len() ==> #[trigger] v.tick().body[i] == v.body[i - 1],
{
}

impl World {
    /// The fields agree with the view and the view is valid.
    pub closed spec fn wf(&self) -> bool {
        &&& self@.valid()
        &&& self.size == self.width * self.width
    }

    /// A game on a grid of side `width`, with a snake of three cells whose
    /// head is at `spawn_index` and whose body trails to the left, heading
    /// right. No reward is placed yet: see `offer_reward_cell`.
    pub fn new(width: usize, spawn_index: usize) -> (r: Result<World, GameError>)
        requires
            width * width <= usize::MAX,
            spawn_index < width * width,
        ensures
            match r {
                Ok(w) => {
                    &&& spawn_index >= SPAWN_LENGTH - 1
                    &&& w.wf()
                    &&& w@.width == width
                    &&& w@.body == spawn_body(spawn_index as nat, SPAWN_LENGTH as nat)
                    &&& w@.heading == Direction::Right
                    &&& w@.reward == None::<nat>
                    &&& w@.pending == None::<nat>
                },
                Err(e) => spawn_index < SPAWN_LENGTH - 1 && e == GameError::InvalidSpawn,
            },
    {
        proof {
            assert(0 < width) by (nonlinear_arith)
                requires
                    spawn_index < width * width,
            ;
        }
        let snake = match Snake::new(spawn_index, SPAWN_LENGTH) {
            Ok(s) => s,
            Err(e) => return Err(e),
        };
        let w = World { width, size: width * width, reward_cell: None, snake, next_cell: None };
        assert forall|i: int| 0 <= i < w@.body.len() implies #[trigger] w@.body[i] < width * width by {
            assert(w@.body[i] == spawn_index - i);
        }
        Ok(w)
    }

    /// Side length of the grid.
    pub fn width(&self) -> (r: usize)
        ensures
            r == self@.width,
    {
        self.width
    }

    /// Number of cells on the grid.
    pub fn size(&self) -> (r: usize)
        requires
            self.wf(),
        ensures
            r == self@.width * self@.width,
    {
        self.size
    }

    /// The cell of the snake's head.
    pub fn snake_head_index(&self) -> (r: usize)
        requires
            self.wf(),
        ensures
            r == self@.body[0],
    {
        self.snake.cell(0)
    }

    /// Number of cells in the snake's body.
    pub fn snake_length(&self) -> (r: usize)
        ensures
            r == self@.body.len(),
    {
        self.snake.len()
    }

    /// The snake's cells, head first.
    pub fn snake_cells(&self) -> (r: &[SnakeCell])
        ensures
            r@.len() == self@.body.len(),
            forall|i: int| 0 <= i < r@.len() ==> r@[i].0 == #[trigger] self@.body[i],
    {
        self.snake.body()
    }

    /// The snake's heading.
    pub fn snake_direction(&self) -> (r: Direction)
        ensures
            r == self@.heading,
    {
        self.snake.direction()
    }

    /// The cell holding the reward, or `None` while a new one is awaited.
    pub fn reward_cell(&self) -> (r: Option<usize>)
        ensures
            r matches Some(c) ==> self@.reward == Some(c as nat),
            r is None ==> self@.reward is None,
    {
        self.reward_cell
    }

    /// The next head cell buffered by a direction change, if any.
    pub fn next_cell(&self) -> (r: Option<usize>)
        ensures
            r matches Some(c) ==> self@.pending == Some(c as nat),
            r is None ==> self@.pending is None,
    {
        match self.next_cell {
            Some(c) => Some(c.0),
            None => None,
        }
    }

    /// Asks the snake to turn to `direction`. A request that would reverse the
    /// snake into the cell just behind its head is ignored; any other one
    /// takes effect on the next tick.
    pub fn change_snake_direction(&mut self, direction: Direction)
        requires
            old(self).wf(),
        ensures
            final(self).wf(),
            final(self)@ == old(self)@.turn(direction),
    {
        let next_cell = self.gen_next_snake_cell(direction);
        if self.snake.cell(1) == next_cell {
            return;
        }
        self.next_cell = Some(SnakeCell(next_cell));
        self.snake.set_direction(direction);
    }

    /// Advances the game by one tick and tells whether the snake ate the
    /// reward. After a meal no reward is placed until `offer_reward_cell`
    /// accepts a cell.
    pub fn update(&mut self) -> (ate: bool)
        requires
            old(self).wf(),
        ensures
            final(self).wf(),
            final(self)@ == old(self)@.tick(),
            ate == old(self)@.eats(),
    {
        let new_head = match self.next_cell {
            Some(c) => c.0,
            None => self.gen_next_snake_cell(self.snake.direction()),
        };
        self.next_cell = None;
        let ate = match self.reward_cell {
            Some(r) => r == new_head,
            None => false,
        };
        self.snake.advance(new_head, ate);
        if ate {
            self.reward_cell = None;
        }
        proof {
            lemma_tick_valid(old(self)@);
        }
        ate
    }

    /// Offers `candidate` as the new reward cell. It is taken if it lies on
    /// the grid and the snake does not cover it; otherwise nothing changes and
    /// the host draws another. Drawing uniformly among the grid's cells ends
    /// as long as the snake leaves some cell free.
    pub fn offer_reward_cell(&mut self, candidate: usize) -> (placed: bool)
        requires
            old(self).wf(),
        ensures
            final(self).wf(),
            placed == old(self)@.free_cell(candidate as int),
            final(self)@ == if placed {
                WorldView { reward: Some(candidate as nat), ..old(self)@ }
            } else {
                old(self)@
            },
    {
        if candidate >= self.size || self.snake.contains(candidate) {
            return false;
        }
        self.reward_cell = Some(candidate);
        true
    }

    /// The cell the head would move to in `direction`.
    fn gen_next_snake_cell(&self, direction: Direction) -> (r: usize)
        requires
            self.wf(),
        ensures
            r == step_cell(self@.width as int, self@.body[0] as int, direction),
            r < self@.width * self@.width,
    {
        step(self.width, self.snake.cell(0), direction)
    }
}

} // verus!
