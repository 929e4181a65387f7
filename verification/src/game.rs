//! The snake game as an environment: the board, the rules of a step, and
//! what the snake sees, all in whole numbers.

use crate::food::Food;
use crate::rng::{lcg_step, range_of, LcgRng};
use crate::snake::{Dir, Snake, SnakeView};
use vstd::prelude::*;

verus! {

/// The longest side that a board may have, so that every coordinate and
/// every distance on it can be stored.
pub const MAX_SIDE: usize = 0x3fff_ffff;

/// How far from the origin the head may go, so that one more step and
/// every distance from it to the board can be stored.
pub const HEAD_LIMIT: i32 = 0x4000_0000;

/// Number of steps without food after which an episode ends.
pub const HUNGER_LIMIT: u32 = 200;

/// Number of cells drawn at most when new food is placed.
pub const RESPAWN_TRIES: u32 = 4096;

/// Seed of the generator that places the food.
pub const FOOD_SEED: u64 = 0xC0FFEE;

/// Number of entries of an observation: five rays with three distances
/// each, the direction of the food by two, then length and hunger.
pub const OBSERVATION_DIM: usize = 19;

/// What a step of the environment came to.
#[derive(Clone, Copy, Debug, PartialEq, Eq, Structural)]
pub enum StepEvent {
    /// The head left the board.
    HitWall,
    /// The head ran into the body.
    HitSelf,
    /// The head reached the food.
    Ate,
    /// The snake went the last step that it may go without food.
    Starved,
    /// None of these.
    Moved,
}

/// The result of a step of the environment.
#[derive(Clone, Copy, Debug, PartialEq, Eq, Structural)]
pub struct StepOutcome {
    pub event: StepEvent,
    /// By how much the step brought the head nearer to the food, limited to
    /// -1, 0 or 1; 0 where the step hit something.
    pub progress: i32,
    /// The reward of the step, as the bit pattern of a single-precision
    /// value.
    pub reward: u32,
    /// Whether the episode is over.
    pub done: bool,
}

/// The reward of a step as a bit pattern: `-1` where the step hit
/// something; else `-0.01` for the step, plus `0.01` for a step towards
/// the food or minus `0.01` for a step away from it, plus `1` for eating,
/// minus `0.2` for starving, summed in this order in single precision.
pub open spec fn reward_of(event: StepEvent, progress: int) -> u32 {
    match event {
        StepEvent::HitWall | StepEvent::HitSelf => 0xbf80_0000,
        StepEvent::Moved => if progress > 0 {
            0x0000_0000
        } else if progress < 0 {
            0xbca3_d70a
        } else {
            0xbc23_d70a
        },
        StepEvent::Ate => if progress > 0 {
            0x3f80_0000
        } else if progress < 0 {
            0x3f7a_e148
        } else {
            0x3f7d_70a4
        },
        StepEvent::Starved => if progress > 0 {
            0xbe4c_cccd
        } else if progress < 0 {
            0xbe61_47ae
        } else {
            0xbe57_0a3e
        },
    }
}

/// What a step came to, with its reward.
pub open spec fn outcome_of(event: StepEvent, progress: int) -> StepOutcome {
    StepOutcome {
        event,
        progress: progress as i32,
        reward: reward_of(event, progress),
        done: event == StepEvent::HitWall || event == StepEvent::HitSelf || event
            == StepEvent::Starved,
    }
}

/// The reward of a step.
pub fn reward(event: StepEvent, progress: i32) -> (r: u32)
    ensures
        r == reward_of(event, progress as int),
{
    match event {
        StepEvent::HitWall => 0xbf80_0000,
        StepEvent::HitSelf => 0xbf80_0000,
        StepEvent::Moved => {
            if progress > 0 {
                0x0000_0000
            } else if progress < 0 {
                0xbca3_d70a
            } else {
                0xbc23_d70a
            }
        },
        StepEvent::Ate => {
            if progress > 0 {
                0x3f80_0000
            } else if progress < 0 {
                0x3f7a_e148
            } else {
                0x3f7d_70a4
            }
        },
        StepEvent::Starved => {
            if progress > 0 {
                0xbe4c_cccd
            } else if progress < 0 {
                0xbe61_47ae
            } else {
                0xbe57_0a3e
            }
        },
    }
}

/// What a step came to, with its reward.
pub fn outcome(event: StepEvent, progress: i32) -> (r: StepOutcome)
    ensures
        r == outcome_of(event, progress as int),
{
    let done: bool = match event {
        StepEvent::HitWall => true,
        StepEvent::HitSelf => true,
        StepEvent::Starved => true,
        _ => false,
    };
    StepOutcome { event, progress, reward: reward(event, progress), done }
}

/// The magnitude of `d`.
pub open spec fn abs(d: int) -> int {
    if d < 0 {
        -d
    } else {
        d
    }
}

/// `d` limited to `[-1, 1]`.
pub open spec fn unit_clamped(d: int) -> int {
    if d > 1 {
        1
    } else if d < -1 {
        -1
    } else {
        d
    }
}

/// One of the five directions in which the snake looks, in its own frame
/// as `(right, ahead)`: left, left and ahead, ahead, right and ahead, right.
pub open spec fn local_ray(i: int) -> (int, int) {
    if i == 0 {
        (-1, 0)
    } else if i == 1 {
        (-1, 1)
    } else if i == 2 {
        (0, 1)
    } else if i == 3 {
        (1, 1)
    } else {
        (1, 0)
    }
}

/// The vector `v` of the snake's frame in the frame of the board, for a
/// snake heading `d`.
pub open spec fn rotated(v: (int, int), d: Dir) -> (int, int) {
    match d {
        Dir::Up => (v.0, -v.1),
        Dir::Down => (-v.0, v.1),
        Dir::Left => (-v.1, -v.0),
        Dir::Right => (v.1, v.0),
    }
}

/// What the snake sees along one ray, as numbers of steps from the head.
#[derive(Clone, Copy, Debug, PartialEq, Eq)]
pub struct Ray {
    /// To the first cell off the board.
    pub wall: usize,
    /// To the nearest cell of the body before the wall, if there is one.
    pub body: Option<usize>,
    /// To the food, if it lies on the ray before the wall.
    pub food: Option<usize>,
}

/// What the snake sees: the whole numbers from which an observation vector
/// is made.
#[derive(Debug)]
pub struct Observation {
    /// The five rays, from left to right.
    pub rays: Vec<Ray>,
    /// The vector from head to food, turned by the heading.
    pub food_side: i32,
    pub food_ahead: i32,
    /// Number of cells of the snake.
    pub length: usize,
    pub width: usize,
    pub height: usize,
    /// Steps since the snake last ate, and the number at which it starves.
    pub hunger: u32,
    pub hunger_limit: u32,
}

/// What a game holds.
pub struct GameView {
    pub w: nat,
    pub h: nat,
    pub snake: SnakeView,
    pub food: (nat, nat),
    pub pending_dir: Dir,
    pub done: bool,
    pub rng: u64,
    pub steps_since_food: nat,
    pub hunger_limit: nat,
    pub last_manhattan: int,
}

impl GameView {
    pub open spec fn in_bounds(self, x: int, y: int) -> bool {
        0 <= x < self.w && 0 <= y < self.h
    }

    /// The head is on the board.
    pub open spec fn on_board(self) -> bool {
        self.in_bounds(self.snake.head().0 as int, self.snake.head().1 as int)
    }

    /// The head is on the cell of the food.
    pub open spec fn on_food(self) -> bool {
        self.snake.head().0 == self.food.0 && self.snake.head().1 == self.food.1
    }

    /// Distance from head to food, in steps along the axes.
    pub open spec fn manhattan(self) -> int {
        abs(self.food.0 - self.snake.head().0) + abs(self.food.1 - self.snake.head().1)
    }

    /// The cell `k` steps from the head along `d`.
    pub open spec fn ray_cell(self, d: (int, int), k: int) -> (int, int) {
        (self.snake.head().0 + k * d.0, self.snake.head().1 + k * d.1)
    }

    /// After `k` steps along `d` the ray is still on the board.
    pub open spec fn ray_inside(self, d: (int, int), k: int) -> bool {
        self.in_bounds(self.ray_cell(d, k).0, self.ray_cell(d, k).1)
    }

    /// After `k` steps along `d` the ray is on a cell of the snake.
    pub open spec fn ray_on_body(self, d: (int, int), k: int) -> bool {
        self.snake.occupies(self.ray_cell(d, k).0, self.ray_cell(d, k).1)
    }

    /// After `k` steps along `d` the ray is on the cell of the food.
    pub open spec fn ray_on_food(self, d: (int, int), k: int) -> bool {
        self.ray_cell(d, k).0 == self.food.0 && self.ray_cell(d, k).1 == self.food.1
    }

    /// `r` is what is seen along `d`: the wall at the first step off the
    /// board, body and food at their first step before the wall.
    pub open spec fn sees(self, d: (int, int), r: Ray) -> bool {
        &&& r.wall >= 1
        &&& !self.ray_inside(d, r.wall as int)
        &&& forall|k: int| 1 <= k < r.wall ==> #[trigger] self.ray_inside(d, k)
        &&& match r.body {
            Some(s) => 1 <= s < r.wall && self.ray_on_body(d, s as int) && forall|k: int|
                1 <= k < s ==> !#[trigger] self.ray_on_body(d, k),
            None => forall|k: int| 1 <= k < r.wall ==> !#[trigger] self.ray_on_body(d, k),
        }
        &&& match r.food {
            Some(s) => 1 <= s < r.wall && self.ray_on_food(d, s as int) && forall|k: int|
                1 <= k < s ==> !#[trigger] self.ray_on_food(d, k),
            None => forall|k: int| 1 <= k < r.wall ==> !#[trigger] self.ray_on_food(d, k),
        }
    }

    /// The vector from head to food, turned by the heading.
    pub open spec fn food_vector(self) -> (int, int) {
        rotated(
            (self.food.0 - self.snake.head().0, self.food.1 - self.snake.head().1),
            self.snake.dir,
        )
    }

    /// `o` is what the snake sees.
    pub open spec fn observed(self, o: Observation) -> bool {
        &&& o.rays@.len() == 5
        &&& forall|i: int|
            0 <= i < 5 ==> self.sees(rotated(local_ray(i), self.snake.dir), #[trigger] o.rays@[i])
        &&& o.food_side == self.food_vector().0
        &&& o.food_ahead == self.food_vector().1
        &&& o.length == self.snake.body.len()
        &&& o.width == self.w
        &&& o.height == self.h
        &&& o.hunger == self.steps_since_food
        &&& o.hunger_limit == self.hunger_limit
    }

    pub open spec fn wf(self) -> bool {
        &&& 1 <= self.w <= MAX_SIDE
        &&& 1 <= self.h <= MAX_SIDE
        &&& self.snake.body.len() >= 1
        &&& -HEAD_LIMIT <= self.snake.head().0 <= HEAD_LIMIT
        &&& -HEAD_LIMIT <= self.snake.head().1 <= HEAD_LIMIT
        &&& self.snake.grow <= 1
        &&& self.food.0 < self.w
        &&& self.food.1 < self.h
        &&& self.steps_since_food <= u32::MAX
        &&& self.hunger_limit <= u32::MAX
        &&& 0 <= self.last_manhattan <= self.w + self.h + 2
    }

    /// The head is on the board or one step off it.
    pub open spec fn near_board(self) -> bool {
        &&& -1 <= self.snake.head().0 <= self.w
        &&& -1 <= self.snake.head().1 <= self.h
    }

    /// The snake can move: wherever the head goes next can be stored.
    pub open spec fn can_move(self) -> bool {
        &&& -HEAD_LIMIT < self.snake.head().0 < HEAD_LIMIT
        &&& -HEAD_LIMIT < self.snake.head().1 < HEAD_LIMIT
    }

    /// It can take a step in the environment: the snake can move and the
    /// count of hungry steps can still grow.
    pub open spec fn can_step(self) -> bool {
        self.can_move() && self.steps_since_food < u32::MAX
    }

    /// The game after new food was placed: the first of at most `tries`
    /// cells drawn that is free of the snake, each cell drawn as a column
    /// and then a row; the food stays where no draw finds a free cell.
    pub open spec fn respawned(self, tries: nat) -> GameView
        decreases tries,
    {
        if tries == 0 {
            self
        } else {
            let s1 = lcg_step(self.rng);
            let s2 = lcg_step(s1);
            let x = range_of(s1, self.w as u32);
            let y = range_of(s2, self.h as u32);
            if self.snake.occupies(x as int, y as int) {
                (GameView { rng: s2, ..self }).respawned((tries - 1) as nat)
            } else {
                GameView { rng: s2, food: (x as nat, y as nat), ..self }
            }
        }
    }

    /// The snake at the start of an episode.
    pub open spec fn first_snake(w: nat, h: nat) -> SnakeView {
        let cx = (w / 2) as i32;
        let cy = (h / 2) as i32;
        SnakeView {
            body: seq![((cx - 1) as i32, cy), (cx, cy), ((cx + 1) as i32, cy)],
            dir: Dir::Right,
            grow: 0,
        }
    }

    /// With the distance to the food taken down.
    pub open spec fn measured(self) -> GameView {
        GameView { last_manhattan: self.manhattan(), ..self }
    }

    /// A new game on a `w` by `h` board.
    pub open spec fn started(w: nat, h: nat) -> GameView {
        (GameView {
            w,
            h,
            snake: Self::first_snake(w, h),
            food: (0, 0),
            pending_dir: Dir::Right,
            done: false,
            rng: FOOD_SEED,
            steps_since_food: 0,
            hunger_limit: HUNGER_LIMIT as nat,
            last_manhattan: 0,
        }).respawned(RESPAWN_TRIES as nat).measured()
    }

    /// The game set back to the start of an episode; the generator goes on
    /// from where it is.
    pub open spec fn reset(self) -> GameView {
        (GameView {
            snake: Self::first_snake(self.w, self.h),
            pending_dir: Dir::Right,
            done: false,
            steps_since_food: 0,
            ..self
        }).respawned(RESPAWN_TRIES as nat).measured()
    }

    /// With the snake turned to `d`, unless that reverses it, and moved one
    /// step.
    pub open spec fn moved(self, d: Dir) -> GameView {
        GameView { snake: self.snake.turned(d).advanced(), ..self }
    }

    /// With the snake fed and new food placed.
    pub open spec fn fed(self) -> GameView {
        (GameView {
            snake: SnakeView { grow: self.snake.grow + 1, ..self.snake },
            ..self
        }).respawned(RESPAWN_TRIES as nat)
    }

    /// The game after one step of manual play.
    pub open spec fn step(self) -> GameView {
        if self.done {
            self
        } else {
            let m = self.moved(self.pending_dir);
            if !m.on_board() || m.snake.self_collision() {
                GameView { done: true, ..m }
            } else if m.on_food() {
                m.fed()
            } else {
                m
            }
        }
    }

    /// The game after one step of the environment with a relative action,
    /// and what the step came to.
    pub open spec fn step_ai(self, action: u8) -> (GameView, StepOutcome) {
        let m = self.moved(self.snake.dir.relative_spec(action));
        if !m.on_board() {
            (m, outcome_of(StepEvent::HitWall, 0))
        } else if m.snake.self_collision() {
            (m, outcome_of(StepEvent::HitSelf, 0))
        } else {
            let progress = unit_clamped(self.last_manhattan - m.manhattan());
            let n = m.measured();
            if n.on_food() {
                (GameView { steps_since_food: 0, ..n.fed() }, outcome_of(StepEvent::Ate, progress))
            } else {
                let k = GameView { steps_since_food: n.steps_since_food + 1, ..n };
                if k.steps_since_food >= k.hunger_limit {
                    (k, outcome_of(StepEvent::Starved, progress))
                } else {
                    (k, outcome_of(StepEvent::Moved, progress))
                }
            }
        }
    }
}

/// Placing food keeps a game well-formed and changes only the food and the
/// generator.
pub proof fn respawn_keeps(g: GameView, tries: nat)
    requires
        g.wf(),
    ensures
        g.respawned(tries).wf(),
        g.respawned(tries) == (GameView {
            food: g.respawned(tries).food,
            rng: g.respawned(tries).rng,
            ..g
        }),
    decreases tries,
{
    if tries > 0 {
        let s1 = lcg_step(g.rng);
        let s2 = lcg_step(s1);
        let x = range_of(s1, g.w as u32);
        let y = range_of(s2, g.h as u32);
        assert(x < g.w) by {
            vstd::arithmetic::div_mod::lemma_mod_bound((s1 as nat % 0x1_0000_0000) as int, g.w as int);
        }
        assert(y < g.h) by {
            vstd::arithmetic::div_mod::lemma_mod_bound((s2 as nat % 0x1_0000_0000) as int, g.h as int);
        }
        if g.snake.occupies(x as int, y as int) {
            respawn_keeps(GameView { rng: s2, ..g }, (tries - 1) as nat);
        }
    }
}

/// New food lies on the board and off the snake, unless no draw found a
/// free cell and the food stayed where it was.
pub proof fn respawned_food_is_free(g: GameView, tries: nat)
    requires
        g.wf(),
    ensures
        g.respawned(tries).food == g.food || !g.snake.occupies(
            g.respawned(tries).food.0 as int,
            g.respawned(tries).food.1 as int,
        ),
        g.in_bounds(g.respawned(tries).food.0 as int, g.respawned(tries).food.1 as int),
    decreases tries,
{
    respawn_keeps(g, tries);
    if tries > 0 {
        let s2 = lcg_step(lcg_step(g.rng));
        respawned_food_is_free(GameView { rng: s2, ..g }, (tries - 1) as nat);
    }
}

/// Along one ray only one thing can be seen: what `sees` says of a ray
/// determines it.
pub proof fn sight_is_unique(g: GameView, d: (int, int), a: Ray, b: Ray)
    requires
        g.sees(d, a),
        g.sees(d, b),
    ensures
        a == b,
{
    if a.wall < b.wall {
        assert(g.ray_inside(d, a.wall as int));
    }
    if b.wall < a.wall {
        assert(g.ray_inside(d, b.wall as int));
    }
    match (a.body, b.body) {
        (Some(s), Some(t)) => {
            if s < t {
                assert(!g.ray_on_body(d, s as int));
            }
            if t < s {
                assert(!g.ray_on_body(d, t as int));
            }
        },
        (Some(s), None) => {
            assert(!g.ray_on_body(d, s as int));
        },
        (None, Some(t)) => {
            assert(!g.ray_on_body(d, t as int));
        },
        (None, None) => {},
    }
    match (a.food, b.food) {
        (Some(s), Some(t)) => {
            if s < t {
                assert(!g.ray_on_food(d, s as int));
            }
            if t < s {
                assert(!g.ray_on_food(d, t as int));
            }
        },
        (Some(s), None) => {
            assert(!g.ray_on_food(d, s as int));
        },
        (None, Some(t)) => {
            assert(!g.ray_on_food(d, t as int));
        },
        (None, None) => {},
    }
}

/// One of the five directions in which the snake looks, in its own frame.
pub fn local_ray_of(i: usize) -> (v: (i32, i32))
    requires
        i < 5,
    ensures
        (v.0 as int, v.1 as int) == local_ray(i as int),
{
    if i == 0 {
        (-1, 0)
    } else if i == 1 {
        (-1, 1)
    } else if i == 2 {
        (0, 1)
    } else if i == 3 {
        (1, 1)
    } else {
        (1, 0)
    }
}

/// Turns a vector of the snake's frame into the frame of the board.
pub fn rotate(dx: i32, dy: i32, d: Dir) -> (v: (i32, i32))
    requires
        dx > i32::MIN,
        dy > i32::MIN,
    ensures
        (v.0 as int, v.1 as int) == rotated((dx as int, dy as int), d),
{
    match d {
        Dir::Up => (dx, -dy),
        Dir::Down => (-dx, dy),
        Dir::Left => (-dy, -dx),
        Dir::Right => (dy, dx),
    }
}

pub struct Game {
    w: usize,
    h: usize,
    snake: Snake,
    food: Food,
    pending_dir: Dir,
    done: bool,
    rng: LcgRng,
    steps_since_food: u32,
    hunger_limit: u32,
    last_manhattan: i32,
}

impl View for Game {
    type V = GameView;

    closed spec fn view(&self) -> GameView {
        GameView {
            w: self.w as nat,
            h: self.h as nat,
            snake: self.snake@,
            food: (self.food.x as nat, self.food.y as nat),
            pending_dir: self.pending_dir,
            done: self.done,
            rng: self.rng@,
            steps_since_food: self.steps_since_food as nat,
            hunger_limit: self.hunger_limit as nat,
            last_manhattan: self.last_manhattan as int,
        }
    }
}

impl Game {
    pub open spec fn wf(&self) -> bool {
        self@.wf()
    }

    fn manhattan(&self) -> (d: i32)
        requires
            self.wf(),
            self@.near_board(),
        ensures
            d == self@.manhattan(),
            0 <= d <= self@.w + self@.h + 2,
    {
        let (hx, hy) = self.snake.head();
        let dx: i32 = self.food.x as i32 - hx;
        let dy: i32 = self.food.y as i32 - hy;
        let ax: i32 = if dx < 0 {
            -dx
        } else {
            dx
        };
        let ay: i32 = if dy < 0 {
            -dy
        } else {
            dy
        };
        ax + ay
    }

    /// Whether the head is on the board.
    pub fn head_on_board(&self) -> (r: bool)
        requires
            self.wf(),
        ensures
            r == self@.on_board(),
    {
        let (hx, hy) = self.snake.head();
        !(hx < 0 || hy < 0 || hx >= self.w as i32 || hy >= self.h as i32)
    }

    fn head_on_food(&self) -> (r: bool)
        requires
            self.wf(),
            self@.on_board(),
        ensures
            r == self@.on_food(),
    {
        let (hx, hy) = self.snake.head();
        hx as usize == self.food.x && hy as usize == self.food.y
    }

    /// Places new food on a cell free of the snake, drawing cells until one
    /// is free or `RESPAWN_TRIES` cells were drawn.
    pub fn respawn_food(&mut self)
        requires
            old(self).wf(),
        ensures
            final(self)@ == old(self)@.respawned(RESPAWN_TRIES as nat),
            final(self).wf(),
    {
        let mut tries: u32 = RESPAWN_TRIES;
        while tries > 0
            invariant
                self.wf(),
                self@.respawned(tries as nat) == old(self)@.respawned(RESPAWN_TRIES as nat),
            decreases tries,
        {
            let x: usize = self.rng.gen_range_u32(self.w as u32) as usize;
            let y: usize = self.rng.gen_range_u32(self.h as u32) as usize;
            tries -= 1;
            if !self.snake.occupies(x as i32, y as i32) {
                self.food = Food::at(x, y);
                return ;
            }
        }
    }

    /// A new game: the snake in the middle of the board and food on a free
    /// cell.
    pub fn new(w: usize, h: usize) -> (g: Self)
        requires
            1 <= w <= MAX_SIDE,
            1 <= h <= MAX_SIDE,
        ensures
            g@ == GameView::started(w as nat, h as nat),
            g.wf(),
    {
        let rng = LcgRng::new(FOOD_SEED);
        let snake = Snake::new((w / 2) as i32, (h / 2) as i32);
        let mut g = Self {
            w,
            h,
            snake,
            food: Food::at(0, 0),
            pending_dir: Dir::Right,
            done: false,
            rng,
            steps_since_food: 0,
            hunger_limit: HUNGER_LIMIT,
            last_manhattan: 0,
        };
        let ghost bare = g@;
        assert(bare.snake.head() == (((w / 2) as i32 + 1) as i32, (h / 2) as i32));
        g.respawn_food();
        proof {
            respawn_keeps(bare, RESPAWN_TRIES as nat);
        }
        g.last_manhattan = g.manhattan();
        g
    }

    /// Sets the game back to the start of an episode.
    pub fn reset(&mut self)
        requires
            old(self).wf(),
        ensures
            final(self)@ == old(self)@.reset(),
            final(self).wf(),
    {
        self.snake = Snake::new((self.w / 2) as i32, (self.h / 2) as i32);
        self.pending_dir = Dir::Right;
        self.done = false;
        self.steps_since_food = 0;
        let ghost bare = self@;
        assert(bare.snake.head() == (((self.w / 2) as i32 + 1) as i32, (self.h / 2) as i32));
        self.respawn_food();
        proof {
            respawn_keeps(bare, RESPAWN_TRIES as nat);
        }
        self.last_manhattan = self.manhattan();
    }

    /// One step of manual play, in the heading last asked for.
    pub fn step(&mut self)
        requires
            old(self).wf(),
            old(self)@.done || old(self)@.can_move(),
        ensures
            final(self)@ == old(self)@.step(),
            final(self).wf(),
    {
        if self.done {
            return ;
        }
        self.snake.apply_dir(self.pending_dir);
        self.snake.advance();
        if !self.head_on_board() {
            self.done = true;
            return ;
        }
        if self.snake.self_collision() {
            self.done = true;
            return ;
        }
        if self.head_on_food() {
            self.snake.feed();
            self.respawn_food();
            proof {
                respawn_keeps(
                    GameView {
                        snake: SnakeView { grow: 1, ..old(self)@.moved(old(self)@.pending_dir).snake },
                        ..old(self)@.moved(old(self)@.pending_dir)
                    },
                    RESPAWN_TRIES as nat,
                );
            }
        }
    }

    /// One step of the environment. The action is relative to the heading:
    /// 0 turns left, 1 goes straight on, 2 turns right.
    pub fn step_ai(&mut self, action_rel: u8) -> (r: StepOutcome)
        requires
            old(self).wf(),
            old(self)@.can_step(),
        ensures
            final(self)@ == old(self)@.step_ai(action_rel).0,
            r == old(self)@.step_ai(action_rel).1,
            final(self).wf(),
    {
        let cur: Dir = self.snake.dir();
        let abs_dir: Dir = cur.relative(action_rel);
        self.snake.apply_dir(abs_dir);
        self.snake.advance();
        if !self.head_on_board() {
            return outcome(StepEvent::HitWall, 0);
        }
        if self.snake.self_collision() {
            return outcome(StepEvent::HitSelf, 0);
        }
        let manh: i32 = self.manhattan();
        let delta: i32 = self.last_manhattan - manh;
        let progress: i32 = if delta > 1 {
            1
        } else if delta < -1 {
            -1
        } else {
            delta
        };
        self.last_manhattan = manh;
        if self.head_on_food() {
            self.snake.feed();
            self.respawn_food();
            self.steps_since_food = 0;
            return outcome(StepEvent::Ate, progress);
        }
        self.steps_since_food += 1;
        if self.steps_since_food >= self.hunger_limit {
            return outcome(StepEvent::Starved, progress);
        }
        outcome(StepEvent::Moved, progress)
    }

    /// What the snake sees along the ray `(dx, dy)`.
    fn scan(&self, dx: i32, dy: i32) -> (r: Ray)
        requires
            self.wf(),
            -1 <= dx <= 1,
            -1 <= dy <= 1,
            dx != 0 || dy != 0,
        ensures
            self@.sees((dx as int, dy as int), r),
    {
        let (hx, hy) = self.snake.head();
        let w: i32 = self.w as i32;
        let h: i32 = self.h as i32;
        let ghost d = (dx as int, dy as int);
        let mut step: usize = 0;
        let mut x: i32 = hx;
        let mut y: i32 = hy;
        let mut body: Option<usize> = None;
        let mut food: Option<usize> = None;
        let mut wall: usize = 0;
        loop
            invariant_except_break
                self.wf(),
                w == self@.w,
                h == self@.h,
                (hx, hy) == self@.snake.head(),
                d == (dx as int, dy as int),
                -1 <= dx <= 1,
                -1 <= dy <= 1,
                dx != 0 || dy != 0,
                step <= w + h,
                x == hx + step * dx,
                y == hy + step * dy,
                -HEAD_LIMIT <= x <= HEAD_LIMIT,
                -HEAD_LIMIT <= y <= HEAD_LIMIT,
                forall|k: int| 1 <= k <= step ==> #[trigger] self@.ray_inside(d, k),
                match body {
                    Some(s) => 1 <= s <= step && self@.ray_on_body(d, s as int) && forall|k: int|
                        1 <= k < s ==> !#[trigger] self@.ray_on_body(d, k),
                    None => forall|k: int| 1 <= k <= step ==> !#[trigger] self@.ray_on_body(d, k),
                },
                match food {
                    Some(s) => 1 <= s <= step && self@.ray_on_food(d, s as int) && forall|k: int|
                        1 <= k < s ==> !#[trigger] self@.ray_on_food(d, k),
                    None => forall|k: int| 1 <= k <= step ==> !#[trigger] self@.ray_on_food(d, k),
                },
            ensures
                self@.sees(d, Ray { wall, body, food }),
            decreases w + h + 1 - step,
        {
            proof {
                assert((step + 1) * dx == step * dx + dx) by (nonlinear_arith);
                assert((step + 1) * dy == step * dy + dy) by (nonlinear_arith);
            }
            step += 1;
            x += dx;
            y += dy;
            assert(self@.ray_cell(d, step as int) == (x as int, y as int));
            if x < 0 || y < 0 || x >= w || y >= h {
                wall = step;
                break ;
            }
            assert(self@.ray_inside(d, step as int));
            assert(step <= w + h - 1) by {
                // The first step was on the board, so the head is on it or
                // one step off it.
                assert(self@.ray_inside(d, 1));
                assert(self@.ray_cell(d, 1) == (hx + dx, hy + dy));
                if dx == 1 {
                    assert(step * dx == step) by (nonlinear_arith)
                        requires
                            dx == 1,
                    ;
                } else if dx == -1 {
                    assert(step * dx == -step) by (nonlinear_arith)
                        requires
                            dx == -1,
                    ;
                } else if dy == 1 {
                    assert(step * dy == step) by (nonlinear_arith)
                        requires
                            dy == 1,
                    ;
                } else {
                    assert(step * dy == -step) by (nonlinear_arith)
                        requires
                            dy == -1,
                    ;
                }
            }
            if body.is_none() && self.snake.occupies(x, y) {
                body = Some(step);
            }
            if food.is_none() && x as usize == self.food.x && y as usize == self.food.y {
                food = Some(step);
            }
        }
        Ray { wall, body, food }
    }

    /// What the snake sees from where it is.
    pub fn observe(&self) -> (o: Observation)
        requires
            self.wf(),
        ensures
            self@.observed(o),
    {
        let dir: Dir = self.snake.dir();
        let (hx, hy) = self.snake.head();
        let mut rays: Vec<Ray> = Vec::new();
        let mut i: usize = 0;
        while i < 5
            invariant
                self.wf(),
                dir == self@.snake.dir,
                i <= 5,
                rays@.len() == i,
                forall|k: int|
                    0 <= k < i ==> self@.sees(rotated(local_ray(k), dir), #[trigger] rays@[k]),
            decreases 5 - i,
        {
            let (lx, ly) = local_ray_of(i);
            let (dx, dy) = rotate(lx, ly, dir);
            let r: Ray = self.scan(dx, dy);
            rays.push(r);
            i += 1;
        }
        let vx: i32 = self.food.x as i32 - hx;
        let vy: i32 = self.food.y as i32 - hy;
        let (side, ahead) = rotate(vx, vy, dir);
        Observation {
            rays,
            food_side: side,
            food_ahead: ahead,
            length: self.snake.len(),
            width: self.w,
            height: self.h,
            hunger: self.steps_since_food,
            hunger_limit: self.hunger_limit,
        }
    }

    /// Number of entries of an observation.
    pub fn observation_dim(&self) -> (r: usize)
        ensures
            r == OBSERVATION_DIM,
    {
        5 * 3 + 2 + 2
    }

    /// Sets the heading that the next step of manual play asks for.
    pub fn set_pending_dir(&mut self, d: Dir)
        ensures
            final(self)@ == (GameView { pending_dir: d, ..old(self)@ }),
    {
        self.pending_dir = d;
    }

    pub fn width(&self) -> (r: usize)
        ensures
            r == self@.w,
    {
        self.w
    }

    pub fn height(&self) -> (r: usize)
        ensures
            r == self@.h,
    {
        self.h
    }

    pub fn is_done(&self) -> (r: bool)
        ensures
            r == self@.done,
    {
        self.done
    }

    pub fn food_pos(&self) -> (r: (usize, usize))
        ensures
            r.0 == self@.food.0,
            r.1 == self@.food.1,
    {
        (self.food.x, self.food.y)
    }

    /// The cells of the snake, tail first.
    pub fn snake_segments(&self) -> (r: Vec<(i32, i32)>)
        ensures
            r@ == self@.snake.body,
    {
        self.snake.segments_vec()
    }

    /// Whether `step_ai` may be called.
    pub fn can_step(&self) -> (r: bool)
        requires
            self.wf(),
        ensures
            r == self@.can_step(),
    {
        self.can_move() && self.steps_since_food < u32::MAX
    }

    /// Whether `step` may be called on a game that is not done.
    pub fn can_move(&self) -> (r: bool)
        requires
            self.wf(),
        ensures
            r == self@.can_move(),
    {
        let (hx, hy) = self.snake.head();
        -HEAD_LIMIT < hx && hx < HEAD_LIMIT && -HEAD_LIMIT < hy && hy < HEAD_LIMIT
    }
}

} // verus!
