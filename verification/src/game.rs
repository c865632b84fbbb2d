//! The game state and its per-turn transition rules.
use std::collections::VecDeque;
use vstd::prelude::*;
use vstd::string::StrSliceExecFns;

use crate::board::HEIGHT;
use crate::board::Point;
use crate::board::WIDTH;
use crate::board::body_has;
use crate::board::body_in_bounds;
use crate::board::contains_point;
use crate::board::lemma_body_fits_grid;
use crate::board::lemma_small_body_leaves_a_cell;
use crate::board::point_in_bounds;
use crate::board::room_for_food;
use crate::rng::custom_random;
use crate::rng::get_seed;

verus! {

/// The snake's current heading.
#[derive(Clone, Copy, Debug, PartialEq, Eq, Structural)]
pub enum Direction {
    Up,
    Down,
    Left,
    Right,
}

/// The coordinate step one update takes in heading `d`.
pub open spec fn delta(d: Direction) -> (int, int) {
    match d {
        Direction::Up => (0int, -1int),
        Direction::Down => (0int, 1int),
        Direction::Left => (-1int, 0int),
        Direction::Right => (1int, 0int),
    }
}

/// The exact opposite of a heading.
pub open spec fn opposite(d: Direction) -> Direction {
    match d {
        Direction::Up => Direction::Down,
        Direction::Down => Direction::Up,
        Direction::Left => Direction::Right,
        Direction::Right => Direction::Left,
    }
}

/// The key that requests heading `d`.
pub open spec fn key_for(d: Direction) -> char {
    match d {
        Direction::Up => 'w',
        Direction::Down => 's',
        Direction::Left => 'a',
        Direction::Right => 'd',
    }
}

/// The heading after one command: a single-letter w/s/a/d command picks
/// the matching heading unless that heading is the exact opposite of the
/// current one; every other command leaves the heading unchanged.
pub open spec fn dir_after(d: Direction, cmd: Seq<char>) -> Direction {
    if cmd.len() == 1 {
        let c = cmd[0];
        if c == 'w' {
            if d == Direction::Down {
                d
            } else {
                Direction::Up
            }
        } else if c == 's' {
            if d == Direction::Up {
                d
            } else {
                Direction::Down
            }
        } else if c == 'a' {
            if d == Direction::Right {
                d
            } else {
                Direction::Left
            }
        } else if c == 'd' {
            if d == Direction::Left {
                d
            } else {
                Direction::Right
            }
        } else {
            d
        }
    } else {
        d
    }
}

/// No command performs a 180-degree turn: whatever the current heading,
/// the key that requests its exact opposite leaves the heading unchanged.
pub proof fn lemma_no_reversal(d: Direction, cmd: Seq<char>)
    requires
        cmd.len() == 1,
        cmd[0] == key_for(opposite(d)),
    ensures
        dir_after(d, cmd) == d,
{
}

/// The whole game: the snake body (front = tail, back = head), the food,
/// the current heading, the score, and whether play has ended.
pub struct Game {
    pub snake: VecDeque<Point>,
    pub food: Point,
    pub direction: Direction,
    pub score: u32,
    pub game_over: bool,
}

impl Game {
    /// The state invariant: the snake is non-empty, stays on the grid,
    /// never overlaps itself, fits on the grid, and has grown by exactly
    /// one segment per point of score since it started with one segment.
    pub open spec fn wf(self) -> bool {
        &&& self.snake@.len() >= 1
        &&& self.snake@.len() <= WIDTH * HEIGHT
        &&& self.snake@.no_duplicates()
        &&& body_in_bounds(self.snake@)
        &&& self.score + 1 == self.snake@.len()
    }

    /// The head of the snake: the back of the body.
    pub open spec fn head(self) -> Point
        recommends
            self.snake@.len() >= 1,
    {
        self.snake@.last()
    }

    /// The x coordinate the head would move to in one update.
    pub open spec fn next_x(self) -> int {
        self.head().x + delta(self.direction).0
    }

    /// The y coordinate the head would move to in one update.
    pub open spec fn next_y(self) -> int {
        self.head().y + delta(self.direction).1
    }

    /// Whether the next head position stays on the grid and misses the
    /// current body.
    pub open spec fn step_ok(self) -> bool {
        &&& 0 <= self.next_x() < WIDTH
        &&& 0 <= self.next_y() < HEIGHT
        &&& !body_has(self.snake@, self.next_x(), self.next_y())
    }

    /// Whether the next head position lands on the food.
    pub open spec fn eats(self) -> bool {
        self.next_x() == self.food.x && self.next_y() == self.food.y
    }

    /// The next head as a point.
    pub open spec fn next_head(self) -> Point
        recommends
            0 <= self.next_x() < WIDTH,
            0 <= self.next_y() < HEIGHT,
    {
        Point { x: self.next_x() as i32, y: self.next_y() as i32 }
    }

    /// Decides the state invariant at run time, for callers outside the
    /// verified world that want to check a state before trusting it.
    pub fn well_formed(&self) -> (b: bool)
        ensures
            b == self.wf(),
    {
        let n = self.snake.len();
        if n < 1 {
            return false;
        }
        if n > (WIDTH * HEIGHT) as usize {
            return false;
        }
        if self.score as u64 + 1 != n as u64 {
            return false;
        }
        let mut i: usize = 0;
        while i < n
            invariant
                i <= n,
                n == self.snake@.len(),
                forall|k: int| 0 <= k < i ==> point_in_bounds(#[trigger] self.snake@[k]),
                forall|k: int, l: int|
                    0 <= k < i && k < l < n ==> self.snake@[k] != self.snake@[l],
            decreases n - i,
        {
            let p = self.snake[i];
            if p.x < 0 || p.x >= WIDTH || p.y < 0 || p.y >= HEIGHT {
                return false;
            }
            let mut j: usize = i + 1;
            while j < n
                invariant
                    i < j <= n,
                    n == self.snake@.len(),
                    p == self.snake@[i as int],
                    forall|l: int| i < l < j ==> self.snake@[i as int] != #[trigger] self.snake@[l],
                decreases n - j,
            {
                let q = self.snake[j];
                if p.x == q.x && p.y == q.y {
                    return false;
                }
                j = j + 1;
            }
            i = i + 1;
        }
        proof {
            assert forall|k: int, l: int|
                0 <= k < n && 0 <= l < n && k != l implies self.snake@[k] != self.snake@[l] by {
                if k < l {
                    assert(self.snake@[k] != self.snake@[l]);
                } else {
                    assert(self.snake@[l] != self.snake@[k]);
                }
            };
            assert(self.snake@.no_duplicates());
        }
        true
    }

    /// A fresh game: a one-point snake at (5, 5) heading right, score 0,
    /// play running, and food placed on the grid but off the snake.
    pub fn new() -> (g: Game)
        ensures
            g.wf(),
            g.snake@.len() == 1,
            g.snake@[0] == (Point { x: 5, y: 5 }),
            g.direction == Direction::Right,
            g.score == 0,
            !g.game_over,
            point_in_bounds(g.food),
            g.food != (Point { x: 5, y: 5 }),
    {
        let mut game = Game {
            snake: VecDeque::new(),
            food: Point { x: 0, y: 0 },
            direction: Direction::Right,
            score: 0,
            game_over: false,
        };
        game.snake.push_back(Point { x: 5, y: 5 });
        proof {
            assert(game.snake@ =~= seq![Point { x: 5, y: 5 }]);
            assert(room_for_food(game.snake@));
        }
        game.spawn_food();
        proof {
            assert(game.snake@[0] == (Point { x: 5, y: 5 }));
            if game.food == (Point { x: 5, y: 5 }) {
                assert(game.snake@[0].x == game.food.x && game.snake@[0].y == game.food.y);
                assert(body_has(game.snake@, game.food.x as int, game.food.y as int));
            }
        }
        game
    }

    /// Applies one command to the heading as `dir_after` says: w/s/a/d
    /// select a heading, a reversal or an unrecognized command is ignored.
    /// Nothing but the heading changes.
    pub fn handle_input(&mut self, command: &str)
        ensures
            final(self).snake == old(self).snake,
            final(self).food == old(self).food,
            final(self).score == old(self).score,
            final(self).game_over == old(self).game_over,
            final(self).direction == dir_after(old(self).direction, command@),
            old(self).wf() ==> final(self).wf(),
    {
        if command.unicode_len() == 1 {
            let c = command.get_char(0);
            if c == 'w' {
                if self.direction != Direction::Down {
                    self.direction = Direction::Up;
                }
            } else if c == 's' {
                if self.direction != Direction::Up {
                    self.direction = Direction::Down;
                }
            } else if c == 'a' {
                if self.direction != Direction::Right {
                    self.direction = Direction::Left;
                }
            } else if c == 'd' {
                if self.direction != Direction::Left {
                    self.direction = Direction::Right;
                }
            }
        }
    }

    /// One turn of play. When the game is already over nothing changes at
    /// all. Otherwise the head advances one cell along the heading:
    /// leaving the grid or hitting the body ends the game with everything
    /// else untouched; landing on the food grows the snake by one segment,
    /// scores one point and replaces the food; any other step moves the
    /// snake forward, dropping its tail cell.
    pub fn update(&mut self)
        requires
            old(self).wf(),
        ensures
            final(self).wf(),
            final(self).direction == old(self).direction,
            old(self).game_over ==> *final(self) == *old(self),
            !old(self).game_over && !old(self).step_ok() ==> {
                &&& final(self).snake == old(self).snake
                &&& final(self).food == old(self).food
                &&& final(self).score == old(self).score
                &&& final(self).game_over
            },
            !old(self).game_over && old(self).step_ok() ==> !final(self).game_over,
            !old(self).game_over && old(self).step_ok() && old(self).eats() ==> {
                &&& final(self).snake@ == old(self).snake@.push(old(self).next_head())
                &&& final(self).snake@.len() == old(self).snake@.len() + 1
                &&& final(self).score == old(self).score + 1
                &&& final(self).food == old(self).food || (point_in_bounds(final(self).food)
                    && !body_has(final(self).snake@, final(self).food.x as int, final(self).food.y as int))
                &&& old(self).snake@.len() + 1 < WIDTH * HEIGHT ==> (point_in_bounds(final(self).food)
                    && !body_has(final(self).snake@, final(self).food.x as int, final(self).food.y as int))
            },
            !old(self).game_over && old(self).step_ok() && !old(self).eats() ==> {
                &&& final(self).snake@ == old(self).snake@.subrange(
                    1,
                    old(self).snake@.len() as int,
                ).push(old(self).next_head())
                &&& final(self).snake@.len() == old(self).snake@.len()
                &&& final(self).score == old(self).score
                &&& final(self).food == old(self).food
            },
    {
        if self.game_over {
            return;
        }
        let head = self.snake[self.snake.len() - 1];
        proof {
            assert(self.snake@[self.snake@.len() - 1] == self.head());
            assert(point_in_bounds(self.head()));
        }
        let nx: i32;
        let ny: i32;
        match self.direction {
            Direction::Up => {
                nx = head.x;
                ny = head.y - 1;
            },
            Direction::Down => {
                nx = head.x;
                ny = head.y + 1;
            },
            Direction::Left => {
                nx = head.x - 1;
                ny = head.y;
            },
            Direction::Right => {
                nx = head.x + 1;
                ny = head.y;
            },
        }
        if nx < 0 || nx >= WIDTH || ny < 0 || ny >= HEIGHT {
            self.game_over = true;
            return;
        }
        if contains_point(&self.snake, nx, ny) {
            self.game_over = true;
            return;
        }
        let new_head = Point { x: nx, y: ny };
        self.snake.push_back(new_head);
        proof {
            let s_old = old(self).snake@;
            let s_new = self.snake@;
            assert(new_head == old(self).next_head());
            assert(s_new == s_old.push(new_head));
            assert forall|i: int, j: int|
                0 <= i < s_new.len() && 0 <= j < s_new.len() && i != j implies s_new[i]
                != s_new[j] by {
                if i < s_old.len() && j < s_old.len() {
                    assert(s_old[i] != s_old[j]);
                } else if j == s_old.len() {
                    assert(s_new[j] == new_head);
                    if s_new[i] == new_head {
                        assert(body_has(s_old, nx as int, ny as int));
                    }
                } else {
                    assert(s_new[i] == new_head);
                    if s_new[j] == new_head {
                        assert(body_has(s_old, nx as int, ny as int));
                    }
                }
            };
            assert(s_new.no_duplicates());
            assert forall|i: int| 0 <= i < s_new.len() implies point_in_bounds(
                #[trigger] s_new[i],
            ) by {
                if i < s_old.len() {
                    assert(point_in_bounds(s_old[i]));
                }
            };
            assert(body_in_bounds(s_new));
            lemma_body_fits_grid(s_new);
        }
        if nx == self.food.x && ny == self.food.y {
            self.score = self.score + 1;
            self.spawn_food();
        } else {
            let _ = self.snake.pop_front();
            proof {
                let s_old = old(self).snake@;
                assert(self.snake@ =~= s_old.subrange(1, s_old.len() as int).push(new_head));
                assert forall|i: int| 0 <= i < self.snake@.len() implies point_in_bounds(
                    #[trigger] self.snake@[i],
                ) by {
                    assert(self.snake@[i] == s_old.push(new_head)[i + 1]);
                };
                assert forall|i: int, j: int|
                    0 <= i < self.snake@.len() && 0 <= j < self.snake@.len() && i != j implies
                    self.snake@[i] != self.snake@[j] by {
                    assert(self.snake@[i] == s_old.push(new_head)[i + 1]);
                    assert(self.snake@[j] == s_old.push(new_head)[j + 1]);
                };
                assert(self.snake@.no_duplicates());
            }
        }
    }

    /// Places the food on a pseudo-random free cell: candidate cells are
    /// drawn from the time-seeded generator (the x and y draws share one
    /// timestamp, using seed and seed + 1) and a candidate on the snake is
    /// rejected. The snake, heading, score and game-over flag are
    /// untouched; the food is never moved onto the snake, and whenever the
    /// snake leaves room on the grid a free cell is found.
    pub fn spawn_food(&mut self)
        ensures
            final(self).snake == old(self).snake,
            final(self).direction == old(self).direction,
            final(self).score == old(self).score,
            final(self).game_over == old(self).game_over,
            final(self).food == old(self).food || (point_in_bounds(final(self).food)
                && !body_has(old(self).snake@, final(self).food.x as int, final(self).food.y as int)),
            room_for_food(old(self).snake@) ==> (point_in_bounds(final(self).food)
                && !body_has(old(self).snake@, final(self).food.x as int, final(self).food.y as int)),
    {
        let mut tries: usize = 0;
        while tries < 64
            invariant
                *self == *old(self),
                tries <= 64,
            decreases 64 - tries,
        {
            let seed = get_seed();
            let rx = custom_random(seed, WIDTH as u32);
            let ry = custom_random(seed.wrapping_add(1), HEIGHT as u32);
            let fx = rx as i32;
            let fy = ry as i32;
            if !contains_point(&self.snake, fx, fy) {
                self.food = Point { x: fx, y: fy };
                return;
            }
            tries = tries + 1;
        }
        // The random draws kept colliding; sweep the grid so that
        // placement still finds the first free cell and terminates.
        let mut y: i32 = 0;
        while y < HEIGHT
            invariant
                *self == *old(self),
                0 <= y <= HEIGHT,
                forall|xx: int, yy: int|
                    0 <= xx < WIDTH && 0 <= yy < y ==> #[trigger] body_has(self.snake@, xx, yy),
            decreases HEIGHT - y,
        {
            let mut x: i32 = 0;
            while x < WIDTH
                invariant
                    *self == *old(self),
                    0 <= y < HEIGHT,
                    0 <= x <= WIDTH,
                    forall|xx: int, yy: int|
                        0 <= xx < WIDTH && 0 <= yy < y ==> #[trigger] body_has(self.snake@, xx, yy),
                    forall|xx: int|
                        0 <= xx < x ==> #[trigger] body_has(self.snake@, xx, y as int),
                decreases WIDTH - x,
            {
                if !contains_point(&self.snake, x, y) {
                    self.food = Point { x, y };
                    return;
                }
                x = x + 1;
            }
            y = y + 1;
        }
        proof {
            if room_for_food(self.snake@) {
                lemma_small_body_leaves_a_cell(self.snake@);
            }
        }
    }
}

} // verus!
