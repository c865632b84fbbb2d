//! The playing field: its dimensions, its coordinates, and how many
//! distinct in-bounds points it can hold at once.
use std::collections::VecDeque;
use vstd::prelude::*;
use vstd::set_lib::lemma_int_range;
use vstd::set_lib::lemma_len_subset;
use vstd::set_lib::set_int_range;

verus! {

/// Width of the grid in cells; valid x coordinates lie in `[0, WIDTH)`.
pub const WIDTH: i32 = 20;

/// Height of the grid in cells; valid y coordinates lie in `[0, HEIGHT)`.
pub const HEIGHT: i32 = 10;

/// One cell of the grid. Equality is coordinate-wise.
#[derive(Clone, Copy, Debug, PartialEq, Eq, Structural)]
pub struct Point {
    pub x: i32,
    pub y: i32,
}

/// Whether a point lies on the grid.
pub open spec fn point_in_bounds(p: Point) -> bool {
    0 <= p.x < WIDTH && 0 <= p.y < HEIGHT
}

/// Whether some point of `body` has the coordinates `(x, y)`.
pub open spec fn body_has(body: Seq<Point>, x: int, y: int) -> bool {
    exists|i: int| 0 <= i < body.len() && (#[trigger] body[i]).x == x && body[i].y == y
}

/// Every point of `body` lies on the grid.
pub open spec fn body_in_bounds(body: Seq<Point>) -> bool {
    forall|i: int| 0 <= i < body.len() ==> point_in_bounds(#[trigger] body[i])
}

/// Walks `body` and reports whether any of its points is `(x, y)`.
pub fn contains_point(body: &VecDeque<Point>, x: i32, y: i32) -> (r: bool)
    ensures
        r == body_has(body@, x as int, y as int),
{
    let n = body.len();
    let mut i: usize = 0;
    while i < n
        invariant
            i <= n,
            n == body@.len(),
            forall|j: int| 0 <= j < i ==> !((#[trigger] body@[j]).x == x && body@[j].y == y),
        decreases n - i,
    {
        let p = body[i];
        if p.x == x && p.y == y {
            assert(body@[i as int].x == x as int && body@[i as int].y == y as int);
            return true;
        }
        i = i + 1;
    }
    false
}

/// Row-major index of a grid point; for in-bounds points it is injective
/// and lies in `[0, WIDTH * HEIGHT)`.
pub open spec fn cell_index(p: Point) -> int {
    p.y * (WIDTH as int) + p.x
}

/// A body that is well formed and strictly smaller than the grid: food
/// placement is owed a free cell exactly under this condition.
pub open spec fn room_for_food(body: Seq<Point>) -> bool {
    &&& body.no_duplicates()
    &&& body_in_bounds(body)
    &&& body.len() < WIDTH * HEIGHT
}

/// A body of pairwise-distinct in-bounds points never holds more points
/// than the grid has cells.
pub proof fn lemma_body_fits_grid(body: Seq<Point>)
    requires
        body.no_duplicates(),
        body_in_bounds(body),
    ensures
        body.len() <= WIDTH * HEIGHT,
{
    let t = body.map_values(|p: Point| cell_index(p));
    assert forall|i: int, j: int|
        0 <= i < t.len() && 0 <= j < t.len() && i != j implies t[i] != t[j] by {
        assert(point_in_bounds(body[i]));
        assert(point_in_bounds(body[j]));
        assert(body[i] != body[j]);
    };
    assert(t.no_duplicates());
    t.unique_seq_to_set();
    assert forall|e: int| t.to_set().contains(e) implies set_int_range(
        0,
        WIDTH * HEIGHT,
    ).contains(e) by {
        let k = choose|k: int| 0 <= k < t.len() && t[k] == e;
        assert(point_in_bounds(body[k]));
    };
    lemma_int_range(0, WIDTH * HEIGHT);
    lemma_len_subset(t.to_set(), set_int_range(0, WIDTH * HEIGHT));
}

/// A body of fewer pairwise-distinct points than the grid has cells
/// leaves at least one cell of the grid unoccupied.
pub proof fn lemma_small_body_leaves_a_cell(body: Seq<Point>)
    requires
        room_for_food(body),
    ensures
        exists|x: int, y: int|
            0 <= x < WIDTH && 0 <= y < HEIGHT && !#[trigger] body_has(body, x, y),
{
    if forall|x: int, y: int|
        0 <= x < WIDTH && 0 <= y < HEIGHT ==> #[trigger] body_has(body, x, y) {
        lemma_covering_body_fills_grid(body);
        assert(false);
    }
}

/// A body that occupies every cell of the grid holds at least as many
/// points as the grid has cells.
proof fn lemma_covering_body_fills_grid(body: Seq<Point>)
    requires
        body.no_duplicates(),
        body_in_bounds(body),
        forall|x: int, y: int|
            0 <= x < WIDTH && 0 <= y < HEIGHT ==> #[trigger] body_has(body, x, y),
    ensures
        body.len() >= WIDTH * HEIGHT,
{
    let t = body.map_values(|p: Point| cell_index(p));
    assert forall|i: int, j: int|
        0 <= i < t.len() && 0 <= j < t.len() && i != j implies t[i] != t[j] by {
        assert(point_in_bounds(body[i]));
        assert(point_in_bounds(body[j]));
        assert(body[i] != body[j]);
    };
    assert(t.no_duplicates());
    t.unique_seq_to_set();
    assert forall|e: int| set_int_range(0, WIDTH * HEIGHT).contains(e) implies t.to_set().contains(
        e,
    ) by {
        let x = e % (WIDTH as int);
        let y = e / (WIDTH as int);
        assert(0 <= x < WIDTH && 0 <= y < HEIGHT);
        assert(body_has(body, x, y));
        let k = choose|k: int| 0 <= k < body.len() && (#[trigger] body[k]).x == x && body[k].y == y;
        assert(t[k] == e);
        assert(t.to_set().contains(t[k]));
    };
    lemma_int_range(0, WIDTH * HEIGHT);
    lemma_len_subset(set_int_range(0, WIDTH * HEIGHT), t.to_set());
}

} // verus!
