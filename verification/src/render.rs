//! Rendering of the game state to its textual frame.
use vstd::prelude::*;
use vstd::string::StrSliceExecFns;

use crate::board::HEIGHT;
use crate::board::WIDTH;
use crate::board::body_has;
use crate::board::contains_point;
use crate::game::Game;

verus! {

/// The character for one decimal digit.
pub open spec fn digit_char(d: int) -> char {
    if d == 0 {
        '0'
    } else if d == 1 {
        '1'
    } else if d == 2 {
        '2'
    } else if d == 3 {
        '3'
    } else if d == 4 {
        '4'
    } else if d == 5 {
        '5'
    } else if d == 6 {
        '6'
    } else if d == 7 {
        '7'
    } else if d == 8 {
        '8'
    } else {
        '9'
    }
}

/// The decimal digits of a non-negative number, most significant first,
/// with no leading zeroes.
pub open spec fn spec_digits(n: int) -> Seq<char>
    recommends
        n >= 0,
    decreases n,
{
    if n < 10 {
        seq![digit_char(n)]
    } else {
        spec_digits(n / 10).push(digit_char(n % 10))
    }
}

/// The character for one decimal digit, as `digit_char` picks it.
fn digit_of(d: u32) -> (c: char)
    requires
        d < 10,
    ensures
        c == digit_char(d as int),
{
    if d == 0 {
        '0'
    } else if d == 1 {
        '1'
    } else if d == 2 {
        '2'
    } else if d == 3 {
        '3'
    } else if d == 4 {
        '4'
    } else if d == 5 {
        '5'
    } else if d == 6 {
        '6'
    } else if d == 7 {
        '7'
    } else if d == 8 {
        '8'
    } else {
        '9'
    }
}

/// Appends the decimal digits of `n`.
fn push_digits(out: &mut Vec<char>, n: u32)
    ensures
        final(out)@ == old(out)@ + spec_digits(n as int),
    decreases n,
{
    if n < 10 {
        let c = digit_of(n);
        out.push(c);
        proof {
            assert(out@ =~= old(out)@ + spec_digits(n as int));
        }
    } else {
        push_digits(out, n / 10);
        let c = digit_of(n % 10);
        out.push(c);
        proof {
            assert(out@ =~= old(out)@ + spec_digits(n as int));
        }
    }
}

/// Appends every character of `s`.
fn push_str_chars(out: &mut Vec<char>, s: &str)
    ensures
        final(out)@ == old(out)@ + s@,
{
    let n = s.unicode_len();
    let mut i: usize = 0;
    proof {
        assert(out@ =~= old(out)@ + s@.subrange(0, 0));
    }
    while i < n
        invariant
            i <= n,
            n == s@.len(),
            out@ == old(out)@ + s@.subrange(0, i as int),
        decreases n - i,
    {
        let c = s.get_char(i);
        out.push(c);
        proof {
            assert(out@ =~= old(out)@ + s@.subrange(0, i as int + 1));
        }
        i = i + 1;
    }
    proof {
        assert(s@.subrange(0, n as int) =~= s@);
    }
}

/// Appends `n` copies of `c`.
fn push_repeat(out: &mut Vec<char>, c: char, n: usize)
    ensures
        final(out)@ == old(out)@ + Seq::new(n as nat, |i: int| c),
{
    let mut i: usize = 0;
    proof {
        assert(out@ =~= old(out)@ + Seq::new(0, |j: int| c));
    }
    while i < n
        invariant
            i <= n,
            out@ == old(out)@ + Seq::new(i as nat, |j: int| c),
        decreases n - i,
    {
        out.push(c);
        proof {
            assert(out@ =~= old(out)@ + Seq::new((i + 1) as nat, |j: int| c));
        }
        i = i + 1;
    }
}

/// The character drawn at cell `(x, y)`: the head as '@', any other body
/// segment as 'o', the food as '*', and an empty cell as a space.
pub open spec fn cell_char(g: Game, x: int, y: int) -> char {
    if body_has(g.snake@, x, y) {
        if g.snake@.len() >= 1 && g.head().x == x && g.head().y == y {
            '@'
        } else {
            'o'
        }
    } else if g.food.x == x && g.food.y == y {
        '*'
    } else {
        ' '
    }
}

/// One grid row: a '|', the cells of row `y`, a '|', and a newline.
pub open spec fn row_chars(g: Game, y: int) -> Seq<char> {
    seq!['|'] + Seq::new(WIDTH as nat, |x: int| cell_char(g, x, y)) + seq!['|', '\n']
}

/// The first `n` grid rows, concatenated.
pub open spec fn rows_upto(g: Game, n: int) -> Seq<char>
    decreases n,
{
    if n <= 0 {
        Seq::empty()
    } else {
        rows_upto(g, n - 1) + row_chars(g, n - 1)
    }
}

/// The border above and below the grid: WIDTH + 2 plus signs and a
/// newline.
pub open spec fn border_chars() -> Seq<char> {
    Seq::new((WIDTH + 2) as nat, |i: int| '+') + seq!['\n']
}

/// The full frame `display` returns: a score line, the controls legend, a
/// blank line, the bordered grid, and — once the game has ended — a
/// closing line with the final score.
pub open spec fn spec_render(g: Game) -> Seq<char> {
    "Score: "@ + spec_digits(g.score as int) + seq!['\n']
        + "Controls: w=up, s=down, a=left, d=right, q=quit\n\n"@ + border_chars() + rows_upto(
        g,
        HEIGHT as int,
    ) + border_chars() + (if g.game_over {
        "Game Over! Final score: "@ + spec_digits(g.score as int) + seq!['\n']
    } else {
        Seq::<char>::empty()
    })
}

/// Relies on `String`'s `FromIterator` implementation, through
/// `Iterator::collect`: collecting characters yields the string of
/// exactly those characters in order.
#[verifier::external_body]
fn chars_to_string(v: &Vec<char>) -> (s: String)
    ensures
        s@ == v@,
{
    v.iter().collect()
}

impl Game {
    /// Renders the frame exactly as `spec_render` lays it out.
    pub fn display(&self) -> (out: String)
        requires
            self.snake@.len() >= 1,
        ensures
            out@ == spec_render(*self),
    {
        let mut buf: Vec<char> = Vec::new();
        push_str_chars(&mut buf, "Score: ");
        push_digits(&mut buf, self.score);
        buf.push('\n');
        push_str_chars(&mut buf, "Controls: w=up, s=down, a=left, d=right, q=quit\n\n");
        push_repeat(&mut buf, '+', (WIDTH + 2) as usize);
        buf.push('\n');
        let ghost prefix = buf@;
        let head = self.snake[self.snake.len() - 1];
        proof {
            assert(head == self.head());
            assert(buf@ =~= prefix + rows_upto(*self, 0));
        }
        let mut y: i32 = 0;
        while y < HEIGHT
            invariant
                0 <= y <= HEIGHT,
                self.snake@.len() >= 1,
                head == self.head(),
                buf@ == prefix + rows_upto(*self, y as int),
            decreases HEIGHT - y,
        {
            buf.push('|');
            proof {
                assert(buf@ =~= prefix + rows_upto(*self, y as int) + seq!['|'] + Seq::new(
                    0,
                    |i: int| cell_char(*self, i, y as int),
                ));
            }
            let mut x: i32 = 0;
            while x < WIDTH
                invariant
                    0 <= y < HEIGHT,
                    0 <= x <= WIDTH,
                    self.snake@.len() >= 1,
                    head == self.head(),
                    buf@ == prefix + rows_upto(*self, y as int) + seq!['|'] + Seq::new(
                        x as nat,
                        |i: int| cell_char(*self, i, y as int),
                    ),
                decreases WIDTH - x,
            {
                let on_body = contains_point(&self.snake, x, y);
                let c: char;
                if on_body {
                    if head.x == x && head.y == y {
                        c = '@';
                    } else {
                        c = 'o';
                    }
                } else if self.food.x == x && self.food.y == y {
                    c = '*';
                } else {
                    c = ' ';
                }
                proof {
                    assert(c == cell_char(*self, x as int, y as int));
                }
                buf.push(c);
                proof {
                    assert(buf@ =~= prefix + rows_upto(*self, y as int) + seq!['|'] + Seq::new(
                        (x + 1) as nat,
                        |i: int| cell_char(*self, i, y as int),
                    ));
                }
                x = x + 1;
            }
            buf.push('|');
            buf.push('\n');
            proof {
                assert(buf@ =~= prefix + rows_upto(*self, y as int + 1));
            }
            y = y + 1;
        }
        push_repeat(&mut buf, '+', (WIDTH + 2) as usize);
        buf.push('\n');
        if self.game_over {
            push_str_chars(&mut buf, "Game Over! Final score: ");
            push_digits(&mut buf, self.score);
            buf.push('\n');
        }
        proof {
            assert(buf@ =~= spec_render(*self));
        }
        chars_to_string(&buf)
    }
}

} // verus!
