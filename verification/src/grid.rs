use vstd::arithmetic::div_mod::lemma_fundamental_div_mod_converse;
use vstd::prelude::*;

use rand::Rng;

verus! {

/// The state of one cell: empty, or occupied by one of the two competing colors.
#[derive(Clone, Copy, Debug, PartialEq, Eq, Structural)]
pub enum State {
    Dead,
    Red,
    Blue,
}

/// Mathematical model of one generation: the fixed dimensions and the cells
/// as a row-major sequence of length `width * height` (cell `(i, j)` sits at
/// index `i * width + j`).
#[verifier::ext_equal]
pub ghost struct GridModel {
    pub width: nat,
    pub height: nat,
    pub cells: Seq<State>,
}

/// The row above `x` on a torus of `n` rows: `x - 1`, wrapping `0` to `n - 1`.
pub open spec fn wrap_dec(x: int, n: int) -> int {
    if x == 0 {
        n - 1
    } else {
        x - 1
    }
}

/// The row below `x` on a torus of `n` rows: `x + 1`, wrapping `n - 1` to `0`.
pub open spec fn wrap_inc(x: int, n: int) -> int {
    if x + 1 == n {
        0
    } else {
        x + 1
    }
}

/// The 3x3 block of coordinates centered on `(i, j)`, in row-major order,
/// with rows wrapped modulo `height` and columns modulo `width`. The center
/// `(i, j)` itself sits at index 4; the other eight entries are the true
/// neighbors.
pub open spec fn surrounding_coords(height: int, width: int, i: int, j: int) -> Seq<(int, int)> {
    let im = wrap_dec(i, height);
    let ip = wrap_inc(i, height);
    let jm = wrap_dec(j, width);
    let jp = wrap_inc(j, width);
    seq![
        (im, jm),
        (im, j),
        (im, jp),
        (i, jm),
        (i, j),
        (i, jp),
        (ip, jm),
        (ip, j),
        (ip, jp),
    ]
}

/// 1 if `s` is `t`, else 0.
pub open spec fn count_one(s: State, t: State) -> int {
    if s == t {
        1
    } else {
        0
    }
}

impl GridModel {
    /// The cell sequence has exactly one entry per coordinate.
    pub open spec fn wf(self) -> bool {
        self.cells.len() == self.width * self.height
    }

    /// The cell at row `i`, column `j` (row-major).
    pub open spec fn cell(self, i: int, j: int) -> State {
        self.cells[i * self.width as int + j]
    }

    /// How many of the eight true neighbors of `(i, j)` (toroidal, the cell
    /// itself excluded) are in state `t`. Coinciding wrapped coordinates
    /// count once per position, as on a torus of width or height below 3.
    pub open spec fn neighbor_count(self, i: int, j: int, t: State) -> int {
        let im = wrap_dec(i, self.height as int);
        let ip = wrap_inc(i, self.height as int);
        let jm = wrap_dec(j, self.width as int);
        let jp = wrap_inc(j, self.width as int);
        count_one(self.cell(im, jm), t) + count_one(self.cell(im, j), t)
            + count_one(self.cell(im, jp), t) + count_one(self.cell(i, jm), t)
            + count_one(self.cell(i, jp), t) + count_one(self.cell(ip, jm), t)
            + count_one(self.cell(ip, j), t) + count_one(self.cell(ip, jp), t)
    }

    /// The next generation: same dimensions, every cell rewritten by the
    /// transition rule applied to its current state and its neighbor tallies.
    pub open spec fn step(self) -> GridModel {
        GridModel {
            width: self.width,
            height: self.height,
            cells: Seq::new(
                (self.width * self.height) as nat,
                |k: int|
                    next_cell(
                        self.cell(k / self.width as int, k % self.width as int),
                        self.neighbor_count(
                            k / self.width as int,
                            k % self.width as int,
                            State::Red,
                        ),
                        self.neighbor_count(
                            k / self.width as int,
                            k % self.width as int,
                            State::Blue,
                        ),
                    ),
            ),
        }
    }
}

/// The transition rule for one cell, given its current state and the number
/// of red and blue cells among its eight true neighbors:
/// - a dead cell is born exactly when `red + blue == 3`, red if `red > blue`,
///   else blue (ties favor blue);
/// - a live cell strictly outnumbered by the opposing color flips to that
///   color regardless of the total;
/// - otherwise a live cell survives in its color exactly when
///   `3 <= red + blue <= 4`, and dies otherwise.
pub open spec fn next_cell(cur: State, red: int, blue: int) -> State {
    match cur {
        State::Dead => if red + blue == 3 {
            if red > blue {
                State::Red
            } else {
                State::Blue
            }
        } else {
            State::Dead
        },
        State::Red => if blue > red {
            State::Blue
        } else if 3 <= red + blue && red + blue <= 4 {
            State::Red
        } else {
            State::Dead
        },
        State::Blue => if red > blue {
            State::Red
        } else if 3 <= red + blue && red + blue <= 4 {
            State::Blue
        } else {
            State::Dead
        },
    }
}

/// One generation of the simulation.
pub struct Grid {
    grid: Vec<State>,
    width: usize,
    height: usize,
}

impl View for Grid {
    type V = GridModel;

    closed spec fn view(&self) -> GridModel {
        GridModel { width: self.width as nat, height: self.height as nat, cells: self.grid@ }
    }
}

/// Row-major index arithmetic: for `(i, j)` inside an `h` by `w` grid, the
/// index `i * w + j` is in bounds and determines `i` and `j` uniquely.
pub proof fn lemma_row_major(i: int, j: int, w: int, h: int)
    requires
        0 <= i < h,
        0 <= j < w,
    ensures
        0 <= i * w + j < h * w,
        (i * w + j) / w == i,
        (i * w + j) % w == j,
{
    assert(0 <= i * w + j < h * w) by (nonlinear_arith)
        requires
            0 <= i < h,
            0 <= j < w,
    ;
    lemma_fundamental_div_mod_converse(i * w + j, w, i, j);
}

/// 1 if `s` is `t`, else 0, mirroring `count_one`.
fn one_if(s: State, t: State) -> (r: u8)
    ensures
        r as int == count_one(s, t),
        r <= 1,
{
    if s == t {
        1
    } else {
        0
    }
}

/// Relies on `rand::thread_rng` and `rand::Rng::gen::<u8>`: draws one byte
/// from the thread-local generator, uniformly distributed over all 256
/// values. Nothing is promised of the value of any single draw.
#[verifier::external_body]
fn random_byte() -> u8 {
    rand::thread_rng().gen::<u8>()
}

/// The state a freshly initialized cell takes when the random byte drawn for
/// it is `b`: half of the byte values give `Dead`, a quarter each give `Red`
/// and `Blue`.
pub open spec fn state_of_byte(b: u8) -> State {
    if b % 4 == 2 {
        State::Red
    } else if b % 4 == 3 {
        State::Blue
    } else {
        State::Dead
    }
}

/// Maps a uniform random byte to an initial cell state: byte values 0 and 1
/// modulo 4 give `Dead`, 2 gives `Red`, 3 gives `Blue`.
pub fn state_from_byte(b: u8) -> (s: State)
    ensures
        s == state_of_byte(b),
{
    match b % 4 {
        2 => State::Red,
        3 => State::Blue,
        _ => State::Dead,
    }
}

impl Grid {
    /// The cell sequence matches the dimensions.
    pub open spec fn wf(self) -> bool {
        self@.wf()
    }

    /// A fresh first generation of the given dimensions, every cell drawn
    /// independently at random: `Dead` with probability 1/2, `Red` and
    /// `Blue` with probability 1/4 each.
    pub fn new(width: usize, height: usize) -> (g: Grid)
        requires
            width * height <= usize::MAX,
        ensures
            g.wf(),
            g@.width == width,
            g@.height == height,
    {
        let total: usize = width * height;
        let mut cells: Vec<State> = Vec::new();
        let mut k: usize = 0;
        while k < total
            invariant
                k <= total,
                cells@.len() == k,
            decreases total - k,
        {
            cells.push(state_from_byte(random_byte()));
            k = k + 1;
        }
        Grid { grid: cells, width, height }
    }

    /// A generation built from an explicit cell sequence, row-major. Returns
    /// `None` exactly when the sequence's length does not match the
    /// dimensions.
    pub fn from_cells(width: usize, height: usize, cells: Vec<State>) -> (r: Option<Grid>)
        ensures
            match r {
                Some(g) => cells@.len() == width * height && g@ == (GridModel {
                    width: width as nat,
                    height: height as nat,
                    cells: cells@,
                }),
                None => cells@.len() != width * height,
            },
    {
        let n: usize = cells.len();
        match width.checked_mul(height) {
            Some(total) => {
                if n == total {
                    Some(Grid { grid: cells, width, height })
                } else {
                    None
                }
            },
            None => None,
        }
    }

    /// The number of columns.
    pub fn width(&self) -> (w: usize)
        ensures
            w == self@.width,
    {
        self.width
    }

    /// The number of rows.
    pub fn height(&self) -> (h: usize)
        ensures
            h == self@.height,
    {
        self.height
    }

    /// The cell at row `i`, column `j`.
    pub fn get(&self, i: usize, j: usize) -> (s: State)
        requires
            self.wf(),
            i < self@.height,
            j < self@.width,
        ensures
            s == self@.cell(i as int, j as int),
    {
        let n: usize = self.grid.len();
        proof {
            lemma_row_major(i as int, j as int, self@.width as int, self@.height as int);
            assert(self@.height as int * self@.width as int == self@.width as int
                * self@.height as int) by (nonlinear_arith);
        }
        self.grid[i * self.width + j]
    }

    /// The 3x3 block of coordinates centered on `(i, j)`, row-major, each
    /// row wrapped modulo the height and each column modulo the width. The
    /// center coordinate itself is included, at index 4.
    pub fn get_surrounding(&self, i: usize, j: usize) -> (r: Vec<(usize, usize)>)
        requires
            self.wf(),
            i < self@.height,
            j < self@.width,
        ensures
            r@.len() == 9,
            forall|k: int|
                0 <= k < 9 ==> ((#[trigger] r@[k]).0 as int, r@[k].1 as int)
                    == surrounding_coords(self@.height as int, self@.width as int, i as int, j as int)[k],
    {
        let im: usize = if i == 0 {
            self.height - 1
        } else {
            i - 1
        };
        let jm: usize = if j == 0 {
            self.width - 1
        } else {
            j - 1
        };
        let ip: usize = if i + 1 == self.height {
            0
        } else {
            i + 1
        };
        let jp: usize = if j + 1 == self.width {
            0
        } else {
            j + 1
        };
        proof {
            assert(im as int == wrap_dec(i as int, self@.height as int));
            assert(ip as int == wrap_inc(i as int, self@.height as int));
            assert(jm as int == wrap_dec(j as int, self@.width as int));
            assert(jp as int == wrap_inc(j as int, self@.width as int));
        }
        let mut res: Vec<(usize, usize)> = Vec::new();
        res.push((im, jm));
        res.push((im, j));
        res.push((im, jp));
        res.push((i, jm));
        res.push((i, j));
        res.push((i, jp));
        res.push((ip, jm));
        res.push((ip, j));
        res.push((ip, jp));
        res
    }

    /// The red and blue tallies over the eight true neighbors of `(i, j)`,
    /// the cell itself excluded.
    #[verifier::rlimit(100)]
    fn count_colors(&self, i: usize, j: usize) -> (rb: (u8, u8))
        requires
            self.wf(),
            i < self@.height,
            j < self@.width,
        ensures
            rb.0 as int == self@.neighbor_count(i as int, j as int, State::Red),
            rb.1 as int == self@.neighbor_count(i as int, j as int, State::Blue),
    {
        let im: usize = if i == 0 {
            self.height - 1
        } else {
            i - 1
        };
        let jm: usize = if j == 0 {
            self.width - 1
        } else {
            j - 1
        };
        let ip: usize = if i + 1 == self.height {
            0
        } else {
            i + 1
        };
        let jp: usize = if j + 1 == self.width {
            0
        } else {
            j + 1
        };
        proof {
            assert(im as int == wrap_dec(i as int, self@.height as int));
            assert(ip as int == wrap_inc(i as int, self@.height as int));
            assert(jm as int == wrap_dec(j as int, self@.width as int));
            assert(jp as int == wrap_inc(j as int, self@.width as int));
        }
        let s0 = self.get(im, jm);
        let s1 = self.get(im, j);
        let s2 = self.get(im, jp);
        let s3 = self.get(i, jm);
        let s4 = self.get(i, jp);
        let s5 = self.get(ip, jm);
        let s6 = self.get(ip, j);
        let s7 = self.get(ip, jp);
        let red: u8 = one_if(s0, State::Red) + one_if(s1, State::Red) + one_if(s2, State::Red)
            + one_if(s3, State::Red) + one_if(s4, State::Red) + one_if(s5, State::Red)
            + one_if(s6, State::Red) + one_if(s7, State::Red);
        let blue: u8 = one_if(s0, State::Blue) + one_if(s1, State::Blue) + one_if(s2, State::Blue)
            + one_if(s3, State::Blue) + one_if(s4, State::Blue) + one_if(s5, State::Blue)
            + one_if(s6, State::Blue) + one_if(s7, State::Blue);
        (red, blue)
    }

    /// The next generation: a fresh grid of the same dimensions whose every
    /// cell is the transition rule's output for the corresponding cell of
    /// this one. The receiver is not changed.
    pub fn step(&self) -> (g: Grid)
        requires
            self.wf(),
        ensures
            g.wf(),
            g@ == self@.step(),
    {
        let ghost m = self@.step();
        let mut cells: Vec<State> = Vec::new();
        let mut i: usize = 0;
        while i < self.height
            invariant
                self.wf(),
                m == self@.step(),
                i <= self@.height,
                cells@.len() == i as int * self@.width as int,
                forall|k: int| 0 <= k < cells@.len() ==> #[trigger] cells@[k] == m.cells[k],
            decreases self@.height - i,
        {
            let mut j: usize = 0;
            while j < self.width
                invariant
                    self.wf(),
                    m == self@.step(),
                    i < self@.height,
                    j <= self@.width,
                    cells@.len() == i as int * self@.width as int + j as int,
                    forall|k: int| 0 <= k < cells@.len() ==> #[trigger] cells@[k] == m.cells[k],
                decreases self@.width - j,
            {
                let rb = self.count_colors(i, j);
                let cur = self.get(i, j);
                let next = next_state(cur, rb.0, rb.1);
                proof {
                    let w: int = self@.width as int;
                    let h: int = self@.height as int;
                    lemma_row_major(i as int, j as int, w, h);
                    assert(h * w == w * h) by (nonlinear_arith);
                }
                cells.push(next);
                j = j + 1;
            }
            proof {
                assert((i as int + 1) * self@.width as int == i as int * self@.width as int
                    + self@.width as int) by (nonlinear_arith);
            }
            i = i + 1;
        }
        proof {
            assert(self@.height as int * self@.width as int == self@.width as int
                * self@.height as int) by (nonlinear_arith);
            assert(cells@ =~= m.cells);
        }
        let g = Grid { grid: cells, width: self.width, height: self.height };
        proof {
            assert(g@ =~= m);
        }
        g
    }
}

/// The transition rule for one cell, executably: `red` and `blue` are the
/// neighbor tallies of the cell whose current state is `cur`.
pub fn next_state(cur: State, red: u8, blue: u8) -> (s: State)
    ensures
        s == next_cell(cur, red as int, blue as int),
{
    let total: u16 = red as u16 + blue as u16;
    match cur {
        State::Dead => {
            if total == 3 {
                if red > blue {
                    State::Red
                } else {
                    State::Blue
                }
            } else {
                State::Dead
            }
        },
        State::Red => {
            if blue > red {
                State::Blue
            } else if 3 <= total && total <= 4 {
                State::Red
            } else {
                State::Dead
            }
        },
        State::Blue => {
            if red > blue {
                State::Red
            } else if 3 <= total && total <= 4 {
                State::Blue
            } else {
                State::Dead
            }
        },
    }
}

/// Law: stepping is deterministic. The next generation is a function of the
/// current one alone: equal generations step to equal generations.
pub proof fn lemma_step_deterministic(a: GridModel, b: GridModel)
    requires
        a == b,
    ensures
        a.step() == b.step(),
{
}

/// Law: stepping preserves the grid's dimensions, and a well-formed
/// generation steps to a well-formed one.
pub proof fn lemma_step_preserves_dimensions(g: GridModel)
    ensures
        g.step().width == g.width,
        g.step().height == g.height,
        g.step().wf(),
{
}

/// Law: the surrounding block wraps toroidally. For any grid of at least one
/// row and column, the block centered on the corner `(0, 0)` contains the
/// opposite corner `(height - 1, width - 1)`, the cell `(height - 1, 0)` and
/// the cell `(0, width - 1)`, all at positions other than the center's
/// index 4 — that is, among the eight true neighbors.
pub proof fn lemma_toroidal_wraparound(height: int, width: int)
    requires
        height >= 1,
        width >= 1,
    ensures
        surrounding_coords(height, width, 0, 0)[0] == (height - 1, width - 1),
        surrounding_coords(height, width, 0, 0)[1] == (height - 1, 0int),
        surrounding_coords(height, width, 0, 0)[3] == (0int, width - 1),
        surrounding_coords(height, width, 0, 0).contains((height - 1, width - 1)),
        surrounding_coords(height, width, 0, 0).contains((height - 1, 0int)),
        surrounding_coords(height, width, 0, 0).contains((0int, width - 1)),
{
    let sc = surrounding_coords(height, width, 0, 0);
    assert(sc[0] == (height - 1, width - 1));
    assert(sc[1] == (height - 1, 0int));
    assert(sc[3] == (0int, width - 1));
}

} // verus!
