//! The grid engine: cells, the board that owns them, and the operations
//! that build, edit, resize, advance and render a board.

use crate::pattern::{
    glyph, live, live_at, live_neighbours, next_alive, next_generation, pattern_width,
    rectangular, row_text, text_of,
};
use vstd::prelude::*;

verus! {

/// One position of the grid.
#[derive(Clone, Copy, Debug, PartialEq, Eq, Structural)]
pub struct Square {
    /// Whether the cell is alive in the current generation.
    pub alive: bool,
    /// Row of the cell inside the board that owns it.
    pub row: usize,
    /// Column of the cell inside the board that owns it.
    pub col: usize,
    /// Scratch count of live neighbours, meaningful only while a generation
    /// step is between its counting pass and its rule pass.
    pub neighbours_alive: u32,
}

/// The full simulation state: a rectangular matrix of cells, rows outer.
#[derive(Debug)]
pub struct Board {
    /// The cells, one inner vector per row.
    pub board: Vec<Vec<Square>>,
    /// Number of rows.
    pub rows: usize,
    /// Number of columns.
    pub cols: usize,
}

/// A cell as every constructor makes it: at `(r, c)`, with no count stored.
pub open spec fn fresh(alive: bool, r: int, c: int) -> Square {
    Square { alive, row: r as usize, col: c as usize, neighbours_alive: 0 }
}

/// The liveness pattern that a nested vector of booleans stands for.
pub open spec fn grid_of(v: Vec<Vec<bool>>) -> Seq<Seq<bool>> {
    Seq::new(v.len() as nat, |r: int| v[r]@)
}

/// The cells that a list of borrowed cells points to.
pub open spec fn squares_of(s: Seq<&Square>) -> Seq<Square> {
    Seq::new(s.len(), |k: int| *s[k])
}

/// 1 if `cell` is alive and is not `me`, 0 otherwise.
pub open spec fn counts_for(cell: Square, me: Square) -> int {
    if cell.alive && cell != me {
        1
    } else {
        0
    }
}

/// How many of the first `n` cells of `s` are alive and are not `me`.
pub open spec fn count_others(s: Seq<Square>, me: Square, n: int) -> int
    decreases n,
{
    if n <= 0 {
        0
    } else {
        count_others(s, me, n - 1) + counts_for(s[n - 1], me)
    }
}

/// The cell at `(r, c)` after a resize: the cell that was there before, or
/// a new dead one where there was none.
pub open spec fn resized_cell(cells: Seq<Seq<Square>>, r: int, c: int) -> Square {
    if 0 <= r < cells.len() && 0 <= c < cells[r].len() {
        cells[r][c]
    } else {
        fresh(false, r, c)
    }
}

/// The cells of a board after a resize to `rows` by `cols`, anchored at the
/// top left corner.
pub open spec fn resized(cells: Seq<Seq<Square>>, rows: nat, cols: nat) -> Seq<Seq<Square>> {
    Seq::new(rows, |r: int| Seq::new(cols, |c: int| resized_cell(cells, r, c)))
}

/// `String::push` of std: the string afterwards is the string before with
/// the one character `c` appended.
#[verifier::external_body]
fn push_char(s: &mut String, c: char)
    ensures
        final(s)@ == old(s)@.push(c),
{
    s.push(c);
}

impl View for Board {
    type V = Seq<Seq<bool>>;

    /// The liveness matrix: one boolean per cell, rows outer.
    open spec fn view(&self) -> Seq<Seq<bool>> {
        Seq::new(
            self.board.len() as nat,
            |r: int| Seq::new(self.board[r].len() as nat, |c: int| self.board[r][c].alive),
        )
    }
}

impl Default for Square {
    /// A dead cell at the origin.
    fn default() -> (out: Square)
        ensures
            out == fresh(false, 0, 0),
    {
        Square { alive: false, row: 0, col: 0, neighbours_alive: 0 }
    }
}

impl Default for Board {
    /// The board without any cell.
    fn default() -> (out: Board)
        ensures
            out.wf(),
            out.rows == 0,
            out.cols == 0,
            out@ == Seq::<Seq<bool>>::empty(),
    {
        let out = Board { board: Vec::new(), rows: 0, cols: 0 };
        out
    }
}

impl Square {
    /// Counts the live cells around this cell's position on `board`.
    ///
    /// The cell itself is left out where `board` holds it. A cell that the
    /// board does not hold excludes nothing, so a live cell at its position
    /// is counted with the others.
    pub fn count_living_neighbours(&self, board: &Board) -> (count: u32)
        requires
            board.wf(),
        ensures
            count == live_neighbours(board@, self.row as int, self.col as int) + if board.holds(
                *self,
            ) {
                0
            } else {
                live(board@, self.row as int, self.col as int)
            },
    {
        let mut count: u32 = 0;
        let neighbours: Vec<&Square> = board.get_neighbours(self.row, self.col);
        let ghost around = board.neighbourhood(self.row as int, self.col as int);
        let mut k: usize = 0;
        while k < neighbours.len()
            invariant
                k <= neighbours.len(),
                neighbours.len() <= 9,
                squares_of(neighbours@) == around,
                count == count_others(around, *self, k as int),
                count <= k,
            decreases neighbours.len() - k,
        {
            let cell = neighbours[k];
            if *cell == *self {
            } else if cell.alive {
                count += 1;
            }
            k += 1;
        }
        proof {
            board.lemma_neighbourhood_count(*self);
        }
        count
    }

    /// Applies the rule to this cell, using its stored neighbour count.
    pub fn update_status(&mut self)
        ensures
            final(self).alive == next_alive(old(self).alive, old(self).neighbours_alive as int),
            final(self).row == old(self).row,
            final(self).col == old(self).col,
            final(self).neighbours_alive == old(self).neighbours_alive,
    {
        if self.alive {
            if self.neighbours_alive < 2 || self.neighbours_alive > 3 {
                self.alive = false;
            }
        } else if self.neighbours_alive == 3 {
            self.alive = true;
        }
    }
}

impl Board {
    /// The cells of the board, rows outer.
    pub open spec fn cells(&self) -> Seq<Seq<Square>> {
        Seq::new(self.board.len() as nat, |r: int| self.board[r]@)
    }

    /// The board is rectangular with the dimensions it records, and every
    /// cell knows its own position.
    pub open spec fn wf(&self) -> bool {
        &&& self.board.len() == self.rows
        &&& forall|r: int| 0 <= r < self.rows ==> (#[trigger] self.board[r]).len() == self.cols
        &&& forall|r: int, c: int|
            0 <= r < self.rows && 0 <= c < self.cols ==> {
                &&& (#[trigger] self.board[r][c]).row == r
                &&& self.board[r][c].col == c
            }
    }

    /// Tests whether the board is well formed, for callers that fill the
    /// public fields themselves.
    pub fn is_well_formed(&self) -> (ok: bool)
        ensures
            ok == self.wf(),
    {
        if self.board.len() != self.rows {
            return false;
        }
        let mut i: usize = 0;
        while i < self.rows
            invariant
                i <= self.rows,
                self.board.len() == self.rows,
                forall|r: int| 0 <= r < i ==> (#[trigger] self.board[r]).len() == self.cols,
                forall|r: int, c: int|
                    0 <= r < i && 0 <= c < self.cols ==> {
                        &&& (#[trigger] self.board[r][c]).row == r
                        &&& self.board[r][c].col == c
                    },
            decreases self.rows - i,
        {
            if self.board[i].len() != self.cols {
                return false;
            }
            let mut j: usize = 0;
            while j < self.cols
                invariant
                    i < self.rows,
                    j <= self.cols,
                    self.board.len() == self.rows,
                    self.board[i as int].len() == self.cols,
                    forall|c: int|
                        0 <= c < j ==> {
                            &&& (#[trigger] self.board[i as int][c]).row == i
                            &&& self.board[i as int][c].col == c
                        },
                decreases self.cols - j,
            {
                if self.board[i][j].row != i || self.board[i][j].col != j {
                    return false;
                }
                j += 1;
            }
            i += 1;
        }
        true
    }

    /// Creates a board of the given size with every cell dead.
    pub fn with_size(rows: usize, cols: usize) -> (out: Board)
        ensures
            out.wf(),
            out.rows == rows,
            out.cols == cols,
            forall|r: int, c: int|
                0 <= r < rows && 0 <= c < cols ==> #[trigger] out.board[r][c] == fresh(false, r, c),
    {
        let tmp = vec![vec![false; cols]; rows];
        let mut out = Board { board: Vec::new(), rows, cols };
        out.set_board(tmp);
        out.cols = cols;
        out
    }

    /// Creates a board whose dimensions and liveness mirror `vec`.
    ///
    /// The first row decides the width. A shorter row is padded with dead
    /// cells and a longer one is cut, so the board is always rectangular.
    pub fn from_vec(vec: Vec<Vec<bool>>) -> (out: Board)
        ensures
            out.wf(),
            out.rows == vec.len(),
            out.cols == pattern_width(grid_of(vec)),
            forall|r: int, c: int|
                0 <= r < out.rows && 0 <= c < out.cols ==> #[trigger] out.board[r][c] == fresh(
                    live_at(grid_of(vec), r, c),
                    r,
                    c,
                ),
            rectangular(grid_of(vec)) ==> out@ == grid_of(vec),
    {
        let mut out = Board { board: Vec::new(), rows: 0, cols: 0 };
        out.set_board(vec);
        proof {
            if rectangular(grid_of(vec)) {
                assert forall|r: int| 0 <= r < out.rows implies #[trigger] out@[r] == grid_of(
                    vec,
                )[r] by {
                    assert(out@[r] =~= grid_of(vec)[r]);
                }
                assert(out@ =~= grid_of(vec));
            }
        }
        out
    }

    /// Replaces the whole board by the pattern `vec`, dimensions included.
    ///
    /// The first row decides the width. A shorter row is padded with dead
    /// cells and a longer one is cut.
    pub fn set_board(&mut self, vec: Vec<Vec<bool>>)
        ensures
            final(self).wf(),
            final(self).rows == vec.len(),
            final(self).cols == pattern_width(grid_of(vec)),
            forall|r: int, c: int|
                0 <= r < final(self).rows && 0 <= c < final(self).cols
                    ==> #[trigger] final(self).board[r][c]
                    == fresh(live_at(grid_of(vec), r, c), r, c),
    {
        let width: usize = if vec.len() > 0 {
            vec[0].len()
        } else {
            0
        };
        self.board.clear();
        let mut i: usize = 0;
        while i < vec.len()
            invariant
                i <= vec.len(),
                width == pattern_width(grid_of(vec)),
                self.board.len() == i,
                forall|r: int| 0 <= r < i ==> (#[trigger] self.board[r]).len() == width,
                forall|r: int, c: int|
                    0 <= r < i && 0 <= c < width ==> #[trigger] self.board[r][c] == fresh(
                        live_at(grid_of(vec), r, c),
                        r,
                        c,
                    ),
            decreases vec.len() - i,
        {
            let mut row: Vec<Square> = Vec::new();
            let mut j: usize = 0;
            while j < width
                invariant
                    i < vec.len(),
                    j <= width,
                    row.len() == j,
                    forall|c: int|
                        0 <= c < j ==> #[trigger] row[c] == fresh(
                            live_at(grid_of(vec), i as int, c),
                            i as int,
                            c,
                        ),
                decreases width - j,
            {
                let alive = j < vec[i].len() && vec[i][j];
                row.push(Square { alive, row: i, col: j, neighbours_alive: 0 });
                j += 1;
            }
            self.board.push(row);
            i += 1;
        }
        self.rows = vec.len();
        self.cols = width;
    }

    /// Whether `me` is the very cell that the board stores at `me`'s position.
    pub open spec fn holds(&self, me: Square) -> bool {
        me.row < self.rows && me.col < self.cols && self.board[me.row as int][me.col as int] == me
    }

    /// The cells of row `r` in columns `c - 1` to `c + 1`, as far as they exist.
    pub open spec fn row_span(&self, r: int, c: int) -> Seq<Square> {
        let lo = if c > 0 {
            c - 1
        } else {
            0
        };
        let hi = if c + 2 < self.cols {
            c + 2
        } else {
            self.cols as int
        };
        if 0 <= r < self.rows && lo < hi {
            self.board[r]@.subrange(lo, hi)
        } else {
            Seq::empty()
        }
    }

    /// The part of the clipped block around `(r, c)` that lies in the rows
    /// above `upto`.
    spec fn block_upto(&self, r: int, c: int, upto: int) -> Seq<Square> {
        (if r - 1 < upto {
            self.row_span(r - 1, c)
        } else {
            Seq::empty()
        }) + (if r < upto {
            self.row_span(r, c)
        } else {
            Seq::empty()
        }) + (if r + 1 < upto {
            self.row_span(r + 1, c)
        } else {
            Seq::empty()
        })
    }

    /// The 3x3 block centred on `(r, c)`, clipped to the board, row by row.
    /// The centre is part of it.
    pub open spec fn neighbourhood(&self, r: int, c: int) -> Seq<Square> {
        self.row_span(r - 1, c) + self.row_span(r, c) + self.row_span(r + 1, c)
    }

    /// The cells of the clipped 3x3 block around `(m, n)`, centre included,
    /// in row-major order. Any `m` and `n` are accepted: a block that lies
    /// wholly outside the board is empty.
    pub fn get_neighbours(&self, m: usize, n: usize) -> (output: Vec<&Square>)
        requires
            self.wf(),
        ensures
            squares_of(output@) == self.neighbourhood(m as int, n as int),
            output.len() <= 9,
    {
        let mut output: Vec<&Square> = Vec::new();
        let imin: usize = if m > 0 {
            m - 1
        } else {
            0
        };
        let jmin: usize = if n > 0 {
            n - 1
        } else {
            0
        };
        let imax: usize = if self.rows >= 2 && m <= self.rows - 2 {
            m + 2
        } else {
            self.rows
        };
        let jmax: usize = if self.cols >= 2 && n <= self.cols - 2 {
            n + 2
        } else {
            self.cols
        };
        let mut i: usize = imin;
        while i < imax
            invariant
                self.wf(),
                imin == if m > 0 { m - 1 } else { 0 },
                jmin == if n > 0 { n - 1 } else { 0 },
                imax == if m + 2 < self.rows { m + 2 } else { self.rows as int },
                jmax == if n + 2 < self.cols { n + 2 } else { self.cols as int },
                imin <= i,
                i <= imax || i == imin,
                squares_of(output@) == self.block_upto(m as int, n as int, i as int),
                output.len() <= 3 * (i - imin),
            decreases imax - i,
        {
            let ghost above = squares_of(output@);
            let ghost row = self.board[i as int]@;
            let mut j: usize = jmin;
            while j < jmax
                invariant
                    self.wf(),
                    i < self.rows,
                    row == self.board[i as int]@,
                    jmin <= j,
                    j <= jmax || j == jmin,
                    jmax <= self.cols,
                    jmax <= jmin + 3,
                    squares_of(output@) == above + (if jmin < jmax {
                        row.subrange(jmin as int, j as int)
                    } else {
                        Seq::empty()
                    }),
                    output.len() == above.len() + (j - jmin),
                decreases jmax - j,
            {
                let ghost before = output@;
                output.push(&self.board[i][j]);
                j += 1;
                assert(squares_of(output@) =~= above + row.subrange(jmin as int, j as int)) by {
                    assert forall|k: int| 0 <= k < output.len() implies squares_of(output@)[k] == (
                    above + row.subrange(jmin as int, j as int))[k] by {
                        if k < before.len() {
                            assert(squares_of(before)[k] == *before[k]);
                        }
                    }
                }
            }
            i += 1;
        }
        output
    }

    /// Counting over the first `k` cells of `a + b` is counting over `a`
    /// where `k` stays inside `a`, and splits in two where it reaches into `b`.
    proof fn lemma_count_concat(a: Seq<Square>, b: Seq<Square>, me: Square, k: int)
        requires
            0 <= k <= b.len(),
        ensures
            count_others(a + b, me, a.len() + k) == count_others(a, me, a.len() as int)
                + count_others(b, me, k),
        decreases k,
    {
        if k > 0 {
            Self::lemma_count_concat(a, b, me, k - 1);
        } else {
            Self::lemma_count_prefix(a + b, a, me, a.len() as int);
        }
    }

    /// Two sequences that agree on their first `k` cells count alike there.
    proof fn lemma_count_prefix(s: Seq<Square>, t: Seq<Square>, me: Square, k: int)
        requires
            0 <= k <= s.len(),
            k <= t.len(),
            forall|i: int| 0 <= i < k ==> s[i] == t[i],
        ensures
            count_others(s, me, k) == count_others(t, me, k),
        decreases k,
    {
        if k > 0 {
            Self::lemma_count_prefix(s, t, me, k - 1);
        }
    }

    /// What the cell at `(r, c)` adds to a count made for `me`: 1 if the
    /// position is on the board and its cell is alive and is not `me`.
    spec fn adds(&self, r: int, c: int, me: Square) -> int {
        if 0 <= r < self.rows && 0 <= c < self.cols {
            counts_for(self.board[r][c], me)
        } else {
            0
        }
    }

    /// The count over one clipped row of the block is the sum over its three
    /// positions, those beyond an edge adding nothing.
    proof fn lemma_row_span_count(&self, r: int, c: int, me: Square)
        requires
            self.wf(),
            0 <= c,
        ensures
            count_others(self.row_span(r, c), me, self.row_span(r, c).len() as int) == self.adds(
                r,
                c - 1,
                me,
            ) + self.adds(r, c, me) + self.adds(r, c + 1, me),
    {
        reveal_with_fuel(count_others, 4);
    }

    /// Away from `me`'s own position no cell of the board is `me`, so a
    /// position adds to the count exactly when it is alive.
    proof fn lemma_adds_live(&self, r: int, c: int, me: Square)
        requires
            self.wf(),
            r != me.row || c != me.col,
        ensures
            self.adds(r, c, me) == live(self@, r, c),
    {
        if 0 <= r < self.rows && 0 <= c < self.cols {
            assert(self.board[r][c].row == r && self.board[r][c].col == c);
        }
    }

    /// Counting the live cells of the clipped block that are not `me` gives
    /// the live neighbours of `me`'s position, plus the centre cell where it
    /// is alive and is not `me` itself.
    pub proof fn lemma_neighbourhood_count(&self, me: Square)
        requires
            self.wf(),
        ensures
            count_others(
                self.neighbourhood(me.row as int, me.col as int),
                me,
                self.neighbourhood(me.row as int, me.col as int).len() as int,
            ) == live_neighbours(self@, me.row as int, me.col as int) + if self.holds(me) {
                0
            } else {
                live(self@, me.row as int, me.col as int)
            },
    {
        let r = me.row as int;
        let c = me.col as int;
        let top = self.row_span(r - 1, c);
        let mid = self.row_span(r, c);
        let low = self.row_span(r + 1, c);
        Self::lemma_count_concat(top + mid, low, me, low.len() as int);
        Self::lemma_count_concat(top, mid, me, mid.len() as int);
        self.lemma_row_span_count(r - 1, c, me);
        self.lemma_row_span_count(r, c, me);
        self.lemma_row_span_count(r + 1, c, me);
        self.lemma_adds_live(r - 1, c - 1, me);
        self.lemma_adds_live(r - 1, c, me);
        self.lemma_adds_live(r - 1, c + 1, me);
        self.lemma_adds_live(r, c - 1, me);
        self.lemma_adds_live(r, c + 1, me);
        self.lemma_adds_live(r + 1, c - 1, me);
        self.lemma_adds_live(r + 1, c, me);
        self.lemma_adds_live(r + 1, c + 1, me);
    }

    /// At the top left corner the clipped block is at most 2x2: it holds
    /// only cells of the board from rows and columns 0 and 1, so the corner
    /// has at most three neighbours, those to its right, below it and
    /// diagonally below.
    pub proof fn lemma_corner_block(&self)
        requires
            self.wf(),
        ensures
            self.neighbourhood(0, 0).len() <= 4,
            forall|k: int|
                0 <= k < self.neighbourhood(0, 0).len() ==> {
                    let cell = #[trigger] self.neighbourhood(0, 0)[k];
                    &&& cell.row < 2 && cell.row < self.rows
                    &&& cell.col < 2 && cell.col < self.cols
                    &&& self.board[cell.row as int][cell.col as int] == cell
                },
            live_neighbours(self@, 0, 0) == live(self@, 0, 1) + live(self@, 1, 0) + live(
                self@,
                1,
                1,
            ),
            live_neighbours(self@, 0, 0) <= 3,
    {
        assert(self.neighbourhood(0, 0) =~= self.row_span(0, 0) + self.row_span(1, 0));
    }

    /// Resizes the board to `new_rows` by `new_cols`, anchored at the top
    /// left corner. Cells inside both the old and the new area are kept as
    /// they are, trailing rows and columns are dropped, and new positions
    /// are filled with dead cells. A resize to the current size changes
    /// nothing.
    pub fn resize_board(&mut self, new_rows: usize, new_cols: usize)
        requires
            old(self).wf(),
        ensures
            final(self).wf(),
            final(self).rows == new_rows,
            final(self).cols == new_cols,
            final(self).cells() == resized(old(self).cells(), new_rows as nat, new_cols as nat),
            new_rows == old(self).rows && new_cols == old(self).cols ==> *final(self) == *old(self),
    {
        let ghost orig = *self;
        let kept_rows: usize = if self.rows > new_rows {
            new_rows
        } else {
            self.rows
        };
        let kept_cols: usize = if self.cols > new_cols {
            new_cols
        } else {
            self.cols
        };
        if self.rows > new_rows {
            let mut k: usize = self.rows;
            while k > new_rows
                invariant
                    new_rows <= k <= orig.rows,
                    self.rows == orig.rows,
                    self.cols == orig.cols,
                    self.board@ == orig.board@.subrange(0, k as int),
                    orig.board.len() == orig.rows,
                decreases k,
            {
                self.board.pop();
                k -= 1;
            }
        }
        if self.cols > new_cols {
            let mut i: usize = 0;
            while i < kept_rows
                invariant
                    orig.wf(),
                    i <= kept_rows <= orig.rows,
                    kept_cols == new_cols < orig.cols,
                    self.rows == orig.rows,
                    self.cols == orig.cols,
                    self.board.len() == kept_rows,
                    forall|r: int| i <= r < kept_rows ==> #[trigger] self.board[r] == orig.board[r],
                    forall|r: int|
                        0 <= r < i ==> (#[trigger] self.board[r])@ == orig.board[r]@.subrange(
                            0,
                            kept_cols as int,
                        ),
                decreases kept_rows - i,
            {
                let mut k: usize = self.cols;
                while k > new_cols
                    invariant
                        orig.wf(),
                        i < kept_rows <= orig.rows,
                        kept_cols == new_cols <= k <= orig.cols,
                        self.rows == orig.rows,
                        self.cols == orig.cols,
                        self.board.len() == kept_rows,
                        forall|r: int|
                            i < r < kept_rows ==> #[trigger] self.board[r] == orig.board[r],
                        forall|r: int|
                            0 <= r < i ==> (#[trigger] self.board[r])@ == orig.board[r]@.subrange(
                                0,
                                kept_cols as int,
                            ),
                        self.board[i as int]@ == orig.board[i as int]@.subrange(0, k as int),
                    decreases k,
                {
                    self.board[i].pop();
                    k -= 1;
                }
                i += 1;
            }
        }
        if self.rows < new_rows {
            let mut i: usize = self.rows;
            while i < new_rows
                invariant
                    orig.wf(),
                    orig.rows <= i <= new_rows,
                    kept_rows == orig.rows,
                    kept_cols <= orig.cols,
                    kept_cols <= new_cols,
                    self.rows == orig.rows,
                    self.cols == orig.cols,
                    self.board.len() == i,
                    forall|r: int|
                        0 <= r < kept_rows ==> (#[trigger] self.board[r])@
                            == orig.board[r]@.subrange(0, kept_cols as int),
                    forall|r: int|
                        kept_rows <= r < i ==> (#[trigger] self.board[r]).len() == kept_cols,
                    forall|r: int, c: int|
                        kept_rows <= r < i && 0 <= c < kept_cols ==> #[trigger] self.board[r][c]
                            == fresh(false, r, c),
                decreases new_rows - i,
            {
                let mut new_row: Vec<Square> = Vec::new();
                let mut j: usize = 0;
                while j < kept_cols
                    invariant
                        j <= kept_cols,
                        new_row.len() == j,
                        forall|c: int|
                            0 <= c < j ==> #[trigger] new_row[c] == fresh(false, i as int, c),
                    decreases kept_cols - j,
                {
                    new_row.push(Square { alive: false, row: i, col: j, neighbours_alive: 0 });
                    j += 1;
                }
                self.board.push(new_row);
                i += 1;
            }
        }
        if self.cols < new_cols {
            let mut i: usize = 0;
            while i < new_rows
                invariant
                    orig.wf(),
                    i <= new_rows,
                    kept_rows <= orig.rows,
                    kept_rows <= new_rows,
                    kept_cols == orig.cols < new_cols,
                    self.rows == orig.rows,
                    self.cols == orig.cols,
                    self.board.len() == new_rows,
                    forall|r: int|
                        0 <= r < new_rows ==> (#[trigger] self.board[r]).len() == if r < i {
                            new_cols
                        } else {
                            kept_cols
                        },
                    forall|r: int, c: int|
                        0 <= r < new_rows && 0 <= c < self.board[r].len()
                            ==> #[trigger] self.board[r][c] == resized_cell(orig.cells(), r, c),
                decreases new_rows - i,
            {
                let mut j: usize = self.cols;
                while j < new_cols
                    invariant
                        orig.wf(),
                        i < new_rows,
                        kept_rows <= orig.rows,
                        kept_rows <= new_rows,
                        kept_cols == orig.cols <= j <= new_cols,
                        self.rows == orig.rows,
                        self.cols == orig.cols,
                        self.board.len() == new_rows,
                        forall|r: int|
                            0 <= r < new_rows ==> (#[trigger] self.board[r]).len() == if r < i {
                                new_cols as int
                            } else if r == i {
                                j as int
                            } else {
                                kept_cols as int
                            },
                        forall|r: int, c: int|
                            0 <= r < new_rows && 0 <= c < self.board[r].len()
                                ==> #[trigger] self.board[r][c] == resized_cell(orig.cells(), r, c),
                    decreases new_cols - j,
                {
                    let cell = Square { alive: false, row: i, col: j, neighbours_alive: 0 };
                    self.board[i].push(cell);
                    j += 1;
                }
                i += 1;
            }
        }
        self.rows = new_rows;
        self.cols = new_cols;
        assert(self.cells() =~~= resized(orig.cells(), new_rows as nat, new_cols as nat));
    }

    /// Renders the board as text: a full block for a live cell, a shaded
    /// block for a dead one, one line per row, each ended by a line feed.
    pub fn to_string(&self) -> (out: String)
        requires
            self.wf(),
        ensures
            out@ == text_of(self@, self.rows as int),
    {
        let mut out = String::new();
        let mut i: usize = 0;
        while i < self.rows
            invariant
                self.wf(),
                i <= self.rows,
                out@ == text_of(self@, i as int),
            decreases self.rows - i,
        {
            let ghost above = out@;
            let mut j: usize = 0;
            while j < self.cols
                invariant
                    self.wf(),
                    i < self.rows,
                    j <= self.cols,
                    out@ == above + Seq::new(j as nat, |c: int| glyph(self@[i as int][c])),
                decreases self.cols - j,
            {
                if self.board[i][j].alive {
                    push_char(&mut out, '\u{2588}');
                } else {
                    push_char(&mut out, '\u{2592}');
                }
                j += 1;
            }
            push_char(&mut out, '\n');
            i += 1;
        }
        out
    }

    /// Replaces the board by its next generation.
    ///
    /// A first pass stores in every cell the number of its live neighbours;
    /// only then a second pass applies the rule to every cell, so that each
    /// cell is judged against the generation that is being left.
    pub fn advance_state(&mut self)
        requires
            old(self).wf(),
        ensures
            final(self).wf(),
            final(self).rows == old(self).rows,
            final(self).cols == old(self).cols,
            final(self)@ == next_generation(old(self)@),
            forall|r: int, c: int|
                0 <= r < old(self).rows && 0 <= c < old(self).cols ==> (#[trigger] final(
                    self
                ).board[r][c]).neighbours_alive == live_neighbours(old(self)@, r, c),
    {
        let ghost before = self@;
        let mut i: usize = 0;
        while i < self.rows
            invariant
                self.wf(),
                self.cols == old(self).cols,
                i <= self.rows,
                self@ == before,
                forall|r: int, c: int|
                    0 <= r < i && 0 <= c < self.cols ==> (
                    #[trigger] self.board[r][c]).neighbours_alive == live_neighbours(before, r, c),
            decreases self.rows - i,
        {
            let mut j: usize = 0;
            while j < self.cols
                invariant
                    self.wf(),
                    self.cols == old(self).cols,
                self.cols == old(self).cols,
                    i < self.rows,
                    j <= self.cols,
                    self@ == before,
                    forall|r: int, c: int|
                        0 <= r < i && 0 <= c < self.cols ==> (
                        #[trigger] self.board[r][c]).neighbours_alive == live_neighbours(
                            before,
                            r,
                            c,
                        ),
                    forall|c: int|
                        0 <= c < j ==> (#[trigger] self.board[i as int][c]).neighbours_alive
                            == live_neighbours(before, i as int, c),
                decreases self.cols - j,
            {
                let count = self.board[i][j].count_living_neighbours(self);
                let ghost earlier = *self;
                self.board[i][j].neighbours_alive = count;
                assert(self@ =~~= earlier@);
                j += 1;
            }
            i += 1;
        }
        let mut i: usize = 0;
        while i < self.rows
            invariant
                self.wf(),
                self.cols == old(self).cols,
                i <= self.rows,
                self.rows == before.len(),
                forall|r: int| 0 <= r < self.rows ==> (#[trigger] before[r]).len() == self.cols,
                forall|r: int, c: int|
                    0 <= r < self.rows && 0 <= c < self.cols ==> (
                    #[trigger] self.board[r][c]).neighbours_alive == live_neighbours(before, r, c),
                forall|r: int, c: int|
                    0 <= r < self.rows && 0 <= c < self.cols ==> (
                    #[trigger] self.board[r][c]).alive == if r < i {
                        next_alive(before[r][c], live_neighbours(before, r, c))
                    } else {
                        before[r][c]
                    },
            decreases self.rows - i,
        {
            let mut j: usize = 0;
            while j < self.cols
                invariant
                    self.wf(),
                    self.cols == old(self).cols,
                self.cols == old(self).cols,
                    i < self.rows,
                    j <= self.cols,
                    self.rows == before.len(),
                    forall|r: int| 0 <= r < self.rows ==> (#[trigger] before[r]).len() == self.cols,
                    forall|r: int, c: int|
                        0 <= r < self.rows && 0 <= c < self.cols ==> (
                        #[trigger] self.board[r][c]).neighbours_alive == live_neighbours(
                            before,
                            r,
                            c,
                        ),
                    forall|r: int, c: int|
                        0 <= r < self.rows && 0 <= c < self.cols ==> (
                        #[trigger] self.board[r][c]).alive == if r < i || (r == i && c < j) {
                            next_alive(before[r][c], live_neighbours(before, r, c))
                        } else {
                            before[r][c]
                        },
                decreases self.cols - j,
            {
                self.board[i][j].update_status();
                j += 1;
            }
            i += 1;
        }
        assert(self@ =~~= next_generation(before));
    }

    /// Sets the liveness of one cell, or reports that no such cell exists.
    ///
    /// A cell exists at `(row, col)` where `row < rows` and `col < cols`, so
    /// the first index past either edge is already out of range. A call
    /// that fails leaves the board as it was.
    pub fn set_cell(&mut self, row: usize, col: usize, alive: bool) -> (res: Result<
        (),
        &'static str,
    >)
        requires
            old(self).wf(),
        ensures
            final(self).wf(),
            final(self).rows == old(self).rows,
            final(self).cols == old(self).cols,
            res is Err <==> row >= old(self).rows || col >= old(self).cols,
            res is Err ==> res->Err_0@ == "Index out of range"@ && *final(self) == *old(self),
            res is Ok ==> forall|r: int, c: int|
                0 <= r < old(self).rows && 0 <= c < old(self).cols
                    ==> #[trigger] final(self).board[r][c] == if r == row && c == col {
                    Square { alive, ..old(self).board[r][c] }
                } else {
                    old(self).board[r][c]
                },
    {
        if row >= self.rows || col >= self.cols {
            return Err("Index out of range");
        }
        self.board[row][col].alive = alive;
        Ok(())
    }
}

/// Whether `cells` is a matrix of `rows` rows of `cols` cells each.
pub open spec fn has_shape(cells: Seq<Seq<Square>>, rows: nat, cols: nat) -> bool {
    cells.len() == rows && forall|r: int| 0 <= r < rows ==> (#[trigger] cells[r]).len() == cols
}

/// A resize to the size that a matrix already has gives the same matrix.
pub proof fn lemma_resize_same_size(cells: Seq<Seq<Square>>, rows: nat, cols: nat)
    requires
        has_shape(cells, rows, cols),
    ensures
        resized(cells, rows, cols) == cells,
{
    assert(resized(cells, rows, cols) =~~= cells);
}

/// Rows and columns are resized independently: to change the rows first and
/// then the columns, or the columns first and then the rows, gives what one
/// resize to the final size gives.
pub proof fn lemma_resize_orthogonal(
    cells: Seq<Seq<Square>>,
    rows: nat,
    cols: nat,
    new_rows: nat,
    new_cols: nat,
)
    requires
        has_shape(cells, rows, cols),
    ensures
        resized(resized(cells, new_rows, cols), new_rows, new_cols) == resized(
            cells,
            new_rows,
            new_cols,
        ),
        resized(resized(cells, rows, new_cols), new_rows, new_cols) == resized(
            cells,
            new_rows,
            new_cols,
        ),
{
    assert(resized(resized(cells, new_rows, cols), new_rows, new_cols) =~~= resized(
        cells,
        new_rows,
        new_cols,
    ));
    assert(resized(resized(cells, rows, new_cols), new_rows, new_cols) =~~= resized(
        cells,
        new_rows,
        new_cols,
    ));
}

} // verus!
