use vstd::prelude::*;
use vstd::arithmetic::div_mod::lemma_fundamental_div_mod_converse;
use crate::cell::{alive_count, rule, Cell};
use crate::raster::{pixel_after, rendered, CELL_SIZE, HEIGHT, WIDTH};
use crate::seed::{gen_below, thread_rng};

verus! {

/// `i` taken modulo `n` into `0..n`, also for negative `i`.
#[verifier::opaque]
pub open spec fn wrap(i: int, n: int) -> int {
    i % n
}

/// 1 when the cell at `(r, c)`, both coordinates wrapped, is alive.
pub open spec fn alive_at(g: Seq<Seq<Cell>>, w: int, r: int, c: int) -> int {
    alive_count(g[wrap(r, g.len() as int)][wrap(c, w)])
}

/// How many of the eight toroidal neighbours of `(r, c)` are alive. On a
/// grid one or two cells wide or tall the same cell may be counted through
/// several offsets; on a 1×1 grid the cell is its own neighbour eight times.
pub open spec fn neighbor_count(g: Seq<Seq<Cell>>, w: int, r: int, c: int) -> int {
    alive_at(g, w, r - 1, c - 1) + alive_at(g, w, r - 1, c) + alive_at(g, w, r - 1, c + 1)
        + alive_at(g, w, r, c - 1) + alive_at(g, w, r, c + 1)
        + alive_at(g, w, r + 1, c - 1) + alive_at(g, w, r + 1, c) + alive_at(g, w, r + 1, c + 1)
}

/// A row-major grid of `g.len()` rows, each of `w` cells.
pub open spec fn rectangular(g: Seq<Seq<Cell>>, w: int) -> bool {
    forall|r: int| 0 <= r < g.len() ==> #[trigger] g[r].len() == w
}

/// The generation that follows `g` (of width `w`), each cell computed from
/// `g` alone.
pub open spec fn next_generation(g: Seq<Seq<Cell>>, w: int) -> Seq<Seq<Cell>> {
    Seq::new(g.len(), |r: int| Seq::new(w as nat, |c: int| rule(g[r][c], neighbor_count(g, w, r, c))))
}

/// The grid of a universe as a sequence of rows.
pub open spec fn rows_view(grid: Seq<Vec<Cell>>) -> Seq<Seq<Cell>> {
    grid.map_values(|row: Vec<Cell>| row@)
}

/// A toroidal Game of Life universe of `height` rows of `width` cells.
pub struct Universe {
    grid: Vec<Vec<Cell>>,
    width: usize,
    height: usize,
}

impl View for Universe {
    type V = Seq<Seq<Cell>>;

    closed spec fn view(&self) -> Seq<Seq<Cell>> {
        rows_view(self.grid@)
    }
}

impl Universe {
    /// Width of the grid, in cells.
    pub closed spec fn spec_width(&self) -> usize {
        self.width
    }

    /// Height of the grid, in cells.
    pub closed spec fn spec_height(&self) -> usize {
        self.height
    }

    /// The grid holds `height` rows of `width` cells each.
    pub closed spec fn wf(&self) -> bool {
        &&& self.grid@.len() == self.height
        &&& forall|r: int| 0 <= r < self.grid@.len() ==> #[trigger] self.grid@[r]@.len() == self.width
    }

    proof fn lemma_view(&self)
        requires
            self.wf(),
        ensures
            self@.len() == self.spec_height(),
            rectangular(self@, self.spec_width() as int),
            forall|r: int| 0 <= r < self.spec_height() ==> #[trigger] self@[r] == self.grid@[r]@,
    {
    }

    /// A `width × height` universe whose cells are each drawn Alive or Dead
    /// independently, with even odds. A zero dimension gives an empty grid.
    pub fn new(width: usize, height: usize) -> (r: Universe)
        ensures
            r.wf(),
            r.width() == width,
            r.height() == height,
    {
        let mut rng = thread_rng();
        let mut grid: Vec<Vec<Cell>> = Vec::new();
        let mut row: usize = 0;
        while row < height
            invariant
                row <= height,
                grid@.len() == row,
                forall|r: int| 0 <= r < row ==> #[trigger] grid@[r]@.len() == width,
            decreases height - row,
        {
            let mut cells: Vec<Cell> = Vec::new();
            let mut col: usize = 0;
            while col < width
                invariant
                    col <= width,
                    cells@.len() == col,
                decreases width - col,
            {
                let draw = gen_below(&mut rng, 2);
                cells.push(if draw == 0 { Cell::Alive } else { Cell::Dead });
                col += 1;
            }
            grid.push(cells);
            row += 1;
        }
        Universe { grid, width, height }
    }

    /// A universe holding the given rows, each to be `width` cells long;
    /// `None` when some row has another length.
    pub fn from_rows(width: usize, rows: Vec<Vec<Cell>>) -> (r: Option<Universe>)
        ensures
            r.is_some() <==> rectangular(rows_view(rows@), width as int),
            r matches Some(u) ==> {
                &&& u.wf()
                &&& u.width() == width
                &&& u.height() == rows@.len()
                &&& u@ == rows_view(rows@)
            },
    {
        let mut i: usize = 0;
        while i < rows.len()
            invariant
                i <= rows@.len(),
                forall|r: int| 0 <= r < i ==> #[trigger] rows@[r]@.len() == width,
            decreases rows@.len() - i,
        {
            if rows[i].len() != width {
                assert(rows_view(rows@)[i as int].len() != width);
                return None;
            }
            i += 1;
        }
        let height = rows.len();
        Some(Universe { grid: rows, width, height })
    }

    /// The state of the cell at `(row, col)`.
    pub fn cell(&self, row: usize, col: usize) -> (r: Cell)
        requires
            self.wf(),
            row < self.height(),
            col < self.width(),
        ensures
            r == self@[row as int][col as int],
    {
        proof { self.lemma_view(); }
        self.grid[row][col]
    }

    /// A copy of the grid, row by row.
    pub fn cells(&self) -> (r: Vec<Vec<Cell>>)
        requires
            self.wf(),
        ensures
            rows_view(r@) == self@,
    {
        proof { self.lemma_view(); }
        let mut out: Vec<Vec<Cell>> = Vec::new();
        let mut row: usize = 0;
        while row < self.height
            invariant
                self.wf(),
                row <= self.height,
                out@.len() == row,
                forall|r: int| 0 <= r < row ==> #[trigger] out@[r]@ == self@[r],
            decreases self.height - row,
        {
            proof { self.lemma_view(); }
            let mut line: Vec<Cell> = Vec::new();
            let mut col: usize = 0;
            while col < self.width
                invariant
                    self.wf(),
                    row < self.height,
                    col <= self.width,
                    line@ == self@[row as int].subrange(0, col as int),
                decreases self.width - col,
            {
                proof { self.lemma_view(); }
                line.push(self.grid[row][col]);
                col += 1;
                assert(line@ =~= self@[row as int].subrange(0, col as int));
            }
            assert(line@ =~= self@[row as int]);
            out.push(line);
            row += 1;
        }
        assert(rows_view(out@) =~= self@);
        out
    }

    /// Width of the grid, in cells.
    #[verifier::when_used_as_spec(spec_width)]
    pub fn width(&self) -> (r: usize)
        ensures
            r == self.spec_width(),
    {
        self.width
    }

    /// Height of the grid, in cells.
    #[verifier::when_used_as_spec(spec_height)]
    pub fn height(&self) -> (r: usize)
        ensures
            r == self.spec_height(),
    {
        self.height
    }

    /// 1 when the cell at `(row, col)` is alive, else 0.
    fn alive_value(&self, row: usize, col: usize) -> (r: usize)
        requires
            self.wf(),
            row < self.height,
            col < self.width,
        ensures
            r == alive_count(self@[row as int][col as int]),
    {
        proof { self.lemma_view(); }
        if self.grid[row][col] == Cell::Alive { 1 } else { 0 }
    }

    /// The number of live cells among the eight toroidal neighbours of
    /// `(row, col)`.
    pub fn live_neighbor_count(&self, row: usize, col: usize) -> (r: usize)
        requires
            self.wf(),
            row < self.height(),
            col < self.width(),
        ensures
            r == neighbor_count(self@, self.width() as int, row as int, col as int),
            r <= 8,
    {
        proof { self.lemma_view(); }
        let h = self.height;
        let w = self.width;
        let up: usize = if row == 0 { h - 1 } else { row - 1 };
        let down: usize = if row + 1 == h { 0 } else { row + 1 };
        let left: usize = if col == 0 { w - 1 } else { col - 1 };
        let right: usize = if col + 1 == w { 0 } else { col + 1 };
        proof {
            let (hi, wi, ri, ci) = (h as int, w as int, row as int, col as int);
            lemma_wrap(ri - 1, hi, up as int);
            lemma_wrap(ri, hi, ri);
            lemma_wrap(ri + 1, hi, down as int);
            lemma_wrap(ci - 1, wi, left as int);
            lemma_wrap(ci, wi, ci);
            lemma_wrap(ci + 1, wi, right as int);
        }
        let a1 = self.alive_value(up, left);
        let a2 = self.alive_value(up, col);
        let a3 = self.alive_value(up, right);
        let a4 = self.alive_value(row, left);
        let a5 = self.alive_value(row, right);
        let a6 = self.alive_value(down, left);
        let a7 = self.alive_value(down, col);
        let a8 = self.alive_value(down, right);
        a1 + a2 + a3 + a4 + a5 + a6 + a7 + a8
    }

    /// The next generation, computed for every cell from the current
    /// generation alone and only then put in place of it: no cell sees a
    /// neighbour's new state.
    pub fn tick(&mut self)
        requires
            old(self).wf(),
        ensures
            final(self).wf(),
            final(self).width() == old(self).width(),
            final(self).height() == old(self).height(),
            final(self)@ == next_generation(old(self)@, old(self).width() as int),
    {
        proof { self.lemma_view(); }
        let ghost g = self@;
        let ghost w = self.width as int;
        let mut new_grid: Vec<Vec<Cell>> = Vec::new();
        let mut row: usize = 0;
        while row < self.height
            invariant
                self.wf(),
                self@ == g,
                w == self.width,
                g.len() == self.height,
                rectangular(g, w),
                row <= self.height,
                new_grid@.len() == row,
                forall|r: int| 0 <= r < row ==> #[trigger] new_grid@[r]@ == next_generation(g, w)[r],
            decreases self.height - row,
        {
            let mut new_row: Vec<Cell> = Vec::new();
            let mut col: usize = 0;
            while col < self.width
                invariant
                    self.wf(),
                    self@ == g,
                    w == self.width,
                    g.len() == self.height,
                    rectangular(g, w),
                    row < self.height,
                    col <= self.width,
                    new_row@ == Seq::new(col as nat, |c: int| rule(g[row as int][c], neighbor_count(g, w, row as int, c))),
                decreases self.width - col,
            {
                proof { self.lemma_view(); }
                let n = self.live_neighbor_count(row, col);
                let next = self.grid[row][col].next_state(n);
                new_row.push(next);
                col += 1;
                assert(new_row@ =~= Seq::new(col as nat, |c: int| rule(g[row as int][c], neighbor_count(g, w, row as int, c))));
            }
            assert(new_row@ =~= next_generation(g, w)[row as int]);
            new_grid.push(new_row);
            row += 1;
        }
        self.grid = new_grid;
        assert(self@ =~= next_generation(g, w));
    }

    /// Paints the grid on a row-major buffer of `display_width ×
    /// display_height` pixels, each cell as a `cell_size × cell_size` block
    /// of its colour. Pixels that no cell's block covers keep their value;
    /// block pixels outside the buffer are skipped.
    pub fn draw_scaled(&self, buffer: &mut Vec<u32>, display_width: usize, display_height: usize, cell_size: usize)
        requires
            self.wf(),
            old(buffer)@.len() == display_width * display_height,
        ensures
            final(buffer)@ == rendered(self@, self.width() as int, display_width as int, cell_size as int, old(buffer)@),
    {
        proof { self.lemma_view(); }
        let ghost prev = buffer@;
        let ghost g = self@;
        let ghost (w, dw, cs) = (self.width as int, display_width as int, cell_size as int);
        let len = buffer.len();
        let mut i: usize = 0;
        while i < len
            invariant
                self.wf(),
                g == self@,
                w == self.width,
                dw == display_width,
                cs == cell_size,
                len == prev.len(),
                buffer@.len() == len,
                len == display_width * display_height,
                i <= len,
                forall|j: int| 0 <= j < len ==> #[trigger] buffer@[j] == if j < i {
                    pixel_after(g, w, dw, cs, j, prev[j])
                } else {
                    prev[j]
                },
            decreases len - i,
        {
            proof { self.lemma_view(); }
            if cell_size > 0 {
                let y = i / display_width;
                let x = i % display_width;
                let row = y / cell_size;
                let col = x / cell_size;
                if row < self.height && col < self.width {
                    buffer.set(i, self.grid[row][col].color());
                }
            }
            i += 1;
        }
        assert(buffer@ =~= rendered(g, w, dw, cs, prev));
    }

    /// Paints the grid on the `WIDTH × HEIGHT` display buffer in blocks of
    /// `CELL_SIZE` pixels.
    pub fn draw(&self, buffer: &mut Vec<u32>)
        requires
            self.wf(),
            old(buffer)@.len() == WIDTH * HEIGHT,
        ensures
            final(buffer)@ == rendered(self@, self.width() as int, WIDTH as int, CELL_SIZE as int, old(buffer)@),
    {
        self.draw_scaled(buffer, WIDTH, HEIGHT, CELL_SIZE);
    }
}

/// Each of `i - 1`, `i`, `i + 1` wraps as the neighbour arithmetic does.
proof fn lemma_wrap(i: int, n: int, j: int)
    requires
        -1 <= i <= n,
        0 < n,
        j == if i < 0 { n - 1 } else if i == n { 0 } else { i },
    ensures
        wrap(i, n) == j,
{
    reveal(wrap);
    if i < 0 {
        lemma_fundamental_div_mod_converse(i, n, -1, n - 1);
    } else if i == n {
        lemma_fundamental_div_mod_converse(i, n, 1, 0);
    } else {
        lemma_fundamental_div_mod_converse(i, n, 0, i);
    }
}

} // verus!
