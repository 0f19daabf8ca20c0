use vstd::prelude::*;
use crate::input::{KeyPress, SPACE_NOTICE};
use crate::rule::{alive_at, is_grid, neighbors, next_cell, next_generation};

verus! {

/// A fixed-size two-dimensional grid of boolean cells, indexed `[row][col]`.
pub struct GridSimulation {
    cells: Vec<Vec<bool>>,
    width: usize,
    height: usize,
}

impl View for GridSimulation {
    type V = Seq<Seq<bool>>;

    closed spec fn view(&self) -> Seq<Seq<bool>> {
        self.cells@.map_values(|row: Vec<bool>| row@)
    }
}

/// What a sequence of stored rows holds, row by row.
pub open spec fn rows_view(rows: Seq<Vec<bool>>) -> Seq<Seq<bool>> {
    rows.map_values(|row: Vec<bool>| row@)
}

/// Position `(a, b)` comes before `(c, d)` in row-major order.
pub open spec fn precedes(a: int, b: int, c: int, d: int) -> bool {
    a < c || (a == c && b < d)
}

/// A grid of `height` rows of `width` cells, all in state `alive`.
pub open spec fn uniform(width: nat, height: nat, alive: bool) -> Seq<Seq<bool>> {
    Seq::new(height, |r: int| Seq::new(width, |c: int| alive))
}

impl GridSimulation {
    /// The number of cells in each row.
    pub closed spec fn grid_width(&self) -> nat {
        self.width as nat
    }

    /// The number of rows.
    pub closed spec fn grid_height(&self) -> nat {
        self.height as nat
    }

    pub open spec fn well_formed(&self) -> bool {
        &&& self@.len() == self.grid_height()
        &&& is_grid(self@, self.grid_width())
    }

    /// The stored rows are the view's rows, each `width` cells long.
    proof fn lemma_rows(&self)
        requires
            self.well_formed(),
        ensures
            self.cells@.len() == self.height,
            forall|r: int| 0 <= r < self.cells@.len() ==> {
                &&& (#[trigger] self.cells@[r])@ == self@[r]
                &&& self.cells@[r]@.len() == self.width
            },
    {
        assert forall|r: int| 0 <= r < self.cells@.len() implies {
            &&& (#[trigger] self.cells@[r])@ == self@[r]
            &&& self.cells@[r]@.len() == self.width
        } by {
            assert(self@[r].len() == self.width);
        }
    }

    /// The number of live cells in the neighbourhood of `(r, c)`.
    pub fn neighbor_count(&self, r: usize, c: usize) -> (n: u8)
        requires
            self.well_formed(),
            r < self.grid_height(),
            c < self.grid_width(),
        ensures
            n as nat == neighbors(self@, r as int, c as int),
    {
        proof {
            self.lemma_rows();
        }
        let mut n: u8 = 0;
        if r > 0 && c > 0 && self.cells[r - 1][c - 1] {
            n = n + 1;
        }
        if r > 0 && self.cells[r - 1][c] {
            n = n + 1;
        }
        if c > 0 && self.cells[r][c - 1] {
            n = n + 1;
        }
        if self.cells[r][c] {
            n = n + 1;
        }
        n
    }

    /// Moves the grid one generation on: every cell becomes alive exactly when
    /// its neighbourhood in the previous generation held two or three live
    /// cells. The shape of the grid does not change.
    pub fn advance(&mut self)
        requires
            old(self).well_formed(),
        ensures
            final(self).well_formed(),
            final(self).grid_width() == old(self).grid_width(),
            final(self).grid_height() == old(self).grid_height(),
            final(self)@ == next_generation(old(self)@),
            forall|r: int, c: int|
                0 <= r < old(self).grid_height() && 0 <= c < old(self).grid_width() ==> (
                #[trigger] final(self)@[r][c] <==> 2 <= neighbors(old(self)@, r, c) <= 3),
    {
        let ghost prev = self@;
        let mut next: Vec<Vec<bool>> = Vec::new();
        let mut r: usize = 0;
        while r < self.height
            invariant
                self.well_formed(),
                self@ == prev,
                r <= self.height,
                next@.len() == r,
                forall|i: int| 0 <= i < r ==> (#[trigger] next@[i])@ == next_generation(prev)[i],
            decreases self.height - r,
        {
            let mut row: Vec<bool> = Vec::new();
            let mut c: usize = 0;
            while c < self.width
                invariant
                    self.well_formed(),
                    self@ == prev,
                    r < self.height,
                    c <= self.width,
                    row@.len() == c,
                    forall|j: int| 0 <= j < c ==> row@[j] == next_cell(prev, r as int, j),
                decreases self.width - c,
            {
                let n = self.neighbor_count(r, c);
                row.push(2 <= n && n <= 3);
                c = c + 1;
            }
            proof {
                assert(prev[r as int].len() == self.width);
                assert(row@ =~= next_generation(prev)[r as int]);
            }
            next.push(row);
            r = r + 1;
        }
        self.cells = next;
        proof {
            assert(self@ =~= next_generation(prev));
            assert forall|i: int| 0 <= i < self@.len() implies #[trigger] self@[i].len()
                == self.width by {
                assert(prev[i].len() == self.width);
            }
        }
    }

    /// A `width` by `height` grid whose cells are all in state `alive`.
    pub fn new(width: usize, height: usize, alive: bool) -> (g: GridSimulation)
        ensures
            g.well_formed(),
            g.grid_width() == width,
            g.grid_height() == height,
            g@ == uniform(width as nat, height as nat, alive),
    {
        let mut cells: Vec<Vec<bool>> = Vec::new();
        let mut r: usize = 0;
        while r < height
            invariant
                r <= height,
                cells@.len() == r,
                forall|i: int| 0 <= i < r ==> (#[trigger] cells@[i])@ == Seq::new(
                    width as nat,
                    |c: int| alive,
                ),
            decreases height - r,
        {
            let mut row: Vec<bool> = Vec::new();
            let mut c: usize = 0;
            while c < width
                invariant
                    c <= width,
                    row@.len() == c,
                    forall|j: int| 0 <= j < c ==> row@[j] == alive,
                decreases width - c,
            {
                row.push(alive);
                c = c + 1;
            }
            proof {
                assert(row@ =~= Seq::new(width as nat, |c: int| alive));
            }
            cells.push(row);
            r = r + 1;
        }
        let g = GridSimulation { cells, width, height };
        proof {
            assert(g@ =~= uniform(width as nat, height as nat, alive));
        }
        g
    }

    /// A grid holding `rows`, provided that they all have the same length.
    /// The grid's width is that length (zero when there are no rows).
    pub fn from_rows(rows: Vec<Vec<bool>>) -> (g: Option<GridSimulation>)
        ensures
            g.is_some() <==> (rows@.len() == 0 || is_grid(rows_view(rows@), rows@[0]@.len())),
            g matches Some(g) ==> {
                &&& g.well_formed()
                &&& g@ == rows_view(rows@)
                &&& g.grid_height() == rows@.len()
                &&& g.grid_width() == if rows@.len() == 0 { 0 } else { rows@[0]@.len() }
            },
    {
        let height = rows.len();
        if height == 0 {
            let g = GridSimulation { cells: rows, width: 0, height: 0 };
            proof {
                assert(g@ =~= rows_view(rows@));
            }
            return Some(g);
        }
        let width = rows[0].len();
        let mut r: usize = 0;
        while r < height
            invariant
                height == rows@.len(),
                width == rows@[0]@.len(),
                r <= height,
                forall|i: int| 0 <= i < r ==> (#[trigger] rows@[i])@.len() == width,
            decreases height - r,
        {
            if rows[r].len() != width {
                proof {
                    assert(rows_view(rows@)[r as int].len() != width);
                }
                return None;
            }
            r = r + 1;
        }
        let g = GridSimulation { cells: rows, width, height };
        proof {
            assert forall|i: int| 0 <= i < g@.len() implies #[trigger] g@[i].len() == width by {
                assert(rows@[i]@.len() == width);
            }
        }
        Some(g)
    }

    /// The number of cells in each row.
    pub fn width(&self) -> (w: usize)
        ensures
            w == self.grid_width(),
    {
        self.width
    }

    /// The number of rows.
    pub fn height(&self) -> (h: usize)
        ensures
            h == self.grid_height(),
    {
        self.height
    }

    /// Whether `(r, c)` holds a live cell; `false` outside the grid.
    pub fn is_alive(&self, r: usize, c: usize) -> (b: bool)
        requires
            self.well_formed(),
        ensures
            b == alive_at(self@, r as int, c as int),
    {
        proof {
            self.lemma_rows();
        }
        r < self.height && c < self.width && self.cells[r][c]
    }

    /// Sets the cell at `(r, c)` to `alive`, leaving every other cell as it was.
    pub fn set_cell(&mut self, r: usize, c: usize, alive: bool)
        requires
            old(self).well_formed(),
            r < old(self).grid_height(),
            c < old(self).grid_width(),
        ensures
            final(self).well_formed(),
            final(self).grid_width() == old(self).grid_width(),
            final(self).grid_height() == old(self).grid_height(),
            final(self)@ == old(self)@.update(r as int, old(self)@[r as int].update(c as int, alive)),
    {
        let ghost prev = self@;
        proof {
            self.lemma_rows();
        }
        let mut row = self.cells[r].clone();
        row.set(c, alive);
        self.cells.set(r, row);
        proof {
            assert(self@ =~= prev.update(r as int, prev[r as int].update(c as int, alive)));
            assert forall|i: int| 0 <= i < self@.len() implies #[trigger] self@[i].len()
                == self.width by {
                assert(prev[i].len() == self.width);
            }
        }
    }

    /// The grid's rows, for reading.
    pub fn cells(&self) -> (v: &Vec<Vec<bool>>)
        ensures
            rows_view(v@) == self@,
    {
        &self.cells
    }

    /// The notification that a key press produces: one line for the space
    /// key, nothing for any other key. The grid is not touched.
    pub fn handle_key(&self, key: KeyPress) -> (m: Option<&'static str>)
        ensures
            m.is_some() <==> key == KeyPress::Space,
            m matches Some(s) ==> s@ == SPACE_NOTICE@,
    {
        match key {
            KeyPress::Space => Some(SPACE_NOTICE),
            KeyPress::Other => None,
        }
    }

    /// The positions `(row, col)` of all live cells, each once, in row-major
    /// order.
    pub fn alive_cells(&self) -> (v: Vec<(usize, usize)>)
        requires
            self.well_formed(),
        ensures
            forall|i: int| 0 <= i < v@.len() ==> alive_at(self@, (#[trigger] v@[i]).0 as int, v@[i].1 as int),
            forall|a: int, b: int| #[trigger] alive_at(self@, a, b) ==> exists|i: int|
                0 <= i < v@.len() && (#[trigger] v@[i]).0 == a && v@[i].1 == b,
            forall|i: int, j: int| 0 <= i < j < v@.len() ==> precedes(
                (#[trigger] v@[i]).0 as int,
                v@[i].1 as int,
                (#[trigger] v@[j]).0 as int,
                v@[j].1 as int,
            ),
    {
        proof {
            self.lemma_rows();
        }
        let ghost g = self@;
        let mut v: Vec<(usize, usize)> = Vec::new();
        let mut r: usize = 0;
        while r < self.height
            invariant
                self.well_formed(),
                g == self@,
                self.cells@.len() == self.height,
                forall|i: int| 0 <= i < self.cells@.len() ==> {
                    &&& (#[trigger] self.cells@[i])@ == g[i]
                    &&& self.cells@[i]@.len() == self.width
                },
                r <= self.height,
                forall|i: int| 0 <= i < v@.len() ==> {
                    &&& alive_at(g, (#[trigger] v@[i]).0 as int, v@[i].1 as int)
                    &&& v@[i].0 < r
                },
                forall|a: int, b: int| #[trigger] alive_at(g, a, b) && a < r ==> exists|i: int|
                    0 <= i < v@.len() && (#[trigger] v@[i]).0 == a && v@[i].1 == b,
                forall|i: int, j: int| 0 <= i < j < v@.len() ==> precedes(
                    (#[trigger] v@[i]).0 as int,
                    v@[i].1 as int,
                    (#[trigger] v@[j]).0 as int,
                    v@[j].1 as int,
                ),
            decreases self.height - r,
        {
            let mut c: usize = 0;
            while c < self.width
                invariant
                    self.well_formed(),
                    g == self@,
                    self.cells@.len() == self.height,
                    forall|i: int| 0 <= i < self.cells@.len() ==> {
                        &&& (#[trigger] self.cells@[i])@ == g[i]
                        &&& self.cells@[i]@.len() == self.width
                    },
                    r < self.height,
                    c <= self.width,
                    forall|i: int| 0 <= i < v@.len() ==> {
                        &&& alive_at(g, (#[trigger] v@[i]).0 as int, v@[i].1 as int)
                        &&& precedes(v@[i].0 as int, v@[i].1 as int, r as int, c as int)
                    },
                    forall|a: int, b: int| #[trigger] alive_at(g, a, b) && precedes(
                        a,
                        b,
                        r as int,
                        c as int,
                    ) ==> exists|i: int|
                        0 <= i < v@.len() && (#[trigger] v@[i]).0 == a && v@[i].1 == b,
                    forall|i: int, j: int| 0 <= i < j < v@.len() ==> precedes(
                        (#[trigger] v@[i]).0 as int,
                        v@[i].1 as int,
                        (#[trigger] v@[j]).0 as int,
                        v@[j].1 as int,
                    ),
                decreases self.width - c,
            {
                if self.cells[r][c] {
                    let ghost before = v@;
                    v.push((r, c));
                    proof {
                        assert forall|a: int, b: int| #[trigger] alive_at(g, a, b) && precedes(
                            a,
                            b,
                            r as int,
                            c as int + 1,
                        ) implies exists|i: int|
                            0 <= i < v@.len() && (#[trigger] v@[i]).0 == a && v@[i].1 == b by {
                            if a == r && b == c {
                                assert(v@[before.len() as int] == (r, c));
                            } else {
                                let i = choose|i: int|
                                    0 <= i < before.len() && (#[trigger] before[i]).0 == a
                                        && before[i].1 == b;
                                assert(v@[i] == before[i]);
                            }
                        }
                    }
                }
                c = c + 1;
            }
            proof {
                assert forall|a: int, b: int| #[trigger] alive_at(g, a, b) && a < r + 1 implies exists|i: int|
                    0 <= i < v@.len() && (#[trigger] v@[i]).0 == a && v@[i].1 == b by {
                    assert(precedes(a, b, r as int, c as int));
                }
            }
            r = r + 1;
        }
        v
    }
}

} // verus!
