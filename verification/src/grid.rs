//! The toroidal grid: construction, mutation, generation advance, rendering.

use vstd::prelude::*;
use vstd::string::StringExecFns;
use crate::cell::Cell;

verus! {

/// Mathematical model of a [`Universe`]: its dimensions and the flat
/// row-major sequence of cells.
pub ghost struct UniverseView {
    pub width: int,
    pub height: int,
    pub cells: Seq<Cell>,
}

impl UniverseView {
    /// Well-formedness: the buffer holds exactly `width * height` cells
    /// and the cell count fits the index arithmetic.
    pub open spec fn wf(self) -> bool {
        &&& 0 <= self.width <= u32::MAX
        &&& 0 <= self.height <= u32::MAX
        &&& self.width * self.height <= u32::MAX
        &&& self.cells.len() == self.width * self.height
    }

    /// Whether `(row, column)` addresses a cell of the grid.
    pub open spec fn in_bounds(self, row: int, column: int) -> bool {
        0 <= row < self.height && 0 <= column < self.width
    }

    /// The cell at `(row, column)`, stored at linear index
    /// `row * width + column`.
    pub open spec fn cell_at(self, row: int, column: int) -> Cell {
        self.cells[row * self.width + column]
    }

    /// Row just north of `row`, wrapping past the top edge to the
    /// bottom one.
    pub open spec fn north_of(self, row: int) -> int {
        if row == 0 {
            self.height - 1
        } else {
            row - 1
        }
    }

    /// Row just south of `row`, wrapping past the bottom edge to the
    /// top one.
    pub open spec fn south_of(self, row: int) -> int {
        if row == self.height - 1 {
            0
        } else {
            row + 1
        }
    }

    /// Column just west of `column`, wrapping past the left edge to
    /// the right one.
    pub open spec fn west_of(self, column: int) -> int {
        if column == 0 {
            self.width - 1
        } else {
            column - 1
        }
    }

    /// Column just east of `column`, wrapping past the right edge to
    /// the left one.
    pub open spec fn east_of(self, column: int) -> int {
        if column == self.width - 1 {
            0
        } else {
            column + 1
        }
    }

    /// Number of live cells among the eight toroidal neighbors of
    /// `(row, column)`.
    pub open spec fn live_neighbors(self, row: int, column: int) -> int {
        let n = self.north_of(row);
        let s = self.south_of(row);
        let w = self.west_of(column);
        let e = self.east_of(column);
        self.cell_at(n, w).weight() + self.cell_at(n, column).weight() + self.cell_at(n, e).weight()
            + self.cell_at(row, w).weight() + self.cell_at(row, e).weight() + self.cell_at(
            s,
            w,
        ).weight() + self.cell_at(s, column).weight() + self.cell_at(s, e).weight()
    }

    /// The state the cell at `(row, column)` takes in the next
    /// generation.
    pub open spec fn next_cell_at(self, row: int, column: int) -> Cell {
        self.cell_at(row, column).transition(self.live_neighbors(row, column))
    }

    /// The next generation of row `row`.
    pub open spec fn next_row(self, row: int) -> Seq<Cell> {
        Seq::new(self.width as nat, |c: int| self.next_cell_at(row, c))
    }

    /// The next generation of the first `row` rows, row-major.
    pub open spec fn next_upto(self, row: int) -> Seq<Cell>
        decreases row,
    {
        if row <= 0 {
            Seq::empty()
        } else {
            self.next_upto(row - 1) + self.next_row(row - 1)
        }
    }

    /// The whole next generation, row-major.
    pub open spec fn next_cells(self) -> Seq<Cell> {
        self.next_upto(self.height)
    }

    /// The diagnostic record for the cell at `(row, column)`: its
    /// position, its state before the step and its live-neighbor
    /// count.
    pub open spec fn change_at(self, row: int, column: int) -> ChangeRecord {
        ChangeRecord {
            row: row as u32,
            column: column as u32,
            prior: self.cell_at(row, column),
            live_neighbors: self.live_neighbors(row, column) as u8,
        }
    }

    /// The records of the cells of row `row`, among the first
    /// `column` columns, whose state changes in the next generation.
    pub open spec fn row_changes(self, row: int, column: int) -> Seq<ChangeRecord>
        decreases column,
    {
        if column <= 0 {
            Seq::empty()
        } else {
            self.row_changes(row, column - 1) + (if self.next_cell_at(row, column - 1)
                != self.cell_at(row, column - 1) {
                seq![self.change_at(row, column - 1)]
            } else {
                Seq::empty()
            })
        }
    }

    /// The change records of the first `row` rows, row-major.
    pub open spec fn changes_upto(self, row: int) -> Seq<ChangeRecord>
        decreases row,
    {
        if row <= 0 {
            Seq::empty()
        } else {
            self.changes_upto(row - 1) + self.row_changes(row - 1, self.width)
        }
    }

    /// One record per cell whose state changes in the next
    /// generation, in row-major order.
    pub open spec fn tick_changes(self) -> Seq<ChangeRecord> {
        self.changes_upto(self.height)
    }

    /// The glyphs of row `row`, one per cell.
    pub open spec fn row_glyphs(self, row: int) -> Seq<char> {
        Seq::new(self.width as nat, |c: int| self.cell_at(row, c).glyph())
    }

    /// The rendering of the first `row` rows: their glyph lines,
    /// separated by newlines, with no terminator after the last line.
    pub open spec fn render_upto(self, row: int) -> Seq<char>
        decreases row,
    {
        if row <= 0 {
            Seq::empty()
        } else if row == 1 {
            self.row_glyphs(0)
        } else {
            self.render_upto(row - 1) + seq!['\n'] + self.row_glyphs(row - 1)
        }
    }

    /// The full textual rendering of the grid.
    pub open spec fn render_chars(self) -> Seq<char> {
        self.render_upto(self.height)
    }

    /// `self` is the state left by `reset` on `pre`: same dimensions,
    /// every cell dead.
    pub open spec fn is_reset_of(self, pre: UniverseView) -> bool {
        &&& self.width == pre.width
        &&& self.height == pre.height
        &&& self.cells == Seq::new(pre.cells.len(), |j: int| Cell::Dead)
    }
}

/// Diagnostic record emitted for a cell whose state changed during a
/// generation step: its position, its state before the step and its
/// live-neighbor count at that moment.
#[derive(Clone, Copy, Debug, PartialEq, Eq, Structural)]
pub struct ChangeRecord {
    pub row: u32,
    pub column: u32,
    pub prior: Cell,
    pub live_neighbors: u8,
}

/// A toroidal Game of Life grid.
pub struct Universe {
    pub(crate) width: u32,
    pub(crate) height: u32,
    pub(crate) cells: Vec<Cell>,
}

impl View for Universe {
    type V = UniverseView;

    closed spec fn view(&self) -> UniverseView {
        UniverseView { width: self.width as int, height: self.height as int, cells: self.cells@ }
    }
}

impl Universe {
    /// A grid of the default 128 x 128 size, all cells dead.
    pub fn new() -> (u: Universe)
        ensures
            u@.wf(),
            u@.width == 128,
            u@.height == 128,
            forall|i: int| 0 <= i < u@.cells.len() ==> u@.cells[i] == Cell::Dead,
    {
        let width: u32 = 128;
        let height: u32 = 128;
        Universe::with_capacity(width, height)
    }

    /// A grid of the given size, all cells dead. The cell count must
    /// fit the 32-bit index arithmetic; either dimension may be 0, in
    /// which case the grid has no cells.
    pub fn with_capacity(width: u32, height: u32) -> (u: Universe)
        requires
            width as int * height as int <= u32::MAX,
        ensures
            u@.wf(),
            u@.width == width,
            u@.height == height,
            u@.cells.len() == width as int * height as int,
            forall|i: int| 0 <= i < u@.cells.len() ==> u@.cells[i] == Cell::Dead,
    {
        let size = (width * height) as usize;
        let mut cells: Vec<Cell> = Vec::new();
        let mut i: usize = 0;
        while i < size
            invariant
                i <= size,
                cells@.len() == i,
                forall|j: int| 0 <= j < i ==> cells@[j] == Cell::Dead,
            decreases size - i,
        {
            cells.push(Cell::Dead);
            i = i + 1;
        }
        Universe { width, height, cells }
    }

    /// Current number of columns.
    pub fn width(&self) -> (w: u32)
        ensures
            w as int == self@.width,
    {
        self.width
    }

    /// Current number of rows.
    pub fn height(&self) -> (h: u32)
        ensures
            h as int == self@.height,
    {
        self.height
    }

    /// Read-only view of the live cell buffer, row-major. It aliases
    /// the engine's state and is stale after any mutating call.
    pub fn cells(&self) -> (r: &[Cell])
        ensures
            r@ == self@.cells,
    {
        self.cells.as_slice()
    }

    /// The dead and alive values of the entire grid, row-major.
    pub fn get_cells(&self) -> (r: &[Cell])
        ensures
            r@ == self@.cells,
    {
        self.cells.as_slice()
    }

    /// Set the number of columns. Resizing invalidates all cell
    /// positions, so the grid is rebuilt with every cell dead.
    pub fn set_width(&mut self, width: u32)
        requires
            old(self)@.wf(),
            width as int * old(self)@.height <= u32::MAX,
        ensures
            final(self)@.wf(),
            final(self)@.width == width,
            final(self)@.height == old(self)@.height,
            forall|i: int| 0 <= i < final(self)@.cells.len() ==> final(self)@.cells[i] == Cell::Dead,
    {
        let height = self.height;
        *self = Universe::with_capacity(width, height);
    }

    /// Set the number of rows. Resizing invalidates all cell
    /// positions, so the grid is rebuilt with every cell dead.
    pub fn set_height(&mut self, height: u32)
        requires
            old(self)@.wf(),
            old(self)@.width * height as int <= u32::MAX,
        ensures
            final(self)@.wf(),
            final(self)@.width == old(self)@.width,
            final(self)@.height == height,
            forall|i: int| 0 <= i < final(self)@.cells.len() ==> final(self)@.cells[i] == Cell::Dead,
    {
        let width = self.width;
        *self = Universe::with_capacity(width, height);
    }

    /// Set every cell to dead without changing the dimensions.
    pub fn reset(&mut self)
        requires
            old(self)@.wf(),
        ensures
            final(self)@.wf(),
            final(self)@.is_reset_of(old(self)@),
            forall|i: int| 0 <= i < final(self)@.cells.len() ==> final(self)@.cells[i] == Cell::Dead,
    {
        let len = self.cells.len();
        let mut i: usize = 0;
        while i < len
            invariant
                i <= len,
                len == self.cells@.len(),
                self@.width == old(self)@.width,
                self@.height == old(self)@.height,
                forall|j: int| 0 <= j < i ==> self.cells@[j] == Cell::Dead,
            decreases len - i,
        {
            self.cells[i] = Cell::Dead;
            i = i + 1;
        }
        proof {
            assert(self@.cells =~= Seq::new(old(self)@.cells.len(), |j: int| Cell::Dead));
        }
    }

    /// Linear index of the cell at `(row, column)`.
    fn get_index(&self, row: u32, column: u32) -> (idx: usize)
        requires
            self@.wf(),
            row < self@.height,
            column < self@.width,
        ensures
            idx as int == row as int * self@.width + column,
            idx < self@.cells.len(),
    {
        proof {
            lemma_row_major_bounds(self@.width, self@.height, row as int, column as int);
        }
        (row * self.width + column) as usize
    }

    /// Flip the cell at `(row, column)` between dead and alive.
    pub fn toggle_cell(&mut self, row: u32, column: u32)
        requires
            old(self)@.wf(),
            row < old(self)@.height,
            column < old(self)@.width,
        ensures
            final(self)@.wf(),
            final(self)@.width == old(self)@.width,
            final(self)@.height == old(self)@.height,
            final(self)@.cell_at(row as int, column as int) == old(self)@.cell_at(
                row as int,
                column as int,
            ).flipped(),
            forall|r: int, c: int|
                old(self)@.in_bounds(r, c) && !(r == row as int && c == column as int)
                    ==> final(self)@.cell_at(r, c) == old(self)@.cell_at(r, c),
    {
        let idx = self.get_index(row, column);
        let mut cell = self.cells[idx];
        cell.toggle();
        self.cells[idx] = cell;
        proof {
            assert forall|r: int, c: int|
                old(self)@.in_bounds(r, c) && !(r == row as int && c == column as int)
                    implies self@.cell_at(r, c) == old(self)@.cell_at(r, c) by {
                lemma_row_major_bounds(old(self)@.width, old(self)@.height, r, c);
                lemma_row_major_injective(old(self)@.width, r, c, row as int, column as int);
            }
        }
    }

    /// Set each cell named by a `(row, column)` pair to alive, leaving
    /// every other cell as it was.
    pub fn set_cells(&mut self, cells: &[(u32, u32)])
        requires
            old(self)@.wf(),
            forall|k: int|
                0 <= k < cells@.len()
                    ==> (#[trigger] cells@[k]).0 < old(self)@.height && cells@[k].1 < old(
                    self,
                )@.width,
        ensures
            final(self)@.wf(),
            final(self)@.width == old(self)@.width,
            final(self)@.height == old(self)@.height,
            forall|r: int, c: int|
                old(self)@.in_bounds(r, c) ==> final(self)@.cell_at(r, c) == (if (exists|k: int|
                    0 <= k < cells@.len() && #[trigger] cells@[k] == (r as u32, c as u32)) {
                    Cell::Alive
                } else {
                    old(self)@.cell_at(r, c)
                }),
    {
        let ghost g0 = self@;
        let mut k: usize = 0;
        while k < cells.len()
            invariant
                k <= cells@.len(),
                self@.wf(),
                self@.width == g0.width,
                self@.height == g0.height,
                self@.cells.len() == g0.cells.len(),
                forall|k2: int|
                    0 <= k2 < cells@.len()
                        ==> (#[trigger] cells@[k2]).0 < g0.height && cells@[k2].1 < g0.width,
                forall|r: int, c: int|
                    g0.in_bounds(r, c) ==> self@.cell_at(r, c) == (if (exists|k2: int|
                        0 <= k2 < k && #[trigger] cells@[k2] == (r as u32, c as u32)) {
                        Cell::Alive
                    } else {
                        g0.cell_at(r, c)
                    }),
            decreases cells@.len() - k,
        {
            let (row, col) = cells[k];
            let idx = self.get_index(row, col);
            self.cells[idx] = Cell::Alive;
            proof {
                assert forall|r: int, c: int| g0.in_bounds(r, c) implies self@.cell_at(r, c) == (
                if (exists|k2: int|
                    0 <= k2 < k + 1 && #[trigger] cells@[k2] == (r as u32, c as u32)) {
                    Cell::Alive
                } else {
                    g0.cell_at(r, c)
                }) by {
                    lemma_row_major_bounds(g0.width, g0.height, r, c);
                    lemma_row_major_injective(g0.width, r, c, row as int, col as int);
                    if r == row as int && c == col as int {
                        assert(cells@[k as int] == (r as u32, c as u32));
                    }
                }
            }
            k = k + 1;
        }
    }
}

impl Universe {
    /// Count the live cells among the eight toroidal neighbors of
    /// `(row, column)`.
    #[verifier::rlimit(50)]
    fn live_neighbor_count(&self, row: u32, column: u32) -> (count: u8)
        requires
            self@.wf(),
            row < self@.height,
            column < self@.width,
        ensures
            count as int == self@.live_neighbors(row as int, column as int),
    {
        let mut count: u8 = 0;

        let north = if row == 0 { self.height - 1 } else { row - 1 };
        let south = if row == self.height - 1 { 0 } else { row + 1 };
        let west = if column == 0 { self.width - 1 } else { column - 1 };
        let east = if column == self.width - 1 { 0 } else { column + 1 };

        let nw = self.get_index(north, west);
        count = count + self.cells[nw].value();

        let n = self.get_index(north, column);
        count = count + self.cells[n].value();

        let ne = self.get_index(north, east);
        count = count + self.cells[ne].value();

        let w = self.get_index(row, west);
        count = count + self.cells[w].value();

        let e = self.get_index(row, east);
        count = count + self.cells[e].value();

        let sw = self.get_index(south, west);
        count = count + self.cells[sw].value();

        let s = self.get_index(south, column);
        count = count + self.cells[s].value();

        let se = self.get_index(south, east);
        count = count + self.cells[se].value();

        count
    }

    /// Advance the grid one generation. Every cell steps
    /// simultaneously: each new state is computed from the prior
    /// generation only, and the new buffer replaces the old one in a
    /// single assignment. Returns one diagnostic record per cell
    /// whose state changed, in row-major order, for the host to log.
    pub fn tick(&mut self) -> (changes: Vec<ChangeRecord>)
        requires
            old(self)@.wf(),
        ensures
            final(self)@.wf(),
            final(self)@.width == old(self)@.width,
            final(self)@.height == old(self)@.height,
            final(self)@.cells.len() == old(self)@.cells.len(),
            final(self)@.cells == old(self)@.next_cells(),
            forall|r: int, c: int|
                old(self)@.in_bounds(r, c) ==> final(self)@.cell_at(r, c) == old(
                    self,
                )@.next_cell_at(r, c),
            changes@ == old(self)@.tick_changes(),
    {
        let ghost g = self@;
        let mut next: Vec<Cell> = Vec::new();
        let mut changes: Vec<ChangeRecord> = Vec::new();
        let height = self.height;
        let width = self.width;

        let mut row: u32 = 0;
        while row < height
            invariant
                self@ == g,
                g.wf(),
                width == g.width,
                height == g.height,
                row <= height,
                next@ == g.next_upto(row as int),
                changes@ == g.changes_upto(row as int),
            decreases height - row,
        {
            let mut col: u32 = 0;
            while col < width
                invariant
                    self@ == g,
                    g.wf(),
                    width == g.width,
                    height == g.height,
                    row < height,
                    col <= width,
                    next@ == g.next_upto(row as int) + g.next_row(row as int).take(col as int),
                    changes@ == g.changes_upto(row as int) + g.row_changes(row as int, col as int),
                decreases width - col,
            {
                let idx = self.get_index(row, col);
                let cell = self.cells[idx];
                let live = self.live_neighbor_count(row, col);
                let next_cell = cell.next_state(live);
                if cell != next_cell {
                    changes.push(
                        ChangeRecord { row, column: col, prior: cell, live_neighbors: live },
                    );
                }
                next.push(next_cell);
                proof {
                    assert(next_cell == g.next_cell_at(row as int, col as int));
                    assert(g.next_row(row as int).take(col as int + 1) =~= g.next_row(
                        row as int,
                    ).take(col as int).push(next_cell));
                    assert(g.row_changes(row as int, col as int + 1) == g.row_changes(
                        row as int,
                        col as int,
                    ) + (if g.next_cell_at(row as int, col as int) != g.cell_at(
                        row as int,
                        col as int,
                    ) {
                        seq![g.change_at(row as int, col as int)]
                    } else {
                        Seq::<ChangeRecord>::empty()
                    }));
                    assert(changes@ =~= g.changes_upto(row as int) + g.row_changes(
                        row as int,
                        col as int + 1,
                    ));
                }
                col = col + 1;
            }
            proof {
                assert(g.next_row(row as int).take(width as int) =~= g.next_row(row as int));
                assert(g.next_upto(row as int + 1) == g.next_upto(row as int) + g.next_row(
                    row as int,
                ));
                assert(g.changes_upto(row as int + 1) == g.changes_upto(row as int) + g.row_changes(
                    row as int,
                    width as int,
                ));
            }
            row = row + 1;
        }

        self.cells = next;

        proof {
            lemma_next_upto_len(g, g.height);
            assert(g.height * g.width == g.width * g.height) by (nonlinear_arith);
            assert forall|r: int, c: int| g.in_bounds(r, c) implies self@.cell_at(r, c)
                == g.next_cell_at(r, c) by {
                lemma_next_upto_index(g, g.height, r, c);
            }
        }
        changes
    }

    /// Render the grid as text: one line of glyphs per row, rows
    /// separated by newlines, no terminator after the last line. A
    /// pure projection of the current cell state.
    pub fn render(&self) -> (text: String)
        requires
            self@.wf(),
        ensures
            text@ == self@.render_chars(),
            self@.height == 0 ==> text@.len() == 0,
            self@.height > 0 ==> text@.len() == self@.height * self@.width + self@.height - 1,
    {
        let ghost g = self@;
        let mut text = String::new();
        let mut row: u32 = 0;
        while row < self.height
            invariant
                self@ == g,
                g.wf(),
                row <= g.height,
                text@ == g.render_upto(row as int),
            decreases g.height - row,
        {
            if row > 0 {
                proof {
                    reveal_strlit("\n");
                }
                text.append("\n");
            }
            let ghost prefix = text@;
            proof {
                assert(prefix + g.row_glyphs(row as int).take(0) =~= prefix);
            }
            let mut col: u32 = 0;
            while col < self.width
                invariant
                    self@ == g,
                    g.wf(),
                    row < g.height,
                    col <= g.width,
                    text@ == prefix + g.row_glyphs(row as int).take(col as int),
                decreases g.width - col,
            {
                let idx = self.get_index(row, col);
                text.append(self.cells[idx].glyph_str());
                proof {
                    assert(prefix + g.row_glyphs(row as int).take(col as int) + seq![
                        g.cell_at(row as int, col as int).glyph()
                    ] =~= prefix + g.row_glyphs(row as int).take(col as int + 1));
                }
                col = col + 1;
            }
            proof {
                assert(g.row_glyphs(row as int).take(g.width as int) =~= g.row_glyphs(row as int));
                if row == 0 {
                    assert(text@ =~= g.render_upto(1));
                } else {
                    reveal_strlit("\n");
                    assert(("\n")@ =~= seq!['\n']);
                    assert(text@ =~= g.render_upto(row as int + 1));
                }
            }
            row = row + 1;
        }
        proof {
            lemma_render_upto_len(g, g.height);
        }
        text
    }
}

/// Length of a partial rendering: `row` lines of `width` glyphs and
/// `row - 1` separating newlines.
proof fn lemma_render_upto_len(g: UniverseView, row: int)
    requires
        g.wf(),
        0 <= row <= g.height,
    ensures
        g.render_upto(row).len() == if row == 0 {
            0
        } else {
            row * g.width + row - 1
        },
    decreases row,
{
    if row == 1 {
        assert(1 * g.width == g.width) by (nonlinear_arith);
        assert(g.render_upto(1).len() == g.width);
    } else if row > 1 {
        lemma_render_upto_len(g, row - 1);
        assert((row - 1) * g.width + g.width == row * g.width) by (nonlinear_arith);
    }
}

/// The first `row` rows of the next generation hold `row * width`
/// cells.
proof fn lemma_next_upto_len(g: UniverseView, row: int)
    requires
        g.wf(),
        0 <= row <= g.height,
    ensures
        g.next_upto(row).len() == row * g.width,
    decreases row,
{
    if row <= 0 {
        assert(row * g.width == 0) by (nonlinear_arith)
            requires
                row == 0,
        ;
    } else {
        lemma_next_upto_len(g, row - 1);
        assert((row - 1) * g.width + g.width == row * g.width) by (nonlinear_arith);
    }
}

/// Indexing into the stacked next-generation rows recovers the cell
/// computed for `(row, column)`.
proof fn lemma_next_upto_index(g: UniverseView, bound: int, row: int, column: int)
    requires
        g.wf(),
        0 <= row < bound <= g.height,
        0 <= column < g.width,
    ensures
        0 <= row * g.width + column < g.next_upto(bound).len(),
        g.next_upto(bound)[row * g.width + column] == g.next_cell_at(row, column),
    decreases bound,
{
    lemma_next_upto_len(g, bound);
    lemma_next_upto_len(g, bound - 1);
    lemma_row_major_bounds(g.width, bound, row, column);
    if row == bound - 1 {
        assert(g.next_upto(bound) == g.next_upto(bound - 1) + g.next_row(bound - 1));
        assert(row * g.width + column - g.next_upto(bound - 1).len() == column);
        assert(g.next_upto(bound)[row * g.width + column] == g.next_row(row)[column]);
    } else {
        lemma_next_upto_index(g, bound - 1, row, column);
        assert(row * g.width + column < (bound - 1) * g.width) by (nonlinear_arith)
            requires
                0 <= column < g.width,
                0 <= row < bound - 1,
        ;
        assert(g.next_upto(bound) == g.next_upto(bound - 1) + g.next_row(bound - 1));
    }
}

/// For in-range coordinates the row-major index stays below the cell
/// count.
proof fn lemma_row_major_bounds(w: int, h: int, r: int, c: int)
    by (nonlinear_arith)
    requires
        0 <= r < h,
        0 <= c < w,
    ensures
        0 <= r * w + c < w * h,
{
}

/// Row-major indexing is injective over in-range coordinates.
proof fn lemma_row_major_injective(w: int, r1: int, c1: int, r2: int, c2: int)
    by (nonlinear_arith)
    requires
        0 <= c1 < w,
        0 <= c2 < w,
        0 <= r1,
        0 <= r2,
    ensures
        r1 * w + c1 == r2 * w + c2 ==> r1 == r2 && c1 == c2,
{
}

} // verus!
