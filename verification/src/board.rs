use vstd::prelude::*;
use crate::cell::Cell;
use crate::grid::{Grid, lemma_slot_of_square, lemma_square_of_slot, survives};
use crate::pattern::{PatternError, layout, parse};

verus! {

/// A fixed-size grid of cells, kept row by row.
#[derive(Debug)]
pub struct Board {
    cells: Vec<Cell>,
    width: usize,
    height: usize,
}

/// The squares a list of cells stands for.
spec fn states(cells: Seq<Cell>) -> Seq<bool> {
    Seq::new(cells.len(), |i: int| cells[i].alive)
}

/// Every cell knows its own column and row.
spec fn placed(cells: Seq<Cell>, width: int) -> bool {
    forall|i: int|
        0 <= i < cells.len() ==> (#[trigger] cells[i]).x == i % width && cells[i].y == i / width
}

impl View for Board {
    type V = Grid;

    closed spec fn view(&self) -> Grid {
        Grid {
            width: self.width as nat,
            height: self.height as nat,
            cells: states(self.cells@),
        }
    }
}

impl Board {
    /// Each stored cell carries the position of its slot.
    pub closed spec fn cells_placed(&self) -> bool {
        placed(self.cells@, self.width as int)
    }

    /// The board's invariant: the grid it stands for is well formed, its
    /// size fits the machine, and every cell knows where it is.
    pub open spec fn wf(&self) -> bool {
        &&& self@.wf()
        &&& self@.width * self@.height <= usize::MAX
        &&& self.cells_placed()
    }

    /// A board of `width` by `height` squares, all dead.
    pub fn new(width: usize, height: usize) -> (board: Board)
        requires
            width > 0,
            height > 0,
            width * height <= usize::MAX,
        ensures
            board.wf(),
            board@.width == width,
            board@.height == height,
            board@.all_dead(),
    {
        let mut cells: Vec<Cell> = Vec::new();
        let mut y: usize = 0;
        while y < height
            invariant
                width > 0,
                y <= height,
                cells@.len() == y * width,
                placed(cells@, width as int),
                forall|i: int| 0 <= i < cells@.len() ==> !(#[trigger] cells@[i]).alive,
            decreases height - y,
        {
            let mut x: usize = 0;
            while x < width
                invariant
                    width > 0,
                    y < height,
                    x <= width,
                    cells@.len() == y * width + x,
                    placed(cells@, width as int),
                    forall|i: int| 0 <= i < cells@.len() ==> !(#[trigger] cells@[i]).alive,
                decreases width - x,
            {
                proof {
                    lemma_slot_of_square(width as int, height as int, x as int, y as int);
                }
                cells.push(Cell::new(x, y, false));
                x += 1;
            }
            y += 1;
            assert(cells@.len() == y * width) by (nonlinear_arith)
                requires
                    cells@.len() == (y - 1) * width + width,
            ;
        }
        assert(y * width == width * height) by (nonlinear_arith)
            requires
                y == height,
        ;
        Board { cells, width, height }
    }

    /// A board of `width` by `height` squares whose cells, row by row, are
    /// alive where `states` says so.
    pub fn from_states(width: usize, height: usize, states: &Vec<bool>) -> (board: Board)
        requires
            width > 0,
            height > 0,
            states@.len() == width * height,
        ensures
            board.wf(),
            board@ == (Grid { width: width as nat, height: height as nat, cells: states@ }),
    {
        let total = states.len();
        let mut cells: Vec<Cell> = Vec::new();
        let mut x: usize = 0;
        let mut y: usize = 0;
        while cells.len() < total
            invariant
                width > 0,
                total == width * height,
                states@.len() == total,
                cells@.len() <= total,
                x < width,
                y <= height,
                cells@.len() == y * width + x,
                placed(cells@, width as int),
                forall|i: int| 0 <= i < cells@.len() ==> (#[trigger] cells@[i]).alive == states@[i],
            decreases total - cells@.len(),
        {
            proof {
                if y >= height {
                    assert(y * width >= width * height) by (nonlinear_arith)
                        requires
                            y >= height,
                            width > 0,
                    ;
                }
                lemma_slot_of_square(width as int, height as int, x as int, y as int);
            }
            cells.push(Cell::new(x, y, states[cells.len()]));
            x += 1;
            if x == width {
                x = 0;
                y += 1;
                assert(cells@.len() == y * width) by (nonlinear_arith)
                    requires
                        cells@.len() == (y - 1) * width + width,
                ;
            }
        }
        let board = Board { cells, width, height };
        proof {
            assert(board@.cells =~= states@);
        }
        board
    }

    /// A board read from a pattern text: `x`, `X` and `-` are dead squares,
    /// `o` and `O` live ones, blanks are passed over, every line is a row,
    /// and white space around the whole is dropped. The text is turned down
    /// if it is empty, holds any other character, or has rows of different
    /// lengths.
    pub fn from_pattern(source: &str) -> (made: Result<Board, PatternError>)
        ensures
            match layout(source@) {
                Ok(grid) => made matches Ok(board) && board.wf() && board@ == grid,
                Err(fault) => made matches Err(reported) && reported == fault,
            },
    {
        match parse(source) {
            Ok(found) => Ok(Board::from_states(found.width, found.height, &found.states)),
            Err(fault) => Err(fault),
        }
    }

    /// Advances the board by one generation. Every square is judged against
    /// the generation that was there when the call began.
    pub fn update(&mut self)
        requires
            old(self).wf(),
        ensures
            final(self).wf(),
            final(self)@ == old(self)@.step(),
            forall|x: int, y: int|
                old(self)@.contains(x, y) ==> #[trigger] final(self)@.alive(x, y) == survives(
                    old(self)@.alive(x, y),
                    old(self)@.alive_around(x, y),
                ),
            old(self)@.all_dead() ==> final(self)@.all_dead(),
    {
        let previous = self.copy_cells();
        let ghost before = self@;
        let width = self.width;
        let height = self.height;
        let mut idx: usize = 0;
        while idx < previous.len()
            invariant
                before.wf(),
                before == old(self)@,
                before.cells == states(previous@),
                placed(previous@, width as int),
                self.width == width,
                self.height == height,
                width == before.width,
                height == before.height,
                previous@.len() == width * height,
                self.cells@.len() == previous@.len(),
                placed(self.cells@, width as int),
                idx <= previous@.len(),
                forall|i: int|
                    0 <= i < idx ==> (#[trigger] self.cells@[i]).alive == before.alive_next(
                        i % (width as int),
                        i / (width as int),
                    ),
                forall|i: int| idx <= i < previous@.len() ==> #[trigger] self.cells@[i] == previous@[i],
            decreases previous@.len() - idx,
        {
            let cell = previous[idx];
            proof {
                lemma_square_of_slot(width as int, height as int, idx as int);
            }
            let neighbours = alive_neighbours(&previous, width, height, cell.x, cell.y);
            if next_state(self.cells[idx].alive, neighbours) {
                self.cells[idx].revive();
            } else {
                self.cells[idx].kill();
            }
            idx += 1;
        }
        proof {
            assert(self@.cells =~= before.step().cells);
            assert forall|x: int, y: int| before.contains(x, y) implies #[trigger] self@.alive(x, y)
                == survives(before.alive(x, y), before.alive_around(x, y)) by {
                before.lemma_step_of_square(x, y);
            }
            if before.all_dead() {
                before.lemma_dead_stays_dead();
            }
        }
    }

    /// Brings the cell in slot `cell` to life.
    pub fn set_cell_state(&mut self, cell: usize)
        requires
            old(self).wf(),
            cell < old(self)@.cells.len(),
        ensures
            final(self).wf(),
            final(self)@ == old(self)@.with_slot(cell as int, true),
    {
        self.cells[cell].revive();
        proof {
            assert(self@.cells =~= old(self)@.cells.update(cell as int, true));
        }
    }

    /// Kills the cell in slot `cell`.
    pub fn unset_cell_state(&mut self, cell: usize)
        requires
            old(self).wf(),
            cell < old(self)@.cells.len(),
        ensures
            final(self).wf(),
            final(self)@ == old(self)@.with_slot(cell as int, false),
    {
        self.cells[cell].kill();
        proof {
            assert(self@.cells =~= old(self)@.cells.update(cell as int, false));
        }
    }

    /// Kills every cell. The board keeps its size.
    pub fn clear(&mut self)
        requires
            old(self).wf(),
        ensures
            final(self).wf(),
            final(self)@ == old(self)@.cleared(),
            final(self)@.all_dead(),
            final(self)@.width == old(self)@.width,
            final(self)@.height == old(self)@.height,
    {
        let mut idx: usize = 0;
        while idx < self.cells.len()
            invariant
                self.width == old(self).width,
                self.height == old(self).height,
                self.cells@.len() == old(self).cells@.len(),
                placed(self.cells@, self.width as int),
                idx <= self.cells@.len(),
                forall|i: int| 0 <= i < idx ==> !(#[trigger] self.cells@[i]).alive,
            decreases self.cells@.len() - idx,
        {
            self.cells[idx].kill();
            idx += 1;
        }
        proof {
            assert(self@.cells =~= old(self)@.cleared().cells);
        }
    }

    /// A copy of every cell, row by row, for a renderer to read while the
    /// board moves on.
    pub fn clone_cells(&self) -> (cells: Vec<Cell>)
        requires
            self.wf(),
        ensures
            cells@ == self@.snapshot(),
    {
        let cells = self.copy_cells();
        proof {
            assert(cells@ =~= self@.snapshot());
        }
        cells
    }

    fn copy_cells(&self) -> (cells: Vec<Cell>)
        ensures
            cells@ == self.cells@,
    {
        let mut cells: Vec<Cell> = Vec::new();
        let mut idx: usize = 0;
        while idx < self.cells.len()
            invariant
                idx <= self.cells@.len(),
                cells@ == self.cells@.subrange(0, idx as int),
            decreases self.cells@.len() - idx,
        {
            cells.push(self.cells[idx]);
            idx += 1;
            assert(cells@ =~= self.cells@.subrange(0, idx as int));
        }
        proof {
            assert(cells@ =~= self.cells@);
        }
        cells
    }

    /// The board written out for a reader: `X` for a live cell, `-` for a
    /// dead one, one line for each row.
    pub fn picture(&self) -> (text: String)
        requires
            self.wf(),
        ensures
            text@ == self@.picture(),
    {
        let mut text = String::new();
        let ghost wide = self.width + 1;
        let mut y: usize = 0;
        proof {
            reveal_strlit("X");
            reveal_strlit("-");
            reveal_strlit("\n");
        }
        while y < self.height
            invariant
                self.wf(),
                wide == self.width + 1,
                y <= self.height,
                "X"@ == seq!['X'],
                "-"@ == seq!['-'],
                "\n"@ == seq!['\n'],
                y == 0 ==> text@.len() == 0,
                y > 0 ==> text@.len() == (y - 1) * wide + self.width,
                text@.len() <= self@.picture().len(),
                forall|p: int| 0 <= p < text@.len() ==> text@[p] == self@.picture()[p],
            decreases self.height - y,
        {
            if y > 0 {
                proof {
                    self@.lemma_picture_break(y - 1);
                }
                text.append("\n");
            }
            assert(text@.len() == y * wide) by (nonlinear_arith)
                requires
                    wide == self.width + 1,
                    y == 0 ==> text@.len() == 0,
                    y > 0 ==> text@.len() == (y - 1) * wide + self.width + 1,
            ;
            let mut x: usize = 0;
            while x < self.width
                invariant
                    self.wf(),
                    wide == self.width + 1,
                    y < self.height,
                    x <= self.width,
                    "X"@ == seq!['X'],
                    "-"@ == seq!['-'],
                    text@.len() == y * wide + x,
                    text@.len() <= self@.picture().len(),
                    forall|p: int| 0 <= p < text@.len() ==> text@[p] == self@.picture()[p],
                decreases self.width - x,
            {
                proof {
                    self@.lemma_picture_square(x as int, y as int);
                    lemma_slot_of_square(self.width as int, self.height as int, x as int, y as int);
                }
                if self.cells[y * self.width + x].alive {
                    text.append("X");
                } else {
                    text.append("-");
                }
                x += 1;
            }
            y += 1;
        }
        proof {
            assert((self.width + 1) * self.height >= 1) by (nonlinear_arith)
                requires
                    self.width > 0,
                    self.height > 0,
            ;
            assert(text@.len() == self@.picture().len()) by (nonlinear_arith)
                requires
                    text@.len() == (y - 1) * wide + self.width,
                    y == self.height,
                    wide == self.width + 1,
                    self@.picture().len() == (self.width + 1) * self.height - 1,
            ;
            assert(text@ =~= self@.picture());
        }
        text
    }

    /// Whether the square at column `x`, row `y` is alive; a position off
    /// the board is not.
    pub fn is_alive(&self, x: usize, y: usize) -> (alive: bool)
        requires
            self.wf(),
        ensures
            alive == self@.alive(x as int, y as int),
    {
        if x < self.width && y < self.height {
            proof {
                lemma_slot_of_square(self.width as int, self.height as int, x as int, y as int);
            }
            self.cells[y * self.width + x].alive
        } else {
            false
        }
    }

    pub fn width(&self) -> (width: usize)
        ensures
            width == self@.width,
    {
        self.width
    }

    pub fn height(&self) -> (height: usize)
        ensures
            height == self@.height,
    {
        self.height
    }
}

/// The slot of the cell under the pixel at `(x, y)` on a board `width`
/// squares wide, drawn `cell_size` pixels to the square.
pub fn cell_from_xy(cell_size: usize, width: usize, x: usize, y: usize) -> (cell: usize)
    requires
        cell_size > 0,
        (y / cell_size) * width + x / cell_size <= usize::MAX,
    ensures
        cell == (y / cell_size) * width + x / cell_size,
{
    let adj_y = y / cell_size;
    let adj_x = x / cell_size;
    assert(0 <= adj_y * width) by (nonlinear_arith)
        requires
            adj_y >= 0,
            width >= 0,
    ;
    adj_y * width + adj_x
}

/// Whether the neighbour `dx` columns and `dy` rows away from column `x`,
/// row `y` is alive. A neighbour off the grid is not.
fn alive_at(
    cells: &Vec<Cell>,
    width: usize,
    height: usize,
    x: usize,
    y: usize,
    dx: i8,
    dy: i8,
) -> (alive: bool)
    requires
        cells@.len() == width * height,
        width * height <= usize::MAX,
        x < width,
        y < height,
        -1 <= dx <= 1,
        -1 <= dy <= 1,
    ensures
        alive == (Grid { width: width as nat, height: height as nat, cells: states(cells@) }).alive(
            x + dx,
            y + dy,
        ),
{
    if (dx < 0 && x == 0) || (dx > 0 && x + 1 >= width) || (dy < 0 && y == 0) || (dy > 0 && y + 1
        >= height) {
        return false;
    }
    let nx: usize = if dx < 0 {
        x - 1
    } else if dx > 0 {
        x + 1
    } else {
        x
    };
    let ny: usize = if dy < 0 {
        y - 1
    } else if dy > 0 {
        y + 1
    } else {
        y
    };
    proof {
        lemma_slot_of_square(width as int, height as int, nx as int, ny as int);
        assert(0 <= ny * width) by (nonlinear_arith);
    }
    cells[ny * width + nx].alive
}

/// Counts the live cells among the eight around column `x`, row `y`,
/// clockwise from the one above.
fn alive_neighbours(
    cells: &Vec<Cell>,
    width: usize,
    height: usize,
    x: usize,
    y: usize,
) -> (count: u8)
    requires
        cells@.len() == width * height,
        width * height <= usize::MAX,
        x < width,
        y < height,
    ensures
        count == (Grid { width: width as nat, height: height as nat, cells: states(cells@) }).alive_around(
            x as int,
            y as int,
        ),
{
    let mut count: u8 = 0;
    if alive_at(cells, width, height, x, y, 0, -1) {
        count += 1;
    }
    if alive_at(cells, width, height, x, y, 1, -1) {
        count += 1;
    }
    if alive_at(cells, width, height, x, y, 1, 0) {
        count += 1;
    }
    if alive_at(cells, width, height, x, y, 1, 1) {
        count += 1;
    }
    if alive_at(cells, width, height, x, y, 0, 1) {
        count += 1;
    }
    if alive_at(cells, width, height, x, y, -1, 1) {
        count += 1;
    }
    if alive_at(cells, width, height, x, y, -1, 0) {
        count += 1;
    }
    if alive_at(cells, width, height, x, y, -1, -1) {
        count += 1;
    }
    count
}

/// The transition rule on one cell and the count of its live neighbours.
fn next_state(alive: bool, neighbours: u8) -> (next: bool)
    ensures
        next == survives(alive, neighbours as nat),
{
    match (alive, neighbours) {
        (true, 2) | (true, 3) => true,
        (false, 3) => true,
        _ => false,
    }
}

} // verus!
