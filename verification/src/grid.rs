use vstd::prelude::*;
use crate::cell::Cell;

verus! {

/// The mathematical picture of a board: its size and, row by row, which
/// squares are alive.
pub struct Grid {
    pub width: nat,
    pub height: nat,
    pub cells: Seq<bool>,
}

/// 1 for a live square, 0 for a dead one.
pub open spec fn tally(alive: bool) -> nat {
    if alive {
        1
    } else {
        0
    }
}

/// The transition rule: a live square stays alive with two or three live
/// neighbours, a dead one comes alive with exactly three.
pub open spec fn survives(alive: bool, neighbours: nat) -> bool {
    if alive {
        neighbours == 2 || neighbours == 3
    } else {
        neighbours == 3
    }
}

impl Grid {
    /// A grid has at least one square and exactly `width * height` of them.
    pub open spec fn wf(self) -> bool {
        &&& self.width > 0
        &&& self.height > 0
        &&& self.cells.len() == self.width * self.height
    }

    /// Whether column `x`, row `y` lies on the grid.
    pub open spec fn contains(self, x: int, y: int) -> bool {
        0 <= x < self.width && 0 <= y < self.height
    }

    /// Where the square at column `x`, row `y` stands in `cells`.
    pub open spec fn slot(self, x: int, y: int) -> int {
        y * self.width + x
    }

    /// Whether the square at column `x`, row `y` is alive. A position off
    /// the grid holds nothing, so it is never alive: the edges do not wrap.
    pub open spec fn alive(self, x: int, y: int) -> bool {
        self.contains(x, y) && self.cells[self.slot(x, y)]
    }

    /// The number of live squares among the eight around column `x`, row `y`,
    /// taken clockwise from the one above.
    pub open spec fn alive_around(self, x: int, y: int) -> nat {
        tally(self.alive(x, y - 1)) + tally(self.alive(x + 1, y - 1)) + tally(
            self.alive(x + 1, y),
        ) + tally(self.alive(x + 1, y + 1)) + tally(self.alive(x, y + 1)) + tally(
            self.alive(x - 1, y + 1),
        ) + tally(self.alive(x - 1, y)) + tally(self.alive(x - 1, y - 1))
    }

    /// The number of positions around column `x`, row `y` that lie on the grid.
    pub open spec fn places_around(self, x: int, y: int) -> nat {
        tally(self.contains(x, y - 1)) + tally(self.contains(x + 1, y - 1)) + tally(
            self.contains(x + 1, y),
        ) + tally(self.contains(x + 1, y + 1)) + tally(self.contains(x, y + 1)) + tally(
            self.contains(x - 1, y + 1),
        ) + tally(self.contains(x - 1, y)) + tally(self.contains(x - 1, y - 1))
    }

    /// Whether the square at column `x`, row `y` is alive one generation on.
    pub open spec fn alive_next(self, x: int, y: int) -> bool {
        survives(self.alive(x, y), self.alive_around(x, y))
    }

    /// The next generation: every square judged against this one.
    pub open spec fn step(self) -> Grid {
        Grid {
            width: self.width,
            height: self.height,
            cells: Seq::new(
                self.cells.len(),
                |i: int| self.alive_next(i % (self.width as int), i / (self.width as int)),
            ),
        }
    }

    /// The grid `n` generations on.
    pub open spec fn steps(self, n: nat) -> Grid
        decreases n,
    {
        if n == 0 {
            self
        } else {
            self.step().steps((n - 1) as nat)
        }
    }

    /// Whether no square is alive.
    pub open spec fn all_dead(self) -> bool {
        forall|i: int| 0 <= i < self.cells.len() ==> !#[trigger] self.cells[i]
    }

    /// The same grid with every square dead.
    pub open spec fn cleared(self) -> Grid {
        Grid {
            width: self.width,
            height: self.height,
            cells: Seq::new(self.cells.len(), |i: int| false),
        }
    }

    /// The same grid with the square in slot `i` set to `alive`.
    pub open spec fn with_slot(self, i: int, alive: bool) -> Grid {
        Grid { width: self.width, height: self.height, cells: self.cells.update(i, alive) }
    }

    /// The grid written out: `X` for a live square, `-` for a dead one, the
    /// rows one below the other.
    pub open spec fn picture(self) -> Seq<char> {
        Seq::new(
            ((self.width + 1) * self.height - 1) as nat,
            |p: int|
                {
                    let wide = self.width as int + 1;
                    if p % wide == self.width {
                        '\n'
                    } else if self.alive(p % wide, p / wide) {
                        'X'
                    } else {
                        '-'
                    }
                },
        )
    }

    /// What a renderer is handed: one cell per square, row by row, each
    /// carrying its state and its position.
    pub open spec fn snapshot(self) -> Seq<Cell> {
        Seq::new(
            self.cells.len(),
            |i: int|
                Cell {
                    alive: self.cells[i],
                    x: (i % (self.width as int)) as usize,
                    y: (i / (self.width as int)) as usize,
                },
        )
    }
}

impl Grid {
    /// Reading the next generation square by square gives what the rule
    /// says of that square in this one.
    pub proof fn lemma_step_of_square(self, x: int, y: int)
        requires
            self.wf(),
            self.contains(x, y),
        ensures
            self.step().alive(x, y) == survives(self.alive(x, y), self.alive_around(x, y)),
    {
        lemma_slot_of_square(self.width as int, self.height as int, x, y);
    }

    /// On a grid where every cell is dead, no square is alive.
    pub proof fn lemma_nothing_alive(self, x: int, y: int)
        requires
            self.wf(),
            self.all_dead(),
        ensures
            !self.alive(x, y),
    {
        if self.contains(x, y) {
            lemma_slot_of_square(self.width as int, self.height as int, x, y);
        }
    }

    /// On a grid where every cell is dead, no square has a live neighbour.
    pub proof fn lemma_dead_around(self, x: int, y: int)
        requires
            self.wf(),
            self.all_dead(),
        ensures
            self.alive_around(x, y) == 0,
    {
        self.lemma_nothing_alive(x, y - 1);
        self.lemma_nothing_alive(x + 1, y - 1);
        self.lemma_nothing_alive(x + 1, y);
        self.lemma_nothing_alive(x + 1, y + 1);
        self.lemma_nothing_alive(x, y + 1);
        self.lemma_nothing_alive(x - 1, y + 1);
        self.lemma_nothing_alive(x - 1, y);
        self.lemma_nothing_alive(x - 1, y - 1);
    }

    /// No life springs from an empty grid.
    pub proof fn lemma_dead_stays_dead(self)
        requires
            self.wf(),
            self.all_dead(),
        ensures
            self.step().all_dead(),
            self.step() == self,
    {
        assert forall|i: int| 0 <= i < self.cells.len() implies !#[trigger] self.step().cells[i] by {
            let x = i % (self.width as int);
            let y = i / (self.width as int);
            self.lemma_dead_around(x, y);
            self.lemma_nothing_alive(x, y);
        }
        assert(self.step().cells =~= self.cells);
    }

    /// An empty grid stays empty, however many generations pass.
    pub proof fn lemma_dead_forever(self, n: nat)
        requires
            self.wf(),
            self.all_dead(),
        ensures
            self.steps(n) == self,
        decreases n,
    {
        if n > 0 {
            self.lemma_dead_stays_dead();
            self.lemma_dead_forever((n - 1) as nat);
        }
    }

    /// A live square with two or three live neighbours stays alive; with
    /// fewer or more it dies.
    pub proof fn lemma_live_square(self, x: int, y: int)
        requires
            self.wf(),
            self.contains(x, y),
            self.alive(x, y),
        ensures
            self.alive_around(x, y) == 2 || self.alive_around(x, y) == 3 ==> self.step().alive(x, y),
            self.alive_around(x, y) < 2 || self.alive_around(x, y) > 3 ==> !self.step().alive(x, y),
    {
        self.lemma_step_of_square(x, y);
    }

    /// A dead square with exactly three live neighbours comes alive; any
    /// other dead square stays dead.
    pub proof fn lemma_dead_square(self, x: int, y: int)
        requires
            self.wf(),
            self.contains(x, y),
            !self.alive(x, y),
        ensures
            self.alive_around(x, y) == 3 ==> self.step().alive(x, y),
            self.alive_around(x, y) != 3 ==> !self.step().alive(x, y),
    {
        self.lemma_step_of_square(x, y);
    }

    /// Only positions on the grid count as neighbours: a square has at most
    /// eight, a square on an edge at most five, a square in a corner at most
    /// three, and no more of them can be alive than there are.
    pub proof fn lemma_neighbours_on_grid(self, x: int, y: int)
        requires
            self.wf(),
            self.contains(x, y),
        ensures
            self.alive_around(x, y) <= self.places_around(x, y) <= 8,
            x == 0 || x == self.width - 1 || y == 0 || y == self.height - 1
                ==> self.places_around(x, y) <= 5,
            (x == 0 || x == self.width - 1) && (y == 0 || y == self.height - 1)
                ==> self.places_around(x, y) <= 3,
            forall|a: int, b: int| !self.contains(a, b) ==> !#[trigger] self.alive(a, b),
    {
    }

    /// Whether the square at column `x`, row `y` is the only live one.
    pub open spec fn lonely(self, x: int, y: int) -> bool {
        &&& self.contains(x, y)
        &&& forall|i: int|
            0 <= i < self.cells.len() ==> (#[trigger] self.cells[i] <==> i == self.slot(x, y))
    }

    /// Where a lone live square is, and that nothing else is alive.
    proof fn lemma_lonely_alive(self, x: int, y: int, a: int, b: int)
        requires
            self.wf(),
            self.lonely(x, y),
        ensures
            self.alive(a, b) <==> (a == x && b == y),
    {
        lemma_slot_of_square(self.width as int, self.height as int, x, y);
        if self.contains(a, b) {
            lemma_slot_of_square(self.width as int, self.height as int, a, b);
        }
    }

    /// A single live square, wherever it is, dies of loneliness and leaves
    /// the grid empty.
    pub proof fn lemma_lonely_square_dies(self, x: int, y: int)
        requires
            self.wf(),
            self.lonely(x, y),
        ensures
            self.step().all_dead(),
    {
        assert forall|i: int| 0 <= i < self.cells.len() implies !#[trigger] self.step().cells[i] by {
            let a = i % (self.width as int);
            let b = i / (self.width as int);
            self.lemma_lonely_alive(x, y, a, b - 1);
            self.lemma_lonely_alive(x, y, a + 1, b - 1);
            self.lemma_lonely_alive(x, y, a + 1, b);
            self.lemma_lonely_alive(x, y, a + 1, b + 1);
            self.lemma_lonely_alive(x, y, a, b + 1);
            self.lemma_lonely_alive(x, y, a - 1, b + 1);
            self.lemma_lonely_alive(x, y, a - 1, b);
            self.lemma_lonely_alive(x, y, a - 1, b - 1);
            assert(self.alive_around(a, b) <= 1);
        }
    }

    /// Whether the live squares are exactly the two-by-two block whose
    /// top-left square is at column `x`, row `y`.
    pub open spec fn is_block(self, x: int, y: int) -> bool {
        &&& self.contains(x, y)
        &&& self.contains(x + 1, y + 1)
        &&& forall|a: int, b: int|
            self.contains(a, b) ==> (#[trigger] self.alive(a, b) <==> (x <= a <= x + 1 && y <= b
                <= y + 1))
    }

    /// Which squares of a block are alive, on the grid or off it.
    proof fn lemma_block_alive(self, x: int, y: int, a: int, b: int)
        requires
            self.wf(),
            self.is_block(x, y),
        ensures
            self.alive(a, b) <==> (x <= a <= x + 1 && y <= b <= y + 1),
    {
    }

    /// A two-by-two block is a still life: one generation on it is unchanged.
    pub proof fn lemma_block_step(self, x: int, y: int)
        requires
            self.wf(),
            self.is_block(x, y),
        ensures
            self.step() == self,
    {
        assert forall|i: int| 0 <= i < self.cells.len() implies #[trigger] self.step().cells[i]
            == self.cells[i] by {
            let a = i % (self.width as int);
            let b = i / (self.width as int);
            lemma_square_of_slot(self.width as int, self.height as int, i);
            assert(self.contains(a, b));
            assert(self.slot(a, b) == i) by (nonlinear_arith)
                requires
                    self.slot(a, b) == b * self.width + a,
                    (i / (self.width as int)) * self.width + i % (self.width as int) == i,
                    a == i % (self.width as int),
                    b == i / (self.width as int),
            ;
            self.lemma_block_alive(x, y, a, b);
            self.lemma_block_alive(x, y, a, b - 1);
            self.lemma_block_alive(x, y, a + 1, b - 1);
            self.lemma_block_alive(x, y, a + 1, b);
            self.lemma_block_alive(x, y, a + 1, b + 1);
            self.lemma_block_alive(x, y, a, b + 1);
            self.lemma_block_alive(x, y, a - 1, b + 1);
            self.lemma_block_alive(x, y, a - 1, b);
            self.lemma_block_alive(x, y, a - 1, b - 1);
            if self.alive(a, b) {
                assert(self.alive_around(a, b) == 3);
            } else {
                assert(self.alive_around(a, b) <= 2);
            }
        }
        assert(self.step().cells =~= self.cells);
    }

    /// A two-by-two block stays exactly as it is, however many generations
    /// pass.
    pub proof fn lemma_block_is_still(self, x: int, y: int, n: nat)
        requires
            self.wf(),
            self.is_block(x, y),
        ensures
            self.steps(n) == self,
        decreases n,
    {
        if n > 0 {
            self.lemma_block_step(x, y);
            self.lemma_block_is_still(x, y, (n - 1) as nat);
        }
    }

    /// A cleared grid keeps its size, and its snapshot shows every cell
    /// dead and in its place.
    pub proof fn lemma_cleared_snapshot(self)
        requires
            self.wf(),
            self.width * self.height <= usize::MAX,
        ensures
            self.cleared().wf(),
            self.cleared().width == self.width,
            self.cleared().height == self.height,
            self.cleared().all_dead(),
            self.cleared().snapshot().len() == self.width * self.height,
            forall|i: int|
                0 <= i < self.width * self.height ==> {
                    let cell = #[trigger] self.cleared().snapshot()[i];
                    !cell.alive && cell.x == i % (self.width as int) && cell.y == i / (
                    self.width as int)
                },
    {
        assert forall|i: int| 0 <= i < self.width * self.height implies {
            let cell = #[trigger] self.cleared().snapshot()[i];
            !cell.alive && cell.x == i % (self.width as int) && cell.y == i / (self.width as int)
        } by {
            lemma_square_of_slot(self.width as int, self.height as int, i);
            assert(self.width <= self.width * self.height && self.height <= self.width
                * self.height) by (nonlinear_arith)
                requires
                    self.width > 0,
                    self.height > 0,
            ;
        }
    }

    /// Where a square stands in the picture, and what stands there.
    pub proof fn lemma_picture_square(self, x: int, y: int)
        requires
            self.wf(),
            self.contains(x, y),
        ensures
            0 <= y * (self.width + 1) + x < self.picture().len(),
            self.picture()[y * (self.width + 1) + x] == (if self.alive(x, y) {
                'X'
            } else {
                '-'
            }),
    {
        let wide = self.width as int + 1;
        lemma_slot_of_square(wide, self.height as int, x, y);
        assert(y * wide + x <= wide * self.height - 2) by (nonlinear_arith)
            requires
                0 <= x < wide - 1,
                0 <= y < self.height,
        ;
    }

    /// Every row of the picture but the last ends in a line feed.
    pub proof fn lemma_picture_break(self, y: int)
        requires
            self.wf(),
            0 <= y < self.height - 1,
        ensures
            0 <= y * (self.width + 1) + self.width < self.picture().len(),
            self.picture()[y * (self.width + 1) + self.width] == '\n',
    {
        let wide = self.width as int + 1;
        lemma_slot_of_square(wide, self.height as int, self.width as int, y);
        assert(y * wide + self.width <= wide * self.height - 2) by (nonlinear_arith)
            requires
                wide == self.width + 1,
                self.width > 0,
                0 <= y < self.height - 1,
        ;
    }
}

/// A square on the grid has a slot among the cells, and the slot leads back
/// to the square.
pub proof fn lemma_slot_of_square(width: int, height: int, x: int, y: int)
    requires
        0 <= x < width,
        0 <= y < height,
    ensures
        0 <= y * width + x < width * height,
        (y * width + x) % width == x,
        (y * width + x) / width == y,
{
    assert(0 <= y * width + x < width * height) by (nonlinear_arith)
        requires
            0 <= x < width,
            0 <= y < height,
    ;
    vstd::arithmetic::div_mod::lemma_fundamental_div_mod_converse(y * width + x, width, y, x);
}

/// A slot among the cells names one square on the grid.
pub proof fn lemma_square_of_slot(width: int, height: int, i: int)
    requires
        0 < width,
        0 <= i < width * height,
    ensures
        0 <= i % width < width,
        0 <= i / width < height,
        (i / width) * width + i % width == i,
{
    vstd::arithmetic::div_mod::lemma_fundamental_div_mod(i, width);
    assert(0 <= i % width < width);
    assert(0 <= i / width < height) by (nonlinear_arith)
        requires
            0 < width,
            0 <= i < width * height,
            i == width * (i / width) + i % width,
            0 <= i % width < width,
    ;
    assert((i / width) * width == width * (i / width)) by (nonlinear_arith);
}

} // verus!
