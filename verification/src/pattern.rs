use vstd::prelude::*;
use crate::grid::Grid;

verus! {

/// Why a pattern text was turned down.
#[derive(Clone, Copy, Debug, PartialEq, Eq, Structural)]
pub enum PatternError {
    /// The text holds nothing but whitespace.
    Empty,
    /// The text holds a character that stands for nothing. `symbol` is the
    /// first such character of the first row at fault.
    UnknownSymbol { symbol: char },
    /// A row has more or fewer squares than the first row.
    UnevenRows,
}

/// What a pattern text comes to: the states of the squares, row by row.
#[derive(Debug)]
pub struct Layout {
    pub width: usize,
    pub height: usize,
    pub states: Vec<bool>,
}

impl View for Layout {
    type V = Grid;

    open spec fn view(&self) -> Grid {
        Grid { width: self.width as nat, height: self.height as nat, cells: self.states@ }
    }
}

/// The characters trimmed from both ends of a pattern text: Unicode's white
/// space.
pub open spec fn is_space(c: char) -> bool {
    let n = c as u32;
    (0x9 <= n <= 0xd) || n == 0x20 || n == 0x85 || n == 0xa0 || n == 0x1680 || (0x2000 <= n
        <= 0x200a) || n == 0x2028 || n == 0x2029 || n == 0x202f || n == 0x205f || n == 0x3000
}

/// `x`, `X` and `-` stand for a dead square.
pub open spec fn is_dead_symbol(c: char) -> bool {
    c == 'x' || c == 'X' || c == '-'
}

/// `o` and `O` stand for a live square.
pub open spec fn is_alive_symbol(c: char) -> bool {
    c == 'o' || c == 'O'
}

/// What may stand in a row: a square, or a blank that only spaces the
/// squares out.
pub open spec fn is_symbol(c: char) -> bool {
    is_dead_symbol(c) || is_alive_symbol(c) || c == ' '
}

/// The text without the white space at its start.
pub open spec fn trim_start(text: Seq<char>) -> Seq<char>
    decreases text.len(),
{
    if text.len() > 0 && is_space(text[0]) {
        trim_start(text.drop_first())
    } else {
        text
    }
}

/// The text without the white space at its end.
pub open spec fn trim_end(text: Seq<char>) -> Seq<char>
    decreases text.len(),
{
    if text.len() > 0 && is_space(text.last()) {
        trim_end(text.drop_last())
    } else {
        text
    }
}

/// The text without the white space at either end.
pub open spec fn trimmed(text: Seq<char>) -> Seq<char> {
    trim_end(trim_start(text))
}

/// The text cut at every line feed. There is always at least one row, and
/// no row holds a line feed.
pub open spec fn rows(text: Seq<char>) -> Seq<Seq<char>>
    decreases text.len(),
{
    if text.len() == 0 {
        seq![Seq::<char>::empty()]
    } else {
        let before = rows(text.drop_last());
        if text.last() == '\n' {
            before.push(Seq::<char>::empty())
        } else {
            before.update(before.len() - 1, before.last().push(text.last()))
        }
    }
}

/// The first character of the row that stands for nothing, if there is one.
pub open spec fn first_unknown(row: Seq<char>) -> Option<char>
    decreases row.len(),
{
    if row.len() == 0 {
        None
    } else {
        match first_unknown(row.drop_last()) {
            Some(c) => Some(c),
            None => if is_symbol(row.last()) {
                None
            } else {
                Some(row.last())
            },
        }
    }
}

/// The squares of a row, left to right: blanks are passed over, and a
/// square is alive where the symbol is `o` or `O`.
pub open spec fn squares(row: Seq<char>) -> Seq<bool>
    decreases row.len(),
{
    if row.len() == 0 {
        Seq::<bool>::empty()
    } else if row.last() == ' ' {
        squares(row.drop_last())
    } else {
        squares(row.drop_last()).push(is_alive_symbol(row.last()))
    }
}

/// What is wrong with row `k`, if anything: an unknown symbol in it, or
/// else a count of squares that differs from the first row's.
pub open spec fn fault_at(rs: Seq<Seq<char>>, k: int) -> Option<PatternError> {
    match first_unknown(rs[k]) {
        Some(c) => Some(PatternError::UnknownSymbol { symbol: c }),
        None => if squares(rs[k]).len() != squares(rs[0]).len() {
            Some(PatternError::UnevenRows)
        } else {
            None
        },
    }
}

/// The fault of the first row at fault among the first `n`.
pub open spec fn first_fault(rs: Seq<Seq<char>>, n: nat) -> Option<PatternError>
    decreases n,
{
    if n == 0 {
        None
    } else {
        match first_fault(rs, (n - 1) as nat) {
            Some(fault) => Some(fault),
            None => fault_at(rs, n - 1),
        }
    }
}

/// The squares of the first `n` rows, one row after the other.
pub open spec fn joined(rs: Seq<Seq<char>>, n: nat) -> Seq<bool>
    decreases n,
{
    if n == 0 {
        Seq::<bool>::empty()
    } else {
        joined(rs, (n - 1) as nat) + squares(rs[n - 1])
    }
}

/// What a text that is already trimmed, and not empty, comes to.
pub open spec fn body_layout(body: Seq<char>) -> Result<Grid, PatternError> {
    let rs = rows(body);
    match first_fault(rs, rs.len()) {
        Some(fault) => Err(fault),
        None => Ok(
            Grid { width: squares(rs[0]).len(), height: rs.len(), cells: joined(rs, rs.len()) },
        ),
    }
}

/// What a pattern text comes to. White space at both ends is dropped and
/// the rest is read row by row. The text is turned down if nothing is left,
/// if a row holds an unknown symbol, or if a row is longer or shorter than
/// the first; of several faults the one that comes first in reading order
/// is reported, a row's length being known at the row's end.
pub open spec fn layout(text: Seq<char>) -> Result<Grid, PatternError> {
    let body = trimmed(text);
    if body.len() == 0 {
        Err(PatternError::Empty)
    } else {
        body_layout(body)
    }
}

/// There is always a row, even in an empty text.
pub proof fn lemma_rows_nonempty(text: Seq<char>)
    ensures
        rows(text).len() >= 1,
    decreases text.len(),
{
    if text.len() > 0 {
        lemma_rows_nonempty(text.drop_last());
    }
}

/// Reading on never changes a row that is already closed, and only adds to
/// the row that is open.
proof fn lemma_rows_grow(body: Seq<char>, k: int)
    requires
        0 <= k <= body.len(),
    ensures
        ({
            let p = rows(body.take(k));
            let f = rows(body);
            &&& 1 <= p.len() <= f.len()
            &&& forall|j: int| 0 <= j < p.len() - 1 ==> f[j] == p[j]
            &&& p.last().len() <= f[p.len() - 1].len()
            &&& f[p.len() - 1].take(p.last().len() as int) == p.last()
        }),
    decreases body.len() - k,
{
    let p = rows(body.take(k));
    let f = rows(body);
    lemma_rows_nonempty(body.take(k));
    if k == body.len() {
        assert(body.take(k) =~= body);
        assert(f[p.len() - 1].take(p.last().len() as int) =~= p.last());
    } else {
        let shorter = body.drop_last();
        assert(shorter.take(k) =~= body.take(k));
        lemma_rows_grow(shorter, k);
        let g = rows(shorter);
        let m = p.len() - 1;
        if body.last() == '\n' {
            assert(f == g.push(Seq::<char>::empty()));
            assert(f[m] == g[m]);
        } else {
            assert(f == g.update(g.len() - 1, g.last().push(body.last())));
            if m == g.len() - 1 {
                assert(f[m].take(p.last().len() as int) =~= g[m].take(p.last().len() as int));
            } else {
                assert(f[m] == g[m]);
            }
        }
    }
}

/// An unknown symbol found in the first part of a row is the row's first.
proof fn lemma_unknown_stays(p: Seq<char>, f: Seq<char>)
    requires
        p.len() <= f.len(),
        f.take(p.len() as int) == p,
        first_unknown(p) is Some,
    ensures
        first_unknown(f) == first_unknown(p),
    decreases f.len() - p.len(),
{
    if f.len() == p.len() {
        assert(f =~= p);
    } else {
        assert(f.drop_last().take(p.len() as int) =~= p);
        lemma_unknown_stays(p, f.drop_last());
    }
}

/// Two lists of rows that agree on the first `n` have the same faults and
/// the same squares there.
proof fn lemma_rows_agree(a: Seq<Seq<char>>, b: Seq<Seq<char>>, n: nat)
    requires
        n <= a.len(),
        n <= b.len(),
        forall|j: int| 0 <= j < n ==> a[j] == b[j],
    ensures
        first_fault(a, n) == first_fault(b, n),
        joined(a, n) == joined(b, n),
    decreases n,
{
    if n > 0 {
        lemma_rows_agree(a, b, (n - 1) as nat);
    }
}

/// A fault among the first rows is still the first fault when more rows are
/// looked at.
proof fn lemma_fault_stays(rs: Seq<Seq<char>>, n: nat, m: nat)
    requires
        n <= m,
        first_fault(rs, n) is Some,
    ensures
        first_fault(rs, m) == first_fault(rs, n),
    decreases m,
{
    if m > n {
        lemma_fault_stays(rs, n, (m - 1) as nat);
    }
}

/// Rows without fault all have the first row's width, so `n` of them hold
/// `n` times that many squares.
pub proof fn lemma_joined_len(rs: Seq<Seq<char>>, n: nat)
    requires
        n <= rs.len(),
        first_fault(rs, n) is None,
    ensures
        joined(rs, n).len() == n * squares(rs[0]).len(),
        forall|j: int| 0 <= j < n ==> squares(#[trigger] rs[j]).len() == squares(rs[0]).len(),
    decreases n,
{
    if n > 0 {
        lemma_joined_len(rs, (n - 1) as nat);
        let w = squares(rs[0]).len();
        assert((n - 1) * w + w == n * w) by (nonlinear_arith);
    }
}

/// A row that holds anything but blanks has a square.
proof fn lemma_squares_nonempty(row: Seq<char>, j: int)
    requires
        0 <= j < row.len(),
        row[j] != ' ',
    ensures
        squares(row).len() >= 1,
    decreases row.len(),
{
    if j < row.len() - 1 {
        lemma_squares_nonempty(row.drop_last(), j);
    }
}

/// A text that begins with a square's symbol has a first row that is at
/// least one square wide.
proof fn lemma_first_row_has_square(body: Seq<char>)
    requires
        body.len() > 0,
        !is_space(body[0]),
    ensures
        squares(rows(body)[0]).len() >= 1,
{
    let one = body.take(1);
    assert(one.drop_last() =~= Seq::<char>::empty());
    assert(rows(one.drop_last()) =~= seq![Seq::<char>::empty()]);
    assert(one.last() == body[0]);
    assert(rows(one) =~= seq![seq![body[0]]]);
    lemma_rows_grow(body, 1);
    let first = rows(body)[0];
    assert(first.take(1) == seq![body[0]]);
    assert(first[0] == first.take(1)[0]);
    lemma_squares_nonempty(first, 0);
}

/// Where trimming cuts: the text from `cut.0` up to `cut.1` is what is
/// left, everything outside is white space, and what is left neither begins
/// nor ends with white space.
pub proof fn lemma_trimmed_cut(text: Seq<char>) -> (cut: (int, int))
    ensures
        0 <= cut.0 <= cut.1 <= text.len(),
        trimmed(text) == text.subrange(cut.0, cut.1),
        forall|j: int| 0 <= j < cut.0 ==> is_space(#[trigger] text[j]),
        forall|j: int| cut.1 <= j < text.len() ==> is_space(#[trigger] text[j]),
        cut.0 < cut.1 ==> !is_space(text[cut.0]) && !is_space(text[cut.1 - 1]),
{
    let a = lemma_trim_start_cut(text);
    let rest = text.skip(a);
    let n = lemma_trim_end_cut(rest);
    assert(rest.take(n) =~= text.subrange(a, a + n));
    assert forall|j: int| a + n <= j < text.len() implies is_space(#[trigger] text[j]) by {
        assert(text[j] == rest[j - a]);
    }
    if n > 0 {
        assert(rest[n - 1] == text[a + n - 1]);
        assert(!is_space(text[a])) by {
            if is_space(text[a]) {
                assert(rest[0] == text[a]);
            }
        }
    }
    (a, a + n)
}

/// How much white space a text begins with.
proof fn lemma_trim_start_cut(text: Seq<char>) -> (a: int)
    ensures
        0 <= a <= text.len(),
        trim_start(text) == text.skip(a),
        forall|j: int| 0 <= j < a ==> is_space(#[trigger] text[j]),
        a < text.len() ==> !is_space(text[a]),
    decreases text.len(),
{
    if text.len() > 0 && is_space(text[0]) {
        let rest = text.drop_first();
        let a = lemma_trim_start_cut(rest);
        assert(rest.skip(a) =~= text.skip(a + 1));
        assert forall|j: int| 0 <= j < a + 1 implies is_space(#[trigger] text[j]) by {
            if j > 0 {
                assert(text[j] == rest[j - 1]);
            }
        }
        if a < rest.len() {
            assert(rest[a] == text[a + 1]);
        }
        a + 1
    } else {
        assert(text.skip(0) =~= text);
        0
    }
}

/// How much of a text is left when the white space at its end is dropped.
proof fn lemma_trim_end_cut(text: Seq<char>) -> (n: int)
    ensures
        0 <= n <= text.len(),
        trim_end(text) == text.take(n),
        forall|j: int| n <= j < text.len() ==> is_space(#[trigger] text[j]),
        n > 0 ==> !is_space(text[n - 1]),
    decreases text.len(),
{
    if text.len() > 0 && is_space(text.last()) {
        let rest = text.drop_last();
        let n = lemma_trim_end_cut(rest);
        assert(rest.take(n) =~= text.take(n));
        assert forall|j: int| n <= j < text.len() implies is_space(#[trigger] text[j]) by {
            if j < rest.len() {
                assert(text[j] == rest[j]);
            }
        }
        if n > 0 {
            assert(rest[n - 1] == text[n - 1]);
        }
        n
    } else {
        assert(text.take(text.len() as int) =~= text);
        text.len() as int
    }
}

/// The first `n` rows put back together, a line feed between each two.
pub open spec fn unsplit(rs: Seq<Seq<char>>, n: nat) -> Seq<char>
    decreases n,
{
    if n == 0 {
        Seq::<char>::empty()
    } else if n == 1 {
        rs[0]
    } else {
        unsplit(rs, (n - 1) as nat).push('\n') + rs[n - 1]
    }
}

proof fn lemma_unsplit_agree(a: Seq<Seq<char>>, b: Seq<Seq<char>>, n: nat)
    requires
        n <= a.len(),
        n <= b.len(),
        forall|j: int| 0 <= j < n ==> a[j] == b[j],
    ensures
        unsplit(a, n) == unsplit(b, n),
    decreases n,
{
    if n > 1 {
        lemma_unsplit_agree(a, b, (n - 1) as nat);
    }
}

/// The rows are the text cut at its line feeds: no row holds a line feed,
/// and the rows put back together with line feeds between them are the
/// text.
pub proof fn lemma_rows_cut_at_line_feeds(text: Seq<char>)
    ensures
        unsplit(rows(text), rows(text).len()) == text,
        forall|j: int, i: int|
            0 <= j < rows(text).len() && 0 <= i < rows(text)[j].len() ==> rows(text)[j][i] != '\n',
    decreases text.len(),
{
    lemma_rows_nonempty(text);
    if text.len() > 0 {
        let shorter = text.drop_last();
        let before = rows(shorter);
        let rs = rows(text);
        let m = before.len();
        lemma_rows_nonempty(shorter);
        lemma_rows_cut_at_line_feeds(shorter);
        if text.last() == '\n' {
            lemma_unsplit_agree(rs, before, m);
            assert(unsplit(rs, m + 1) =~= shorter.push('\n'));
            assert(shorter.push('\n') =~= text);
        } else {
            lemma_unsplit_agree(rs, before, (m - 1) as nat);
            assert(unsplit(rs, m) =~= unsplit(before, m).push(text.last()));
            assert(shorter.push(text.last()) =~= text);
        }
    }
}

/// The squares of the rows, one row after the other, can be found again by
/// row and column.
proof fn lemma_joined_index(rs: Seq<Seq<char>>, n: nat, x: int, y: int)
    requires
        n <= rs.len(),
        first_fault(rs, n) is None,
        0 <= y < n,
        0 <= x < squares(rs[0]).len(),
    ensures
        0 <= y * squares(rs[0]).len() + x < joined(rs, n).len(),
        joined(rs, n)[y * squares(rs[0]).len() + x] == squares(rs[y])[x],
    decreases n,
{
    let w = squares(rs[0]).len() as int;
    lemma_joined_len(rs, n);
    lemma_joined_len(rs, (n - 1) as nat);
    assert((n - 1) * w + w == n * w) by (nonlinear_arith);
    if y < n - 1 {
        lemma_joined_index(rs, (n - 1) as nat, x, y);
    } else {
        assert(y * w == (n - 1) * w);
    }
}

/// In a row without blanks every character is a square: alive where the
/// symbol is `o` or `O`, dead otherwise.
pub proof fn lemma_squares_of_plain_row(row: Seq<char>)
    requires
        forall|j: int| 0 <= j < row.len() ==> row[j] != ' ',
    ensures
        squares(row).len() == row.len(),
        forall|j: int| 0 <= j < row.len() ==> squares(row)[j] == is_alive_symbol(#[trigger] row[j]),
    decreases row.len(),
{
    if row.len() > 0 {
        let init = row.drop_last();
        lemma_squares_of_plain_row(init);
        assert forall|j: int| 0 <= j < row.len() implies squares(row)[j] == is_alive_symbol(
            #[trigger] row[j],
        ) by {
            if j < init.len() {
                assert(init[j] == row[j]);
            }
        }
    }
}

/// A pattern that is accepted is read faithfully: the grid is as high as
/// the text has rows and as wide as each row has squares; the square at
/// column `x`, row `y` is alive exactly where the row's symbol there stands
/// for a live square; and the snapshot of the grid shows that square, with
/// its position, in its slot.
pub proof fn lemma_layout_keeps_symbols(text: Seq<char>)
    requires
        layout(text) is Ok,
    ensures
        ({
            let grid = layout(text)->Ok_0;
            let rs = rows(trimmed(text));
            &&& grid.wf()
            &&& grid.height == rs.len()
            &&& forall|y: int|
                0 <= y < rs.len() ==> first_unknown(#[trigger] rs[y]) is None && squares(
                    rs[y],
                ).len() == grid.width
            &&& forall|x: int, y: int|
                grid.contains(x, y) ==> #[trigger] grid.alive(x, y) == squares(rs[y])[x]
            &&& grid.width * grid.height <= usize::MAX ==> forall|x: int, y: int|
                grid.contains(x, y) ==> {
                    let cell = grid.snapshot()[#[trigger] grid.slot(x, y)];
                    cell.alive == squares(rs[y])[x] && cell.x == x && cell.y == y
                }
        }),
{
    let body = trimmed(text);
    let grid = layout(text)->Ok_0;
    let rs = rows(body);
    lemma_rows_nonempty(body);
    let cut = lemma_trimmed_cut(text);
    lemma_first_row_has_square(body);
    lemma_joined_len(rs, rs.len());
    lemma_faultless_rows(rs, rs.len());
    assert(grid.width * grid.height == grid.height * grid.width) by (nonlinear_arith);
    assert forall|x: int, y: int| grid.contains(x, y) implies #[trigger] grid.alive(x, y)
        == squares(rs[y])[x] by {
        lemma_joined_index(rs, rs.len(), x, y);
    }
    if grid.width * grid.height <= usize::MAX {
        assert forall|x: int, y: int| grid.contains(x, y) implies {
            let cell = grid.snapshot()[#[trigger] grid.slot(x, y)];
            cell.alive == squares(rs[y])[x] && cell.x == x && cell.y == y
        } by {
            lemma_joined_index(rs, rs.len(), x, y);
            crate::grid::lemma_slot_of_square(grid.width as int, grid.height as int, x, y);
            assert(grid.width <= grid.width * grid.height && grid.height <= grid.width
                * grid.height) by (nonlinear_arith)
                requires
                    grid.width > 0,
                    grid.height > 0,
            ;
        }
    }
}

/// Rows without fault hold no unknown symbol.
proof fn lemma_faultless_rows(rs: Seq<Seq<char>>, n: nat)
    requires
        n <= rs.len(),
        first_fault(rs, n) is None,
    ensures
        forall|j: int| 0 <= j < n ==> first_unknown(#[trigger] rs[j]) is None,
    decreases n,
{
    if n > 0 {
        lemma_faultless_rows(rs, (n - 1) as nat);
    }
}

/// Whether `c` is white space.
fn space(c: char) -> (yes: bool)
    ensures
        yes == is_space(c),
{
    let n = c as u32;
    (0x9 <= n && n <= 0xd) || n == 0x20 || n == 0x85 || n == 0xa0 || n == 0x1680 || (0x2000 <= n
        && n <= 0x200a) || n == 0x2028 || n == 0x2029 || n == 0x202f || n == 0x205f || n == 0x3000
}

/// The characters of `source`, one by one.
fn characters(source: &str) -> (chars: Vec<char>)
    ensures
        chars@ == source@,
{
    let mut chars: Vec<char> = Vec::new();
    for c in it: source.chars()
        invariant
            it.seq() == source@,
            chars@ == it.seq().take(it.index() as int),
    {
        chars.push(c);
        assert(chars@ =~= it.seq().take(it.index() + 1));
    }
    assert(chars@ =~= source@);
    chars
}

/// Where the text begins once the white space before it is dropped.
fn leading(chars: &Vec<char>) -> (start: usize)
    ensures
        start <= chars@.len(),
        trim_start(chars@) == chars@.skip(start as int),
        start < chars@.len() ==> !is_space(chars@[start as int]),
{
    let mut start: usize = 0;
    assert(chars@.skip(0) =~= chars@);
    while start < chars.len() && space(chars[start])
        invariant
            start <= chars@.len(),
            trim_start(chars@) == trim_start(chars@.skip(start as int)),
        decreases chars@.len() - start,
    {
        assert(chars@.skip(start as int).drop_first() =~= chars@.skip(start + 1));
        start += 1;
    }
    start
}

/// Where the text ends once the white space after it is dropped.
fn trailing(chars: &Vec<char>, start: usize) -> (end: usize)
    requires
        start <= chars@.len(),
    ensures
        start <= end <= chars@.len(),
        trim_end(chars@.skip(start as int)) == chars@.subrange(start as int, end as int),
{
    let ghost tail = chars@.skip(start as int);
    let mut end: usize = chars.len();
    assert(tail.take(end - start) =~= tail);
    while end > start && space(chars[end - 1])
        invariant
            start <= end <= chars@.len(),
            tail == chars@.skip(start as int),
            trim_end(tail) == trim_end(tail.take(end - start)),
        decreases end,
    {
        assert(tail.take(end - start).drop_last() =~= tail.take(end - start - 1));
        end -= 1;
    }
    assert(tail.take(end - start) =~= chars@.subrange(start as int, end as int));
    end
}

/// Whether `c` stands for a square.
fn square_symbol(c: char) -> (yes: bool)
    ensures
        yes == (is_dead_symbol(c) || is_alive_symbol(c)),
{
    match c {
        'x' | 'X' | '-' => true,
        'o' | 'O' => true,
        _ => false,
    }
}

/// Reads the rows between `start` and `end`.
fn scan(chars: &Vec<char>, start: usize, end: usize) -> (found: Result<Layout, PatternError>)
    requires
        start < end <= chars@.len(),
        !is_space(chars@[start as int]),
    ensures
        match body_layout(chars@.subrange(start as int, end as int)) {
            Ok(grid) => found matches Ok(made) && made@ == grid && grid.wf() && grid.width
                * grid.height <= usize::MAX,
            Err(fault) => found == Err::<Layout, PatternError>(fault),
        },
{
    let ghost body = chars@.subrange(start as int, end as int);
    let ghost full = rows(body);
    let mut states: Vec<bool> = Vec::new();
    let mut width: usize = 0;
    let mut rows_done: usize = 0;
    let mut row_start: usize = 0;
    let mut i: usize = start;
    proof {
        assert(body.take(0) =~= Seq::<char>::empty());
        lemma_rows_nonempty(body);
    }
    while i < end
        invariant
            start <= i <= end <= chars@.len(),
            body == chars@.subrange(start as int, end as int),
            full == rows(body),
            rows(body.take(i - start)).len() == rows_done + 1,
            !is_space(chars@[start as int]),
            rows_done <= i - start,
            i > start ==> rows_done < i - start,
            first_fault(rows(body.take(i - start)), rows_done as nat) is None,
            first_unknown(rows(body.take(i - start)).last()) is None,
            row_start == joined(rows(body.take(i - start)), rows_done as nat).len(),
            rows_done > 0 ==> width == squares(rows(body.take(i - start))[0]).len(),
            states@ == joined(rows(body.take(i - start)), rows_done as nat) + squares(
                rows(body.take(i - start)).last(),
            ),
        decreases end - i,
    {
        let c = chars[i];
        let ghost k = i - start;
        let ghost p = rows(body.take(k));
        let ghost q = rows(body.take(k + 1));
        proof {
            assert(body.take(k + 1).drop_last() =~= body.take(k));
            assert(body.take(k + 1).last() == c);
            lemma_rows_grow(body, k + 1);
        }
        if c == '\n' {
            proof {
                assert(q == p.push(Seq::<char>::empty()));
                lemma_rows_agree(p, q, rows_done as nat);
                lemma_rows_agree(q, full, (rows_done + 1) as nat);
            }
            let count = states.len() - row_start;
            if rows_done == 0 {
                width = count;
            } else if count != width {
                proof {
                    lemma_fault_stays(full, (rows_done + 1) as nat, full.len());
                }
                return Err(PatternError::UnevenRows);
            }
            rows_done += 1;
            row_start = states.len();
            proof {
                assert(states@ =~= joined(q, rows_done as nat) + squares(q.last()));
            }
        } else {
            proof {
                assert(q == p.update(p.len() - 1, p.last().push(c)));
                assert(q.last().drop_last() =~= p.last());
                lemma_rows_agree(p, q, rows_done as nat);
            }
            if square_symbol(c) {
                states.push(c == 'o' || c == 'O');
                proof {
                    assert(states@ =~= joined(q, rows_done as nat) + squares(q.last()));
                }
            } else if c != ' ' {
                proof {
                    lemma_rows_agree(q, full, rows_done as nat);
                    lemma_unknown_stays(q.last(), full[rows_done as int]);
                    lemma_fault_stays(full, (rows_done + 1) as nat, full.len());
                }
                return Err(PatternError::UnknownSymbol { symbol: c });
            }
        }
        i += 1;
    }
    proof {
        assert(body.take(i - start) =~= body);
    }
    let count = states.len() - row_start;
    if rows_done == 0 {
        width = count;
    } else if count != width {
        return Err(PatternError::UnevenRows);
    }
    let height = rows_done + 1;
    proof {
        lemma_joined_len(full, full.len());
        lemma_first_row_has_square(body);
        assert(states@ =~= joined(full, full.len()));
        assert(width * height == height * width) by (nonlinear_arith);
    }
    Ok(Layout { width, height, states })
}

/// Reads a pattern text: `x`, `X` and `-` are dead squares, `o` and `O`
/// live ones, blanks are passed over, and every line is a row.
pub fn parse(source: &str) -> (found: Result<Layout, PatternError>)
    ensures
        match layout(source@) {
            Ok(grid) => found matches Ok(made) && made@ == grid && grid.wf() && grid.width
                * grid.height <= usize::MAX,
            Err(fault) => found == Err::<Layout, PatternError>(fault),
        },
{
    let chars = characters(source);
    let start = leading(&chars);
    let end = trailing(&chars, start);
    if start == end {
        return Err(PatternError::Empty);
    }
    scan(&chars, start, end)
}

} // verus!
