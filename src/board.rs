use vstd::prelude::*;

use crate::error::GameError;

verus! {

/// Number of cells of a board.
pub const CELLS: usize = 9;

/// Number of cells on a side of the board.
pub const SIDE: usize = 3;

/// Number of winning lines: three rows, three columns, two diagonals.
pub const LINES: usize = 8;

/// The abstract contents of a board: nine cells in row-major order, each
/// empty or holding the shape that occupies it.
pub type Cells = Seq<Option<Seq<char>>>;

/// Index of the cell in row `x` and column `y`.
pub open spec fn cell_index(x: int, y: int) -> int {
    3 * x + y
}

/// Index of the `j`-th cell (`j` in 0..3) of line `k`. Lines 0..3 are the
/// rows, 3..6 the columns, 6 the main diagonal and 7 the anti-diagonal.
pub open spec fn line_cell(k: int, j: int) -> int {
    if k < 3 {
        cell_index(k, j)
    } else if k < 6 {
        cell_index(j, k - 3)
    } else if k == 6 {
        cell_index(j, j)
    } else {
        cell_index(j, 2 - j)
    }
}

/// The shape that fills all three cells of line `k`, if one non-empty shape does.
pub open spec fn line_owner(cells: Cells, k: int) -> Option<Seq<char>> {
    match cells[line_cell(k, 0)] {
        Some(s) => if s.len() > 0 && cells[line_cell(k, 1)] == Some(s) && cells[line_cell(k, 2)]
            == Some(s) {
            Some(s)
        } else {
            None
        },
        None => None,
    }
}

/// The owner of the first owned line among lines `k..8`.
pub open spec fn first_winner_from(cells: Cells, k: int) -> Option<Seq<char>>
    decreases 8 - k,
{
    if k >= 8 {
        None
    } else if line_owner(cells, k) is Some {
        line_owner(cells, k)
    } else {
        first_winner_from(cells, k + 1)
    }
}

/// The winner of a board: the owner of its first owned line, rows before
/// columns before diagonals.
pub open spec fn winner(cells: Cells) -> Option<Seq<char>> {
    first_winner_from(cells, 0)
}

/// The board with every cell empty.
pub open spec fn empty_cells() -> Cells {
    Seq::new(9, |i: int| None)
}

/// The text of one cell: its shape, or `.` when it is empty.
pub open spec fn cell_text(c: Option<Seq<char>>) -> Seq<char> {
    match c {
        Some(s) => s,
        None => seq!['.'],
    }
}

/// `n` spaces.
pub open spec fn gap(n: nat) -> Seq<char> {
    Seq::new(n, |i: int| ' ')
}

/// Row `r` of the rendering: its three cells separated by `spacing` spaces.
pub open spec fn row_text(cells: Cells, r: int, spacing: nat) -> Seq<char> {
    cell_text(cells[cell_index(r, 0)]) + gap(spacing) + cell_text(cells[cell_index(r, 1)]) + gap(
        spacing,
    ) + cell_text(cells[cell_index(r, 2)])
}

/// The rendering of a board: its three rows separated by newlines.
pub open spec fn render_text(cells: Cells, spacing: nat) -> Seq<char> {
    row_text(cells, 0, spacing) + seq!['\n'] + row_text(cells, 1, spacing) + seq!['\n'] + row_text(
        cells,
        2,
        spacing,
    )
}

/// One row of a board with no shape on it.
pub open spec fn placeholder_row(spacing: nat) -> Seq<char> {
    seq!['.'] + gap(spacing) + seq!['.'] + gap(spacing) + seq!['.']
}

proof fn lemma_owned_line_reached(cells: Cells, m: int, k: int, shape: Seq<char>)
    requires
        0 <= m <= k < 8,
        line_owner(cells, k) == Some(shape),
        forall|i: int| 0 <= i < k ==> line_owner(cells, i) is None,
    ensures
        first_winner_from(cells, m) == Some(shape),
    decreases k - m,
{
    if m < k {
        lemma_owned_line_reached(cells, m + 1, k, shape);
    }
}

/// When one non-empty shape fills the three cells of line `k`, and no line
/// scanned before it is complete, that shape is the winner.
pub proof fn lemma_line_wins(cells: Cells, k: int, shape: Seq<char>)
    requires
        cells.len() == 9,
        0 <= k < 8,
        shape.len() > 0,
        forall|j: int| 0 <= j < 3 ==> cells[#[trigger] line_cell(k, j)] == Some(shape),
        forall|i: int| 0 <= i < k ==> line_owner(cells, i) is None,
    ensures
        winner(cells) == Some(shape),
{
    assert(cells[line_cell(k, 0)] == Some(shape));
    assert(cells[line_cell(k, 1)] == Some(shape));
    assert(cells[line_cell(k, 2)] == Some(shape));
    lemma_owned_line_reached(cells, 0, k, shape);
}

proof fn lemma_first_winner_owns(cells: Cells, m: int)
    requires
        0 <= m <= 8,
    ensures
        first_winner_from(cells, m) matches Some(s) ==> exists|k: int|
            m <= k < 8 && #[trigger] line_owner(cells, k) == Some(s),
    decreases 8 - m,
{
    if m < 8 {
        lemma_first_winner_owns(cells, m + 1);
    }
}

/// A board has a winner only when that shape fills a whole row, column or
/// diagonal.
pub proof fn lemma_winner_owns_a_line(cells: Cells)
    ensures
        winner(cells) matches Some(s) ==> exists|k: int|
            0 <= k < 8 && #[trigger] line_owner(cells, k) == Some(s),
{
    lemma_first_winner_owns(cells, 0);
}

proof fn lemma_empty_has_no_owner(m: int)
    requires
        0 <= m <= 8,
    ensures
        first_winner_from(empty_cells(), m) is None,
    decreases 8 - m,
{
    if m < 8 {
        lemma_empty_has_no_owner(m + 1);
    }
}

/// A board with every cell empty has no winner and renders as three rows of
/// placeholders.
pub proof fn lemma_empty_board(spacing: nat)
    ensures
        winner(empty_cells()) is None,
        render_text(empty_cells(), spacing) == placeholder_row(spacing) + seq!['\n']
            + placeholder_row(spacing) + seq!['\n'] + placeholder_row(spacing),
{
    lemma_empty_has_no_owner(0);
    assert(row_text(empty_cells(), 0, spacing) == placeholder_row(spacing));
    assert(row_text(empty_cells(), 1, spacing) == placeholder_row(spacing));
    assert(row_text(empty_cells(), 2, spacing) == placeholder_row(spacing));
}

/// The view of one stored cell.
pub open spec fn cell_view(c: Option<String>) -> Option<Seq<char>> {
    match c {
        Some(s) => Some(s@),
        None => None,
    }
}

/// A 3x3 grid of cells, each empty or occupied by a shape.
pub struct Board {
    cells: Vec<Option<String>>,
}

impl View for Board {
    type V = Cells;

    closed spec fn view(&self) -> Cells {
        self.cells@.map_values(|c: Option<String>| cell_view(c))
    }
}

/// The three cell indices of line `k`.
fn line_cells(k: usize) -> (r: (usize, usize, usize))
    requires
        k < 8,
    ensures
        r.0 == line_cell(k as int, 0),
        r.1 == line_cell(k as int, 1),
        r.2 == line_cell(k as int, 2),
        r.0 < 9 && r.1 < 9 && r.2 < 9,
{
    if k < 3 {
        (SIDE * k, SIDE * k + 1, SIDE * k + 2)
    } else if k < 6 {
        (k - 3, k, k + 3)
    } else if k == 6 {
        (0, 4, 8)
    } else {
        (2, 4, 6)
    }
}

/// Appends the text of one cell to `out`.
fn append_cell(out: &mut String, c: &Option<String>)
    ensures
        final(out)@ == old(out)@ + cell_text(cell_view(*c)),
{
    match c {
        Some(s) => out.append(s.as_str()),
        None => {
            proof {
                reveal_strlit(".");
            }
            out.append(".");
            assert("."@ =~= seq!['.']);
        },
    }
}

/// A string of `n` spaces.
fn spaces_of(n: u8) -> (r: String)
    ensures
        r@ == gap(n as nat),
{
    let mut r = String::new();
    let mut i: u8 = 0;
    proof {
        reveal_strlit(" ");
    }
    assert(" "@ =~= seq![' ']);
    while i < n
        invariant
            i <= n,
            r@ == gap(i as nat),
            " "@ == seq![' '],
        decreases n - i,
    {
        r.append(" ");
        assert(r@ =~= gap((i + 1) as nat));
        i = i + 1;
    }
    assert(r@ =~= gap(n as nat));
    r
}

impl Board {
    /// A board holds exactly nine cells.
    pub open spec fn wf(&self) -> bool {
        self@.len() == 9
    }

    /// A board with all nine cells empty.
    pub fn new() -> (b: Board)
        ensures
            b.wf(),
            b@ == empty_cells(),
    {
        let mut cells: Vec<Option<String>> = Vec::new();
        let mut i: usize = 0;
        while i < CELLS
            invariant
                i <= CELLS,
                cells@.len() == i,
                forall|j: int| 0 <= j < i ==> cells@[j] is None,
            decreases CELLS - i,
        {
            cells.push(None);
            i = i + 1;
        }
        let b = Board { cells };
        assert(b@ =~= empty_cells());
        b
    }

    /// Writes `shape` into the cell in row `x` and column `y`, whatever the
    /// cell held before. Coordinates outside the grid leave the board as it
    /// was and report `InvalidCoordinate`.
    pub fn insert(&mut self, x: usize, y: usize, shape: String) -> (r: Result<(), GameError>)
        requires
            old(self).wf(),
        ensures
            final(self).wf(),
            x < 3 && y < 3 ==> r is Ok && final(self)@ == old(self)@.update(
                cell_index(x as int, y as int),
                Some(shape@),
            ),
            !(x < 3 && y < 3) ==> r == Err::<(), GameError>(GameError::InvalidCoordinate)
                && final(self)@ == old(self)@,
    {
        if x >= SIDE || y >= SIDE {
            return Err(GameError::InvalidCoordinate);
        }
        let idx = SIDE * x + y;
        let ghost s = shape@;
        self.cells.set(idx, Some(shape));
        assert(self@ =~= old(self)@.update(cell_index(x as int, y as int), Some(s)));
        Ok(())
    }

    /// The shape that fills the whole of line `k`, if one non-empty shape does.
    fn line_winner(&self, k: usize) -> (r: Option<String>)
        requires
            self.wf(),
            k < 8,
        ensures
            cell_view(r) == line_owner(self@, k as int),
    {
        let (a, b, c) = line_cells(k);
        match self.cell(a) {
            Some(s) => {
                if s.as_str().unicode_len() == 0 {
                    return None;
                }
                let second = match self.cell(b) {
                    Some(t) => *t == *s,
                    None => false,
                };
                let third = match self.cell(c) {
                    Some(t) => *t == *s,
                    None => false,
                };
                if second && third {
                    Some(s.clone())
                } else {
                    None
                }
            },
            None => None,
        }
    }

    /// The winner of the board: the shape that fills the first complete
    /// line, scanning rows, then columns, then the two diagonals.
    pub fn find_winner(&self) -> (r: Option<String>)
        requires
            self.wf(),
        ensures
            cell_view(r) == winner(self@),
    {
        let mut k: usize = 0;
        while k < LINES
            invariant
                self.wf(),
                k <= LINES,
                first_winner_from(self@, k as int) == winner(self@),
            decreases LINES - k,
        {
            let w = self.line_winner(k);
            if w.is_some() {
                return w;
            }
            k = k + 1;
        }
        None
    }

    /// Appends row `r` of the rendering to `out`, with `spaces` between cells.
    fn append_row(&self, out: &mut String, r: usize, spaces: &String, Ghost(n): Ghost<nat>)
        requires
            self.wf(),
            r < 3,
            spaces@ == gap(n),
        ensures
            final(out)@ == old(out)@ + row_text(self@, r as int, n),
    {
        append_cell(out, self.cell(SIDE * r));
        out.append(spaces.as_str());
        append_cell(out, self.cell(SIDE * r + 1));
        out.append(spaces.as_str());
        append_cell(out, self.cell(SIDE * r + 2));
        assert(final(out)@ =~= old(out)@ + row_text(self@, r as int, n));
    }

    /// The text of the board: three rows separated by newlines, the cells of
    /// a row separated by `spacing` spaces, an empty cell shown as `.`.
    /// Reading the board does not change it, so equal boards render equally.
    pub fn render(&self, spacing: u8) -> (r: String)
        requires
            self.wf(),
        ensures
            r@ == render_text(self@, spacing as nat),
    {
        let spaces = spaces_of(spacing);
        let mut out = String::new();
        proof {
            reveal_strlit("\n");
        }
        self.append_row(&mut out, 0, &spaces, Ghost(spacing as nat));
        out.append("\n");
        self.append_row(&mut out, 1, &spaces, Ghost(spacing as nat));
        out.append("\n");
        self.append_row(&mut out, 2, &spaces, Ghost(spacing as nat));
        assert("\n"@ =~= seq!['\n']);
        assert(out@ =~= render_text(self@, spacing as nat));
        out
    }

    /// The shape held in cell `i`, by reference.
    fn cell(&self, i: usize) -> (r: &Option<String>)
        requires
            self.wf(),
            i < 9,
        ensures
            cell_view(*r) == self@[i as int],
    {
        &self.cells[i]
    }
}

} // verus!
