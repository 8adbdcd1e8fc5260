use vstd::prelude::*;
use crate::direction::Direction;

verus! {

/// A block of markings, stored row by row.
#[derive(Debug)]
pub struct DotMatrix {
    rows: Vec<Vec<Direction>>,
}

/// A requested block does not fit inside the matrix.
#[derive(Clone, Copy, Debug, PartialEq, Eq, Structural)]
pub struct OutOfBounds {
    pub row: usize,
    pub col: usize,
}

/// Side length of the block that identifies a position.
pub const SECTION: usize = 6;

/// Each of the `h` rows of `m` holds exactly `w` markings.
pub open spec fn is_rectangle(m: Seq<Seq<Direction>>, h: nat, w: nat) -> bool {
    m.len() == h && forall|i: int| 0 <= i < h ==> (#[trigger] m[i]).len() == w
}

/// The six-by-six block of `m` whose top left corner is at `(row, col)` lies inside `m`.
pub open spec fn section_fits(m: Seq<Seq<Direction>>, row: int, col: int) -> bool {
    &&& 0 <= row
    &&& 0 <= col
    &&& row + SECTION <= m.len()
    &&& forall|i: int| row <= i < row + SECTION ==> col + SECTION <= (#[trigger] m[i]).len()
}

/// The six-by-six block of `m` whose top left corner is at `(row, col)`.
pub open spec fn section_of(m: Seq<Seq<Direction>>, row: int, col: int) -> Seq<Seq<Direction>> {
    Seq::new(SECTION as nat, |i: int| m[row + i].subrange(col, col + SECTION))
}

impl View for DotMatrix {
    type V = Seq<Seq<Direction>>;

    closed spec fn view(&self) -> Seq<Seq<Direction>> {
        Seq::new(self.rows@.len(), |i: int| self.rows@[i]@)
    }
}

impl DotMatrix {
    /// Takes the rows as they are; nothing requires them to be of one length.
    pub fn from_rows(rows: Vec<Vec<Direction>>) -> (m: DotMatrix)
        ensures
            m@ == Seq::new(rows@.len(), |i: int| rows@[i]@),
    {
        DotMatrix { rows }
    }

    /// A copy of the rows.
    pub fn to_rows(&self) -> (rows: Vec<Vec<Direction>>)
        ensures
            rows@.len() == self@.len(),
            forall|i: int| 0 <= i < rows@.len() ==> (#[trigger] rows@[i])@ == self@[i],
    {
        let mut out: Vec<Vec<Direction>> = Vec::new();
        let mut i: usize = 0;
        while i < self.rows.len()
            invariant
                i <= self.rows@.len(),
                out@.len() == i,
                forall|k: int| 0 <= k < i ==> (#[trigger] out@[k])@ == self@[k],
            decreases self.rows@.len() - i,
        {
            let row = copy_row(&self.rows[i]);
            out.push(row);
            i = i + 1;
        }
        out
    }

    /// Number of rows.
    pub fn height(&self) -> (h: usize)
        ensures
            h == self@.len(),
    {
        self.rows.len()
    }

    /// Number of markings in row `r`.
    pub fn row_len(&self, r: usize) -> (w: usize)
        requires
            r < self@.len(),
        ensures
            w == self@[r as int].len(),
    {
        self.rows[r].len()
    }

    /// The marking in row `r`, column `c`.
    pub fn get(&self, r: usize, c: usize) -> (d: Direction)
        requires
            r < self@.len(),
            c < self@[r as int].len(),
        ensures
            d == self@[r as int][c as int],
    {
        self.rows[r][c]
    }
}

fn copy_row(row: &Vec<Direction>) -> (out: Vec<Direction>)
    ensures
        out@ == row@,
{
    let mut out: Vec<Direction> = Vec::new();
    let mut j: usize = 0;
    while j < row.len()
        invariant
            j <= row@.len(),
            out@ == row@.take(j as int),
        decreases row@.len() - j,
    {
        out.push(row[j]);
        j = j + 1;
        assert(out@ =~= row@.take(j as int));
    }
    assert(row@.take(row@.len() as int) =~= row@);
    out
}

/// Cuts the six-by-six block whose top left corner is at row `row`, column `col`
/// out of `matrix`, or reports that it does not fit.
pub fn extract_6x6_section(matrix: &DotMatrix, row: usize, col: usize) -> (r: Result<
    DotMatrix,
    OutOfBounds,
>)
    ensures
        match r {
            Ok(s) => section_fits(matrix@, row as int, col as int) && s@ == section_of(
                matrix@,
                row as int,
                col as int,
            ),
            Err(e) => !section_fits(matrix@, row as int, col as int) && e == (OutOfBounds {
                row,
                col,
            }),
        },
{
    let h = matrix.height();
    if row > h || h - row < SECTION {
        return Err(OutOfBounds { row, col });
    }
    let mut out: Vec<Vec<Direction>> = Vec::new();
    let mut i: usize = 0;
    while i < SECTION
        invariant
            h == matrix@.len(),
            row + SECTION <= h,
            i <= SECTION,
            out@.len() == i,
            forall|k: int| row <= k < row + i ==> col + SECTION <= (#[trigger] matrix@[k]).len(),
            forall|k: int|
                0 <= k < i ==> (#[trigger] out@[k])@ == matrix@[row + k].subrange(
                    col as int,
                    col + SECTION,
                ),
        decreases SECTION - i,
    {
        let w = matrix.row_len(row + i);
        if col > w || w - col < SECTION {
            return Err(OutOfBounds { row, col });
        }
        let mut cells: Vec<Direction> = Vec::new();
        let mut j: usize = 0;
        while j < SECTION
            invariant
                h == matrix@.len(),
                row + i < h,
                w == matrix@[row + i].len(),
                col + SECTION <= w,
                j <= SECTION,
                cells@ =~= matrix@[row + i].subrange(col as int, col + j),
            decreases SECTION - j,
        {
            cells.push(matrix.get(row + i, col + j));
            j = j + 1;
        }
        out.push(cells);
        i = i + 1;
    }
    let s = DotMatrix::from_rows(out);
    assert(s@ =~= section_of(matrix@, row as int, col as int));
    Ok(s)
}

} // verus!
