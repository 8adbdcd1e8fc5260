use vstd::prelude::*;
use crate::direction::Direction;
use crate::matrix::DotMatrix;
use crate::sequence::WINDOW;
use crate::codec::{Codec, DecodeError};

verus! {

/// A submitted value, as far as the patch reader looks into it: an integer, a
/// string, a list, or anything else.
#[derive(Debug)]
pub enum Observed {
    Int(i64),
    Text(String),
    List(Vec<Observed>),
    Other,
}

/// Why a submitted value is not a six-by-six patch. Rows and columns count
/// from zero.
#[derive(Debug)]
pub enum PatchInputError {
    NotAnArray,
    WrongRowCount,
    RowNotAnArray { row: usize },
    WrongRowLength { row: usize },
    InvalidCoordinate { x: i64, y: i64, row: usize, col: usize },
    InvalidDirection { text: String, row: usize, col: usize },
    InvalidCellFormat { row: usize, col: usize },
    InvalidCellArrayLength { row: usize, col: usize },
    InvalidCellType { row: usize, col: usize },
}

/// Why a submitted patch gave no position.
#[derive(Debug)]
pub enum SubmissionError {
    /// The value is not a six-by-six patch.
    Input(PatchInputError),
    /// The patch is not a block of the pattern.
    Decode(DecodeError),
}

/// The marking a name stands for: an arrow, or the direction's name
/// capitalised or in lower case.
pub open spec fn direction_named(t: Seq<char>) -> Option<Direction> {
    if t == "\u{2191}"@ || t == "Up"@ || t == "up"@ {
        Some(Direction::Up)
    } else if t == "\u{2190}"@ || t == "Left"@ || t == "left"@ {
        Some(Direction::Left)
    } else if t == "\u{2192}"@ || t == "Right"@ || t == "right"@ {
        Some(Direction::Right)
    } else if t == "\u{2193}"@ || t == "Down"@ || t == "down"@ {
        Some(Direction::Down)
    } else {
        None
    }
}

/// The marking whose horizontal and vertical bits are `x` and `y`.
pub open spec fn direction_with_bits(x: int, y: int) -> Option<Direction> {
    if x == 0 && y == 0 {
        Some(Direction::Up)
    } else if x == 1 && y == 0 {
        Some(Direction::Left)
    } else if x == 0 && y == 1 {
        Some(Direction::Right)
    } else if x == 1 && y == 1 {
        Some(Direction::Down)
    } else {
        None
    }
}

pub open spec fn named_cell(t: String, row: int, col: int) -> Result<Direction, PatchInputError> {
    match direction_named(t@) {
        Some(d) => Ok(d),
        None => Err(PatchInputError::InvalidDirection { text: t, row: row as usize, col: col as usize }),
    }
}

/// A cell is a name, a one-item list holding a name, or a two-item list holding
/// the two bits or, first, a name.
pub open spec fn cell_reading(c: Observed, row: int, col: int) -> Result<Direction, PatchInputError> {
    let (r, k) = (row as usize, col as usize);
    match c {
        Observed::List(items) => {
            if items@.len() == 2 {
                if items@[0] is Int && items@[1] is Int {
                    let x = items@[0]->Int_0;
                    let y = items@[1]->Int_0;
                    match direction_with_bits(x as int, y as int) {
                        Some(d) => Ok(d),
                        None => Err(PatchInputError::InvalidCoordinate { x, y, row: r, col: k }),
                    }
                } else if items@[0] is Text {
                    named_cell(items@[0]->Text_0, row, col)
                } else {
                    Err(PatchInputError::InvalidCellFormat { row: r, col: k })
                }
            } else if items@.len() == 1 {
                if items@[0] is Text {
                    named_cell(items@[0]->Text_0, row, col)
                } else {
                    Err(PatchInputError::InvalidCellFormat { row: r, col: k })
                }
            } else {
                Err(PatchInputError::InvalidCellArrayLength { row: r, col: k })
            }
        },
        Observed::Text(t) => named_cell(t, row, col),
        _ => Err(PatchInputError::InvalidCellType { row: r, col: k }),
    }
}

/// The first `n` cells of row `row`, or the error of the first that fails.
pub open spec fn cells_reading(cells: Seq<Observed>, row: int, n: nat) -> Result<
    Seq<Direction>,
    PatchInputError,
>
    decreases n,
{
    if n == 0 {
        Ok(Seq::empty())
    } else {
        match cells_reading(cells, row, (n - 1) as nat) {
            Ok(ds) => match cell_reading(cells[n - 1], row, n - 1) {
                Ok(d) => Ok(ds.push(d)),
                Err(e) => Err(e),
            },
            Err(e) => Err(e),
        }
    }
}

/// A row is a list of six cells.
pub open spec fn row_reading(v: Observed, row: int) -> Result<Seq<Direction>, PatchInputError> {
    match v {
        Observed::List(cells) => if cells@.len() != WINDOW {
            Err(PatchInputError::WrongRowLength { row: row as usize })
        } else {
            cells_reading(cells@, row, WINDOW as nat)
        },
        _ => Err(PatchInputError::RowNotAnArray { row: row as usize }),
    }
}

/// The first `n` rows, or the error of the first that fails.
pub open spec fn rows_reading(rows: Seq<Observed>, n: nat) -> Result<
    Seq<Seq<Direction>>,
    PatchInputError,
>
    decreases n,
{
    if n == 0 {
        Ok(Seq::empty())
    } else {
        match rows_reading(rows, (n - 1) as nat) {
            Ok(m) => match row_reading(rows[n - 1], n - 1) {
                Ok(r) => Ok(m.push(r)),
                Err(e) => Err(e),
            },
            Err(e) => Err(e),
        }
    }
}

/// A patch is a list of six rows, read in order; the first failing row or cell
/// decides the error.
pub open spec fn patch_reading(v: Observed) -> Result<Seq<Seq<Direction>>, PatchInputError> {
    match v {
        Observed::List(rows) => if rows@.len() != WINDOW {
            Err(PatchInputError::WrongRowCount)
        } else {
            rows_reading(rows@, WINDOW as nat)
        },
        _ => Err(PatchInputError::NotAnArray),
    }
}

proof fn lemma_cells_error_stays(cells: Seq<Observed>, row: int, n: nat, m: nat)
    requires
        n <= m,
        cells_reading(cells, row, n) is Err,
    ensures
        cells_reading(cells, row, m) == cells_reading(cells, row, n),
    decreases m - n,
{
    if n < m {
        lemma_cells_error_stays(cells, row, n, (m - 1) as nat);
    }
}

proof fn lemma_rows_error_stays(rows: Seq<Observed>, n: nat, m: nat)
    requires
        n <= m,
        rows_reading(rows, n) is Err,
    ensures
        rows_reading(rows, m) == rows_reading(rows, n),
    decreases m - n,
{
    if n < m {
        lemma_rows_error_stays(rows, n, (m - 1) as nat);
    }
}

fn text_is(t: &String, name: &str) -> (b: bool)
    ensures
        b == (t@ == name@),
{
    let n: String = name.to_owned();
    *t == n
}

impl Direction {
    /// The marking a name stands for, if any.
    pub fn from_name(t: &String) -> (d: Option<Direction>)
        ensures
            d == direction_named(t@),
    {
        if text_is(t, "\u{2191}") || text_is(t, "Up") || text_is(t, "up") {
            Some(Direction::Up)
        } else if text_is(t, "\u{2190}") || text_is(t, "Left") || text_is(t, "left") {
            Some(Direction::Left)
        } else if text_is(t, "\u{2192}") || text_is(t, "Right") || text_is(t, "right") {
            Some(Direction::Right)
        } else if text_is(t, "\u{2193}") || text_is(t, "Down") || text_is(t, "down") {
            Some(Direction::Down)
        } else {
            None
        }
    }

    /// The marking whose horizontal and vertical bits are `x` and `y`, if both
    /// are bits.
    pub fn from_bit_values(x: i64, y: i64) -> (d: Option<Direction>)
        ensures
            d == direction_with_bits(x as int, y as int),
    {
        if x == 0 && y == 0 {
            Some(Direction::Up)
        } else if x == 1 && y == 0 {
            Some(Direction::Left)
        } else if x == 0 && y == 1 {
            Some(Direction::Right)
        } else if x == 1 && y == 1 {
            Some(Direction::Down)
        } else {
            None
        }
    }
}

fn read_named(t: &String, row: usize, col: usize) -> (r: Result<Direction, PatchInputError>)
    ensures
        r == named_cell(*t, row as int, col as int),
{
    match Direction::from_name(t) {
        Some(d) => Ok(d),
        None => Err(PatchInputError::InvalidDirection { text: t.clone(), row, col }),
    }
}

fn read_cell(c: &Observed, row: usize, col: usize) -> (r: Result<Direction, PatchInputError>)
    ensures
        r == cell_reading(*c, row as int, col as int),
{
    match c {
        Observed::List(items) => {
            if items.len() == 2 {
                match (&items[0], &items[1]) {
                    (Observed::Int(x), Observed::Int(y)) => match Direction::from_bit_values(*x, *y) {
                        Some(d) => Ok(d),
                        None => Err(PatchInputError::InvalidCoordinate { x: *x, y: *y, row, col }),
                    },
                    (Observed::Text(t), _) => read_named(t, row, col),
                    _ => Err(PatchInputError::InvalidCellFormat { row, col }),
                }
            } else if items.len() == 1 {
                match &items[0] {
                    Observed::Text(t) => read_named(t, row, col),
                    _ => Err(PatchInputError::InvalidCellFormat { row, col }),
                }
            } else {
                Err(PatchInputError::InvalidCellArrayLength { row, col })
            }
        },
        Observed::Text(t) => read_named(t, row, col),
        _ => Err(PatchInputError::InvalidCellType { row, col }),
    }
}

fn read_row(v: &Observed, row: usize) -> (r: Result<Vec<Direction>, PatchInputError>)
    ensures
        match r {
            Ok(ds) => row_reading(*v, row as int) == Ok::<Seq<Direction>, PatchInputError>(ds@),
            Err(e) => row_reading(*v, row as int) == Err::<Seq<Direction>, PatchInputError>(e),
        },
{
    match v {
        Observed::List(cells) => {
            if cells.len() != WINDOW {
                return Err(PatchInputError::WrongRowLength { row });
            }
            let mut ds: Vec<Direction> = Vec::new();
            let mut k: usize = 0;
            while k < WINDOW
                invariant
                    *v == Observed::List(*cells),
                    cells@.len() == WINDOW,
                    k <= WINDOW,
                    cells_reading(cells@, row as int, k as nat) == Ok::<
                        Seq<Direction>,
                        PatchInputError,
                    >(ds@),
                decreases WINDOW - k,
            {
                match read_cell(&cells[k], row, k) {
                    Ok(d) => {
                        ds.push(d);
                    },
                    Err(e) => {
                        proof {
                            lemma_cells_error_stays(cells@, row as int, (k + 1) as nat, WINDOW as nat);
                        }
                        return Err(e);
                    },
                }
                k = k + 1;
            }
            Ok(ds)
        },
        _ => Err(PatchInputError::RowNotAnArray { row }),
    }
}

/// Reads a submitted six-by-six patch into a matrix of markings.
pub fn read_patch(v: &Observed) -> (r: Result<DotMatrix, PatchInputError>)
    ensures
        match r {
            Ok(m) => patch_reading(*v) == Ok::<Seq<Seq<Direction>>, PatchInputError>(m@),
            Err(e) => patch_reading(*v) == Err::<Seq<Seq<Direction>>, PatchInputError>(e),
        },
{
    match v {
        Observed::List(rows) => {
            if rows.len() != WINDOW {
                return Err(PatchInputError::WrongRowCount);
            }
            let mut out: Vec<Vec<Direction>> = Vec::new();
            let ghost mut read: Seq<Seq<Direction>> = Seq::empty();
            let mut i: usize = 0;
            while i < WINDOW
                invariant
                    *v == Observed::List(*rows),
                    rows@.len() == WINDOW,
                    i <= WINDOW,
                    out@.len() == i,
                    read.len() == i,
                    forall|k: int| 0 <= k < i ==> (#[trigger] out@[k])@ == read[k],
                    rows_reading(rows@, i as nat) == Ok::<Seq<Seq<Direction>>, PatchInputError>(
                        read,
                    ),
                decreases WINDOW - i,
            {
                match read_row(&rows[i], i) {
                    Ok(ds) => {
                        proof {
                            read = read.push(ds@);
                        }
                        out.push(ds);
                    },
                    Err(e) => {
                        proof {
                            lemma_rows_error_stays(rows@, (i + 1) as nat, WINDOW as nat);
                        }
                        return Err(e);
                    },
                }
                i = i + 1;
            }
            let m = DotMatrix::from_rows(out);
            assert(m@ =~= read);
            Ok(m)
        },
        _ => Err(PatchInputError::NotAnArray),
    }
}

impl Codec {
    /// Reads a submitted patch and decodes the position of its corner.
    pub fn decode_observed(&self, v: &Observed) -> (r: Result<(i64, i64), SubmissionError>)
        requires
            self.wf(),
        ensures
            match r {
                Ok((a, b)) => patch_reading(*v) is Ok && self@.decoded(patch_reading(*v)->Ok_0)
                    == Ok::<(int, int), DecodeError>((a as int, b as int)),
                Err(SubmissionError::Input(e)) => patch_reading(*v) == Err::<
                    Seq<Seq<Direction>>,
                    PatchInputError,
                >(e),
                Err(SubmissionError::Decode(e)) => patch_reading(*v) is Ok && self@.decoded(
                    patch_reading(*v)->Ok_0,
                ) == Err::<(int, int), DecodeError>(e),
            },
    {
        match read_patch(v) {
            Ok(m) => match self.decode_position(&m) {
                Ok(p) => Ok(p),
                Err(e) => Err(SubmissionError::Decode(e)),
            },
            Err(e) => Err(SubmissionError::Input(e)),
        }
    }
}

} // verus!
