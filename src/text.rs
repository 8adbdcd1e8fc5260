use vstd::prelude::*;
use vstd::string::StringExecFns;
use crate::direction::Direction;
use crate::matrix::DotMatrix;

verus! {

/// The arrow drawn for a marking.
pub open spec fn arrow_of(d: Direction) -> Seq<char> {
    match d {
        Direction::Up => "\u{2191}"@,
        Direction::Down => "\u{2193}"@,
        Direction::Left => "\u{2190}"@,
        Direction::Right => "\u{2192}"@,
    }
}

/// The first `n` markings of a row, each quoted, separated by ", ".
pub open spec fn row_text(row: Seq<Direction>, n: nat) -> Seq<char>
    decreases n,
{
    if n == 0 {
        Seq::empty()
    } else {
        row_text(row, (n - 1) as nat) + (if n > 1 {
            ", "@
        } else {
            Seq::empty()
        }) + "\""@ + arrow_of(row[n - 1]) + "\""@
    }
}

/// The first `n` rows, each indented and bracketed, separated by ",\n".
pub open spec fn rows_text(m: Seq<Seq<Direction>>, n: nat) -> Seq<char>
    decreases n,
{
    if n == 0 {
        Seq::empty()
    } else {
        rows_text(m, (n - 1) as nat) + (if n > 1 {
            ",\n"@
        } else {
            Seq::empty()
        }) + "  ["@ + row_text(m[n - 1], m[n - 1].len()) + "]"@
    }
}

/// A matrix written as a bracketed list of rows of quoted arrows, one row per line.
pub open spec fn patch_text(m: Seq<Seq<Direction>>) -> Seq<char> {
    "[\n"@ + rows_text(m, m.len()) + "\n]"@
}

impl Direction {
    /// The arrow drawn for this marking.
    pub fn arrow(&self) -> (s: &'static str)
        ensures
            s@ == arrow_of(*self),
    {
        match self {
            Direction::Up => "\u{2191}",
            Direction::Down => "\u{2193}",
            Direction::Left => "\u{2190}",
            Direction::Right => "\u{2192}",
        }
    }
}

/// Writes `m` as a bracketed list of rows of quoted arrows, one row per line.
pub fn render_patch(m: &DotMatrix) -> (s: String)
    ensures
        s@ == patch_text(m@),
{
    let mut s: String = "[\n".to_owned();
    let h = m.height();
    let mut r: usize = 0;
    while r < h
        invariant
            h == m@.len(),
            r <= h,
            s@ == "[\n"@ + rows_text(m@, r as nat),
        decreases h - r,
    {
        if r > 0 {
            s.append(",\n");
        }
        s.append("  [");
        let w = m.row_len(r);
        let ghost before = s@;
        let mut c: usize = 0;
        while c < w
            invariant
                h == m@.len(),
                r < h,
                w == m@[r as int].len(),
                c <= w,
                s@ == before + row_text(m@[r as int], c as nat),
            decreases w - c,
        {
            if c > 0 {
                s.append(", ");
            }
            s.append("\"");
            s.append(m.get(r, c).arrow());
            s.append("\"");
            proof {
                assert(s@ =~= before + row_text(m@[r as int], (c + 1) as nat));
            }
            c = c + 1;
        }
        s.append("]");
        proof {
            assert(s@ =~= "[\n"@ + rows_text(m@, (r + 1) as nat));
        }
        r = r + 1;
    }
    s.append("\n]");
    s
}

} // verus!
