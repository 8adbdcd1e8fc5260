use vstd::prelude::*;
use crate::direction::{Direction, direction_of};
use crate::sequence::{WINDOW, window};
use crate::matrix::{SECTION, section_fits, section_of};
use crate::codec::{CodecConfig, CodecView, DecodeError, well_shaped, lemma_patch_origin_unique};

verus! {

proof fn lemma_patch_reduced(c: CodecView, x: int, y: int, rows: nat, cols: nat)
    requires
        c.valid(),
    ensures
        c.patch(x, y, rows, cols) == c.patch(x % c.period(), y % c.period(), rows, cols),
{
    let p = c.period();
    assert forall|r: int, k: int| c.cell(x, y, r, k) == c.cell(x % p, y % p, r, k) by {
        vstd::arithmetic::div_mod::lemma_add_mod_noop(x, k, p);
        vstd::arithmetic::div_mod::lemma_add_mod_noop(x % p, k, p);
        vstd::arithmetic::div_mod::lemma_mod_twice(x, p);
        vstd::arithmetic::div_mod::lemma_add_mod_noop(y, r, p);
        vstd::arithmetic::div_mod::lemma_add_mod_noop(y % p, r, p);
        vstd::arithmetic::div_mod::lemma_mod_twice(y, p);
    }
    assert(c.patch(x, y, rows, cols) =~~= c.patch(x % p, y % p, rows, cols));
}

/// Decoding the block that encoding renders at corner `(x, y)` under roll
/// `(rx, ry)`, of at least six by six markings, gives back `(x + rx, y + ry)`
/// modulo the period.
pub proof fn lemma_decode_encoded(c: CodecView, x: int, y: int, rx: int, ry: int, rows: nat, cols: nat)
    requires
        c.valid(),
        rows >= WINDOW,
        cols >= WINDOW,
    ensures
        c.decoded(c.patch(x + rx, y + ry, rows, cols)) == Ok::<(int, int), DecodeError>(
            ((x + rx) % c.period(), (y + ry) % c.period()),
        ),
{
    let p = c.period();
    let m = c.patch(x + rx, y + ry, rows, cols);
    let a = (x + rx) % p;
    let b = (y + ry) % p;
    lemma_patch_reduced(c, x + rx, y + ry, rows, cols);
    assert(well_shaped(m));
    assert(c.encodes_at(m, a, b));
    let (a2, b2) = choose|a2: int, b2: int| c.encodes_at(m, a2, b2);
    lemma_patch_origin_unique(c, m, a, b, a2, b2);
}

/// Under a roll that is a whole number of periods, decoding the block rendered
/// at `(x, y)` gives back `(x, y)` modulo the period.
pub proof fn lemma_round_trip(c: CodecView, x: int, y: int, rx: int, ry: int, rows: nat, cols: nat)
    requires
        c.valid(),
        rows >= WINDOW,
        cols >= WINDOW,
        rx % c.period() == 0,
        ry % c.period() == 0,
    ensures
        c.decoded(c.patch(x + rx, y + ry, rows, cols)) == Ok::<(int, int), DecodeError>(
            (x % c.period(), y % c.period()),
        ),
{
    let p = c.period();
    lemma_decode_encoded(c, x, y, rx, ry, rows, cols);
    vstd::arithmetic::div_mod::lemma_add_mod_noop(x, rx, p);
    vstd::arithmetic::div_mod::lemma_add_mod_noop(y, ry, p);
    vstd::arithmetic::div_mod::lemma_mod_twice(x, p);
    vstd::arithmetic::div_mod::lemma_mod_twice(y, p);
}

/// A patch with fewer than six rows, or fewer than six markings in its first
/// row, is malformed.
pub proof fn lemma_short_patch_malformed(c: CodecView, m: Seq<Seq<Direction>>)
    requires
        m.len() < WINDOW || m[0].len() < WINDOW,
    ensures
        c.decoded(m) == Err::<(int, int), DecodeError>(DecodeError::MalformedPatch),
{
}

/// Within one period, the windows of each axis at two different offsets differ.
pub proof fn lemma_windows_unique(c: CodecView, o1: int, o2: int)
    requires
        c.valid(),
        0 <= o1 < c.period(),
        0 <= o2 < c.period(),
        o1 != o2,
    ensures
        window(c.h, o1) != window(c.h, o2),
        window(c.v, o1) != window(c.v, o2),
{
}

/// Two codecs built from one configuration hold the same sequences, render the
/// same blocks and decode every patch alike.
pub proof fn lemma_construction_deterministic(config: CodecConfig, c1: CodecView, c2: CodecView)
    requires
        c1 == config.codec_view(),
        c2 == config.codec_view(),
    ensures
        c1.h == c2.h,
        c1.v == c2.v,
        forall|x: int, y: int, rows: nat, cols: nat|
            #[trigger] c1.patch(x, y, rows, cols) == c2.patch(x, y, rows, cols),
        forall|m: Seq<Seq<Direction>>| #[trigger] c1.decoded(m) == c2.decoded(m),
{
}

/// Every marking of a rendered block is one of the four directions, and is the
/// one whose bits are the two axis symbols at its place.
pub proof fn lemma_markings_canonical(c: CodecView, x: int, y: int, rows: nat, cols: nat)
    requires
        c.valid(),
    ensures
        forall|r: int, k: int|
            0 <= r < rows && 0 <= k < cols ==> {
                let d = #[trigger] c.patch(x, y, rows, cols)[r][k];
                &&& (d is Up || d is Down || d is Left || d is Right)
                &&& d.h_bit() == c.h[(x + k) % c.period()]
                &&& d.v_bit() == c.v[(y + r) % c.period()]
                &&& d == direction_of(d.h_bit(), d.v_bit())
            },
{
}

/// Decoding never reports a corner whose block differs from the patch.
pub proof fn lemma_decode_sound(c: CodecView, m: Seq<Seq<Direction>>, a: int, b: int)
    requires
        c.decoded(m) == Ok::<(int, int), DecodeError>((a, b)),
    ensures
        0 <= a < c.period(),
        0 <= b < c.period(),
        m == c.patch(a, b, m.len(), m[0].len()),
{
}

/// The six-by-six block at row `row`, column `col` of the page of section
/// `(su, sv)` is the block that encoding renders at corner `(col, row)` under the
/// section's roll.
pub proof fn lemma_tiling_consistent(
    c: CodecView,
    height: nat,
    width: nat,
    su: int,
    sv: int,
    row: int,
    col: int,
)
    requires
        c.valid(),
        0 <= row,
        0 <= col,
        row + SECTION <= height,
        col + SECTION <= width,
    ensures
        section_fits(c.patch(su % c.period(), sv % c.period(), height, width), row, col),
        section_of(c.patch(su % c.period(), sv % c.period(), height, width), row, col) == c.patch(
            col + su % c.period(),
            row + sv % c.period(),
            SECTION as nat,
            SECTION as nat,
        ),
{
    let p = c.period();
    let page = c.patch(su % p, sv % p, height, width);
    let block = c.patch(col + su % p, row + sv % p, SECTION as nat, SECTION as nat);
    assert forall|i: int| 0 <= i < SECTION implies #[trigger] section_of(page, row, col)[i]
        =~= block[i] by {
        assert forall|j: int| 0 <= j < SECTION implies section_of(page, row, col)[i][j]
            == block[i][j] by {
            assert(su % p + (col + j) == col + su % p + j);
            assert(sv % p + (row + i) == row + sv % p + i);
        }
    }
    assert(section_of(page, row, col) =~= block);
}

} // verus!
