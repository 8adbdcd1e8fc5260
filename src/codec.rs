use vstd::prelude::*;
use vstd::arithmetic::power2::lemma2_to64;
use crate::direction::{Direction, direction_of};
use crate::matrix::DotMatrix;
use crate::sequence::{
    WINDOW,
    WINDOW_CODES,
    window,
    windows_unique,
    bits_value,
    axis_sequence,
    generate_axis,
    window_at,
    window_code,
    lemma_bits_value_bound,
    lemma_bits_value_injective,
};

verus! {

/// What a codec is built from: the period shared by both axes, and the seed and
/// feedback taps of the shift register behind each axis sequence.
#[derive(Clone, Copy, Debug, PartialEq, Eq, Structural)]
pub struct CodecConfig {
    pub period: usize,
    pub h_seed: u64,
    pub h_taps: u64,
    pub v_seed: u64,
    pub v_taps: u64,
}

/// One of the two axes of the pattern.
#[derive(Clone, Copy, Debug, PartialEq, Eq, Structural)]
pub enum Axis {
    Horizontal,
    Vertical,
}

/// A configuration whose windows cannot be told apart.
#[derive(Clone, Copy, Debug, PartialEq, Eq, Structural)]
pub enum ConfigError {
    /// The period is zero or longer than the number of distinct windows.
    PeriodOutOfRange,
    /// A window of this axis occurs at two offsets of one period.
    RepeatedWindow(Axis),
}

/// Why a patch could not be decoded.
#[derive(Clone, Copy, Debug, PartialEq, Eq, Structural)]
pub enum DecodeError {
    /// Fewer than six rows or columns, or rows of different lengths.
    MalformedPatch,
    /// The markings are not a block of the pattern.
    AmbiguousOrUnknownWindow,
}

impl CodecConfig {
    /// The horizontal axis sequence this configuration describes.
    pub open spec fn horizontal(self) -> Seq<bool> {
        axis_sequence(self.h_seed, self.h_taps, self.period as nat)
    }

    /// The vertical axis sequence this configuration describes.
    pub open spec fn vertical(self) -> Seq<bool> {
        axis_sequence(self.v_seed, self.v_taps, self.period as nat)
    }

    pub open spec fn period_in_range(self) -> bool {
        1 <= self.period <= WINDOW_CODES
    }

    /// The configuration keeps every window of both axes unique.
    pub open spec fn is_sound(self) -> bool {
        self.period_in_range() && windows_unique(self.horizontal()) && windows_unique(
            self.vertical(),
        )
    }

    /// The codec this configuration yields.
    pub open spec fn codec_view(self) -> CodecView {
        CodecView { h: self.horizontal(), v: self.vertical() }
    }

    /// The six-by-six preset for an A4 page: both axes have period 63, from the
    /// registers of x^6 + x + 1 and x^6 + x^5 + 1.
    pub open spec fn spec_a4_6x6() -> CodecConfig {
        CodecConfig { period: 63, h_seed: 1, h_taps: 3, v_seed: 1, v_taps: 33 }
    }

    pub fn a4_6x6() -> (c: CodecConfig)
        ensures
            c == Self::spec_a4_6x6(),
    {
        CodecConfig { period: 63, h_seed: 1, h_taps: 3, v_seed: 1, v_taps: 33 }
    }
}

/// The mathematical content of a codec: its two axis sequences.
pub struct CodecView {
    pub h: Seq<bool>,
    pub v: Seq<bool>,
}

/// A table from window value to the offset of that window in `s`.
pub open spec fn is_index_of(t: Seq<Option<usize>>, s: Seq<bool>) -> bool {
    &&& t.len() == WINDOW_CODES
    &&& forall|k: int|
        0 <= k < WINDOW_CODES && (#[trigger] t[k]) is Some ==> t[k]->Some_0 < s.len()
            && bits_value(window(s, t[k]->Some_0 as int)) == k
    &&& forall|k: int, o: int|
        #![trigger t[k], window(s, o)]
        0 <= k < WINDOW_CODES && t[k] is None && 0 <= o < s.len() ==> bits_value(window(s, o))
            != k
}

impl CodecView {
    pub open spec fn period(self) -> int {
        self.h.len() as int
    }

    pub open spec fn valid(self) -> bool {
        &&& 1 <= self.h.len() <= WINDOW_CODES
        &&& self.v.len() == self.h.len()
        &&& windows_unique(self.h)
        &&& windows_unique(self.v)
    }

    /// The marking at row `r`, column `c` of the block whose corner is at `(x, y)`.
    pub open spec fn cell(self, x: int, y: int, r: int, c: int) -> Direction {
        direction_of(self.h[(x + c) % self.period()], self.v[(y + r) % self.period()])
    }

    /// The `rows` by `cols` block whose corner is at `(x, y)`.
    pub open spec fn patch(self, x: int, y: int, rows: nat, cols: nat) -> Seq<Seq<Direction>> {
        Seq::new(rows, |r: int| Seq::new(cols, |c: int| self.cell(x, y, r, c)))
    }

    /// `m` is the block of its own size at `(a, b)`, with both inside one period.
    pub open spec fn encodes_at(self, m: Seq<Seq<Direction>>, a: int, b: int) -> bool {
        &&& 0 <= a < self.period()
        &&& 0 <= b < self.period()
        &&& m == self.patch(a, b, m.len(), m[0].len())
    }

    /// What decoding `m` gives.
    pub open spec fn decoded(self, m: Seq<Seq<Direction>>) -> Result<(int, int), DecodeError> {
        if !well_shaped(m) {
            Err(DecodeError::MalformedPatch)
        } else if exists|a: int, b: int| self.encodes_at(m, a, b) {
            let (a, b) = choose|a: int, b: int| self.encodes_at(m, a, b);
            Ok((a, b))
        } else {
            Err(DecodeError::AmbiguousOrUnknownWindow)
        }
    }
}

/// At least six rows, all of one length of at least six.
pub open spec fn well_shaped(m: Seq<Seq<Direction>>) -> bool {
    &&& m.len() >= WINDOW
    &&& m[0].len() >= WINDOW
    &&& forall|i: int| 0 <= i < m.len() ==> (#[trigger] m[i]).len() == m[0].len()
}

/// The two axis sequences and, for each, the offset of every window.
pub struct Codec {
    mns_length: usize,
    h: Vec<bool>,
    v: Vec<bool>,
    h_index: Vec<Option<usize>>,
    v_index: Vec<Option<usize>>,
}

impl View for Codec {
    type V = CodecView;

    closed spec fn view(&self) -> CodecView {
        CodecView { h: self.h@, v: self.v@ }
    }
}

/// Builds the table from window value to offset, or finds a repeated window.
fn build_index(s: &Vec<bool>) -> (r: Result<Vec<Option<usize>>, ()>)
    requires
        1 <= s@.len() <= WINDOW_CODES,
    ensures
        match r {
            Ok(t) => windows_unique(s@) && is_index_of(t@, s@),
            Err(_) => !windows_unique(s@),
        },
{
    let mut t: Vec<Option<usize>> = Vec::new();
    let mut k: usize = 0;
    while k < WINDOW_CODES
        invariant
            k <= WINDOW_CODES,
            t@.len() == k,
            forall|j: int| 0 <= j < k ==> t@[j] is None,
        decreases WINDOW_CODES - k,
    {
        t.push(None);
        k = k + 1;
    }
    let n = s.len();
    let mut o: usize = 0;
    while o < n
        invariant
            n == s@.len(),
            1 <= n <= WINDOW_CODES,
            o <= n,
            t@.len() == WINDOW_CODES,
            forall|p: int|
                0 <= p < o ==> t@[bits_value(#[trigger] window(s@, p)) as int] == Some(p as usize),
            forall|j: int|
                0 <= j < WINDOW_CODES ==> match #[trigger] t@[j] {
                    Some(p) => p < o && bits_value(window(s@, p as int)) == j,
                    None => true,
                },
        decreases n - o,
    {
        let w = window_at(s, o);
        let code = window_code(&w);
        match t[code] {
            Some(p) => {
                proof {
                    lemma_bits_value_injective(window(s@, p as int), window(s@, o as int));
                }
                return Err(());
            },
            None => {
                t.set(code, Some(o));
            },
        }
        proof {
            assert forall|p: int| 0 <= p < o + 1 implies t@[bits_value(
                #[trigger] window(s@, p),
            ) as int] == Some(p as usize) by {
                if p < o {
                    lemma_bits_value_bound(window(s@, p));
                    lemma2_to64();
                }
            }
        }
        o = o + 1;
    }
    proof {
        assert forall|o1: int, o2: int|
            0 <= o1 < n && 0 <= o2 < n && o1 != o2 implies #[trigger] window(s@, o1)
            != #[trigger] window(s@, o2) by {
            if window(s@, o1) == window(s@, o2) {
                assert(t@[bits_value(window(s@, o1)) as int] == Some(o1 as usize));
                assert(t@[bits_value(window(s@, o2)) as int] == Some(o2 as usize));
            }
        }
        assert forall|j: int, p: int|
            #![trigger t@[j], window(s@, p)]
            0 <= j < WINDOW_CODES && t@[j] is None && 0 <= p < n implies bits_value(window(s@, p))
                != j by {
            assert(t@[bits_value(window(s@, p)) as int] == Some(p as usize));
        }
    }
    Ok(t)
}

impl Codec {
    /// The codec is built from its configuration and its tables index its sequences.
    pub closed spec fn wf(&self) -> bool {
        &&& self@.valid()
        &&& self.mns_length == self.h@.len()
        &&& is_index_of(self.h_index@, self.h@)
        &&& is_index_of(self.v_index@, self.v@)
    }

    pub proof fn lemma_wf(&self)
        requires
            self.wf(),
        ensures
            self@.valid(),
    {
    }

    /// The period shared by both axes.
    pub fn mns_length(&self) -> (p: usize)
        requires
            self.wf(),
        ensures
            p == self@.period(),
            1 <= p <= WINDOW_CODES,
    {
        self.mns_length
    }

    /// Generates both axis sequences, checks that every window of each occurs once
    /// per period, and indexes the windows.
    pub fn new(config: CodecConfig) -> (r: Result<Codec, ConfigError>)
        ensures
            r is Ok <==> config.is_sound(),
            match r {
                Ok(c) => c.wf() && c@ == config.codec_view(),
                Err(ConfigError::PeriodOutOfRange) => !config.period_in_range(),
                Err(ConfigError::RepeatedWindow(Axis::Horizontal)) => config.period_in_range()
                    && !windows_unique(config.horizontal()),
                Err(ConfigError::RepeatedWindow(Axis::Vertical)) => config.period_in_range()
                    && windows_unique(config.horizontal()) && !windows_unique(config.vertical()),
            },
    {
        if config.period == 0 || config.period > WINDOW_CODES {
            return Err(ConfigError::PeriodOutOfRange);
        }
        let h = generate_axis(config.h_seed, config.h_taps, config.period);
        let v = generate_axis(config.v_seed, config.v_taps, config.period);
        let h_index = match build_index(&h) {
            Ok(t) => t,
            Err(_) => {
                return Err(ConfigError::RepeatedWindow(Axis::Horizontal));
            },
        };
        let v_index = match build_index(&v) {
            Ok(t) => t,
            Err(_) => {
                return Err(ConfigError::RepeatedWindow(Axis::Vertical));
            },
        };
        Ok(Codec { mns_length: config.period, h, v, h_index, v_index })
    }

    /// One period of the horizontal axis sequence.
    pub fn horizontal(&self) -> (s: Vec<bool>)
        ensures
            s@ == self@.h,
    {
        self.h.clone()
    }

    /// One period of the vertical axis sequence.
    pub fn vertical(&self) -> (s: Vec<bool>)
        ensures
            s@ == self@.v,
    {
        self.v.clone()
    }
}

/// `v` reduced modulo `p` into `0..p`.
fn reduce(v: i64, p: usize) -> (r: usize)
    requires
        1 <= p <= WINDOW_CODES,
    ensures
        r == (v as int) % (p as int),
        r < p,
{
    if v >= 0 {
        ((v as u64) % (p as u64)) as usize
    } else {
        let n: u64 = (-(v + 1)) as u64;
        let q: u64 = n % (p as u64);
        proof {
            let pi = p as int;
            let ni = n as int;
            let k = ni / pi;
            vstd::arithmetic::div_mod::lemma_fundamental_div_mod(ni, pi);
            assert(v == pi * (-k - 1) + (pi - 1 - q)) by (nonlinear_arith)
                requires
                    v == -ni - 1,
                    ni == pi * k + q,
            ;
            vstd::arithmetic::div_mod::lemma_fundamental_div_mod_converse_mod(
                v as int,
                pi,
                -k - 1,
                pi - 1 - q,
            );
        }
        p - 1 - (q as usize)
    }
}

proof fn lemma_mod_sum(a: int, b: int, c: int, p: int)
    requires
        p > 0,
    ensures
        ((a % p + b % p) % p + c % p) % p == (a + b + c) % p,
{
    vstd::arithmetic::div_mod::lemma_add_mod_noop(a, b, p);
    vstd::arithmetic::div_mod::lemma_add_mod_noop(a + b, c, p);
    vstd::arithmetic::div_mod::lemma_mod_twice(a + b, p);
}

impl Codec {
    /// The marking at column `c`, row `r` of the block whose corner, rolled and
    /// reduced, is at `(x, y)`.
    fn cell_at(&self, x: usize, y: usize, r: usize, c: usize) -> (d: Direction)
        requires
            self.wf(),
            x < self@.period(),
            y < self@.period(),
        ensures
            d == self@.cell(x as int, y as int, r as int, c as int),
    {
        let p = self.mns_length;
        let i = (x + c % p) % p;
        let j = (y + r % p) % p;
        proof {
            vstd::arithmetic::div_mod::lemma_add_mod_noop_right(x as int, c as int, p as int);
            vstd::arithmetic::div_mod::lemma_add_mod_noop_right(y as int, r as int, p as int);
        }
        Direction::from_bits(self.h[i], self.v[j])
    }

    /// Renders the `size.0` by `size.1` block whose corner is at `origin`, shifted by
    /// `roll`: row `r`, column `c` combines the horizontal symbol at
    /// `origin.0 + c + roll.0` with the vertical symbol at `origin.1 + r + roll.1`,
    /// both taken modulo the period.
    pub fn encode_patch(&self, origin: (i64, i64), size: (usize, usize), roll: (i64, i64)) -> (m:
        DotMatrix)
        requires
            self.wf(),
        ensures
            m@ == self@.patch(origin.0 + roll.0, origin.1 + roll.1, size.0 as nat, size.1 as nat),
    {
        let p = self.mns_length;
        let x = (reduce(origin.0, p) + reduce(roll.0, p)) % p;
        let y = (reduce(origin.1, p) + reduce(roll.1, p)) % p;
        let ghost gx = origin.0 + roll.0;
        let ghost gy = origin.1 + roll.1;
        let ghost target = self@.patch(gx, gy, size.0 as nat, size.1 as nat);
        proof {
            assert forall|r: int, c: int| self@.cell(x as int, y as int, r, c) == self@.cell(gx, gy, r, c) by {
                let pi = p as int;
                lemma_mod_sum(origin.0 as int, roll.0 as int, c, pi);
                lemma_mod_sum(origin.1 as int, roll.1 as int, r, pi);
                vstd::arithmetic::div_mod::lemma_small_mod(x as nat, p as nat);
                vstd::arithmetic::div_mod::lemma_small_mod(y as nat, p as nat);
                vstd::arithmetic::div_mod::lemma_add_mod_noop(x as int, c, pi);
                vstd::arithmetic::div_mod::lemma_add_mod_noop(y as int, r, pi);
                assert((x as int + c) % pi == (gx + c) % pi);
                assert((y as int + r) % pi == (gy + r) % pi);
            }
        }
        let mut rows: Vec<Vec<Direction>> = Vec::new();
        let mut r: usize = 0;
        while r < size.0
            invariant
                self.wf(),
                p == self@.period(),
                x < p,
                y < p,
                r <= size.0,
                rows@.len() == r,
                target == self@.patch(gx, gy, size.0 as nat, size.1 as nat),
                forall|r: int, c: int| self@.cell(x as int, y as int, r, c) == self@.cell(gx, gy, r, c),
                forall|k: int| 0 <= k < r ==> (#[trigger] rows@[k])@ == target[k],
            decreases size.0 - r,
        {
            let mut row: Vec<Direction> = Vec::new();
            let mut c: usize = 0;
            while c < size.1
                invariant
                    self.wf(),
                    p == self@.period(),
                    x < p,
                    y < p,
                    r < size.0,
                    c <= size.1,
                    row@.len() == c,
                    forall|r: int, c: int| self@.cell(x as int, y as int, r, c) == self@.cell(gx, gy, r, c),
                    forall|k: int| 0 <= k < c ==> row@[k] == self@.cell(gx, gy, r as int, k),
                decreases size.1 - c,
            {
                row.push(self.cell_at(x, y, r, c));
                c = c + 1;
            }
            assert(row@ =~= target[r as int]);
            rows.push(row);
            r = r + 1;
        }
        let m = DotMatrix::from_rows(rows);
        assert(m@ =~= target);
        m
    }

    /// The roll of the page that section `(sect_u, sect_v)` selects: each
    /// coordinate modulo the period.
    pub fn section_roll(&self, sect_u: i64, sect_v: i64) -> (roll: (i64, i64))
        requires
            self.wf(),
        ensures
            roll.0 == (sect_u as int) % self@.period(),
            roll.1 == (sect_v as int) % self@.period(),
    {
        let p = self.mns_length;
        (reduce(sect_u, p) as i64, reduce(sect_v, p) as i64)
    }

    /// The `height` by `width` page of section `(sect_u, sect_v)`: one block from
    /// corner `(0, 0)` under the section's roll.
    pub fn generate_matrix(&self, height: usize, width: usize, sect_u: i64, sect_v: i64) -> (m:
        DotMatrix)
        requires
            self.wf(),
        ensures
            m@ == self@.patch(
                (sect_u as int) % self@.period(),
                (sect_v as int) % self@.period(),
                height as nat,
                width as nat,
            ),
    {
        let roll = self.section_roll(sect_u, sect_v);
        self.encode_patch((0, 0), (height, width), roll)
    }

    /// The six-by-six block at `(x, y)` of the page of section `(sect_u, sect_v)`.
    pub fn lookup_patch(&self, sect_u: i64, sect_v: i64, x: i64, y: i64) -> (m: DotMatrix)
        requires
            self.wf(),
        ensures
            m@ == self@.patch(
                x + (sect_u as int) % self@.period(),
                y + (sect_v as int) % self@.period(),
                WINDOW as nat,
                WINDOW as nat,
            ),
    {
        let roll = self.section_roll(sect_u, sect_v);
        self.encode_patch((x, y), (WINDOW, WINDOW), roll)
    }
}

/// The horizontal bits of the first six markings of row 0.
pub open spec fn row_window(m: Seq<Seq<Direction>>) -> Seq<bool> {
    Seq::new(WINDOW as nat, |k: int| m[0][k].h_bit())
}

/// The vertical bits of the first six markings of column 0.
pub open spec fn column_window(m: Seq<Seq<Direction>>) -> Seq<bool> {
    Seq::new(WINDOW as nat, |k: int| m[k][0].v_bit())
}

/// A block of at least six by six shows the window of each axis at its corner.
pub proof fn lemma_patch_windows(c: CodecView, a: int, b: int, rows: nat, cols: nat)
    requires
        c.valid(),
        rows >= WINDOW,
        cols >= WINDOW,
    ensures
        row_window(c.patch(a, b, rows, cols)) == window(c.h, a),
        column_window(c.patch(a, b, rows, cols)) == window(c.v, b),
{
    assert(row_window(c.patch(a, b, rows, cols)) =~= window(c.h, a));
    assert(column_window(c.patch(a, b, rows, cols)) =~= window(c.v, b));
}

/// A block of at least six by six is the block of one corner only.
pub proof fn lemma_patch_origin_unique(
    c: CodecView,
    m: Seq<Seq<Direction>>,
    a1: int,
    b1: int,
    a2: int,
    b2: int,
)
    requires
        c.valid(),
        m.len() >= WINDOW,
        m[0].len() >= WINDOW,
        c.encodes_at(m, a1, b1),
        c.encodes_at(m, a2, b2),
    ensures
        a1 == a2,
        b1 == b2,
{
    lemma_patch_windows(c, a1, b1, m.len(), m[0].len());
    lemma_patch_windows(c, a2, b2, m.len(), m[0].len());
    if a1 != a2 {
        assert(window(c.h, a1) != window(c.h, a2));
    }
    if b1 != b2 {
        assert(window(c.v, b1) != window(c.v, b2));
    }
}

impl Codec {
    /// Recovers the corner of the block `patch`, modulo the period. The patch
    /// must have at least six rows, all of one length of at least six; its
    /// markings must be exactly the block of the pattern at the corner returned.
    pub fn decode_position(&self, patch: &DotMatrix) -> (r: Result<(i64, i64), DecodeError>)
        requires
            self.wf(),
        ensures
            match r {
                Ok((a, b)) => self@.decoded(patch@) == Ok::<(int, int), DecodeError>((a as int, b as int)),
                Err(e) => self@.decoded(patch@) == Err::<(int, int), DecodeError>(e),
            },
    {
        let ghost m = patch@;
        let ghost cv = self@;
        let h = patch.height();
        if h < WINDOW {
            return Err(DecodeError::MalformedPatch);
        }
        let w = patch.row_len(0);
        if w < WINDOW {
            return Err(DecodeError::MalformedPatch);
        }
        let mut i: usize = 1;
        while i < h
            invariant
                m == patch@,
                h == m.len(),
                w == m[0].len(),
                1 <= i <= h,
                forall|k: int| 0 <= k < i ==> (#[trigger] m[k]).len() == w,
            decreases h - i,
        {
            if patch.row_len(i) != w {
                return Err(DecodeError::MalformedPatch);
            }
            i = i + 1;
        }
        assert(well_shaped(m));

        let mut hw: Vec<bool> = Vec::new();
        let mut vw: Vec<bool> = Vec::new();
        let mut k: usize = 0;
        while k < WINDOW
            invariant
                m == patch@,
                well_shaped(m),
                k <= WINDOW,
                hw@ =~= Seq::new(k as nat, |j: int| m[0][j].h_bit()),
                vw@ =~= Seq::new(k as nat, |j: int| m[j][0].v_bit()),
            decreases WINDOW - k,
        {
            hw.push(patch.get(0, k).horizontal_bit());
            vw.push(patch.get(k, 0).vertical_bit());
            k = k + 1;
        }
        assert(hw@ == row_window(m));
        assert(vw@ == column_window(m));

        let hk = window_code(&hw);
        let a = match self.h_index[hk] {
            Some(a) => a,
            None => {
                proof {
                    assert forall|a2: int, b2: int| !cv.encodes_at(m, a2, b2) by {
                        if cv.encodes_at(m, a2, b2) {
                            lemma_patch_windows(cv, a2, b2, m.len(), m[0].len());
                            assert(self.h_index@[hk as int] is None);
                            assert(bits_value(window(self.h@, a2)) != hk);
                        }
                    }
                }
                return Err(DecodeError::AmbiguousOrUnknownWindow);
            },
        };
        let vk = window_code(&vw);
        let b = match self.v_index[vk] {
            Some(b) => b,
            None => {
                proof {
                    assert forall|a2: int, b2: int| !cv.encodes_at(m, a2, b2) by {
                        if cv.encodes_at(m, a2, b2) {
                            lemma_patch_windows(cv, a2, b2, m.len(), m[0].len());
                            assert(self.v_index@[vk as int] is None);
                            assert(bits_value(window(self.v@, b2)) != vk);
                        }
                    }
                }
                return Err(DecodeError::AmbiguousOrUnknownWindow);
            },
        };
        proof {
            assert(self.h_index@[hk as int] is Some);
            assert(self.v_index@[vk as int] is Some);
            lemma_bits_value_injective(window(self.h@, a as int), hw@);
            lemma_bits_value_injective(window(self.v@, b as int), vw@);
        }
        let ghost expected = cv.patch(a as int, b as int, h as nat, w as nat);
        let mut r: usize = 0;
        while r < h
            invariant
                self.wf(),
                cv == self@,
                m == patch@,
                well_shaped(m),
                h == m.len(),
                w == m[0].len(),
                a < cv.period(),
                b < cv.period(),
                window(cv.h, a as int) == row_window(m),
                window(cv.v, b as int) == column_window(m),
                expected == cv.patch(a as int, b as int, h as nat, w as nat),
                r <= h,
                forall|i: int, j: int| 0 <= i < r && 0 <= j < w ==> m[i][j] == #[trigger] expected[i][j],
            decreases h - r,
        {
            let mut c: usize = 0;
            while c < w
                invariant
                    self.wf(),
                    cv == self@,
                    m == patch@,
                    well_shaped(m),
                    h == m.len(),
                    w == m[0].len(),
                    a < cv.period(),
                    b < cv.period(),
                    window(cv.h, a as int) == row_window(m),
                    window(cv.v, b as int) == column_window(m),
                    expected == cv.patch(a as int, b as int, h as nat, w as nat),
                    r < h,
                    c <= w,
                    forall|i: int, j: int| 0 <= i < r && 0 <= j < w ==> m[i][j] == #[trigger] expected[i][j],
                    forall|j: int| 0 <= j < c ==> m[r as int][j] == #[trigger] expected[r as int][j],
                decreases w - c,
            {
                assert(m[r as int].len() == w);
                if patch.get(r, c) != self.cell_at(a, b, r, c) {
                    proof {
                        assert forall|a2: int, b2: int| !cv.encodes_at(m, a2, b2) by {
                            if cv.encodes_at(m, a2, b2) {
                                lemma_patch_windows(cv, a2, b2, m.len(), m[0].len());
                                if a2 != a {
                                    assert(window(cv.h, a2) != window(cv.h, a as int));
                                }
                                if b2 != b {
                                    assert(window(cv.v, b2) != window(cv.v, b as int));
                                }
                            }
                        }
                    }
                    return Err(DecodeError::AmbiguousOrUnknownWindow);
                }
                c = c + 1;
            }
            r = r + 1;
        }
        proof {
            assert(m =~= expected) by {
                assert forall|i: int| 0 <= i < h implies m[i] =~= expected[i] by {
                    assert forall|j: int| 0 <= j < w implies m[i][j] == expected[i][j] by {
                        assert(m[i][j] == expected[i][j]);
                    }
                }
            }
            assert(cv.encodes_at(m, a as int, b as int));
            let (a2, b2) = choose|a2: int, b2: int| cv.encodes_at(m, a2, b2);
            lemma_patch_origin_unique(cv, m, a as int, b as int, a2, b2);
        }
        Ok((a as i64, b as i64))
    }
}

/// The codec of the six-by-six A4 preset.
pub fn anoto_6x6_a4_fixed() -> (r: Result<Codec, ConfigError>)
    ensures
        r is Ok <==> CodecConfig::spec_a4_6x6().is_sound(),
        r is Ok ==> r->Ok_0.wf() && r->Ok_0@ == CodecConfig::spec_a4_6x6().codec_view(),
{
    Codec::new(CodecConfig::a4_6x6())
}

} // verus!
