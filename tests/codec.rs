use anoto_pdf::codec::{anoto_6x6_a4_fixed, Axis, Codec, CodecConfig, ConfigError, DecodeError};
use anoto_pdf::direction::Direction;
use anoto_pdf::matrix::{extract_6x6_section, DotMatrix, OutOfBounds};

const H_BITS: &str = "100000100001100010100111101000111001001011011101100110101011111";
const V_BITS: &str = "100000111111010101100110111011010010011100010111100101000110000";

fn preset() -> Codec {
    anoto_6x6_a4_fixed().expect("the preset keeps every window unique")
}

fn bits(s: &str) -> Vec<bool> {
    s.chars().map(|c| c == '1').collect()
}

fn window(s: &[bool], o: usize) -> Vec<bool> {
    (0..6).map(|i| s[(o + i) % s.len()]).collect()
}

#[test]
fn preset_builds_with_period_63() {
    let c = preset();
    assert_eq!(c.mns_length(), 63);
    assert_eq!(CodecConfig::a4_6x6().period, 63);
}

#[test]
fn preset_sequences_are_the_register_outputs() {
    let c = preset();
    assert_eq!(c.horizontal(), bits(H_BITS));
    assert_eq!(c.vertical(), bits(V_BITS));
}

#[test]
fn every_window_occurs_once_per_period() {
    let c = preset();
    for s in [c.horizontal(), c.vertical()] {
        let p = s.len();
        for o1 in 0..p {
            for o2 in 0..p {
                if o1 != o2 {
                    assert_ne!(window(&s, o1), window(&s, o2), "offsets {} and {}", o1, o2);
                }
            }
        }
    }
}

#[test]
fn round_trip_every_position_without_roll() {
    let c = preset();
    for x in 0..63i64 {
        for y in 0..63i64 {
            let m = c.encode_patch((x, y), (6, 6), (0, 0));
            assert_eq!(c.decode_position(&m), Ok((x, y)));
        }
    }
}

#[test]
fn round_trip_with_rolls_and_larger_patches() {
    let c = preset();
    for &(x, y, rx, ry) in &[(0i64, 0i64, 10i64, 10i64), (5, 60, 62, 1), (-3, -70, 7, 200), (100, 7, -1, -64)] {
        let m = c.encode_patch((x, y), (8, 9), (rx, ry));
        let ex = (x + rx).rem_euclid(63);
        let ey = (y + ry).rem_euclid(63);
        assert_eq!(c.decode_position(&m), Ok((ex, ey)));
    }
}

#[test]
fn section_ten_scenario() {
    let c = preset();
    let roll = (10 % 63, 10 % 63);
    let m = c.encode_patch((0, 0), (6, 6), roll);
    assert_eq!(c.decode_position(&m), Ok((10, 10)));
}

#[test]
fn two_constructions_agree() {
    let a = Codec::new(CodecConfig::a4_6x6()).unwrap();
    let b = Codec::new(CodecConfig::a4_6x6()).unwrap();
    assert_eq!(a.horizontal(), b.horizontal());
    assert_eq!(a.vertical(), b.vertical());
    let ma = a.encode_patch((17, 4), (7, 6), (3, 9));
    let mb = b.encode_patch((17, 4), (7, 6), (3, 9));
    assert_eq!(ma.to_rows(), mb.to_rows());
    assert_eq!(a.decode_position(&ma), b.decode_position(&mb));
}

#[test]
fn markings_are_the_axis_bits() {
    let c = preset();
    let h = c.horizontal();
    let v = c.vertical();
    let m = c.encode_patch((3, 11), (10, 12), (0, 0)).to_rows();
    for (r, row) in m.iter().enumerate() {
        for (k, d) in row.iter().enumerate() {
            assert!(matches!(d, Direction::Up | Direction::Down | Direction::Left | Direction::Right));
            assert_eq!(d.horizontal_bit(), h[(3 + k) % 63]);
            assert_eq!(d.vertical_bit(), v[(11 + r) % 63]);
            assert_eq!(Direction::from_bits(d.horizontal_bit(), d.vertical_bit()), *d);
        }
    }
}

#[test]
fn direction_bit_mapping() {
    assert_eq!(Direction::from_bits(false, false), Direction::Up);
    assert_eq!(Direction::from_bits(true, false), Direction::Left);
    assert_eq!(Direction::from_bits(false, true), Direction::Right);
    assert_eq!(Direction::from_bits(true, true), Direction::Down);
}

#[test]
fn encode_exact_cells() {
    let c = preset();
    // h starts 1,0 and v starts 1: (1,1) is down, (0,1) is right.
    let m = c.encode_patch((0, 0), (1, 2), (0, 0));
    assert_eq!(m.to_rows(), vec![vec![Direction::Down, Direction::Right]]);
    assert_eq!(m.height(), 1);
    assert_eq!(m.row_len(0), 2);
    assert_eq!(m.get(0, 1), Direction::Right);
}

#[test]
fn negative_origin_wraps() {
    let c = preset();
    let a = c.encode_patch((-1, -2), (6, 6), (0, 0));
    let b = c.encode_patch((62, 61), (6, 6), (0, 0));
    assert_eq!(a.to_rows(), b.to_rows());
    assert_eq!(c.decode_position(&a), Ok((62, 61)));
}

#[test]
fn empty_size_gives_empty_matrix() {
    let c = preset();
    assert_eq!(c.encode_patch((1, 1), (0, 0), (0, 0)).height(), 0);
    let m = c.encode_patch((1, 1), (3, 0), (0, 0));
    assert_eq!(m.to_rows(), vec![Vec::<Direction>::new(); 3]);
}

#[test]
fn short_patch_is_malformed() {
    let c = preset();
    let m = c.encode_patch((0, 0), (5, 6), (0, 0));
    assert_eq!(c.decode_position(&m), Err(DecodeError::MalformedPatch));
    let m = c.encode_patch((0, 0), (6, 5), (0, 0));
    assert_eq!(c.decode_position(&m), Err(DecodeError::MalformedPatch));
    let empty = DotMatrix::from_rows(vec![]);
    assert_eq!(c.decode_position(&empty), Err(DecodeError::MalformedPatch));
}

#[test]
fn ragged_patch_is_malformed() {
    let c = preset();
    let mut rows = c.encode_patch((4, 4), (6, 7), (0, 0)).to_rows();
    rows[3].pop();
    assert_eq!(c.decode_position(&DotMatrix::from_rows(rows)), Err(DecodeError::MalformedPatch));
}

#[test]
fn injected_pattern_is_unknown() {
    let c = preset();
    let all_up = DotMatrix::from_rows(vec![vec![Direction::Up; 6]; 6]);
    assert_eq!(c.decode_position(&all_up), Err(DecodeError::AmbiguousOrUnknownWindow));
    // Six ones in a row occur in both sequences: this one is a real block.
    let all_down = DotMatrix::from_rows(vec![vec![Direction::Down; 6]; 6]);
    assert_eq!(c.decode_position(&all_down), Ok((58, 6)));
    let alternating = DotMatrix::from_rows(
        (0..6)
            .map(|r| (0..6).map(|k| if (r + k) % 2 == 0 { Direction::Up } else { Direction::Down }).collect())
            .collect(),
    );
    assert_eq!(c.decode_position(&alternating), Err(DecodeError::AmbiguousOrUnknownWindow));
}

#[test]
fn one_changed_marking_is_rejected() {
    let c = preset();
    for &(r, k) in &[(0usize, 0usize), (2, 3), (5, 5), (5, 0), (0, 5)] {
        let mut rows = c.encode_patch((20, 30), (6, 6), (0, 0)).to_rows();
        rows[r][k] = match rows[r][k] {
            Direction::Up => Direction::Down,
            Direction::Down => Direction::Left,
            Direction::Left => Direction::Right,
            Direction::Right => Direction::Up,
        };
        let got = c.decode_position(&DotMatrix::from_rows(rows));
        assert_eq!(got, Err(DecodeError::AmbiguousOrUnknownWindow));
    }
}

#[test]
fn section_roll_reduces_into_the_period() {
    let c = preset();
    assert_eq!(c.section_roll(10, 10), (10, 10));
    assert_eq!(c.section_roll(-1, 64), (62, 1));
    assert_eq!(c.section_roll(126, -63), (0, 0));
}

#[test]
fn generate_matrix_is_encode_under_section_roll() {
    let c = preset();
    let page = c.generate_matrix(9, 11, 75, -5);
    let direct = c.encode_patch((0, 0), (9, 11), (12, 58));
    assert_eq!(page.to_rows(), direct.to_rows());
    assert_eq!(page.height(), 9);
    assert_eq!(page.row_len(8), 11);
}

#[test]
fn tiles_match_encoded_blocks() {
    let c = preset();
    let (h, w, su, sv) = (20usize, 30usize, 10i64, 10i64);
    let page = c.generate_matrix(h, w, su, sv);
    for r in 0..=(h - 6) {
        for col in 0..=(w - 6) {
            let tile = extract_6x6_section(&page, r, col).unwrap();
            let block = c.encode_patch((col as i64, r as i64), (6, 6), (su % 63, sv % 63));
            assert_eq!(tile.to_rows(), block.to_rows());
            assert_eq!(c.decode_position(&tile), Ok(((col as i64 + su) % 63, (r as i64 + sv) % 63)));
        }
    }
}

#[test]
fn extraction_out_of_bounds() {
    let c = preset();
    let page = c.generate_matrix(8, 8, 1, 1);
    assert!(extract_6x6_section(&page, 2, 2).is_ok());
    assert_eq!(extract_6x6_section(&page, 3, 0).unwrap_err(), OutOfBounds { row: 3, col: 0 });
    assert_eq!(extract_6x6_section(&page, 0, 3).unwrap_err(), OutOfBounds { row: 0, col: 3 });
    assert_eq!(extract_6x6_section(&page, 100, 100).unwrap_err(), OutOfBounds { row: 100, col: 100 });
    let ragged = DotMatrix::from_rows(vec![vec![Direction::Up; 6], vec![Direction::Up; 6], vec![Direction::Up; 5], vec![Direction::Up; 6], vec![Direction::Up; 6], vec![Direction::Up; 6]]);
    assert_eq!(extract_6x6_section(&ragged, 0, 0).unwrap_err(), OutOfBounds { row: 0, col: 0 });
}

#[test]
fn lookup_patch_is_the_block_under_the_section_roll() {
    let c = preset();
    let m = c.lookup_patch(10, 10, 4, 7);
    assert_eq!(m.to_rows(), c.encode_patch((4, 7), (6, 6), (10, 10)).to_rows());
    assert_eq!(c.decode_position(&m), Ok((14, 17)));
}

#[test]
fn period_out_of_range_is_refused() {
    let mut cfg = CodecConfig::a4_6x6();
    cfg.period = 0;
    assert_eq!(Codec::new(cfg).err(), Some(ConfigError::PeriodOutOfRange));
    cfg.period = 65;
    assert_eq!(Codec::new(cfg).err(), Some(ConfigError::PeriodOutOfRange));
}

#[test]
fn repeated_windows_are_refused() {
    let mut cfg = CodecConfig::a4_6x6();
    cfg.h_taps = 0;
    assert_eq!(Codec::new(cfg).err(), Some(ConfigError::RepeatedWindow(Axis::Horizontal)));
    let mut cfg = CodecConfig::a4_6x6();
    cfg.v_seed = 0;
    assert_eq!(Codec::new(cfg).err(), Some(ConfigError::RepeatedWindow(Axis::Vertical)));
    let mut cfg = CodecConfig::a4_6x6();
    cfg.period = 64;
    assert_eq!(Codec::new(cfg).err(), Some(ConfigError::RepeatedWindow(Axis::Horizontal)));
}

#[test]
fn short_periods_can_be_unique() {
    let mut cfg = CodecConfig::a4_6x6();
    cfg.period = 1;
    let c = Codec::new(cfg).unwrap();
    assert_eq!(c.mns_length(), 1);
    let m = c.encode_patch((5, 9), (6, 6), (0, 0));
    assert_eq!(c.decode_position(&m), Ok((0, 0)));
}
