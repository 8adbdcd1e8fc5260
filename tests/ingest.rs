use anoto_pdf::codec::{anoto_6x6_a4_fixed, DecodeError};
use anoto_pdf::direction::Direction;
use anoto_pdf::ingest::{read_patch, Observed, PatchInputError, SubmissionError};
use anoto_pdf::text::render_patch;

fn text(s: &str) -> Observed {
    Observed::Text(s.to_string())
}

fn name_of(d: Direction) -> &'static str {
    match d {
        Direction::Up => "Up",
        Direction::Down => "down",
        Direction::Left => "\u{2190}",
        Direction::Right => "right",
    }
}

fn grid(cell: impl Fn(usize, usize) -> Observed) -> Observed {
    Observed::List((0..6).map(|r| Observed::List((0..6).map(|c| cell(r, c)).collect())).collect())
}

#[test]
fn names_of_directions() {
    for (s, d) in [
        ("\u{2191}", Direction::Up), ("Up", Direction::Up), ("up", Direction::Up),
        ("\u{2190}", Direction::Left), ("Left", Direction::Left), ("left", Direction::Left),
        ("\u{2192}", Direction::Right), ("Right", Direction::Right), ("right", Direction::Right),
        ("\u{2193}", Direction::Down), ("Down", Direction::Down), ("down", Direction::Down),
    ] {
        assert_eq!(Direction::from_name(&s.to_string()), Some(d), "{}", s);
    }
    assert_eq!(Direction::from_name(&"UP".to_string()), None);
    assert_eq!(Direction::from_name(&"".to_string()), None);
}

#[test]
fn bit_values_of_directions() {
    assert_eq!(Direction::from_bit_values(0, 0), Some(Direction::Up));
    assert_eq!(Direction::from_bit_values(1, 0), Some(Direction::Left));
    assert_eq!(Direction::from_bit_values(0, 1), Some(Direction::Right));
    assert_eq!(Direction::from_bit_values(1, 1), Some(Direction::Down));
    assert_eq!(Direction::from_bit_values(2, 0), None);
    assert_eq!(Direction::from_bit_values(-1, 1), None);
}

#[test]
fn arrows_of_directions() {
    assert_eq!(Direction::Up.arrow(), "\u{2191}");
    assert_eq!(Direction::Down.arrow(), "\u{2193}");
    assert_eq!(Direction::Left.arrow(), "\u{2190}");
    assert_eq!(Direction::Right.arrow(), "\u{2192}");
}

#[test]
fn submitted_patch_in_every_cell_format_decodes() {
    let c = anoto_6x6_a4_fixed().unwrap();
    let rows = c.encode_patch((30, 40), (6, 6), (0, 0)).to_rows();
    let v = grid(|r, k| {
        let d = rows[r][k];
        match (r + k) % 4 {
            0 => text(name_of(d)),
            1 => Observed::List(vec![text(d.arrow())]),
            2 => Observed::List(vec![
                Observed::Int(d.horizontal_bit() as i64),
                Observed::Int(d.vertical_bit() as i64),
            ]),
            _ => Observed::List(vec![text(name_of(d)), Observed::Other]),
        }
    });
    let m = read_patch(&v).unwrap();
    assert_eq!(m.to_rows(), rows);
    assert_eq!(c.decode_observed(&v).ok(), Some((30, 40)));
}

#[test]
fn submitted_pattern_not_in_sequence() {
    let c = anoto_6x6_a4_fixed().unwrap();
    let v = grid(|_, _| text("up"));
    assert!(matches!(
        c.decode_observed(&v),
        Err(SubmissionError::Decode(DecodeError::AmbiguousOrUnknownWindow))
    ));
}

#[test]
fn submitted_value_not_a_list() {
    assert!(matches!(read_patch(&Observed::Int(3)), Err(PatchInputError::NotAnArray)));
    assert!(matches!(read_patch(&text("x")), Err(PatchInputError::NotAnArray)));
    let c = anoto_6x6_a4_fixed().unwrap();
    assert!(matches!(c.decode_observed(&Observed::Other), Err(SubmissionError::Input(PatchInputError::NotAnArray))));
}

#[test]
fn submitted_wrong_row_count() {
    let v = Observed::List(vec![]);
    assert!(matches!(read_patch(&v), Err(PatchInputError::WrongRowCount)));
    let Observed::List(mut rows) = grid(|_, _| text("up")) else { unreachable!() };
    rows.pop();
    assert!(matches!(read_patch(&Observed::List(rows)), Err(PatchInputError::WrongRowCount)));
}

#[test]
fn submitted_row_errors() {
    let Observed::List(mut rows) = grid(|_, _| text("up")) else { unreachable!() };
    rows[2] = text("up");
    assert!(matches!(read_patch(&Observed::List(rows)), Err(PatchInputError::RowNotAnArray { row: 2 })));
    let Observed::List(mut rows) = grid(|_, _| text("up")) else { unreachable!() };
    rows[4] = Observed::List((0..7).map(|_| text("up")).collect());
    assert!(matches!(read_patch(&Observed::List(rows)), Err(PatchInputError::WrongRowLength { row: 4 })));
}

#[test]
fn first_failing_cell_decides() {
    let v = grid(|r, k| match (r, k) {
        (1, 3) => Observed::Other,
        (4, 0) => text("nowhere"),
        _ => text("left"),
    });
    assert!(matches!(read_patch(&v), Err(PatchInputError::InvalidCellType { row: 1, col: 3 })));
}

#[test]
fn submitted_cell_errors() {
    let at = |bad: Observed| grid(move |r, k| if (r, k) == (3, 2) { clone(&bad) } else { text("up") });
    match read_patch(&at(Observed::List(vec![Observed::Int(2), Observed::Int(0)]))) {
        Err(PatchInputError::InvalidCoordinate { x: 2, y: 0, row: 3, col: 2 }) => {}
        other => panic!("{:?}", other),
    }
    match read_patch(&at(text("sideways"))) {
        Err(PatchInputError::InvalidDirection { text, row: 3, col: 2 }) => assert_eq!(text, "sideways"),
        other => panic!("{:?}", other),
    }
    match read_patch(&at(Observed::List(vec![text("west")]))) {
        Err(PatchInputError::InvalidDirection { text, row: 3, col: 2 }) => assert_eq!(text, "west"),
        other => panic!("{:?}", other),
    }
    match read_patch(&at(Observed::List(vec![text("north"), Observed::Int(1)]))) {
        Err(PatchInputError::InvalidDirection { text, row: 3, col: 2 }) => assert_eq!(text, "north"),
        other => panic!("{:?}", other),
    }
    assert!(matches!(
        read_patch(&at(Observed::List(vec![Observed::Int(1), Observed::Other]))),
        Err(PatchInputError::InvalidCellFormat { row: 3, col: 2 })
    ));
    assert!(matches!(
        read_patch(&at(Observed::List(vec![Observed::Int(1)]))),
        Err(PatchInputError::InvalidCellFormat { row: 3, col: 2 })
    ));
    assert!(matches!(
        read_patch(&at(Observed::List(vec![]))),
        Err(PatchInputError::InvalidCellArrayLength { row: 3, col: 2 })
    ));
    assert!(matches!(
        read_patch(&at(Observed::List(vec![text("up"), text("up"), text("up")]))),
        Err(PatchInputError::InvalidCellArrayLength { row: 3, col: 2 })
    ));
    assert!(matches!(read_patch(&at(Observed::Other)), Err(PatchInputError::InvalidCellType { row: 3, col: 2 })));
    assert!(matches!(read_patch(&at(Observed::Int(0))), Err(PatchInputError::InvalidCellType { row: 3, col: 2 })));
}

fn clone(v: &Observed) -> Observed {
    match v {
        Observed::Int(i) => Observed::Int(*i),
        Observed::Text(t) => Observed::Text(t.clone()),
        Observed::List(items) => Observed::List(items.iter().map(clone).collect()),
        Observed::Other => Observed::Other,
    }
}

#[test]
fn render_small_patch() {
    let c = anoto_6x6_a4_fixed().unwrap();
    let m = c.encode_patch((0, 0), (2, 2), (0, 0));
    // h starts 1,0; v starts 1,0.
    assert_eq!(
        render_patch(&m),
        "[\n  [\"\u{2193}\", \"\u{2192}\"],\n  [\"\u{2190}\", \"\u{2191}\"]\n]"
    );
}

#[test]
fn render_then_read_back() {
    let c = anoto_6x6_a4_fixed().unwrap();
    let m = c.lookup_patch(10, 10, 3, 5);
    let s = render_patch(&m);
    assert_eq!(s.lines().count(), 8);
    let v = Observed::List(
        s.lines()
            .filter(|l| l.starts_with("  ["))
            .map(|l| {
                Observed::List(
                    l.trim().trim_start_matches('[').trim_end_matches(',').trim_end_matches(']')
                        .split(", ")
                        .map(|cell| text(cell.trim_matches('"')))
                        .collect(),
                )
            })
            .collect(),
    );
    assert_eq!(c.decode_observed(&v).ok(), Some((13, 15)));
}
