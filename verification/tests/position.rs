use std::str::FromStr;

use chess_interactor::ChessBoardPosition;

fn square(name: &str) -> ChessBoardPosition {
    ChessBoardPosition::from_str(name).unwrap()
}

fn all_squares() -> Vec<ChessBoardPosition> {
    let mut squares = Vec::new();
    for row in 0..8u8 {
        for column in 0..8u8 {
            squares.push(ChessBoardPosition { row, column });
        }
    }
    squares
}

#[test]
fn squares_are_written_as_they_are_read() {
    assert_eq!(square("a1").to_string(), "a1");
    assert_eq!(square("b1").to_string(), "b1");
    assert_eq!(square("a8").to_string(), "a8");
    assert_eq!(square("h8").to_string(), "h8");
}

#[test]
fn squares_are_read_from_file_and_rank() {
    assert!(matches!(
        ChessBoardPosition::from_str("a1").unwrap(),
        ChessBoardPosition { column: 0, row: 0 }
    ));
    assert!(matches!(
        ChessBoardPosition::from_str("a8").unwrap(),
        ChessBoardPosition { column: 0, row: 7 }
    ));
    assert!(matches!(
        ChessBoardPosition::from_str("d2").unwrap(),
        ChessBoardPosition { column: 3, row: 1 }
    ));
    assert!(matches!(
        ChessBoardPosition::from_str("h1").unwrap(),
        ChessBoardPosition { column: 7, row: 0 }
    ));
    assert!(matches!(
        ChessBoardPosition::from_str("h8").unwrap(),
        ChessBoardPosition { column: 7, row: 7 }
    ));
    assert_eq!(ChessBoardPosition::from_str("asd").unwrap_err(), "invalid length");
    assert_eq!(ChessBoardPosition::from_str(" 1").unwrap_err(), "invalid column");
    assert_eq!(ChessBoardPosition::from_str("  ").unwrap_err(), "invalid column");
    assert_eq!(ChessBoardPosition::from_str("as").unwrap_err(), "invalid row");
}

#[test]
fn parse_agrees_with_from_str() {
    assert_eq!(ChessBoardPosition::parse("e4"), Ok(ChessBoardPosition { row: 3, column: 4 }));
    assert_eq!("e4".parse::<ChessBoardPosition>(), Ok(ChessBoardPosition { row: 3, column: 4 }));
    assert_eq!(ChessBoardPosition::parse("e9"), Err("invalid row"));
    assert_eq!("e9".parse::<ChessBoardPosition>(), Err("invalid row"));
}

#[test]
fn every_square_name_round_trips() {
    for (column, file) in "abcdefgh".chars().enumerate() {
        for (row, rank) in "12345678".chars().enumerate() {
            let name = format!("{}{}", file, rank);
            let parsed = ChessBoardPosition::parse(&name).unwrap();
            assert_eq!(parsed.row as usize, row);
            assert_eq!(parsed.column as usize, column);
            assert_eq!(parsed.to_string(), name);
        }
    }
}

#[test]
fn every_square_is_read_back_from_its_text() {
    for position in all_squares() {
        assert_eq!(ChessBoardPosition::parse(&position.to_string()), Ok(position));
    }
}

#[test]
fn wrong_length_is_reported_first() {
    assert_eq!(ChessBoardPosition::parse(""), Err("invalid length"));
    assert_eq!(ChessBoardPosition::parse("a"), Err("invalid length"));
    assert_eq!(ChessBoardPosition::parse("a1 "), Err("invalid length"));
    assert_eq!(ChessBoardPosition::parse("zz9"), Err("invalid length"));
}

#[test]
fn wrong_file_is_reported_before_wrong_rank() {
    assert_eq!(ChessBoardPosition::parse("i1"), Err("invalid column"));
    assert_eq!(ChessBoardPosition::parse("A1"), Err("invalid column"));
    assert_eq!(ChessBoardPosition::parse("`1"), Err("invalid column"));
    assert_eq!(ChessBoardPosition::parse("19"), Err("invalid column"));
    assert_eq!(ChessBoardPosition::parse("i9"), Err("invalid column"));
}

#[test]
fn wrong_rank_is_reported_last() {
    assert_eq!(ChessBoardPosition::parse("a0"), Err("invalid row"));
    assert_eq!(ChessBoardPosition::parse("a9"), Err("invalid row"));
    assert_eq!(ChessBoardPosition::parse("hh"), Err("invalid row"));
    assert_eq!(ChessBoardPosition::parse("h "), Err("invalid row"));
}

#[test]
fn length_is_counted_in_characters() {
    assert_eq!(ChessBoardPosition::parse("é1"), Err("invalid column"));
    assert_eq!(ChessBoardPosition::parse("aé"), Err("invalid row"));
    assert_eq!(ChessBoardPosition::parse("é"), Err("invalid length"));
}

#[test]
fn queen_distance_examples() {
    let pos = ChessBoardPosition::from_str("a1").unwrap();
    assert_eq!(pos.queen_distance(&ChessBoardPosition::from_str("a1").unwrap()), Ok((0, (0, 0))));
    assert_eq!(pos.queen_distance(&ChessBoardPosition::from_str("a2").unwrap()), Ok((1, (1, 0))));
    assert_eq!(pos.queen_distance(&ChessBoardPosition::from_str("b1").unwrap()), Ok((1, (0, 1))));
    assert_eq!(pos.queen_distance(&ChessBoardPosition::from_str("b2").unwrap()), Ok((1, (1, 1))));
    assert_eq!(pos.queen_distance(&ChessBoardPosition::from_str("h8").unwrap()), Ok((7, (1, 1))));
    assert!(pos.queen_distance(&ChessBoardPosition::from_str("b3").unwrap()).is_err());
    assert!(pos.queen_distance(&ChessBoardPosition::from_str("b4").unwrap()).is_err());
    assert!(pos.queen_distance(&ChessBoardPosition::from_str("c2").unwrap()).is_err());
    let pos = ChessBoardPosition::from_str("d4").unwrap();
    assert_eq!(pos.queen_distance(&ChessBoardPosition::from_str("a1").unwrap()), Ok((3, (-1, -1))));
}

#[test]
fn queen_distance_in_all_eight_directions() {
    let from = square("d4");
    assert_eq!(from.queen_distance(&square("h4")), Ok((4, (0, 1))));
    assert_eq!(from.queen_distance(&square("a4")), Ok((3, (0, -1))));
    assert_eq!(from.queen_distance(&square("d8")), Ok((4, (1, 0))));
    assert_eq!(from.queen_distance(&square("d1")), Ok((3, (-1, 0))));
    assert_eq!(from.queen_distance(&square("h8")), Ok((4, (1, 1))));
    assert_eq!(from.queen_distance(&square("a1")), Ok((3, (-1, -1))));
    assert_eq!(from.queen_distance(&square("g1")), Ok((3, (-1, 1))));
    assert_eq!(from.queen_distance(&square("a7")), Ok((3, (1, -1))));
}

#[test]
fn queen_distance_reports_why_it_fails() {
    assert_eq!(
        square("a1").queen_distance(&square("b3")),
        Err("the position is not reachable by queen move")
    );
}

#[test]
fn queen_distance_to_itself_is_zero() {
    for position in all_squares() {
        assert_eq!(position.queen_distance(&position), Ok((0, (0, 0))));
    }
}

#[test]
fn queen_distance_fails_exactly_off_the_lines() {
    for a in all_squares() {
        for b in all_squares() {
            let rows = (b.row as i32 - a.row as i32).abs();
            let columns = (b.column as i32 - a.column as i32).abs();
            let on_a_line = rows == 0 || columns == 0 || rows == columns;
            assert_eq!(a.queen_distance(&b).is_ok(), on_a_line);
        }
    }
}

#[test]
fn queen_distance_along_ranks_and_files() {
    for a in all_squares() {
        for b in all_squares() {
            if a.row == b.row {
                let (distance, direction) = a.queen_distance(&b).unwrap();
                assert_eq!(distance as i32, (b.column as i32 - a.column as i32).abs());
                assert_eq!(direction.0, 0);
                assert_eq!(direction.1 as i32, (b.column as i32 - a.column as i32).signum());
            }
            if a.column == b.column {
                let (distance, direction) = a.queen_distance(&b).unwrap();
                assert_eq!(distance as i32, (b.row as i32 - a.row as i32).abs());
                assert_eq!(direction.0 as i32, (b.row as i32 - a.row as i32).signum());
                assert_eq!(direction.1, 0);
            }
        }
    }
}

#[test]
fn queen_distance_steps_lead_to_the_target() {
    for a in all_squares() {
        for b in all_squares() {
            if let Ok((distance, (row_step, column_step))) = a.queen_distance(&b) {
                assert_eq!(a.row as i32 + distance as i32 * row_step as i32, b.row as i32);
                assert_eq!(a.column as i32 + distance as i32 * column_step as i32, b.column as i32);
            }
        }
    }
}

#[test]
fn queen_distance_takes_any_coordinates() {
    let far = ChessBoardPosition { row: 255, column: 255 };
    let origin = ChessBoardPosition { row: 0, column: 0 };
    assert_eq!(origin.queen_distance(&far), Ok((255, (1, 1))));
    assert_eq!(far.queen_distance(&origin), Ok((255, (-1, -1))));
    assert_eq!(
        ChessBoardPosition { row: 0, column: 255 }.queen_distance(&origin),
        Ok((255, (0, -1)))
    );
    assert!(ChessBoardPosition { row: 254, column: 255 }.queen_distance(&origin).is_err());
}
