use std::str::FromStr;

use chess_interactor::ChessPiece;

#[test]
fn pieces_are_read_from_their_letter() {
    assert!(matches!(ChessPiece::from_str("K"), Ok(ChessPiece::King)));
    assert!(matches!(ChessPiece::from_str("Q"), Ok(ChessPiece::Queen)));
    assert!(matches!(ChessPiece::from_str(" "), Err("invalid chess piece")));
    assert!(matches!(ChessPiece::from_str(""), Err("invalid chess piece")));
    assert!(matches!(ChessPiece::from_str("X"), Err("invalid chess piece")));
    assert!(matches!(ChessPiece::from_str("         "), Err("invalid chess piece")));
    assert!(matches!(ChessPiece::from_str("1"), Err("invalid chess piece")));
}

#[test]
fn piece_parse_agrees_with_from_str() {
    assert_eq!(ChessPiece::parse("K"), Ok(ChessPiece::King));
    assert_eq!(ChessPiece::parse("Q"), Ok(ChessPiece::Queen));
    assert_eq!("Q".parse::<ChessPiece>(), Ok(ChessPiece::Queen));
    assert_eq!(ChessPiece::parse("k"), Err("invalid chess piece"));
    assert_eq!(ChessPiece::parse("q"), Err("invalid chess piece"));
    assert_eq!(ChessPiece::parse("KQ"), Err("invalid chess piece"));
    assert_eq!(ChessPiece::parse("QQ"), Err("invalid chess piece"));
    assert_eq!(ChessPiece::parse("é"), Err("invalid chess piece"));
}
