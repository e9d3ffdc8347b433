//! The white pieces that the solver may move.

use vstd::prelude::*;

verus! {

/// A white piece, written as one upper-case letter.
#[derive(Debug, Clone, Copy, PartialEq, Eq, Structural)]
pub enum ChessPiece {
    King,
    Queen,
}

/// The piece that a text names, or the reason why it names none.
pub open spec fn parse_piece(text: Seq<char>) -> Result<ChessPiece, Seq<char>> {
    if text.len() == 1 && text[0] == 'K' {
        Ok(ChessPiece::King)
    } else if text.len() == 1 && text[0] == 'Q' {
        Ok(ChessPiece::Queen)
    } else {
        Err("invalid chess piece"@)
    }
}

impl ChessPiece {
    /// Reads a piece from its letter: `K` or `Q`.
    pub fn parse(s: &str) -> (r: Result<ChessPiece, &'static str>)
        ensures
            match parse_piece(s@) {
                Ok(piece) => r == Ok::<ChessPiece, &'static str>(piece),
                Err(reason) => r matches Err(e) && e@ == reason,
            },
    {
        if s.unicode_len() != 1 {
            return Err("invalid chess piece");
        }
        let letter = s.get_char(0);
        if letter == 'K' {
            Ok(ChessPiece::King)
        } else if letter == 'Q' {
            Ok(ChessPiece::Queen)
        } else {
            Err("invalid chess piece")
        }
    }
}

impl std::str::FromStr for ChessPiece {
    type Err = &'static str;

    /// Reads a piece from its letter, as `ChessPiece::parse` does.
    fn from_str(s: &str) -> (r: Result<Self, Self::Err>)
        ensures
            match parse_piece(s@) {
                Ok(piece) => r == Ok::<ChessPiece, &'static str>(piece),
                Err(reason) => r matches Err(e) && e@ == reason,
            },
    {
        ChessPiece::parse(s)
    }
}

} // verus!
