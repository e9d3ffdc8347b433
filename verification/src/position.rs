//! Squares of the board and the queen's geometry between them.

use vstd::prelude::*;

verus! {

/// A square of the board, by zero-based rank (`row`) and file (`column`).
#[derive(Debug, Clone, Copy, PartialEq, Eq, Structural)]
pub struct ChessBoardPosition {
    pub row: u8,
    pub column: u8,
}

/// Absolute value of an integer.
pub open spec fn abs(x: int) -> int {
    if x < 0 {
        -x
    } else {
        x
    }
}

/// Sign of an integer: -1, 0 or 1.
pub open spec fn signum(x: int) -> int {
    if x < 0 {
        -1
    } else if x == 0 {
        0
    } else {
        1
    }
}

/// Two squares share a rank, a file or a diagonal (a square shares all with itself).
pub open spec fn queen_reachable(a: ChessBoardPosition, b: ChessBoardPosition) -> bool {
    let dr = b.row - a.row;
    let dc = b.column - a.column;
    dr == 0 || dc == 0 || abs(dr) == abs(dc)
}

/// Number of unit steps a queen takes from `a` to `b` along their common line.
pub open spec fn line_distance(a: ChessBoardPosition, b: ChessBoardPosition) -> int {
    let dr = abs(b.row - a.row);
    let dc = abs(b.column - a.column);
    if dr >= dc {
        dr
    } else {
        dc
    }
}

/// Unit step (rank change, file change) that leads from `a` towards `b`.
pub open spec fn line_direction(a: ChessBoardPosition, b: ChessBoardPosition) -> (int, int) {
    (signum(b.row - a.row), signum(b.column - a.column))
}

/// The queen's distance and direction from `a` to `b`, where a queen's line joins them.
pub open spec fn queen_line(a: ChessBoardPosition, b: ChessBoardPosition) -> Option<
    (int, (int, int)),
> {
    if queen_reachable(a, b) {
        Some((line_distance(a, b), line_direction(a, b)))
    } else {
        None
    }
}

/// `blocker` stands on the line from `queen` towards `target`, at `target` or before it.
///
/// A piece that stands in the way stops a queen that slides from `queen` to
/// `target`. Nothing stands in the way of a queen that stays where it is,
/// except a piece on her own square.
pub open spec fn stands_in_way(
    queen: ChessBoardPosition,
    blocker: ChessBoardPosition,
    target: ChessBoardPosition,
) -> bool {
    &&& queen_reachable(queen, blocker)
    &&& line_direction(queen, blocker) == line_direction(queen, target)
    &&& line_distance(queen, blocker) <= line_distance(queen, target)
}

/// The two squares touch: one king's step apart, along a rank, file or diagonal.
pub open spec fn adjacent(a: ChessBoardPosition, b: ChessBoardPosition) -> bool {
    line_distance(a, b) == 1
}

impl ChessBoardPosition {
    /// Both coordinates lie on the 8×8 board.
    pub open spec fn on_board(self) -> bool {
        self.row < 8 && self.column < 8
    }

    /// Distance and unit direction from `self` to `rhs` along a rank, file or diagonal.
    ///
    /// Fails exactly when no queen's line joins the two squares. A square is at
    /// distance 0 and direction (0, 0) from itself.
    pub fn queen_distance(&self, rhs: &Self) -> (r: Result<(u8, (i8, i8)), &'static str>)
        ensures
            r is Ok <==> queen_reachable(*self, *rhs),
            r matches Ok((distance, (row_step, column_step))) ==> queen_line(*self, *rhs) == Some(
                (distance as int, (row_step as int, column_step as int)),
            ),
            r matches Err(reason) ==> reason@ == "the position is not reachable by queen move"@,
    {
        let row_diff: i16 = rhs.row as i16 - self.row as i16;
        let column_diff: i16 = rhs.column as i16 - self.column as i16;
        let row_span: i16 = if row_diff < 0 { -row_diff } else { row_diff };
        let column_span: i16 = if column_diff < 0 { -column_diff } else { column_diff };
        if row_diff != 0 && column_diff != 0 && row_span != column_span {
            return Err("the position is not reachable by queen move");
        }
        let distance: i16 = if row_span >= column_span { row_span } else { column_span };
        Ok((distance as u8, (step_of(row_diff), step_of(column_diff))))
    }
}

/// The letter of a file: 'a' for column 0 up to 'h' for column 7.
pub open spec fn file_letter(column: u8) -> char {
    (column + 97) as char
}

/// The digit of a rank: '1' for row 0 up to '8' for row 7.
pub open spec fn rank_digit(row: u8) -> char {
    (row + 49) as char
}

/// The square that a text names, or the reason why it names none.
///
/// A square is written as its file letter followed by its rank digit. The
/// length is tested first, then the file, then the rank.
pub open spec fn parse_square(text: Seq<char>) -> Result<ChessBoardPosition, Seq<char>> {
    if text.len() != 2 {
        Err("invalid length"@)
    } else if !('a' <= text[0] <= 'h') {
        Err("invalid column"@)
    } else if !('1' <= text[1] <= '8') {
        Err("invalid row"@)
    } else {
        Ok(
            ChessBoardPosition {
                row: (text[1] as u8 - 49) as u8,
                column: (text[0] as u8 - 97) as u8,
            },
        )
    }
}

impl ChessBoardPosition {
    /// The two characters that name this square.
    pub open spec fn text(self) -> Seq<char> {
        seq![file_letter(self.column), rank_digit(self.row)]
    }

    /// Reads a square from its two-character name, such as `e4`.
    pub fn parse(s: &str) -> (r: Result<ChessBoardPosition, &'static str>)
        ensures
            match parse_square(s@) {
                Ok(position) => r == Ok::<ChessBoardPosition, &'static str>(position),
                Err(reason) => r matches Err(e) && e@ == reason,
            },
    {
        if s.unicode_len() != 2 {
            return Err("invalid length");
        }
        let file = s.get_char(0);
        let rank = s.get_char(1);
        if !('a' <= file && file <= 'h') {
            return Err("invalid column");
        }
        if !('1' <= rank && rank <= '8') {
            return Err("invalid row");
        }
        Ok(ChessBoardPosition { row: rank as u8 - 49, column: file as u8 - 97 })
    }

    /// Writes the square as its file letter followed by its rank digit.
    pub fn to_string(&self) -> (r: String)
        requires
            self.on_board(),
        ensures
            r@ == self.text(),
    {
        let files = "abcdefgh";
        let ranks = "12345678";
        proof {
            reveal_strlit("abcdefgh");
            reveal_strlit("12345678");
        }
        let file = files.substring_char(self.column as usize, self.column as usize + 1);
        let rank = ranks.substring_char(self.row as usize, self.row as usize + 1);
        let r = String::from_str(file).concat(rank);
        assert(r@ =~= self.text());
        r
    }
}

impl std::str::FromStr for ChessBoardPosition {
    type Err = &'static str;

    /// Reads a square from its two-character name, as `ChessBoardPosition::parse` does.
    fn from_str(s: &str) -> (r: Result<Self, Self::Err>)
        ensures
            match parse_square(s@) {
                Ok(position) => r == Ok::<ChessBoardPosition, &'static str>(position),
                Err(reason) => r matches Err(e) && e@ == reason,
            },
    {
        ChessBoardPosition::parse(s)
    }
}

/// Every square is at distance 0 from itself, in no direction.
pub proof fn lemma_queen_line_to_itself(a: ChessBoardPosition)
    ensures
        queen_line(a, a) == Some((0int, (0int, 0int))),
{
}

/// A queen's line joins two squares exactly when they share a rank, a file or
/// a diagonal, and it runs the other way with the same length.
pub proof fn lemma_queen_line_exists(a: ChessBoardPosition, b: ChessBoardPosition)
    ensures
        queen_line(a, b) is None <==> a.row != b.row && a.column != b.column && abs(b.row - a.row)
            != abs(b.column - a.column),
        queen_line(a, b) is Some <==> queen_line(b, a) is Some,
        line_distance(a, b) == line_distance(b, a),
{
}

/// Along a rank the distance is the difference of the files, along a file the
/// difference of the ranks, and along a diagonal both.
pub proof fn lemma_queen_line_length(a: ChessBoardPosition, b: ChessBoardPosition)
    ensures
        a.row == b.row ==> queen_line(a, b) == Some(
            (abs(b.column - a.column), (0int, signum(b.column - a.column))),
        ),
        a.column == b.column ==> queen_line(a, b) == Some(
            (abs(b.row - a.row), (signum(b.row - a.row), 0int)),
        ),
        queen_line(a, b) is Some && a.row != b.row && a.column != b.column ==> line_distance(a, b)
            == abs(b.row - a.row) && line_distance(a, b) == abs(b.column - a.column),
{
}

/// A text that names a square names one on the board, and that square is
/// written as the same text.
pub proof fn lemma_parse_then_write(text: Seq<char>)
    ensures
        parse_square(text) matches Ok(square) ==> square.on_board() && square.text() == text,
{
    if let Ok(square) = parse_square(text) {
        assert(square.text() =~= text);
    }
}

/// The text of a square on the board names that square.
pub proof fn lemma_write_then_parse(square: ChessBoardPosition)
    requires
        square.on_board(),
    ensures
        parse_square(square.text()) == Ok::<ChessBoardPosition, Seq<char>>(square),
{
}

/// A text names no square for one reason only: its length, else its first
/// character, else its second.
pub proof fn lemma_parse_reasons(text: Seq<char>)
    ensures
        text.len() != 2 ==> parse_square(text) == Err::<ChessBoardPosition, Seq<char>>(
            "invalid length"@,
        ),
        text.len() == 2 && !('a' <= text[0] <= 'h') ==> parse_square(text) == Err::<
            ChessBoardPosition,
            Seq<char>,
        >("invalid column"@),
        text.len() == 2 && 'a' <= text[0] <= 'h' && !('1' <= text[1] <= '8') ==> parse_square(text)
            == Err::<ChessBoardPosition, Seq<char>>("invalid row"@),
        text.len() == 2 && 'a' <= text[0] <= 'h' && '1' <= text[1] <= '8' ==> parse_square(text)
            is Ok,
{
}

/// The sign of a coordinate difference, as a unit step.
fn step_of(diff: i16) -> (step: i8)
    ensures
        step as int == signum(diff as int),
{
    if diff < 0 {
        -1
    } else if diff == 0 {
        0
    } else {
        1
    }
}

} // verus!
