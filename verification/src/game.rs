//! The game: the white moves, the black king's replies and the end of the game.

use vstd::prelude::*;
use crate::board::{
    black_reply, cell_class, has_escape, is_first_escape, lemma_black_reply_is_first_escape,
    AttackMap, ChessBoardCell,
};
use crate::piece::{parse_piece, ChessPiece};
use crate::position::{
    adjacent, lemma_parse_then_write, line_distance, parse_square, queen_reachable, stands_in_way,
    ChessBoardPosition,
};

verus! {

/// The state of a game as the rules see it.
pub struct GameState {
    pub white_king: ChessBoardPosition,
    pub white_queen: ChessBoardPosition,
    pub black_king: ChessBoardPosition,
    /// The white moves accepted so far.
    pub moves: u64,
    /// The number of white moves after which the game is stopped.
    pub moves_limit: u64,
    /// Whether white may move its king.
    pub king_moves: bool,
}

impl GameState {
    /// The three pieces stand on the board.
    pub open spec fn on_board(self) -> bool {
        &&& self.white_king.on_board()
        &&& self.white_queen.on_board()
        &&& self.black_king.on_board()
    }

    /// No two pieces share a square.
    pub open spec fn distinct(self) -> bool {
        &&& self.white_king != self.white_queen
        &&& self.white_king != self.black_king
        &&& self.white_queen != self.black_king
    }
}

/// How a game ends.
#[derive(Debug, PartialEq, Eq)]
pub enum GameOver {
    /// The solver's input was malformed, illegal or claimed too much.
    WrongInput { error_message: String, input: String },
    /// The move limit was reached.
    TooManyMoves,
    /// The queen was left where the black king takes it.
    Draw,
    /// The black king is not attacked and has no square to step to.
    Stalemate,
    /// The black king is attacked and has no square to step to.
    Checkmate,
}

/// A `GameOver` with its texts as sequences of characters.
pub enum Verdict {
    WrongInput { error_message: Seq<char>, input: Seq<char> },
    TooManyMoves,
    Draw,
    Stalemate,
    Checkmate,
}

impl View for GameOver {
    type V = Verdict;

    open spec fn view(&self) -> Verdict {
        match self {
            GameOver::WrongInput { error_message, input } => Verdict::WrongInput {
                error_message: error_message@,
                input: input@,
            },
            GameOver::TooManyMoves => Verdict::TooManyMoves,
            GameOver::Draw => Verdict::Draw,
            GameOver::Stalemate => Verdict::Stalemate,
            GameOver::Checkmate => Verdict::Checkmate,
        }
    }
}

/// The state after the white queen moves to `target`, or the reason why she may not.
///
/// The queen moves along a rank, file or diagonal, by at least one square, and
/// neither onto nor past either king.
pub open spec fn queen_move(state: GameState, target: ChessBoardPosition) -> Result<
    GameState,
    Seq<char>,
> {
    if !queen_reachable(state.white_queen, target) {
        Err("queen tried to do impossible move"@)
    } else if target == state.white_queen {
        Err("queen has not been moved"@)
    } else if stands_in_way(state.white_queen, state.white_king, target) {
        Err("queen tried to jump over white king"@)
    } else if stands_in_way(state.white_queen, state.black_king, target) {
        Err("queen tried to jump over black king"@)
    } else {
        Ok(GameState { white_queen: target, ..state })
    }
}

/// The state after the white king moves to `target`, or the reason why it may not.
///
/// Where the game allows king moves at all, the king steps to a square that
/// touches its own, is not the queen's, and neither is nor touches the black
/// king's.
pub open spec fn king_move(state: GameState, target: ChessBoardPosition) -> Result<
    GameState,
    Seq<char>,
> {
    if !state.king_moves {
        Err("king moves are not allowed"@)
    } else if target == state.white_queen {
        Err("king tried to move over the queen"@)
    } else if !queen_reachable(state.white_king, target) {
        Err("king tried to do impossible move"@)
    } else if target == state.white_king {
        Err("king was not moved"@)
    } else if line_distance(state.white_king, target) > 1 {
        Err("king tried to move too far"@)
    } else if line_distance(state.black_king, target) <= 1 {
        Err("white king tried to move next to the black king"@)
    } else {
        Ok(GameState { white_king: target, ..state })
    }
}

/// The state after white moves `piece` to `target`, or the reason why it may not.
pub open spec fn white_move(
    state: GameState,
    piece: ChessPiece,
    target: ChessBoardPosition,
) -> Result<GameState, Seq<char>> {
    match piece {
        ChessPiece::King => king_move(state, target),
        ChessPiece::Queen => queen_move(state, target),
    }
}

/// The queen touches the black king and the white king does not guard her.
pub open spec fn queen_hangs(state: GameState) -> bool {
    adjacent(state.black_king, state.white_queen) && !adjacent(state.white_king, state.white_queen)
}

/// The state after the black king's reply, or the verdict where it has none.
pub open spec fn black_move(state: GameState) -> Result<GameState, Verdict> {
    match black_reply(state.white_king, state.white_queen, state.black_king) {
        Some(square) => Ok(GameState { black_king: square, ..state }),
        None => if cell_class(state.white_king, state.white_queen, state.black_king)
            == ChessBoardCell::Available {
            Err(Verdict::Stalemate)
        } else {
            Err(Verdict::Checkmate)
        },
    }
}

/// A white move as the solver writes it: the piece, its target, and whether
/// the solver claims that the move mates.
#[derive(Debug, Clone, Copy, PartialEq, Eq, Structural)]
pub struct MoveRequest {
    pub piece: ChessPiece,
    pub target: ChessBoardPosition,
    pub checkmate: bool,
}

/// The move that a line asks for, or the reason why it asks for none.
///
/// A line is the letter of a piece and the name of a square, three characters
/// in all, or these three and a `#` that claims checkmate.
pub open spec fn parse_move(line: Seq<char>) -> Result<MoveRequest, Seq<char>> {
    if !(line.len() == 3 || (line.len() == 4 && line[3] == '#')) {
        Err("line is neither of length 3 nor length 4 with '#' at the end"@)
    } else {
        match parse_piece(line.subrange(0, 1)) {
            Err(reason) => Err(reason),
            Ok(piece) => match parse_square(line.subrange(1, 3)) {
                Err(reason) => Err(reason),
                Ok(target) => Ok(MoveRequest { piece, target, checkmate: line.len() == 4 }),
            },
        }
    }
}

/// The verdict on a line that the referee does not accept.
pub open spec fn rejected(reason: Seq<char>, line: Seq<char>) -> Verdict {
    Verdict::WrongInput { error_message: reason, input: line }
}

/// One turn: the state it leaves, and the black king's new square or the verdict.
///
/// A game at its move limit is over before the line is looked at. Else the
/// line is read and the move made and counted; a line or a move that is
/// refused ends the game and leaves the state as it was. A counted move that
/// leaves the queen hanging is a draw. Else the black king replies or the
/// game ends, and a mate that the line did not claim counts as wrong input.
pub open spec fn turn_outcome(state: GameState, line: Seq<char>) -> (
    GameState,
    Result<ChessBoardPosition, Verdict>,
) {
    if state.moves >= state.moves_limit {
        (state, Err(Verdict::TooManyMoves))
    } else {
        match parse_move(line) {
            Err(reason) => (state, Err(rejected(reason, line))),
            Ok(request) => match white_move(state, request.piece, request.target) {
                Err(reason) => (state, Err(rejected(reason, line))),
                Ok(moved) => {
                    let counted = GameState { moves: (state.moves + 1) as u64, ..moved };
                    if queen_hangs(counted) {
                        (counted, Err(Verdict::Draw))
                    } else {
                        match black_move(counted) {
                            Ok(replied) => (replied, Ok(replied.black_king)),
                            Err(Verdict::Checkmate) => if request.checkmate {
                                (counted, Err(Verdict::Checkmate))
                            } else {
                                (counted, Err(rejected("no checkmate when expected"@, line)))
                            },
                            Err(verdict) => (counted, Err(verdict)),
                        }
                    }
                },
            },
        }
    }
}

/// The state after one turn for each of the lines, where none of them ends the game.
pub open spec fn after_turns(state: GameState, lines: Seq<Seq<char>>) -> Option<GameState>
    decreases lines.len(),
{
    if lines.len() == 0 {
        Some(state)
    } else {
        match turn_outcome(state, lines[0]) {
            (next, Ok(_)) => after_turns(next, lines.drop_first()),
            (_, Err(_)) => None,
        }
    }
}

/// A queen that is asked to move to her own square has not moved, wherever
/// the pieces stand.
pub proof fn lemma_queen_must_move(state: GameState)
    ensures
        queen_move(state, state.white_queen) == Err::<GameState, Seq<char>>(
            "queen has not been moved"@,
        ),
        white_move(state, ChessPiece::Queen, state.white_queen) == Err::<GameState, Seq<char>>(
            "queen has not been moved"@,
        ),
{
}

/// A queen does not move onto or past the white king: such a move is refused
/// whatever else holds of its target, and as a jump over the king where the
/// target is a square that she could reach and is not her own.
pub proof fn lemma_queen_stops_at_white_king(state: GameState, target: ChessBoardPosition)
    requires
        stands_in_way(state.white_queen, state.white_king, target),
    ensures
        queen_move(state, target) is Err,
        queen_reachable(state.white_queen, target) && target != state.white_queen ==> queen_move(
            state,
            target,
        ) == Err::<GameState, Seq<char>>("queen tried to jump over white king"@),
{
}

/// The black king moves exactly where it has an escape, and then to the first
/// one. Where it has none the game ends: in stalemate where white does not
/// hold the king's own square, in checkmate where it does.
pub proof fn lemma_black_move_verdicts(state: GameState)
    ensures
        black_move(state) is Ok <==> has_escape(
            state.white_king,
            state.white_queen,
            state.black_king,
        ),
        black_move(state) matches Ok(next) ==> next == (GameState {
            black_king: next.black_king,
            ..state
        }) && is_first_escape(
            state.white_king,
            state.white_queen,
            state.black_king,
            next.black_king,
        ),
        black_move(state) == Err::<GameState, Verdict>(Verdict::Stalemate) <==> !has_escape(
            state.white_king,
            state.white_queen,
            state.black_king,
        ) && cell_class(state.white_king, state.white_queen, state.black_king)
            == ChessBoardCell::Available,
        black_move(state) == Err::<GameState, Verdict>(Verdict::Checkmate) <==> !has_escape(
            state.white_king,
            state.white_queen,
            state.black_king,
        ) && cell_class(state.white_king, state.white_queen, state.black_king)
            != ChessBoardCell::Available,
{
    lemma_black_reply_is_first_escape(state.white_king, state.white_queen, state.black_king);
}

/// A move that is accepted leaves the pieces on the board and on three
/// different squares, where they were so before.
pub proof fn lemma_white_move_keeps_pieces_apart(
    state: GameState,
    piece: ChessPiece,
    target: ChessBoardPosition,
)
    requires
        state.on_board(),
        state.distinct(),
        target.on_board(),
    ensures
        white_move(state, piece, target) matches Ok(moved) ==> moved.on_board() && moved.distinct(),
{
}

/// A turn leaves the pieces on the board and on three different squares,
/// where they were so before, however it ends.
pub proof fn lemma_turn_keeps_pieces_apart(state: GameState, line: Seq<char>)
    requires
        state.on_board(),
        state.distinct(),
    ensures
        turn_outcome(state, line).0.on_board(),
        turn_outcome(state, line).0.distinct(),
{
    if state.moves < state.moves_limit {
        if let Ok(request) = parse_move(line) {
            lemma_parse_then_write(line.subrange(1, 3));
            lemma_white_move_keeps_pieces_apart(state, request.piece, request.target);
            if let Ok(moved) = white_move(state, request.piece, request.target) {
                let counted = GameState { moves: (state.moves + 1) as u64, ..moved };
                lemma_black_reply_is_first_escape(
                    counted.white_king,
                    counted.white_queen,
                    counted.black_king,
                );
            }
        }
    }
}

/// A turn counts one move exactly when the move is accepted, and never
/// changes the limit or whether the king may move.
pub proof fn lemma_turn_counts_moves(state: GameState, line: Seq<char>)
    ensures
        turn_outcome(state, line).0.moves_limit == state.moves_limit,
        turn_outcome(state, line).0.king_moves == state.king_moves,
        turn_outcome(state, line).1 is Ok ==> turn_outcome(state, line).0.moves == state.moves + 1,
        turn_outcome(state, line).0.moves == state.moves || turn_outcome(state, line).0.moves
            == state.moves + 1,
{
}

/// Turns that do not end the game count one move each.
pub proof fn lemma_after_turns_counts_moves(state: GameState, lines: Seq<Seq<char>>)
    ensures
        after_turns(state, lines) matches Some(end) ==> end.moves == state.moves + lines.len()
            && end.moves_limit == state.moves_limit,
    decreases lines.len(),
{
    if lines.len() > 0 {
        lemma_turn_counts_moves(state, lines[0]);
        let next = turn_outcome(state, lines[0]).0;
        lemma_after_turns_counts_moves(next, lines.drop_first());
    }
}

/// Once as many moves as the limit allows were made, the next turn ends the
/// game with `TooManyMoves`, whatever the line, and changes nothing.
pub proof fn lemma_move_limit_ends_game(start: GameState, lines: Seq<Seq<char>>, line: Seq<char>)
    requires
        start.moves == 0,
        lines.len() == start.moves_limit,
    ensures
        after_turns(start, lines) matches Some(end) ==> turn_outcome(end, line) == (
            end,
            Err::<ChessBoardPosition, Verdict>(Verdict::TooManyMoves),
        ),
{
    lemma_after_turns_counts_moves(start, lines);
}

impl MoveRequest {
    /// Reads a move from a line such as `Qe7` or `Qe7#`.
    pub fn parse(line: &str) -> (r: Result<MoveRequest, &'static str>)
        ensures
            match parse_move(line@) {
                Ok(request) => r == Ok::<MoveRequest, &'static str>(request),
                Err(reason) => r matches Err(e) && e@ == reason,
            },
    {
        let length = line.unicode_len();
        let checkmate = if length == 4 && line.get_char(3) == '#' {
            true
        } else if length == 3 {
            false
        } else {
            return Err("line is neither of length 3 nor length 4 with '#' at the end");
        };
        let piece = match ChessPiece::parse(line.substring_char(0, 1)) {
            Ok(piece) => piece,
            Err(reason) => {
                return Err(reason);
            },
        };
        let target = match ChessBoardPosition::parse(line.substring_char(1, 3)) {
            Ok(target) => target,
            Err(reason) => {
                return Err(reason);
            },
        };
        Ok(MoveRequest { piece, target, checkmate })
    }
}

impl GameOver {
    /// The verdict on a line that the referee does not accept.
    pub fn wrong_input(reason: &str, line: &str) -> (game_over: GameOver)
        ensures
            game_over@ == rejected(reason@, line@),
    {
        GameOver::WrongInput {
            error_message: String::from_str(reason),
            input: String::from_str(line),
        }
    }

    /// The verdict on a solver whose next line could not be read.
    pub fn read_failure(description: &str) -> (game_over: GameOver)
        ensures
            game_over@ == rejected(
                "Reading a new line from a solution failed: "@ + description@,
                Seq::empty(),
            ),
    {
        GameOver::WrongInput {
            error_message: String::from_str("Reading a new line from a solution failed: ").concat(
                description,
            ),
            input: String::new(),
        }
    }
}

/// Whether two squares touch.
fn touches(a: ChessBoardPosition, b: ChessBoardPosition) -> (r: bool)
    ensures
        r == adjacent(a, b),
{
    match a.queen_distance(&b) {
        Ok((distance, _)) => distance == 1,
        Err(_) => false,
    }
}

/// The game as it runs.
///
/// The pieces always stand on the board.
#[derive(Debug)]
pub struct Chess {
    white_king_position: ChessBoardPosition,
    white_queen_position: ChessBoardPosition,
    black_king_position: ChessBoardPosition,
    moves: u64,
    moves_limit: u64,
    king_moves_enabled: bool,
}

impl View for Chess {
    type V = GameState;

    closed spec fn view(&self) -> GameState {
        GameState {
            white_king: self.white_king_position,
            white_queen: self.white_queen_position,
            black_king: self.black_king_position,
            moves: self.moves,
            moves_limit: self.moves_limit,
            king_moves: self.king_moves_enabled,
        }
    }
}

impl Chess {
    #[verifier::type_invariant]
    spec fn pieces_on_board(self) -> bool {
        self@.on_board()
    }

    /// A game that starts from the given squares, with king moves not allowed.
    pub fn new(
        white_king_position: ChessBoardPosition,
        white_queen_position: ChessBoardPosition,
        black_king_position: ChessBoardPosition,
        moves_limit: u64,
    ) -> (game: Self)
        requires
            white_king_position.on_board(),
            white_queen_position.on_board(),
            black_king_position.on_board(),
        ensures
            game@ == (GameState {
                white_king: white_king_position,
                white_queen: white_queen_position,
                black_king: black_king_position,
                moves: 0,
                moves_limit,
                king_moves: false,
            }),
    {
        Self {
            white_king_position,
            white_queen_position,
            black_king_position,
            moves: 0,
            moves_limit,
            king_moves_enabled: false,
        }
    }

    /// The same game with king moves allowed or not.
    pub fn with_king_moves(self, enabled: bool) -> (game: Self)
        ensures
            game@ == (GameState { king_moves: enabled, ..self@ }),
    {
        proof {
            use_type_invariant(&self);
        }
        Self {
            white_king_position: self.white_king_position,
            white_queen_position: self.white_queen_position,
            black_king_position: self.black_king_position,
            moves: self.moves,
            moves_limit: self.moves_limit,
            king_moves_enabled: enabled,
        }
    }

    /// The number of white moves accepted so far.
    pub fn moves(&self) -> (moves: u64)
        ensures
            moves == self@.moves,
    {
        self.moves
    }

    /// The white king's square.
    pub fn white_king_position(&self) -> (square: ChessBoardPosition)
        ensures
            square == self@.white_king,
            square.on_board(),
    {
        proof {
            use_type_invariant(self);
        }
        self.white_king_position
    }

    /// The white queen's square.
    pub fn white_queen_position(&self) -> (square: ChessBoardPosition)
        ensures
            square == self@.white_queen,
            square.on_board(),
    {
        proof {
            use_type_invariant(self);
        }
        self.white_queen_position
    }

    /// The black king's square.
    pub fn black_king_position(&self) -> (square: ChessBoardPosition)
        ensures
            square == self@.black_king,
            square.on_board(),
    {
        proof {
            use_type_invariant(self);
        }
        self.black_king_position
    }

    /// The line that opens the game: the squares of the white king, the white
    /// queen and the black king, with a space between them.
    pub fn opening_line(&self) -> (line: String)
        ensures
            line@ == self@.white_king.text() + seq![' '] + self@.white_queen.text() + seq![' ']
                + self@.black_king.text(),
    {
        proof {
            use_type_invariant(self);
            reveal_strlit(" ");
        }
        let white_queen = self.white_queen_position.to_string();
        let black_king = self.black_king_position.to_string();
        let line = self.white_king_position.to_string().concat(" ").concat(
            white_queen.as_str(),
        ).concat(" ").concat(black_king.as_str());
        assert(" "@ =~= seq![' ']);
        line
    }

    /// The line that tells the solver where the black king stands: `K` and the square.
    pub fn reply_line(&self) -> (line: String)
        ensures
            line@ == seq!['K'] + self@.black_king.text(),
    {
        proof {
            use_type_invariant(self);
            reveal_strlit("K");
        }
        let black_king = self.black_king_position.to_string();
        let line = String::from_str("K").concat(black_king.as_str());
        assert("K"@ =~= seq!['K']);
        line
    }

    /// The verdict that ends the game before a line is read: the move limit,
    /// once as many moves as it allows were made.
    pub fn check_limit(&self) -> (over: Option<GameOver>)
        ensures
            self@.moves >= self@.moves_limit ==> (over matches Some(game_over) && game_over@
                == Verdict::TooManyMoves),
            self@.moves < self@.moves_limit ==> over is None,
    {
        if self.moves >= self.moves_limit {
            Some(GameOver::TooManyMoves)
        } else {
            None
        }
    }

    /// Plays one turn on the line that the solver wrote.
    ///
    /// Returns the black king's new square, or the verdict that ends the game.
    pub fn turn(&mut self, line: &str) -> (r: Result<ChessBoardPosition, GameOver>)
        ensures
            final(self)@ == turn_outcome(old(self)@, line@).0,
            match turn_outcome(old(self)@, line@).1 {
                Ok(square) => r matches Ok(reply) && reply == square,
                Err(verdict) => r matches Err(game_over) && game_over@ == verdict,
            },
    {
        if self.moves >= self.moves_limit {
            return Err(GameOver::TooManyMoves);
        }
        let request = match MoveRequest::parse(line) {
            Ok(request) => request,
            Err(reason) => {
                return Err(GameOver::wrong_input(reason, line));
            },
        };
        if let Err(reason) = self.try_apply_move(request.piece, request.target) {
            return Err(GameOver::wrong_input(reason, line));
        }
        proof {
            use_type_invariant(&*self);
        }
        self.moves += 1;
        if touches(self.black_king_position, self.white_queen_position) && !touches(
            self.white_king_position,
            self.white_queen_position,
        ) {
            return Err(GameOver::Draw);
        }
        match self.try_move_black_king() {
            Ok(()) => Ok(self.black_king_position),
            Err(GameOver::Checkmate) => {
                if request.checkmate {
                    Err(GameOver::Checkmate)
                } else {
                    Err(GameOver::wrong_input("no checkmate when expected", line))
                }
            },
            Err(game_over) => Err(game_over),
        }
    }

    /// Moves `chess_piece` to `chess_piece_move` where the rules allow it.
    ///
    /// A move that is refused leaves the game as it was.
    pub fn try_apply_move(
        &mut self,
        chess_piece: ChessPiece,
        chess_piece_move: ChessBoardPosition,
    ) -> (r: Result<(), &'static str>)
        requires
            chess_piece_move.on_board(),
        ensures
            match white_move(old(self)@, chess_piece, chess_piece_move) {
                Ok(state) => r is Ok && final(self)@ == state,
                Err(reason) => r matches Err(e) && e@ == reason && final(self)@ == old(self)@,
            },
    {
        proof {
            use_type_invariant(&*self);
        }
        match chess_piece {
            ChessPiece::King => {
                if !self.king_moves_enabled {
                    return Err("king moves are not allowed");
                }
                if self.white_queen_position == chess_piece_move {
                    return Err("king tried to move over the queen");
                }
                let distance = match self.white_king_position.queen_distance(&chess_piece_move) {
                    Ok((distance, _)) => distance,
                    Err(_) => {
                        return Err("king tried to do impossible move");
                    },
                };
                if distance == 0 {
                    return Err("king was not moved");
                }
                if distance > 1 {
                    return Err("king tried to move too far");
                }
                if let Ok((distance_to_black_king, _)) = self.black_king_position.queen_distance(
                    &chess_piece_move,
                ) {
                    if distance_to_black_king <= 1 {
                        return Err("white king tried to move next to the black king");
                    }
                }
                self.white_king_position = chess_piece_move;
            },
            ChessPiece::Queen => {
                let (distance_to_new_position, direction_to_new_position) =
                    match self.white_queen_position.queen_distance(&chess_piece_move) {
                    Ok(line) => line,
                    Err(_) => {
                        return Err("queen tried to do impossible move");
                    },
                };
                if distance_to_new_position == 0 {
                    return Err("queen has not been moved");
                }
                if let Ok((distance_to_white_king, direction_to_white_king)) =
                    self.white_queen_position.queen_distance(&self.white_king_position) {
                    if direction_to_new_position.0 == direction_to_white_king.0
                        && direction_to_new_position.1 == direction_to_white_king.1
                        && distance_to_new_position >= distance_to_white_king {
                        return Err("queen tried to jump over white king");
                    }
                }
                if let Ok((distance_to_black_king, direction_to_black_king)) =
                    self.white_queen_position.queen_distance(&self.black_king_position) {
                    if direction_to_new_position.0 == direction_to_black_king.0
                        && direction_to_new_position.1 == direction_to_black_king.1
                        && distance_to_new_position >= distance_to_black_king {
                        return Err("queen tried to jump over black king");
                    }
                }
                self.white_queen_position = chess_piece_move;
            },
        }
        Ok(())
    }

    /// Lets the black king reply, or ends the game where it cannot.
    ///
    /// The king steps to its first escape. Without one the game is over:
    /// stalemate where the king's own square is not attacked, checkmate where it is.
    pub fn try_move_black_king(&mut self) -> (r: Result<(), GameOver>)
        ensures
            match black_move(old(self)@) {
                Ok(state) => r is Ok && final(self)@ == state,
                Err(verdict) => r matches Err(game_over) && game_over@ == verdict && final(self)@
                    == old(self)@,
            },
    {
        proof {
            use_type_invariant(&*self);
        }
        let map = AttackMap::build(self.white_king_position, self.white_queen_position);
        match map.first_escape(self.black_king_position) {
            Some(square) => {
                self.black_king_position = square;
                Ok(())
            },
            None => {
                if map.get(self.black_king_position) == ChessBoardCell::Available {
                    Err(GameOver::Stalemate)
                } else {
                    Err(GameOver::Checkmate)
                }
            },
        }
    }
}

} // verus!
