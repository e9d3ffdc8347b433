//! The squares that white attacks, and the black king's way out of them.

use vstd::prelude::*;
use crate::position::{
    adjacent, line_direction, line_distance, queen_reachable, stands_in_way, ChessBoardPosition,
};

verus! {

/// What white holds over a square.
#[derive(Debug, Clone, Copy, PartialEq, Eq, Structural)]
pub enum ChessBoardCell {
    /// Neither attacked nor occupied by the white king.
    Available,
    /// The white king stands here.
    King,
    /// The white king or the white queen could capture here.
    Attackable,
}

/// The queen on `white_queen` attacks `square`: she reaches it along one of her
/// lines and the white king does not stand in her way.
pub open spec fn queen_attacks(
    white_king: ChessBoardPosition,
    white_queen: ChessBoardPosition,
    square: ChessBoardPosition,
) -> bool {
    &&& square != white_queen
    &&& queen_reachable(white_queen, square)
    &&& !stands_in_way(white_queen, white_king, square)
}

/// What white holds over `square` with its king and queen on the given squares.
///
/// The king's own square is `King`. The squares that touch the king and those
/// that the queen attacks are `Attackable`. The black king never shields a
/// square from the queen.
pub open spec fn cell_class(
    white_king: ChessBoardPosition,
    white_queen: ChessBoardPosition,
    square: ChessBoardPosition,
) -> ChessBoardCell {
    if square == white_king {
        ChessBoardCell::King
    } else if adjacent(white_king, square) || queen_attacks(white_king, white_queen, square) {
        ChessBoardCell::Attackable
    } else {
        ChessBoardCell::Available
    }
}

/// `square` is a square that the black king on `black_king` may step to.
pub open spec fn is_escape(
    white_king: ChessBoardPosition,
    white_queen: ChessBoardPosition,
    black_king: ChessBoardPosition,
    square: ChessBoardPosition,
) -> bool {
    &&& square.on_board()
    &&& adjacent(black_king, square)
    &&& cell_class(white_king, white_queen, square) == ChessBoardCell::Available
}

/// `a` is met no later than `b` when the board is read rank by rank, each from file a to file h.
pub open spec fn comes_first(a: ChessBoardPosition, b: ChessBoardPosition) -> bool {
    a.row < b.row || (a.row == b.row && a.column <= b.column)
}

/// `square` is the escape that the black king takes: the first one in reading order.
pub open spec fn is_first_escape(
    white_king: ChessBoardPosition,
    white_queen: ChessBoardPosition,
    black_king: ChessBoardPosition,
    square: ChessBoardPosition,
) -> bool {
    &&& is_escape(white_king, white_queen, black_king, square)
    &&& forall|other: ChessBoardPosition| #[trigger]
        is_escape(white_king, white_queen, black_king, other) ==> comes_first(square, other)
}

/// The black king on `black_king` has a square to step to.
pub open spec fn has_escape(
    white_king: ChessBoardPosition,
    white_queen: ChessBoardPosition,
    black_king: ChessBoardPosition,
) -> bool {
    exists|square: ChessBoardPosition| #[trigger]
        is_escape(white_king, white_queen, black_king, square)
}

/// The square that the black king steps to, where it has one.
pub open spec fn black_reply(
    white_king: ChessBoardPosition,
    white_queen: ChessBoardPosition,
    black_king: ChessBoardPosition,
) -> Option<ChessBoardPosition> {
    if has_escape(white_king, white_queen, black_king) {
        Some(
            choose|square: ChessBoardPosition|
                is_first_escape(white_king, white_queen, black_king, square),
        )
    } else {
        None
    }
}

/// Where the black king has an escape, it has a first one.
pub proof fn lemma_first_escape_exists(
    white_king: ChessBoardPosition,
    white_queen: ChessBoardPosition,
    black_king: ChessBoardPosition,
    escape: ChessBoardPosition,
)
    requires
        is_escape(white_king, white_queen, black_king, escape),
    ensures
        exists|square: ChessBoardPosition|
            is_first_escape(white_king, white_queen, black_king, square),
    decreases escape.row * 8 + escape.column,
{
    if !is_first_escape(white_king, white_queen, black_king, escape) {
        let earlier = choose|other: ChessBoardPosition| #[trigger]
            is_escape(white_king, white_queen, black_king, other) && !comes_first(escape, other);
        lemma_first_escape_exists(white_king, white_queen, black_king, earlier);
    }
}

/// The black king replies exactly where it has an escape, and then with the first one.
pub proof fn lemma_black_reply_is_first_escape(
    white_king: ChessBoardPosition,
    white_queen: ChessBoardPosition,
    black_king: ChessBoardPosition,
)
    ensures
        black_reply(white_king, white_queen, black_king) is Some <==> has_escape(
            white_king,
            white_queen,
            black_king,
        ),
        black_reply(white_king, white_queen, black_king) matches Some(square) ==> is_first_escape(
            white_king,
            white_queen,
            black_king,
            square,
        ),
{
    if has_escape(white_king, white_queen, black_king) {
        let escape = choose|square: ChessBoardPosition| #[trigger]
            is_escape(white_king, white_queen, black_king, square);
        lemma_first_escape_exists(white_king, white_queen, black_king, escape);
    }
}

/// The black king's reply is the first escape, and no other square is.
pub proof fn lemma_black_reply(
    white_king: ChessBoardPosition,
    white_queen: ChessBoardPosition,
    black_king: ChessBoardPosition,
    square: ChessBoardPosition,
)
    requires
        is_first_escape(white_king, white_queen, black_king, square),
    ensures
        black_reply(white_king, white_queen, black_king) == Some(square),
{
    assert(is_escape(white_king, white_queen, black_king, square));
    let chosen = choose|other: ChessBoardPosition|
        is_first_escape(white_king, white_queen, black_king, other);
    assert(is_escape(white_king, white_queen, black_king, chosen));
    assert(comes_first(square, chosen) && comes_first(chosen, square));
}

/// The cell of a grid that belongs to a square.
spec fn grid_cell(cells: [[ChessBoardCell; 8]; 8], square: ChessBoardPosition) -> ChessBoardCell {
    cells[square.row as int][square.column as int]
}

/// `square` lies on the ray that leaves `queen` in direction `step`.
spec fn on_ray(queen: ChessBoardPosition, step: (int, int), square: ChessBoardPosition) -> bool {
    &&& square != queen
    &&& queen_reachable(queen, square)
    &&& line_direction(queen, square) == step
}

/// Marks the squares that the queen attacks along one ray.
///
/// The sweep leaves the queen's square one step at a time. It ends at the edge
/// of the board, or in front of the white king, whose cell it leaves as it is.
fn sweep_ray(
    cells: [[ChessBoardCell; 8]; 8],
    Ghost(white_king): Ghost<ChessBoardPosition>,
    white_queen: ChessBoardPosition,
    row_step: i8,
    column_step: i8,
) -> (out: [[ChessBoardCell; 8]; 8])
    requires
        white_king.on_board(),
        white_queen.on_board(),
        -1 <= row_step <= 1,
        -1 <= column_step <= 1,
        row_step != 0 || column_step != 0,
        forall|square: ChessBoardPosition|
            square.on_board() ==> (#[trigger] grid_cell(cells, square) == ChessBoardCell::King
                <==> square == white_king),
    ensures
        forall|square: ChessBoardPosition|
            square.on_board() ==> #[trigger] grid_cell(out, square) == if on_ray(
                white_queen,
                (row_step as int, column_step as int),
                square,
            ) && !stands_in_way(white_queen, white_king, square) {
                ChessBoardCell::Attackable
            } else {
                grid_cell(cells, square)
            },
{
    let ghost step = (row_step as int, column_step as int);
    let mut out = cells;
    let mut row: i8 = white_queen.row as i8;
    let mut column: i8 = white_queen.column as i8;
    let ghost mut steps: int = 0;
    loop
        invariant_except_break
            0 <= row <= 7,
            0 <= column <= 7,
            0 <= steps <= 7,
            row == advance(white_queen.row as int, row_step as int, steps),
            column == advance(white_queen.column as int, column_step as int, steps),
            !(on_ray(white_queen, step, white_king) && line_distance(white_queen, white_king)
                <= steps),
            forall|square: ChessBoardPosition|
                square.on_board() ==> #[trigger] grid_cell(out, square) == if on_ray(
                    white_queen,
                    step,
                    square,
                ) && line_distance(white_queen, square) <= steps {
                    ChessBoardCell::Attackable
                } else {
                    grid_cell(cells, square)
                },
        invariant
            white_king.on_board(),
            white_queen.on_board(),
            -1 <= row_step <= 1,
            -1 <= column_step <= 1,
            row_step != 0 || column_step != 0,
            step == (row_step as int, column_step as int),
            forall|square: ChessBoardPosition|
                square.on_board() ==> (#[trigger] grid_cell(cells, square) == ChessBoardCell::King
                    <==> square == white_king),
        ensures
            forall|square: ChessBoardPosition|
                square.on_board() ==> #[trigger] grid_cell(out, square) == if on_ray(
                    white_queen,
                    step,
                    square,
                ) && !stands_in_way(white_queen, white_king, square) {
                    ChessBoardCell::Attackable
                } else {
                    grid_cell(cells, square)
                },
        decreases 8 - steps,
    {
        let next_row: i8 = row + row_step;
        let next_column: i8 = column + column_step;
        if next_row < 0 || next_row > 7 || next_column < 0 || next_column > 7 {
            proof {
                assert forall|square: ChessBoardPosition|
                    square.on_board() && on_ray(white_queen, step, square) implies line_distance(
                    white_queen,
                    square,
                ) <= steps by {
                    lemma_ray_square(white_queen, step, square);
                }
            }
            break ;
        }
        let ghost next = ChessBoardPosition { row: next_row as u8, column: next_column as u8 };
        proof {
            lemma_ray_point(white_queen, step, steps + 1, next);
        }
        if out[next_row as usize][next_column as usize] == ChessBoardCell::King {
            proof {
                assert(grid_cell(out, next) == ChessBoardCell::King);
                assert(grid_cell(cells, next) == ChessBoardCell::King);
                assert(next == white_king);
            }
            break ;
        }
        let ghost before = out;
        out[next_row as usize][next_column as usize] = ChessBoardCell::Attackable;
        proof {
            assert(grid_cell(before, next) != ChessBoardCell::King);
            assert(next != white_king);
            assert forall|square: ChessBoardPosition|
                square.on_board() implies #[trigger] grid_cell(out, square) == if on_ray(white_queen, step, square) && line_distance(white_queen, square) <= steps
                + 1 {
                ChessBoardCell::Attackable
            } else {
                grid_cell(cells, square)
            } by {
                if square == next {
                } else {
                    assert(grid_cell(out, square) == grid_cell(before, square));
                    if on_ray(white_queen, step, square) && line_distance(white_queen, square)
                        == steps + 1 {
                        lemma_ray_square(white_queen, step, square);
                    }
                }
            }
            steps = steps + 1;
        }
        row = next_row;
        column = next_column;
    }
    out
}

/// The classification of all 64 squares for one placing of the white pieces.
///
/// A map is made afresh for every turn and holds, for each square of the board,
/// what `cell_class` says of it.
#[derive(Debug, Clone, Copy)]
pub struct AttackMap {
    white_king: ChessBoardPosition,
    white_queen: ChessBoardPosition,
    cells: [[ChessBoardCell; 8]; 8],
}

impl AttackMap {
    #[verifier::type_invariant]
    spec fn well_formed(self) -> bool {
        &&& self.white_king.on_board()
        &&& self.white_queen.on_board()
        &&& forall|square: ChessBoardPosition|
            square.on_board() ==> #[trigger] grid_cell(self.cells, square) == cell_class(
                self.white_king,
                self.white_queen,
                square,
            )
    }

    /// The white king's square that the map was made for.
    pub closed spec fn white_king(self) -> ChessBoardPosition {
        self.white_king
    }

    /// The white queen's square that the map was made for.
    pub closed spec fn white_queen(self) -> ChessBoardPosition {
        self.white_queen
    }

    /// What the map holds for a square of the board.
    pub closed spec fn cell(self, square: ChessBoardPosition) -> ChessBoardCell {
        grid_cell(self.cells, square)
    }

    /// Classifies every square of the board for the given white king and queen.
    pub fn build(
        white_king: ChessBoardPosition,
        white_queen: ChessBoardPosition,
    ) -> (map: AttackMap)
        requires
            white_king.on_board(),
            white_queen.on_board(),
        ensures
            map.white_king() == white_king,
            map.white_queen() == white_queen,
            forall|square: ChessBoardPosition|
                square.on_board() ==> #[trigger] map.cell(square) == cell_class(
                    white_king,
                    white_queen,
                    square,
                ),
    {
        let cells = around_king(white_king);
        let cells = sweep_ray(cells, Ghost(white_king), white_queen, 0, 1);
        let cells = sweep_ray(cells, Ghost(white_king), white_queen, 0, -1);
        let cells = sweep_ray(cells, Ghost(white_king), white_queen, 1, 0);
        let cells = sweep_ray(cells, Ghost(white_king), white_queen, -1, 0);
        let cells = sweep_ray(cells, Ghost(white_king), white_queen, 1, 1);
        let cells = sweep_ray(cells, Ghost(white_king), white_queen, -1, -1);
        let cells = sweep_ray(cells, Ghost(white_king), white_queen, -1, 1);
        let cells = sweep_ray(cells, Ghost(white_king), white_queen, 1, -1);
        AttackMap { white_king, white_queen, cells }
    }

    /// What white holds over `square`.
    pub fn get(&self, square: ChessBoardPosition) -> (cell: ChessBoardCell)
        requires
            square.on_board(),
        ensures
            cell == self.cell(square),
            cell == cell_class(self.white_king(), self.white_queen(), square),
    {
        proof {
            use_type_invariant(self);
        }
        let cell = self.cells[square.row as usize][square.column as usize];
        assert(cell == grid_cell(self.cells, square));
        cell
    }

    /// The square that the black king on `black_king` steps to.
    ///
    /// It is the first square that touches the king and is `Available`, with the
    /// ranks read upwards and each rank from file a to file h. There is none
    /// where every square that touches the king is held by white.
    pub fn first_escape(
        &self,
        black_king: ChessBoardPosition,
    ) -> (reply: Option<ChessBoardPosition>)
        requires
            black_king.on_board(),
        ensures
            reply == black_reply(self.white_king(), self.white_queen(), black_king),
            reply matches Some(square) ==> is_first_escape(
                self.white_king(),
                self.white_queen(),
                black_king,
                square,
            ),
            reply is None <==> !has_escape(self.white_king(), self.white_queen(), black_king),
    {
        proof {
            use_type_invariant(self);
        }
        let row_low: u8 = if black_king.row > 0 { black_king.row - 1 } else { 0 };
        let row_high: u8 = if black_king.row < 7 { black_king.row + 1 } else { 7 };
        let column_low: u8 = if black_king.column > 0 { black_king.column - 1 } else { 0 };
        let column_high: u8 = if black_king.column < 7 { black_king.column + 1 } else { 7 };
        let mut row: u8 = row_low;
        while row <= row_high
            invariant
                black_king.on_board(),
                self.well_formed(),
                row_low <= row <= row_high + 1,
                row_low == if black_king.row > 0 { black_king.row - 1 } else { 0 },
                row_high == if black_king.row < 7 { black_king.row + 1 } else { 7 },
                column_low == if black_king.column > 0 { black_king.column - 1 } else { 0 },
                column_high == if black_king.column < 7 { black_king.column + 1 } else { 7 },
                forall|square: ChessBoardPosition| #[trigger]
                    is_escape(self.white_king, self.white_queen, black_king, square)
                        ==> square.row >= row,
            decreases row_high + 1 - row,
        {
            let mut column: u8 = column_low;
            while column <= column_high
                invariant
                    black_king.on_board(),
                    self.well_formed(),
                    row_low <= row <= row_high,
                    column_low <= column <= column_high + 1,
                    row_low == if black_king.row > 0 { black_king.row - 1 } else { 0 },
                    row_high == if black_king.row < 7 { black_king.row + 1 } else { 7 },
                    column_low == if black_king.column > 0 { black_king.column - 1 } else { 0 },
                    column_high == if black_king.column < 7 { black_king.column + 1 } else { 7 },
                    forall|square: ChessBoardPosition| #[trigger]
                        is_escape(self.white_king, self.white_queen, black_king, square)
                            ==> square.row > row || (square.row == row && square.column >= column),
                decreases column_high + 1 - column,
            {
                let square = ChessBoardPosition { row, column };
                if !(row == black_king.row && column == black_king.column) {
                    let cell = self.cells[row as usize][column as usize];
                    assert(cell == grid_cell(self.cells, square));
                    if cell == ChessBoardCell::Available {
                        proof {
                            assert(is_first_escape(
                                self.white_king,
                                self.white_queen,
                                black_king,
                                square,
                            ));
                            lemma_black_reply(
                                self.white_king,
                                self.white_queen,
                                black_king,
                                square,
                            );
                        }
                        return Some(square);
                    }
                }
                column += 1;
            }
            row += 1;
        }
        None
    }
}

/// The grid with the white king on its square and the squares that touch it marked.
fn around_king(white_king: ChessBoardPosition) -> (cells: [[ChessBoardCell; 8]; 8])
    requires
        white_king.on_board(),
    ensures
        forall|square: ChessBoardPosition|
            square.on_board() ==> #[trigger] grid_cell(cells, square) == if square == white_king {
                ChessBoardCell::King
            } else if adjacent(white_king, square) {
                ChessBoardCell::Attackable
            } else {
                ChessBoardCell::Available
            },
{
    let mut cells = [[ChessBoardCell::Available; 8]; 8];
    let row_low: u8 = if white_king.row > 0 { white_king.row - 1 } else { 0 };
    let row_high: u8 = if white_king.row < 7 { white_king.row + 1 } else { 7 };
    let column_low: u8 = if white_king.column > 0 { white_king.column - 1 } else { 0 };
    let column_high: u8 = if white_king.column < 7 { white_king.column + 1 } else { 7 };
    let mut row: u8 = row_low;
    while row <= row_high
        invariant
            white_king.on_board(),
            row_low <= row <= row_high + 1,
            row_low == if white_king.row > 0 { white_king.row - 1 } else { 0 },
            row_high == if white_king.row < 7 { white_king.row + 1 } else { 7 },
            column_low == if white_king.column > 0 { white_king.column - 1 } else { 0 },
            column_high == if white_king.column < 7 { white_king.column + 1 } else { 7 },
            forall|square: ChessBoardPosition|
                square.on_board() ==> #[trigger] grid_cell(cells, square) == if line_distance(
                    white_king,
                    square,
                ) <= 1 && square.row < row {
                    ChessBoardCell::Attackable
                } else {
                    ChessBoardCell::Available
                },
        decreases row_high + 1 - row,
    {
        let mut column: u8 = column_low;
        while column <= column_high
            invariant
                white_king.on_board(),
                row_low <= row <= row_high,
                column_low <= column <= column_high + 1,
                row_low == if white_king.row > 0 { white_king.row - 1 } else { 0 },
                row_high == if white_king.row < 7 { white_king.row + 1 } else { 7 },
                column_low == if white_king.column > 0 { white_king.column - 1 } else { 0 },
                column_high == if white_king.column < 7 { white_king.column + 1 } else { 7 },
                forall|square: ChessBoardPosition|
                    square.on_board() ==> #[trigger] grid_cell(cells, square) == if line_distance(
                        white_king,
                        square,
                    ) <= 1 && (square.row < row || (square.row == row && square.column < column)) {
                        ChessBoardCell::Attackable
                    } else {
                        ChessBoardCell::Available
                    },
            decreases column_high + 1 - column,
        {
            let ghost before = cells;
            cells[row as usize][column as usize] = ChessBoardCell::Attackable;
            proof {
                let marked = ChessBoardPosition { row, column };
                assert forall|square: ChessBoardPosition|
                    square.on_board() implies #[trigger] grid_cell(cells, square) == if line_distance(white_king, square) <= 1 && (square.row < row || (square.row
                    == row && square.column < column + 1)) {
                    ChessBoardCell::Attackable
                } else {
                    ChessBoardCell::Available
                } by {
                    if square != marked {
                        assert(grid_cell(cells, square) == grid_cell(before, square));
                    }
                }
            }
            column += 1;
        }
        row += 1;
    }
    let ghost before = cells;
    cells[white_king.row as usize][white_king.column as usize] = ChessBoardCell::King;
    proof {
        assert forall|square: ChessBoardPosition| square.on_board() implies #[trigger] grid_cell(
            cells,
            square,
        ) == if square == white_king {
            ChessBoardCell::King
        } else if adjacent(white_king, square) {
            ChessBoardCell::Attackable
        } else {
            ChessBoardCell::Available
        } by {
            if square != white_king {
                assert(grid_cell(cells, square) == grid_cell(before, square));
            }
        }
    }
    cells
}

/// The coordinate reached from `origin` after `steps` steps of -1, 0 or 1.
spec fn advance(origin: int, step: int, steps: int) -> int {
    if step > 0 {
        origin + steps
    } else if step < 0 {
        origin - steps
    } else {
        origin
    }
}

/// A square on a ray lies as many steps along it as it is far from the queen.
proof fn lemma_ray_square(queen: ChessBoardPosition, step: (int, int), square: ChessBoardPosition)
    requires
        on_ray(queen, step, square),
    ensures
        line_distance(queen, square) >= 1,
        square.row == advance(queen.row as int, step.0, line_distance(queen, square)),
        square.column == advance(queen.column as int, step.1, line_distance(queen, square)),
{
}

/// The square that lies `steps` steps along a ray is on that ray, at that distance.
proof fn lemma_ray_point(
    queen: ChessBoardPosition,
    step: (int, int),
    steps: int,
    square: ChessBoardPosition,
)
    requires
        steps >= 1,
        -1 <= step.0 <= 1,
        -1 <= step.1 <= 1,
        step.0 != 0 || step.1 != 0,
        square.row == advance(queen.row as int, step.0, steps),
        square.column == advance(queen.column as int, step.1, steps),
    ensures
        on_ray(queen, step, square),
        line_distance(queen, square) == steps,
{
}

} // verus!
