//! The deterministic chess-move validator and the game state it acts on.
//!
//! A game is a match between two named players on an 8x8 board. The only
//! mutation after creation is `apply_move`, which moves a piece and flips the
//! turn; every rule is a pure function of the board, the move and the turn,
//! so every replica reaches the same verdict.

use vstd::prelude::*;

use crate::errors::AppError;

verus! {

/// The side whose move is expected.
#[derive(Clone, Copy, Debug, PartialEq, Eq, Structural)]
pub enum Color {
    White,
    Black,
}

/// The six kinds of chess pieces.
#[derive(Clone, Copy, Debug, PartialEq, Eq, Structural)]
pub enum PieceKind {
    Pawn,
    Rook,
    Knight,
    Bishop,
    Queen,
    King,
}

/// A piece on the board: its owner and its kind.
#[derive(Clone, Copy, Debug, PartialEq, Eq, Structural)]
pub struct Piece {
    pub color: Color,
    pub kind: PieceKind,
}

/// One square of the board: empty or holding a piece.
#[derive(Clone, Copy, Debug)]
pub struct Cell {
    pub piece: Option<Piece>,
}

/// One rank of the board: eight cells.
#[derive(Clone, Debug)]
pub struct Row {
    pub cells: Vec<Cell>,
}

/// The 8x8 board. Row 0 is white's back rank, row 7 black's.
#[derive(Clone, Debug)]
pub struct Board {
    pub rows: Vec<Row>,
}

/// A square named by rank `x` and file `y`, each in `0..8`.
#[derive(Clone, Copy, Debug, PartialEq, Eq, Structural)]
pub struct Position {
    pub x: u32,
    pub y: u32,
}

/// A square together with what stands on it.
#[derive(Clone, Debug)]
pub struct Location {
    pub coords: Vec<u32>,
    pub piece: Option<Piece>,
}

impl View for Row {
    type V = Seq<Option<Piece>>;

    open spec fn view(&self) -> Seq<Option<Piece>> {
        self.cells@.map(|i: int, c: Cell| c.piece)
    }
}

impl View for Board {
    type V = Seq<Seq<Option<Piece>>>;

    open spec fn view(&self) -> Seq<Seq<Option<Piece>>> {
        self.rows@.map(|i: int, r: Row| r@)
    }
}

/// An 8x8 board: eight rows of eight cells.
pub open spec fn board_wf(b: Seq<Seq<Option<Piece>>>) -> bool {
    &&& b.len() == 8
    &&& forall|i: int| 0 <= i < 8 ==> (#[trigger] b[i]).len() == 8
}

/// Both coordinates on the board.
pub open spec fn pos_in_range(x: int, y: int) -> bool {
    0 <= x < 8 && 0 <= y < 8
}

/// The contents of square `(x, y)`.
pub open spec fn cell_at(b: Seq<Seq<Option<Piece>>>, x: int, y: int) -> Option<Piece> {
    b[x][y]
}

/// Square `(x, y)` holds no piece.
pub open spec fn is_empty_at(b: Seq<Seq<Option<Piece>>>, x: int, y: int) -> bool {
    cell_at(b, x, y) is None
}

/// Square `(x, y)` holds a piece of the other side.
pub open spec fn is_enemy_at(b: Seq<Seq<Option<Piece>>>, x: int, y: int, color: Color) -> bool {
    match cell_at(b, x, y) {
        Some(p) => p.color != color,
        None => false,
    }
}

/// Square `(x, y)` is free to land on for `color`.
pub open spec fn is_empty_or_enemy_at(
    b: Seq<Seq<Option<Piece>>>,
    x: int,
    y: int,
    color: Color,
) -> bool {
    is_empty_at(b, x, y) || is_enemy_at(b, x, y, color)
}

/// The sign of a coordinate delta: the unit step along one axis.
pub open spec fn sgn(d: int) -> int {
    if d > 0 {
        1
    } else if d < 0 {
        -1
    } else {
        0
    }
}

/// The magnitude of a coordinate delta.
pub open spec fn mag(d: int) -> int {
    if d >= 0 {
        d
    } else {
        -d
    }
}

/// The `n` squares after `(x, y)`, stepping by `(sx, sy)`, are all empty.
pub open spec fn first_cells_empty(
    b: Seq<Seq<Option<Piece>>>,
    x: int,
    y: int,
    sx: int,
    sy: int,
    n: int,
) -> bool
    decreases n,
{
    n <= 0 || (is_empty_at(b, x + sx, y + sy) && first_cells_empty(b, x + sx, y + sy, sx, sy, n - 1))
}

/// Every square strictly between the ends of a straight or diagonal move of
/// `total` steps is empty.
pub open spec fn path_clear(
    b: Seq<Seq<Option<Piece>>>,
    fx: int,
    fy: int,
    sx: int,
    sy: int,
    total: int,
) -> bool {
    first_cells_empty(b, fx, fy, sx, sy, total - 1)
}

/// A legal pawn move: one forward onto an empty square, two forward from the
/// initial rank over an empty square, or a diagonal capture.
pub open spec fn pawn_move_ok(
    b: Seq<Seq<Option<Piece>>>,
    color: Color,
    fx: int,
    fy: int,
    tx: int,
    ty: int,
) -> bool {
    let dir: int = if color is White {
        1
    } else {
        -1
    };
    let start_row: int = if color is White {
        1
    } else {
        6
    };
    let dx = tx - fx;
    let dy = ty - fy;
    ||| (dy == 0 && dx == dir && is_empty_at(b, tx, ty))
    ||| (dy == 0 && dx == 2 * dir && fx == start_row && is_empty_at(b, tx, ty) && is_empty_at(
        b,
        fx + dir,
        fy,
    ))
    ||| (mag(dy) == 1 && dx == dir && is_enemy_at(b, tx, ty, color))
}

/// A legal rook move: along one axis, over empty squares, onto an empty or
/// enemy square.
pub open spec fn rook_move_ok(
    b: Seq<Seq<Option<Piece>>>,
    color: Color,
    fx: int,
    fy: int,
    tx: int,
    ty: int,
) -> bool {
    let dx = tx - fx;
    let dy = ty - fy;
    &&& !(dx != 0 && dy != 0)
    &&& path_clear(b, fx, fy, sgn(dx), sgn(dy), mag(dx) + mag(dy))
    &&& is_empty_or_enemy_at(b, tx, ty, color)
}

/// A legal knight move: an L-shape onto an empty or enemy square.
pub open spec fn knight_move_ok(
    b: Seq<Seq<Option<Piece>>>,
    color: Color,
    fx: int,
    fy: int,
    tx: int,
    ty: int,
) -> bool {
    let dx = tx - fx;
    let dy = ty - fy;
    &&& ((mag(dx) == 2 && mag(dy) == 1) || (mag(dx) == 1 && mag(dy) == 2))
    &&& is_empty_or_enemy_at(b, tx, ty, color)
}

/// A legal bishop move: along a diagonal, over empty squares, onto an empty
/// or enemy square.
pub open spec fn bishop_move_ok(
    b: Seq<Seq<Option<Piece>>>,
    color: Color,
    fx: int,
    fy: int,
    tx: int,
    ty: int,
) -> bool {
    let dx = tx - fx;
    let dy = ty - fy;
    &&& mag(dx) == mag(dy)
    &&& path_clear(b, fx, fy, sgn(dx), sgn(dy), mag(dx))
    &&& is_empty_or_enemy_at(b, tx, ty, color)
}

/// A legal queen move: a rook move or a bishop move.
pub open spec fn queen_move_ok(
    b: Seq<Seq<Option<Piece>>>,
    color: Color,
    fx: int,
    fy: int,
    tx: int,
    ty: int,
) -> bool {
    rook_move_ok(b, color, fx, fy, tx, ty) || bishop_move_ok(b, color, fx, fy, tx, ty)
}

/// A legal king move: one square in any direction onto an empty or enemy
/// square.
pub open spec fn king_move_ok(
    b: Seq<Seq<Option<Piece>>>,
    color: Color,
    fx: int,
    fy: int,
    tx: int,
    ty: int,
) -> bool {
    let dx = tx - fx;
    let dy = ty - fy;
    &&& mag(dx) <= 1
    &&& mag(dy) <= 1
    &&& is_empty_or_enemy_at(b, tx, ty, color)
}

/// The geometry rule of `p`'s kind for a move from `(fx, fy)` to `(tx, ty)`.
pub open spec fn piece_move_ok(
    b: Seq<Seq<Option<Piece>>>,
    p: Piece,
    fx: int,
    fy: int,
    tx: int,
    ty: int,
) -> bool {
    match p.kind {
        PieceKind::Pawn => pawn_move_ok(b, p.color, fx, fy, tx, ty),
        PieceKind::Rook => rook_move_ok(b, p.color, fx, fy, tx, ty),
        PieceKind::Knight => knight_move_ok(b, p.color, fx, fy, tx, ty),
        PieceKind::Bishop => bishop_move_ok(b, p.color, fx, fy, tx, ty),
        PieceKind::Queen => queen_move_ok(b, p.color, fx, fy, tx, ty),
        PieceKind::King => king_move_ok(b, p.color, fx, fy, tx, ty),
    }
}

/// The move is legal: the starting square holds a piece of the side to
/// move, and that piece's geometry rule accepts the move.
pub open spec fn move_ok(
    b: Seq<Seq<Option<Piece>>>,
    turn: Color,
    fx: int,
    fy: int,
    tx: int,
    ty: int,
) -> bool {
    match cell_at(b, fx, fy) {
        Some(p) => p.color == turn && piece_move_ok(b, p, fx, fy, tx, ty),
        None => false,
    }
}

/// A location names one square of the board.
pub open spec fn loc_wf(l: Location) -> bool {
    &&& l.coords@.len() == 2
    &&& l.coords@[0] < 8
    &&& l.coords@[1] < 8
}

/// The magnitude and the sign of a delta compose back to the delta.
pub proof fn lemma_mag_sgn(d: int)
    ensures
        mag(d) * sgn(d) == d,
{
    if d > 0 {
        assert(mag(d) == d && sgn(d) == 1);
        assert(d * 1 == d);
    } else if d < 0 {
        assert(mag(d) == -d && sgn(d) == -1);
        assert((-d) * (-1) == d) by (nonlinear_arith);
    } else {
        assert(0 * 0 == 0);
    }
}

/// A clear run of `n` squares stays clear when the square after it is empty.
proof fn lemma_first_cells_empty_extend(
    b: Seq<Seq<Option<Piece>>>,
    x: int,
    y: int,
    sx: int,
    sy: int,
    n: int,
)
    requires
        n >= 0,
        first_cells_empty(b, x, y, sx, sy, n),
        is_empty_at(b, x + (n + 1) * sx, y + (n + 1) * sy),
    ensures
        first_cells_empty(b, x, y, sx, sy, n + 1),
    decreases n,
{
    if n == 0 {
        assert(1 * sx == sx && 1 * sy == sy);
        assert(is_empty_at(b, x + sx, y + sy));
        assert(first_cells_empty(b, x + sx, y + sy, sx, sy, 0));
    } else {
        assert((x + sx) + n * sx == x + (n + 1) * sx && (y + sy) + n * sy == y + (n + 1) * sy)
            by (nonlinear_arith);
        lemma_first_cells_empty_extend(b, x + sx, y + sy, sx, sy, n - 1);
    }
    assert(first_cells_empty(b, x, y, sx, sy, n + 1) == (is_empty_at(b, x + sx, y + sy)
        && first_cells_empty(b, x + sx, y + sy, sx, sy, n)));
}

/// Each of the first `n` squares of a clear run is empty.
proof fn lemma_first_cells_empty_index(
    b: Seq<Seq<Option<Piece>>>,
    x: int,
    y: int,
    sx: int,
    sy: int,
    n: int,
    j: int,
)
    requires
        first_cells_empty(b, x, y, sx, sy, n),
        1 <= j <= n,
    ensures
        is_empty_at(b, x + j * sx, y + j * sy),
    decreases j,
{
    if j == 1 {
        assert(1 * sx == sx && 1 * sy == sy);
    } else {
        lemma_first_cells_empty_index(b, x + sx, y + sy, sx, sy, n - 1, j - 1);
        assert((x + sx) + (j - 1) * sx == x + j * sx && (y + sy) + (j - 1) * sy == y + j * sy)
            by (nonlinear_arith);
    }
}

/// Walks the `total - 1` squares strictly between the ends of a straight or
/// diagonal move and reports whether all of them are empty.
fn path_is_clear(board: &Board, fx: i32, fy: i32, sx: i32, sy: i32, total: i32) -> (r: bool)
    requires
        board_wf(board@),
        total >= 0,
        -1 <= sx <= 1,
        -1 <= sy <= 1,
        pos_in_range(fx as int, fy as int),
        pos_in_range(fx + total * sx, fy + total * sy),
    ensures
        r == path_clear(board@, fx as int, fy as int, sx as int, sy as int, total as int),
{
    if total <= 1 {
        return true;
    }
    let mut k: i32 = 1;
    let mut x: i32 = fx + sx;
    let mut y: i32 = fy + sy;
    proof {
        assert(1 * sx == sx && 1 * sy == sy);
        assert(fx + total * sx - x == (total - 1) * sx && fy + total * sy - y == (total - 1) * sy)
            by (nonlinear_arith)
            requires
                x == fx + 1 * sx,
                y == fy + 1 * sy,
        ;
        assert(pos_in_range(x as int, y as int)) by (nonlinear_arith)
            requires
                x == fx + 1 * sx,
                y == fy + 1 * sy,
                total >= 2,
                -1 <= sx <= 1,
                -1 <= sy <= 1,
                pos_in_range(fx as int, fy as int),
                pos_in_range(fx + total * sx, fy + total * sy),
        ;
    }
    while k < total
        invariant
            board_wf(board@),
            total >= 2,
            -1 <= sx <= 1,
            -1 <= sy <= 1,
            pos_in_range(fx as int, fy as int),
            pos_in_range(fx + total * sx, fy + total * sy),
            1 <= k <= total,
            x == fx + k * sx,
            y == fy + k * sy,
            pos_in_range(x as int, y as int),
            first_cells_empty(board@, fx as int, fy as int, sx as int, sy as int, k - 1),
        decreases total - k,
    {
        let probe = Location {
            coords: vec![x as u32, y as u32],
            piece: None,
        };
        if !board.is_empty(&probe) {
            proof {
                if first_cells_empty(
                    board@,
                    fx as int,
                    fy as int,
                    sx as int,
                    sy as int,
                    total - 1,
                ) {
                    lemma_first_cells_empty_index(
                        board@,
                        fx as int,
                        fy as int,
                        sx as int,
                        sy as int,
                        total - 1,
                        k as int,
                    );
                }
            }
            return false;
        }
        proof {
            lemma_first_cells_empty_extend(
                board@,
                fx as int,
                fy as int,
                sx as int,
                sy as int,
                k - 1,
            );
            assert(x + sx == fx + (k + 1) * sx && y + sy == fy + (k + 1) * sy) by (nonlinear_arith)
                requires
                    x == fx + k * sx,
                    y == fy + k * sy,
            ;
            assert(k + 1 == total || pos_in_range(fx + (k + 1) * sx, fy + (k + 1) * sy))
                by (nonlinear_arith)
                requires
                    1 <= k < total,
                    -1 <= sx <= 1,
                    -1 <= sy <= 1,
                    pos_in_range(fx as int, fy as int),
                    pos_in_range(fx + total * sx, fy + total * sy),
            ;
        }
        x = x + sx;
        y = y + sy;
        k = k + 1;
    }
    true
}

impl Piece {
    /// A piece of the given side and kind.
    pub fn new(color: Color, kind: PieceKind) -> (r: Self)
        ensures
            r.color == color,
            r.kind == kind,
    {
        Self { color, kind }
    }

    /// A piece from a numeric side indicator: `0` is white, anything else
    /// black.
    pub fn new_from_i32(color: i32, kind: PieceKind) -> (r: Self)
        ensures
            r.color == (if color == 0 {
                Color::White
            } else {
                Color::Black
            }),
            r.kind == kind,
    {
        Self {
            color: if color == 0 {
                Color::White
            } else {
                Color::Black
            },
            kind,
        }
    }

    /// The geometry verdict for moving this piece between the two locations.
    pub fn can_move_to(&self, from: &Location, to: &Location, board: &Board) -> (r: bool)
        requires
            board_wf(board@),
            loc_wf(*from),
            loc_wf(*to),
        ensures
            r == piece_move_ok(
                board@,
                *self,
                from.coords@[0] as int,
                from.coords@[1] as int,
                to.coords@[0] as int,
                to.coords@[1] as int,
            ),
    {
        let dx = to.coords[0] as i32 - from.coords[0] as i32;
        let dy = to.coords[1] as i32 - from.coords[1] as i32;

        match self.kind {
            PieceKind::Pawn => self.validate_pawn_move(from, to, dx, dy, board),
            PieceKind::Rook => self.validate_rook_move(from, to, dx, dy, board),
            PieceKind::Knight => self.validate_knight_move(from, to, dx, dy, board),
            PieceKind::Bishop => self.validate_bishop_move(from, to, dx, dy, board),
            PieceKind::Queen => self.validate_queen_move(from, to, dx, dy, board),
            PieceKind::King => self.validate_king_move(from, to, dx, dy, board),
        }
    }

    fn validate_pawn_move(&self, from: &Location, to: &Location, dx: i32, dy: i32, board: &Board) -> (r:
        bool)
        requires
            board_wf(board@),
            loc_wf(*from),
            loc_wf(*to),
            dx == to.coords@[0] - from.coords@[0],
            dy == to.coords@[1] - from.coords@[1],
        ensures
            r == pawn_move_ok(
                board@,
                self.color,
                from.coords@[0] as int,
                from.coords@[1] as int,
                to.coords@[0] as int,
                to.coords@[1] as int,
            ),
    {
        let direction: i32 = if self.color == Color::White {
            1
        } else {
            -1
        };
        let initial_row: i32 = if self.color == Color::White {
            1
        } else {
            6
        };

        // Forward move
        if dy == 0 && dx == direction {
            return board.is_empty(to);
        }
        // Initial double move
        if dy == 0 && dx == 2 * direction && from.coords[0] as i32 == initial_row {
            let mid_location = Location {
                coords: vec![(from.coords[0] as i32 + direction) as u32, from.coords[1]],
                piece: None,
            };
            return board.is_empty(to) && board.is_empty(&mid_location);
        }
        // Capture move
        if (dy == 1 || dy == -1) && dx == direction {
            return board.has_enemy_piece(to, self.color);
        }
        false
    }

    fn validate_rook_move(&self, from: &Location, to: &Location, dx: i32, dy: i32, board: &Board) -> (r:
        bool)
        requires
            board_wf(board@),
            loc_wf(*from),
            loc_wf(*to),
            dx == to.coords@[0] - from.coords@[0],
            dy == to.coords@[1] - from.coords@[1],
        ensures
            r == rook_move_ok(
                board@,
                self.color,
                from.coords@[0] as int,
                from.coords@[1] as int,
                to.coords@[0] as int,
                to.coords@[1] as int,
            ),
    {
        // Rook moves: horizontally or vertically
        if dx != 0 && dy != 0 {
            return false;
        }
        let sx: i32 = if dx > 0 {
            1
        } else if dx < 0 {
            -1
        } else {
            0
        };
        let sy: i32 = if dy > 0 {
            1
        } else if dy < 0 {
            -1
        } else {
            0
        };
        let total: i32 = (if dx >= 0 {
            dx
        } else {
            -dx
        }) + (if dy >= 0 {
            dy
        } else {
            -dy
        });
        proof {
            lemma_mag_sgn(dx as int);
            lemma_mag_sgn(dy as int);
            assert(from.coords@[0] + total * sx == to.coords@[0] && from.coords@[1] + total * sy
                == to.coords@[1]) by (nonlinear_arith)
                requires
                    !(dx != 0 && dy != 0),
                    sx == sgn(dx as int),
                    sy == sgn(dy as int),
                    total == mag(dx as int) + mag(dy as int),
                    mag(dx as int) * sgn(dx as int) == dx,
                    mag(dy as int) * sgn(dy as int) == dy,
                    dx == to.coords@[0] - from.coords@[0],
                    dy == to.coords@[1] - from.coords@[1],
            ;
        }
        if !path_is_clear(
            board,
            from.coords[0] as i32,
            from.coords[1] as i32,
            sx,
            sy,
            total,
        ) {
            return false;
        }
        board.is_empty_or_enemy(to, self.color)
    }

    fn validate_knight_move(&self, _from: &Location, to: &Location, dx: i32, dy: i32, board: &Board) -> (r:
        bool)
        requires
            board_wf(board@),
            loc_wf(*_from),
            loc_wf(*to),
            dx == to.coords@[0] - _from.coords@[0],
            dy == to.coords@[1] - _from.coords@[1],
        ensures
            r == (((mag(dx as int) == 2 && mag(dy as int) == 1) || (mag(dx as int) == 1 && mag(
                dy as int,
            ) == 2)) && is_empty_or_enemy_at(
                board@,
                to.coords@[0] as int,
                to.coords@[1] as int,
                self.color,
            )),
    {
        // Knight moves: in "L" shapes
        let adx = if dx >= 0 {
            dx
        } else {
            -dx
        };
        let ady = if dy >= 0 {
            dy
        } else {
            -dy
        };
        ((adx == 2 && ady == 1) || (adx == 1 && ady == 2)) && board.is_empty_or_enemy(
            to,
            self.color,
        )
    }

    fn validate_bishop_move(&self, from: &Location, to: &Location, dx: i32, dy: i32, board: &Board) -> (r:
        bool)
        requires
            board_wf(board@),
            loc_wf(*from),
            loc_wf(*to),
            dx == to.coords@[0] - from.coords@[0],
            dy == to.coords@[1] - from.coords@[1],
        ensures
            r == bishop_move_ok(
                board@,
                self.color,
                from.coords@[0] as int,
                from.coords@[1] as int,
                to.coords@[0] as int,
                to.coords@[1] as int,
            ),
    {
        // Bishop moves: diagonally
        let adx = if dx >= 0 {
            dx
        } else {
            -dx
        };
        let ady = if dy >= 0 {
            dy
        } else {
            -dy
        };
        if adx != ady {
            return false;
        }
        let sx: i32 = if dx > 0 {
            1
        } else if dx < 0 {
            -1
        } else {
            0
        };
        let sy: i32 = if dy > 0 {
            1
        } else if dy < 0 {
            -1
        } else {
            0
        };
        proof {
            lemma_mag_sgn(dx as int);
            lemma_mag_sgn(dy as int);
        }
        if !path_is_clear(
            board,
            from.coords[0] as i32,
            from.coords[1] as i32,
            sx,
            sy,
            adx,
        ) {
            return false;
        }
        board.is_empty_or_enemy(to, self.color)
    }

    fn validate_queen_move(&self, from: &Location, to: &Location, dx: i32, dy: i32, board: &Board) -> (r:
        bool)
        requires
            board_wf(board@),
            loc_wf(*from),
            loc_wf(*to),
            dx == to.coords@[0] - from.coords@[0],
            dy == to.coords@[1] - from.coords@[1],
        ensures
            r == queen_move_ok(
                board@,
                self.color,
                from.coords@[0] as int,
                from.coords@[1] as int,
                to.coords@[0] as int,
                to.coords@[1] as int,
            ),
    {
        // Queen moves: combination of rook and bishop moves
        self.validate_rook_move(from, to, dx, dy, board) || self.validate_bishop_move(
            from,
            to,
            dx,
            dy,
            board,
        )
    }

    fn validate_king_move(&self, _from: &Location, to: &Location, dx: i32, dy: i32, board: &Board) -> (r:
        bool)
        requires
            board_wf(board@),
            loc_wf(*_from),
            loc_wf(*to),
            dx == to.coords@[0] - _from.coords@[0],
            dy == to.coords@[1] - _from.coords@[1],
        ensures
            r == (mag(dx as int) <= 1 && mag(dy as int) <= 1 && is_empty_or_enemy_at(
                board@,
                to.coords@[0] as int,
                to.coords@[1] as int,
                self.color,
            )),
    {
        // King moves: one square in any direction
        let adx = if dx >= 0 {
            dx
        } else {
            -dx
        };
        let ady = if dy >= 0 {
            dy
        } else {
            -dy
        };
        adx <= 1 && ady <= 1 && board.is_empty_or_enemy(to, self.color)
    }
}

impl Location {
    /// A location holding the given piece.
    pub fn new(coords: Vec<u32>, piece: Piece) -> (r: Self)
        ensures
            r.coords == coords,
            r.piece == Some(piece),
    {
        Self { coords, piece: Some(piece) }
    }

    /// The same location at other coordinates.
    pub fn with_coords(self, coords: Vec<u32>) -> (r: Self)
        ensures
            r.coords == coords,
            r.piece == self.piece,
    {
        Self { coords, ..self }
    }

    /// The same location holding the given piece.
    pub fn with_piece(self, piece: Piece) -> (r: Self)
        ensures
            r.coords == self.coords,
            r.piece == Some(piece),
    {
        Self { piece: Some(piece), ..self }
    }

    /// The location of a position, holding the given piece.
    pub fn from_pos(pos: Position, piece: Option<Piece>) -> (r: Self)
        ensures
            r.coords@ =~= seq![pos.x, pos.y],
            r.piece == piece,
    {
        Self { coords: vec![pos.x, pos.y], piece }
    }
}

impl Cell {
    /// A square holding the given piece.
    pub fn new(piece: Piece) -> (r: Self)
        ensures
            r.piece == Some(piece),
    {
        Self { piece: Some(piece) }
    }
}

/// A match between two named players: the side to move and the board.
#[derive(Clone, Debug)]
pub struct GameState {
    pub white_player: String,
    pub black_player: String,
    pub turn: Color,
    pub board: Board,
}

/// The mathematical value of a game: player names as character sequences,
/// the side to move, and the board contents.
pub struct GameView {
    pub white_player: Seq<char>,
    pub black_player: Seq<char>,
    pub turn: Color,
    pub board: Seq<Seq<Option<Piece>>>,
}

impl View for GameState {
    type V = GameView;

    open spec fn view(&self) -> GameView {
        GameView {
            white_player: self.white_player@,
            black_player: self.black_player@,
            turn: self.turn,
            board: self.board@,
        }
    }
}

/// A well-formed game sits on an 8x8 board.
pub open spec fn game_wf(g: GameView) -> bool {
    board_wf(g.board)
}

/// The side that moves after `c`.
pub open spec fn other_color(c: Color) -> Color {
    if c is White {
        Color::Black
    } else {
        Color::White
    }
}

/// The board after moving the piece on `(fx, fy)` to `(tx, ty)`: the
/// destination takes the moved piece, then the source is cleared.
pub open spec fn board_after_move(
    b: Seq<Seq<Option<Piece>>>,
    fx: int,
    fy: int,
    tx: int,
    ty: int,
) -> Seq<Seq<Option<Piece>>> {
    let moved = b.update(tx, b[tx].update(ty, b[fx][fy]));
    moved.update(fx, moved[fx].update(fy, None))
}

impl GameState {
    /// A fresh match between the two players: white to move on the initial
    /// board.
    pub fn new(white: String, black: String) -> (r: Self)
        ensures
            r@.white_player == white@,
            r@.black_player == black@,
            r@.turn == Color::White,
            r@.board == initial_board(),
            game_wf(r@),
    {
        Self { white_player: white, black_player: black, turn: Color::White, board: Board::new() }
    }

    /// The same match on another board.
    pub fn with_board(self, board: Board) -> (r: Self)
        ensures
            r@.board == board@,
            r@.white_player == self@.white_player,
            r@.black_player == self@.black_player,
            r@.turn == self@.turn,
    {
        Self { board, ..self }
    }

    /// The same match with another white player.
    pub fn with_white_player(self, white_player: String) -> (r: Self)
        ensures
            r@.white_player == white_player@,
            r@.black_player == self@.black_player,
            r@.turn == self@.turn,
            r@.board == self@.board,
    {
        Self { white_player, ..self }
    }

    /// The same match with another black player.
    pub fn with_black_player(self, black_player: String) -> (r: Self)
        ensures
            r@.black_player == black_player@,
            r@.white_player == self@.white_player,
            r@.turn == self@.turn,
            r@.board == self@.board,
    {
        Self { black_player, ..self }
    }

    /// Accepts the move exactly when the side to move owns a piece on the
    /// source square and the piece's geometry rule allows the move.
    pub fn validate_move(&self, from: &Position, to: &Position) -> (r: Result<(), AppError>)
        requires
            game_wf(self@),
            pos_in_range(from.x as int, from.y as int),
            pos_in_range(to.x as int, to.y as int),
        ensures
            r is Ok <==> move_ok(
                self@.board,
                self@.turn,
                from.x as int,
                from.y as int,
                to.x as int,
                to.y as int,
            ),
            r is Err ==> r matches Err(AppError::InternalGameError(_)),
    {
        proof {
            assert(self.board.rows@.len() == self.board@.len());
            assert(self.board@[from.x as int] == self.board.rows@[from.x as int]@);
            assert(self.board@[to.x as int] == self.board.rows@[to.x as int]@);
        }
        let from_loc = Location::from_pos(
            *from,
            self.board.rows[from.x as usize].cells[from.y as usize].piece,
        );
        let to_loc = Location::from_pos(
            *to,
            self.board.rows[to.x as usize].cells[to.y as usize].piece,
        );
        self.validate_move_inner(&from_loc, &to_loc)
    }

    fn validate_move_inner(&self, from: &Location, to: &Location) -> (r: Result<(), AppError>)
        requires
            game_wf(self@),
            loc_wf(*from),
            loc_wf(*to),
            from.piece == cell_at(self@.board, from.coords@[0] as int, from.coords@[1] as int),
        ensures
            r is Ok <==> move_ok(
                self@.board,
                self@.turn,
                from.coords@[0] as int,
                from.coords@[1] as int,
                to.coords@[0] as int,
                to.coords@[1] as int,
            ),
            r is Err ==> r matches Err(AppError::InternalGameError(_)),
    {
        let piece = match &from.piece {
            Some(p) => p,
            None => {
                return Err(
                    AppError::InternalGameError(
                        String::from_str("No piece at the source location"),
                    ),
                );
            },
        };
        if piece.color != self.turn {
            return Err(
                AppError::InternalGameError(String::from_str("It's not this piece's turn to move")),
            );
        }
        if !piece.can_move_to(from, to, &self.board) {
            return Err(AppError::InternalGameError(String::from_str("Invalid move for the piece")));
        }
        Ok(())
    }

    /// Applies the move when it is legal: the piece moves, the source square
    /// empties, and the turn flips. An illegal move leaves the game exactly
    /// as it was.
    pub fn apply_move(&mut self, from: Position, to: Position) -> (r: Result<(), AppError>)
        requires
            game_wf(old(self)@),
            pos_in_range(from.x as int, from.y as int),
            pos_in_range(to.x as int, to.y as int),
        ensures
            r is Ok <==> move_ok(
                old(self)@.board,
                old(self)@.turn,
                from.x as int,
                from.y as int,
                to.x as int,
                to.y as int,
            ),
            r is Ok ==> final(self)@.board == board_after_move(
                old(self)@.board,
                from.x as int,
                from.y as int,
                to.x as int,
                to.y as int,
            ) && final(self)@.turn == other_color(old(self)@.turn),
            r is Err ==> *final(self) == *old(self),
            r is Err ==> r matches Err(AppError::InternalGameError(_)),
            final(self)@.white_player == old(self)@.white_player,
            final(self)@.black_player == old(self)@.black_player,
            game_wf(final(self)@),
    {
        if let Err(e) = self.validate_move(&from, &to) {
            return Err(e);
        }
        let ghost b0 = self.board@;
        let fxu = from.x as usize;
        let fyu = from.y as usize;
        let txu = to.x as usize;
        let tyu = to.y as usize;

        let src_piece = self.board.rows[fxu].cells[fyu].piece;
        {
            let row_to = &mut self.board.rows[txu];
            row_to.cells[tyu] = Cell { piece: src_piece };
        }
        proof {
            let moved = b0.update(to.x as int, b0[to.x as int].update(to.y as int, b0[from.x as int][from.y as int]));
            assert forall|i: int| 0 <= i < 8 implies self.board@[i] =~= moved[i] by {
                assert(self.board@[i] == self.board.rows@[i]@);
            }
            assert(self.board@ =~= moved);
        }
        let ghost b1 = self.board@;
        {
            let row_from = &mut self.board.rows[fxu];
            row_from.cells[fyu] = Cell { piece: None };
        }
        proof {
            let cleared = b1.update(from.x as int, b1[from.x as int].update(from.y as int, None));
            assert forall|i: int| 0 <= i < 8 implies self.board@[i] =~= cleared[i] by {
                assert(self.board@[i] == self.board.rows@[i]@);
            }
            assert(self.board@ =~= cleared);
        }
        self.turn = if self.turn == Color::White {
            Color::Black
        } else {
            Color::White
        };
        Ok(())
    }
}

/// The kind standing on file `y` of a back rank.
pub open spec fn back_rank_kind(y: int) -> PieceKind {
    if y == 0 || y == 7 {
        PieceKind::Rook
    } else if y == 1 || y == 6 {
        PieceKind::Knight
    } else if y == 2 || y == 5 {
        PieceKind::Bishop
    } else if y == 3 {
        PieceKind::Queen
    } else {
        PieceKind::King
    }
}

/// The initial contents of square `(x, y)`: back ranks on rows 0 and 7,
/// pawns on rows 1 and 6, everything between empty.
pub open spec fn initial_cell(x: int, y: int) -> Option<Piece> {
    if x == 0 {
        Some(Piece { color: Color::White, kind: back_rank_kind(y) })
    } else if x == 1 {
        Some(Piece { color: Color::White, kind: PieceKind::Pawn })
    } else if x == 6 {
        Some(Piece { color: Color::Black, kind: PieceKind::Pawn })
    } else if x == 7 {
        Some(Piece { color: Color::Black, kind: back_rank_kind(y) })
    } else {
        None
    }
}

/// The fixed initial board.
pub open spec fn initial_board() -> Seq<Seq<Option<Piece>>> {
    Seq::new(8, |x: int| Seq::new(8, |y: int| initial_cell(x, y)))
}

/// One empty rank.
fn empty_row() -> (r: Row)
    ensures
        r@ =~= Seq::new(8, |y: int| None::<Piece>),
{
    let cells = vec![
        Cell { piece: None },
        Cell { piece: None },
        Cell { piece: None },
        Cell { piece: None },
        Cell { piece: None },
        Cell { piece: None },
        Cell { piece: None },
        Cell { piece: None },
    ];
    Row { cells }
}

/// One rank of pawns of the given side.
fn pawn_row(color: Color) -> (r: Row)
    ensures
        r@ =~= Seq::new(8, |y: int| Some(Piece { color, kind: PieceKind::Pawn })),
{
    let p = Piece { color, kind: PieceKind::Pawn };
    let cells = vec![
        Cell { piece: Some(p) },
        Cell { piece: Some(p) },
        Cell { piece: Some(p) },
        Cell { piece: Some(p) },
        Cell { piece: Some(p) },
        Cell { piece: Some(p) },
        Cell { piece: Some(p) },
        Cell { piece: Some(p) },
    ];
    Row { cells }
}

/// The back rank of the given side: R N B Q K B N R.
fn back_row(color: Color) -> (r: Row)
    ensures
        r@ =~= Seq::new(8, |y: int| Some(Piece { color, kind: back_rank_kind(y) })),
{
    let cells = vec![
        Cell { piece: Some(Piece { color, kind: PieceKind::Rook }) },
        Cell { piece: Some(Piece { color, kind: PieceKind::Knight }) },
        Cell { piece: Some(Piece { color, kind: PieceKind::Bishop }) },
        Cell { piece: Some(Piece { color, kind: PieceKind::Queen }) },
        Cell { piece: Some(Piece { color, kind: PieceKind::King }) },
        Cell { piece: Some(Piece { color, kind: PieceKind::Bishop }) },
        Cell { piece: Some(Piece { color, kind: PieceKind::Knight }) },
        Cell { piece: Some(Piece { color, kind: PieceKind::Rook }) },
    ];
    Row { cells }
}

impl Board {
    /// The initial board layout.
    pub fn new() -> (b: Board)
        ensures
            b@ =~= initial_board(),
            board_wf(b@),
    {
        let rows = vec![
            back_row(Color::White),
            pawn_row(Color::White),
            empty_row(),
            empty_row(),
            empty_row(),
            empty_row(),
            pawn_row(Color::Black),
            back_row(Color::Black),
        ];
        let b = Board { rows };
        proof {
            assert forall|x: int| 0 <= x < 8 implies b@[x] =~= initial_board()[x] by {
                assert(b@[x] == b.rows@[x]@);
            }
            assert(b@ =~= initial_board());
        }
        b
    }
    pub fn get_piece_at(&self, location: &Location) -> (r: Option<&Piece>)
        requires
            board_wf(self@),
            loc_wf(*location),
        ensures
            match r {
                Some(p) => cell_at(
                    self@,
                    location.coords@[0] as int,
                    location.coords@[1] as int,
                ) == Some(*p),
                None => is_empty_at(self@, location.coords@[0] as int, location.coords@[1] as int),
            },
    {
        self.rows[location.coords[0] as usize].cells[location.coords[1] as usize].piece.as_ref()
    }

    /// The square holds a piece of the side other than `color`.
    pub fn has_enemy_piece(&self, location: &Location, color: Color) -> (r: bool)
        requires
            board_wf(self@),
            loc_wf(*location),
        ensures
            r == is_enemy_at(self@, location.coords@[0] as int, location.coords@[1] as int, color),
    {
        if let Some(piece) = self.get_piece_at(location) {
            return piece.color != color;
        }
        false
    }

    /// The square holds no piece.
    pub fn is_empty(&self, location: &Location) -> (r: bool)
        requires
            board_wf(self@),
            loc_wf(*location),
        ensures
            r == is_empty_at(self@, location.coords@[0] as int, location.coords@[1] as int),
    {
        self.get_piece_at(location).is_none()
    }

    /// The square is free to land on for `color`.
    pub fn is_empty_or_enemy(&self, location: &Location, color: Color) -> (r: bool)
        requires
            board_wf(self@),
            loc_wf(*location),
        ensures
            r == is_empty_or_enemy_at(
                self@,
                location.coords@[0] as int,
                location.coords@[1] as int,
                color,
            ),
    {
        self.is_empty(location) || self.has_enemy_piece(location, color)
    }
}

} // verus!

