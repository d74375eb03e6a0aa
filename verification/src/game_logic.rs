//! The move-legality engine: piece classification, per-type move-shape
//! checks, path walking for sliding pieces, and occupancy resolution.
//!
//! Squares are numbered rank-major: `file = square % 8`, `rank = square / 8`.
//! A board snapshot maps the 32 piece identities to their squares; an entry
//! outside `0..64` means the piece is off the board and can never match a
//! real square in any occupancy test.

use crate::error::ChessError;
use vstd::prelude::*;

verus! {

// ---------------------------------------------------------------------------
// Piece identities and classification
// ---------------------------------------------------------------------------

/// The six piece types a valid identity classifies to.
#[derive(Debug, Clone, Copy, PartialEq, Eq, Structural)]
pub enum PieceType {
    Rook,
    Knight,
    Bishop,
    Queen,
    King,
    Pawn,
}

/// Identities `[0, 16)` are the first (white) side, `[16, 32)` the second.
pub open spec fn is_white_piece(i: u8) -> bool {
    i < 16
}

pub open spec fn rook_identity(i: u8) -> bool {
    i == 0 || i == 7 || i == 24 || i == 31
}

pub open spec fn knight_identity(i: u8) -> bool {
    i == 1 || i == 6 || i == 25 || i == 30
}

pub open spec fn bishop_identity(i: u8) -> bool {
    i == 2 || i == 5 || i == 26 || i == 29
}

pub open spec fn queen_identity(i: u8) -> bool {
    i == 3 || i == 27
}

pub open spec fn king_identity(i: u8) -> bool {
    i == 4 || i == 28
}

pub open spec fn pawn_identity(i: u8) -> bool {
    8 <= i <= 23
}

/// Membership of an identity in the fixed range of one piece type.
pub open spec fn identity_has_type(i: u8, t: PieceType) -> bool {
    match t {
        PieceType::Rook => rook_identity(i),
        PieceType::Knight => knight_identity(i),
        PieceType::Bishop => bishop_identity(i),
        PieceType::Queen => queen_identity(i),
        PieceType::King => king_identity(i),
        PieceType::Pawn => pawn_identity(i),
    }
}

/// The type a valid identity classifies to.
pub open spec fn piece_type_of(i: u8) -> PieceType
    recommends
        i < 32,
{
    if rook_identity(i) {
        PieceType::Rook
    } else if knight_identity(i) {
        PieceType::Knight
    } else if bishop_identity(i) {
        PieceType::Bishop
    } else if queen_identity(i) {
        PieceType::Queen
    } else if king_identity(i) {
        PieceType::King
    } else {
        PieceType::Pawn
    }
}

/// The six identity ranges partition `[0, 32)`: every valid identity has
/// exactly one type, and it is the one `piece_type_of` assigns.
pub proof fn lemma_classification_partition(i: u8)
    requires
        i < 32,
    ensures
        identity_has_type(i, piece_type_of(i)),
        forall|t: PieceType| identity_has_type(i, t) ==> t == piece_type_of(i),
{
}

/// Maps a piece identity to its type; identities outside the six fixed
/// ranges are rejected with `InvalidPiece`.
pub fn classify(piece_idx: u8) -> (r: Result<PieceType, ChessError>)
    ensures
        piece_idx < 32 ==> r == Ok::<PieceType, ChessError>(piece_type_of(piece_idx)),
        piece_idx >= 32 ==> r == Err::<PieceType, ChessError>(ChessError::InvalidPiece),
{
    match piece_idx {
        0 | 7 | 24 | 31 => Ok(PieceType::Rook),
        1 | 6 | 25 | 30 => Ok(PieceType::Knight),
        2 | 5 | 26 | 29 => Ok(PieceType::Bishop),
        3 | 27 => Ok(PieceType::Queen),
        4 | 28 => Ok(PieceType::King),
        8..=23 => Ok(PieceType::Pawn),
        _ => Err(ChessError::InvalidPiece),
    }
}

// ---------------------------------------------------------------------------
// Board geometry
// ---------------------------------------------------------------------------

/// The file (column) of a square value.
pub open spec fn file_of(s: u8) -> int {
    s as int % 8
}

/// The rank (row) of a square value.
pub open spec fn rank_of(s: u8) -> int {
    s as int / 8
}

/// Splits a square value into `(file, rank)` coordinates.
pub fn to_coords(pos: u8) -> (r: (i8, i8))
    ensures
        r.0 as int == file_of(pos),
        r.1 as int == rank_of(pos),
{
    ((pos % 8) as i8, (pos / 8) as i8)
}

pub open spec fn abs_diff(a: int, b: int) -> int {
    if a >= b {
        a - b
    } else {
        b - a
    }
}

/// The unit step (`-1`, `0` or `1`) that walks one coordinate toward a goal.
pub open spec fn sign_toward(from: int, to: int) -> int {
    if to > from {
        1
    } else if to < from {
        -1
    } else {
        0
    }
}

/// One coordinate after `k` unit steps from `from` toward `to`.
pub open spec fn coord_toward(from: int, to: int, k: int) -> int {
    from + k * sign_toward(from, to)
}

/// How many unit steps a straight or diagonal walk from `c` to `d` takes.
pub open spec fn step_count(c: u8, d: u8) -> int {
    let df = abs_diff(file_of(c), file_of(d));
    let dr = abs_diff(rank_of(c), rank_of(d));
    if df >= dr {
        df
    } else {
        dr
    }
}

/// The square a walk from `c` toward `d` stands on after `k` steps.
pub open spec fn path_square(c: u8, d: u8, k: int) -> int {
    8 * coord_toward(rank_of(c), rank_of(d), k) + coord_toward(file_of(c), file_of(d), k)
}

/// `coord_toward` written without multiplication, by the sign's three cases.
proof fn lemma_coord_toward_linear(from: int, to: int, k: int)
    ensures
        to > from ==> coord_toward(from, to, k) == from + k,
        to == from ==> coord_toward(from, to, k) == from,
        to < from ==> coord_toward(from, to, k) == from - k,
{
    assert(k * 1 == k) by (nonlinear_arith);
    assert(k * 0 == 0) by (nonlinear_arith);
    assert(k * -1 == -k) by (nonlinear_arith);
}

/// A square value is determined by its coordinates.
proof fn lemma_square_coords(s: u8)
    ensures
        s as int == 8 * rank_of(s) + file_of(s),
        0 <= file_of(s) < 8,
        0 <= rank_of(s) < 32,
{
}

// ---------------------------------------------------------------------------
// Occupancy
// ---------------------------------------------------------------------------

/// Some piece (of either side) sits on `square`.
pub open spec fn occupied(board: Seq<u8>, square: int) -> bool {
    exists|i: int| 0 <= i < 32 && board[i] as int == square
}

/// The first identity of one side's 16-wide block.
pub open spec fn side_lo(white_side: bool) -> int {
    if white_side {
        0
    } else {
        16
    }
}

/// Some piece of the given side sits on `square`.
pub open spec fn side_occupied(board: Seq<u8>, white_side: bool, square: int) -> bool {
    exists|i: int| side_lo(white_side) <= i < side_lo(white_side) + 16 && board[i] as int == square
}

/// Every square strictly between `c` and `d` along the walk is empty.
pub open spec fn path_clear(board: Seq<u8>, c: u8, d: u8) -> bool {
    forall|k: int| 1 <= k < step_count(c, d) ==> !occupied(board, path_square(c, d, k))
}

/// Whether any piece occupies `square`.
fn square_occupied(board_state: &[u8; 32], square: u8) -> (r: bool)
    ensures
        r == occupied(board_state@, square as int),
{
    let mut i: usize = 0;
    while i < 32
        invariant
            i <= 32,
            forall|j: int| 0 <= j < i ==> board_state@[j] as int != square as int,
        decreases 32 - i,
    {
        if board_state[i] == square {
            return true;
        }
        i += 1;
    }
    false
}

/// Whether a piece of the given side occupies `square`.
fn side_occupies(board_state: &[u8; 32], white_side: bool, square: u8) -> (r: bool)
    ensures
        r == side_occupied(board_state@, white_side, square as int),
{
    let lo: usize = if white_side {
        0
    } else {
        16
    };
    let mut i: usize = lo;
    while i < lo + 16
        invariant
            lo == side_lo(white_side),
            lo <= i <= lo + 16,
            forall|j: int| lo <= j < i ==> board_state@[j] as int != square as int,
        decreases lo + 16 - i,
    {
        if board_state[i] == square {
            return true;
        }
        i += 1;
    }
    false
}

// ---------------------------------------------------------------------------
// Per-type move rules
// ---------------------------------------------------------------------------

/// Rook shape: a straight line along one file or one rank, of some length.
pub open spec fn rook_shape(c: u8, d: u8) -> bool {
    c != d && (file_of(c) == file_of(d) || rank_of(c) == rank_of(d))
}

/// Bishop shape: a diagonal, of some length.
pub open spec fn bishop_shape(c: u8, d: u8) -> bool {
    c != d && abs_diff(file_of(c), file_of(d)) == abs_diff(rank_of(c), rank_of(d))
}

/// Knight shape: file and rank deltas are a permutation of (1, 2).
pub open spec fn knight_shape(c: u8, d: u8) -> bool {
    let df = abs_diff(file_of(c), file_of(d));
    let dr = abs_diff(rank_of(c), rank_of(d));
    (df == 1 && dr == 2) || (df == 2 && dr == 1)
}

pub open spec fn rook_move_ok(board: Seq<u8>, is_white: bool, c: u8, d: u8) -> bool {
    rook_shape(c, d) && path_clear(board, c, d) && !side_occupied(board, is_white, d as int)
}

pub open spec fn bishop_move_ok(board: Seq<u8>, is_white: bool, c: u8, d: u8) -> bool {
    bishop_shape(c, d) && path_clear(board, c, d) && !side_occupied(board, is_white, d as int)
}

pub open spec fn queen_move_ok(board: Seq<u8>, is_white: bool, c: u8, d: u8) -> bool {
    rook_move_ok(board, is_white, c, d) || bishop_move_ok(board, is_white, c, d)
}

pub open spec fn knight_move_ok(board: Seq<u8>, is_white: bool, c: u8, d: u8) -> bool {
    knight_shape(c, d) && !side_occupied(board, is_white, d as int)
}

/// King: at most one square in each direction (the zero move is rejected
/// upstream as `NoMovement`); may not land on a friendly piece.
pub open spec fn king_move_ok(board: Seq<u8>, is_white: bool, c: u8, d: u8) -> bool {
    abs_diff(file_of(c), file_of(d)) <= 1 && abs_diff(rank_of(c), rank_of(d)) <= 1
        && !side_occupied(board, is_white, d as int)
}

/// The rank direction pawns of one side move in.
pub open spec fn pawn_dir(is_white: bool) -> int {
    if is_white {
        1
    } else {
        -1
    }
}

/// The rank a side's pawns start on, from which the double step is allowed.
pub open spec fn pawn_start_rank(is_white: bool) -> int {
    if is_white {
        1
    } else {
        6
    }
}

/// Single forward step onto an empty square (no capture straight ahead).
pub open spec fn pawn_single_ok(board: Seq<u8>, is_white: bool, c: u8, d: u8) -> bool {
    file_of(c) == file_of(d) && rank_of(d) - rank_of(c) == pawn_dir(is_white) && !occupied(
        board,
        d as int,
    )
}

/// Double forward step from the starting rank; both squares must be empty.
pub open spec fn pawn_double_ok(board: Seq<u8>, is_white: bool, c: u8, d: u8) -> bool {
    file_of(c) == file_of(d) && rank_of(d) - rank_of(c) == 2 * pawn_dir(is_white) && rank_of(c)
        == pawn_start_rank(is_white) && !occupied(
        board,
        8 * (rank_of(c) + pawn_dir(is_white)) + file_of(c),
    ) && !occupied(board, d as int)
}

/// Diagonal pawn shape: one file sideways, one rank forward.
pub open spec fn pawn_diag_shape(is_white: bool, c: u8, d: u8) -> bool {
    abs_diff(file_of(c), file_of(d)) == 1 && rank_of(d) - rank_of(c) == pawn_dir(is_white)
}

/// Diagonal capture: legal only onto a square an enemy piece occupies.
pub open spec fn pawn_capture_ok(board: Seq<u8>, is_white: bool, c: u8, d: u8) -> bool {
    pawn_diag_shape(is_white, c, d) && side_occupied(board, !is_white, d as int)
}

pub open spec fn pawn_move_ok(board: Seq<u8>, is_white: bool, c: u8, d: u8) -> bool {
    pawn_single_ok(board, is_white, c, d) || pawn_double_ok(board, is_white, c, d)
        || pawn_capture_ok(board, is_white, c, d)
}

/// Legality of a move, dispatched on the mover's piece type.
pub open spec fn move_ok(board: Seq<u8>, piece_idx: u8, current: u8, destination: u8) -> bool
    recommends
        piece_idx < 32,
{
    let w = is_white_piece(piece_idx);
    match piece_type_of(piece_idx) {
        PieceType::Rook => rook_move_ok(board, w, current, destination),
        PieceType::Knight => knight_move_ok(board, w, current, destination),
        PieceType::Bishop => bishop_move_ok(board, w, current, destination),
        PieceType::Queen => queen_move_ok(board, w, current, destination),
        PieceType::King => king_move_ok(board, w, current, destination),
        PieceType::Pawn => pawn_move_ok(board, w, current, destination),
    }
}

/// The unit step (`-1`, `0` or `1`) from one coordinate toward another.
fn sign_step(from: i8, to: i8) -> (s: i8)
    ensures
        s as int == sign_toward(from as int, to as int),
{
    if to > from {
        1
    } else if to < from {
        -1
    } else {
        0
    }
}

/// Walks the squares strictly between `current` and `destination` one unit
/// step at a time; every one must be empty, and the destination must not
/// hold a friendly piece. Callers have already checked that the move is a
/// straight line or a diagonal, so the walk is guaranteed to arrive.
fn sliding_path_ok(current: u8, destination: u8, is_white: bool, board_state: &[u8; 32]) -> (r:
    bool)
    requires
        current != destination,
        file_of(current) == file_of(destination) || rank_of(current) == rank_of(destination)
            || abs_diff(file_of(current), file_of(destination)) == abs_diff(
            rank_of(current),
            rank_of(destination),
        ),
    ensures
        r == (path_clear(board_state@, current, destination) && !side_occupied(
            board_state@,
            is_white,
            destination as int,
        )),
{
    let (cx, cy) = to_coords(current);
    let (dx, dy) = to_coords(destination);
    let step_x = sign_step(cx, dx);
    let step_y = sign_step(cy, dy);

    let ghost n: int = step_count(current, destination);
    proof {
        lemma_square_coords(current);
        lemma_square_coords(destination);
        lemma_coord_toward_linear(cx as int, dx as int, 1);
        lemma_coord_toward_linear(cy as int, dy as int, 1);
        assert(n >= 1);
    }

    let mut x: i8 = cx + step_x;
    let mut y: i8 = cy + step_y;
    let ghost mut k: int = 1;

    while x != dx || y != dy
        invariant
            current != destination,
            file_of(current) == file_of(destination) || rank_of(current) == rank_of(destination)
                || abs_diff(file_of(current), file_of(destination)) == abs_diff(
                rank_of(current),
                rank_of(destination),
            ),
            cx as int == file_of(current),
            cy as int == rank_of(current),
            dx as int == file_of(destination),
            dy as int == rank_of(destination),
            0 <= (cx as int) < 8,
            0 <= (cy as int) < 32,
            0 <= (dx as int) < 8,
            0 <= (dy as int) < 32,
            step_x as int == sign_toward(cx as int, dx as int),
            step_y as int == sign_toward(cy as int, dy as int),
            n == step_count(current, destination),
            1 <= k <= n,
            x as int == coord_toward(cx as int, dx as int, k),
            y as int == coord_toward(cy as int, dy as int, k),
            forall|j: int|
                1 <= j < k ==> !occupied(board_state@, path_square(current, destination, j)),
        decreases n - k,
    {
        proof {
            lemma_coord_toward_linear(cx as int, dx as int, k);
            lemma_coord_toward_linear(cy as int, dy as int, k);
            lemma_coord_toward_linear(cx as int, dx as int, n);
            lemma_coord_toward_linear(cy as int, dy as int, n);
            // The walk has not arrived, so it stands strictly between.
            assert(k < n);
            assert(0 <= (x as int) <= 7 && 0 <= (y as int) <= 31);
        }
        let square: u8 = (y as u8) * 8 + (x as u8);
        proof {
            assert(square as int == path_square(current, destination, k));
        }
        if square_occupied(board_state, square) {
            proof {
                assert(occupied(board_state@, path_square(current, destination, k)));
                assert(!path_clear(board_state@, current, destination));
            }
            return false;
        }
        x = x + step_x;
        y = y + step_y;
        proof {
            lemma_coord_toward_linear(cx as int, dx as int, k + 1);
            lemma_coord_toward_linear(cy as int, dy as int, k + 1);
            k = k + 1;
        }
    }

    proof {
        lemma_coord_toward_linear(cx as int, dx as int, k);
        lemma_coord_toward_linear(cy as int, dy as int, k);
        lemma_coord_toward_linear(cx as int, dx as int, n);
        lemma_coord_toward_linear(cy as int, dy as int, n);
        assert(k == n);
        assert(path_clear(board_state@, current, destination));
    }
    !side_occupies(board_state, is_white, destination)
}

/// Rook move: any distance along one file or one rank, path clear, no
/// friendly piece on the destination.
pub fn is_rook_move(current: u8, destination: u8, is_white: bool, board_state: &[u8; 32]) -> (
    legal: bool)
    ensures
        legal == rook_move_ok(board_state@, is_white, current, destination),
{
    let (cx, cy) = to_coords(current);
    let (dx, dy) = to_coords(destination);

    // Must be same file or same rank
    if cx != dx && cy != dy {
        return false;
    }
    if current == destination {
        return false;
    }

    sliding_path_ok(current, destination, is_white, board_state)
}

/// Bishop move: any distance along a diagonal, path clear, no friendly
/// piece on the destination.
pub fn is_bishop_move(current: u8, destination: u8, is_white: bool, board_state: &[u8; 32]) -> (
    legal: bool)
    ensures
        legal == bishop_move_ok(board_state@, is_white, current, destination),
{
    let (cx, cy) = to_coords(current);
    let (dx, dy) = to_coords(destination);

    let dx_abs: i8 = if dx >= cx {
        dx - cx
    } else {
        cx - dx
    };
    let dy_abs: i8 = if dy >= cy {
        dy - cy
    } else {
        cy - dy
    };

    // Must be diagonal
    if dx_abs != dy_abs {
        return false;
    }
    if current == destination {
        return false;
    }

    sliding_path_ok(current, destination, is_white, board_state)
}

/// Queen move: a rook move or a bishop move.
pub fn is_queen_move(current: u8, destination: u8, is_white: bool, board_state: &[u8; 32]) -> (
    legal: bool)
    ensures
        legal == queen_move_ok(board_state@, is_white, current, destination),
{
    is_rook_move(current, destination, is_white, board_state) || is_bishop_move(
        current,
        destination,
        is_white,
        board_state,
    )
}

/// Knight move: the L-shape jump; interposed pieces never block it.
pub fn is_knight_move(current: u8, destination: u8, is_white: bool, board_state: &[u8; 32]) -> (
    legal: bool)
    ensures
        legal == knight_move_ok(board_state@, is_white, current, destination),
{
    let (cx, cy) = to_coords(current);
    let (dx, dy) = to_coords(destination);

    let dx_abs: i8 = if dx >= cx {
        dx - cx
    } else {
        cx - dx
    };
    let dy_abs: i8 = if dy >= cy {
        dy - cy
    } else {
        cy - dy
    };

    if !((dx_abs == 1 && dy_abs == 2) || (dx_abs == 2 && dy_abs == 1)) {
        return false;
    }

    !side_occupies(board_state, is_white, destination)
}

/// King move: at most one square in any direction, not onto a friend.
pub fn is_king_move(current: u8, destination: u8, is_white: bool, board_state: &[u8; 32]) -> (
    legal: bool)
    ensures
        legal == king_move_ok(board_state@, is_white, current, destination),
{
    let (cx, cy) = to_coords(current);
    let (dx, dy) = to_coords(destination);

    let dx_abs: i8 = if dx >= cx {
        dx - cx
    } else {
        cx - dx
    };
    let dy_abs: i8 = if dy >= cy {
        dy - cy
    } else {
        cy - dy
    };

    if dx_abs > 1 || dy_abs > 1 {
        return false;
    }

    !side_occupies(board_state, is_white, destination)
}

/// Pawn move: single step, double step from the start rank, or diagonal
/// capture; forward steps require empty squares, the capture an enemy.
pub fn is_pawn_move(current: u8, destination: u8, is_white: bool, board_state: &[u8; 32]) -> (
    legal: bool)
    ensures
        legal == pawn_move_ok(board_state@, is_white, current, destination),
{
    let (cx, cy) = to_coords(current);
    let (dx, dy) = to_coords(destination);

    let dir: i8 = if is_white {
        1
    } else {
        -1
    };

    // Single forward step onto an empty square
    if cx == dx && dy - cy == dir && !square_occupied(board_state, destination) {
        return true;
    }

    // Double forward step from the starting rank (both squares must be empty)
    if cx == dx && dy - cy == 2 * dir {
        let start_rank: i8 = if is_white {
            1
        } else {
            6
        };
        if cy == start_rank {
            let between_square: u8 = ((cy + dir) as u8) * 8 + (cx as u8);
            if !square_occupied(board_state, between_square) && !square_occupied(
                board_state,
                destination,
            ) {
                return true;
            }
        }
    }

    // Diagonal capture
    let dx_abs: i8 = if dx >= cx {
        dx - cx
    } else {
        cx - dx
    };
    if dx_abs == 1 && dy - cy == dir {
        return side_occupies(board_state, !is_white, destination);
    }

    false
}

// ---------------------------------------------------------------------------
// Dispatch
// ---------------------------------------------------------------------------

/// Decides whether moving the piece with identity `piece_idx` from
/// `current_pos` to `destination` is legal on the given board snapshot.
///
/// Fails with `InvalidPiece` when the identity is unclassifiable and with
/// `NoMovement` when the destination equals the current square; every other
/// outcome is a plain boolean. The board is never mutated.
pub fn is_move_legal(current_pos: u8, piece_idx: u8, destination: u8, board_state: &[u8; 32]) -> (
    r: Result<bool, ChessError>)
    ensures
        piece_idx >= 32 ==> r == Err::<bool, ChessError>(ChessError::InvalidPiece),
        piece_idx < 32 && destination == current_pos ==> r == Err::<bool, ChessError>(
            ChessError::NoMovement,
        ),
        piece_idx < 32 && destination != current_pos ==> r == Ok::<bool, ChessError>(
            move_ok(board_state@, piece_idx, current_pos, destination),
        ),
{
    let piece = match classify(piece_idx) {
        Ok(p) => p,
        Err(e) => {
            return Err(e);
        },
    };

    if destination == current_pos {
        return Err(ChessError::NoMovement);
    }

    let is_white = piece_idx < 16;  // white = first 16 pieces

    let legal = match piece {
        PieceType::Pawn => is_pawn_move(current_pos, destination, is_white, board_state),
        PieceType::Rook => is_rook_move(current_pos, destination, is_white, board_state),
        PieceType::Knight => is_knight_move(current_pos, destination, is_white, board_state),
        PieceType::Bishop => is_bishop_move(current_pos, destination, is_white, board_state),
        PieceType::Queen => is_queen_move(current_pos, destination, is_white, board_state),
        PieceType::King => is_king_move(current_pos, destination, is_white, board_state),
    };

    Ok(legal)
}

impl PieceType {
    /// Returns all identities of this piece type, in increasing order.
    pub fn indices(&self) -> (r: Vec<u8>)
        ensures
            forall|j: int| 0 <= j < r@.len() ==> identity_has_type(r@[j], *self) && r@[j] < 32,
            forall|i: u8| i < 32 && identity_has_type(i, *self) ==> r@.contains(i),
            forall|j: int, l: int| 0 <= j < l < r@.len() ==> r@[j] < r@[l],
    {
        match self {
            PieceType::Rook => {
                let r = vec![0u8, 7u8, 24u8, 31u8];
                proof {
                    assert(r@[0] == 0u8 && r@[1] == 7u8 && r@[2] == 24u8 && r@[3] == 31u8);
                }
                r
            },
            PieceType::Knight => {
                let r = vec![1u8, 6u8, 25u8, 30u8];
                proof {
                    assert(r@[0] == 1u8 && r@[1] == 6u8 && r@[2] == 25u8 && r@[3] == 30u8);
                }
                r
            },
            PieceType::Bishop => {
                let r = vec![2u8, 5u8, 26u8, 29u8];
                proof {
                    assert(r@[0] == 2u8 && r@[1] == 5u8 && r@[2] == 26u8 && r@[3] == 29u8);
                }
                r
            },
            PieceType::Queen => {
                let r = vec![3u8, 27u8];
                proof {
                    assert(r@[0] == 3u8 && r@[1] == 27u8);
                }
                r
            },
            PieceType::King => {
                let r = vec![4u8, 28u8];
                proof {
                    assert(r@[0] == 4u8 && r@[1] == 28u8);
                }
                r
            },
            PieceType::Pawn => {
                let mut r: Vec<u8> = Vec::new();
                let mut i: u8 = 8;
                while i < 24
                    invariant
                        8 <= i <= 24,
                        r@.len() == i - 8,
                        forall|j: int| 0 <= j < r@.len() ==> r@[j] == 8 + j,
                    decreases 24 - i,
                {
                    r.push(i);
                    i += 1;
                }
                proof {
                    assert forall|p: u8| p < 32 && pawn_identity(p) implies r@.contains(p) by {
                        assert(r@[p - 8] == p);
                    }
                }
                r
            },
        }
    }
}

// ---------------------------------------------------------------------------
// Laws of the move rules
// ---------------------------------------------------------------------------

/// The sliding pieces: those whose move walks a line and can be blocked.
pub open spec fn is_sliding(t: PieceType) -> bool {
    t == PieceType::Rook || t == PieceType::Bishop || t == PieceType::Queen
}

/// The line shape a sliding piece of type `t` may move along.
pub open spec fn sliding_shape(t: PieceType, c: u8, d: u8) -> bool {
    match t {
        PieceType::Rook => rook_shape(c, d),
        PieceType::Bishop => bishop_shape(c, d),
        PieceType::Queen => rook_shape(c, d) || bishop_shape(c, d),
        _ => false,
    }
}

/// Obstruction law: if any square strictly between origin and destination is
/// occupied — by any piece of either side — a sliding piece's move is
/// illegal, whatever else holds of the move.
pub proof fn lemma_sliding_obstruction(
    board: Seq<u8>,
    piece_idx: u8,
    current: u8,
    destination: u8,
    k: int,
)
    requires
        piece_idx < 32,
        is_sliding(piece_type_of(piece_idx)),
        1 <= k < step_count(current, destination),
        occupied(board, path_square(current, destination, k)),
    ensures
        !move_ok(board, piece_idx, current, destination),
{
}

/// Capture law: with the line shape right and the path clear, a sliding
/// piece's move onto a square held by an enemy piece alone is legal, and
/// onto a square held by a friendly piece illegal — though the geometry of
/// the two moves is identical.
pub proof fn lemma_sliding_capture(board: Seq<u8>, piece_idx: u8, current: u8, destination: u8)
    requires
        piece_idx < 32,
        is_sliding(piece_type_of(piece_idx)),
        sliding_shape(piece_type_of(piece_idx), current, destination),
        path_clear(board, current, destination),
    ensures
        side_occupied(board, !is_white_piece(piece_idx), destination as int) && !side_occupied(
            board,
            is_white_piece(piece_idx),
            destination as int,
        ) ==> move_ok(board, piece_idx, current, destination),
        side_occupied(board, is_white_piece(piece_idx), destination as int) ==> !move_ok(
            board,
            piece_idx,
            current,
            destination,
        ),
{
}

/// Pawn diagonal law: a diagonal pawn move onto an empty square is always
/// illegal; the identical move onto an enemy-occupied square is legal.
pub proof fn lemma_pawn_diagonal(board: Seq<u8>, piece_idx: u8, current: u8, destination: u8)
    requires
        piece_idx < 32,
        piece_type_of(piece_idx) == PieceType::Pawn,
        pawn_diag_shape(is_white_piece(piece_idx), current, destination),
    ensures
        !occupied(board, destination as int) ==> !move_ok(board, piece_idx, current, destination),
        side_occupied(board, !is_white_piece(piece_idx), destination as int) ==> move_ok(
            board,
            piece_idx,
            current,
            destination,
        ),
{
}

} // verus!

