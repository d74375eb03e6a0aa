//! The match state around the engine: the board account with its piece
//! snapshot, turn flag and players, and the state transitions a match goes
//! through (create, join, move, resign).
//!
//! Players are identified by plain 32-byte keys; how such a key is obtained
//! is the surrounding program's business.

use crate::error::ChessError;
use crate::game_logic::is_move_legal;
use crate::game_logic::move_ok;
use crate::game_logic::side_lo;
use vstd::prelude::*;

verus! {

/// Sentinel square value for a captured piece: distinct from all 64 real
/// squares, so a captured piece never matches any occupancy test.
pub const OFF_BOARD: u8 = 64;

/// One chess match: players, whose turn it is, and where each piece stands.
#[derive(Debug, Clone)]
pub struct Board {
    pub is_white_turn: bool,
    pub bump: u8,
    pub seed: u64,
    pub maker: [u8; 32],
    pub guest: Option<[u8; 32]>,
    /// Square of each piece, indexed by piece identity.
    /// The first 16 identities are white, the other 16 black.
    /// A captured piece holds `OFF_BOARD`.
    pub state: [u8; 32],
    pub game_over: bool,
}

/// The square a piece starts on: white identities sit on their own square
/// number (back rank then pawns), black identities 32 squares further up
/// (pawns then back rank).
pub open spec fn initial_square(i: int) -> u8 {
    if i < 16 {
        i as u8
    } else {
        (i + 32) as u8
    }
}

/// Whether `player` is one of the two participants of the match.
pub open spec fn is_participant(b: Board, player: Seq<u8>) -> bool {
    player == b.maker@ || (match b.guest {
        Some(g) => player == g@,
        None => false,
    })
}

/// Whether `player` may move the piece `piece_idx` now: the side on turn
/// must be played by its owner, moving one of its own pieces.
pub open spec fn move_authorized(b: Board, player: Seq<u8>, piece_idx: u8) -> bool {
    if b.is_white_turn {
        player == b.maker@ && piece_idx < 16
    } else {
        (match b.guest {
            Some(g) => player == g@,
            None => false,
        }) && piece_idx >= 16
    }
}

/// The smallest identity of the side not on turn whose piece stands on
/// `destination`, searching `[lo, hi)`; `hi` when there is none.
pub open spec fn first_enemy_at(state: Seq<u8>, lo: int, hi: int, destination: u8) -> int
    decreases hi - lo,
{
    if lo >= hi {
        hi
    } else if state[lo] == destination {
        lo
    } else {
        first_enemy_at(state, lo + 1, hi, destination)
    }
}

/// The piece snapshot after a legal move: the first enemy piece standing on
/// the destination (if any) goes off the board, then the mover relocates.
pub open spec fn state_after_move(
    state: Seq<u8>,
    white_turn: bool,
    piece_idx: u8,
    destination: u8,
) -> Seq<u8> {
    let lo = side_lo(!white_turn);
    let ci = first_enemy_at(state, lo, lo + 16, destination);
    let cleared = if ci < lo + 16 {
        state.update(ci, OFF_BOARD)
    } else {
        state
    };
    cleared.update(piece_idx as int, destination)
}

proof fn lemma_first_enemy_at(state: Seq<u8>, lo: int, hi: int, destination: u8, i: int)
    requires
        lo <= i <= hi,
        forall|j: int| lo <= j < i ==> state[j] != destination,
        i < hi ==> state[i] == destination,
    ensures
        first_enemy_at(state, lo, hi, destination) == i,
    decreases i - lo,
{
    if lo < i {
        lemma_first_enemy_at(state, lo + 1, hi, destination, i);
    }
}

/// Byte-for-byte equality of two player keys.
fn keys_equal(a: &[u8; 32], b: &[u8; 32]) -> (r: bool)
    ensures
        r == (a@ == b@),
{
    let mut i: usize = 0;
    while i < 32
        invariant
            i <= 32,
            forall|j: int| 0 <= j < i ==> a@[j] == b@[j],
        decreases 32 - i,
    {
        if a[i] != b[i] {
            return false;
        }
        i += 1;
    }
    proof {
        assert(a@ =~= b@);
    }
    true
}

impl Board {
    /// A fresh match between `maker` (white) and an optional `guest`, with
    /// every piece on its starting square and white to move.
    pub fn new(bump: u8, seed: u64, guest: Option<[u8; 32]>, maker: [u8; 32]) -> (b: Board)
        ensures
            b.is_white_turn,
            b.bump == bump,
            b.seed == seed,
            b.maker == maker,
            b.guest == guest,
            !b.game_over,
            forall|i: int| 0 <= i < 32 ==> b.state@[i] == initial_square(i),
    {
        Board {
            is_white_turn: true,
            bump,
            seed,
            guest,
            maker,
            state: Board::new_chessboard(),
            game_over: false,
        }
    }

    /// The starting snapshot: white back rank on squares 0..8 and pawns on
    /// 8..16, black pawns on squares 48..56 and back rank on 56..64.
    pub fn new_chessboard() -> (state: [u8; 32])
        ensures
            forall|i: int| 0 <= i < 32 ==> state@[i] == initial_square(i),
    {
        let mut state: [u8; 32] = [0u8; 32];

        // White pieces: identity i starts on square i
        let mut i: usize = 0;
        while i < 16
            invariant
                i <= 16,
                forall|j: int| 0 <= j < i ==> state@[j] == initial_square(j),
            decreases 16 - i,
        {
            state[i] = i as u8;
            i += 1;
        }

        // Black pieces: identity i starts on square i + 32
        while i < 32
            invariant
                16 <= i <= 32,
                forall|j: int| 0 <= j < i ==> state@[j] == initial_square(j),
            decreases 32 - i,
        {
            state[i] = (i as u8) + 32;
            i += 1;
        }

        state
    }

    /// Lets a guest join a match that still has no guest.
    pub fn join(&mut self, guest: [u8; 32]) -> (r: Result<(), ChessError>)
        ensures
            old(self).guest is Some ==> r == Err::<(), ChessError>(
                ChessError::GuestAlreadyPresent,
            ) && *final(self) == *old(self),
            old(self).guest is None ==> r == Ok::<(), ChessError>(()) && *final(self) == (Board {
                guest: Some(guest),
                ..*old(self)
            }),
    {
        if self.guest.is_some() {
            return Err(ChessError::GuestAlreadyPresent);
        }

        self.guest = Some(guest);

        Ok(())
    }

    /// Ends the match early; only a participant may resign.
    pub fn resign(&mut self, resigning_player: [u8; 32]) -> (r: Result<(), ChessError>)
        ensures
            r is Ok <==> is_participant(*old(self), resigning_player@),
            r is Ok ==> *final(self) == (Board { game_over: true, ..*old(self) }),
            r is Err ==> r == Err::<(), ChessError>(ChessError::InvalidPlayer) && *final(self)
                == *old(self),
    {
        // Check that resigning player is one of the two
        let mut ok = keys_equal(&resigning_player, &self.maker);
        if !ok {
            ok = match &self.guest {
                Some(g) => keys_equal(&resigning_player, g),
                None => false,
            };
        }
        if !ok {
            return Err(ChessError::InvalidPlayer);
        }

        self.game_over = true;

        Ok(())
    }

    /// Performs one move for `player`: validates bounds, presence of both
    /// players, turn and ownership, asks the engine whether the move is
    /// legal, then captures any enemy piece on the destination, relocates
    /// the mover and flips the turn. On any failure the board is unchanged.
    pub fn move_piece(&mut self, player: [u8; 32], piece_idx: u8, destination: u8) -> (r: Result<
        (),
        ChessError,
    >)
        ensures
            ({
                let b = *old(self);
                let cur = b.state@[piece_idx as int];
                if piece_idx >= 32 || destination >= 64 {
                    r == Err::<(), ChessError>(ChessError::OutOfBounds) && *final(self) == b
                } else if b.guest is None {
                    r == Err::<(), ChessError>(ChessError::GuestPlayerNotPresent) && *final(self)
                        == b
                } else if !move_authorized(b, player@, piece_idx) {
                    r == Err::<(), ChessError>(ChessError::InvalidPlayer) && *final(self) == b
                } else if destination == cur {
                    r == Err::<(), ChessError>(ChessError::NoMovement) && *final(self) == b
                } else if !move_ok(b.state@, piece_idx, cur, destination) {
                    r == Err::<(), ChessError>(ChessError::IllegalMove) && *final(self) == b
                } else {
                    r == Ok::<(), ChessError>(()) && final(self).state@ == state_after_move(
                        b.state@,
                        b.is_white_turn,
                        piece_idx,
                        destination,
                    ) && *final(self) == (Board {
                        is_white_turn: !b.is_white_turn,
                        state: final(self).state,
                        ..b
                    })
                }
            }),
    {
        // Bounds check
        if !(piece_idx < 32 && destination < 64) {
            return Err(ChessError::OutOfBounds);
        }

        // Ensure both players are present
        let guest = match self.guest {
            Some(g) => g,
            None => {
                return Err(ChessError::GuestPlayerNotPresent);
            },
        };

        // The side on turn must be played by its owner, with its own piece
        let is_valid = if self.is_white_turn {
            keys_equal(&player, &self.maker) && piece_idx < 16
        } else {
            keys_equal(&player, &guest) && piece_idx >= 16
        };
        if !is_valid {
            return Err(ChessError::InvalidPlayer);
        }

        // Validate move legality
        let current_pos = self.state[piece_idx as usize];
        let legal = match is_move_legal(current_pos, piece_idx, destination, &self.state) {
            Ok(l) => l,
            Err(e) => {
                return Err(e);
            },
        };
        if !legal {
            return Err(ChessError::IllegalMove);
        }

        // Capture any opposite color piece at the destination
        let lo: usize = if self.is_white_turn {
            16
        } else {
            0
        };
        let hi: usize = lo + 16;
        let mut i: usize = lo;
        while i < hi && self.state[i] != destination
            invariant
                *self == *old(self),
                lo == side_lo(!self.is_white_turn),
                hi == lo + 16,
                lo <= i <= hi,
                forall|j: int| lo <= j < i ==> self.state@[j] != destination,
            decreases hi - i,
        {
            i += 1;
        }
        proof {
            lemma_first_enemy_at(self.state@, lo as int, hi as int, destination, i as int);
        }
        if i < hi {
            self.state[i] = OFF_BOARD;  // captured
        }

        // Move the piece
        self.state[piece_idx as usize] = destination;

        // Swap turn
        self.is_white_turn = !self.is_white_turn;

        Ok(())
    }
}

} // verus!
