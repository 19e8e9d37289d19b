use vstd::prelude::*;

use crate::piece::{Piece, PieceType};
use crate::position::{spec_coordinates, Move, Position};

verus! {

#[derive(Clone, Copy, PartialEq, Eq, Structural, Debug)]
pub enum Color {
    White,
    Black,
}

impl Color {
    pub open spec fn spec_opposite(self) -> Color {
        match self {
            Color::White => Color::Black,
            Color::Black => Color::White,
        }
    }

    /// The other side.
    pub fn opposite(self) -> (c: Color)
        ensures
            c == self.spec_opposite(),
    {
        match self {
            Color::White => Color::Black,
            Color::Black => Color::White,
        }
    }
}

/// The error taxonomy of the engine: malformed position or move text,
/// or an internal invariant found broken while applying a move (for
/// example, a castling move without the expected rook). Both are
/// recoverable; no verified function of this library panics.
#[derive(Clone, Copy, PartialEq, Eq, Structural, Debug)]
pub enum EngineError {
    MalformedInput,
    IllegalState,
}

/// Castling permissions of one side. Once a flag is turned off during
/// play it is never turned back on; the setters only run during initial
/// setup from a position string.
#[derive(Clone, Copy, PartialEq, Eq, Structural, Debug)]
pub struct CastleRight {
    pub kingside: bool,
    pub queenside: bool,
}

impl CastleRight {
    pub fn new() -> (c: CastleRight)
        ensures
            !c.kingside,
            !c.queenside,
    {
        CastleRight { kingside: false, queenside: false }
    }

    pub open spec fn spec_off(self) -> CastleRight {
        CastleRight { kingside: false, queenside: false }
    }

    pub fn off(&mut self)
        ensures
            *final(self) == old(self).spec_off(),
    {
        self.kingside = false;
        self.queenside = false;
    }

    pub fn set_kingside_castle_on(&mut self)
        ensures
            final(self).kingside,
            final(self).queenside == old(self).queenside,
    {
        self.kingside = true
    }

    pub fn set_queenside_castle_on(&mut self)
        ensures
            final(self).queenside,
            final(self).kingside == old(self).kingside,
    {
        self.queenside = true
    }

    pub fn can_castle(self) -> (r: bool)
        ensures
            r == (self.kingside || self.queenside),
    {
        self.kingside || self.queenside
    }

    pub fn can_kingside_castle(self) -> (r: bool)
        ensures
            r == self.kingside,
    {
        self.kingside
    }

    pub fn can_queenside_castle(self) -> (r: bool)
        ensures
            r == self.queenside,
    {
        self.queenside
    }
}

/// A square either holds a piece or is empty.
pub type Square = Option<Piece>;

/// The piece (if any) on an on-board position.
pub open spec fn spec_sq(board: [Square; 64], p: Position) -> Square {
    board@[p.sq_index()]
}

pub open spec fn spec_occupied(board: [Square; 64], p: Position) -> bool {
    spec_sq(board, p) is Some
}

pub open spec fn spec_occupied_color(board: [Square; 64], p: Position, color: Color) -> bool {
    match spec_sq(board, p) {
        Some(piece) => piece.color == color,
        None => false,
    }
}

pub open spec fn spec_occupied_type_color(
    board: [Square; 64],
    p: Position,
    typ: PieceType,
    color: Color,
) -> bool {
    match spec_sq(board, p) {
        Some(piece) => piece.typ == typ && piece.color == color,
        None => false,
    }
}

/// The full game state: 64 squares, both sides' castling rights, the
/// en-passant target (live for exactly one reply), and the side to move.
#[derive(Clone, Copy, PartialEq, Debug)]
#[verifier::ext_equal]
pub struct Chess {
    pub board: [Square; 64],
    pub white_castle: CastleRight,
    pub black_castle: CastleRight,
    pub en_passant: Option<Position>,
    pub turn: Color,
}

/// Well-formedness of a board: every occupied slot holds a piece whose
/// recorded position is the slot's own coordinates.
pub open spec fn spec_board_wf(board: [Square; 64]) -> bool {
    forall|i: int|
        0 <= i < 64 ==> match #[trigger] board@[i] {
            Some(piece) => piece.pos == spec_coordinates(i),
            None => true,
        }
}

impl Chess {
    /// Well-formedness: every occupied slot holds a piece whose recorded
    /// position is the slot's own coordinates.
    pub open spec fn wf(self) -> bool {
        spec_board_wf(self.board)
    }

    /// Put `piece` on `pos`, updating the piece's own recorded position.
    pub open spec fn spec_set_at(self, pos: Position, piece: Piece) -> Chess {
        Chess {
            board: vstd::array::spec_array_update(
                self.board,
                pos.sq_index(),
                Some(Piece { pos, ..piece }),
            ),
            ..self
        }
    }

    pub fn set_at(&mut self, pos: Position, piece: Piece)
        requires
            pos.on_board(),
        ensures
            *final(self) == old(self).spec_set_at(pos, piece),
    {
        proof {
            broadcast use vstd::array::group_array_axioms;
        }
        let mut piece = piece;
        piece.pos = pos;
        self.board[pos.index()] = Some(piece);
        proof {
            assert(self.board =~= old(self).spec_set_at(pos, piece).board);
            assert(*self =~= old(self).spec_set_at(pos, piece));
        }
    }

    pub open spec fn spec_remove_at(self, pos: Position) -> Chess {
        Chess { board: vstd::array::spec_array_update(self.board, pos.sq_index(), None), ..self }
    }

    pub fn remove_at(&mut self, pos: Position)
        requires
            pos.on_board(),
        ensures
            *final(self) == old(self).spec_remove_at(pos),
    {
        proof {
            broadcast use vstd::array::group_array_axioms;
        }
        self.board[pos.index()] = None;
        proof {
            assert(self.board =~= old(self).spec_remove_at(pos).board);
            assert(*self =~= old(self).spec_remove_at(pos));
        }
    }

    /// Remove and return the piece on `pos`.
    fn take_at(&mut self, pos: Position) -> (r: Square)
        requires
            pos.on_board(),
        ensures
            r == spec_sq(old(self).board, pos),
            *final(self) == old(self).spec_remove_at(pos),
    {
        proof {
            broadcast use vstd::array::group_array_axioms;
        }
        let r = self.board[pos.index()];
        self.board[pos.index()] = None;
        proof {
            assert(self.board =~= old(self).spec_remove_at(pos).board);
            assert(*self =~= old(self).spec_remove_at(pos));
        }
        r
    }

    /// Promotion substitution: the piece that finally lands on the
    /// destination square.
    pub open spec fn spec_promoted(piece: Piece, m: Move) -> Piece {
        match m.prom {
            Some(t) => Piece { typ: t, ..piece },
            None => piece,
        }
    }

    /// Castling-right bookkeeping when a rook is captured on its home
    /// square (h8/a8 for black, h1/a1 for white): the opponent of the
    /// side to move loses the matching right. A rook captured anywhere
    /// else changes nothing.
    pub open spec fn spec_capture_rights(self, captured: Piece) -> Chess {
        if captured.typ == PieceType::Rook {
            if self.turn == Color::White {
                if self.black_castle.kingside && captured.pos.col == 7 && captured.pos.row == 0 {
                    Chess {
                        black_castle: CastleRight { kingside: false, ..self.black_castle },
                        ..self
                    }
                } else if self.black_castle.queenside && captured.pos.col == 0 && captured.pos.row
                    == 0 {
                    Chess {
                        black_castle: CastleRight { queenside: false, ..self.black_castle },
                        ..self
                    }
                } else {
                    self
                }
            } else {
                if self.white_castle.kingside && captured.pos.col == 7 && captured.pos.row == 7 {
                    Chess {
                        white_castle: CastleRight { kingside: false, ..self.white_castle },
                        ..self
                    }
                } else if self.white_castle.queenside && captured.pos.col == 0 && captured.pos.row
                    == 7 {
                    Chess {
                        white_castle: CastleRight { queenside: false, ..self.white_castle },
                        ..self
                    }
                } else {
                    self
                }
            }
        } else {
            self
        }
    }

    /// The common final steps of applying a move: promotion substitution,
    /// capture (with rook-capture right bookkeeping), placing the mover on
    /// the destination, and clearing the en-passant target.
    pub open spec fn spec_apply_tail(self, piece: Piece, m: Move) -> Chess {
        let placed = Self::spec_promoted(piece, m);
        let after_capture = match spec_sq(self.board, m.to) {
            Some(captured) => self.spec_capture_rights(captured).spec_remove_at(m.to),
            None => self,
        };
        let done = after_capture.spec_set_at(m.to, placed);
        Chess { en_passant: None, ..done }
    }

    /// Castling-right bookkeeping for a rook leaving its home square
    /// (h1/a1 for white, h8/a8 for black). A rook moving from any other
    /// square — a promoted rook, say — changes nothing.
    pub open spec fn spec_rook_departure_rights(self, piece: Piece) -> Chess {
        if self.turn == Color::White {
            if self.white_castle.kingside && piece.pos.col == 7 && piece.pos.row == 7 {
                Chess { white_castle: CastleRight { kingside: false, ..self.white_castle }, ..self }
            } else if self.white_castle.queenside && piece.pos.col == 0 && piece.pos.row == 7 {
                Chess { white_castle: CastleRight { queenside: false, ..self.white_castle }, ..self }
            } else {
                self
            }
        } else {
            if self.black_castle.kingside && piece.pos.col == 7 && piece.pos.row == 0 {
                Chess { black_castle: CastleRight { kingside: false, ..self.black_castle }, ..self }
            } else if self.black_castle.queenside && piece.pos.col == 0 && piece.pos.row == 0 {
                Chess { black_castle: CastleRight { queenside: false, ..self.black_castle }, ..self }
            } else {
                self
            }
        }
    }

    /// Relocate the rook for a castling king move. `None` when the
    /// expected rook square is off the board or empty: an internal
    /// invariant violation reported as a recoverable error.
    pub open spec fn spec_castle_rook_shift(self, piece: Piece, kingside: bool) -> Option<Chess> {
        if !piece.pos.on_board() {
            None
        } else {
            self.spec_castle_rook_shift_at(piece, kingside)
        }
    }

    pub open spec fn spec_castle_rook_shift_at(self, piece: Piece, kingside: bool) -> Option<
        Chess,
    > {
        let rook_sq = if kingside {
            piece.pos.spec_right(3)
        } else {
            piece.pos.spec_left(4)
        };
        if rook_sq.on_board() && spec_sq(self.board, rook_sq) is Some {
            let rook = spec_sq(self.board, rook_sq)->Some_0;
            let taken = self.spec_remove_at(rook_sq);
            let king_to = if kingside {
                piece.pos.spec_right(2)
            } else {
                piece.pos.spec_left(2)
            };
            let rook_to = if kingside {
                piece.pos.spec_right(1)
            } else {
                piece.pos.spec_left(1)
            };
            Some(taken.spec_set_at(king_to, piece).spec_set_at(rook_to, rook))
        } else {
            None
        }
    }

    /// The king case of `spec_apply_move`: a king move to the castling
    /// destination whose own right is still held relocates the matching
    /// rook; any king move forfeits both of the mover's rights.
    pub open spec fn spec_apply_king(self, piece: Piece, m: Move) -> Option<Chess> {
        if self.turn == Color::White {
            if m.to == (Position { row: 7, col: 6 }) && self.white_castle.kingside {
                match self.spec_castle_rook_shift(piece, true) {
                    Some(c) => Some(
                        Chess { white_castle: self.white_castle.spec_off(), ..c }.spec_apply_tail(
                            piece,
                            m,
                        ),
                    ),
                    None => None,
                }
            } else if m.to == (Position { row: 7, col: 2 }) && self.white_castle.queenside {
                match self.spec_castle_rook_shift(piece, false) {
                    Some(c) => Some(
                        Chess { white_castle: self.white_castle.spec_off(), ..c }.spec_apply_tail(
                            piece,
                            m,
                        ),
                    ),
                    None => None,
                }
            } else {
                Some(
                    Chess { white_castle: self.white_castle.spec_off(), ..self }.spec_apply_tail(
                        piece,
                        m,
                    ),
                )
            }
        } else {
            if m.to == (Position { row: 0, col: 6 }) && self.black_castle.kingside {
                match self.spec_castle_rook_shift(piece, true) {
                    Some(c) => Some(
                        Chess { black_castle: self.black_castle.spec_off(), ..c }.spec_apply_tail(
                            piece,
                            m,
                        ),
                    ),
                    None => None,
                }
            } else if m.to == (Position { row: 0, col: 2 }) && self.black_castle.queenside {
                match self.spec_castle_rook_shift(piece, false) {
                    Some(c) => Some(
                        Chess { black_castle: self.black_castle.spec_off(), ..c }.spec_apply_tail(
                            piece,
                            m,
                        ),
                    ),
                    None => None,
                }
            } else {
                Some(
                    Chess { black_castle: self.black_castle.spec_off(), ..self }.spec_apply_tail(
                        piece,
                        m,
                    ),
                )
            }
        }
    }

    /// The pawn case of `spec_apply_move`: en-passant capture, then either
    /// a two-square advance (which sets a fresh en-passant target and
    /// skips the common tail) or the common tail.
    pub open spec fn spec_apply_pawn(self, piece: Piece, m: Move) -> Option<Chess> {
        let after_ep: Option<Chess> = if self.en_passant is Some && m.to == self.en_passant->Some_0 {
            let behind = m.to.spec_up_color(self.turn.spec_opposite(), 1);
            if behind.on_board() {
                Some(self.spec_remove_at(behind))
            } else {
                None
            }
        } else {
            Some(self)
        };
        match after_ep {
            None => None,
            Some(c) => {
                if m.from.row - m.to.row == 2 || m.from.row - m.to.row == -2 {
                    let placed = c.spec_set_at(m.to, piece);
                    Some(
                        Chess {
                            en_passant: Some(m.to.spec_down_color(c.turn, 1)),
                            ..placed
                        },
                    )
                } else {
                    Some(c.spec_apply_tail(piece, m))
                }
            },
        }
    }

    /// What applying a move does to the position, exactly. `None` marks
    /// the recoverable illegal-state outcomes: an off-board square in the
    /// move, a castling king move without the expected rook, or an
    /// en-passant capture whose captured-pawn square is off the board.
    /// A move from an empty square leaves the position unchanged. The side
    /// to move is not flipped here (see `spec_play`).
    pub open spec fn spec_apply_move(self, m: Move) -> Option<Chess> {
        if !m.from.on_board() || !m.to.on_board() {
            None
        } else {
            match spec_sq(self.board, m.from) {
                None => Some(self),
                Some(piece) => {
                    let c = self.spec_remove_at(m.from);
                    match piece.typ {
                        PieceType::King => c.spec_apply_king(piece, m),
                        PieceType::Rook => Some(
                            c.spec_rook_departure_rights(piece).spec_apply_tail(piece, m),
                        ),
                        PieceType::Pawn => c.spec_apply_pawn(piece, m),
                        _ => Some(c.spec_apply_tail(piece, m)),
                    }
                },
            }
        }
    }

    pub open spec fn spec_invert_turn(self) -> Chess {
        Chess { turn: self.turn.spec_opposite(), ..self }
    }

    /// The same position with the other side to move.
    pub fn invert_turn(self) -> (c: Chess)
        ensures
            c == self.spec_invert_turn(),
    {
        Chess { turn: self.turn.opposite(), ..self }
    }

    /// Apply a move in place, without flipping the side to move.
    /// On an illegal-state outcome the position is left unchanged and a
    /// recoverable error is returned instead of aborting.
    #[verifier::rlimit(100)]
    pub fn apply_move(&mut self, m: Move) -> (r: Result<(), EngineError>)
        ensures
            match old(self).spec_apply_move(m) {
                Some(c) => r is Ok && *final(self) == c,
                None => r == Err::<(), EngineError>(EngineError::IllegalState) && *final(self)
                    == *old(self),
            },
    {
        let mut c = *self;
        if !m.from.is_on_board() || !m.to.is_on_board() {
            return Err(EngineError::IllegalState);
        }
        let piece = match c.take_at(m.from) {
            Some(piece) => piece,
            None => {
                return Ok(());
            },
        };
        match piece.typ {
            PieceType::King => {
                if c.turn == Color::White {
                    if m.to == Position::new(7, 6) && c.white_castle.can_kingside_castle() {
                        if !piece.pos.is_on_board() {
                            return Err(EngineError::IllegalState);
                        }
                        let rook_sq = piece.pos.right(3);
                        if !rook_sq.is_on_board() {
                            return Err(EngineError::IllegalState);
                        }
                        match c.take_at(rook_sq) {
                            Some(rook) => {
                                c.set_at(piece.pos.right(2), piece);
                                c.set_at(piece.pos.right(1), rook);
                                c.white_castle.off();
                            },
                            None => {
                                return Err(EngineError::IllegalState);
                            },
                        }
                    } else if m.to == Position::new(7, 2)
                        && c.white_castle.can_queenside_castle() {
                        if !piece.pos.is_on_board() {
                            return Err(EngineError::IllegalState);
                        }
                        let rook_sq = piece.pos.left(4);
                        if !rook_sq.is_on_board() {
                            return Err(EngineError::IllegalState);
                        }
                        match c.take_at(rook_sq) {
                            Some(rook) => {
                                c.set_at(piece.pos.left(2), piece);
                                c.set_at(piece.pos.left(1), rook);
                                c.white_castle.off();
                            },
                            None => {
                                return Err(EngineError::IllegalState);
                            },
                        }
                    } else {
                        c.white_castle.off();
                    }
                } else {
                    if m.to == Position::new(0, 6) && c.black_castle.can_kingside_castle() {
                        if !piece.pos.is_on_board() {
                            return Err(EngineError::IllegalState);
                        }
                        let rook_sq = piece.pos.right(3);
                        if !rook_sq.is_on_board() {
                            return Err(EngineError::IllegalState);
                        }
                        match c.take_at(rook_sq) {
                            Some(rook) => {
                                c.set_at(piece.pos.right(2), piece);
                                c.set_at(piece.pos.right(1), rook);
                                c.black_castle.off();
                            },
                            None => {
                                return Err(EngineError::IllegalState);
                            },
                        }
                    } else if m.to == Position::new(0, 2)
                        && c.black_castle.can_queenside_castle() {
                        if !piece.pos.is_on_board() {
                            return Err(EngineError::IllegalState);
                        }
                        let rook_sq = piece.pos.left(4);
                        if !rook_sq.is_on_board() {
                            return Err(EngineError::IllegalState);
                        }
                        match c.take_at(rook_sq) {
                            Some(rook) => {
                                c.set_at(piece.pos.left(2), piece);
                                c.set_at(piece.pos.left(1), rook);
                                c.black_castle.off();
                            },
                            None => {
                                return Err(EngineError::IllegalState);
                            },
                        }
                    } else {
                        c.black_castle.off();
                    }
                }
            },
            PieceType::Rook => {
                if c.turn == Color::White {
                    if c.white_castle.can_kingside_castle() && piece.pos.is_kingside_rook()
                        && piece.pos.row == 7 {
                        c.white_castle.kingside = false;
                    } else if c.white_castle.can_queenside_castle()
                        && piece.pos.is_queenside_rook() && piece.pos.row == 7 {
                        c.white_castle.queenside = false;
                    }
                } else {
                    if c.black_castle.can_kingside_castle() && piece.pos.is_kingside_rook()
                        && piece.pos.row == 0 {
                        c.black_castle.kingside = false;
                    } else if c.black_castle.can_queenside_castle()
                        && piece.pos.is_queenside_rook() && piece.pos.row == 0 {
                        c.black_castle.queenside = false;
                    }
                }
            },
            PieceType::Pawn => {
                if let Some(target) = c.en_passant {
                    if m.to == target {
                        let behind = m.to.up_color(c.turn.opposite(), 1);
                        if !behind.is_on_board() {
                            return Err(EngineError::IllegalState);
                        }
                        c.remove_at(behind);
                    }
                }
                let row_diff = m.from.row - m.to.row;
                if row_diff == 2 || row_diff == -2 {
                    c.en_passant = Some(m.to.down_color(c.turn, 1));
                    c.set_at(m.to, piece);
                    *self = c;
                    return Ok(());
                }
            },
            _ => {},
        }
        let piece = if let Some(t) = m.prom {
            Piece { typ: t, ..piece }
        } else {
            piece
        };
        if let Some(captured) = c.take_at(m.to) {
            if captured.typ == PieceType::Rook {
                if c.turn == Color::White {
                    if c.black_castle.can_kingside_castle() && captured.pos.is_kingside_rook()
                        && captured.pos.row == 0 {
                        c.black_castle.kingside = false;
                    } else if c.black_castle.can_queenside_castle()
                        && captured.pos.is_queenside_rook() && captured.pos.row == 0 {
                        c.black_castle.queenside = false;
                    }
                } else {
                    if c.white_castle.can_kingside_castle() && captured.pos.is_kingside_rook()
                        && captured.pos.row == 7 {
                        c.white_castle.kingside = false;
                    } else if c.white_castle.can_queenside_castle()
                        && captured.pos.is_queenside_rook() && captured.pos.row == 7 {
                        c.white_castle.queenside = false;
                    }
                }
            }
        }
        c.set_at(m.to, piece);
        c.en_passant = None;
        *self = c;
        Ok(())
    }

    proof fn lemma_set_at_wf(self, pos: Position, piece: Piece)
        requires
            self.wf(),
            pos.on_board(),
        ensures
            self.spec_set_at(pos, piece).wf(),
    {
        broadcast use vstd::array::group_array_axioms;

        crate::position::lemma_coordinates_of_index(pos);
    }

    proof fn lemma_remove_at_wf(self, pos: Position)
        requires
            self.wf(),
            pos.on_board(),
        ensures
            self.spec_remove_at(pos).wf(),
    {
        broadcast use vstd::array::group_array_axioms;

        crate::position::lemma_coordinates_of_index(pos);
    }

    proof fn lemma_apply_tail_wf(self, piece: Piece, m: Move)
        requires
            self.wf(),
            m.to.on_board(),
        ensures
            self.spec_apply_tail(piece, m).wf(),
    {
        let after_capture = match spec_sq(self.board, m.to) {
            Some(captured) => self.spec_capture_rights(captured).spec_remove_at(m.to),
            None => self,
        };
        if let Some(captured) = spec_sq(self.board, m.to) {
            self.spec_capture_rights(captured).lemma_remove_at_wf(m.to);
        }
        after_capture.lemma_set_at_wf(m.to, Self::spec_promoted(piece, m));
    }

    proof fn lemma_castle_rook_shift_wf(self, piece: Piece, kingside: bool)
        requires
            self.wf(),
        ensures
            match self.spec_castle_rook_shift(piece, kingside) {
                Some(c) => c.wf(),
                None => true,
            },
    {
        if piece.pos.on_board() {
            let rook_sq = if kingside {
                piece.pos.spec_right(3)
            } else {
                piece.pos.spec_left(4)
            };
            if rook_sq.on_board() && spec_sq(self.board, rook_sq) is Some {
                let rook = spec_sq(self.board, rook_sq)->Some_0;
                let king_to = if kingside {
                    piece.pos.spec_right(2)
                } else {
                    piece.pos.spec_left(2)
                };
                let rook_to = if kingside {
                    piece.pos.spec_right(1)
                } else {
                    piece.pos.spec_left(1)
                };
                self.lemma_remove_at_wf(rook_sq);
                self.spec_remove_at(rook_sq).lemma_set_at_wf(king_to, piece);
                self.spec_remove_at(rook_sq).spec_set_at(king_to, piece).lemma_set_at_wf(
                    rook_to,
                    rook,
                );
            }
        }
    }

    /// A successfully applied move keeps the board well-formed: every
    /// piece it writes is written with the position of its new slot.
    pub proof fn lemma_apply_move_preserves_wf(self, m: Move)
        requires
            self.wf(),
        ensures
            match self.spec_apply_move(m) {
                Some(c) => c.wf(),
                None => true,
            },
    {
        if m.from.on_board() && m.to.on_board() {
            if let Some(piece) = spec_sq(self.board, m.from) {
                self.lemma_remove_at_wf(m.from);
                let c = self.spec_remove_at(m.from);
                match piece.typ {
                    PieceType::King => {
                        c.lemma_castle_rook_shift_wf(piece, true);
                        c.lemma_castle_rook_shift_wf(piece, false);
                        if let Some(shifted) = c.spec_castle_rook_shift(piece, true) {
                            Chess {
                                white_castle: c.white_castle.spec_off(),
                                ..shifted
                            }.lemma_apply_tail_wf(piece, m);
                            Chess {
                                black_castle: c.black_castle.spec_off(),
                                ..shifted
                            }.lemma_apply_tail_wf(piece, m);
                        }
                        if let Some(shifted) = c.spec_castle_rook_shift(piece, false) {
                            Chess {
                                white_castle: c.white_castle.spec_off(),
                                ..shifted
                            }.lemma_apply_tail_wf(piece, m);
                            Chess {
                                black_castle: c.black_castle.spec_off(),
                                ..shifted
                            }.lemma_apply_tail_wf(piece, m);
                        }
                        Chess { white_castle: c.white_castle.spec_off(), ..c }.lemma_apply_tail_wf(
                            piece,
                            m,
                        );
                        Chess { black_castle: c.black_castle.spec_off(), ..c }.lemma_apply_tail_wf(
                            piece,
                            m,
                        );
                        c.lemma_apply_tail_wf(piece, m);
                    },
                    PieceType::Rook => {
                        c.spec_rook_departure_rights(piece).lemma_apply_tail_wf(piece, m);
                    },
                    PieceType::Pawn => {
                        let behind = m.to.spec_up_color(self.turn.spec_opposite(), 1);
                        if self.en_passant is Some && m.to == self.en_passant->Some_0 {
                            if behind.on_board() {
                                c.lemma_remove_at_wf(behind);
                                let after_ep = c.spec_remove_at(behind);
                                after_ep.lemma_set_at_wf(m.to, piece);
                                after_ep.lemma_apply_tail_wf(piece, m);
                            }
                        } else {
                            c.lemma_set_at_wf(m.to, piece);
                            c.lemma_apply_tail_wf(piece, m);
                        }
                    },
                    _ => {
                        c.lemma_apply_tail_wf(piece, m);
                    },
                }
            }
        }
    }

    /// Apply a move on a copy, leaving the turn unchanged; used for
    /// search lookahead so sibling branches never share state.
    pub fn set_move(&self, m: Move) -> (r: Result<Chess, EngineError>)
        ensures
            match self.spec_apply_move(m) {
                Some(c) => r == Ok::<Chess, EngineError>(c),
                None => r == Err::<Chess, EngineError>(EngineError::IllegalState),
            },
            self.wf() ==> match r {
                Ok(c) => c.wf(),
                Err(_) => true,
            },
    {
        proof {
            if self.wf() {
                self.lemma_apply_move_preserves_wf(m);
            }
        }
        let mut c = *self;
        match c.apply_move(m) {
            Ok(()) => Ok(c),
            Err(e) => Err(e),
        }
    }

    /// The position after a move is played: the move applied and the
    /// side to move flipped. `None` on an illegal-state outcome.
    pub open spec fn spec_play(self, m: Move) -> Option<Chess> {
        match self.spec_apply_move(m) {
            Some(c) => Some(c.spec_invert_turn()),
            None => None,
        }
    }

    /// The only mutating, turn-advancing entry point: apply the move,
    /// then flip the side to move. On error the position is unchanged.
    pub fn set(&mut self, m: Move) -> (r: Result<(), EngineError>)
        ensures
            match old(self).spec_play(m) {
                Some(c) => r is Ok && *final(self) == c,
                None => r == Err::<(), EngineError>(EngineError::IllegalState) && *final(self)
                    == *old(self),
            },
            old(self).wf() ==> final(self).wf(),
    {
        proof {
            if old(self).wf() {
                old(self).lemma_apply_move_preserves_wf(m);
            }
        }
        let r = self.apply_move(m);
        match r {
            Ok(()) => {
                self.turn = self.turn.opposite();
                Ok(())
            },
            Err(e) => Err(e),
        }
    }
}

} // verus!

verus! {

use crate::piece::{spec_attacked, spec_piece_moves, spec_piece_value, lemma_piece_value_bound};

/// The pseudo-legal moves of all pieces of the side to move standing on
/// slots `i..64`, in board order.
pub open spec fn spec_moves_from(c: Chess, i: int) -> Seq<Move>
    decreases 64 - i,
    when i <= 64
{
    if i >= 64 {
        Seq::empty()
    } else {
        (match c.board@[i] {
            Some(piece) => if piece.color == c.turn {
                spec_piece_moves(c, piece)
            } else {
                Seq::empty()
            },
            None => Seq::empty(),
        }) + spec_moves_from(c, i + 1)
    }
}

/// All pseudo-legal moves of the side to move, in generation order.
pub open spec fn spec_gen_moves(c: Chess) -> Seq<Move> {
    spec_moves_from(c, 0)
}

/// The king of the side to move on the lowest-indexed slot, if any.
pub open spec fn spec_find_king_from(c: Chess, i: int) -> Option<Piece>
    decreases 64 - i,
    when i <= 64
{
    if i >= 64 {
        None
    } else {
        match c.board@[i] {
            Some(piece) => if piece.typ == PieceType::King && piece.color == c.turn {
                Some(piece)
            } else {
                spec_find_king_from(c, i + 1)
            },
            None => spec_find_king_from(c, i + 1),
        }
    }
}

/// Whether the side to move is in check: its king's square is attacked.
/// A position without a king of the side to move is never "in check".
pub open spec fn spec_is_check(c: Chess) -> bool {
    match spec_find_king_from(c, 0) {
        Some(king) => spec_attacked(c.board, king.pos, king.color),
        None => false,
    }
}

/// A pseudo-legal move is legal when applying it succeeds and does not
/// leave the moving side's own king attacked.
pub open spec fn spec_move_legal(c: Chess, m: Move) -> bool {
    match c.spec_apply_move(m) {
        Some(after) => !spec_is_check(after),
        None => false,
    }
}

/// The legal ones among `s[i..]`, in order.
pub open spec fn spec_filter_legal_from(c: Chess, s: Seq<Move>, i: int) -> Seq<Move>
    decreases s.len() - i,
    when 0 <= i
{
    if i >= s.len() {
        Seq::empty()
    } else {
        (if spec_move_legal(c, s[i]) {
            seq![s[i]]
        } else {
            Seq::empty()
        }) + spec_filter_legal_from(c, s, i + 1)
    }
}

/// All legal moves of the side to move, in generation order.
pub open spec fn spec_legal_moves(c: Chess) -> Seq<Move> {
    spec_filter_legal_from(c, spec_gen_moves(c), 0)
}

/// Static evaluation of the pieces on slots `i..64`, from the given
/// color's point of view: own pieces count positive, enemy pieces
/// negative.
pub open spec fn spec_eval_from(c: Chess, color: Color, i: int) -> int
    decreases 64 - i,
    when i <= 64
{
    if i >= 64 {
        0
    } else {
        (match c.board@[i] {
            Some(piece) => if piece.color == color {
                spec_piece_value(piece)
            } else {
                -spec_piece_value(piece)
            },
            None => 0,
        }) + spec_eval_from(c, color, i + 1)
    }
}

/// Static evaluation of the whole position for `color`.
pub open spec fn spec_evaluate(c: Chess, color: Color) -> int {
    spec_eval_from(c, color, 0)
}

/// Each piece contributes at most 20050, so any partial evaluation is
/// bounded by 20050 per remaining slot.
pub proof fn lemma_eval_from_bound(c: Chess, color: Color, i: int)
    requires
        c.wf(),
        0 <= i <= 64,
    ensures
        -20050 * (64 - i) <= spec_eval_from(c, color, i) <= 20050 * (64 - i),
    decreases 64 - i,
{
    if i < 64 {
        lemma_eval_from_bound(c, color, i + 1);
        if let Some(piece) = c.board@[i] {
            crate::position::lemma_index_of_coordinates(i);
            lemma_piece_value_bound(piece);
        }
    }
}

/// The static evaluation of any well-formed position lies within
/// 64 * 20050.
pub proof fn lemma_evaluate_bound(c: Chess, color: Color)
    requires
        c.wf(),
    ensures
        -1283200 <= spec_evaluate(c, color) <= 1283200,
{
    lemma_eval_from_bound(c, color, 0);
}

/// Evaluation is antisymmetric in the color: the score for one side is
/// the exact negation of the score for the other side, on any position.
pub proof fn lemma_evaluate_antisymmetric(c: Chess, color: Color)
    ensures
        spec_evaluate(c, color) == -spec_evaluate(c, color.spec_opposite()),
{
    lemma_eval_from_antisymmetric(c, color, 0);
}

proof fn lemma_eval_from_antisymmetric(c: Chess, color: Color, i: int)
    requires
        0 <= i <= 64,
    ensures
        spec_eval_from(c, color, i) == -spec_eval_from(c, color.spec_opposite(), i),
    decreases 64 - i,
{
    if i < 64 {
        lemma_eval_from_antisymmetric(c, color, i + 1);
    }
}

impl Chess {
    /// All pseudo-legal moves of the side to move, in board order of the
    /// moving pieces.
    pub fn gen_moves(&self) -> (moves: Vec<Move>)
        requires
            self.wf(),
        ensures
            moves@ == spec_gen_moves(*self),
    {
        proof {
            broadcast use vstd::array::group_array_axioms;
        }
        let mut moves: Vec<Move> = Vec::new();
        let mut i: usize = 0;
        while i < 64
            invariant
                self.wf(),
                i <= 64,
                moves@ + spec_moves_from(*self, i as int) == spec_gen_moves(*self),
            decreases 64 - i,
        {
            if let Some(piece) = self.board[i] {
                if piece.color == self.turn {
                    proof {
                        crate::position::lemma_index_of_coordinates(i as int);
                    }
                    let mut piece_moves = piece.gen_moves(self);
                    moves.append(&mut piece_moves);
                }
            }
            i = i + 1;
        }
        moves
    }

    /// The legal moves of the side to move: the pseudo-legal moves whose
    /// application succeeds and leaves the mover's own king unattacked.
    pub fn gen_legal_moves(&self) -> (moves: Vec<Move>)
        requires
            self.wf(),
        ensures
            moves@ == spec_legal_moves(*self),
    {
        let all = self.gen_moves();
        let mut moves: Vec<Move> = Vec::new();
        let mut i: usize = 0;
        while i < all.len()
            invariant
                self.wf(),
                i <= all.len(),
                all@ == spec_gen_moves(*self),
                moves@ + spec_filter_legal_from(*self, all@, i as int) == spec_legal_moves(*self),
            decreases all.len() - i,
        {
            let m = all[i];
            match self.set_move(m) {
                Ok(after) => {
                    proof {
                        self.lemma_apply_move_preserves_wf(m);
                    }
                    if !after.is_check() {
                        moves.push(m);
                    }
                },
                Err(_) => {},
            }
            i = i + 1;
        }
        moves
    }

    /// The king of the side to move, if present (lowest board index
    /// first). On a well-formed board its position is on the board.
    pub fn get_king(&self) -> (r: Option<Piece>)
        ensures
            r == spec_find_king_from(*self, 0),
            self.wf() ==> match r {
                Some(king) => king.pos.on_board(),
                None => true,
            },
    {
        proof {
            broadcast use vstd::array::group_array_axioms;
        }
        let mut i: usize = 0;
        while i < 64
            invariant
                i <= 64,
                spec_find_king_from(*self, i as int) == spec_find_king_from(*self, 0),
            decreases 64 - i,
        {
            if let Some(piece) = self.board[i] {
                if piece.typ == PieceType::King && piece.color == self.turn {
                    proof {
                        crate::position::lemma_index_of_coordinates(i as int);
                    }
                    return Some(piece);
                }
            }
            i = i + 1;
        }
        None
    }

    /// Whether the side to move is in check.
    pub fn is_check(&self) -> (r: bool)
        requires
            self.wf(),
        ensures
            r == spec_is_check(*self),
    {
        if let Some(king) = self.get_king() {
            king.am_i_being_attacked(&self.board)
        } else {
            false
        }
    }

    /// Static evaluation for `color`: the sum over all pieces of their
    /// static value, negated for enemy pieces.
    pub fn evaluate(&self, color: Color) -> (v: i32)
        requires
            self.wf(),
        ensures
            v == spec_evaluate(*self, color),
            -1283200 <= v <= 1283200,
    {
        proof {
            broadcast use vstd::array::group_array_axioms;
        }
        let mut total: i32 = 0;
        let mut i: usize = 0;
        while i < 64
            invariant
                self.wf(),
                i <= 64,
                -20050 * (i as int) <= total <= 20050 * (i as int),
                total + spec_eval_from(*self, color, i as int) == spec_evaluate(*self, color),
            decreases 64 - i,
        {
            if let Some(piece) = self.board[i] {
                proof {
                    crate::position::lemma_index_of_coordinates(i as int);
                    lemma_piece_value_bound(piece);
                }
                let value = piece.evaluate();
                if piece.color == color {
                    total = total + value;
                } else {
                    total = total - value;
                }
            }
            i = i + 1;
        }
        proof {
            lemma_evaluate_bound(*self, color);
        }
        total
    }
}

} // verus!

verus! {

use crate::piece::lemma_piece_moves_on_board;
use crate::position::{lemma_moves_on_board_concat, moves_on_board};

proof fn lemma_moves_from_on_board(c: Chess, i: int)
    requires
        c.wf(),
        0 <= i <= 64,
    ensures
        moves_on_board(spec_moves_from(c, i)),
    decreases 64 - i,
{
    if i < 64 {
        lemma_moves_from_on_board(c, i + 1);
        let head: Seq<Move> = match c.board@[i] {
            Some(piece) => if piece.color == c.turn {
                spec_piece_moves(c, piece)
            } else {
                Seq::empty()
            },
            None => Seq::empty(),
        };
        if let Some(piece) = c.board@[i] {
            crate::position::lemma_index_of_coordinates(i);
            if piece.color == c.turn {
                lemma_piece_moves_on_board(c, piece);
            }
        }
        lemma_moves_on_board_concat(head, spec_moves_from(c, i + 1));
    }
}

proof fn lemma_filter_legal_on_board(c: Chess, s: Seq<Move>, i: int)
    requires
        moves_on_board(s),
        0 <= i,
    ensures
        moves_on_board(spec_filter_legal_from(c, s, i)),
    decreases s.len() - i,
{
    if i < s.len() {
        lemma_filter_legal_on_board(c, s, i + 1);
        let head: Seq<Move> = if spec_move_legal(c, s[i]) {
            seq![s[i]]
        } else {
            Seq::empty()
        };
        assert(moves_on_board(head));
        lemma_moves_on_board_concat(head, spec_filter_legal_from(c, s, i + 1));
    }
}

/// On a well-formed board, every legal move has both endpoints on the
/// board.
pub proof fn lemma_legal_moves_on_board(c: Chess)
    requires
        c.wf(),
    ensures
        moves_on_board(spec_legal_moves(c)),
{
    lemma_moves_from_on_board(c, 0);
    lemma_filter_legal_on_board(c, spec_gen_moves(c), 0);
}

} // verus!

verus! {

/// The piece type on the back rank's column `col` in the standard
/// initial layout.
pub open spec fn spec_back_rank(col: int) -> PieceType {
    if col == 0 || col == 7 {
        PieceType::Rook
    } else if col == 1 || col == 6 {
        PieceType::Knight
    } else if col == 2 || col == 5 {
        PieceType::Bishop
    } else if col == 3 {
        PieceType::Queen
    } else {
        PieceType::King
    }
}

/// The square contents of the standard initial position, by linear
/// index: black's back rank and pawns on rows 0 and 1, white's pawns and
/// back rank on rows 6 and 7.
pub open spec fn spec_start_square(i: int) -> Square {
    let row = i / 8;
    let col = i % 8;
    if row == 0 {
        Some(Piece { typ: spec_back_rank(col), pos: spec_coordinates(i), color: Color::Black })
    } else if row == 1 {
        Some(Piece { typ: PieceType::Pawn, pos: spec_coordinates(i), color: Color::Black })
    } else if row == 6 {
        Some(Piece { typ: PieceType::Pawn, pos: spec_coordinates(i), color: Color::White })
    } else if row == 7 {
        Some(Piece { typ: spec_back_rank(col), pos: spec_coordinates(i), color: Color::White })
    } else {
        None
    }
}

/// The standard initial position: the layout above, all four castling
/// rights on, no en-passant target, white to move.
pub open spec fn spec_initial(c: Chess) -> bool {
    &&& forall|i: int| 0 <= i < 64 ==> #[trigger] c.board@[i] == spec_start_square(i)
    &&& c.white_castle == (CastleRight { kingside: true, queenside: true })
    &&& c.black_castle == (CastleRight { kingside: true, queenside: true })
    &&& c.en_passant is None
    &&& c.turn == Color::White
}

impl Chess {
    /// The standard initial position.
    pub fn new() -> (c: Chess)
        ensures
            spec_initial(c),
            c.wf(),
    {
        proof {
            broadcast use vstd::array::group_array_axioms;
        }
        let mut board: [Square; 64] = [None; 64];
        let mut i: usize = 0;
        while i < 64
            invariant
                i <= 64,
                forall|k: int| 0 <= k < i ==> #[trigger] board@[k] == spec_start_square(k),
                forall|k: int| i <= k < 64 ==> #[trigger] board@[k] is None,
            decreases 64 - i,
        {
            let pos = Position::coordinates(i);
            let row = i / 8;
            let col = i % 8;
            let square: Square = if row == 0 || row == 7 {
                let color = if row == 0 {
                    Color::Black
                } else {
                    Color::White
                };
                let typ = if col == 0 || col == 7 {
                    PieceType::Rook
                } else if col == 1 || col == 6 {
                    PieceType::Knight
                } else if col == 2 || col == 5 {
                    PieceType::Bishop
                } else if col == 3 {
                    PieceType::Queen
                } else {
                    PieceType::King
                };
                Some(Piece { typ, pos, color })
            } else if row == 1 {
                Some(Piece { typ: PieceType::Pawn, pos, color: Color::Black })
            } else if row == 6 {
                Some(Piece { typ: PieceType::Pawn, pos, color: Color::White })
            } else {
                None
            };
            board[i] = square;
            i = i + 1;
        }
        let c = Chess {
            board,
            white_castle: CastleRight { kingside: true, queenside: true },
            black_castle: CastleRight { kingside: true, queenside: true },
            en_passant: None,
            turn: Color::White,
        };
        proof {
            assert forall|k: int| 0 <= k < 64 implies match #[trigger] c.board@[k] {
                Some(piece) => piece.pos == spec_coordinates(k),
                None => true,
            } by {
                assert(c.board@[k] == spec_start_square(k));
            }
        }
        c
    }
}

} // verus!

verus! {

use crate::piece::{
    lemma_king_moves_avoid_kingside_castle, lemma_piece_moves_originate, spec_king_home,
};
use crate::position::{lemma_moves_avoid_concat, moves_avoid};

/// Whether a position is blocked for kingside castling: a square the
/// king must cross is occupied, or the king's current or transit square
/// is attacked.
pub open spec fn spec_kingside_blocked(c: Chess, color: Color) -> bool {
    let home = spec_king_home(color);
    spec_occupied(c.board, home.spec_right(1)) || spec_occupied(c.board, home.spec_right(2))
        || spec_attacked(c.board, home, color) || spec_attacked(
        c.board,
        home.spec_right(1),
        color,
    )
}

proof fn lemma_moves_from_avoid_castle(c: Chess, i: int, color: Color)
    requires
        c.wf(),
        c.turn == color,
        spec_sq(c.board, spec_king_home(color)) == Some(
            Piece { typ: PieceType::King, pos: spec_king_home(color), color },
        ),
        spec_kingside_blocked(c, color),
        0 <= i <= 64,
    ensures
        moves_avoid(spec_moves_from(c, i), spec_king_home(color), spec_king_home(
            color,
        ).spec_right(2)),
    decreases 64 - i,
{
    let home = spec_king_home(color);
    let g = home.spec_right(2);
    if i < 64 {
        lemma_moves_from_avoid_castle(c, i + 1, color);
        let head: Seq<Move> = match c.board@[i] {
            Some(piece) => if piece.color == c.turn {
                spec_piece_moves(c, piece)
            } else {
                Seq::empty()
            },
            None => Seq::empty(),
        };
        if let Some(piece) = c.board@[i] {
            if piece.color == c.turn {
                crate::position::lemma_index_of_coordinates(i);
                crate::position::lemma_coordinates_of_index(home);
                if i == home.sq_index() {
                    assert(piece == (Piece { typ: PieceType::King, pos: home, color }));
                    lemma_king_moves_avoid_kingside_castle(c, piece);
                } else {
                    lemma_piece_moves_originate(c, piece);
                    assert(piece.pos != home);
                    assert(moves_avoid(head, home, g));
                }
            }
        }
        lemma_moves_avoid_concat(head, spec_moves_from(c, i + 1), home, g);
    }
}

proof fn lemma_filter_legal_avoid(c: Chess, s: Seq<Move>, i: int, from: Position, to: Position)
    requires
        moves_avoid(s, from, to),
        0 <= i,
    ensures
        moves_avoid(spec_filter_legal_from(c, s, i), from, to),
    decreases s.len() - i,
{
    if i < s.len() {
        lemma_filter_legal_avoid(c, s, i + 1, from, to);
        let head: Seq<Move> = if spec_move_legal(c, s[i]) {
            seq![s[i]]
        } else {
            Seq::empty()
        };
        assert(moves_avoid(head, from, to));
        lemma_moves_avoid_concat(head, spec_filter_legal_from(c, s, i + 1), from, to);
    }
}

/// Kingside castling is illegal whenever either square the king must
/// cross is occupied, or the king's current or transit square is
/// attacked — even with the castling-right flag still set: with the king
/// of the side to move on its home square, no legal move carries it two
/// files toward the rook.
pub proof fn lemma_kingside_castle_blocked(c: Chess, color: Color)
    requires
        c.wf(),
        c.turn == color,
        spec_sq(c.board, spec_king_home(color)) == Some(
            Piece { typ: PieceType::King, pos: spec_king_home(color), color },
        ),
        spec_kingside_blocked(c, color),
    ensures
        moves_avoid(spec_legal_moves(c), spec_king_home(color), spec_king_home(color).spec_right(
            2,
        )),
{
    lemma_moves_from_avoid_castle(c, 0, color);
    lemma_filter_legal_avoid(
        c,
        spec_gen_moves(c),
        0,
        spec_king_home(color),
        spec_king_home(color).spec_right(2),
    );
}

} // verus!

verus! {

/// An en-passant target lives for exactly one reply: applying any move
/// of a piece either clears the target, or is itself a two-square pawn
/// advance and sets the target to the square the pawn passed over.
pub proof fn lemma_en_passant_lifetime(c: Chess, m: Move)
    requires
        spec_occupied(c.board, m.from),
    ensures
        match c.spec_apply_move(m) {
            Some(after) => after.en_passant is None || (spec_sq(c.board, m.from)->Some_0.typ
                == PieceType::Pawn && (m.from.row - m.to.row == 2 || m.from.row - m.to.row == -2)
                && after.en_passant == Some(m.to.spec_down_color(c.turn, 1))),
            None => true,
        },
{
}

} // verus!

verus! {

/// Castling rights never come back during play: a right that is off
/// before a move is still off after it (the setters only run during
/// initial setup from a position string).
#[verifier::rlimit(100)]
pub proof fn lemma_castle_rights_monotonic(c: Chess, m: Move)
    ensures
        match c.spec_apply_move(m) {
            Some(after) => (after.white_castle.kingside ==> c.white_castle.kingside)
                && (after.white_castle.queenside ==> c.white_castle.queenside)
                && (after.black_castle.kingside ==> c.black_castle.kingside)
                && (after.black_castle.queenside ==> c.black_castle.queenside),
            None => true,
        },
{
}

} // verus!

verus! {

proof fn lemma_filter_legal_sound(c: Chess, s: Seq<Move>, i: int)
    requires
        0 <= i,
    ensures
        forall|k: int|
            0 <= k < spec_filter_legal_from(c, s, i).len() ==> spec_move_legal(
                c,
                #[trigger] spec_filter_legal_from(c, s, i)[k],
            ),
    decreases s.len() - i,
{
    if i < s.len() {
        lemma_filter_legal_sound(c, s, i + 1);
        let head: Seq<Move> = if spec_move_legal(c, s[i]) {
            seq![s[i]]
        } else {
            Seq::empty()
        };
        let rest = spec_filter_legal_from(c, s, i + 1);
        assert forall|k: int| 0 <= k < (head + rest).len() implies spec_move_legal(
            c,
            #[trigger] (head + rest)[k],
        ) by {
            if k < head.len() {
                assert((head + rest)[k] == s[i]);
            } else {
                assert((head + rest)[k] == rest[k - head.len()]);
            }
        }
    }
}

/// The legality filter's guarantee: every legal move applies
/// successfully and leaves the moving side's own king unattacked on the
/// resulting board. In particular a castling king may not land on an
/// attacked destination square.
pub proof fn lemma_legal_moves_leave_no_check(c: Chess)
    ensures
        forall|k: int|
            0 <= k < spec_legal_moves(c).len() ==> spec_move_legal(
                c,
                #[trigger] spec_legal_moves(c)[k],
            ),
{
    lemma_filter_legal_sound(c, spec_gen_moves(c), 0);
}

} // verus!
