use vstd::prelude::*;

use crate::board::{
    spec_occupied, spec_occupied_color, spec_occupied_type_color, Chess, Color, Square,
};
use crate::position::{Move, Position};

verus! {

#[derive(Clone, Copy, PartialEq, Eq, Structural, Debug)]
pub enum PieceType {
    King,
    Queen,
    Rook,
    Bishop,
    Knight,
    Pawn,
}

impl PieceType {
    /// Material value of this piece type.
    pub open spec fn spec_material(self) -> int {
        match self {
            PieceType::King => 20000,
            PieceType::Queen => 900,
            PieceType::Rook => 500,
            PieceType::Bishop => 330,
            PieceType::Knight => 320,
            PieceType::Pawn => 100,
        }
    }

    pub fn evaluate_material(&self) -> (v: i32)
        ensures
            v == self.spec_material(),
    {
        match self {
            PieceType::King => 20000,
            PieceType::Queen => 900,
            PieceType::Rook => 500,
            PieceType::Bishop => 330,
            PieceType::Knight => 320,
            PieceType::Pawn => 100,
        }
    }
}

/// A piece on the board. Its `pos` always matches the board slot that
/// holds it (see `Chess::wf`).
#[derive(Clone, Copy, PartialEq, Eq, Structural, Debug)]
pub struct Piece {
    pub typ: PieceType,
    pub pos: Position,
    pub color: Color,
}

impl Piece {
    pub fn new(typ: PieceType, pos: Position, color: Color) -> (p: Piece)
        ensures
            p == (Piece { typ, pos, color }),
    {
        Piece { typ, pos, color }
    }
}

pub const PAWN_SQUARE_TABLE_WHITE: [i32; 64] = [
    0, 0, 0, 0, 0, 0, 0, 0, 50, 50, 50, 50, 50, 50, 50, 50, 10, 10, 20, 30, 30, 20, 10, 10, 5, 5,
    10, 25, 25, 10, 5, 5, 0, 0, 0, 20, 20, 0, 0, 0, 5, -5, -10, 0, 0, -10, -5, 5, 5, 10, 10, -20,
    -20, 10, 10, 5, 0, 0, 0, 0, 0, 0, 0, 0,
];

pub const PAWN_SQUARE_TABLE_BLACK: [i32; 64] = [
    0, 0, 0, 0, 0, 0, 0, 0, 5, 10, 10, -20, -20, 10, 10, 5, 5, -5, -10, 0, 0, -10, -5, 5, 0, 0, 0,
    20, 20, 0, 0, 0, 5, 5, 10, 25, 25, 10, 5, 5, 10, 10, 20, 30, 30, 20, 10, 10, 50, 50, 50, 50,
    50, 50, 50, 50, 0, 0, 0, 0, 0, 0, 0, 0,
];

pub const KNIGHT_SQUARE_TABLE_WHITE: [i32; 64] = [
    -50, -40, -30, -30, -30, -30, -40, -50, -40, -20, 0, 0, 0, 0, -20, -40, -30, 0, 10, 15, 15, 10,
    0, -30, -30, 5, 15, 20, 20, 15, 5, -30, -30, 0, 15, 20, 20, 15, 0, -30, -30, 5, 10, 15, 15, 10,
    5, -30, -40, -20, 0, 5, 5, 0, -20, -40, -50, -40, -30, -30, -30, -30, -40, -50,
];

pub const KNIGHT_SQUARE_TABLE_BLACK: [i32; 64] = [
    -50, -40, -30, -30, -30, -30, -40, -50, -40, -20, 0, 5, 5, 0, -20, -40, -30, 5, 10, 15, 15, 10,
    5, -30, -30, 0, 15, 20, 20, 15, 0, -30, -30, 5, 15, 20, 20, 15, 5, -30, -30, 0, 10, 15, 15, 10,
    0, -30, -40, -20, 0, 0, 0, 0, -20, -40, -50, -40, -30, -30, -30, -30, -40, -50,
];

pub const BISHOP_SQUARE_TABLE_WHITE: [i32; 64] = [
    -20, -10, -10, -10, -10, -10, -10, -20, -10, 0, 0, 0, 0, 0, 0, -10, -10, 0, 5, 10, 10, 5, 0,
    -10, -10, 5, 5, 10, 10, 5, 5, -10, -10, 0, 10, 10, 10, 10, 0, -10, -10, 10, 10, 10, 10, 10, 10,
    -10, -10, 5, 0, 0, 0, 0, 5, -10, -20, -10, -10, -10, -10, -10, -10, -20,
];

pub const BISHOP_SQUARE_TABLE_BLACK: [i32; 64] = [
    -20, -10, -10, -10, -10, -10, -10, -20, -10, 5, 0, 0, 0, 0, 5, -10, -10, 10, 10, 10, 10, 10,
    10, -10, -10, 0, 10, 10, 10, 10, 0, -10, -10, 5, 5, 10, 10, 5, 5, -10, -10, 0, 5, 10, 10, 5, 0,
    -10, -10, 0, 0, 0, 0, 0, 0, -10, -20, -10, -10, -10, -10, -10, -10, -20,
];

pub const ROOK_SQUARE_TABLE_WHITE: [i32; 64] = [
    0, 0, 0, 0, 0, 0, 0, 0, 5, 10, 10, 10, 10, 10, 10, 5, -5, 0, 0, 0, 0, 0, 0, -5, -5, 0, 0, 0, 0,
    0, 0, -5, -5, 0, 0, 0, 0, 0, 0, -5, -5, 0, 0, 0, 0, 0, 0, -5, -5, 0, 0, 0, 0, 0, 0, -5, 0, 0,
    0, 5, 5, 0, 0, 0,
];

pub const ROOK_SQUARE_TABLE_BLACK: [i32; 64] = [
    0, 0, 0, 5, 5, 0, 0, 0, -5, 0, 0, 0, 0, 0, 0, -5, -5, 0, 0, 0, 0, 0, 0, -5, -5, 0, 0, 0, 0, 0,
    0, -5, -5, 0, 0, 0, 0, 0, 0, -5, -5, 0, 0, 0, 0, 0, 0, -5, 5, 10, 10, 10, 10, 10, 10, 5, 0, 0,
    0, 0, 0, 0, 0, 0,
];

pub const QUEEN_SQUARE_TABLE_WHITE: [i32; 64] = [
    -20, -10, -10, -5, -5, -10, -10, -20, -10, 0, 0, 0, 0, 0, 0, -10, -10, 0, 5, 5, 5, 5, 0, -10,
    -5, 0, 5, 5, 5, 5, 0, -5, 0, 0, 5, 5, 5, 5, 0, -5, -10, 5, 5, 5, 5, 5, 0, -10, -10, 0, 5, 0, 0,
    0, 0, -10, -20, -10, -10, -5, -5, -10, -10, -20,
];

pub const QUEEN_SQUARE_TABLE_BLACK: [i32; 64] = [
    -20, -10, -10, -5, -5, -10, -10, -20, -10, 0, 5, 0, 0, 0, 0, -10, -10, 5, 5, 5, 5, 5, 0, -10,
    0, 0, 5, 5, 5, 5, 0, -5, -5, 0, 5, 5, 5, 5, 0, -5, -10, 0, 5, 5, 5, 5, 0, -10, -10, 0, 0, 0, 0,
    0, 0, -10, -20, -10, -10, -5, -5, -10, -10, -20,
];

pub const KING_SQUARE_TABLE_WHITE: [i32; 64] = [
    -30, -40, -40, -50, -50, -40, -40, -30, -30, -40, -40, -50, -50, -40, -40, -30, -30, -40, -40,
    -50, -50, -40, -40, -30, -30, -40, -40, -50, -50, -40, -40, -30, -20, -30, -30, -40, -40, -30,
    -30, -20, -10, -20, -20, -20, -20, -20, -20, -10, 20, 20, 0, 0, 0, 0, 20, 20, 20, 30, 10, 0, 0,
    10, 30, 20,
];

pub const KING_SQUARE_TABLE_BLACK: [i32; 64] = [
    20, 30, 10, 0, 0, 10, 30, 20, 20, 20, 0, 0, 0, 0, 20, 20, -10, -20, -20, -20, -20, -20, -20,
    -10, -20, -30, -30, -40, -40, -30, -30, -20, -30, -40, -40, -50, -50, -40, -40, -30, -30, -40,
    -40, -50, -50, -40, -40, -30, -30, -40, -40, -50, -50, -40, -40, -30, -30, -40, -40, -50, -50,
    -40, -40, -30,
];

/// The positional bonus table for a piece kind and color.
pub open spec fn spec_square_table(typ: PieceType, color: Color) -> [i32; 64] {
    match (typ, color) {
        (PieceType::King, Color::White) => KING_SQUARE_TABLE_WHITE,
        (PieceType::King, Color::Black) => KING_SQUARE_TABLE_BLACK,
        (PieceType::Queen, Color::White) => QUEEN_SQUARE_TABLE_WHITE,
        (PieceType::Queen, Color::Black) => QUEEN_SQUARE_TABLE_BLACK,
        (PieceType::Rook, Color::White) => ROOK_SQUARE_TABLE_WHITE,
        (PieceType::Rook, Color::Black) => ROOK_SQUARE_TABLE_BLACK,
        (PieceType::Bishop, Color::White) => BISHOP_SQUARE_TABLE_WHITE,
        (PieceType::Bishop, Color::Black) => BISHOP_SQUARE_TABLE_BLACK,
        (PieceType::Knight, Color::White) => KNIGHT_SQUARE_TABLE_WHITE,
        (PieceType::Knight, Color::Black) => KNIGHT_SQUARE_TABLE_BLACK,
        (PieceType::Pawn, Color::White) => PAWN_SQUARE_TABLE_WHITE,
        (PieceType::Pawn, Color::Black) => PAWN_SQUARE_TABLE_BLACK,
    }
}

/// Static evaluation of a piece: its material value plus the positional
/// bonus of the square it stands on.
pub open spec fn spec_piece_value(p: Piece) -> int {
    p.typ.spec_material() + spec_square_table(p.typ, p.color)[p.pos.sq_index()]
}

/// Every entry of every positional table lies in [-50, 50], so a piece's
/// static value lies within its material value plus or minus 50.
pub proof fn lemma_piece_value_bound(p: Piece)
    requires
        p.pos.on_board(),
    ensures
        -20050 <= spec_piece_value(p) <= 20050,
{
    let t = spec_square_table(p.typ, p.color);
    assert(forall|i: int|
        0 <= i < 64 ==> -50 <= #[trigger] KING_SQUARE_TABLE_WHITE[i] <= 50
            && -50 <= #[trigger] KING_SQUARE_TABLE_BLACK[i] <= 50
            && -50 <= #[trigger] QUEEN_SQUARE_TABLE_WHITE[i] <= 50
            && -50 <= #[trigger] QUEEN_SQUARE_TABLE_BLACK[i] <= 50
            && -50 <= #[trigger] ROOK_SQUARE_TABLE_WHITE[i] <= 50
            && -50 <= #[trigger] ROOK_SQUARE_TABLE_BLACK[i] <= 50
            && -50 <= #[trigger] BISHOP_SQUARE_TABLE_WHITE[i] <= 50
            && -50 <= #[trigger] BISHOP_SQUARE_TABLE_BLACK[i] <= 50
            && -50 <= #[trigger] KNIGHT_SQUARE_TABLE_WHITE[i] <= 50
            && -50 <= #[trigger] KNIGHT_SQUARE_TABLE_BLACK[i] <= 50
            && -50 <= #[trigger] PAWN_SQUARE_TABLE_WHITE[i] <= 50
            && -50 <= #[trigger] PAWN_SQUARE_TABLE_BLACK[i] <= 50);
    assert(0 <= p.pos.sq_index() < 64);
    assert(-50 <= t[p.pos.sq_index()] <= 50);
}

impl Piece {
    /// Static evaluation: material value plus positional bonus.
    pub fn evaluate(&self) -> (v: i32)
        requires
            self.pos.on_board(),
        ensures
            v == spec_piece_value(*self),
    {
        let material_value = self.typ.evaluate_material();
        let square_table = match (self.typ, self.color) {
            (PieceType::King, Color::White) => &KING_SQUARE_TABLE_WHITE,
            (PieceType::King, Color::Black) => &KING_SQUARE_TABLE_BLACK,
            (PieceType::Queen, Color::White) => &QUEEN_SQUARE_TABLE_WHITE,
            (PieceType::Queen, Color::Black) => &QUEEN_SQUARE_TABLE_BLACK,
            (PieceType::Rook, Color::White) => &ROOK_SQUARE_TABLE_WHITE,
            (PieceType::Rook, Color::Black) => &ROOK_SQUARE_TABLE_BLACK,
            (PieceType::Bishop, Color::White) => &BISHOP_SQUARE_TABLE_WHITE,
            (PieceType::Bishop, Color::Black) => &BISHOP_SQUARE_TABLE_BLACK,
            (PieceType::Knight, Color::White) => &KNIGHT_SQUARE_TABLE_WHITE,
            (PieceType::Knight, Color::Black) => &KNIGHT_SQUARE_TABLE_BLACK,
            (PieceType::Pawn, Color::White) => &PAWN_SQUARE_TABLE_WHITE,
            (PieceType::Pawn, Color::Black) => &PAWN_SQUARE_TABLE_BLACK,
        };
        proof {
            lemma_piece_value_bound(*self);
        }
        material_value + square_table[self.pos.index()]
    }
}

} // verus!

verus! {

/// A unit direction for ray casting: one of the eight compass steps.
pub open spec fn valid_dir(dr: int, dc: int) -> bool {
    (dr == -1 || dr == 0 || dr == 1) && (dc == -1 || dc == 0 || dc == 1) && !(dr == 0 && dc == 0)
}

/// One step from `p` in direction `(dr, dc)`.
pub open spec fn spec_step(p: Position, dr: int, dc: int) -> Position {
    Position { row: (p.row + dr) as i32, col: (p.col + dc) as i32 }
}

/// Steps remaining before a ray in direction `(dr, dc)` leaves the board:
/// the distance to the edge along the first moving axis.
pub open spec fn ray_measure(p: Position, dr: int, dc: int) -> nat {
    if dr == 1 {
        if p.row <= 7 {
            (8 - p.row) as nat
        } else {
            0
        }
    } else if dr == -1 {
        if p.row >= 0 {
            (p.row + 1) as nat
        } else {
            0
        }
    } else if dc == 1 {
        if p.col <= 7 {
            (8 - p.col) as nat
        } else {
            0
        }
    } else {
        if p.col >= 0 {
            (p.col + 1) as nat
        } else {
            0
        }
    }
}

/// The moves a sliding piece of `color` standing on `from` gets along the
/// ray that currently looks at `cur`: every empty square in order, then a
/// square with an enemy piece (included, ending the ray); a friendly piece
/// or the board edge ends the ray without being included.
pub open spec fn spec_ray_moves(
    board: [Square; 64],
    from: Position,
    cur: Position,
    dr: int,
    dc: int,
    color: Color,
) -> Seq<Move>
    decreases ray_measure(cur, dr, dc),
    when valid_dir(dr, dc)
{
    if !cur.on_board() || spec_occupied_color(board, cur, color) {
        Seq::empty()
    } else if spec_occupied_color(board, cur, color.spec_opposite()) {
        seq![Move { from, to: cur, prom: None }]
    } else {
        seq![Move { from, to: cur, prom: None }] + spec_ray_moves(
            board,
            from,
            spec_step(cur, dr, dc),
            dr,
            dc,
            color,
        )
    }
}

/// The (zero or one) moves of a jumping piece of `color` from `from` to
/// the candidate square `t`: offered when `t` is on the board and not
/// held by a friendly piece.
pub open spec fn spec_jump_move(
    board: [Square; 64],
    from: Position,
    t: Position,
    color: Color,
) -> Seq<Move> {
    if t.on_board() && !spec_occupied_color(board, t, color) {
        seq![Move { from, to: t, prom: None }]
    } else {
        Seq::empty()
    }
}

/// The eight single-step king moves, in generation order.
pub open spec fn spec_king_jump_moves(board: [Square; 64], p: Position, color: Color) -> Seq<
    Move,
> {
    spec_jump_move(board, p, p.spec_up(1), color) + spec_jump_move(board, p, p.spec_down(1), color)
        + spec_jump_move(board, p, p.spec_left(1), color) + spec_jump_move(
        board,
        p,
        p.spec_right(1),
        color,
    ) + spec_jump_move(board, p, p.spec_up(1).spec_right(1), color) + spec_jump_move(
        board,
        p,
        p.spec_down(1).spec_right(1),
        color,
    ) + spec_jump_move(board, p, p.spec_down(1).spec_left(1), color) + spec_jump_move(
        board,
        p,
        p.spec_up(1).spec_left(1),
        color,
    )
}

/// The eight knight moves, in generation order.
pub open spec fn spec_knight_jump_moves(board: [Square; 64], p: Position, color: Color) -> Seq<
    Move,
> {
    spec_jump_move(board, p, p.spec_up(2).spec_left(1), color) + spec_jump_move(
        board,
        p,
        p.spec_up(2).spec_right(1),
        color,
    ) + spec_jump_move(board, p, p.spec_right(2).spec_up(1), color) + spec_jump_move(
        board,
        p,
        p.spec_right(2).spec_down(1),
        color,
    ) + spec_jump_move(board, p, p.spec_down(2).spec_left(1), color) + spec_jump_move(
        board,
        p,
        p.spec_down(2).spec_right(1),
        color,
    ) + spec_jump_move(board, p, p.spec_left(2).spec_up(1), color) + spec_jump_move(
        board,
        p,
        p.spec_left(2).spec_down(1),
        color,
    )
}

/// Whether the candidate square `t` holds an enemy piece of type `typ`
/// attacking the side of `color`.
pub open spec fn spec_jump_attack(
    board: [Square; 64],
    t: Position,
    typ: PieceType,
    color: Color,
) -> bool {
    t.on_board() && spec_occupied_type_color(board, t, typ, color.spec_opposite())
}

/// Whether a sliding enemy piece attacks along the ray looking at `cur`:
/// the ray walks empty squares and hits an enemy of type `typ` or an
/// enemy queen; any other occupant or the board edge stops it.
pub open spec fn spec_ray_attack(
    board: [Square; 64],
    cur: Position,
    dr: int,
    dc: int,
    typ: PieceType,
    color: Color,
) -> bool
    decreases ray_measure(cur, dr, dc),
    when valid_dir(dr, dc)
{
    if !cur.on_board() || spec_occupied_color(board, cur, color) {
        false
    } else if spec_occupied_type_color(board, cur, typ, color.spec_opposite())
        || spec_occupied_type_color(board, cur, PieceType::Queen, color.spec_opposite()) {
        true
    } else if spec_occupied_color(board, cur, color.spec_opposite()) {
        false
    } else {
        spec_ray_attack(board, spec_step(cur, dr, dc), dr, dc, typ, color)
    }
}

/// Whether the square `p`, held by the side of `color`, is attacked by
/// any enemy piece: enemy pawns on the two squares a pawn would attack
/// from, enemy knights on the knight squares, the enemy king on an
/// adjacent square, or an enemy bishop/rook/queen along a clear ray.
pub open spec fn spec_attacked(board: [Square; 64], p: Position, color: Color) -> bool {
    spec_jump_attack(board, p.spec_up_color(color, 1).spec_left(1), PieceType::Pawn, color)
        || spec_jump_attack(board, p.spec_up_color(color, 1).spec_right(1), PieceType::Pawn, color)
        || spec_jump_attack(board, p.spec_up(2).spec_left(1), PieceType::Knight, color)
        || spec_jump_attack(board, p.spec_up(2).spec_right(1), PieceType::Knight, color)
        || spec_jump_attack(board, p.spec_right(2).spec_up(1), PieceType::Knight, color)
        || spec_jump_attack(board, p.spec_right(2).spec_down(1), PieceType::Knight, color)
        || spec_jump_attack(board, p.spec_down(2).spec_left(1), PieceType::Knight, color)
        || spec_jump_attack(board, p.spec_down(2).spec_right(1), PieceType::Knight, color)
        || spec_jump_attack(board, p.spec_left(2).spec_up(1), PieceType::Knight, color)
        || spec_jump_attack(board, p.spec_left(2).spec_down(1), PieceType::Knight, color)
        || spec_jump_attack(board, p.spec_up(1).spec_right(1), PieceType::King, color)
        || spec_jump_attack(board, p.spec_down(1).spec_right(1), PieceType::King, color)
        || spec_jump_attack(board, p.spec_down(1).spec_left(1), PieceType::King, color)
        || spec_jump_attack(board, p.spec_up(1).spec_left(1), PieceType::King, color)
        || spec_jump_attack(board, p.spec_up(1), PieceType::King, color)
        || spec_jump_attack(board, p.spec_down(1), PieceType::King, color)
        || spec_jump_attack(board, p.spec_left(1), PieceType::King, color)
        || spec_jump_attack(board, p.spec_right(1), PieceType::King, color)
        || spec_ray_attack(board, p.spec_up(1).spec_right(1), -1, 1, PieceType::Bishop, color)
        || spec_ray_attack(board, p.spec_down(1).spec_right(1), 1, 1, PieceType::Bishop, color)
        || spec_ray_attack(board, p.spec_down(1).spec_left(1), 1, -1, PieceType::Bishop, color)
        || spec_ray_attack(board, p.spec_up(1).spec_left(1), -1, -1, PieceType::Bishop, color)
        || spec_ray_attack(board, p.spec_up(1), -1, 0, PieceType::Rook, color)
        || spec_ray_attack(board, p.spec_down(1), 1, 0, PieceType::Rook, color)
        || spec_ray_attack(board, p.spec_left(1), 0, -1, PieceType::Rook, color)
        || spec_ray_attack(board, p.spec_right(1), 0, 1, PieceType::Rook, color)
}

/// Whether the candidate square holds an enemy piece of the given type.
fn jump_attack_check(board: &[Square; 64], t: Position, typ: PieceType, color: Color) -> (r: bool)
    ensures
        r == spec_jump_attack(*board, t, typ, color),
{
    t.is_on_board() && t.is_there_a_piece_type_color(board, typ, color.opposite())
}

/// Walk one attack ray, mirroring `spec_ray_attack`.
fn ray_attacked(board: &[Square; 64], cur: Position, dr: i32, dc: i32, typ: PieceType, color: Color)
    -> (r: bool)
    requires
        valid_dir(dr as int, dc as int),
    ensures
        r == spec_ray_attack(*board, cur, dr as int, dc as int, typ, color),
    decreases ray_measure(cur, dr as int, dc as int),
{
    if cur.is_on_board() && !cur.is_there_a_piece_color(board, color) {
        if cur.is_there_a_piece_type_color(board, typ, color.opposite())
            || cur.is_there_a_piece_type_color(board, PieceType::Queen, color.opposite()) {
            true
        } else if cur.is_there_a_piece_color(board, color.opposite()) {
            false
        } else {
            ray_attacked(board, Position::new(cur.row + dr, cur.col + dc), dr, dc, typ, color)
        }
    } else {
        false
    }
}

impl Piece {
    /// Whether any enemy piece attacks this piece's square. Used for
    /// check detection on the king and for castling transit safety.
    pub fn am_i_being_attacked(&self, board: &[Square; 64]) -> (r: bool)
        requires
            self.pos.on_board(),
        ensures
            r == spec_attacked(*board, self.pos, self.color),
    {
        let p = self.pos;
        let color = self.color;
        let pawn_left = p.up_color(color, 1).left(1);
        let pawn_right = p.up_color(color, 1).right(1);
        if jump_attack_check(board, pawn_left, PieceType::Pawn, color) {
            return true;
        }
        if jump_attack_check(board, pawn_right, PieceType::Pawn, color) {
            return true;
        }
        if jump_attack_check(board, p.up(2).left(1), PieceType::Knight, color) {
            return true;
        }
        if jump_attack_check(board, p.up(2).right(1), PieceType::Knight, color) {
            return true;
        }
        if jump_attack_check(board, p.right(2).up(1), PieceType::Knight, color) {
            return true;
        }
        if jump_attack_check(board, p.right(2).down(1), PieceType::Knight, color) {
            return true;
        }
        if jump_attack_check(board, p.down(2).left(1), PieceType::Knight, color) {
            return true;
        }
        if jump_attack_check(board, p.down(2).right(1), PieceType::Knight, color) {
            return true;
        }
        if jump_attack_check(board, p.left(2).up(1), PieceType::Knight, color) {
            return true;
        }
        if jump_attack_check(board, p.left(2).down(1), PieceType::Knight, color) {
            return true;
        }
        if jump_attack_check(board, p.up(1).right(1), PieceType::King, color) {
            return true;
        }
        if jump_attack_check(board, p.down(1).right(1), PieceType::King, color) {
            return true;
        }
        if jump_attack_check(board, p.down(1).left(1), PieceType::King, color) {
            return true;
        }
        if jump_attack_check(board, p.up(1).left(1), PieceType::King, color) {
            return true;
        }
        if jump_attack_check(board, p.up(1), PieceType::King, color) {
            return true;
        }
        if jump_attack_check(board, p.down(1), PieceType::King, color) {
            return true;
        }
        if jump_attack_check(board, p.left(1), PieceType::King, color) {
            return true;
        }
        if jump_attack_check(board, p.right(1), PieceType::King, color) {
            return true;
        }
        if ray_attacked(board, p.up(1).right(1), -1, 1, PieceType::Bishop, color) {
            return true;
        }
        if ray_attacked(board, p.down(1).right(1), 1, 1, PieceType::Bishop, color) {
            return true;
        }
        if ray_attacked(board, p.down(1).left(1), 1, -1, PieceType::Bishop, color) {
            return true;
        }
        if ray_attacked(board, p.up(1).left(1), -1, -1, PieceType::Bishop, color) {
            return true;
        }
        if ray_attacked(board, p.up(1), -1, 0, PieceType::Rook, color) {
            return true;
        }
        if ray_attacked(board, p.down(1), 1, 0, PieceType::Rook, color) {
            return true;
        }
        if ray_attacked(board, p.left(1), 0, -1, PieceType::Rook, color) {
            return true;
        }
        if ray_attacked(board, p.right(1), 0, 1, PieceType::Rook, color) {
            return true;
        }
        false
    }
}

} // verus!

verus! {

/// Kingside castling pre-check: the two transit squares exist on the
/// board and are empty, and neither the king's square nor the square it
/// passes through is attacked. (Destination-square safety is enforced by
/// the generic legality filter, not here.)
pub open spec fn spec_kingside_clear(chess: Chess, p: Position, color: Color) -> bool {
    &&& p.spec_right(1).on_board()
    &&& p.spec_right(2).on_board()
    &&& !spec_occupied(chess.board, p.spec_right(1))
    &&& !spec_occupied(chess.board, p.spec_right(2))
    &&& !spec_attacked(chess.board, p, color)
    &&& !spec_attacked(chess.board, p.spec_right(1), color)
}

/// Queenside castling pre-check: the three squares between king and rook
/// exist and are empty, and neither the king's square nor its transit
/// square is attacked.
pub open spec fn spec_queenside_clear(chess: Chess, p: Position, color: Color) -> bool {
    &&& p.spec_left(1).on_board()
    &&& p.spec_left(2).on_board()
    &&& p.spec_left(3).on_board()
    &&& !spec_occupied(chess.board, p.spec_left(1))
    &&& !spec_occupied(chess.board, p.spec_left(2))
    &&& !spec_occupied(chess.board, p.spec_left(3))
    &&& !spec_attacked(chess.board, p, color)
    &&& !spec_attacked(chess.board, p.spec_left(1), color)
}

/// The castling candidate moves of the king on `p`, gated on the side to
/// move still holding the matching right and the pre-checks above.
pub open spec fn spec_castle_moves(chess: Chess, p: Position, color: Color) -> Seq<Move> {
    let castle_right = if chess.turn == Color::White {
        chess.white_castle
    } else {
        chess.black_castle
    };
    if castle_right.kingside || castle_right.queenside {
        (if castle_right.kingside && spec_kingside_clear(chess, p, color) {
            seq![Move { from: p, to: p.spec_right(2), prom: None }]
        } else {
            Seq::empty()
        }) + (if castle_right.queenside && spec_queenside_clear(chess, p, color) {
            seq![Move { from: p, to: p.spec_left(2), prom: None }]
        } else {
            Seq::empty()
        })
    } else {
        Seq::empty()
    }
}

/// The pawn moves from `p`: a single push onto an empty square (turning
/// into the four promotion moves on the last rank), a double push from
/// the starting rank over two empty squares, and the two diagonal
/// captures onto an enemy piece or the active en-passant target.
pub open spec fn spec_pawn_moves(chess: Chess, p: Position, color: Color) -> Seq<Move> {
    let up_one = p.spec_up_color(color, 1);
    let up_two = p.spec_up_color(color, 2);
    let cap_right = up_one.spec_right(1);
    let cap_left = up_one.spec_left(1);
    let forward: Seq<Move> = if up_one.on_board() && !spec_occupied(chess.board, up_one) {
        if up_one.spec_pawn_promotion(color) {
            seq![
                Move { from: p, to: up_one, prom: Some(PieceType::Queen) },
                Move { from: p, to: up_one, prom: Some(PieceType::Rook) },
                Move { from: p, to: up_one, prom: Some(PieceType::Bishop) },
                Move { from: p, to: up_one, prom: Some(PieceType::Knight) },
            ]
        } else {
            seq![Move { from: p, to: up_one, prom: None }] + (if up_two.on_board()
                && !spec_occupied(chess.board, up_two) && p.spec_pawn_start(color) {
                seq![Move { from: p, to: up_two, prom: None }]
            } else {
                Seq::empty()
            })
        }
    } else {
        Seq::empty()
    };
    let right_cap: Seq<Move> = if cap_right.on_board() && (spec_occupied_color(
        chess.board,
        cap_right,
        color.spec_opposite(),
    ) || chess.en_passant == Some(cap_right)) {
        seq![Move { from: p, to: cap_right, prom: None }]
    } else {
        Seq::empty()
    };
    let left_cap: Seq<Move> = if cap_left.on_board() && (spec_occupied_color(
        chess.board,
        cap_left,
        color.spec_opposite(),
    ) || chess.en_passant == Some(cap_left)) {
        seq![Move { from: p, to: cap_left, prom: None }]
    } else {
        Seq::empty()
    };
    forward + right_cap + left_cap
}

/// The pseudo-legal moves of a piece, in generation order.
pub open spec fn spec_piece_moves(chess: Chess, piece: Piece) -> Seq<Move> {
    let b = chess.board;
    let p = piece.pos;
    let c = piece.color;
    match piece.typ {
        PieceType::King => spec_king_jump_moves(b, p, c) + spec_castle_moves(chess, p, c),
        PieceType::Queen => spec_ray_moves(b, p, p.spec_up(1), -1, 0, c) + spec_ray_moves(
            b,
            p,
            p.spec_down(1),
            1,
            0,
            c,
        ) + spec_ray_moves(b, p, p.spec_left(1), 0, -1, c) + spec_ray_moves(
            b,
            p,
            p.spec_right(1),
            0,
            1,
            c,
        ) + spec_ray_moves(b, p, p.spec_up(1).spec_right(1), -1, 1, c) + spec_ray_moves(
            b,
            p,
            p.spec_down(1).spec_right(1),
            1,
            1,
            c,
        ) + spec_ray_moves(b, p, p.spec_down(1).spec_left(1), 1, -1, c) + spec_ray_moves(
            b,
            p,
            p.spec_up(1).spec_left(1),
            -1,
            -1,
            c,
        ),
        PieceType::Rook => spec_ray_moves(b, p, p.spec_up(1), -1, 0, c) + spec_ray_moves(
            b,
            p,
            p.spec_down(1),
            1,
            0,
            c,
        ) + spec_ray_moves(b, p, p.spec_left(1), 0, -1, c) + spec_ray_moves(
            b,
            p,
            p.spec_right(1),
            0,
            1,
            c,
        ),
        PieceType::Bishop => spec_ray_moves(b, p, p.spec_up(1).spec_right(1), -1, 1, c)
            + spec_ray_moves(b, p, p.spec_down(1).spec_right(1), 1, 1, c) + spec_ray_moves(
            b,
            p,
            p.spec_down(1).spec_left(1),
            1,
            -1,
            c,
        ) + spec_ray_moves(b, p, p.spec_up(1).spec_left(1), -1, -1, c),
        PieceType::Knight => spec_knight_jump_moves(b, p, c),
        PieceType::Pawn => spec_pawn_moves(chess, p, c),
    }
}

/// Append the jump move onto `t` (if offered) to `moves`.
fn push_jump_move(board: &[Square; 64], from: Position, t: Position, color: Color, moves: &mut Vec<
    Move,
>)
    ensures
        final(moves)@ == old(moves)@ + spec_jump_move(*board, from, t, color),
{
    if t.is_on_board() && !t.is_there_a_piece_color(board, color) {
        moves.push(Move { from, to: t, prom: None });
    } else {
        assert(final(moves)@ =~= old(moves)@ + spec_jump_move(*board, from, t, color));
    }
}

/// Append the moves of one ray to `moves`, mirroring `spec_ray_moves`.
fn push_ray_moves(
    board: &[Square; 64],
    from: Position,
    cur: Position,
    dr: i32,
    dc: i32,
    color: Color,
    moves: &mut Vec<Move>,
)
    requires
        valid_dir(dr as int, dc as int),
    ensures
        final(moves)@ == old(moves)@ + spec_ray_moves(*board, from, cur, dr as int, dc as int, color),
    decreases ray_measure(cur, dr as int, dc as int),
{
    if cur.is_on_board() && !cur.is_there_a_piece_color(board, color) {
        moves.push(Move { from, to: cur, prom: None });
        if !cur.is_there_a_piece_color(board, color.opposite()) {
            push_ray_moves(board, from, Position::new(cur.row + dr, cur.col + dc), dr, dc, color, moves);
            assert(final(moves)@ =~= old(moves)@ + spec_ray_moves(
                *board,
                from,
                cur,
                dr as int,
                dc as int,
                color,
            ));
        }
    } else {
        assert(final(moves)@ =~= old(moves)@ + spec_ray_moves(
            *board,
            from,
            cur,
            dr as int,
            dc as int,
            color,
        ));
    }
}

impl Piece {
    /// This piece shifted `num` files to the right; used to test the
    /// castling transit square for attacks.
    fn piece_right(self, num: i32) -> (r: Piece)
        requires
            i32::MIN <= self.pos.col + num <= i32::MAX,
        ensures
            r == (Piece { pos: self.pos.spec_right(num as int), ..self }),
    {
        Piece { pos: self.pos.right(num), ..self }
    }

    /// This piece shifted `num` files to the left.
    fn piece_left(self, num: i32) -> (r: Piece)
        requires
            i32::MIN <= self.pos.col - num <= i32::MAX,
        ensures
            r == (Piece { pos: self.pos.spec_left(num as int), ..self }),
    {
        Piece { pos: self.pos.left(num), ..self }
    }

    /// The pseudo-legal moves of this piece on the given position, in
    /// generation order.
    pub fn gen_moves(&self, chess: &Chess) -> (moves: Vec<Move>)
        requires
            self.pos.on_board(),
        ensures
            moves@ == spec_piece_moves(*chess, *self),
    {
        let mut moves: Vec<Move> = Vec::new();
        let p = self.pos;
        let color = self.color;
        match self.typ {
            PieceType::King => {
                push_jump_move(&chess.board, p, p.up(1), color, &mut moves);
                push_jump_move(&chess.board, p, p.down(1), color, &mut moves);
                push_jump_move(&chess.board, p, p.left(1), color, &mut moves);
                push_jump_move(&chess.board, p, p.right(1), color, &mut moves);
                push_jump_move(&chess.board, p, p.up(1).right(1), color, &mut moves);
                push_jump_move(&chess.board, p, p.down(1).right(1), color, &mut moves);
                push_jump_move(&chess.board, p, p.down(1).left(1), color, &mut moves);
                push_jump_move(&chess.board, p, p.up(1).left(1), color, &mut moves);
                assert(moves@ =~= spec_king_jump_moves(chess.board, p, color));
                let castle_right = if chess.turn == Color::White {
                    chess.white_castle
                } else {
                    chess.black_castle
                };
                if castle_right.can_castle() {
                    if castle_right.can_kingside_castle() && p.right(1).is_on_board()
                        && p.right(2).is_on_board()
                        && !p.right(1).is_there_a_piece(&chess.board)
                        && !p.right(2).is_there_a_piece(&chess.board)
                        && !self.am_i_being_attacked(&chess.board)
                        && !self.piece_right(1).am_i_being_attacked(&chess.board) {
                        moves.push(Move { from: p, to: p.right(2), prom: None });
                    }
                    if castle_right.can_queenside_castle() && p.left(1).is_on_board()
                        && p.left(2).is_on_board() && p.left(3).is_on_board()
                        && !p.left(1).is_there_a_piece(&chess.board)
                        && !p.left(2).is_there_a_piece(&chess.board)
                        && !p.left(3).is_there_a_piece(&chess.board)
                        && !self.am_i_being_attacked(&chess.board)
                        && !self.piece_left(1).am_i_being_attacked(&chess.board) {
                        moves.push(Move { from: p, to: p.left(2), prom: None });
                    }
                }
                assert(moves@ =~= spec_piece_moves(*chess, *self));
            },
            PieceType::Queen => {
                push_ray_moves(&chess.board, p, p.up(1), -1, 0, color, &mut moves);
                push_ray_moves(&chess.board, p, p.down(1), 1, 0, color, &mut moves);
                push_ray_moves(&chess.board, p, p.left(1), 0, -1, color, &mut moves);
                push_ray_moves(&chess.board, p, p.right(1), 0, 1, color, &mut moves);
                push_ray_moves(&chess.board, p, p.up(1).right(1), -1, 1, color, &mut moves);
                push_ray_moves(&chess.board, p, p.down(1).right(1), 1, 1, color, &mut moves);
                push_ray_moves(&chess.board, p, p.down(1).left(1), 1, -1, color, &mut moves);
                push_ray_moves(&chess.board, p, p.up(1).left(1), -1, -1, color, &mut moves);
                assert(moves@ =~= spec_piece_moves(*chess, *self));
            },
            PieceType::Rook => {
                push_ray_moves(&chess.board, p, p.up(1), -1, 0, color, &mut moves);
                push_ray_moves(&chess.board, p, p.down(1), 1, 0, color, &mut moves);
                push_ray_moves(&chess.board, p, p.left(1), 0, -1, color, &mut moves);
                push_ray_moves(&chess.board, p, p.right(1), 0, 1, color, &mut moves);
                assert(moves@ =~= spec_piece_moves(*chess, *self));
            },
            PieceType::Bishop => {
                push_ray_moves(&chess.board, p, p.up(1).right(1), -1, 1, color, &mut moves);
                push_ray_moves(&chess.board, p, p.down(1).right(1), 1, 1, color, &mut moves);
                push_ray_moves(&chess.board, p, p.down(1).left(1), 1, -1, color, &mut moves);
                push_ray_moves(&chess.board, p, p.up(1).left(1), -1, -1, color, &mut moves);
                assert(moves@ =~= spec_piece_moves(*chess, *self));
            },
            PieceType::Knight => {
                push_jump_move(&chess.board, p, p.up(2).left(1), color, &mut moves);
                push_jump_move(&chess.board, p, p.up(2).right(1), color, &mut moves);
                push_jump_move(&chess.board, p, p.right(2).up(1), color, &mut moves);
                push_jump_move(&chess.board, p, p.right(2).down(1), color, &mut moves);
                push_jump_move(&chess.board, p, p.down(2).left(1), color, &mut moves);
                push_jump_move(&chess.board, p, p.down(2).right(1), color, &mut moves);
                push_jump_move(&chess.board, p, p.left(2).up(1), color, &mut moves);
                push_jump_move(&chess.board, p, p.left(2).down(1), color, &mut moves);
                assert(moves@ =~= spec_piece_moves(*chess, *self));
            },
            PieceType::Pawn => {
                let up_one = p.up_color(color, 1);
                let up_two = p.up_color(color, 2);
                let cap_right = up_one.right(1);
                let cap_left = up_one.left(1);
                if up_one.is_on_board() && !up_one.is_there_a_piece(&chess.board) {
                    if up_one.is_pawn_promotion_pos(color) {
                        moves.push(Move { from: p, to: up_one, prom: Some(PieceType::Queen) });
                        moves.push(Move { from: p, to: up_one, prom: Some(PieceType::Rook) });
                        moves.push(Move { from: p, to: up_one, prom: Some(PieceType::Bishop) });
                        moves.push(Move { from: p, to: up_one, prom: Some(PieceType::Knight) });
                    } else {
                        moves.push(Move { from: p, to: up_one, prom: None });
                        if up_two.is_on_board() && !up_two.is_there_a_piece(&chess.board)
                            && p.is_pawn_starting_pos(color) {
                            moves.push(Move { from: p, to: up_two, prom: None });
                        }
                    }
                }
                if cap_right.is_on_board() && (cap_right.is_there_a_piece_color(
                    &chess.board,
                    color.opposite(),
                ) || cap_right.can_en_passant(chess.en_passant)) {
                    moves.push(Move { from: p, to: cap_right, prom: None });
                }
                if cap_left.is_on_board() && (cap_left.is_there_a_piece_color(
                    &chess.board,
                    color.opposite(),
                ) || cap_left.can_en_passant(chess.en_passant)) {
                    moves.push(Move { from: p, to: cap_left, prom: None });
                }
                assert(moves@ =~= spec_piece_moves(*chess, *self));
            },
        }
        moves
    }
}

} // verus!

verus! {

use crate::position::{lemma_moves_on_board_concat, moves_on_board};

proof fn lemma_ray_moves_on_board(
    board: [Square; 64],
    from: Position,
    cur: Position,
    dr: int,
    dc: int,
    color: Color,
)
    requires
        valid_dir(dr, dc),
        from.on_board(),
    ensures
        moves_on_board(spec_ray_moves(board, from, cur, dr, dc, color)),
    decreases ray_measure(cur, dr, dc),
{
    if cur.on_board() && !spec_occupied_color(board, cur, color) {
        if !spec_occupied_color(board, cur, color.spec_opposite()) {
            lemma_ray_moves_on_board(board, from, spec_step(cur, dr, dc), dr, dc, color);
            lemma_moves_on_board_concat(
                seq![Move { from, to: cur, prom: None }],
                spec_ray_moves(board, from, spec_step(cur, dr, dc), dr, dc, color),
            );
        }
    }
}

/// Every pseudo-legal move of a piece standing on the board has both of
/// its endpoints on the board.
proof fn lemma_jump_move_on_board(board: [Square; 64], from: Position, t: Position, color: Color)
    requires
        from.on_board(),
    ensures
        moves_on_board(spec_jump_move(board, from, t, color)),
{
}

proof fn lemma_king_jump_moves_on_board(b: [Square; 64], p: Position, c: Color)
    requires
        p.on_board(),
    ensures
        moves_on_board(spec_king_jump_moves(b, p, c)),
{
    let j1 = spec_jump_move(b, p, p.spec_up(1), c);
    let j2 = spec_jump_move(b, p, p.spec_down(1), c);
    let j3 = spec_jump_move(b, p, p.spec_left(1), c);
    let j4 = spec_jump_move(b, p, p.spec_right(1), c);
    let j5 = spec_jump_move(b, p, p.spec_up(1).spec_right(1), c);
    let j6 = spec_jump_move(b, p, p.spec_down(1).spec_right(1), c);
    let j7 = spec_jump_move(b, p, p.spec_down(1).spec_left(1), c);
    let j8 = spec_jump_move(b, p, p.spec_up(1).spec_left(1), c);
    lemma_moves_on_board_concat(j1, j2);
    lemma_moves_on_board_concat(j1 + j2, j3);
    lemma_moves_on_board_concat(j1 + j2 + j3, j4);
    lemma_moves_on_board_concat(j1 + j2 + j3 + j4, j5);
    lemma_moves_on_board_concat(j1 + j2 + j3 + j4 + j5, j6);
    lemma_moves_on_board_concat(j1 + j2 + j3 + j4 + j5 + j6, j7);
    lemma_moves_on_board_concat(j1 + j2 + j3 + j4 + j5 + j6 + j7, j8);
}

proof fn lemma_knight_jump_moves_on_board(b: [Square; 64], p: Position, c: Color)
    requires
        p.on_board(),
    ensures
        moves_on_board(spec_knight_jump_moves(b, p, c)),
{
    let j1 = spec_jump_move(b, p, p.spec_up(2).spec_left(1), c);
    let j2 = spec_jump_move(b, p, p.spec_up(2).spec_right(1), c);
    let j3 = spec_jump_move(b, p, p.spec_right(2).spec_up(1), c);
    let j4 = spec_jump_move(b, p, p.spec_right(2).spec_down(1), c);
    let j5 = spec_jump_move(b, p, p.spec_down(2).spec_left(1), c);
    let j6 = spec_jump_move(b, p, p.spec_down(2).spec_right(1), c);
    let j7 = spec_jump_move(b, p, p.spec_left(2).spec_up(1), c);
    let j8 = spec_jump_move(b, p, p.spec_left(2).spec_down(1), c);
    lemma_moves_on_board_concat(j1, j2);
    lemma_moves_on_board_concat(j1 + j2, j3);
    lemma_moves_on_board_concat(j1 + j2 + j3, j4);
    lemma_moves_on_board_concat(j1 + j2 + j3 + j4, j5);
    lemma_moves_on_board_concat(j1 + j2 + j3 + j4 + j5, j6);
    lemma_moves_on_board_concat(j1 + j2 + j3 + j4 + j5 + j6, j7);
    lemma_moves_on_board_concat(j1 + j2 + j3 + j4 + j5 + j6 + j7, j8);
}

proof fn lemma_castle_moves_on_board(chess: Chess, p: Position, c: Color)
    requires
        p.on_board(),
    ensures
        moves_on_board(spec_castle_moves(chess, p, c)),
{
    let castle_right = if chess.turn == Color::White {
        chess.white_castle
    } else {
        chess.black_castle
    };
    if castle_right.kingside || castle_right.queenside {
        let ks: Seq<Move> = if castle_right.kingside && spec_kingside_clear(chess, p, c) {
            seq![Move { from: p, to: p.spec_right(2), prom: None }]
        } else {
            Seq::empty()
        };
        let qs: Seq<Move> = if castle_right.queenside && spec_queenside_clear(chess, p, c) {
            seq![Move { from: p, to: p.spec_left(2), prom: None }]
        } else {
            Seq::empty()
        };
        assert(moves_on_board(ks));
        assert(moves_on_board(qs));
        lemma_moves_on_board_concat(ks, qs);
    }
}

proof fn lemma_pawn_moves_on_board(chess: Chess, p: Position, c: Color)
    requires
        p.on_board(),
    ensures
        moves_on_board(spec_pawn_moves(chess, p, c)),
{
    let up_one = p.spec_up_color(c, 1);
    let up_two = p.spec_up_color(c, 2);
    let cap_right = up_one.spec_right(1);
    let cap_left = up_one.spec_left(1);
    let forward: Seq<Move> = if up_one.on_board() && !spec_occupied(chess.board, up_one) {
        if up_one.spec_pawn_promotion(c) {
            seq![
                Move { from: p, to: up_one, prom: Some(PieceType::Queen) },
                Move { from: p, to: up_one, prom: Some(PieceType::Rook) },
                Move { from: p, to: up_one, prom: Some(PieceType::Bishop) },
                Move { from: p, to: up_one, prom: Some(PieceType::Knight) },
            ]
        } else {
            seq![Move { from: p, to: up_one, prom: None }] + (if up_two.on_board()
                && !spec_occupied(chess.board, up_two) && p.spec_pawn_start(c) {
                seq![Move { from: p, to: up_two, prom: None }]
            } else {
                Seq::empty()
            })
        }
    } else {
        Seq::empty()
    };
    let right_cap: Seq<Move> = if cap_right.on_board() && (spec_occupied_color(
        chess.board,
        cap_right,
        c.spec_opposite(),
    ) || chess.en_passant == Some(cap_right)) {
        seq![Move { from: p, to: cap_right, prom: None }]
    } else {
        Seq::empty()
    };
    let left_cap: Seq<Move> = if cap_left.on_board() && (spec_occupied_color(
        chess.board,
        cap_left,
        c.spec_opposite(),
    ) || chess.en_passant == Some(cap_left)) {
        seq![Move { from: p, to: cap_left, prom: None }]
    } else {
        Seq::empty()
    };
    assert(moves_on_board(forward));
    assert(moves_on_board(right_cap));
    assert(moves_on_board(left_cap));
    lemma_moves_on_board_concat(forward, right_cap);
    lemma_moves_on_board_concat(forward + right_cap, left_cap);
}

/// Every pseudo-legal move of a piece standing on the board has both of
/// its endpoints on the board.
pub proof fn lemma_piece_moves_on_board(chess: Chess, piece: Piece)
    requires
        piece.pos.on_board(),
    ensures
        moves_on_board(spec_piece_moves(chess, piece)),
{
    let b = chess.board;
    let p = piece.pos;
    let c = piece.color;
    match piece.typ {
        PieceType::King => {
            lemma_king_jump_moves_on_board(b, p, c);
            lemma_castle_moves_on_board(chess, p, c);
            lemma_moves_on_board_concat(
                spec_king_jump_moves(b, p, c),
                spec_castle_moves(chess, p, c),
            );
        },
        PieceType::Queen => {
            lemma_ray_moves_on_board(b, p, p.spec_up(1), -1, 0, c);
            lemma_ray_moves_on_board(b, p, p.spec_down(1), 1, 0, c);
            lemma_ray_moves_on_board(b, p, p.spec_left(1), 0, -1, c);
            lemma_ray_moves_on_board(b, p, p.spec_right(1), 0, 1, c);
            lemma_ray_moves_on_board(b, p, p.spec_up(1).spec_right(1), -1, 1, c);
            lemma_ray_moves_on_board(b, p, p.spec_down(1).spec_right(1), 1, 1, c);
            lemma_ray_moves_on_board(b, p, p.spec_down(1).spec_left(1), 1, -1, c);
            lemma_ray_moves_on_board(b, p, p.spec_up(1).spec_left(1), -1, -1, c);
            let s1 = spec_ray_moves(b, p, p.spec_up(1), -1, 0, c);
            let s2 = spec_ray_moves(b, p, p.spec_down(1), 1, 0, c);
            let s3 = spec_ray_moves(b, p, p.spec_left(1), 0, -1, c);
            let s4 = spec_ray_moves(b, p, p.spec_right(1), 0, 1, c);
            let s5 = spec_ray_moves(b, p, p.spec_up(1).spec_right(1), -1, 1, c);
            let s6 = spec_ray_moves(b, p, p.spec_down(1).spec_right(1), 1, 1, c);
            let s7 = spec_ray_moves(b, p, p.spec_down(1).spec_left(1), 1, -1, c);
            let s8 = spec_ray_moves(b, p, p.spec_up(1).spec_left(1), -1, -1, c);
            lemma_moves_on_board_concat(s1, s2);
            lemma_moves_on_board_concat(s1 + s2, s3);
            lemma_moves_on_board_concat(s1 + s2 + s3, s4);
            lemma_moves_on_board_concat(s1 + s2 + s3 + s4, s5);
            lemma_moves_on_board_concat(s1 + s2 + s3 + s4 + s5, s6);
            lemma_moves_on_board_concat(s1 + s2 + s3 + s4 + s5 + s6, s7);
            lemma_moves_on_board_concat(s1 + s2 + s3 + s4 + s5 + s6 + s7, s8);
        },
        PieceType::Rook => {
            lemma_ray_moves_on_board(b, p, p.spec_up(1), -1, 0, c);
            lemma_ray_moves_on_board(b, p, p.spec_down(1), 1, 0, c);
            lemma_ray_moves_on_board(b, p, p.spec_left(1), 0, -1, c);
            lemma_ray_moves_on_board(b, p, p.spec_right(1), 0, 1, c);
            let s1 = spec_ray_moves(b, p, p.spec_up(1), -1, 0, c);
            let s2 = spec_ray_moves(b, p, p.spec_down(1), 1, 0, c);
            let s3 = spec_ray_moves(b, p, p.spec_left(1), 0, -1, c);
            let s4 = spec_ray_moves(b, p, p.spec_right(1), 0, 1, c);
            lemma_moves_on_board_concat(s1, s2);
            lemma_moves_on_board_concat(s1 + s2, s3);
            lemma_moves_on_board_concat(s1 + s2 + s3, s4);
        },
        PieceType::Bishop => {
            lemma_ray_moves_on_board(b, p, p.spec_up(1).spec_right(1), -1, 1, c);
            lemma_ray_moves_on_board(b, p, p.spec_down(1).spec_right(1), 1, 1, c);
            lemma_ray_moves_on_board(b, p, p.spec_down(1).spec_left(1), 1, -1, c);
            lemma_ray_moves_on_board(b, p, p.spec_up(1).spec_left(1), -1, -1, c);
            let s1 = spec_ray_moves(b, p, p.spec_up(1).spec_right(1), -1, 1, c);
            let s2 = spec_ray_moves(b, p, p.spec_down(1).spec_right(1), 1, 1, c);
            let s3 = spec_ray_moves(b, p, p.spec_down(1).spec_left(1), 1, -1, c);
            let s4 = spec_ray_moves(b, p, p.spec_up(1).spec_left(1), -1, -1, c);
            lemma_moves_on_board_concat(s1, s2);
            lemma_moves_on_board_concat(s1 + s2, s3);
            lemma_moves_on_board_concat(s1 + s2 + s3, s4);
        },
        PieceType::Knight => {
            lemma_knight_jump_moves_on_board(b, p, c);
        },
        PieceType::Pawn => {
            lemma_pawn_moves_on_board(chess, p, c);
        },
    }
}

} // verus!

verus! {

use crate::position::{lemma_moves_originate_concat, moves_originate};

proof fn lemma_ray_moves_originate(
    board: [Square; 64],
    from: Position,
    cur: Position,
    dr: int,
    dc: int,
    color: Color,
)
    requires
        valid_dir(dr, dc),
    ensures
        moves_originate(spec_ray_moves(board, from, cur, dr, dc, color), from),
    decreases ray_measure(cur, dr, dc),
{
    if cur.on_board() && !spec_occupied_color(board, cur, color) {
        if !spec_occupied_color(board, cur, color.spec_opposite()) {
            lemma_ray_moves_originate(board, from, spec_step(cur, dr, dc), dr, dc, color);
            lemma_moves_originate_concat(
                seq![Move { from, to: cur, prom: None }],
                spec_ray_moves(board, from, spec_step(cur, dr, dc), dr, dc, color),
                from,
            );
        }
    }
}

proof fn lemma_king_jump_moves_originate(b: [Square; 64], p: Position, c: Color)
    ensures
        moves_originate(spec_king_jump_moves(b, p, c), p),
{
}

proof fn lemma_knight_jump_moves_originate(b: [Square; 64], p: Position, c: Color)
    ensures
        moves_originate(spec_knight_jump_moves(b, p, c), p),
{
}

proof fn lemma_castle_moves_originate(chess: Chess, p: Position, c: Color)
    ensures
        moves_originate(spec_castle_moves(chess, p, c), p),
{
}

proof fn lemma_pawn_moves_originate(chess: Chess, p: Position, c: Color)
    ensures
        moves_originate(spec_pawn_moves(chess, p, c), p),
{
}

/// Every pseudo-legal move of a piece starts from the piece's own
/// square.
pub proof fn lemma_piece_moves_originate(chess: Chess, piece: Piece)
    ensures
        moves_originate(spec_piece_moves(chess, piece), piece.pos),
{
    let b = chess.board;
    let p = piece.pos;
    let c = piece.color;
    match piece.typ {
        PieceType::King => {
            lemma_king_jump_moves_originate(b, p, c);
            lemma_castle_moves_originate(chess, p, c);
            lemma_moves_originate_concat(
                spec_king_jump_moves(b, p, c),
                spec_castle_moves(chess, p, c),
                p,
            );
        },
        PieceType::Queen => {
            lemma_ray_moves_originate(b, p, p.spec_up(1), -1, 0, c);
            lemma_ray_moves_originate(b, p, p.spec_down(1), 1, 0, c);
            lemma_ray_moves_originate(b, p, p.spec_left(1), 0, -1, c);
            lemma_ray_moves_originate(b, p, p.spec_right(1), 0, 1, c);
            lemma_ray_moves_originate(b, p, p.spec_up(1).spec_right(1), -1, 1, c);
            lemma_ray_moves_originate(b, p, p.spec_down(1).spec_right(1), 1, 1, c);
            lemma_ray_moves_originate(b, p, p.spec_down(1).spec_left(1), 1, -1, c);
            lemma_ray_moves_originate(b, p, p.spec_up(1).spec_left(1), -1, -1, c);
            let s1 = spec_ray_moves(b, p, p.spec_up(1), -1, 0, c);
            let s2 = spec_ray_moves(b, p, p.spec_down(1), 1, 0, c);
            let s3 = spec_ray_moves(b, p, p.spec_left(1), 0, -1, c);
            let s4 = spec_ray_moves(b, p, p.spec_right(1), 0, 1, c);
            let s5 = spec_ray_moves(b, p, p.spec_up(1).spec_right(1), -1, 1, c);
            let s6 = spec_ray_moves(b, p, p.spec_down(1).spec_right(1), 1, 1, c);
            let s7 = spec_ray_moves(b, p, p.spec_down(1).spec_left(1), 1, -1, c);
            let s8 = spec_ray_moves(b, p, p.spec_up(1).spec_left(1), -1, -1, c);
            lemma_moves_originate_concat(s1, s2, p);
            lemma_moves_originate_concat(s1 + s2, s3, p);
            lemma_moves_originate_concat(s1 + s2 + s3, s4, p);
            lemma_moves_originate_concat(s1 + s2 + s3 + s4, s5, p);
            lemma_moves_originate_concat(s1 + s2 + s3 + s4 + s5, s6, p);
            lemma_moves_originate_concat(s1 + s2 + s3 + s4 + s5 + s6, s7, p);
            lemma_moves_originate_concat(s1 + s2 + s3 + s4 + s5 + s6 + s7, s8, p);
        },
        PieceType::Rook => {
            lemma_ray_moves_originate(b, p, p.spec_up(1), -1, 0, c);
            lemma_ray_moves_originate(b, p, p.spec_down(1), 1, 0, c);
            lemma_ray_moves_originate(b, p, p.spec_left(1), 0, -1, c);
            lemma_ray_moves_originate(b, p, p.spec_right(1), 0, 1, c);
            let s1 = spec_ray_moves(b, p, p.spec_up(1), -1, 0, c);
            let s2 = spec_ray_moves(b, p, p.spec_down(1), 1, 0, c);
            let s3 = spec_ray_moves(b, p, p.spec_left(1), 0, -1, c);
            let s4 = spec_ray_moves(b, p, p.spec_right(1), 0, 1, c);
            lemma_moves_originate_concat(s1, s2, p);
            lemma_moves_originate_concat(s1 + s2, s3, p);
            lemma_moves_originate_concat(s1 + s2 + s3, s4, p);
        },
        PieceType::Bishop => {
            lemma_ray_moves_originate(b, p, p.spec_up(1).spec_right(1), -1, 1, c);
            lemma_ray_moves_originate(b, p, p.spec_down(1).spec_right(1), 1, 1, c);
            lemma_ray_moves_originate(b, p, p.spec_down(1).spec_left(1), 1, -1, c);
            lemma_ray_moves_originate(b, p, p.spec_up(1).spec_left(1), -1, -1, c);
            let s1 = spec_ray_moves(b, p, p.spec_up(1).spec_right(1), -1, 1, c);
            let s2 = spec_ray_moves(b, p, p.spec_down(1).spec_right(1), 1, 1, c);
            let s3 = spec_ray_moves(b, p, p.spec_down(1).spec_left(1), 1, -1, c);
            let s4 = spec_ray_moves(b, p, p.spec_up(1).spec_left(1), -1, -1, c);
            lemma_moves_originate_concat(s1, s2, p);
            lemma_moves_originate_concat(s1 + s2, s3, p);
            lemma_moves_originate_concat(s1 + s2 + s3, s4, p);
        },
        PieceType::Knight => {
            lemma_knight_jump_moves_originate(b, p, c);
        },
        PieceType::Pawn => {
            lemma_pawn_moves_originate(chess, p, c);
        },
    }
}

} // verus!

verus! {

use crate::position::{lemma_moves_avoid_concat, moves_avoid};

/// The home square of the king: e1 for white, e8 for black.
pub open spec fn spec_king_home(color: Color) -> Position {
    if color == Color::White {
        Position { row: 7, col: 4 }
    } else {
        Position { row: 0, col: 4 }
    }
}

proof fn lemma_castle_moves_avoid_kingside(chess: Chess, p: Position, c: Color)
    requires
        !spec_kingside_clear(chess, p, c),
        -8 <= p.col <= 8,
    ensures
        moves_avoid(spec_castle_moves(chess, p, c), p, p.spec_right(2)),
{
}

proof fn lemma_king_jump_moves_avoid(b: [Square; 64], p: Position, c: Color)
    requires
        p.on_board(),
    ensures
        moves_avoid(spec_king_jump_moves(b, p, c), p, p.spec_right(2)),
{
    let g = p.spec_right(2);
    let j1 = spec_jump_move(b, p, p.spec_up(1), c);
    let j2 = spec_jump_move(b, p, p.spec_down(1), c);
    let j3 = spec_jump_move(b, p, p.spec_left(1), c);
    let j4 = spec_jump_move(b, p, p.spec_right(1), c);
    let j5 = spec_jump_move(b, p, p.spec_up(1).spec_right(1), c);
    let j6 = spec_jump_move(b, p, p.spec_down(1).spec_right(1), c);
    let j7 = spec_jump_move(b, p, p.spec_down(1).spec_left(1), c);
    let j8 = spec_jump_move(b, p, p.spec_up(1).spec_left(1), c);
    assert(moves_avoid(j1, p, g));
    assert(moves_avoid(j2, p, g));
    assert(moves_avoid(j3, p, g));
    assert(moves_avoid(j4, p, g));
    assert(moves_avoid(j5, p, g));
    assert(moves_avoid(j6, p, g));
    assert(moves_avoid(j7, p, g));
    assert(moves_avoid(j8, p, g));
    lemma_moves_avoid_concat(j1, j2, p, g);
    lemma_moves_avoid_concat(j1 + j2, j3, p, g);
    lemma_moves_avoid_concat(j1 + j2 + j3, j4, p, g);
    lemma_moves_avoid_concat(j1 + j2 + j3 + j4, j5, p, g);
    lemma_moves_avoid_concat(j1 + j2 + j3 + j4 + j5, j6, p, g);
    lemma_moves_avoid_concat(j1 + j2 + j3 + j4 + j5 + j6, j7, p, g);
    lemma_moves_avoid_concat(j1 + j2 + j3 + j4 + j5 + j6 + j7, j8, p, g);
}

/// A king on its home square offers no move two files toward the rook
/// when a transit square is occupied or its current or transit square is
/// attacked: the kingside-castle candidate is withheld, and no single
/// king step reaches that square.
pub proof fn lemma_king_moves_avoid_kingside_castle(chess: Chess, king: Piece)
    requires
        king.typ == PieceType::King,
        chess.turn == king.color,
        king.pos == spec_king_home(king.color),
        spec_occupied(chess.board, king.pos.spec_right(1)) || spec_occupied(
            chess.board,
            king.pos.spec_right(2),
        ) || spec_attacked(chess.board, king.pos, king.color) || spec_attacked(
            chess.board,
            king.pos.spec_right(1),
            king.color,
        ),
    ensures
        moves_avoid(spec_piece_moves(chess, king), king.pos, king.pos.spec_right(2)),
{
    let b = chess.board;
    let p = king.pos;
    let c = king.color;
    let g = p.spec_right(2);
    assert(!spec_kingside_clear(chess, p, c));
    lemma_king_jump_moves_avoid(b, p, c);
    lemma_castle_moves_avoid_kingside(chess, p, c);
    lemma_moves_avoid_concat(
        spec_king_jump_moves(b, p, c),
        spec_castle_moves(chess, p, c),
        p,
        g,
    );
}

} // verus!

verus! {

/// One square's worth of the mirror relation between a white table and
/// its black counterpart.
proof fn lemma_square_table_mirror(typ: PieceType, r: int, c: int)
    requires
        0 <= r < 8,
        0 <= c < 8,
    ensures
        spec_square_table(typ, Color::White)[r * 8 + c] == spec_square_table(typ, Color::Black)[(7
            - r) * 8 + c],
{
    match typ {
        PieceType::King => {
            assert(KING_SQUARE_TABLE_WHITE[r * 8 + c] == KING_SQUARE_TABLE_BLACK[(7 - r) * 8 + c]);
        },
        PieceType::Queen => {
            assert(QUEEN_SQUARE_TABLE_WHITE[r * 8 + c] == QUEEN_SQUARE_TABLE_BLACK[(7 - r) * 8
                + c]);
        },
        PieceType::Rook => {
            assert(ROOK_SQUARE_TABLE_WHITE[r * 8 + c] == ROOK_SQUARE_TABLE_BLACK[(7 - r) * 8 + c]);
        },
        PieceType::Bishop => {
            assert(BISHOP_SQUARE_TABLE_WHITE[r * 8 + c] == BISHOP_SQUARE_TABLE_BLACK[(7 - r) * 8
                + c]);
        },
        PieceType::Knight => {
            assert(KNIGHT_SQUARE_TABLE_WHITE[r * 8 + c] == KNIGHT_SQUARE_TABLE_BLACK[(7 - r) * 8
                + c]);
        },
        PieceType::Pawn => {
            assert(PAWN_SQUARE_TABLE_WHITE[r * 8 + c] == PAWN_SQUARE_TABLE_BLACK[(7 - r) * 8 + c]);
        },
    }
}

/// Each black positional table is the vertical mirror of the white one:
/// a black piece on a square scores exactly what the same white piece
/// scores on the vertically mirrored square.
pub proof fn lemma_piece_value_mirror(typ: PieceType, p: Position)
    requires
        p.on_board(),
    ensures
        spec_piece_value(Piece { typ, pos: p, color: Color::White }) == spec_piece_value(
            Piece {
                typ,
                pos: Position { row: (7 - p.row) as i32, col: p.col },
                color: Color::Black,
            },
        ),
{
    lemma_square_table_mirror(typ, p.row as int, p.col as int);
}

} // verus!
