use vstd::prelude::*;

use crate::board::Color;
use crate::piece::{Piece, PieceType};

verus! {

/// A square address: `row` 0 is rank 8, `col` 0 is file a.
/// Off-board values are representable (ray casting walks one square past the
/// edge before stopping) but are never used to index the board array.
#[derive(Clone, Copy, PartialEq, Eq, Structural, Debug)]
pub struct Position {
    pub row: i32,
    pub col: i32,
}

impl Position {
    pub open spec fn on_board(self) -> bool {
        0 <= self.row <= 7 && 0 <= self.col <= 7
    }

    /// The linear board index of an on-board position.
    pub open spec fn sq_index(self) -> int {
        self.row * 8 + self.col
    }

    pub fn new(row: i32, col: i32) -> (p: Position)
        ensures
            p.row == row,
            p.col == col,
    {
        Position { row, col }
    }

    pub fn is_on_board(&self) -> (r: bool)
        ensures
            r == self.on_board(),
    {
        -1 < self.row && self.row < 8 && -1 < self.col && self.col < 8
    }

    /// Linear index of this square in the 64-entry board array.
    pub fn index(self) -> (i: usize)
        requires
            self.on_board(),
        ensures
            i == self.sq_index(),
            i < 64,
    {
        (self.row * 8 + self.col) as usize
    }

    /// The position whose linear index is `i`.
    pub fn coordinates(i: usize) -> (p: Position)
        requires
            i < 64,
        ensures
            p == spec_coordinates(i as int),
    {
        Position { row: (i / 8) as i32, col: (i % 8) as i32 }
    }
}

pub open spec fn spec_coordinates(i: int) -> Position {
    Position { row: (i / 8) as i32, col: (i % 8) as i32 }
}

/// Square addressing is a bijection: converting a linear index to
/// coordinates and back yields the same index.
pub proof fn lemma_index_of_coordinates(i: int)
    requires
        0 <= i < 64,
    ensures
        spec_coordinates(i).on_board(),
        spec_coordinates(i).sq_index() == i,
{
}

/// The inverse direction of the bijection: an on-board position is
/// recovered from its linear index.
pub proof fn lemma_coordinates_of_index(p: Position)
    requires
        p.on_board(),
    ensures
        0 <= p.sq_index() < 64,
        spec_coordinates(p.sq_index()) == p,
{
}

impl Position {
    pub open spec fn spec_up(self, num: int) -> Position {
        Position { row: (self.row - num) as i32, col: self.col }
    }

    pub open spec fn spec_down(self, num: int) -> Position {
        Position { row: (self.row + num) as i32, col: self.col }
    }

    pub open spec fn spec_left(self, num: int) -> Position {
        Position { row: self.row, col: (self.col - num) as i32 }
    }

    pub open spec fn spec_right(self, num: int) -> Position {
        Position { row: self.row, col: (self.col + num) as i32 }
    }

    /// One step toward rank 8 per unit of `num`.
    pub fn up(self, num: i32) -> (p: Position)
        requires
            i32::MIN <= self.row - num <= i32::MAX,
        ensures
            p == self.spec_up(num as int),
    {
        Position { row: self.row - num, ..self }
    }

    pub fn down(self, num: i32) -> (p: Position)
        requires
            i32::MIN <= self.row + num <= i32::MAX,
        ensures
            p == self.spec_down(num as int),
    {
        Position { row: self.row + num, ..self }
    }

    pub fn right(self, num: i32) -> (p: Position)
        requires
            i32::MIN <= self.col + num <= i32::MAX,
        ensures
            p == self.spec_right(num as int),
    {
        Position { col: self.col + num, ..self }
    }

    pub fn left(self, num: i32) -> (p: Position)
        requires
            i32::MIN <= self.col - num <= i32::MAX,
        ensures
            p == self.spec_left(num as int),
    {
        Position { col: self.col - num, ..self }
    }

    /// "Up" from the given color's own perspective: toward the opponent.
    pub open spec fn spec_up_color(self, color: Color, num: int) -> Position {
        if color == Color::White {
            self.spec_up(num)
        } else {
            self.spec_down(num)
        }
    }

    pub open spec fn spec_down_color(self, color: Color, num: int) -> Position {
        if color == Color::White {
            self.spec_down(num)
        } else {
            self.spec_up(num)
        }
    }

    pub fn up_color(self, color: Color, num: i32) -> (p: Position)
        requires
            color == Color::White ==> i32::MIN <= self.row - num <= i32::MAX,
            color == Color::Black ==> i32::MIN <= self.row + num <= i32::MAX,
        ensures
            p == self.spec_up_color(color, num as int),
    {
        if color == Color::White {
            Position { row: self.row - num, ..self }
        } else {
            Position { row: self.row + num, ..self }
        }
    }

    pub fn down_color(self, color: Color, num: i32) -> (p: Position)
        requires
            color == Color::White ==> i32::MIN <= self.row + num <= i32::MAX,
            color == Color::Black ==> i32::MIN <= self.row - num <= i32::MAX,
        ensures
            p == self.spec_down_color(color, num as int),
    {
        if color == Color::White {
            Position { row: self.row + num, ..self }
        } else {
            Position { row: self.row - num, ..self }
        }
    }

    /// The rank a pawn of the given color starts on.
    pub open spec fn spec_pawn_start(self, color: Color) -> bool {
        self.row == if color == Color::White {
            6int
        } else {
            1int
        }
    }

    pub fn is_pawn_starting_pos(self, color: Color) -> (r: bool)
        ensures
            r == self.spec_pawn_start(color),
    {
        let starting_row: i32 = if color == Color::White { 6 } else { 1 };
        self.row == starting_row
    }

    /// The rank on which a pawn of the given color promotes.
    pub open spec fn spec_pawn_promotion(self, color: Color) -> bool {
        self.row == if color == Color::White {
            0int
        } else {
            7int
        }
    }

    pub fn is_pawn_promotion_pos(self, color: Color) -> (r: bool)
        ensures
            r == self.spec_pawn_promotion(color),
    {
        let promotion_row: i32 = if color == Color::White { 0 } else { 7 };
        self.row == promotion_row
    }

    pub fn is_kingside_rook(self) -> (r: bool)
        ensures
            r == (self.col == 7),
    {
        self.col == 7
    }

    pub fn is_queenside_rook(self) -> (r: bool)
        ensures
            r == (self.col == 0),
    {
        self.col == 0
    }

    pub fn is_there_a_piece(self, board: &[Option<Piece>; 64]) -> (r: bool)
        requires
            self.on_board(),
        ensures
            r == crate::board::spec_occupied(*board, self),
    {
        proof {
            broadcast use vstd::array::group_array_axioms;
        }
        board[self.index()].is_some()
    }

    pub fn is_there_a_piece_color(self, board: &[Option<Piece>; 64], color: Color) -> (r: bool)
        requires
            self.on_board(),
        ensures
            r == crate::board::spec_occupied_color(*board, self, color),
    {
        proof {
            broadcast use vstd::array::group_array_axioms;
        }
        if let Some(piece) = board[self.index()] {
            piece.color == color
        } else {
            false
        }
    }

    pub fn is_there_a_piece_type_color(
        self,
        board: &[Option<Piece>; 64],
        piece_type: PieceType,
        color: Color,
    ) -> (r: bool)
        requires
            self.on_board(),
        ensures
            r == crate::board::spec_occupied_type_color(*board, self, piece_type, color),
    {
        proof {
            broadcast use vstd::array::group_array_axioms;
        }
        if let Some(piece) = board[self.index()] {
            piece.typ == piece_type && piece.color == color
        } else {
            false
        }
    }

    /// Whether this square is the active en-passant target.
    pub fn can_en_passant(self, en_passant: Option<Position>) -> (r: bool)
        ensures
            r == (en_passant == Some(self)),
    {
        if let Some(target) = en_passant {
            self == target
        } else {
            false
        }
    }
}

/// A move: source square, destination square, and an optional promotion
/// piece type (only meaningful for a pawn reaching the last rank).
#[derive(Clone, Copy, PartialEq, Debug)]
pub struct Move {
    pub from: Position,
    pub to: Position,
    pub prom: Option<PieceType>,
}

} // verus!

verus! {

/// Every move in the sequence has both endpoints on the board.
pub open spec fn moves_on_board(s: Seq<Move>) -> bool {
    forall|k: int| 0 <= k < s.len() ==> (#[trigger] s[k]).from.on_board() && s[k].to.on_board()
}

/// On-board endpoints are preserved by concatenation.
pub proof fn lemma_moves_on_board_concat(a: Seq<Move>, b: Seq<Move>)
    requires
        moves_on_board(a),
        moves_on_board(b),
    ensures
        moves_on_board(a + b),
{
    assert forall|k: int| 0 <= k < (a + b).len() implies (#[trigger] (a + b)[k]).from.on_board()
        && (a + b)[k].to.on_board() by {
        if k < a.len() {
            assert((a + b)[k] == a[k]);
        } else {
            assert((a + b)[k] == b[k - a.len()]);
        }
    }
}

} // verus!

verus! {

use crate::board::EngineError;

/// The file index (column) a letter denotes, a–h left to right.
pub open spec fn spec_file_of(ch: char) -> Option<i32> {
    if ch == 'a' {
        Some(0i32)
    } else if ch == 'b' {
        Some(1i32)
    } else if ch == 'c' {
        Some(2i32)
    } else if ch == 'd' {
        Some(3i32)
    } else if ch == 'e' {
        Some(4i32)
    } else if ch == 'f' {
        Some(5i32)
    } else if ch == 'g' {
        Some(6i32)
    } else if ch == 'h' {
        Some(7i32)
    } else {
        None
    }
}

/// The row a rank digit denotes: rank 8 is row 0, rank 1 is row 7.
pub open spec fn spec_rank_of(ch: char) -> Option<i32> {
    if ch == '8' {
        Some(0i32)
    } else if ch == '7' {
        Some(1i32)
    } else if ch == '6' {
        Some(2i32)
    } else if ch == '5' {
        Some(3i32)
    } else if ch == '4' {
        Some(4i32)
    } else if ch == '3' {
        Some(5i32)
    } else if ch == '2' {
        Some(6i32)
    } else if ch == '1' {
        Some(7i32)
    } else {
        None
    }
}

/// What two-character algebraic square text denotes: a file letter, then
/// a rank digit. Characters beyond the second are ignored; anything
/// shorter or unrecognized denotes nothing.
pub open spec fn spec_parse_position(s: Seq<char>) -> Option<Position> {
    if s.len() >= 2 {
        match (spec_file_of(s[0]), spec_rank_of(s[1])) {
            (Some(col), Some(row)) => Some(Position { row, col }),
            _ => None,
        }
    } else {
        None
    }
}

/// The promotion piece a trailing move-text letter denotes. The letter
/// for a knight is 'k' (not the conventional 'n'); this matches the
/// move-text dialect the engine has always spoken.
pub open spec fn spec_prom_of(ch: char) -> Option<PieceType> {
    if ch == 'k' {
        Some(PieceType::Knight)
    } else if ch == 'b' {
        Some(PieceType::Bishop)
    } else if ch == 'r' {
        Some(PieceType::Rook)
    } else if ch == 'q' {
        Some(PieceType::Queen)
    } else {
        None
    }
}

/// What move text denotes: two squares, then an optional promotion
/// letter. Characters beyond the fifth are ignored.
pub open spec fn spec_parse_move(s: Seq<char>) -> Option<Move> {
    if s.len() < 4 {
        None
    } else {
        match (spec_parse_position(s.subrange(0, 2)), spec_parse_position(s.subrange(2, 4))) {
            (Some(from), Some(to)) => if s.len() >= 5 {
                match spec_prom_of(s[4]) {
                    Some(t) => Some(Move { from, to, prom: Some(t) }),
                    None => None,
                }
            } else {
                Some(Move { from, to, prom: None })
            },
            _ => None,
        }
    }
}

/// The file letter of a column, a–h.
pub open spec fn spec_file_char(col: int) -> char {
    if col == 0 {
        'a'
    } else if col == 1 {
        'b'
    } else if col == 2 {
        'c'
    } else if col == 3 {
        'd'
    } else if col == 4 {
        'e'
    } else if col == 5 {
        'f'
    } else if col == 6 {
        'g'
    } else {
        'h'
    }
}

/// The rank digit of a row: row 0 is rank 8.
pub open spec fn spec_rank_char(row: int) -> char {
    if row == 0 {
        '8'
    } else if row == 1 {
        '7'
    } else if row == 2 {
        '6'
    } else if row == 3 {
        '5'
    } else if row == 4 {
        '4'
    } else if row == 5 {
        '3'
    } else if row == 6 {
        '2'
    } else {
        '1'
    }
}

/// The two-character algebraic text of an on-board position.
pub open spec fn spec_pos_chars(p: Position) -> Seq<char> {
    seq![spec_file_char(p.col as int), spec_rank_char(p.row as int)]
}

/// The text of a promotion: one letter, or nothing. A promotion to king
/// or pawn never arises from move generation and prints as nothing.
pub open spec fn spec_prom_chars(prom: Option<PieceType>) -> Seq<char> {
    match prom {
        Some(PieceType::Knight) => seq!['k'],
        Some(PieceType::Bishop) => seq!['b'],
        Some(PieceType::Rook) => seq!['r'],
        Some(PieceType::Queen) => seq!['q'],
        _ => Seq::empty(),
    }
}

/// The four- or five-character text of a move.
pub open spec fn spec_move_chars(m: Move) -> Seq<char> {
    spec_pos_chars(m.from) + spec_pos_chars(m.to) + spec_prom_chars(m.prom)
}

/// The file index a letter denotes.
pub fn file_of(ch: char) -> (r: Option<i32>)
    ensures
        r == spec_file_of(ch),
{
    match ch {
        'a' => Some(0),
        'b' => Some(1),
        'c' => Some(2),
        'd' => Some(3),
        'e' => Some(4),
        'f' => Some(5),
        'g' => Some(6),
        'h' => Some(7),
        _ => None,
    }
}

/// The row a rank digit denotes.
pub fn rank_of(ch: char) -> (r: Option<i32>)
    ensures
        r == spec_rank_of(ch),
{
    match ch {
        '8' => Some(0),
        '7' => Some(1),
        '6' => Some(2),
        '5' => Some(3),
        '4' => Some(4),
        '3' => Some(5),
        '2' => Some(6),
        '1' => Some(7),
        _ => None,
    }
}

/// The promotion piece a letter denotes ('k' is the knight).
pub fn prom_of(ch: char) -> (r: Option<PieceType>)
    ensures
        r == spec_prom_of(ch),
{
    match ch {
        'k' => Some(PieceType::Knight),
        'b' => Some(PieceType::Bishop),
        'r' => Some(PieceType::Rook),
        'q' => Some(PieceType::Queen),
        _ => None,
    }
}

impl Position {
    /// Decode two-character algebraic square text ("e4").
    pub fn from_alg(s: &str) -> (r: Result<Position, EngineError>)
        ensures
            match spec_parse_position(s@) {
                Some(p) => r == Ok::<Position, EngineError>(p),
                None => r == Err::<Position, EngineError>(EngineError::MalformedInput),
            },
    {
        if s.unicode_len() < 2 {
            return Err(EngineError::MalformedInput);
        }
        let c0 = s.get_char(0);
        let c1 = s.get_char(1);
        match (file_of(c0), rank_of(c1)) {
            (Some(col), Some(row)) => Ok(Position { row, col }),
            _ => Err(EngineError::MalformedInput),
        }
    }

    /// Encode as two-character algebraic square text.
    pub fn to_alg(self) -> (r: String)
        requires
            self.on_board(),
        ensures
            r@ == spec_pos_chars(self),
    {
        let file: &str = if self.col == 0 {
            "a"
        } else if self.col == 1 {
            "b"
        } else if self.col == 2 {
            "c"
        } else if self.col == 3 {
            "d"
        } else if self.col == 4 {
            "e"
        } else if self.col == 5 {
            "f"
        } else if self.col == 6 {
            "g"
        } else {
            "h"
        };
        let rank: &str = if self.row == 0 {
            "8"
        } else if self.row == 1 {
            "7"
        } else if self.row == 2 {
            "6"
        } else if self.row == 3 {
            "5"
        } else if self.row == 4 {
            "4"
        } else if self.row == 5 {
            "3"
        } else if self.row == 6 {
            "2"
        } else {
            "1"
        };
        proof {
            reveal_strlit("a");
            reveal_strlit("b");
            reveal_strlit("c");
            reveal_strlit("d");
            reveal_strlit("e");
            reveal_strlit("f");
            reveal_strlit("g");
            reveal_strlit("h");
            reveal_strlit("8");
            reveal_strlit("7");
            reveal_strlit("6");
            reveal_strlit("5");
            reveal_strlit("4");
            reveal_strlit("3");
            reveal_strlit("2");
            reveal_strlit("1");
        }
        let mut out = String::new();
        out.append(file);
        out.append(rank);
        proof {
            assert(out@ =~= spec_pos_chars(self));
        }
        out
    }
}

impl Move {
    /// Decode four- or five-character move text ("e2e4", "e7e8q").
    pub fn from_uci(s: &str) -> (r: Result<Move, EngineError>)
        ensures
            match spec_parse_move(s@) {
                Some(m) => r == Ok::<Move, EngineError>(m),
                None => r == Err::<Move, EngineError>(EngineError::MalformedInput),
            },
    {
        let n = s.unicode_len();
        if n < 4 {
            return Err(EngineError::MalformedInput);
        }
        proof {
            assert(s@.subrange(0, 2) =~= seq![s@[0], s@[1]]);
            assert(s@.subrange(2, 4) =~= seq![s@[2], s@[3]]);
        }
        let from = match (file_of(s.get_char(0)), rank_of(s.get_char(1))) {
            (Some(col), Some(row)) => Position { row, col },
            _ => {
                return Err(EngineError::MalformedInput);
            },
        };
        let to = match (file_of(s.get_char(2)), rank_of(s.get_char(3))) {
            (Some(col), Some(row)) => Position { row, col },
            _ => {
                return Err(EngineError::MalformedInput);
            },
        };
        if n >= 5 {
            match prom_of(s.get_char(4)) {
                Some(t) => Ok(Move { from, to, prom: Some(t) }),
                None => Err(EngineError::MalformedInput),
            }
        } else {
            Ok(Move { from, to, prom: None })
        }
    }

    /// Encode as move text: both squares, then the promotion letter if
    /// the move promotes.
    pub fn to_uci(self) -> (r: String)
        requires
            self.from.on_board(),
            self.to.on_board(),
        ensures
            r@ == spec_move_chars(self),
    {
        let mut out = self.from.to_alg();
        let to_text = self.to.to_alg();
        out.append(to_text.as_str());
        let prom_text: &str = match self.prom {
            Some(PieceType::Knight) => "k",
            Some(PieceType::Bishop) => "b",
            Some(PieceType::Rook) => "r",
            Some(PieceType::Queen) => "q",
            _ => "",
        };
        proof {
            reveal_strlit("k");
            reveal_strlit("b");
            reveal_strlit("r");
            reveal_strlit("q");
            reveal_strlit("");
        }
        out.append(prom_text);
        proof {
            assert(out@ =~= spec_move_chars(self));
        }
        out
    }
}

} // verus!

verus! {

/// Every move in the sequence starts from `p`.
pub open spec fn moves_originate(s: Seq<Move>, p: Position) -> bool {
    forall|k: int| 0 <= k < s.len() ==> (#[trigger] s[k]).from == p
}

pub proof fn lemma_moves_originate_concat(a: Seq<Move>, b: Seq<Move>, p: Position)
    requires
        moves_originate(a, p),
        moves_originate(b, p),
    ensures
        moves_originate(a + b, p),
{
    assert forall|k: int| 0 <= k < (a + b).len() implies (#[trigger] (a + b)[k]).from == p by {
        if k < a.len() {
            assert((a + b)[k] == a[k]);
        } else {
            assert((a + b)[k] == b[k - a.len()]);
        }
    }
}

/// No move in the sequence goes from `from` to `to`.
pub open spec fn moves_avoid(s: Seq<Move>, from: Position, to: Position) -> bool {
    forall|k: int|
        0 <= k < s.len() ==> !((#[trigger] s[k]).from == from && s[k].to == to)
}

pub proof fn lemma_moves_avoid_concat(a: Seq<Move>, b: Seq<Move>, from: Position, to: Position)
    requires
        moves_avoid(a, from, to),
        moves_avoid(b, from, to),
    ensures
        moves_avoid(a + b, from, to),
{
    assert forall|k: int| 0 <= k < (a + b).len() implies !((#[trigger] (a + b)[k]).from == from && (
    a + b)[k].to == to) by {
        if k < a.len() {
            assert((a + b)[k] == a[k]);
        } else {
            assert((a + b)[k] == b[k - a.len()]);
        }
    }
}

} // verus!
