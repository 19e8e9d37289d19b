use vstd::prelude::*;

use crate::board::{spec_board_wf, CastleRight, Chess, Color, EngineError, Square};
use crate::piece::{Piece, PieceType};
use crate::position::{file_of, rank_of, spec_coordinates, spec_parse_position, Position};

verus! {

/// An ASCII whitespace character: the separators between the six fields
/// of a position string.
pub open spec fn spec_is_ws(ch: char) -> bool {
    ch == ' ' || ch == '\t' || ch == '\n' || ch == '\r' || ch == '\u{0c}'
}

/// The whitespace-separated tokens of `s[i..]`, given the (possibly
/// empty) token `cur` read so far.
pub open spec fn spec_tokens_acc(s: Seq<char>, i: int, cur: Seq<char>) -> Seq<Seq<char>>
    decreases s.len() - i,
    when 0 <= i
{
    if i >= s.len() {
        if cur.len() == 0 {
            Seq::empty()
        } else {
            seq![cur]
        }
    } else if spec_is_ws(s[i]) {
        if cur.len() == 0 {
            spec_tokens_acc(s, i + 1, cur)
        } else {
            seq![cur] + spec_tokens_acc(s, i + 1, Seq::empty())
        }
    } else {
        spec_tokens_acc(s, i + 1, cur.push(s[i]))
    }
}

/// The whitespace-separated tokens of `s`, each nonempty, in order.
pub open spec fn spec_tokens(s: Seq<char>) -> Seq<Seq<char>> {
    spec_tokens_acc(s, 0, Seq::empty())
}

/// The value of an ASCII digit, or nothing.
pub open spec fn spec_digit_of(ch: char) -> Option<u32> {
    if ch == '0' {
        Some(0u32)
    } else if ch == '1' {
        Some(1u32)
    } else if ch == '2' {
        Some(2u32)
    } else if ch == '3' {
        Some(3u32)
    } else if ch == '4' {
        Some(4u32)
    } else if ch == '5' {
        Some(5u32)
    } else if ch == '6' {
        Some(6u32)
    } else if ch == '7' {
        Some(7u32)
    } else if ch == '8' {
        Some(8u32)
    } else if ch == '9' {
        Some(9u32)
    } else {
        None
    }
}

/// The piece a placement letter denotes: upper case is white, lower case
/// black.
pub open spec fn spec_piece_of(ch: char) -> Option<(PieceType, Color)> {
    if ch == 'P' {
        Some((PieceType::Pawn, Color::White))
    } else if ch == 'N' {
        Some((PieceType::Knight, Color::White))
    } else if ch == 'B' {
        Some((PieceType::Bishop, Color::White))
    } else if ch == 'R' {
        Some((PieceType::Rook, Color::White))
    } else if ch == 'Q' {
        Some((PieceType::Queen, Color::White))
    } else if ch == 'K' {
        Some((PieceType::King, Color::White))
    } else if ch == 'p' {
        Some((PieceType::Pawn, Color::Black))
    } else if ch == 'n' {
        Some((PieceType::Knight, Color::Black))
    } else if ch == 'b' {
        Some((PieceType::Bishop, Color::Black))
    } else if ch == 'r' {
        Some((PieceType::Rook, Color::Black))
    } else if ch == 'q' {
        Some((PieceType::Queen, Color::Black))
    } else if ch == 'k' {
        Some((PieceType::King, Color::Black))
    } else {
        None
    }
}

/// An all-empty board.
pub open spec fn spec_empty_board() -> [Square; 64] {
    vstd::array::spec_array_fill_for_copy_type::<Square, 64>(None)
}

/// The board that results from reading the placement field `t` from
/// index `j` on, with `ri` ranks finished and `col` columns of the
/// current rank consumed. A digit skips that many columns, '/' starts
/// the next rank, a piece letter puts the piece on the current square.
/// `None` on an unrecognized letter or a square off the board. The rank
/// and column counters saturate just past the board (at 8 and 65), which
/// leaves every placement decision unchanged and keeps them small.
pub open spec fn spec_place_from(
    t: Seq<char>,
    j: int,
    ri: int,
    col: int,
    board: [Square; 64],
) -> Option<[Square; 64]>
    decreases t.len() - j,
    when 0 <= j
{
    if j >= t.len() {
        Some(board)
    } else {
        let ch = t[j];
        if ch == '/' {
            spec_place_from(
                t,
                j + 1,
                if ri >= 8 {
                    8int
                } else {
                    ri + 1
                },
                0,
                board,
            )
        } else {
            match spec_digit_of(ch) {
                Some(d) => spec_place_from(
                    t,
                    j + 1,
                    ri,
                    if col + d > 64 {
                        65int
                    } else {
                        col + d
                    },
                    board,
                ),
                None => match spec_piece_of(ch) {
                    Some((typ, color)) => {
                        let index = ri * 8 + col;
                        if 0 <= index < 64 {
                            spec_place_from(
                                t,
                                j + 1,
                                ri,
                                if col + 1 > 64 {
                                    65int
                                } else {
                                    col + 1
                                },
                                vstd::array::spec_array_update(
                                    board,
                                    index,
                                    Some(
                                        Piece {
                                            typ,
                                            pos: spec_coordinates(index),
                                            color,
                                        },
                                    ),
                                ),
                            )
                        } else {
                            None
                        }
                    },
                    None => None,
                },
            }
        }
    }
}

/// The side a turn token denotes.
pub open spec fn spec_turn_of(t: Seq<char>) -> Option<Color> {
    if t.len() == 0 {
        None
    } else if t[0] == 'w' {
        Some(Color::White)
    } else if t[0] == 'b' {
        Some(Color::Black)
    } else {
        None
    }
}

/// Whether the token holds the character (castling-right letters are
/// case-sensitive).
pub open spec fn spec_contains(t: Seq<char>, ch: char) -> bool {
    exists|k: int| 0 <= k < t.len() && t[k] == ch
}

/// What a six-field position string denotes: the placement field fills
/// the board, the turn field picks the side to move, the castling field
/// sets the four rights by its letters, and the en-passant field sets
/// the target when it reads as a square (so "-" leaves it unset). The
/// halfmove and fullmove fields are ignored. `None` when the field count
/// is not six, a placement letter is unrecognized or lands off the
/// board, or the turn field is not 'w' or 'b'.
pub open spec fn spec_parse_fen(s: Seq<char>) -> Option<Chess> {
    let toks = spec_tokens(s);
    if toks.len() != 6 {
        None
    } else {
        match spec_place_from(toks[0], 0, 0, 0, spec_empty_board()) {
            None => None,
            Some(board) => match spec_turn_of(toks[1]) {
                None => None,
                Some(turn) => Some(
                    Chess {
                        board,
                        white_castle: CastleRight {
                            kingside: spec_contains(toks[2], 'K'),
                            queenside: spec_contains(toks[2], 'Q'),
                        },
                        black_castle: CastleRight {
                            kingside: spec_contains(toks[2], 'k'),
                            queenside: spec_contains(toks[2], 'q'),
                        },
                        en_passant: spec_parse_position(toks[3]),
                        turn,
                    },
                ),
            },
        }
    }
}

/// The views of a sequence of character vectors.
pub open spec fn views_of(v: Seq<Vec<char>>) -> Seq<Seq<char>> {
    Seq::new(v.len(), |i: int| v[i]@)
}

fn is_ws(ch: char) -> (r: bool)
    ensures
        r == spec_is_ws(ch),
{
    match ch {
        ' ' | '\t' | '\n' | '\r' | '\u{0c}' => true,
        _ => false,
    }
}

/// Split into whitespace-separated tokens.
fn tokenize(s: &str) -> (r: Vec<Vec<char>>)
    ensures
        views_of(r@) == spec_tokens(s@),
{
    let n = s.unicode_len();
    let mut out: Vec<Vec<char>> = Vec::new();
    let mut cur: Vec<char> = Vec::new();
    let mut i: usize = 0;
    while i < n
        invariant
            i <= n,
            n == s@.len(),
            views_of(out@) + spec_tokens_acc(s@, i as int, cur@) == spec_tokens(s@),
        decreases n - i,
    {
        let ch = s.get_char(i);
        if is_ws(ch) {
            if cur.len() > 0 {
                let ghost prev = out@;
                let ghost finished = cur@;
                out.push(cur);
                cur = Vec::new();
                proof {
                    assert(views_of(out@) =~= views_of(prev).push(finished));
                    assert(views_of(out@) + spec_tokens_acc(s@, i as int + 1, Seq::empty())
                        =~= views_of(prev) + spec_tokens_acc(s@, i as int, finished));
                }
            }
        } else {
            cur.push(ch);
        }
        i = i + 1;
    }
    if cur.len() > 0 {
        let ghost prev = out@;
        let ghost finished = cur@;
        out.push(cur);
        proof {
            assert(views_of(out@) =~= views_of(prev).push(finished));
            assert(views_of(out@) =~= spec_tokens(s@));
        }
    } else {
        proof {
            assert(views_of(out@) =~= spec_tokens(s@));
        }
    }
    out
}

} // verus!

verus! {

fn digit_of(ch: char) -> (r: Option<u32>)
    ensures
        r == spec_digit_of(ch),
{
    match ch {
        '0' => Some(0),
        '1' => Some(1),
        '2' => Some(2),
        '3' => Some(3),
        '4' => Some(4),
        '5' => Some(5),
        '6' => Some(6),
        '7' => Some(7),
        '8' => Some(8),
        '9' => Some(9),
        _ => None,
    }
}

fn piece_of(ch: char) -> (r: Option<(PieceType, Color)>)
    ensures
        r == spec_piece_of(ch),
{
    match ch {
        'P' => Some((PieceType::Pawn, Color::White)),
        'N' => Some((PieceType::Knight, Color::White)),
        'B' => Some((PieceType::Bishop, Color::White)),
        'R' => Some((PieceType::Rook, Color::White)),
        'Q' => Some((PieceType::Queen, Color::White)),
        'K' => Some((PieceType::King, Color::White)),
        'p' => Some((PieceType::Pawn, Color::Black)),
        'n' => Some((PieceType::Knight, Color::Black)),
        'b' => Some((PieceType::Bishop, Color::Black)),
        'r' => Some((PieceType::Rook, Color::Black)),
        'q' => Some((PieceType::Queen, Color::Black)),
        'k' => Some((PieceType::King, Color::Black)),
        _ => None,
    }
}

fn contains_char(t: &Vec<char>, ch: char) -> (r: bool)
    ensures
        r == spec_contains(t@, ch),
{
    let mut i: usize = 0;
    while i < t.len()
        invariant
            i <= t@.len(),
            forall|k: int| 0 <= k < i ==> t@[k] != ch,
        decreases t@.len() - i,
    {
        if t[i] == ch {
            return true;
        }
        i = i + 1;
    }
    false
}

/// Decode a six-field position string: piece placement, side to move,
/// castling rights, en-passant target, then the ignored halfmove clock
/// and fullmove number. Fails on a field count other than six, an
/// unrecognized or off-board placement, or a bad turn field; a bad
/// en-passant field just leaves the target unset.
pub fn parse(fen: &str) -> (r: Result<Chess, EngineError>)
    ensures
        match spec_parse_fen(fen@) {
            Some(c) => r == Ok::<Chess, EngineError>(c) && c.wf(),
            None => r == Err::<Chess, EngineError>(EngineError::MalformedInput),
        },
{
    proof {
        broadcast use vstd::array::group_array_axioms;
    }
    let tokens = tokenize(fen);
    let ghost toks = spec_tokens(fen@);
    if tokens.len() != 6 {
        return Err(EngineError::MalformedInput);
    }
    let placement = &tokens[0];
    proof {
        assert(placement@ == toks[0]);
    }
    let mut board: [Square; 64] = [None; 64];
    let ghost board0 = board;
    let mut ri: u32 = 0;
    let mut col: u32 = 0;
    let mut j: usize = 0;
    while j < placement.len()
        invariant
            j <= placement@.len(),
            ri <= 8,
            col <= 65,
            toks == spec_tokens(fen@),
            toks.len() == 6,
            placement@ == toks[0],
            board0 == spec_empty_board(),
            spec_board_wf(board),
            spec_place_from(placement@, j as int, ri as int, col as int, board)
                == spec_place_from(placement@, 0, 0, 0, board0),
        decreases placement@.len() - j,
    {
        let ch = placement[j];
        if ch == '/' {
            ri = if ri >= 8 {
                8
            } else {
                ri + 1
            };
            col = 0;
        } else {
            match digit_of(ch) {
                Some(d) => {
                    col = if col + d > 64 {
                        65
                    } else {
                        col + d
                    };
                },
                None => {
                    match piece_of(ch) {
                        Some((typ, color)) => {
                            let index = (ri * 8 + col) as usize;
                            if index < 64 {
                                let pos = Position::coordinates(index);
                                board[index] = Some(Piece { typ, pos, color });
                                col = if col + 1 > 64 {
                                    65
                                } else {
                                    col + 1
                                };
                            } else {
                                proof {
                                    assert(board0 == spec_empty_board());
                                    assert(spec_place_from(
                                        placement@,
                                        j as int,
                                        ri as int,
                                        col as int,
                                        board,
                                    ) is None);
                                    assert(spec_parse_fen(fen@) is None);
                                }
                                return Err(EngineError::MalformedInput);
                            }
                        },
                        None => {
                            proof {
                                assert(board0 == spec_empty_board());
                                assert(spec_place_from(
                                    placement@,
                                    j as int,
                                    ri as int,
                                    col as int,
                                    board,
                                ) is None);
                                assert(spec_parse_fen(fen@) is None);
                            }
                            return Err(EngineError::MalformedInput);
                        },
                    }
                },
            }
        }
        j = j + 1;
    }
    let t1 = &tokens[1];
    proof {
        assert(t1@ == toks[1]);
    }
    if t1.len() == 0 {
        return Err(EngineError::MalformedInput);
    }
    let turn = if t1[0] == 'w' {
        Color::White
    } else if t1[0] == 'b' {
        Color::Black
    } else {
        return Err(EngineError::MalformedInput);
    };
    let t2 = &tokens[2];
    let t3 = &tokens[3];
    proof {
        assert(t2@ == toks[2]);
        assert(t3@ == toks[3]);
    }
    let white_castle = CastleRight {
        kingside: contains_char(t2, 'K'),
        queenside: contains_char(t2, 'Q'),
    };
    let black_castle = CastleRight {
        kingside: contains_char(t2, 'k'),
        queenside: contains_char(t2, 'q'),
    };
    let en_passant: Option<Position> = if t3.len() >= 2 {
        match (file_of(t3[0]), rank_of(t3[1])) {
            (Some(ep_col), Some(ep_row)) => Some(Position { row: ep_row, col: ep_col }),
            _ => None,
        }
    } else {
        None
    };
    Ok(Chess { board, white_castle, black_castle, en_passant, turn })
}

impl Chess {
    /// Decode a position string into a board.
    pub fn from_fen(fen: &str) -> (r: Result<Chess, EngineError>)
        ensures
            match spec_parse_fen(fen@) {
                Some(c) => r == Ok::<Chess, EngineError>(c) && c.wf(),
                None => r == Err::<Chess, EngineError>(EngineError::MalformedInput),
            },
    {
        parse(fen)
    }
}

} // verus!
