//! The board-legality oracle.
//!
//! The authoritative position is held as its text form; whose turn it is,
//! and what a move does to a position, are the oracle's business alone. Each
//! operation of the oracle's contract is a trusted wrapper from plain values
//! to plain values, and the outcome of each is a function of its arguments
//! alone, so the rest of the crate is verified against these names.

use vstd::prelude::*;

verus! {

use crate::codec::text_len_ok;
use crate::types::{ChessMove, Color};

/// Whether the oracle can read a position from this text: whether
/// `cozy_chess::Board::from_fen` accepts it.
pub uninterp spec fn fen_ok(s: Seq<char>) -> bool;

/// Whether white is the side to move in the position this text describes.
pub uninterp spec fn white_to_move(s: Seq<char>) -> bool;

/// The text of the position reached by playing the move (source square,
/// destination square, promotion piece index) in the position this text
/// describes; `None` when the text is unreadable or the move is illegal
/// there.
pub uninterp spec fn apply_of(
    s: Seq<char>,
    source: int,
    dest: int,
    promo: Option<int>,
) -> Option<Seq<char>>;

/// The promotion field of a move as [`apply_of`] takes it.
pub open spec fn spec_promo(m: ChessMove) -> Option<int> {
    match m.promotion {
        Some(p) => Some(p.index as int),
        None => None,
    }
}

/// [`apply_of`], taking the move as the crate holds it.
pub open spec fn spec_apply(s: Seq<char>, m: ChessMove) -> Option<Seq<char>> {
    apply_of(s, m.source.index as int, m.dest.index as int, spec_promo(m))
}

/// The side to move in the position this text describes.
pub open spec fn spec_side_to_move(s: Seq<char>) -> Color {
    if white_to_move(s) {
        Color::White
    } else {
        Color::Black
    }
}

/// A position text the oracle produced: readable, and small enough for the
/// wire format.
pub open spec fn fen_wf(s: Seq<char>) -> bool {
    fen_ok(s) && text_len_ok(s)
}

/// The text of the standard start position.
pub open spec fn spec_start_fen() -> Seq<char> {
    "rnbqkbnr/pppppppp/8/8/8/8/PPPPPPPP/RNBQKBNR w KQkq - 0 1"@
}

/// The oracle's default position.
///
/// Relies on `cozy_chess::Board`: the default board is the standard start
/// position, it displays as exactly this FEN text, `from_fen` reads that
/// text back, and white moves first there.
#[verifier::external_body]
pub fn oracle_start_fen() -> (r: String)
    ensures
        r@ == spec_start_fen(),
        fen_wf(r@),
        white_to_move(r@),
{
    cozy_chess::Board::default().to_string()
}

/// Whose turn it is in the position the text describes, or `None` when the
/// oracle cannot read the text.
///
/// Relies on `cozy_chess::Board::from_fen` and `Board::side_to_move`: both
/// are functions of the text alone, and parsing fails exactly when the text
/// is not a position the oracle accepts.
#[verifier::external_body]
pub fn oracle_side_to_move(fen: &str) -> (r: Option<Color>)
    ensures
        r is Some <==> fen_ok(fen@),
        r matches Some(c) ==> c == spec_side_to_move(fen@),
{
    match cozy_chess::Board::from_fen(fen, false) {
        Ok(b) => Some(
            match b.side_to_move() {
                cozy_chess::Color::White => Color::White,
                cozy_chess::Color::Black => Color::Black,
            },
        ),
        Err(_) => None,
    }
}

/// Play a move in the position the text describes, returning the text of the
/// position reached, or `None` when the text is unreadable or the move is
/// illegal there.
///
/// Relies on `cozy_chess::Board::from_fen`, `Board::try_play` and `Board`'s
/// display: the outcome is a function of the text and the move alone,
/// `try_play` succeeds exactly on legal moves and leaves the board unchanged
/// otherwise, and a played move hands the turn to the other side.
#[verifier::external_body]
pub fn oracle_apply(fen: &str, mv: &ChessMove) -> (r: Option<String>)
    requires
        mv.wf(),
    ensures
        r is Some <==> apply_of(
            fen@,
            mv.source.index as int,
            mv.dest.index as int,
            spec_promo(*mv),
        ) is Some,
        r is Some ==> fen_ok(fen@),
        r matches Some(f2) ==> {
            &&& f2@ == apply_of(
                fen@,
                mv.source.index as int,
                mv.dest.index as int,
                spec_promo(*mv),
            ).unwrap()
            &&& fen_wf(f2@)
            &&& white_to_move(f2@) != white_to_move(fen@)
        },
{
    let mut board = match cozy_chess::Board::from_fen(fen, false) {
        Ok(b) => b,
        Err(_) => return None,
    };
    let from = cozy_chess::Square::index(mv.source.index as usize);
    let to = cozy_chess::Square::index(mv.dest.index as usize);
    let promotion = mv.promotion.map(|p| cozy_chess::Piece::index(p.index as usize));
    match board.try_play(cozy_chess::Move { from, to, promotion }) {
        Ok(()) => Some(board.to_string()),
        Err(_) => None,
    }
}

} // verus!
