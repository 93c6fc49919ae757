//! The game-domain values that cross the wire: sides, squares, pieces and
//! moves, together with their text forms and their codec.

use vstd::prelude::*;

verus! {

use crate::codec::{lemma_concat_split, Message};
use vstd::bytes::{
    lemma_auto_spec_u64_to_from_le_bytes, spec_u64_from_le_bytes, spec_u64_to_le_bytes,
};
use vstd::string::{StrSliceExecFns, StringExecFns};

/// The two sides of the game. The host is assigned one side at random; the
/// joiner receives the complement.
#[derive(Debug, Clone, Copy, PartialEq, Eq, Structural)]
pub enum Color {
    White,
    Black,
}

impl Color {
    /// The side the opponent plays.
    pub fn complement(self) -> (c: Color)
        ensures
            c == self.spec_complement(),
    {
        match self {
            Color::White => Color::Black,
            Color::Black => Color::White,
        }
    }

    pub open spec fn spec_complement(self) -> Color {
        match self {
            Color::White => Color::Black,
            Color::Black => Color::White,
        }
    }

    /// The declaration-order index carried on the wire.
    pub open spec fn spec_index(self) -> u64 {
        match self {
            Color::White => 0,
            Color::Black => 1,
        }
    }
}

/// A board square, held as its rank-major index: `a1` is 0, `b1` is 1, and
/// `h8` is 63.
#[derive(Debug, Clone, Copy, PartialEq, Eq, Structural)]
pub struct Square {
    pub index: u8,
}

impl Square {
    pub open spec fn wf(self) -> bool {
        self.index < 64
    }

    /// The square with the given rank-major index, if there is one.
    pub fn new(index: u8) -> (r: Option<Square>)
        ensures
            index < 64 ==> r == Some(Square { index }),
            index >= 64 ==> r is None,
    {
        if index < 64 {
            Some(Square { index })
        } else {
            None
        }
    }

    /// The file of the square, 0 for `a` through 7 for `h`.
    pub open spec fn spec_file(self) -> int {
        self.index as int % 8
    }

    /// The rank of the square, 0 for rank 1 through 7 for rank 8.
    pub open spec fn spec_rank(self) -> int {
        self.index as int / 8
    }

    /// The square's two-character name, file letter then rank digit.
    pub open spec fn spec_text(self) -> Seq<char> {
        seq![spec_file_char(self.spec_file()), spec_rank_char(self.spec_rank())]
    }

    /// The square named by a text such as `e4`, if the text is such a name.
    pub open spec fn spec_of_text(t: Seq<char>) -> Option<Square> {
        if t.len() == 2 && 'a' <= t[0] <= 'h' && '1' <= t[1] <= '8' {
            Some(
                Square {
                    index: ((t[1] as int - '1' as int) * 8 + (t[0] as int - 'a' as int)) as u8,
                },
            )
        } else {
            None
        }
    }

    /// The square's name, file letter then rank digit.
    pub fn to_text(&self) -> (r: String)
        requires
            self.wf(),
        ensures
            r@ == self.spec_text(),
    {
        let files = "abcdefgh";
        let ranks = "12345678";
        proof {
            reveal_strlit("abcdefgh");
            reveal_strlit("12345678");
        }
        let f = (self.index % 8) as usize;
        let rk = (self.index / 8) as usize;
        let mut s = String::new();
        s.append(files.substring_ascii(f, f + 1));
        s.append(ranks.substring_ascii(rk, rk + 1));
        proof {
            assert(s@ =~= self.spec_text());
        }
        s
    }

    /// Parse a square name such as `e4`.
    pub fn from_text(s: &str) -> (r: Option<Square>)
        ensures
            r == Self::spec_of_text(s@),
    {
        if s.unicode_len() != 2 {
            return None;
        }
        let c0 = s.get_char(0) as u32;
        let c1 = s.get_char(1) as u32;
        if c0 < 'a' as u32 || c0 > 'h' as u32 || c1 < '1' as u32 || c1 > '8' as u32 {
            return None;
        }
        let index = ((c1 - '1' as u32) * 8 + (c0 - 'a' as u32)) as u8;
        Some(Square { index })
    }
}

/// The file letter of a square name.
pub open spec fn spec_file_char(f: int) -> char {
    if f == 0 {
        'a'
    } else if f == 1 {
        'b'
    } else if f == 2 {
        'c'
    } else if f == 3 {
        'd'
    } else if f == 4 {
        'e'
    } else if f == 5 {
        'f'
    } else if f == 6 {
        'g'
    } else {
        'h'
    }
}

/// The rank digit of a square name.
pub open spec fn spec_rank_char(r: int) -> char {
    if r == 0 {
        '1'
    } else if r == 1 {
        '2'
    } else if r == 2 {
        '3'
    } else if r == 3 {
        '4'
    } else if r == 4 {
        '5'
    } else if r == 5 {
        '6'
    } else if r == 6 {
        '7'
    } else {
        '8'
    }
}

/// A piece kind, held as its index in value order: pawn 0, knight 1,
/// bishop 2, rook 3, queen 4, king 5.
#[derive(Debug, Clone, Copy, PartialEq, Eq, Structural)]
pub struct Piece {
    pub index: u8,
}

/// The text a piece conversion rejected.
#[derive(Debug, Clone, PartialEq, Eq)]
pub struct InvalidPieceError(pub String);

impl Piece {
    pub open spec fn wf(self) -> bool {
        self.index < 6
    }

    /// The piece with the given index, if there is one.
    pub fn new(index: u8) -> (r: Option<Piece>)
        ensures
            index < 6 ==> r == Some(Piece { index }),
            index >= 6 ==> r is None,
    {
        if index < 6 {
            Some(Piece { index })
        } else {
            None
        }
    }

    /// The piece's lower-case letter.
    pub open spec fn spec_letter(self) -> char {
        if self.index == 0 {
            'p'
        } else if self.index == 1 {
            'n'
        } else if self.index == 2 {
            'b'
        } else if self.index == 3 {
            'r'
        } else if self.index == 4 {
            'q'
        } else {
            'k'
        }
    }

    /// The piece named by a one-letter text, if the letter names one.
    pub open spec fn spec_of_letter(t: Seq<char>) -> Option<Piece> {
        if t.len() != 1 {
            None
        } else if t[0] == 'p' {
            Some(Piece { index: 0 })
        } else if t[0] == 'n' {
            Some(Piece { index: 1 })
        } else if t[0] == 'b' {
            Some(Piece { index: 2 })
        } else if t[0] == 'r' {
            Some(Piece { index: 3 })
        } else if t[0] == 'q' {
            Some(Piece { index: 4 })
        } else if t[0] == 'k' {
            Some(Piece { index: 5 })
        } else {
            None
        }
    }

    /// The piece's lower-case letter as text.
    pub fn to_text(&self) -> (r: String)
        requires
            self.wf(),
        ensures
            r@ == seq![self.spec_letter()],
    {
        let letters = "pnbrqk";
        proof {
            reveal_strlit("pnbrqk");
        }
        let i = self.index as usize;
        let mut s = String::new();
        s.append(letters.substring_ascii(i, i + 1));
        proof {
            assert(s@ =~= seq![self.spec_letter()]);
        }
        s
    }

    /// Parse a piece letter; rejected text comes back in the error.
    pub fn from_letter(s: &str) -> (r: Result<Piece, InvalidPieceError>)
        ensures
            match r {
                Ok(p) => Self::spec_of_letter(s@) == Some(p),
                Err(e) => Self::spec_of_letter(s@) is None && e.0@ == s@,
            },
    {
        if s.unicode_len() == 1 {
            let c = s.get_char(0);
            let r = if c == 'p' {
                Some(Piece { index: 0 })
            } else if c == 'n' {
                Some(Piece { index: 1 })
            } else if c == 'b' {
                Some(Piece { index: 2 })
            } else if c == 'r' {
                Some(Piece { index: 3 })
            } else if c == 'q' {
                Some(Piece { index: 4 })
            } else if c == 'k' {
                Some(Piece { index: 5 })
            } else {
                None
            };
            if let Some(p) = r {
                return Ok(p);
            }
        }
        Err(InvalidPieceError(s.to_owned()))
    }
}

/// A move: source and destination square and, for a promoting pawn move, the
/// piece promoted to.
#[derive(Debug, Clone, Copy, PartialEq, Eq)]
pub struct ChessMove {
    pub source: Square,
    pub dest: Square,
    pub promotion: Option<Piece>,
}

impl ChessMove {
    pub open spec fn wf(self) -> bool {
        &&& self.source.wf()
        &&& self.dest.wf()
        &&& (self.promotion matches Some(p) ==> p.wf())
    }

    /// Whether both squares and the promotion, if any, are in range.
    pub fn is_well_formed(&self) -> (r: bool)
        ensures
            r == self.wf(),
    {
        self.source.index < 64 && self.dest.index < 64 && match self.promotion {
            Some(p) => p.index < 6,
            None => true,
        }
    }
}

impl Message for Color {
    type Repr = Color;

    open spec fn abs(&self) -> Color {
        *self
    }

    open spec fn inv(v: Color) -> bool {
        true
    }

    open spec fn wire(v: Color) -> Seq<u8> {
        spec_u64_to_le_bytes(v.spec_index())
    }

    open spec fn parse(b: Seq<u8>, pos: int) -> Option<(Color, int)> {
        match <u64 as Message>::parse(b, pos) {
            Some(r) => if r.0 == 0 {
                Some((Color::White, r.1))
            } else if r.0 == 1 {
                Some((Color::Black, r.1))
            } else {
                None
            },
            None => None,
        }
    }

    proof fn lemma_parse_sound(b: Seq<u8>, pos: int) {
        <u64 as Message>::lemma_parse_sound(b, pos);
    }

    proof fn lemma_parse_complete(v: Color, b: Seq<u8>, pos: int) {
        <u64 as Message>::lemma_parse_complete(v.spec_index(), b, pos);
    }

    fn encode(&self, buf: &mut Vec<u8>) {
        let id: u64 = match self {
            Color::White => 0,
            Color::Black => 1,
        };
        id.encode(buf);
    }

    fn decode(bytes: &[u8], pos: usize) -> (r: Option<(Self, usize)>) {
        match u64::decode(bytes, pos) {
            Some((id, end)) => if id == 0 {
                Some((Color::White, end))
            } else if id == 1 {
                Some((Color::Black, end))
            } else {
                None
            },
            None => None,
        }
    }
}

impl Message for Square {
    type Repr = Square;

    open spec fn abs(&self) -> Square {
        *self
    }

    open spec fn inv(v: Square) -> bool {
        v.wf()
    }

    open spec fn wire(v: Square) -> Seq<u8> {
        spec_u64_to_le_bytes(v.index as u64)
    }

    open spec fn parse(b: Seq<u8>, pos: int) -> Option<(Square, int)> {
        match <u64 as Message>::parse(b, pos) {
            Some(r) => if r.0 < 64 {
                Some((Square { index: r.0 as u8 }, r.1))
            } else {
                None
            },
            None => None,
        }
    }

    proof fn lemma_parse_sound(b: Seq<u8>, pos: int) {
        <u64 as Message>::lemma_parse_sound(b, pos);
    }

    proof fn lemma_parse_complete(v: Square, b: Seq<u8>, pos: int) {
        <u64 as Message>::lemma_parse_complete(v.index as u64, b, pos);
    }

    fn encode(&self, buf: &mut Vec<u8>) {
        let id: u64 = self.index as u64;
        id.encode(buf);
    }

    fn decode(bytes: &[u8], pos: usize) -> (r: Option<(Self, usize)>) {
        match u64::decode(bytes, pos) {
            Some((id, end)) => if id < 64 {
                Some((Square { index: id as u8 }, end))
            } else {
                None
            },
            None => None,
        }
    }
}

impl Message for Piece {
    type Repr = Piece;

    open spec fn abs(&self) -> Piece {
        *self
    }

    open spec fn inv(v: Piece) -> bool {
        v.wf()
    }

    open spec fn wire(v: Piece) -> Seq<u8> {
        spec_u64_to_le_bytes(v.index as u64)
    }

    open spec fn parse(b: Seq<u8>, pos: int) -> Option<(Piece, int)> {
        match <u64 as Message>::parse(b, pos) {
            Some(r) => if r.0 < 6 {
                Some((Piece { index: r.0 as u8 }, r.1))
            } else {
                None
            },
            None => None,
        }
    }

    proof fn lemma_parse_sound(b: Seq<u8>, pos: int) {
        <u64 as Message>::lemma_parse_sound(b, pos);
    }

    proof fn lemma_parse_complete(v: Piece, b: Seq<u8>, pos: int) {
        <u64 as Message>::lemma_parse_complete(v.index as u64, b, pos);
    }

    fn encode(&self, buf: &mut Vec<u8>) {
        let id: u64 = self.index as u64;
        id.encode(buf);
    }

    fn decode(bytes: &[u8], pos: usize) -> (r: Option<(Self, usize)>) {
        match u64::decode(bytes, pos) {
            Some((id, end)) => if id < 6 {
                Some((Piece { index: id as u8 }, end))
            } else {
                None
            },
            None => None,
        }
    }
}

impl Message for ChessMove {
    type Repr = ChessMove;

    open spec fn abs(&self) -> ChessMove {
        *self
    }

    open spec fn inv(v: ChessMove) -> bool {
        v.wf()
    }

    open spec fn wire(v: ChessMove) -> Seq<u8> {
        <Square as Message>::wire(v.source) + <Square as Message>::wire(v.dest) + <Option<
            Piece,
        > as Message>::wire(v.promotion)
    }

    open spec fn parse(b: Seq<u8>, pos: int) -> Option<(ChessMove, int)> {
        match <Square as Message>::parse(b, pos) {
            Some(r1) => match <Square as Message>::parse(b, r1.1) {
                Some(r2) => match <Option<Piece> as Message>::parse(b, r2.1) {
                    Some(r3) => Some(
                        (ChessMove { source: r1.0, dest: r2.0, promotion: r3.0 }, r3.1),
                    ),
                    None => None,
                },
                None => None,
            },
            None => None,
        }
    }

    proof fn lemma_parse_sound(b: Seq<u8>, pos: int) {
        <Square as Message>::lemma_parse_sound(b, pos);
        if let Some(r1) = <Square as Message>::parse(b, pos) {
            <Square as Message>::lemma_parse_sound(b, r1.1);
            if let Some(r2) = <Square as Message>::parse(b, r1.1) {
                <Option<Piece> as Message>::lemma_parse_sound(b, r2.1);
                if let Some(r3) = <Option<Piece> as Message>::parse(b, r2.1) {
                    assert(b.subrange(pos, r3.1) =~= b.subrange(pos, r1.1) + b.subrange(r1.1, r2.1)
                        + b.subrange(r2.1, r3.1));
                }
            }
        }
    }

    proof fn lemma_parse_complete(v: ChessMove, b: Seq<u8>, pos: int) {
        let w1 = <Square as Message>::wire(v.source);
        let w2 = <Square as Message>::wire(v.dest);
        let w3 = <Option<Piece> as Message>::wire(v.promotion);
        assert((w1 + w2 + w3).len() == w1.len() + w2.len() + w3.len());
        assert(b.subrange(pos, pos + w1.len() + (w2 + w3).len()) == w1 + (w2 + w3)) by {
            assert(w1 + w2 + w3 =~= w1 + (w2 + w3));
        }
        lemma_concat_split(b, pos, w1, w2 + w3);
        lemma_concat_split(b, pos + w1.len() as int, w2, w3);
        <Square as Message>::lemma_parse_complete(v.source, b, pos);
        <Square as Message>::lemma_parse_complete(v.dest, b, pos + w1.len() as int);
        <Option<Piece> as Message>::lemma_parse_complete(
            v.promotion,
            b,
            pos + w1.len() + w2.len(),
        );
    }

    fn encode(&self, buf: &mut Vec<u8>) {
        self.source.encode(buf);
        self.dest.encode(buf);
        self.promotion.encode(buf);
        proof {
            assert(buf@ =~= old(buf)@ + Self::wire(self.abs()));
        }
    }

    fn decode(bytes: &[u8], pos: usize) -> (r: Option<(Self, usize)>) {
        match Square::decode(bytes, pos) {
            Some((source, p1)) => match Square::decode(bytes, p1) {
                Some((dest, p2)) => match <Option<Piece>>::decode(bytes, p2) {
                    Some((promotion, p3)) => Some((ChessMove { source, dest, promotion }, p3)),
                    None => None,
                },
                None => None,
            },
            None => None,
        }
    }
}

} // verus!
