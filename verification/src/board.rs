//! The packed board: 64 squares at 2 bits each in one 128-bit word, plus an
//! optional en-passant target.
//!
//! Square `i` (scan index, rank-major) occupies bits `2i` and `2i + 1`:
//! `01` is the mover's pawn, `10` the opponent's, `00` and `11` are empty.
//! The encoding is chosen so that exchanging the two bits of a square
//! exchanges the sides, which is what the perspective flip does.

use vstd::prelude::*;

use crate::position::{File, ParseError, Position, Rank};

verus! {

/// A side of the game. Under the perspective convention, `White` is the
/// mover and `Black` the opponent, whatever the real colours are.
#[derive(Clone, Copy, Debug, PartialEq, Eq, Structural)]
pub enum Colour {
    White,
    Black,
}

impl Colour {
    /// Reads a one-letter colour code: `"W"` or `"B"`. Anything else is
    /// rejected.
    pub fn parse(s: &str) -> (r: Result<Colour, ParseError>)
        ensures
            match r {
                Ok(c) => (s@ == "W"@ && c == Colour::White) || (s@ == "B"@ && c == Colour::Black),
                Err(e) => s@ != "W"@ && s@ != "B"@ && e == ParseError::InvalidColour,
            },
    {
        let owned = s.to_owned();
        if owned == "W".to_owned() {
            Ok(Colour::White)
        } else if owned == "B".to_owned() {
            Ok(Colour::Black)
        } else {
            Err(ParseError::InvalidColour)
        }
    }
}

/// What one square of the board holds.
#[derive(Clone, Copy, Debug, PartialEq, Eq, Structural)]
pub enum Square {
    Piece(Colour),
    Empty,
}

impl Square {
    /// The same square as seen from the other side.
    pub open spec fn flip_spec(self) -> Square {
        match self {
            Square::Piece(Colour::White) => Square::Piece(Colour::Black),
            Square::Piece(Colour::Black) => Square::Piece(Colour::White),
            Square::Empty => Square::Empty,
        }
    }

    /// Exchanges the two sides; empty stays empty.
    pub fn flip(&self) -> (r: Square)
        ensures
            r == self.flip_spec(),
    {
        match self {
            Square::Piece(Colour::White) => Square::Piece(Colour::Black),
            Square::Piece(Colour::Black) => Square::Piece(Colour::White),
            Square::Empty => Square::Empty,
        }
    }

    /// Whether the square holds the mover's pawn.
    pub fn is_white(&self) -> (r: bool)
        ensures
            r == (*self == Square::Piece(Colour::White)),
    {
        matches!(self, Square::Piece(Colour::White))
    }

    /// Whether the square holds the opponent's pawn.
    pub fn is_black(&self) -> (r: bool)
        ensures
            r == (*self == Square::Piece(Colour::Black)),
    {
        matches!(self, Square::Piece(Colour::Black))
    }

    /// Whether the square holds nothing.
    pub fn is_empty(&self) -> (r: bool)
        ensures
            r == (*self == Square::Empty),
    {
        matches!(self, Square::Empty)
    }
}

/// The 2-bit field of square `i` in a packed word.
pub open spec fn sq_bits(raw: u128, i: int) -> u128 {
    (raw >> ((2 * i) as u128)) & 3
}

/// Meaning of one 2-bit field: `01` mover, `10` opponent, both other
/// patterns empty.
pub open spec fn decode_bits(v: u128) -> Square {
    if v == 1 {
        Square::Piece(Colour::White)
    } else if v == 2 {
        Square::Piece(Colour::Black)
    } else {
        Square::Empty
    }
}

/// The canonical 2-bit pattern written for a square's content.
pub open spec fn encode_square(s: Square) -> u128 {
    match s {
        Square::Piece(Colour::White) => 1,
        Square::Piece(Colour::Black) => 2,
        Square::Empty => 0,
    }
}

/// What square `i` of the starting board holds: the mover's pawns on rank
/// index `1`, the opponent's on rank index `6`, all else empty.
pub open spec fn initial_sq(i: int) -> Square {
    if 8 <= i < 16 {
        Square::Piece(Colour::White)
    } else if 48 <= i < 56 {
        Square::Piece(Colour::Black)
    } else {
        Square::Empty
    }
}

/// The en-passant target as the other side sees it.
pub open spec fn flip_passant(p: Option<Position>) -> Option<Position> {
    match p {
        Some(q) => Some(q.flip_spec()),
        None => None,
    }
}

/// How a board and its perspective flip relate: square `i` of the flip is
/// square `63 - i` of the original with the sides exchanged, and the
/// en-passant target is rotated with the board.
pub open spec fn flip_matches(b: Board, r: Board) -> bool {
    &&& forall|i: int| 0 <= i < 64 ==> #[trigger] r.sq(i) == b.sq(63 - i).flip_spec()
    &&& r.passantable_pos == flip_passant(b.passantable_pos)
}

/// The full state of a game: the packed squares and, when the opponent has
/// just double-stepped, the square of that pawn.
#[derive(Clone, Copy, Debug)]
pub struct Board {
    pub raw: u128,
    pub passantable_pos: Option<Position>,
}

/// The starting position's packed word.
pub const INITIAL_RAW: u128 = 0x0000AAAA000000000000000055550000;

proof fn lemma_initial_bits(i: u128)
    by (bit_vector)
    requires
        i < 64,
    ensures
        8 <= i < 16 ==> (0x0000AAAA000000000000000055550000u128 >> ((2 * i) as u128)) & 3 == 1,
        48 <= i < 56 ==> (0x0000AAAA000000000000000055550000u128 >> ((2 * i) as u128)) & 3 == 2,
        (i < 8 || 16 <= i < 48 || 56 <= i) ==> (0x0000AAAA000000000000000055550000u128 >> ((2 * i)
            as u128)) & 3 == 0,
{
}

proof fn lemma_set_bits(raw: u128, i: u128, j: u128, e: u128)
    by (bit_vector)
    requires
        i < 64,
        j < 64,
        e < 4,
    ensures
        i == j ==> (((raw & ((3u128 << ((2 * i) as u128)) ^ u128::MAX)) | (e << ((2 * i) as u128)))
            >> ((2 * j) as u128)) & 3 == e,
        i != j ==> (((raw & ((3u128 << ((2 * i) as u128)) ^ u128::MAX)) | (e << ((2 * i) as u128)))
            >> ((2 * j) as u128)) & 3 == (raw >> ((2 * j) as u128)) & 3,
{
}

impl Board {
    /// What square `i` (scan index `0`-`63`) decodes to.
    pub open spec fn sq(self, i: int) -> Square {
        decode_bits(sq_bits(self.raw, i))
    }

    /// The en-passant target, when present, is on the board.
    pub open spec fn wf(self) -> bool {
        match self.passantable_pos {
            Some(p) => p.wf(),
            None => true,
        }
    }

    /// The starting position: each side's pawns on its own second rank, no
    /// en-passant target.
    pub open spec fn is_initial(self) -> bool {
        &&& self.passantable_pos is None
        &&& forall|i: int| 0 <= i < 64 ==> #[trigger] self.sq(i) == initial_sq(i)
    }

    /// Builds the starting position.
    pub fn new() -> (r: Board)
        ensures
            r.wf(),
            r.is_initial(),
    {
        let b = Board { raw: INITIAL_RAW, passantable_pos: None };
        proof {
            assert forall|i: int| 0 <= i < 64 implies #[trigger] b.sq(i) == initial_sq(i) by {
                lemma_initial_bits(i as u128);
                assert((2 * (i as u128) as int) as u128 == (2 * i) as u128);
            }
        }
        b
    }

    /// Decodes the square at `pos`.
    pub fn at(&self, pos: &Position) -> (r: Square)
        requires
            pos.wf(),
        ensures
            r == self.sq(pos.idx()),
    {
        let shift: u128 = (2 * (8 * pos.rank.0 + pos.file.0)) as u128;
        assert(shift == (2 * pos.idx()) as u128);
        let bits = (self.raw >> shift) & 3;
        assert(bits == sq_bits(self.raw, pos.idx()));
        if bits == 1 {
            Square::Piece(Colour::White)
        } else if bits == 2 {
            Square::Piece(Colour::Black)
        } else {
            Square::Empty
        }
    }

    /// Writes `s` into the square at `pos`, leaving every other square and
    /// the en-passant target unchanged.
    pub fn set(&mut self, pos: &Position, s: Square)
        requires
            old(self).wf(),
            pos.wf(),
        ensures
            final (self).wf(),
            final (self).passantable_pos == old(self).passantable_pos,
            final (self).sq(pos.idx()) == s,
            forall|j: int|
                0 <= j < 64 && j != pos.idx() ==> #[trigger] final (self).sq(j) == old(self).sq(j),
    {
        let shift: u128 = (2 * (8 * pos.rank.0 + pos.file.0)) as u128;
        let keep: u128 = (3u128 << shift) ^ u128::MAX;
        let enc: u128 = match s {
            Square::Piece(Colour::White) => 1,
            Square::Piece(Colour::Black) => 2,
            Square::Empty => 0,
        };
        let new_raw = (self.raw & keep) | (enc << shift);
        proof {
            let gi = pos.idx();
            assert(shift == (2 * gi) as u128);
            assert(enc == encode_square(s));
            lemma_set_bits(self.raw, gi as u128, gi as u128, enc);
            assert((2 * ((gi as u128) as int)) as u128 == (2 * gi) as u128);
            assert(sq_bits(new_raw, gi) == enc);
            assert forall|j: int| 0 <= j < 64 && j != gi implies #[trigger] sq_bits(new_raw, j)
                == sq_bits(self.raw, j) by {
                lemma_set_bits(self.raw, gi as u128, j as u128, enc);
                assert((2 * ((j as u128) as int)) as u128 == (2 * j) as u128);
            }
        }
        self.raw = new_raw;
    }

    /// Whether the two boards hold the same position: every square decodes
    /// alike and the en-passant targets agree.
    pub open spec fn same_position(self, o: Board) -> bool {
        (forall|i: int| 0 <= i < 64 ==> #[trigger] self.sq(i) == o.sq(i)) && self.passantable_pos
            == o.passantable_pos
    }

    /// The board as the other side sees it: every square moves to the
    /// 180-degree opposite square with the sides exchanged, and the
    /// en-passant target rotates with it. Generating the opponent's moves is
    /// done by flipping, generating as the mover, and flipping each move's
    /// coordinates back.
    pub fn flip(&self) -> (r: Board)
        requires
            self.wf(),
        ensures
            r.wf(),
            flip_matches(*self, r),
    {
        let passant = match self.passantable_pos {
            Some(p) => Some(p.flip()),
            None => None,
        };
        let mut b = Board { raw: 0, passantable_pos: passant };
        let mut i: usize = 0;
        while i < 64
            invariant
                self.wf(),
                b.wf(),
                i <= 64,
                b.passantable_pos == flip_passant(self.passantable_pos),
                forall|j: int| 0 <= j < i ==> #[trigger] b.sq(j) == self.sq(63 - j).flip_spec(),
            decreases 64 - i,
        {
            let src = Position::from_index(63 - i);
            let s = self.at(&src);
            let dst = Position::from_index(i);
            b.set(&dst, s.flip());
            i += 1;
        }
        b
    }
}

impl Default for Board {
    /// The starting position.
    fn default() -> (r: Board)
        ensures
            r.wf(),
            r.is_initial(),
    {
        Board::new()
    }
}

impl PartialEq for Board {
    /// Two boards are equal when they hold the same position: raw words
    /// that differ only in the idle encoding of an empty square compare
    /// equal.
    fn eq(&self, o: &Board) -> (r: bool) {
        let mut same = true;
        let mut i: usize = 0;
        while i < 64
            invariant
                i <= 64,
                same == (forall|j: int| 0 <= j < i ==> #[trigger] self.sq(j) == o.sq(j)),
            decreases 64 - i,
        {
            let pos = Position::from_index(i);
            let a = self.at(&pos);
            let c = o.at(&pos);
            if !(a == c) {
                same = false;
            }
            i = i + 1;
        }
        let passant_same = match (self.passantable_pos, o.passantable_pos) {
            (Some(a), Some(c)) => a.file.0 == c.file.0 && a.rank.0 == c.rank.0,
            (None, None) => true,
            _ => false,
        };
        same && passant_same
    }
}

impl vstd::std_specs::cmp::PartialEqSpecImpl for Board {
    open spec fn obeys_eq_spec() -> bool {
        true
    }

    open spec fn eq_spec(&self, o: &Board) -> bool {
        self.same_position(*o)
    }
}

} // verus!
