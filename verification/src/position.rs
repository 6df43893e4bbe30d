//! Files, ranks and board positions.
//!
//! Files and ranks are bounded integers in `[0, 7]` (shown to users as
//! `A`-`H` and `1`-`8`). All stepping operations detect the board edge and
//! return `None` there instead of wrapping, and construction from a raw
//! integer or character rejects out-of-range input.

use vstd::prelude::*;

verus! {

/// A rejected input: a colour code other than the two recognised ones, or a
/// file/rank coordinate outside the board.
#[derive(Clone, Copy, Debug, PartialEq, Eq, Structural)]
pub enum ParseError {
    InvalidColour,
    InvalidCoordinate,
}

/// A column of the board, `A`-`H`, stored as an index in `[0, 7]`.
#[derive(Clone, Copy, Debug, PartialEq, Eq, Structural)]
pub struct File(pub i32);

impl File {
    /// Index of this file, `0` for `A` through `7` for `H`.
    pub open spec fn view(self) -> int {
        self.0 as int
    }

    /// The index is on the board.
    pub open spec fn wf(self) -> bool {
        0 <= self.0 < 8
    }

    /// Builds a file from its one-based number `1`-`8`; anything else is
    /// rejected.
    pub fn new(v: i32) -> (r: Result<File, ParseError>)
        ensures
            match r {
                Ok(f) => 1 <= v <= 8 && f@ == v - 1 && f.wf(),
                Err(e) => !(1 <= v <= 8) && e == ParseError::InvalidCoordinate,
            },
    {
        if 1 <= v && v <= 8 {
            Ok(File(v - 1))
        } else {
            Err(ParseError::InvalidCoordinate)
        }
    }

    /// Builds a file from its letter, `A`-`H` in either case; any other
    /// character is rejected.
    pub fn parse(c: char) -> (r: Result<File, ParseError>)
        ensures
            match r {
                Ok(f) => f.wf() && ('A' <= c <= 'H' && f@ == c as int - 'A' as int || 'a' <= c
                    <= 'h' && f@ == c as int - 'a' as int),
                Err(e) => !('A' <= c <= 'H' || 'a' <= c <= 'h') && e
                    == ParseError::InvalidCoordinate,
            },
    {
        let u = c as u32;
        if 65 <= u && u <= 72 {
            Ok(File((u - 65) as i32))
        } else if 97 <= u && u <= 104 {
            Ok(File((u - 97) as i32))
        } else {
            Err(ParseError::InvalidCoordinate)
        }
    }

    /// One-based number of this file, `1`-`8`.
    pub fn n(&self) -> (r: i32)
        requires
            self.wf(),
        ensures
            r == self@ + 1,
    {
        self.0 + 1
    }

    /// Letter of this file, `A`-`H`.
    pub fn v(&self) -> (r: char)
        requires
            self.wf(),
        ensures
            r as int == 'A' as int + self@,
    {
        match self.0 {
            0 => 'A',
            1 => 'B',
            2 => 'C',
            3 => 'D',
            4 => 'E',
            5 => 'F',
            6 => 'G',
            _ => 'H',
        }
    }

    /// Mirror image across the board's vertical centre line.
    pub fn flip(&self) -> (r: File)
        requires
            self.wf(),
        ensures
            r@ == 7 - self@ && r.wf(),
    {
        File(7 - self.0)
    }

    /// Whether this is file `A`.
    pub fn is_start(&self) -> (r: bool)
        ensures
            r == (self@ == 0),
    {
        self.0 == 0
    }

    /// Whether this is file `H`.
    pub fn is_end(&self) -> (r: bool)
        ensures
            r == (self@ == 7),
    {
        self.0 == 7
    }

    /// The next file to the right, or `None` at the edge.
    pub fn incr(&self) -> (r: Option<File>)
        requires
            self.wf(),
        ensures
            match r {
                Some(f) => self@ < 7 && f@ == self@ + 1 && f.wf(),
                None => self@ == 7,
            },
    {
        if self.0 == 7 {
            None
        } else {
            Some(File(self.0 + 1))
        }
    }

    /// The next file to the left, or `None` at the edge.
    pub fn decr(&self) -> (r: Option<File>)
        requires
            self.wf(),
        ensures
            match r {
                Some(f) => self@ > 0 && f@ == self@ - 1 && f.wf(),
                None => self@ == 0,
            },
    {
        if self.0 == 0 {
            None
        } else {
            Some(File(self.0 - 1))
        }
    }
}

/// A row of the board, `1`-`8`, stored as an index in `[0, 7]`. The mover's
/// pawns start on index `1` and advance toward index `7`.
#[derive(Clone, Copy, Debug, PartialEq, Eq, Structural)]
pub struct Rank(pub i32);

impl Rank {
    /// Index of this rank, `0` for rank `1` through `7` for rank `8`.
    pub open spec fn view(self) -> int {
        self.0 as int
    }

    /// The index is on the board.
    pub open spec fn wf(self) -> bool {
        0 <= self.0 < 8
    }

    /// Builds a rank from its one-based number `1`-`8`; anything else is
    /// rejected.
    pub fn new(v: i32) -> (r: Result<Rank, ParseError>)
        ensures
            match r {
                Ok(k) => 1 <= v <= 8 && k@ == v - 1 && k.wf(),
                Err(e) => !(1 <= v <= 8) && e == ParseError::InvalidCoordinate,
            },
    {
        if 1 <= v && v <= 8 {
            Ok(Rank(v - 1))
        } else {
            Err(ParseError::InvalidCoordinate)
        }
    }

    /// Builds a rank from its digit, `1`-`8`; any other character is
    /// rejected.
    pub fn parse(c: char) -> (r: Result<Rank, ParseError>)
        ensures
            match r {
                Ok(k) => k.wf() && '1' <= c <= '8' && k@ == c as int - '1' as int,
                Err(e) => !('1' <= c <= '8') && e == ParseError::InvalidCoordinate,
            },
    {
        let u = c as u32;
        if 49 <= u && u <= 56 {
            Ok(Rank((u - 49) as i32))
        } else {
            Err(ParseError::InvalidCoordinate)
        }
    }

    /// One-based number of this rank, `1`-`8`.
    pub fn n(&self) -> (r: i32)
        requires
            self.wf(),
        ensures
            r == self@ + 1,
    {
        self.0 + 1
    }

    /// Mirror image across the board's horizontal centre line.
    pub fn flip(&self) -> (r: Rank)
        requires
            self.wf(),
        ensures
            r@ == 7 - self@ && r.wf(),
    {
        Rank(7 - self.0)
    }

    /// Whether this is rank `1`.
    pub fn is_start(&self) -> (r: bool)
        ensures
            r == (self@ == 0),
    {
        self.0 == 0
    }

    /// Whether this is rank `8`.
    pub fn is_end(&self) -> (r: bool)
        ensures
            r == (self@ == 7),
    {
        self.0 == 7
    }

    /// The next rank toward the far side, or `None` at the edge.
    pub fn incr(&self) -> (r: Option<Rank>)
        requires
            self.wf(),
        ensures
            match r {
                Some(k) => self@ < 7 && k@ == self@ + 1 && k.wf(),
                None => self@ == 7,
            },
    {
        if self.0 == 7 {
            None
        } else {
            Some(Rank(self.0 + 1))
        }
    }

    /// The next rank toward the near side, or `None` at the edge.
    pub fn decr(&self) -> (r: Option<Rank>)
        requires
            self.wf(),
        ensures
            match r {
                Some(k) => self@ > 0 && k@ == self@ - 1 && k.wf(),
                None => self@ == 0,
            },
    {
        if self.0 == 0 {
            None
        } else {
            Some(Rank(self.0 - 1))
        }
    }
}

/// A square of the board: a file and a rank.
#[derive(Clone, Copy, Debug, PartialEq, Eq, Structural)]
pub struct Position {
    pub file: File,
    pub rank: Rank,
}

impl Position {
    /// Both coordinates are on the board.
    pub open spec fn wf(self) -> bool {
        self.file.wf() && self.rank.wf()
    }

    /// Scan index of this square, `0` for `A1` through `63` for `H8`,
    /// running along each rank in turn.
    pub open spec fn idx(self) -> int {
        self.rank@ * 8 + self.file@
    }

    /// The square at a given scan index.
    pub open spec fn from_index_spec(i: int) -> Position {
        Position { file: File((i % 8) as i32), rank: Rank((i / 8) as i32) }
    }

    /// 180-degree rotation of the board, as a value.
    pub open spec fn flip_spec(self) -> Position {
        Position { file: File((7 - self.file.0) as i32), rank: Rank((7 - self.rank.0) as i32) }
    }

    /// Pairs a file with a rank.
    pub fn new(file: File, rank: Rank) -> (r: Position)
        ensures
            r.file == file && r.rank == rank,
    {
        Position { file, rank }
    }

    /// Reads an algebraic pair: a file letter and a one-based rank number.
    /// Either coordinate out of range is rejected.
    pub fn from_algebraic(c: char, v: i32) -> (r: Result<Position, ParseError>)
        ensures
            match r {
                Ok(p) => p.wf() && ('A' <= c <= 'H' && p.file@ == c as int - 'A' as int || 'a' <= c
                    <= 'h' && p.file@ == c as int - 'a' as int) && 1 <= v <= 8 && p.rank@ == v - 1,
                Err(e) => (!('A' <= c <= 'H' || 'a' <= c <= 'h') || !(1 <= v <= 8)) && e
                    == ParseError::InvalidCoordinate,
            },
    {
        match File::parse(c) {
            Ok(file) => match Rank::new(v) {
                Ok(rank) => Ok(Position { file, rank }),
                Err(e) => Err(e),
            },
            Err(e) => Err(e),
        }
    }

    /// The square at scan index `i`: file `i % 8`, rank `i / 8`.
    pub fn from_index(i: usize) -> (r: Position)
        requires
            i < 64,
        ensures
            r.wf(),
            r.idx() == i,
            r == Position::from_index_spec(i as int),
    {
        Position { file: File((i % 8) as i32), rank: Rank((i / 8) as i32) }
    }

    /// 180-degree rotation of the board: mirrors both coordinates.
    pub fn flip(&self) -> (r: Position)
        requires
            self.wf(),
        ensures
            r.wf() && r.file@ == 7 - self.file@ && r.rank@ == 7 - self.rank@,
            r.idx() == 63 - self.idx(),
            r == self.flip_spec(),
    {
        Position { file: self.file.flip(), rank: self.rank.flip() }
    }

    /// The next square in scan order (along the rank, then up one rank), or
    /// `None` on the last square.
    pub fn incr(&self) -> (r: Option<Position>)
        requires
            self.wf(),
        ensures
            match r {
                Some(p) => p.wf() && self.idx() < 63 && p.idx() == self.idx() + 1,
                None => self.idx() == 63,
            },
    {
        match self.file.incr() {
            Some(f) => Some(Position { file: f, rank: self.rank }),
            None => match self.rank.incr() {
                Some(k) => Some(Position { file: File(0), rank: k }),
                None => None,
            },
        }
    }

    /// One square toward file `A`, or `None` at the edge.
    pub fn left(&self) -> (r: Option<Position>)
        requires
            self.wf(),
        ensures
            match r {
                Some(p) => p.wf() && self.file@ > 0 && p.file@ == self.file@ - 1 && p.rank
                    == self.rank,
                None => self.file@ == 0,
            },
    {
        match self.file.decr() {
            Some(f) => Some(Position { file: f, rank: self.rank }),
            None => None,
        }
    }

    /// One square toward file `H`, or `None` at the edge.
    pub fn right(&self) -> (r: Option<Position>)
        requires
            self.wf(),
        ensures
            match r {
                Some(p) => p.wf() && self.file@ < 7 && p.file@ == self.file@ + 1 && p.rank
                    == self.rank,
                None => self.file@ == 7,
            },
    {
        match self.file.incr() {
            Some(f) => Some(Position { file: f, rank: self.rank }),
            None => None,
        }
    }

    /// One square toward the far side, or `None` on the last rank.
    pub fn front(&self) -> (r: Option<Position>)
        requires
            self.wf(),
        ensures
            match r {
                Some(p) => p.wf() && self.rank@ < 7 && p.rank@ == self.rank@ + 1 && p.file
                    == self.file,
                None => self.rank@ == 7,
            },
    {
        match self.rank.incr() {
            Some(k) => Some(Position { file: self.file, rank: k }),
            None => None,
        }
    }

    /// One square forward and one toward file `A`, or `None` if either step
    /// leaves the board.
    pub fn diag_l(&self) -> (r: Option<Position>)
        requires
            self.wf(),
        ensures
            match r {
                Some(p) => p.wf() && self.rank@ < 7 && self.file@ > 0 && p.rank@ == self.rank@ + 1
                    && p.file@ == self.file@ - 1,
                None => self.rank@ == 7 || self.file@ == 0,
            },
    {
        match self.front() {
            Some(p) => p.left(),
            None => None,
        }
    }

    /// One square forward and one toward file `H`, or `None` if either step
    /// leaves the board.
    pub fn diag_r(&self) -> (r: Option<Position>)
        requires
            self.wf(),
        ensures
            match r {
                Some(p) => p.wf() && self.rank@ < 7 && self.file@ < 7 && p.rank@ == self.rank@ + 1
                    && p.file@ == self.file@ + 1,
                None => self.rank@ == 7 || self.file@ == 7,
            },
    {
        match self.front() {
            Some(p) => p.right(),
            None => None,
        }
    }

    /// Whether this is the first square of the scan, `A1`.
    pub fn is_start(&self) -> (r: bool)
        ensures
            r == (self.file@ == 0 && self.rank@ == 0),
    {
        self.file.is_start() && self.rank.is_start()
    }

    /// Whether this is the last square of the scan, `H8`.
    pub fn is_end(&self) -> (r: bool)
        ensures
            r == (self.file@ == 7 && self.rank@ == 7),
    {
        self.file.is_end() && self.rank.is_end()
    }
}

} // verus!
