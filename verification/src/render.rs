//! Text rendering of a board: an 8-by-8 grid framed by dashed borders, rank
//! labels `8` down to `1` on the left, file labels `A`-`H` along the bottom.
//! Occupied squares show one of the two pawn glyphs, chosen by a
//! caller-supplied swap flag; empty squares show a space.

use vstd::prelude::*;

use crate::board::{Board, Colour, Square};
use crate::position::{File, Position, Rank};

verus! {

/// Relies on `String::push`: appends one character to the end of the
/// string.
pub assume_specification [ String::push ](s: &mut String, c: char)
    ensures
        final (s)@ == old(s)@.push(c),
;

/// Relies on `String::push_str`: appends a whole string slice to the end of
/// the string.
pub assume_specification [ String::push_str ](s: &mut String, other: &str)
    ensures
        final (s)@ == old(s)@ + other@,
;

/// The glyph shown for one square: the two pawn glyphs for the two sides,
/// exchanged when `dark` is set, and a space for an empty square.
pub open spec fn glyph(s: Square, dark: bool) -> char {
    match s {
        Square::Piece(Colour::White) => if dark {
            '\u{265F}'
        } else {
            '\u{2659}'
        },
        Square::Piece(Colour::Black) => if dark {
            '\u{2659}'
        } else {
            '\u{265F}'
        },
        Square::Empty => ' ',
    }
}

/// The digit label of rank index `r`.
pub open spec fn rank_digit(r: int) -> char {
    if r == 0 {
        '1'
    } else if r == 1 {
        '2'
    } else if r == 2 {
        '3'
    } else if r == 3 {
        '4'
    } else if r == 4 {
        '5'
    } else if r == 5 {
        '6'
    } else if r == 6 {
        '7'
    } else {
        '8'
    }
}

/// The two characters per square of a row, from file `f` to file `H`: a
/// space, then the square's glyph.
pub open spec fn row_squares(b: Board, r: int, f: int, dark: bool) -> Seq<char>
    decreases 8 - f,
{
    if f < 0 || f >= 8 {
        Seq::empty()
    } else {
        seq![' ', glyph(b.sq(r * 8 + f), dark)] + row_squares(b, r, f + 1, dark)
    }
}

/// One printed row: the rank label, the framed squares, and the newline.
pub open spec fn row_chars(b: Board, r: int, dark: bool) -> Seq<char> {
    seq![' ', rank_digit(r), ' ', '|'] + row_squares(b, r, 0, dark) + seq![' ', '|', '\n']
}

/// The printed rows for rank indexes `r` down to `0`, top row first.
pub open spec fn rows_from(b: Board, r: int, dark: bool) -> Seq<char>
    decreases r + 1,
{
    if r < 0 {
        Seq::empty()
    } else {
        row_chars(b, r, dark) + rows_from(b, r - 1, dark)
    }
}

/// The whole rendering: framed grid, far rank on top, file labels at the
/// bottom.
pub open spec fn render_spec(b: Board, dark: bool) -> Seq<char> {
    "    -----------------\n"@ + rows_from(b, 7, dark) + "    -----------------\n"@
        + "     A B C D E F G H\n"@
}

/// The glyph shown for one square.
fn glyph_char(s: Square, dark: bool) -> (c: char)
    ensures
        c == glyph(s, dark),
{
    match s {
        Square::Piece(Colour::White) => if dark {
            '\u{265F}'
        } else {
            '\u{2659}'
        },
        Square::Piece(Colour::Black) => if dark {
            '\u{2659}'
        } else {
            '\u{265F}'
        },
        Square::Empty => ' ',
    }
}

/// The digit label of rank index `r`.
fn rank_digit_char(r: usize) -> (c: char)
    requires
        r < 8,
    ensures
        c == rank_digit(r as int),
{
    match r {
        0 => '1',
        1 => '2',
        2 => '3',
        3 => '4',
        4 => '5',
        5 => '6',
        6 => '7',
        _ => '8',
    }
}

impl Board {
    /// Draws the board as text. `dark` exchanges the two pawn glyphs, for
    /// terminals whose colours would otherwise show them reversed.
    pub fn render(&self, dark: bool) -> (out: String)
        ensures
            out@ == render_spec(*self, dark),
    {
        let mut out = String::new();
        out.push_str("    -----------------\n");
        let ghost top = "    -----------------\n"@;
        let mut rr: usize = 8;
        while rr > 0
            invariant
                rr <= 8,
                out@ + rows_from(*self, rr as int - 1, dark) == top + rows_from(*self, 7, dark),
            decreases rr,
        {
            let r = rr - 1;
            let ghost row_start = out@;
            out.push(' ');
            out.push(rank_digit_char(r));
            out.push(' ');
            out.push('|');
            let ghost square_start = out@;
            proof {
                assert(square_start =~= row_start + seq![' ', rank_digit(r as int), ' ', '|']);
            }
            let mut f: usize = 0;
            while f < 8
                invariant
                    f <= 8,
                    r < 8,
                    square_start == row_start + seq![' ', rank_digit(r as int), ' ', '|'],
                    out@ + row_squares(*self, r as int, f as int, dark) == square_start
                        + row_squares(*self, r as int, 0, dark),
                decreases 8 - f,
            {
                let p = Position { file: File(f as i32), rank: Rank(r as i32) };
                let s = self.at(&p);
                out.push(' ');
                out.push(glyph_char(s, dark));
                proof {
                    assert(p.idx() == r * 8 + f);
                    assert(out@ + row_squares(*self, r as int, f as int + 1, dark) =~= square_start
                        + row_squares(*self, r as int, 0, dark));
                }
                f = f + 1;
            }
            out.push(' ');
            out.push('|');
            out.push('\n');
            proof {
                assert(out@ =~= row_start + row_chars(*self, r as int, dark));
                assert(out@ + rows_from(*self, r as int - 1, dark) =~= top + rows_from(
                    *self,
                    7,
                    dark,
                ));
            }
            rr = r;
        }
        out.push_str("    -----------------\n");
        out.push_str("     A B C D E F G H\n");
        proof {
            assert(out@ =~= render_spec(*self, dark));
        }
        out
    }
}

} // verus!
