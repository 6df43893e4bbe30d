use pawnrace::{Colour, File, ParseError, Position, Rank};

#[test]
fn colour_parse_recognises_both_codes() {
    assert_eq!(Colour::parse("W").unwrap(), Colour::White);
    assert_eq!(Colour::parse("B").unwrap(), Colour::Black);
}

#[test]
fn colour_parse_rejects_everything_else() {
    assert_eq!(Colour::parse("w").unwrap_err(), ParseError::InvalidColour);
    assert_eq!(Colour::parse("X").unwrap_err(), ParseError::InvalidColour);
    assert_eq!(Colour::parse("").unwrap_err(), ParseError::InvalidColour);
    assert_eq!(Colour::parse("WB").unwrap_err(), ParseError::InvalidColour);
}

#[test]
fn file_new_accepts_board_range_only() {
    assert_eq!(File::new(1).unwrap().n(), 1);
    assert_eq!(File::new(8).unwrap().n(), 8);
    assert_eq!(File::new(0).unwrap_err(), ParseError::InvalidCoordinate);
    assert_eq!(File::new(9).unwrap_err(), ParseError::InvalidCoordinate);
    assert_eq!(File::new(-7).unwrap_err(), ParseError::InvalidCoordinate);
}

#[test]
fn file_parse_letters_both_cases() {
    assert_eq!(File::parse('A').unwrap(), File(0));
    assert_eq!(File::parse('h').unwrap(), File(7));
    assert_eq!(File::parse('c').unwrap().v(), 'C');
    assert_eq!(File::parse('I').unwrap_err(), ParseError::InvalidCoordinate);
    assert_eq!(File::parse('1').unwrap_err(), ParseError::InvalidCoordinate);
}

#[test]
fn rank_new_and_parse() {
    assert_eq!(Rank::new(3).unwrap().n(), 3);
    assert_eq!(Rank::new(0).unwrap_err(), ParseError::InvalidCoordinate);
    assert_eq!(Rank::new(9).unwrap_err(), ParseError::InvalidCoordinate);
    assert_eq!(Rank::parse('1').unwrap(), Rank(0));
    assert_eq!(Rank::parse('8').unwrap(), Rank(7));
    assert_eq!(Rank::parse('9').unwrap_err(), ParseError::InvalidCoordinate);
    assert_eq!(Rank::parse('a').unwrap_err(), ParseError::InvalidCoordinate);
}

#[test]
fn file_and_rank_flip_mirror() {
    assert_eq!(File(0).flip(), File(7));
    assert_eq!(File(3).flip(), File(4));
    assert_eq!(Rank(7).flip(), Rank(0));
}

#[test]
fn stepping_stops_at_the_edges() {
    assert_eq!(File(7).incr(), None);
    assert_eq!(File(6).incr(), Some(File(7)));
    assert_eq!(File(0).decr(), None);
    assert_eq!(Rank(7).incr(), None);
    assert_eq!(Rank(0).decr(), None);
    assert_eq!(Rank(0).incr(), Some(Rank(1)));
}

#[test]
fn position_steps_detect_edges() {
    let a1 = Position::new(File(0), Rank(0));
    assert_eq!(a1.left(), None);
    assert_eq!(a1.diag_l(), None);
    assert_eq!(a1.right(), Some(Position::new(File(1), Rank(0))));
    assert_eq!(a1.front(), Some(Position::new(File(0), Rank(1))));
    assert_eq!(a1.diag_r(), Some(Position::new(File(1), Rank(1))));
    let h8 = Position::new(File(7), Rank(7));
    assert_eq!(h8.front(), None);
    assert_eq!(h8.right(), None);
    assert_eq!(h8.diag_l(), None);
    assert_eq!(h8.diag_r(), None);
    assert_eq!(h8.incr(), None);
    assert!(h8.is_end());
    assert!(a1.is_start());
}

#[test]
fn position_scan_order_wraps_files() {
    let h1 = Position::new(File(7), Rank(0));
    assert_eq!(h1.incr(), Some(Position::new(File(0), Rank(1))));
    let c4 = Position::new(File(2), Rank(3));
    assert_eq!(c4.incr(), Some(Position::new(File(3), Rank(3))));
}

#[test]
fn position_from_index_round_trip() {
    for i in 0..64usize {
        let p = Position::from_index(i);
        assert_eq!((p.rank.0 * 8 + p.file.0) as usize, i);
    }
    assert_eq!(Position::from_index(0), Position::new(File(0), Rank(0)));
    assert_eq!(Position::from_index(63), Position::new(File(7), Rank(7)));
}

#[test]
fn position_flip_is_rotation() {
    let b3 = Position::new(File(1), Rank(2));
    assert_eq!(b3.flip(), Position::new(File(6), Rank(5)));
    assert_eq!(b3.flip().flip(), b3);
}

#[test]
fn file_letters() {
    assert_eq!(File(0).v(), 'A');
    assert_eq!(File(7).v(), 'H');
}

#[test]
fn position_from_algebraic() {
    assert_eq!(
        Position::from_algebraic('e', 4).unwrap(),
        Position::new(File(4), Rank(3))
    );
    assert_eq!(
        Position::from_algebraic('A', 1).unwrap(),
        Position::new(File(0), Rank(0))
    );
    assert_eq!(
        Position::from_algebraic('i', 4).unwrap_err(),
        ParseError::InvalidCoordinate
    );
    assert_eq!(
        Position::from_algebraic('e', 0).unwrap_err(),
        ParseError::InvalidCoordinate
    );
}
