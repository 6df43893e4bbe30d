use pawnrace::{Board, Colour, File, Move, Piece, Position, Rank, Square};

fn pos(file: i32, rank: i32) -> Position {
    Position::new(File::new(file).unwrap(), Rank::new(rank).unwrap())
}

fn collect_moves(b: &Board) -> Vec<Move> {
    let mut it = b.moves();
    let mut v = Vec::new();
    while let Some(m) = it.next() {
        v.push(m);
    }
    v
}

fn piece_moves(b: &Board, p: Position) -> Vec<Move> {
    let mut it = Piece { pos: p, board: *b }.moves();
    let mut v = Vec::new();
    while let Some(m) = it.next() {
        v.push(m);
    }
    v
}

#[test]
fn flip_involution_on_initial() {
    let b = Board::new();
    assert_eq!(b.flip().flip(), b);
}

#[test]
fn flip_involution_with_passant_target() {
    let mut b = Board::new();
    b.set(&pos(4, 4), Square::Piece(Colour::Black));
    b.passantable_pos = Some(pos(4, 4));
    assert_eq!(b.flip().flip(), b);
}

#[test]
fn flip_moves_pawns_to_mirrored_squares() {
    let mut b = Board::new();
    b.set(&pos(1, 4), Square::Piece(Colour::White));
    let f = b.flip();
    // A4 holds the mover's pawn; the flip shows it at H5 as the opponent's.
    assert_eq!(f.at(&pos(8, 5)), Square::Piece(Colour::Black));
    // the mover's back rank becomes the opponent's far rank
    assert_eq!(f.at(&pos(1, 7)), Square::Piece(Colour::Black));
    assert_eq!(f.at(&pos(1, 2)), Square::Piece(Colour::White));
}

#[test]
fn flip_mirrors_passant_target() {
    let mut b = Board::new();
    b.passantable_pos = Some(pos(2, 4));
    let f = b.flip();
    assert_eq!(f.passantable_pos, Some(pos(7, 5)));
}

#[test]
fn bit_isolation_set_changes_one_square_only() {
    let mut b = Board::new();
    let before: Vec<Square> = (0..64).map(|i| b.at(&Position::from_index(i))).collect();
    let target = pos(7, 6);
    b.set(&target, Square::Piece(Colour::White));
    for i in 0..64usize {
        let p = Position::from_index(i);
        if i == 5 * 8 + 6 {
            assert_eq!(b.at(&p), Square::Piece(Colour::White));
        } else {
            assert_eq!(b.at(&p), before[i]);
        }
    }
}

#[test]
fn initial_board_layout() {
    let b = Board::new();
    assert!(b.passantable_pos.is_none());
    for file in 1..9 {
        assert!(b.at(&pos(file, 2)).is_white());
        assert!(b.at(&pos(file, 7)).is_black());
        assert!(b.at(&pos(file, 1)).is_empty());
        assert!(b.at(&pos(file, 4)).is_empty());
        assert!(b.at(&pos(file, 8)).is_empty());
    }
}

#[test]
fn initial_move_count_two_per_pawn() {
    let b = Board::new();
    let all = collect_moves(&b);
    assert_eq!(all.len(), 16);
    for file in 1..9 {
        let from = pos(file, 2);
        let ms = piece_moves(&b, from);
        assert_eq!(ms.len(), 2);
        assert_eq!(ms[0], Move { from, to: pos(file, 3), passant: false });
        assert_eq!(ms[1], Move { from, to: pos(file, 4), passant: false });
        assert!(!ms[0].passant && !ms[1].passant);
    }
}

#[test]
fn edge_safety_file_a_and_h() {
    let mut b = Board::new();
    // black pawns beside and ahead of the edge pawns
    b.set(&pos(2, 3), Square::Piece(Colour::Black));
    b.set(&pos(7, 3), Square::Piece(Colour::Black));
    let ms_a = piece_moves(&b, pos(1, 2));
    for m in &ms_a {
        assert!(m.to.file.0 >= m.from.file.0);
    }
    // the A2 pawn still sees its diagonal-right capture
    assert!(ms_a.contains(&Move { from: pos(1, 2), to: pos(2, 3), passant: false }));
    let ms_h = piece_moves(&b, pos(8, 2));
    for m in &ms_h {
        assert!(m.to.file.0 <= m.from.file.0);
    }
    assert!(ms_h.contains(&Move { from: pos(8, 2), to: pos(7, 3), passant: false }));
}

#[test]
fn blocked_single_step_disables_double() {
    let mut b = Board::new();
    // square directly ahead of C2 occupied; C4 stays free
    b.set(&pos(3, 3), Square::Piece(Colour::Black));
    let ms = piece_moves(&b, pos(3, 2));
    for m in &ms {
        assert_ne!(m.to, pos(3, 4));
        assert_ne!(m.to, pos(3, 3));
    }
}

#[test]
fn free_path_allows_double() {
    let b = Board::new();
    let ms = piece_moves(&b, pos(3, 2));
    assert!(ms.contains(&Move { from: pos(3, 2), to: pos(3, 4), passant: false }));
}

#[test]
fn en_passant_round_trip() {
    let mut b = Board::new();
    // the mover's pawn reached E5; the opponent's pawn just double-stepped
    // from D7 to D5
    b.set(&pos(5, 2), Square::Empty);
    b.set(&pos(5, 5), Square::Piece(Colour::White));
    b.set(&pos(4, 7), Square::Empty);
    b.set(&pos(4, 5), Square::Piece(Colour::Black));
    b.passantable_pos = Some(pos(4, 5));
    let ms = piece_moves(&b, pos(5, 5));
    let passants: Vec<&Move> = ms.iter().filter(|m| m.passant).collect();
    assert_eq!(passants.len(), 1);
    let m = *passants[0];
    assert_eq!(m, Move { from: pos(5, 5), to: pos(4, 6), passant: true });
    let r = b.after(&m);
    assert!(r.at(&pos(4, 5)).is_empty());
    assert!(r.at(&pos(5, 5)).is_empty());
    assert_eq!(r.at(&pos(4, 6)), Square::Piece(Colour::White));
    assert!(r.passantable_pos.is_none());
}

#[test]
fn last_rank_pawn_has_no_moves() {
    let mut b = Board::new();
    b.set(&pos(1, 8), Square::Piece(Colour::White));
    let ms = piece_moves(&b, pos(1, 8));
    assert_eq!(ms.len(), 0);
}

#[test]
fn scenario_initial_flip_moves_apply() {
    let b = Board::new();
    assert_eq!(b.flip().flip(), b);
    let all = collect_moves(&b);
    assert_eq!(all.len(), 16);
    // a single-forward move
    let single = all
        .iter()
        .find(|m| m.to.rank.0 - m.from.rank.0 == 1)
        .copied()
        .unwrap();
    let r1 = b.after(&single);
    assert!(r1.at(&single.from).is_empty());
    assert!(r1.at(&single.to).is_white());
    assert!(r1.passantable_pos.is_none());
    // a double-forward move
    let double = all
        .iter()
        .find(|m| m.to.rank.0 - m.from.rank.0 == 2)
        .copied()
        .unwrap();
    let r2 = b.after(&double);
    assert!(r2.at(&double.from).is_empty());
    assert!(r2.at(&double.to).is_white());
    assert_eq!(r2.passantable_pos, Some(double.to));
}

#[test]
fn after_double_step_registers_target_then_clears_it() {
    let b = Board::new();
    let m = Move { from: pos(2, 2), to: pos(2, 4), passant: false };
    let r = b.after(&m);
    assert_eq!(r.passantable_pos, Some(pos(2, 4)));
    let m2 = Move { from: pos(3, 2), to: pos(3, 3), passant: false };
    let r2 = r.after(&m2);
    assert!(r2.passantable_pos.is_none());
}

#[test]
fn moves_come_in_scan_then_stage_order() {
    let mut b = Board::new();
    // give the B2 pawn a diagonal capture as well
    b.set(&pos(3, 3), Square::Piece(Colour::Black));
    let ms = piece_moves(&b, pos(2, 2));
    assert_eq!(ms.len(), 3);
    assert_eq!(ms[0].to, pos(2, 3));
    assert_eq!(ms[1].to, pos(2, 4));
    assert_eq!(ms[2].to, pos(3, 3));
    // scan order: A2 before B2 before D2 (the C2 pawn is blocked and mute)
    let all = collect_moves(&b);
    let a2 = all.iter().position(|m| m.from == pos(1, 2)).unwrap();
    let b2 = all.iter().position(|m| m.from == pos(2, 2)).unwrap();
    let d2 = all.iter().position(|m| m.from == pos(4, 2)).unwrap();
    assert!(all.iter().all(|m| m.from != pos(3, 2)));
    assert!(a2 < b2 && b2 < d2);
}

#[test]
fn pieces_scan_finds_all_mover_pawns() {
    let b = Board::new();
    let mut it = b.pieces();
    let mut count = 0;
    let mut last_index = None;
    while let Some(p) = it.next() {
        assert!(b.at(&p.pos).is_white());
        let idx = p.pos.rank.0 * 8 + p.pos.file.0;
        if let Some(prev) = last_index {
            assert!(idx > prev);
        }
        last_index = Some(idx);
        count += 1;
    }
    assert_eq!(count, 8);
}

#[test]
fn square_flip_and_queries() {
    let w = Square::Piece(Colour::White);
    let b = Square::Piece(Colour::Black);
    let e = Square::Empty;
    assert_eq!(w.flip(), b);
    assert_eq!(b.flip(), w);
    assert_eq!(e.flip(), e);
    assert!(w.is_white() && !w.is_black() && !w.is_empty());
    assert!(b.is_black() && !b.is_white() && !b.is_empty());
    assert!(e.is_empty() && !e.is_white() && !e.is_black());
}

#[test]
fn render_initial_board() {
    let b = Board::new();
    let text = b.render(false);
    let mut expected = String::new();
    expected.push_str("    -----------------\n");
    expected.push_str(" 8 |                 |\n");
    expected.push_str(" 7 | \u{265F} \u{265F} \u{265F} \u{265F} \u{265F} \u{265F} \u{265F} \u{265F} |\n");
    expected.push_str(" 6 |                 |\n");
    expected.push_str(" 5 |                 |\n");
    expected.push_str(" 4 |                 |\n");
    expected.push_str(" 3 |                 |\n");
    expected.push_str(" 2 | \u{2659} \u{2659} \u{2659} \u{2659} \u{2659} \u{2659} \u{2659} \u{2659} |\n");
    expected.push_str(" 1 |                 |\n");
    expected.push_str("    -----------------\n");
    expected.push_str("     A B C D E F G H\n");
    assert_eq!(text, expected);
}

#[test]
fn render_swaps_glyphs_in_dark_mode() {
    let b = Board::new();
    let plain = b.render(false);
    let dark = b.render(true);
    assert_ne!(plain, dark);
    let swapped: String = plain
        .chars()
        .map(|c| match c {
            '\u{2659}' => '\u{265F}',
            '\u{265F}' => '\u{2659}',
            other => other,
        })
        .collect();
    assert_eq!(dark, swapped);
}

#[test]
fn pieces_scan_includes_added_pawn() {
    let mut b = Board::new();
    b.set(&pos(6, 5), Square::Piece(Colour::White));
    let mut it = b.pieces();
    let mut found = false;
    let mut count = 0;
    while let Some(p) = it.next() {
        if p.pos == pos(6, 5) {
            found = true;
        }
        count += 1;
    }
    assert!(found);
    assert_eq!(count, 9);
}

#[test]
fn iterators_stay_spent() {
    let b = Board::new();
    let mut it = b.moves();
    let mut n = 0;
    while it.next().is_some() {
        n += 1;
    }
    assert_eq!(n, 16);
    assert!(it.next().is_none());
    assert!(it.next().is_none());
}

#[test]
fn default_board_is_initial() {
    let b: Board = Default::default();
    assert_eq!(b, Board::new());
}
