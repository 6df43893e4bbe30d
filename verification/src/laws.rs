//! Global properties of the board and of move generation, stated once and
//! proved for every board.

use vstd::prelude::*;

use crate::board::{flip_matches, initial_sq, Board, Colour, Square};
use crate::moves::{
    after_matches, diag_l_ok, diag_r_ok, fwd1_ok, fwd2_ok, moves_concat, pass_l_ok, pass_r_ok,
    pieces_up_to, spec_piece_moves, spec_pieces, spec_moves, step, Move, Piece,
};
use crate::position::Position;

verus! {

/// Flipping a board twice restores it: every square decodes as before and
/// the en-passant target is back in place.
pub proof fn lemma_flip_involution(b: Board, b1: Board, b2: Board)
    requires
        b.wf(),
        flip_matches(b, b1),
        flip_matches(b1, b2),
    ensures
        forall|i: int| 0 <= i < 64 ==> #[trigger] b2.sq(i) == b.sq(i),
        b2.passantable_pos == b.passantable_pos,
        b2.same_position(b),
{
    assert forall|i: int| 0 <= i < 64 implies #[trigger] b2.sq(i) == b.sq(i) by {
        assert(b2.sq(i) == b1.sq(63 - i).flip_spec());
        assert(b1.sq(63 - i) == b.sq(63 - (63 - i)).flip_spec());
    }
    match b.passantable_pos {
        Some(p) => {
            assert(p.flip_spec().flip_spec() == p);
        },
        None => {},
    }
}

/// Every candidate move of the pawn at `p` starts at `p` and is one of the
/// six stage moves, each present only when its stage condition holds.
pub proof fn lemma_piece_moves_shape(b: Board, p: Position)
    ensures
        forall|j: int|
            0 <= j < spec_piece_moves(b, p).len() ==> (#[trigger] spec_piece_moves(b, p)[j]).from
                == p,
        forall|j: int|
            0 <= j < spec_piece_moves(b, p).len() ==> ((#[trigger] spec_piece_moves(b, p)[j] == (
            Move { from: p, to: step(p, 0, 1), passant: false })) && fwd1_ok(b, p) || (
            spec_piece_moves(b, p)[j] == (Move { from: p, to: step(p, 0, 2), passant: false }))
                && fwd2_ok(b, p) || (spec_piece_moves(b, p)[j] == (Move {
                from: p,
                to: step(p, -1, 1),
                passant: false,
            })) && diag_l_ok(b, p) || (spec_piece_moves(b, p)[j] == (Move {
                from: p,
                to: step(p, 1, 1),
                passant: false,
            })) && diag_r_ok(b, p) || (spec_piece_moves(b, p)[j] == (Move {
                from: p,
                to: step(p, -1, 1),
                passant: true,
            })) && pass_l_ok(b, p) || (spec_piece_moves(b, p)[j] == (Move {
                from: p,
                to: step(p, 1, 1),
                passant: true,
            })) && pass_r_ok(b, p)),
{
}

/// On the starting board every pawn has exactly two candidate moves: the
/// single and the double forward step. No capture and no en-passant move is
/// offered.
pub proof fn lemma_initial_move_count(b: Board, p: Position)
    requires
        b.is_initial(),
        p.wf(),
        b.sq(p.idx()) == Square::Piece(Colour::White),
    ensures
        spec_piece_moves(b, p).len() == 2,
        spec_piece_moves(b, p)[0] == (Move { from: p, to: step(p, 0, 1), passant: false }),
        spec_piece_moves(b, p)[1] == (Move { from: p, to: step(p, 0, 2), passant: false }),
        forall|j: int|
            0 <= j < 2 ==> !(#[trigger] spec_piece_moves(b, p)[j]).passant && spec_piece_moves(
                b,
                p,
            )[j].to.file@ == p.file@,
{
    assert(b.sq(p.idx()) == crate::board::initial_sq(p.idx()));
    assert(8 <= p.idx() < 16);
    assert(p.rank@ == 1);
    assert(b.sq(step(p, 0, 1).idx()) == crate::board::initial_sq(step(p, 0, 1).idx()));
    assert(b.sq(step(p, 0, 2).idx()) == crate::board::initial_sq(step(p, 0, 2).idx()));
    assert(fwd1_ok(b, p));
    assert(fwd2_ok(b, p));
    if p.file@ > 0 {
        assert(b.sq(step(p, -1, 1).idx()) == crate::board::initial_sq(step(p, -1, 1).idx()));
    }
    if p.file@ < 7 {
        assert(b.sq(step(p, 1, 1).idx()) == crate::board::initial_sq(step(p, 1, 1).idx()));
    }
    assert(!diag_l_ok(b, p));
    assert(!diag_r_ok(b, p));
    assert(!pass_l_ok(b, p));
    assert(!pass_r_ok(b, p));
    assert(spec_piece_moves(b, p) =~= seq![
        Move { from: p, to: step(p, 0, 1), passant: false },
        Move { from: p, to: step(p, 0, 2), passant: false },
    ]);
}

/// A pawn on file `A` is never offered a move toward the left edge, and a
/// pawn on file `H` never one toward the right edge: no diagonal or
/// en-passant capture can leave the board.
pub proof fn lemma_edge_safety(b: Board, p: Position)
    ensures
        p.file@ == 0 ==> forall|j: int|
            0 <= j < spec_piece_moves(b, p).len() ==> (#[trigger] spec_piece_moves(
                b,
                p,
            )[j]).to.file@ >= p.file@,
        p.file@ == 7 ==> forall|j: int|
            0 <= j < spec_piece_moves(b, p).len() ==> (#[trigger] spec_piece_moves(
                b,
                p,
            )[j]).to.file@ <= p.file@,
{
    lemma_piece_moves_shape(b, p);
}

/// When the square directly ahead of a starting-rank pawn is occupied, no
/// double step is offered, whatever the square two ahead holds.
pub proof fn lemma_blocked_double_step(b: Board, p: Position)
    requires
        p.wf(),
        p.rank@ == 1,
        b.sq(step(p, 0, 1).idx()) != Square::Empty,
    ensures
        forall|j: int|
            0 <= j < spec_piece_moves(b, p).len() ==> (#[trigger] spec_piece_moves(
                b,
                p,
            )[j]).to.rank@ != p.rank@ + 2,
{
    lemma_piece_moves_shape(b, p);
}

/// A pawn on the final rank has no candidate move at all: there is no
/// promotion, so forward, diagonal and en-passant moves all vanish at the
/// board's far edge.
pub proof fn lemma_last_rank_stall(b: Board, p: Position)
    requires
        p.wf(),
        p.rank@ == 7,
    ensures
        spec_piece_moves(b, p).len() == 0,
{
}

/// The pieces scan is sound, complete and ordered over its first `n`
/// squares: it yields exactly the squares holding a mover pawn, each once,
/// with scan indexes strictly increasing.
proof fn lemma_pieces_up_to_props(b: Board, n: int)
    requires
        0 <= n <= 64,
    ensures
        forall|j: int|
            0 <= j < pieces_up_to(b, n).len() ==> {
                let q = #[trigger] pieces_up_to(b, n)[j];
                q.board == b && q.pos.wf() && 0 <= q.pos.idx() < n && q.pos
                    == Position::from_index_spec(q.pos.idx()) && b.sq(q.pos.idx())
                    == Square::Piece(Colour::White)
            },
        forall|j: int, k: int|
            0 <= j < k < pieces_up_to(b, n).len() ==> (#[trigger] pieces_up_to(b, n)[j]).pos.idx()
                < (#[trigger] pieces_up_to(b, n)[k]).pos.idx(),
        forall|i: int|
            0 <= i < n && b.sq(i) == Square::Piece(Colour::White) ==> exists|j: int|
                0 <= j < pieces_up_to(b, n).len() && (#[trigger] pieces_up_to(b, n)[j]).pos
                    == Position::from_index_spec(i),
    decreases n,
{
    if n > 0 {
        lemma_pieces_up_to_props(b, n - 1);
        let prev = pieces_up_to(b, n - 1);
        let cur = pieces_up_to(b, n);
        if b.sq(n - 1) == Square::Piece(Colour::White) {
            assert(cur == prev + seq![
                Piece { pos: Position::from_index_spec(n - 1), board: b },
            ]);
            assert(cur[cur.len() - 1].pos == Position::from_index_spec(n - 1));
        } else {
            assert(cur =~= prev);
        }
        assert forall|i: int|
            0 <= i < n && b.sq(i) == Square::Piece(Colour::White) implies exists|j: int|
            0 <= j < cur.len() && (#[trigger] cur[j]).pos == Position::from_index_spec(i) by {
            if i < n - 1 {
                let j = choose|j: int|
                    0 <= j < prev.len() && (#[trigger] prev[j]).pos == Position::from_index_spec(
                        i,
                    );
                assert(cur[j].pos == Position::from_index_spec(i));
            } else {
                assert(cur[cur.len() - 1].pos == Position::from_index_spec(i));
            }
        }
    }
}

/// The pieces scan yields exactly the mover's pawns: every yielded piece
/// stands on a mover-pawn square, every mover-pawn square is yielded, and
/// the scan indexes come in strictly increasing order.
pub proof fn lemma_pieces_exactly_the_pawns(b: Board)
    ensures
        forall|j: int|
            0 <= j < spec_pieces(b).len() ==> {
                let q = #[trigger] spec_pieces(b)[j];
                q.board == b && q.pos.wf() && b.sq(q.pos.idx()) == Square::Piece(Colour::White)
            },
        forall|j: int, k: int|
            0 <= j < k < spec_pieces(b).len() ==> (#[trigger] spec_pieces(b)[j]).pos.idx() < (
            #[trigger] spec_pieces(b)[k]).pos.idx(),
        forall|i: int|
            0 <= i < 64 && b.sq(i) == Square::Piece(Colour::White) ==> exists|j: int|
                0 <= j < spec_pieces(b).len() && (#[trigger] spec_pieces(b)[j]).pos
                    == Position::from_index_spec(i),
{
    lemma_pieces_up_to_props(b, 64);
}

/// A list of pieces with two candidate moves each yields twice as many
/// moves as pieces.
proof fn lemma_moves_concat_len_two(b: Board, ps: Seq<Piece>)
    requires
        forall|j: int| 0 <= j < ps.len() ==> spec_piece_moves(b, (#[trigger] ps[j]).pos).len()
            == 2,
    ensures
        moves_concat(b, ps).len() == 2 * ps.len(),
    decreases ps.len(),
{
    if ps.len() > 0 {
        assert forall|j: int|
            0 <= j < ps.drop_first().len() implies spec_piece_moves(
            b,
            (#[trigger] ps.drop_first()[j]).pos,
        ).len() == 2 by {
            assert(ps.drop_first()[j] == ps[j + 1]);
        }
        lemma_moves_concat_len_two(b, ps.drop_first());
    }
}

/// From the starting board the mover has eight pawns and sixteen candidate
/// moves: the single and the double forward step of each pawn.
pub proof fn lemma_initial_board_move_count(b: Board)
    requires
        b.is_initial(),
    ensures
        spec_pieces(b).len() == 8,
        spec_moves(b).len() == 16,
{
    lemma_initial_pieces(b, 64);
    let ps = spec_pieces(b);
    assert(ps.len() == 8);
    assert forall|j: int| 0 <= j < ps.len() implies spec_piece_moves(
        b,
        (#[trigger] ps[j]).pos,
    ).len() == 2 by {
        let p = ps[j].pos;
        assert(p == Position::from_index_spec(8 + j));
        assert(p.wf());
        assert(p.idx() == 8 + j);
        assert(b.sq(p.idx()) == initial_sq(8 + j));
        lemma_initial_move_count(b, p);
    }
    lemma_moves_concat_len_two(b, ps);
}

/// On the starting board the first `n` squares of the scan hold the pawns
/// of squares `8` to `15` and nothing else.
proof fn lemma_initial_pieces(b: Board, n: int)
    requires
        b.is_initial(),
        0 <= n <= 64,
    ensures
        pieces_up_to(b, n).len() == (if n <= 8 {
            0int
        } else if n <= 16 {
            n - 8
        } else {
            8int
        }),
        forall|j: int|
            0 <= j < pieces_up_to(b, n).len() ==> (#[trigger] pieces_up_to(b, n)[j]).pos
                == Position::from_index_spec(8 + j) && pieces_up_to(b, n)[j].board == b,
    decreases n,
{
    if n > 0 {
        lemma_initial_pieces(b, n - 1);
        assert(b.sq(n - 1) == initial_sq(n - 1));
        if 8 <= n - 1 < 16 {
            assert(pieces_up_to(b, n) == pieces_up_to(b, n - 1) + seq![
                Piece { pos: Position::from_index_spec(n - 1), board: b },
            ]);
        } else {
            assert(pieces_up_to(b, n) =~= pieces_up_to(b, n - 1));
        }
    }
}

/// En-passant round trip. When the opponent pawn on `x`, registered as the
/// en-passant target, stands beside the mover pawn on `p`, and the square
/// diagonally in front of `x` is free, the pawn on `p` is offered exactly
/// one en-passant move, into that diagonal square; applying it empties both
/// `x` and `p`, puts the mover's pawn on the destination, and clears the
/// en-passant target.
pub proof fn lemma_en_passant_round_trip(b: Board, p: Position, x: Position, r: Board)
    requires
        b.wf(),
        p.wf(),
        x.wf(),
        b.passantable_pos == Some(x),
        b.sq(p.idx()) == Square::Piece(Colour::White),
        b.sq(x.idx()) == Square::Piece(Colour::Black),
        x.rank@ == p.rank@,
        x.file@ == p.file@ - 1 || x.file@ == p.file@ + 1,
        p.rank@ < 7,
        b.sq(step(x, 0, 1).idx()) == Square::Empty,
        after_matches(b, (Move { from: p, to: step(x, 0, 1), passant: true }), r),
    ensures
        spec_piece_moves(b, p).contains(
            (Move { from: p, to: step(x, 0, 1), passant: true }),
        ),
        forall|j: int|
            0 <= j < spec_piece_moves(b, p).len() && (#[trigger] spec_piece_moves(
                b,
                p,
            )[j]).passant ==> spec_piece_moves(b, p)[j] == (Move {
                from: p,
                to: step(x, 0, 1),
                passant: true,
            }),
        forall|j: int, k: int|
            0 <= j < spec_piece_moves(b, p).len() && 0 <= k < spec_piece_moves(b, p).len()
                && (#[trigger] spec_piece_moves(b, p)[j]).passant && (#[trigger] spec_piece_moves(
                b,
                p,
            )[k]).passant ==> j == k,
        r.sq(x.idx()) == Square::Empty,
        r.sq(p.idx()) == Square::Empty,
        r.sq(step(x, 0, 1).idx()) == Square::Piece(Colour::White),
        r.passantable_pos is None,
{
    let mstar = Move { from: p, to: step(x, 0, 1), passant: true };
    let s = spec_piece_moves(b, p);
    if x.file@ == p.file@ - 1 {
        assert(x == step(p, -1, 0));
        assert(step(x, 0, 1) == step(p, -1, 1));
        assert(pass_l_ok(b, p));
        assert(step(p, 1, 0).file@ == p.file@ + 1);
        assert(!(x == step(p, 1, 0)));
        assert(!pass_r_ok(b, p));
        let n = (if fwd1_ok(b, p) {
            1int
        } else {
            0int
        }) + (if fwd2_ok(b, p) {
            1int
        } else {
            0int
        }) + (if diag_l_ok(b, p) {
            1int
        } else {
            0int
        }) + (if diag_r_ok(b, p) {
            1int
        } else {
            0int
        });
        assert(s.len() == n + 1);
        assert(s[n] == mstar);
        assert(s.contains(mstar));
    } else {
        assert(x == step(p, 1, 0));
        assert(step(x, 0, 1) == step(p, 1, 1));
        assert(pass_r_ok(b, p));
        assert(step(p, -1, 0).file@ == p.file@ - 1);
        assert(!(x == step(p, -1, 0)));
        assert(!pass_l_ok(b, p));
        let n = (if fwd1_ok(b, p) {
            1int
        } else {
            0int
        }) + (if fwd2_ok(b, p) {
            1int
        } else {
            0int
        }) + (if diag_l_ok(b, p) {
            1int
        } else {
            0int
        }) + (if diag_r_ok(b, p) {
            1int
        } else {
            0int
        });
        assert(s.len() == n + 1);
        assert(s[n] == mstar);
        assert(s.contains(mstar));
    }
    lemma_piece_moves_shape(b, p);
    // the three affected squares are distinct
    assert(x.idx() != p.idx());
    assert(step(x, 0, 1).idx() == x.idx() + 8);
    assert(step(x, 0, 1).rank@ == p.rank@ + 1);
    assert(step(x, 0, 1).idx() != p.idx());
    // the move's rank delta is one, so no new en-passant target is registered
    assert(mstar.to.rank@ - mstar.from.rank@ == 1);
}

} // verus!
