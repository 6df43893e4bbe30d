//! Pieces, moves, and pseudo-legal move generation.
//!
//! For each mover pawn the candidate moves are produced in a fixed order of
//! six stages: single forward, double forward (only from the starting rank,
//! and never over an occupied square), diagonal-left capture, diagonal-right
//! capture, en-passant left, en-passant right. No stage reads anything but
//! the one board snapshot the enumeration started from.

use vstd::prelude::*;

use crate::board::{Board, Colour, Square};
use crate::position::{File, Position, Rank};

verus! {

/// A mover pawn: its square paired with the board snapshot it was found on.
#[derive(Clone, Copy, Debug)]
pub struct Piece {
    pub pos: Position,
    pub board: Board,
}

/// One candidate move: source square, destination square, and whether it is
/// an en-passant capture. A move is meaningful only for the board it was
/// generated from.
#[derive(Clone, Copy, Debug, PartialEq, Eq, Structural)]
pub struct Move {
    pub from: Position,
    pub to: Position,
    pub passant: bool,
}

impl Move {
    /// Both endpoints are on the board.
    pub open spec fn wf(self) -> bool {
        self.from.wf() && self.to.wf()
    }
}

/// The square `df` files toward `H` and `dr` ranks forward of `p`. Callers
/// guard the board edge themselves.
pub open spec fn step(p: Position, df: int, dr: int) -> Position {
    Position { file: File((p.file@ + df) as i32), rank: Rank((p.rank@ + dr) as i32) }
}

/// Single forward: the square ahead exists and is empty.
pub open spec fn fwd1_ok(b: Board, p: Position) -> bool {
    p.rank@ < 7 && b.sq(step(p, 0, 1).idx()) == Square::Empty
}

/// Double forward: only from the starting rank, and only when both the
/// square ahead and the square two ahead are empty — a pawn never jumps
/// over an occupied square.
pub open spec fn fwd2_ok(b: Board, p: Position) -> bool {
    p.rank@ == 1 && b.sq(step(p, 0, 1).idx()) == Square::Empty && b.sq(step(p, 0, 2).idx())
        == Square::Empty
}

/// Diagonal-left capture: the forward-left square exists and holds an
/// opponent pawn.
pub open spec fn diag_l_ok(b: Board, p: Position) -> bool {
    p.rank@ < 7 && p.file@ > 0 && b.sq(step(p, -1, 1).idx()) == Square::Piece(Colour::Black)
}

/// Diagonal-right capture: the forward-right square exists and holds an
/// opponent pawn.
pub open spec fn diag_r_ok(b: Board, p: Position) -> bool {
    p.rank@ < 7 && p.file@ < 7 && b.sq(step(p, 1, 1).idx()) == Square::Piece(Colour::Black)
}

/// En-passant left: the square to the left is the registered en-passant
/// target and the forward-left square exists and is empty.
pub open spec fn pass_l_ok(b: Board, p: Position) -> bool {
    p.file@ > 0 && b.passantable_pos == Some(step(p, -1, 0)) && p.rank@ < 7 && b.sq(
        step(p, -1, 1).idx(),
    ) == Square::Empty
}

/// En-passant right: symmetric with the left side.
pub open spec fn pass_r_ok(b: Board, p: Position) -> bool {
    p.file@ < 7 && b.passantable_pos == Some(step(p, 1, 0)) && p.rank@ < 7 && b.sq(
        step(p, 1, 1).idx(),
    ) == Square::Empty
}

/// The candidate moves of the pawn at `p`, in stage order.
pub open spec fn spec_piece_moves(b: Board, p: Position) -> Seq<Move> {
    (if fwd1_ok(b, p) {
        seq![Move { from: p, to: step(p, 0, 1), passant: false }]
    } else {
        Seq::empty()
    }) + (if fwd2_ok(b, p) {
        seq![Move { from: p, to: step(p, 0, 2), passant: false }]
    } else {
        Seq::empty()
    }) + (if diag_l_ok(b, p) {
        seq![Move { from: p, to: step(p, -1, 1), passant: false }]
    } else {
        Seq::empty()
    }) + (if diag_r_ok(b, p) {
        seq![Move { from: p, to: step(p, 1, 1), passant: false }]
    } else {
        Seq::empty()
    }) + (if pass_l_ok(b, p) {
        seq![Move { from: p, to: step(p, -1, 1), passant: true }]
    } else {
        Seq::empty()
    }) + (if pass_r_ok(b, p) {
        seq![Move { from: p, to: step(p, 1, 1), passant: true }]
    } else {
        Seq::empty()
    })
}

/// The mover pawns found on squares `0` to `n - 1`, in scan order.
pub open spec fn pieces_up_to(b: Board, n: int) -> Seq<Piece>
    decreases n,
{
    if n <= 0 {
        Seq::empty()
    } else {
        pieces_up_to(b, n - 1) + (if b.sq(n - 1) == Square::Piece(Colour::White) {
            seq![Piece { pos: Position::from_index_spec(n - 1), board: b }]
        } else {
            Seq::empty()
        })
    }
}

/// Every mover pawn of the board, in scan order.
pub open spec fn spec_pieces(b: Board) -> Seq<Piece> {
    pieces_up_to(b, 64)
}

/// The moves of a list of pieces, concatenated in list order.
pub open spec fn moves_concat(b: Board, ps: Seq<Piece>) -> Seq<Move>
    decreases ps.len(),
{
    if ps.len() == 0 {
        Seq::empty()
    } else {
        spec_piece_moves(b, ps[0].pos) + moves_concat(b, ps.drop_first())
    }
}

/// Every candidate move of the board: each pawn's moves in stage order,
/// pawns in scan order.
pub open spec fn spec_moves(b: Board) -> Seq<Move> {
    moves_concat(b, spec_pieces(b))
}

/// The candidate moves of the pawn at `p` on `b`, in stage order.
fn piece_move_list(b: &Board, p: Position) -> (v: Vec<Move>)
    requires
        b.wf(),
        p.wf(),
    ensures
        v@ == spec_piece_moves(*b, p),
{
    let mut v: Vec<Move> = Vec::new();
    let mut blocked = true;
    // single forward
    match p.front() {
        Some(f) => {
            if b.at(&f).is_empty() {
                v.push(Move { from: p, to: f, passant: false });
                blocked = false;
            }
        },
        None => {},
    }
    proof {
        assert(!blocked == fwd1_ok(*b, p));
        assert(fwd1_ok(*b, p) ==> v@ =~= seq![
            Move { from: p, to: step(p, 0, 1), passant: false },
        ]);
    }
    // double forward, never over an occupied square
    if !blocked && p.rank.n() == 2 {
        if let Some(f) = p.front() {
            if let Some(ff) = f.front() {
                if b.at(&ff).is_empty() {
                    v.push(Move { from: p, to: ff, passant: false });
                }
            }
        }
    }
    let ghost pre = (if fwd1_ok(*b, p) {
        seq![Move { from: p, to: step(p, 0, 1), passant: false }]
    } else {
        Seq::<Move>::empty()
    }) + (if fwd2_ok(*b, p) {
        seq![Move { from: p, to: step(p, 0, 2), passant: false }]
    } else {
        Seq::<Move>::empty()
    });
    proof {
        assert(v@ =~= pre);
    }
    // diagonal-left capture
    match p.diag_l() {
        Some(d) => {
            if b.at(&d).is_black() {
                v.push(Move { from: p, to: d, passant: false });
            }
        },
        None => {},
    }
    let ghost pre = pre + (if diag_l_ok(*b, p) {
        seq![Move { from: p, to: step(p, -1, 1), passant: false }]
    } else {
        Seq::<Move>::empty()
    });
    proof {
        assert(v@ =~= pre);
    }
    // diagonal-right capture
    match p.diag_r() {
        Some(d) => {
            if b.at(&d).is_black() {
                v.push(Move { from: p, to: d, passant: false });
            }
        },
        None => {},
    }
    let ghost pre = pre + (if diag_r_ok(*b, p) {
        seq![Move { from: p, to: step(p, 1, 1), passant: false }]
    } else {
        Seq::<Move>::empty()
    });
    proof {
        assert(v@ =~= pre);
    }
    // en-passant left
    match p.left() {
        Some(l) => {
            let is_target = match b.passantable_pos {
                Some(t) => l == t,
                None => false,
            };
            if is_target {
                if let Some(d) = p.diag_l() {
                    if b.at(&d).is_empty() {
                        v.push(Move { from: p, to: d, passant: true });
                    }
                }
            }
        },
        None => {},
    }
    let ghost pre = pre + (if pass_l_ok(*b, p) {
        seq![Move { from: p, to: step(p, -1, 1), passant: true }]
    } else {
        Seq::<Move>::empty()
    });
    proof {
        assert(v@ =~= pre);
    }
    // en-passant right
    match p.right() {
        Some(l) => {
            let is_target = match b.passantable_pos {
                Some(t) => l == t,
                None => false,
            };
            if is_target {
                if let Some(d) = p.diag_r() {
                    if b.at(&d).is_empty() {
                        v.push(Move { from: p, to: d, passant: true });
                    }
                }
            }
        },
        None => {},
    }
    proof {
        assert(v@ =~= spec_piece_moves(*b, p));
    }
    v
}

/// A cursor over the candidate moves of one pawn, already in stage order.
pub struct MovesIterator {
    pub items: Vec<Move>,
    pub at: usize,
}

impl MovesIterator {
    /// The moves not yet handed out.
    pub open spec fn remaining(self) -> Seq<Move> {
        self.items@.skip(self.at as int)
    }

    /// Hands out the next move, or `None` when the enumeration is spent.
    pub fn next(&mut self) -> (r: Option<Move>)
        ensures
            match r {
                Some(m) => old(self).at < old(self).items@.len() && m == old(self).items@[old(
                    self,
                ).at as int] && final (self).at == old(self).at + 1 && final (self).items == old(
                    self,
                ).items,
                None => old(self).at >= old(self).items@.len() && *final (self) == *old(self),
            },
    {
        if self.at < self.items.len() {
            let m = self.items[self.at];
            self.at = self.at + 1;
            Some(m)
        } else {
            None
        }
    }
}

impl Piece {
    /// Enumerates this pawn's candidate moves, in stage order.
    pub fn moves(self) -> (r: MovesIterator)
        requires
            self.board.wf(),
            self.pos.wf(),
        ensures
            r.at == 0,
            r.items@ == spec_piece_moves(self.board, self.pos),
            r.remaining() == spec_piece_moves(self.board, self.pos),
    {
        let items = piece_move_list(&self.board, self.pos);
        proof {
            assert(items@.skip(0) =~= items@);
        }
        MovesIterator { items, at: 0 }
    }
}

/// A cursor over the mover pawns of one board snapshot, in scan order.
pub struct PieceIterator {
    pub items: Vec<Piece>,
    pub at: usize,
}

impl PieceIterator {
    /// The pawns not yet handed out.
    pub open spec fn remaining(self) -> Seq<Piece> {
        self.items@.skip(self.at as int)
    }

    /// Hands out the next pawn, or `None` when the scan is spent.
    pub fn next(&mut self) -> (r: Option<Piece>)
        ensures
            match r {
                Some(p) => old(self).at < old(self).items@.len() && p == old(self).items@[old(
                    self,
                ).at as int] && final (self).at == old(self).at + 1 && final (self).items == old(
                    self,
                ).items,
                None => old(self).at >= old(self).items@.len() && *final (self) == *old(self),
            },
    {
        if self.at < self.items.len() {
            let p = self.items[self.at];
            self.at = self.at + 1;
            Some(p)
        } else {
            None
        }
    }
}

/// How a board and the board after a move relate: the source square is
/// cleared, the destination holds the mover's pawn, an en-passant capture
/// clears the captured pawn's own square, and the en-passant target is the
/// destination after a double-step and absent otherwise.
pub open spec fn after_matches(b: Board, m: Move, r: Board) -> bool {
    &&& r.passantable_pos == (if m.to.rank@ - m.from.rank@ == 2 {
        Some(m.to)
    } else {
        None::<Position>
    })
    &&& forall|i: int| 0 <= i < 64 ==> #[trigger] r.sq(i) == after_sq(b, m, i)
}

/// What square `i` holds after `m` is applied to `b`. The writes land in
/// order: source cleared, destination set, then the captured square of an
/// en-passant capture cleared.
pub open spec fn after_sq(b: Board, m: Move, i: int) -> Square {
    match b.passantable_pos {
        Some(t) => if m.passant && i == t.idx() {
            Square::Empty
        } else {
            after_sq_base(b, m, i)
        },
        None => after_sq_base(b, m, i),
    }
}

/// The non-en-passant part of a move's effect on square `i`.
pub open spec fn after_sq_base(b: Board, m: Move, i: int) -> Square {
    if i == m.to.idx() {
        Square::Piece(Colour::White)
    } else if i == m.from.idx() {
        Square::Empty
    } else {
        b.sq(i)
    }
}

impl Board {
    /// Enumerates the mover's pawns, in scan order.
    pub fn pieces(&self) -> (r: PieceIterator)
        requires
            self.wf(),
        ensures
            r.at == 0,
            r.items@ == spec_pieces(*self),
            r.remaining() == spec_pieces(*self),
    {
        let mut items: Vec<Piece> = Vec::new();
        let mut i: usize = 0;
        while i < 64
            invariant
                self.wf(),
                i <= 64,
                items@ == pieces_up_to(*self, i as int),
            decreases 64 - i,
        {
            let pos = Position::from_index(i);
            if self.at(&pos).is_white() {
                items.push(Piece { pos, board: *self });
            }
            proof {
                assert(items@ =~= pieces_up_to(*self, i as int + 1));
            }
            i = i + 1;
        }
        proof {
            assert(items@.skip(0) =~= items@);
        }
        PieceIterator { items, at: 0 }
    }

    /// Enumerates every candidate move of the mover: each pawn's moves in
    /// stage order, pawns in scan order.
    pub fn moves(&self) -> (r: MovesIterator)
        requires
            self.wf(),
        ensures
            r.at == 0,
            r.items@ == spec_moves(*self),
            r.remaining() == spec_moves(*self),
    {
        let mut pieces = self.pieces();
        let ghost all = pieces.items@;
        let mut items: Vec<Move> = Vec::new();
        let mut k: usize = 0;
        proof {
            lemma_pieces_wf(*self, 64);
            assert(all.skip(0) =~= all);
            assert(items@ + moves_concat(*self, all) =~= moves_concat(*self, all));
        }
        while k < pieces.items.len()
            invariant
                self.wf(),
                k <= all.len(),
                pieces.items@ == all,
                forall|j: int| 0 <= j < all.len() ==> (#[trigger] all[j].pos).wf() && all[j].board
                    == *self,
                items@ + moves_concat(*self, all.skip(k as int)) == moves_concat(*self, all),
            decreases all.len() - k,
        {
            let p = pieces.items[k];
            let mut more = piece_move_list(self, p.pos);
            proof {
                let rest = all.skip(k as int);
                assert(rest.drop_first() =~= all.skip(k as int + 1));
                assert(moves_concat(*self, rest) == spec_piece_moves(*self, p.pos) + moves_concat(
                    *self,
                    all.skip(k as int + 1),
                ));
                assert((items@ + more@) + moves_concat(*self, all.skip(k as int + 1)) =~= items@
                    + moves_concat(*self, rest));
            }
            items.append(&mut more);
            k = k + 1;
        }
        proof {
            assert(all.skip(all.len() as int) =~= Seq::<Piece>::empty());
            assert(items@ + Seq::<Move>::empty() =~= items@);
            assert(items@.skip(0) =~= items@);
        }
        MovesIterator { items, at: 0 }
    }

    /// Applies a candidate move, producing the next board. Callers must
    /// only apply moves generated from this same board; the squares of any
    /// other move are overwritten all the same, but the result means
    /// nothing for the game.
    pub fn after(&self, m: &Move) -> (r: Board)
        requires
            self.wf(),
            m.wf(),
            m.passant ==> self.passantable_pos is Some,
        ensures
            r.wf(),
            after_matches(*self, *m, r),
    {
        let mut b = *self;
        // delete old
        b.set(&m.from, Square::Empty);
        let ghost b1 = b;
        // set new
        b.set(&m.to, Square::Piece(Colour::White));
        let ghost b2 = b;
        // delete the pawn captured en passant
        if m.passant {
            match self.passantable_pos {
                Some(t) => {
                    b.set(&t, Square::Empty);
                },
                None => {},
            }
        }
        let ghost b3 = b;
        // register a fresh double-step, and only that, as capturable
        if m.to.rank.n() - m.from.rank.n() == 2 {
            b.passantable_pos = Some(m.to);
        } else {
            b.passantable_pos = None;
        }
        proof {
            assert forall|i: int| 0 <= i < 64 implies #[trigger] b.sq(i) == after_sq(
                *self,
                *m,
                i,
            ) by {
                assert(b1.sq(i) == (if i == m.from.idx() {
                    Square::Empty
                } else {
                    self.sq(i)
                }));
                assert(b2.sq(i) == (if i == m.to.idx() {
                    Square::Piece(Colour::White)
                } else {
                    b1.sq(i)
                }));
                assert(b2.sq(i) == after_sq_base(*self, *m, i));
                match self.passantable_pos {
                    Some(t) => {
                        if m.passant {
                            assert(b3.sq(i) == (if i == t.idx() {
                                Square::Empty
                            } else {
                                b2.sq(i)
                            }));
                        } else {
                            assert(b3.sq(i) == b2.sq(i));
                        }
                    },
                    None => {
                        assert(b3.sq(i) == b2.sq(i));
                    },
                }
                assert(b.sq(i) == b3.sq(i));
            }
        }
        b
    }
}

/// A mover pawn needs a square on the board; the pieces scan only yields
/// such squares.
pub proof fn lemma_pieces_wf(b: Board, n: int)
    requires
        0 <= n <= 64,
    ensures
        forall|j: int|
            0 <= j < pieces_up_to(b, n).len() ==> (#[trigger] pieces_up_to(b, n)[j].pos).wf()
                && pieces_up_to(b, n)[j].board == b && pieces_up_to(b, n)[j].pos.idx() < n,
    decreases n,
{
    if n > 0 {
        lemma_pieces_wf(b, n - 1);
    }
}

} // verus!
