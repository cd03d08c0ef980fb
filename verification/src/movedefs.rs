//! Move encoding and the move list.
//!
//! A move is packed into a single 64-bit word: from (6 bits), to (6 bits),
//! piece (3), captured (3), promoted (3), en-passant flag, double-step flag,
//! castling flag, and the sort score in the remaining high bits. Two moves
//! denote the same move when they agree on everything except the sort score.

use vstd::prelude::*;

verus! {

pub const MOVE_FROM_SHIFT: u64 = 0;

pub const MOVE_TO_SHIFT: u64 = 6;

pub const MOVE_PIECE_SHIFT: u64 = 12;

pub const MOVE_CAPTURED_SHIFT: u64 = 15;

pub const MOVE_PROMOTED_SHIFT: u64 = 18;

pub const MOVE_EP_SHIFT: u64 = 21;

pub const MOVE_DOUBLE_SHIFT: u64 = 22;

pub const MOVE_CASTLING_SHIFT: u64 = 23;

pub const MOVE_SCORE_SHIFT: u64 = 24;

/// Mask of the payload bits: everything except the sort score.
pub const MOVE_PAYLOAD_MASK: u64 = 0xFF_FFFF;

#[derive(Clone, Copy, Debug)]
pub struct Move {
    pub data: u64,
}

impl Move {
    /// Origin square, 0..64.
    pub open spec fn from_s(self) -> usize {
        (self.data & 0x3F) as usize
    }

    /// Destination square, 0..64.
    pub open spec fn to_s(self) -> usize {
        ((self.data >> 6) & 0x3F) as usize
    }

    /// Moving piece type.
    pub open spec fn piece_s(self) -> usize {
        ((self.data >> 12) & 0x7) as usize
    }

    /// Captured piece type, or the none sentinel.
    pub open spec fn captured_s(self) -> usize {
        ((self.data >> 15) & 0x7) as usize
    }

    /// Promotion piece type, or the none sentinel.
    pub open spec fn promoted_s(self) -> usize {
        ((self.data >> 18) & 0x7) as usize
    }

    /// True iff the move is an en-passant capture.
    pub open spec fn is_ep(self) -> bool {
        (self.data >> 21) & 1 == 1
    }

    /// True iff the move is a pawn double step.
    pub open spec fn is_double(self) -> bool {
        (self.data >> 22) & 1 == 1
    }

    /// True iff the move is a castling move.
    pub open spec fn is_castle(self) -> bool {
        (self.data >> 23) & 1 == 1
    }

    /// The move without its sort score.
    pub open spec fn payload(self) -> u64 {
        self.data & MOVE_PAYLOAD_MASK
    }

    /// The sort score stored in the high bits.
    pub open spec fn score_s(self) -> u32 {
        (self.data >> 24) as u32
    }

    pub fn new(data: u64) -> (m: Move)
        ensures
            m.data == data,
    {
        Move { data }
    }

    pub fn is_empty(&self) -> (r: bool)
        ensures
            r == (self.data == 0),
    {
        self.data == 0
    }

    pub fn from(&self) -> (r: usize)
        ensures
            r == self.from_s(),
            r < 64,
    {
        proof {
            let d = self.data;
            assert((d & 0x3F) < 64) by (bit_vector);
        }
        (self.data & 0x3F) as usize
    }

    pub fn to(&self) -> (r: usize)
        ensures
            r == self.to_s(),
            r < 64,
    {
        proof {
            let d = self.data;
            assert(((d >> 6) & 0x3F) < 64) by (bit_vector);
        }
        ((self.data >> 6) & 0x3F) as usize
    }

    pub fn piece(&self) -> (r: usize)
        ensures
            r == self.piece_s(),
            r < 8,
    {
        proof {
            let d = self.data;
            assert(((d >> 12) & 0x7) < 8) by (bit_vector);
        }
        ((self.data >> 12) & 0x7) as usize
    }

    pub fn captured(&self) -> (r: usize)
        ensures
            r == self.captured_s(),
            r < 8,
    {
        proof {
            let d = self.data;
            assert(((d >> 15) & 0x7) < 8) by (bit_vector);
        }
        ((self.data >> 15) & 0x7) as usize
    }

    pub fn promoted(&self) -> (r: usize)
        ensures
            r == self.promoted_s(),
            r < 8,
    {
        proof {
            let d = self.data;
            assert(((d >> 18) & 0x7) < 8) by (bit_vector);
        }
        ((self.data >> 18) & 0x7) as usize
    }

    pub fn en_passant(&self) -> (r: bool)
        ensures
            r == self.is_ep(),
    {
        (self.data >> 21) & 1 == 1
    }

    pub fn double_step(&self) -> (r: bool)
        ensures
            r == self.is_double(),
    {
        (self.data >> 22) & 1 == 1
    }

    pub fn castling(&self) -> (r: bool)
        ensures
            r == self.is_castle(),
    {
        (self.data >> 23) & 1 == 1
    }

    pub fn get_sort_score(&self) -> (r: u32)
        ensures
            r == self.score_s(),
    {
        (self.data >> 24) as u32
    }

    /// Replace the sort score, leaving the move payload unchanged.
    pub fn set_sort_score(&mut self, score: u32)
        ensures
            final(self).payload() == old(self).payload(),
            final(self).score_s() == score,
    {
        let new_data = (self.data & MOVE_PAYLOAD_MASK) | ((score as u64) << 24);
        proof {
            let d = self.data;
            let s = score;
            assert(((d & 0xFF_FFFFu64) | ((s as u64) << 24)) & 0xFF_FFFFu64 == d & 0xFF_FFFFu64)
                by (bit_vector);
            assert((((d & 0xFF_FFFFu64) | ((s as u64) << 24)) >> 24) as u32 == s) by (bit_vector);
        }
        self.data = new_data;
    }

    /// Two moves denote the same move when they agree on all fields except
    /// the sort score.
    pub fn same_move(&self, other: &Move) -> (r: bool)
        ensures
            r == (self.payload() == other.payload()),
    {
        self.data & MOVE_PAYLOAD_MASK == other.data & MOVE_PAYLOAD_MASK
    }
}

/// Pack the given move fields into one word.
pub fn build_move(
    from: usize,
    to: usize,
    piece: usize,
    captured: usize,
    promoted: usize,
    ep: bool,
    double_step: bool,
    castling: bool,
) -> (m: Move)
    requires
        from < 64,
        to < 64,
        piece < 8,
        captured < 8,
        promoted < 8,
    ensures
        m.from_s() == from,
        m.to_s() == to,
        m.piece_s() == piece,
        m.captured_s() == captured,
        m.promoted_s() == promoted,
        m.is_ep() == ep,
        m.is_double() == double_step,
        m.is_castle() == castling,
        m.score_s() == 0,
{
    let f = from as u64;
    let t = to as u64;
    let p = piece as u64;
    let c = captured as u64;
    let pr = promoted as u64;
    let e: u64 = if ep {
        1
    } else {
        0
    };
    let d: u64 = if double_step {
        1
    } else {
        0
    };
    let cs: u64 = if castling {
        1
    } else {
        0
    };
    let data = f | (t << 6) | (p << 12) | (c << 15) | (pr << 18) | (e << 21) | (d << 22) | (cs
        << 23);
    proof {
        let dd = data;
        assert({
            &&& dd & 0x3F == f
            &&& (dd >> 6) & 0x3F == t
            &&& (dd >> 12) & 0x7 == p
            &&& (dd >> 15) & 0x7 == c
            &&& (dd >> 18) & 0x7 == pr
            &&& (dd >> 21) & 1 == e
            &&& (dd >> 22) & 1 == d
            &&& (dd >> 23) & 1 == cs
            &&& (dd >> 24) == 0
        }) by (bit_vector)
            requires
                f < 64 && t < 64 && p < 8 && c < 8 && pr < 8 && e < 2 && d < 2 && cs < 2 && dd == (
                f | (t << 6) | (p << 12) | (c << 15) | (pr << 18) | (e << 21) | (d << 22) | (cs
                    << 23)),
        ;
    }
    Move { data }
}

/// An insertion-ordered list of moves.
pub struct MoveList {
    pub list: Vec<Move>,
}

impl MoveList {
    pub open spec fn view(self) -> Seq<Move> {
        self.list@
    }

    pub fn new() -> (ml: MoveList)
        ensures
            ml@ =~= Seq::<Move>::empty(),
    {
        MoveList { list: Vec::new() }
    }

    pub fn len(&self) -> (r: usize)
        ensures
            r == self@.len(),
    {
        self.list.len()
    }

    pub fn push(&mut self, m: Move)
        ensures
            final(self)@ == old(self)@.push(m),
    {
        self.list.push(m);
    }

    pub fn get_move(&self, index: usize) -> (m: Move)
        requires
            index < self@.len(),
        ensures
            m == self@[index as int],
    {
        self.list[index]
    }

    /// Overwrite the move at `index`.
    pub fn set_move(&mut self, index: usize, m: Move)
        requires
            index < old(self)@.len(),
        ensures
            final(self)@ == old(self)@.update(index as int, m),
    {
        self.list[index] = m;
    }

    /// Exchange the moves at two positions.
    pub fn swap(&mut self, a: usize, b: usize)
        requires
            a < old(self)@.len(),
            b < old(self)@.len(),
        ensures
            final(self)@ == old(self)@.update(a as int, old(self)@[b as int]).update(
                b as int,
                old(self)@[a as int],
            ),
    {
        let ma = self.list[a];
        let mb = self.list[b];
        self.list[a] = mb;
        self.list[b] = ma;
    }
}

} // verus!
