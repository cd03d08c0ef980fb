//! The process-wide table of 64-bit hashing keys: one per (side, piece,
//! square), one per castling bitmask, one per en-passant file plus a slot for
//! "no en-passant square", and one per side to move. The table is filled by a
//! deterministic pseudo-random generator, so every table built in a process
//! is identical.

use vstd::prelude::*;
use vstd::wrapping::u64_specs;

verus! {

pub type ZobristKey = u64;

/// Seed of the key generator; fixed so the table is reproducible.
pub const ZOBRIST_SEED: u64 = 0x1d2c_3b4a_5968_7788;

pub const NR_PIECE_KEYS: usize = 768;

pub const NR_CASTLING_KEYS: usize = 16;

pub const NR_SIDE_KEYS: usize = 2;

/// Eight en-passant files plus one slot for "none".
pub const NR_EP_KEYS: usize = 9;

/// The state advance of the splitmix-style generator.
pub open spec fn stream_state(k: nat) -> u64
    decreases k,
{
    if k == 0 {
        ZOBRIST_SEED
    } else {
        u64_specs::wrapping_add(stream_state((k - 1) as nat), 0x9E37_79B9_7F4A_7C15)
    }
}

/// The output mixing of the splitmix-style generator.
pub open spec fn splitmix_mix(s: u64) -> u64 {
    let z1 = u64_specs::wrapping_mul(s ^ (s >> 30), 0xBF58_476D_1CE4_E5B9);
    let z2 = u64_specs::wrapping_mul(z1 ^ (z1 >> 27), 0x94D0_49BB_1331_11EB);
    z2 ^ (z2 >> 31)
}

/// The k-th key of the generator's stream, counted from zero.
pub open spec fn stream_key(k: nat) -> u64 {
    splitmix_mix(stream_state(k + 1))
}

/// Advance the generator state and produce the next key.
fn next_random(state: &mut u64) -> (r: u64)
    ensures
        *final(state) == u64_specs::wrapping_add(*old(state), 0x9E37_79B9_7F4A_7C15),
        r == splitmix_mix(*final(state)),
{
    *state = state.wrapping_add(0x9E37_79B9_7F4A_7C15);
    let mut z: u64 = *state;
    z = (z ^ (z >> 30)).wrapping_mul(0xBF58_476D_1CE4_E5B9);
    z = (z ^ (z >> 27)).wrapping_mul(0x94D0_49BB_1331_11EB);
    z ^ (z >> 31)
}

pub struct ZobristRandoms {
    pub rnd_pieces: Vec<u64>,
    pub rnd_castling: Vec<u64>,
    pub rnd_sides: Vec<u64>,
    pub rnd_en_passant: Vec<u64>,
}

impl ZobristRandoms {
    pub open spec fn wf(self) -> bool {
        &&& self.rnd_pieces@.len() == 768
        &&& self.rnd_castling@.len() == 16
        &&& self.rnd_sides@.len() == 2
        &&& self.rnd_en_passant@.len() == 9
    }

    /// The tables hold exactly the seeded generator's key stream.
    pub open spec fn seeded(self) -> bool {
        &&& forall|i: int| 0 <= i < 768 ==> #[trigger] self.rnd_pieces@[i] == stream_key(i as nat)
        &&& forall|i: int|
            0 <= i < 16 ==> #[trigger] self.rnd_castling@[i] == stream_key((768 + i) as nat)
        &&& forall|i: int|
            0 <= i < 2 ==> #[trigger] self.rnd_sides@[i] == stream_key((784 + i) as nat)
        &&& forall|i: int|
            0 <= i < 9 ==> #[trigger] self.rnd_en_passant@[i] == stream_key((786 + i) as nat)
    }

    pub fn new() -> (zr: ZobristRandoms)
        ensures
            zr.wf(),
            zr.seeded(),
    {
        let mut state: u64 = ZOBRIST_SEED;
        let mut rnd_pieces: Vec<u64> = Vec::new();
        let mut rnd_castling: Vec<u64> = Vec::new();
        let mut rnd_sides: Vec<u64> = Vec::new();
        let mut rnd_en_passant: Vec<u64> = Vec::new();
        for i in 0..768usize
            invariant
                rnd_pieces@.len() == i,
                state == stream_state(i as nat),
                forall|k: int| 0 <= k < i ==> #[trigger] rnd_pieces@[k] == stream_key(k as nat),
        {
            let k = next_random(&mut state);
            rnd_pieces.push(k);
        }
        for i in 0..16usize
            invariant
                rnd_castling@.len() == i,
                state == stream_state((768 + i) as nat),
                forall|k: int|
                    0 <= k < i ==> #[trigger] rnd_castling@[k] == stream_key((768 + k) as nat),
        {
            let k = next_random(&mut state);
            rnd_castling.push(k);
        }
        for i in 0..2usize
            invariant
                rnd_sides@.len() == i,
                state == stream_state((784 + i) as nat),
                forall|k: int|
                    0 <= k < i ==> #[trigger] rnd_sides@[k] == stream_key((784 + k) as nat),
        {
            let k = next_random(&mut state);
            rnd_sides.push(k);
        }
        for i in 0..9usize
            invariant
                rnd_en_passant@.len() == i,
                state == stream_state((786 + i) as nat),
                forall|k: int|
                    0 <= k < i ==> #[trigger] rnd_en_passant@[k] == stream_key((786 + k) as nat),
        {
            let k = next_random(&mut state);
            rnd_en_passant.push(k);
        }
        ZobristRandoms { rnd_pieces, rnd_castling, rnd_sides, rnd_en_passant }
    }

    /// Key for a piece of a side on a square.
    pub fn piece(&self, side: usize, piece: usize, square: usize) -> (r: u64)
        requires
            self.wf(),
            side < 2,
            piece < 6,
            square < 64,
        ensures
            r == self.rnd_pieces@[(side * 6 + piece) * 64 + square],
    {
        self.rnd_pieces[(side * 6 + piece) * 64 + square]
    }

    /// Key for a castling permission bitmask.
    pub fn castling(&self, castling_permissions: u8) -> (r: u64)
        requires
            self.wf(),
            castling_permissions < 16,
        ensures
            r == self.rnd_castling@[castling_permissions as int],
    {
        self.rnd_castling[castling_permissions as usize]
    }

    /// Key for the side to move.
    pub fn side(&self, side: usize) -> (r: u64)
        requires
            self.wf(),
            side < 2,
        ensures
            r == self.rnd_sides@[side as int],
    {
        self.rnd_sides[side]
    }

    /// Key for the en-passant state, by file, with a fixed slot for "none".
    pub fn en_passant(&self, en_passant: Option<u8>) -> (r: u64)
        requires
            self.wf(),
            en_passant is Some ==> en_passant->0 < 64,
        ensures
            r == match en_passant {
                Some(e) => self.rnd_en_passant@[(e % 8) as int],
                None => self.rnd_en_passant@[8],
            },
    {
        match en_passant {
            Some(e) => self.rnd_en_passant[(e % 8) as usize],
            None => self.rnd_en_passant[8],
        }
    }
}

} // verus!
