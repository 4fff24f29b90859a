//! Benchmark payloads: per-stream seeds and the pseudo-random buffer each stream sends.

use vstd::prelude::*;

use rand_chacha::ChaCha8Rng;
use rand_core::{RngCore, SeedableRng};

verus! {

/// The size of the reusable payload buffer: 256 KiB.
pub const BUFFER_SIZE: usize = 262144;

/// The odd constant (2^64 divided by the golden ratio) that spreads stream numbers over 64 bits.
pub const GOLDEN_GAMMA: u64 = 0x9E37_79B9_7F4A_7C15;

/// The bytes a ChaCha8 generator seeded by `ChaCha8Rng::seed_from_u64(seed)` writes into a
/// buffer of `len` bytes with `fill_bytes`.
pub uninterp spec fn chacha8_bytes(seed: u64, len: nat) -> Seq<u8>;

/// Calls `ChaCha8Rng::seed_from_u64` and `RngCore::fill_bytes` on a zeroed buffer of `len`
/// bytes. The contract claims that the buffer keeps its length and that its bytes are a function
/// of the seed and the length alone (rand_core expands the seed with PCG32, rand_chacha's
/// generator is deterministic), named `chacha8_bytes`; the keystream itself is not stated.
#[verifier::external_body]
fn chacha8_fill(seed: u64, len: usize) -> (r: Vec<u8>)
    ensures
        r@.len() == len,
        r@ == chacha8_bytes(seed, len as nat),
{
    let mut rng = ChaCha8Rng::seed_from_u64(seed);
    let mut buf = vec![0u8; len];
    rng.fill_bytes(&mut buf);
    buf
}

/// Generates the payload buffer of a seed: `BUFFER_SIZE` bytes of its ChaCha8 keystream.
pub fn make_buffer(seed: u64) -> (r: Vec<u8>)
    ensures
        r@.len() == BUFFER_SIZE,
        r@ == chacha8_bytes(seed, BUFFER_SIZE as nat),
{
    chacha8_fill(seed, BUFFER_SIZE)
}

/// The seed of a stream: the session seed mixed with the stream number times the golden gamma.
pub open spec fn stream_seed_spec(session_seed: u64, stream_id: u16) -> u64 {
    session_seed ^ (stream_id as u64).wrapping_mul(GOLDEN_GAMMA)
}

/// Derives a stream's seed from the session seed.
pub fn stream_seed(session_seed: u64, stream_id: u16) -> (r: u64)
    ensures
        r == stream_seed_spec(session_seed, stream_id),
{
    session_seed ^ (stream_id as u64).wrapping_mul(GOLDEN_GAMMA)
}

/// Deriving a stream seed twice with the same stream number gives the session seed back, and
/// stream 0 uses the session seed itself.
pub proof fn lemma_stream_seed_involution(session_seed: u64, stream_id: u16)
    ensures
        stream_seed_spec(stream_seed_spec(session_seed, stream_id), stream_id) == session_seed,
        stream_seed_spec(session_seed, 0) == session_seed,
{
    let m = (stream_id as u64).wrapping_mul(GOLDEN_GAMMA);
    assert((session_seed ^ m) ^ m == session_seed) by (bit_vector);
    assert((0u64).wrapping_mul(GOLDEN_GAMMA) == 0);
    assert(session_seed ^ 0u64 == session_seed) by (bit_vector);
}

/// Two different stream numbers of one session get different seeds: multiplication by the odd
/// golden gamma is one to one on the 16-bit stream numbers.
pub proof fn lemma_stream_seeds_distinct(session_seed: u64, a: u16, b: u16)
    requires
        a != b,
    ensures
        stream_seed_spec(session_seed, a) != stream_seed_spec(session_seed, b),
{
    let x = a as u64;
    let y = b as u64;
    let ma = x.wrapping_mul(GOLDEN_GAMMA);
    let mb = y.wrapping_mul(GOLDEN_GAMMA);
    assert(x < 0x10000 && y < 0x10000 && x != y ==> ma != mb) by (bit_vector)
        requires
            ma == x.wrapping_mul(GOLDEN_GAMMA),
            mb == y.wrapping_mul(GOLDEN_GAMMA),
    ;
    assert(ma != mb ==> (session_seed ^ ma) != (session_seed ^ mb)) by (bit_vector);
}

} // verus!
