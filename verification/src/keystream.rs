//! The keystream generator and symmetric stream encoder: a 64-bit
//! linear-congruential cursor emits one byte per step, and plaintext or
//! ciphertext is combined with it by byte-wise XOR. Encryption and decryption
//! are the same operation given synchronized generators.

use vstd::prelude::*;
use vstd::arithmetic::div_mod::{
    lemma_add_mod_noop, lemma_mod_mod, lemma_mod_sub_multiples_vanish, lemma_small_mod,
};
use crate::params::{LCG_INCREMENT, LCG_MODULUS, LCG_MULTIPLIER};

verus! {

/// One step of the linear-congruential generator:
/// `state' = (multiplier * state + increment) mod 2^32`.
pub open spec fn lcg_next(state: u64) -> u64 {
    (((LCG_MULTIPLIER as int) * (state as int) + (LCG_INCREMENT as int)) % (
    LCG_MODULUS as int)) as u64
}

/// The generator state after `n` steps from `state`.
pub open spec fn lcg_state(state: u64, n: nat) -> u64
    decreases n,
{
    if n == 0 {
        state
    } else {
        lcg_next(lcg_state(state, (n - 1) as nat))
    }
}

/// The keystream byte at offset `i` of a generator whose state is `state`:
/// the low 8 bits of the state after `i + 1` steps.
pub open spec fn keystream_byte(state: u64, i: nat) -> u8 {
    (lcg_state(state, i + 1) % 256) as u8
}

/// The `n`-byte keystream drawn from a generator whose state is `state`.
pub open spec fn keystream(state: u64, n: nat) -> Seq<u8> {
    Seq::new(n, |i: int| keystream_byte(state, i as nat))
}

/// `data` XORed byte-wise with the keystream drawn from `state`; exactly one
/// generator step is consumed per byte of `data`.
pub open spec fn transform(data: Seq<u8>, state: u64) -> Seq<u8> {
    Seq::new(data.len(), |i: int| data[i] ^ keystream_byte(state, i as nat))
}

/// A keystream generator: a mutable 64-bit cursor, seeded once from the
/// shared secret and advanced by exactly one step per byte emitted. Each
/// direction of a connection owns its own instance; reseeding one mid-session
/// would desynchronize the peers.
pub struct StreamCipher {
    state: u64,
}

impl View for StreamCipher {
    type V = u64;

    closed spec fn view(&self) -> u64 {
        self.state
    }
}

impl StreamCipher {
    /// A fresh generator whose cursor starts at `seed`.
    pub fn new(seed: u64) -> (cipher: Self)
        ensures
            cipher@ == seed,
    {
        StreamCipher { state: seed }
    }

    /// Advance the generator by one step and emit the low 8 bits of the new
    /// state.
    pub fn next_byte(&mut self) -> (b: u8)
        ensures
            final(self)@ == lcg_next(old(self)@),
            b == keystream_byte(old(self)@, 0),
    {
        let wrapped: u64 = LCG_MULTIPLIER.wrapping_mul(self.state).wrapping_add(LCG_INCREMENT);
        let next: u64 = wrapped % LCG_MODULUS;
        proof {
            lemma_lcg_step_folds(self.state, wrapped);
            assert(lcg_state(old(self)@, 0) == old(self)@);
            assert(lcg_state(old(self)@, 1) == lcg_next(old(self)@));
        }
        self.state = next;
        let b: u8 = (next & 0xFF) as u8;
        proof {
            assert((next & 0xFF) as u8 == (next % 256) as u8) by (bit_vector);
        }
        b
    }

    /// XOR `data` with the keystream, consuming exactly `data.len()`
    /// generator steps. This is both encryption and decryption.
    pub fn encrypt(&mut self, data: &[u8]) -> (out: Vec<u8>)
        ensures
            out@ == transform(data@, old(self)@),
            final(self)@ == lcg_state(old(self)@, data@.len()),
    {
        let mut out: Vec<u8> = Vec::new();
        let mut i: usize = 0;
        while i < data.len()
            invariant
                i <= data@.len(),
                out@.len() == i as nat,
                self@ == lcg_state(old(self)@, i as nat),
                forall|j: int|
                    0 <= j < i ==> #[trigger] out@[j] == (data@[j] ^ keystream_byte(
                        old(self)@,
                        j as nat,
                    )),
            decreases data@.len() - i,
        {
            let b = self.next_byte();
            proof {
                lemma_keystream_byte_step(old(self)@, i as nat);
            }
            out.push(data[i] ^ b);
            i += 1;
        }
        proof {
            assert(out@ =~= transform(data@, old(self)@));
        }
        out
    }

    /// Decryption is the identical operation: XOR with the same keystream.
    pub fn decrypt(&mut self, data: &[u8]) -> (out: Vec<u8>)
        ensures
            out@ == transform(data@, old(self)@),
            final(self)@ == lcg_state(old(self)@, data@.len()),
    {
        self.encrypt(data)
    }
}

/// The byte drawn after fast-forwarding the generator `i` steps is the byte
/// at offset `i` of the keystream, and drawing it advances the cursor to the
/// state after `i + 1` steps.
proof fn lemma_keystream_byte_step(state: u64, i: nat)
    ensures
        keystream_byte(lcg_state(state, i), 0) == keystream_byte(state, i),
        lcg_next(lcg_state(state, i)) == lcg_state(state, i + 1),
{
    let mid = lcg_state(state, i);
    assert(lcg_state(mid, 0) == mid);
    assert(lcg_state(mid, 1) == lcg_next(mid));
    assert(lcg_state(state, i + 1) == lcg_next(lcg_state(state, (i + 1 - 1) as nat)));
}

/// Law: transforming twice from the same starting state returns the original
/// bytes — decoding an encoded message with a generator seeded identically
/// and consumed in the same order round-trips.
pub proof fn lemma_transform_round_trip(data: Seq<u8>, state: u64)
    ensures
        transform(transform(data, state), state) == data,
{
    assert(forall|a: u8, k: u8| #[trigger] ((a ^ k) ^ k) == a) by (bit_vector);
    assert(transform(transform(data, state), state) =~= data);
}

/// Law: advancing the generator is additive across calls — `m` steps and then
/// `n` steps land on the same state as `m + n` steps at once.
pub proof fn lemma_lcg_state_additive(state: u64, m: nat, n: nat)
    ensures
        lcg_state(state, m + n) == lcg_state(lcg_state(state, m), n),
    decreases n,
{
    if n > 0 {
        lemma_lcg_state_additive(state, m, (n - 1) as nat);
    }
}

/// Law: the keystream depends only on the seed and the total number of bytes
/// drawn, not on how the draws are split across calls.
pub proof fn lemma_keystream_split(state: u64, m: nat, n: nat)
    ensures
        keystream(state, m + n) == keystream(state, m) + keystream(lcg_state(state, m), n),
{
    assert forall|i: int| m <= i < m + n implies #[trigger] keystream_byte(state, i as nat)
        == keystream_byte(lcg_state(state, m), (i - m) as nat) by {
        lemma_lcg_state_additive(state, m, (i - m + 1) as nat);
    }
    assert(keystream(state, m + n) =~= keystream(state, m) + keystream(lcg_state(state, m), n));
}

/// Law: transforming a concatenation equals transforming the pieces in order,
/// the second piece starting from the state the first piece left behind. With
/// the round-trip law this makes the keystream discipline independent of how
/// bytes are batched into encode/decode calls.
pub proof fn lemma_transform_split(a: Seq<u8>, b: Seq<u8>, state: u64)
    ensures
        transform(a + b, state) == transform(a, state) + transform(b, lcg_state(state, a.len())),
{
    assert forall|i: int| a.len() <= i < a.len() + b.len() implies #[trigger] keystream_byte(
        state,
        i as nat,
    ) == keystream_byte(lcg_state(state, a.len()), (i - a.len()) as nat) by {
        lemma_lcg_state_additive(state, a.len(), (i - a.len() + 1) as nat);
    }
    assert(transform(a + b, state) =~= transform(a, state) + transform(
        b,
        lcg_state(state, a.len()),
    ));
}

/// The 64-bit wrapped product-and-sum, reduced modulo 2^32, equals the exact
/// product-and-sum reduced modulo 2^32: 2^32 divides 2^64, so the wrap
/// discards only multiples of the final modulus.
proof fn lemma_lcg_step_folds(s: u64, wrapped: u64)
    requires
        wrapped == vstd::wrapping::u64_specs::wrapping_add(
            vstd::wrapping::u64_specs::wrapping_mul(LCG_MULTIPLIER, s),
            LCG_INCREMENT,
        ),
    ensures
        wrapped as int % (LCG_MODULUS as int) == (LCG_MULTIPLIER as int * s as int
            + LCG_INCREMENT as int) % (LCG_MODULUS as int),
{
    let two32 = 0x1_0000_0000int;
    let two64 = 0x1_0000_0000_0000_0000int;
    let x = LCG_MULTIPLIER as int * s as int;
    let c = LCG_INCREMENT as int;
    assert(two32 * two32 == two64);
    let w = vstd::wrapping::u64_specs::wrapping_mul(LCG_MULTIPLIER, s);
    assert(w as int == x % two64);
    if w + c > u64::MAX {
        lemma_mod_sub_multiples_vanish(w as int + c, two64);
        lemma_small_mod((w as int + c - two64) as nat, two64 as nat);
    } else {
        lemma_small_mod((w as int + c) as nat, two64 as nat);
    }
    assert(wrapped as int == (w as int + c) % two64);
    lemma_mod_mod(w as int + c, two32, two32);
    assert(wrapped as int % two32 == (w as int + c) % two32);
    lemma_mod_mod(x, two32, two32);
    assert(w as int % two32 == x % two32);
    lemma_add_mod_noop(w as int, c, two32);
    lemma_add_mod_noop(x, c, two32);
    lemma_small_mod(c as nat, two32 as nat);
    assert((w as int + c) % two32 == (x + c) % two32);
}

} // verus!
