//! The key-agreement protocol: each peer draws an ephemeral private scalar,
//! computes `generator^private mod prime`, exchanges the 8-byte public values
//! in a role-determined order, and derives the shared secret
//! `their_public^private mod prime` — the same value on both sides.

use vstd::prelude::*;
use vstd::arithmetic::power::{lemma_pow_mod_noop, lemma_pow_multiplies, pow};
use vstd::arithmetic::mul::lemma_mul_is_commutative;
use crate::modexp::modular_pow;
use crate::params::{DH_GENERATOR, DH_PRIME};

verus! {

/// The two connection roles. The initiator connects and goes first — it
/// writes its public value first during the handshake and sends the first
/// chat turn; the responder accepts and goes second. Both peers taking the
/// same order would deadlock, so the order is fixed by role.
#[derive(Clone, Copy, PartialEq, Eq, Structural, Debug)]
pub enum Role {
    Initiator,
    Responder,
}

impl Role {
    /// Whether this role writes its 8-byte public value before reading the
    /// peer's during the handshake.
    pub fn writes_public_first(self) -> (b: bool)
        ensures
            b == (self == Role::Initiator),
    {
        match self {
            Role::Initiator => true,
            Role::Responder => false,
        }
    }
}

/// Exponentiation modulo the fixed prime, the arithmetic every handshake
/// value uses.
pub open spec fn spec_pow_mod(base: u64, exponent: u64) -> int {
    pow(base as int, exponent as nat) % (DH_PRIME as int)
}

/// One round of 64-bit xorshift mixing.
pub open spec fn spec_mix_round(x: u64) -> u64 {
    let a = x ^ (x >> 12);
    let b = a ^ (a << 25);
    b ^ (b >> 27)
}

/// The pseudorandom mixing of one raw entropy word: force it odd, then run
/// five rounds of 64-bit xorshift.
pub open spec fn spec_mix(raw: u64) -> u64 {
    spec_mix_round(spec_mix_round(spec_mix_round(spec_mix_round(spec_mix_round(raw | 1)))))
}

/// Mix one raw entropy word into a scattered 64-bit value.
pub fn mix_entropy(raw: u64) -> (x: u64)
    ensures
        x == spec_mix(raw),
{
    let mut x: u64 = raw | 1;
    let mut round: usize = 0;
    while round < 5
        invariant
            round <= 5,
            round == 0 ==> x == raw | 1,
            round == 1 ==> x == spec_mix_round(raw | 1),
            round == 2 ==> x == spec_mix_round(spec_mix_round(raw | 1)),
            round == 3 ==> x == spec_mix_round(spec_mix_round(spec_mix_round(raw | 1))),
            round == 4 ==> x == spec_mix_round(
                spec_mix_round(spec_mix_round(spec_mix_round(raw | 1))),
            ),
            round == 5 ==> x == spec_mix(raw),
        decreases 5 - round,
    {
        x = x ^ (x >> 12);
        x = x ^ (x << 25);
        x = x ^ (x >> 27);
        round += 1;
    }
    x
}

/// A private scalar in `[2, prime - 2]` from one word of entropy: the word
/// is mixed, then reduced into the valid range.
pub fn derive_private_key(entropy: u64) -> (k: u64)
    ensures
        k as int == 2 + (spec_mix(entropy) as int % (DH_PRIME as int - 3)),
        2 <= k <= DH_PRIME - 2,
{
    let x = mix_entropy(entropy);
    2 + x % (DH_PRIME - 3)
}

/// An ephemeral key pair: a secret scalar in `[2, prime - 2]` and the public
/// value `generator^private mod prime`. It exists only for the duration of
/// one handshake; the secret is never transmitted.
pub struct KeyPair {
    private_part: u64,
    public_part: u64,
}

impl KeyPair {
    /// The secret scalar.
    pub closed spec fn private_spec(&self) -> u64 {
        self.private_part
    }

    /// The public value.
    pub closed spec fn public_spec(&self) -> u64 {
        self.public_part
    }

    /// Well-formed: the scalar is in the valid range and the public value is
    /// derived from it.
    pub open spec fn wf(&self) -> bool {
        &&& 2 <= self.private_spec() <= DH_PRIME - 2
        &&& self.public_spec() as int == spec_pow_mod(DH_GENERATOR, self.private_spec())
    }

    /// A fresh key pair from one word of entropy.
    pub fn generate(entropy: u64) -> (kp: KeyPair)
        ensures
            kp.wf(),
            kp.private_spec() as int == 2 + (spec_mix(entropy) as int % (DH_PRIME as int - 3)),
    {
        let private_part = derive_private_key(entropy);
        let public_part = modular_pow(DH_GENERATOR, private_part, DH_PRIME);
        KeyPair { private_part, public_part }
    }

    /// The public value, as sent to the peer.
    pub fn public_value(&self) -> (v: u64)
        ensures
            v == self.public_spec(),
    {
        self.public_part
    }

    /// The shared secret `their_public^private mod prime`. By
    /// `lemma_handshake_agreement` both peers compute the same value, each
    /// from the other's public value. A peer value outside `[1, prime - 1]`
    /// is not rejected; it is processed like any other.
    pub fn shared_secret(&self, their_public: u64) -> (s: u64)
        ensures
            s as int == spec_pow_mod(their_public, self.private_spec()),
    {
        modular_pow(their_public, self.private_part, DH_PRIME)
    }
}

/// Law (general form): over any base and positive modulus, the two orders of
/// nested exponentiation agree: `(g^a mod p)^b mod p == (g^b mod p)^a mod p`.
pub proof fn lemma_pow_mod_commutes(g: int, p: int, a: nat, b: nat)
    requires
        p >= 1,
    ensures
        pow(pow(g, a) % p, b) % p == pow(pow(g, b) % p, a) % p,
{
    lemma_pow_mod_noop(pow(g, a), b, p);
    lemma_pow_multiplies(g, a, b);
    lemma_pow_mod_noop(pow(g, b), a, p);
    lemma_pow_multiplies(g, b, a);
    lemma_mul_is_commutative(a as int, b as int);
}

/// Law: two well-formed key pairs agree on the shared secret — each side
/// raising the other's public value to its own secret yields one value,
/// which is what lets the handshake seed both keystreams identically.
pub proof fn lemma_handshake_agreement(ours: KeyPair, theirs: KeyPair)
    requires
        ours.wf(),
        theirs.wf(),
    ensures
        spec_pow_mod(theirs.public_spec(), ours.private_spec()) == spec_pow_mod(
            ours.public_spec(),
            theirs.private_spec(),
        ),
{
    lemma_pow_mod_commutes(
        DH_GENERATOR as int,
        DH_PRIME as int,
        theirs.private_spec() as nat,
        ours.private_spec() as nat,
    );
}

} // verus!
