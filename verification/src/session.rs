//! The framed session protocol: after the handshake, each direction owns one
//! keystream generator seeded from the shared secret, and the peers strictly
//! alternate turns — the initiator sends first, the responder receives first.
//! Each message travels as an envelope (4-byte big-endian length, then the
//! ciphertext). A connection that ends before a full length header arrives is
//! a clean session end, not an error.

use vstd::prelude::*;
use crate::handshake::Role;
use crate::keystream::{lcg_state, lemma_transform_round_trip, transform, StreamCipher};
use crate::wire::{
    encode_envelope, lemma_u32_be_round_trip, spec_envelope, spec_u32_be, spec_u32_from_be,
    u32_from_be_bytes,
};

verus! {

/// Whose move it is in the strictly alternating turn loop.
#[derive(Clone, Copy, PartialEq, Eq, Structural, Debug)]
pub enum Turn {
    Send,
    Receive,
}

/// The first turn after the channel is established: the initiator sends
/// first, the responder receives first. After the first turn the two
/// operations strictly alternate.
pub open spec fn spec_first_turn(role: Role) -> Turn {
    match role {
        Role::Initiator => Turn::Send,
        Role::Responder => Turn::Receive,
    }
}

/// An established session: one keystream generator per direction, both
/// seeded once from the shared secret and never reseeded, the alternating
/// turn cursor, and whether the connection has closed. Closing is terminal.
pub struct Session {
    outbound: StreamCipher,
    inbound: StreamCipher,
    turn: Turn,
    closed: bool,
}

impl Session {
    /// The outbound generator's cursor.
    pub closed spec fn outbound_state(&self) -> u64 {
        self.outbound@
    }

    /// The inbound generator's cursor.
    pub closed spec fn inbound_state(&self) -> u64 {
        self.inbound@
    }

    /// Whose move it is.
    pub closed spec fn turn_spec(&self) -> Turn {
        self.turn
    }

    /// Whether the session has ended.
    pub closed spec fn is_closed(&self) -> bool {
        self.closed
    }

    /// Establish a session from a successful key agreement: both generators
    /// are seeded from the shared secret with their byte counters at zero,
    /// and the turn cursor starts at the role's first turn.
    pub fn establish(role: Role, shared_secret: u64) -> (s: Session)
        ensures
            s.outbound_state() == shared_secret,
            s.inbound_state() == shared_secret,
            s.turn_spec() == spec_first_turn(role),
            !s.is_closed(),
    {
        let turn = match role {
            Role::Initiator => Turn::Send,
            Role::Responder => Turn::Receive,
        };
        Session {
            outbound: StreamCipher::new(shared_secret),
            inbound: StreamCipher::new(shared_secret),
            turn,
            closed: false,
        }
    }

    /// Whether the session has ended; once true, no turn is taken again.
    pub fn has_closed(&self) -> (b: bool)
        ensures
            b == self.is_closed(),
    {
        self.closed
    }

    /// A send turn: encrypt the plaintext with the outbound generator and
    /// frame it as an envelope; the turn passes to the peer. Exactly
    /// `plaintext.len()` outbound generator steps are consumed, and the
    /// inbound generator does not move.
    pub fn send_turn(&mut self, plaintext: &[u8]) -> (envelope: Vec<u8>)
        requires
            old(self).turn_spec() == Turn::Send,
            !old(self).is_closed(),
            plaintext@.len() <= u32::MAX,
        ensures
            envelope@ == spec_envelope(transform(plaintext@, old(self).outbound_state())),
            final(self).outbound_state() == lcg_state(
                old(self).outbound_state(),
                plaintext@.len(),
            ),
            final(self).inbound_state() == old(self).inbound_state(),
            final(self).turn_spec() == Turn::Receive,
            !final(self).is_closed(),
    {
        let ciphertext = self.outbound.encrypt(plaintext);
        self.turn = Turn::Receive;
        encode_envelope(ciphertext.as_slice())
    }

    /// Begin a receive turn from whatever the connection yielded for the
    /// 4-byte length header. `None`, or fewer than 4 bytes — the connection
    /// closed mid-header — is a clean session end: the session transitions
    /// to closed and no error is surfaced. On a full header the envelope's
    /// payload length is returned and the session is unchanged.
    pub fn on_header(&mut self, header: Option<&[u8]>) -> (length: Option<u32>)
        requires
            old(self).turn_spec() == Turn::Receive,
            !old(self).is_closed(),
        ensures
            final(self).outbound_state() == old(self).outbound_state(),
            final(self).inbound_state() == old(self).inbound_state(),
            final(self).turn_spec() == old(self).turn_spec(),
            match header {
                Some(h) => if h@.len() == 4 {
                    &&& length == Some(spec_u32_from_be(h@))
                    &&& !final(self).is_closed()
                } else {
                    &&& length is None
                    &&& final(self).is_closed()
                },
                None => {
                    &&& length is None
                    &&& final(self).is_closed()
                },
            },
    {
        match header {
            Some(h) => {
                if h.len() == 4 {
                    Some(u32_from_be_bytes(h))
                } else {
                    self.closed = true;
                    None
                }
            },
            None => {
                self.closed = true;
                None
            },
        }
    }

    /// A receive turn: the header was already accepted and exactly `length`
    /// ciphertext bytes were read; decrypt them with the inbound generator
    /// and hand the plaintext up; the turn passes back. Exactly
    /// `ciphertext.len()` inbound generator steps are consumed, and the
    /// outbound generator does not move. A zero-length envelope is valid and
    /// decodes to an empty payload.
    pub fn receive_turn(&mut self, ciphertext: &[u8]) -> (plaintext: Vec<u8>)
        requires
            old(self).turn_spec() == Turn::Receive,
            !old(self).is_closed(),
        ensures
            plaintext@ == transform(ciphertext@, old(self).inbound_state()),
            final(self).inbound_state() == lcg_state(
                old(self).inbound_state(),
                ciphertext@.len(),
            ),
            final(self).outbound_state() == old(self).outbound_state(),
            final(self).turn_spec() == Turn::Send,
            !final(self).is_closed(),
    {
        let plaintext = self.inbound.decrypt(ciphertext);
        self.turn = Turn::Send;
        plaintext
    }

    /// Complete a receive turn from whatever the connection yielded for the
    /// announced ciphertext. `None` — the stream ended before the full
    /// payload arrived — is treated identically to a closed connection: the
    /// session transitions to closed and no error is surfaced. On a full
    /// payload the plaintext is returned as by `receive_turn`.
    pub fn on_payload(&mut self, payload: Option<&[u8]>) -> (plaintext: Option<Vec<u8>>)
        requires
            old(self).turn_spec() == Turn::Receive,
            !old(self).is_closed(),
        ensures
            final(self).outbound_state() == old(self).outbound_state(),
            match payload {
                Some(c) => {
                    &&& plaintext matches Some(p) && p@ == transform(
                        c@,
                        old(self).inbound_state(),
                    )
                    &&& final(self).inbound_state() == lcg_state(
                        old(self).inbound_state(),
                        c@.len(),
                    )
                    &&& final(self).turn_spec() == Turn::Send
                    &&& !final(self).is_closed()
                },
                None => {
                    &&& plaintext is None
                    &&& final(self).inbound_state() == old(self).inbound_state()
                    &&& final(self).turn_spec() == old(self).turn_spec()
                    &&& final(self).is_closed()
                },
            },
    {
        match payload {
            Some(ciphertext) => Some(self.receive_turn(ciphertext)),
            None => {
                self.closed = true;
                None
            },
        }
    }

    /// End the session; terminal — no further turn is taken.
    pub fn close(&mut self)
        ensures
            final(self).is_closed(),
            final(self).outbound_state() == old(self).outbound_state(),
            final(self).inbound_state() == old(self).inbound_state(),
            final(self).turn_spec() == old(self).turn_spec(),
    {
        self.closed = true;
    }
}

/// Law: an envelope produced by a send turn is decoded exactly by the
/// matching receive turn. Its header carries the ciphertext length, and
/// transforming the carried ciphertext from the generator state the sender
/// started at returns the plaintext — so two sessions whose generators are
/// seeded identically and advanced in lockstep agree on every message.
pub proof fn lemma_envelope_round_trip(plaintext: Seq<u8>, state: u64)
    requires
        plaintext.len() <= u32::MAX,
    ensures
        spec_envelope(transform(plaintext, state)).len() == 4 + plaintext.len(),
        spec_u32_from_be(spec_envelope(transform(plaintext, state)).take(4)) == plaintext.len()
            as u32,
        transform(spec_envelope(transform(plaintext, state)).skip(4), state) == plaintext,
{
    let ciphertext = transform(plaintext, state);
    let envelope = spec_envelope(ciphertext);
    lemma_u32_be_round_trip(plaintext.len() as u32);
    assert(envelope.take(4) =~= spec_u32_be(ciphertext.len() as u32));
    assert(envelope.skip(4) =~= ciphertext);
    lemma_transform_round_trip(plaintext, state);
}

} // verus!
