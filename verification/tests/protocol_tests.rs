use dhchat::handshake::{derive_private_key, KeyPair, Role};
use dhchat::params::DH_PRIME;
use dhchat::session::Session;
use dhchat::wire::{u64_from_be_bytes, u64_to_be_bytes};

#[test]
fn private_key_in_valid_range() {
    for entropy in [0u64, 1, 2, 42, u64::MAX, 0x1234_5678_9ABC_DEF0] {
        let k = derive_private_key(entropy);
        assert!((2..=DH_PRIME - 2).contains(&k));
    }
}

#[test]
fn private_keys_vary_with_entropy() {
    assert_ne!(derive_private_key(1), derive_private_key(2));
}

#[test]
fn handshake_both_sides_agree() {
    for (ea, eb) in [(1u64, 2u64), (0, u64::MAX), (123_456, 654_321)] {
        let a = KeyPair::generate(ea);
        let b = KeyPair::generate(eb);
        let secret_a = a.shared_secret(b.public_value());
        let secret_b = b.shared_secret(a.public_value());
        assert_eq!(secret_a, secret_b);
    }
}

#[test]
fn handshake_known_shared_secret() {
    let a = KeyPair::generate(1);
    let b = KeyPair::generate(2);
    assert_eq!(a.shared_secret(b.public_value()), 0x80C9_1315_22D1_47BD);
}

#[test]
fn roles_fix_the_handshake_order() {
    assert!(Role::Initiator.writes_public_first());
    assert!(!Role::Responder.writes_public_first());
}

/// The end-to-end scenario over an in-memory connection: handshake, then
/// "hi" one way and "ok" back, each direction on its own generator.
#[test]
fn end_to_end_hi_ok() {
    let initiator_keys = KeyPair::generate(0xAAAA_BBBB_CCCC_DDDD);
    let responder_keys = KeyPair::generate(0x1111_2222_3333_4444);

    // Initiator writes first; responder reads first, then writes.
    let wire_i_to_r = u64_to_be_bytes(initiator_keys.public_value());
    let responder_view = u64_from_be_bytes(&wire_i_to_r);
    let wire_r_to_i = u64_to_be_bytes(responder_keys.public_value());
    let initiator_view = u64_from_be_bytes(&wire_r_to_i);

    let secret_i = initiator_keys.shared_secret(initiator_view);
    let secret_r = responder_keys.shared_secret(responder_view);
    assert_eq!(secret_i, secret_r);

    let mut initiator = Session::establish(Role::Initiator, secret_i);
    let mut responder = Session::establish(Role::Responder, secret_r);

    // Turn 1: initiator sends "hi", responder receives it.
    let envelope = initiator.send_turn(b"hi");
    let length = responder.on_header(Some(&envelope[..4]));
    assert_eq!(length, Some(2));
    let plaintext = responder.receive_turn(&envelope[4..]);
    assert_eq!(plaintext, b"hi".to_vec());

    // Turn 2: responder answers "ok", initiator receives it.
    let reply = responder.send_turn(b"ok");
    let length = initiator.on_header(Some(&reply[..4]));
    assert_eq!(length, Some(2));
    let answer = initiator.receive_turn(&reply[4..]);
    assert_eq!(answer, b"ok".to_vec());

    assert!(!initiator.has_closed());
    assert!(!responder.has_closed());
}

#[test]
fn zero_length_envelope_round_trips() {
    let mut sender = Session::establish(Role::Initiator, 99);
    let mut receiver = Session::establish(Role::Responder, 99);
    let envelope = sender.send_turn(b"");
    assert_eq!(envelope, vec![0, 0, 0, 0]);
    let length = receiver.on_header(Some(&envelope[..4]));
    assert_eq!(length, Some(0));
    let plaintext = receiver.receive_turn(&[]);
    assert!(plaintext.is_empty());
}

#[test]
fn missing_header_is_clean_close() {
    let mut receiver = Session::establish(Role::Responder, 5);
    let length = receiver.on_header(None);
    assert_eq!(length, None);
    assert!(receiver.has_closed());
}

#[test]
fn truncated_payload_is_clean_close() {
    let mut sender = Session::establish(Role::Initiator, 5);
    let envelope = sender.send_turn(b"hello");
    let mut receiver = Session::establish(Role::Responder, 5);
    let length = receiver.on_header(Some(&envelope[..4]));
    assert_eq!(length, Some(5));
    // The stream ends before the announced 5 ciphertext bytes arrive.
    let plaintext = receiver.on_payload(None);
    assert_eq!(plaintext, None);
    assert!(receiver.has_closed());
}

#[test]
fn full_payload_decodes_via_on_payload() {
    let mut sender = Session::establish(Role::Initiator, 5);
    let envelope = sender.send_turn(b"hello");
    let mut receiver = Session::establish(Role::Responder, 5);
    let length = receiver.on_header(Some(&envelope[..4]));
    assert_eq!(length, Some(5));
    let plaintext = receiver.on_payload(Some(&envelope[4..]));
    assert_eq!(plaintext, Some(b"hello".to_vec()));
    assert!(!receiver.has_closed());
}

#[test]
fn explicit_close_is_terminal() {
    let mut session = Session::establish(Role::Initiator, 1);
    assert!(!session.has_closed());
    session.close();
    assert!(session.has_closed());
}

#[test]
fn short_header_is_clean_close() {
    let mut receiver = Session::establish(Role::Responder, 5);
    let length = receiver.on_header(Some(&[0, 0]));
    assert_eq!(length, None);
    assert!(receiver.has_closed());
}

/// Two sends in a row without the peer reading in between leave the
/// receiver's keystream permanently offset: the decoded output no longer
/// matches, but nothing crashes.
#[test]
fn double_send_desynchronizes_receiver() {
    let secret = 7;
    // The violator encrypts two messages back to back on one outbound
    // generator; the peer never got to read the first one.
    let mut violator = dhchat::keystream::StreamCipher::new(secret);
    let _first = violator.encrypt(b"aa");
    let second = violator.encrypt(b"bb");

    // The receiver expects this to be the first message of the direction.
    let mut receiver = dhchat::keystream::StreamCipher::new(secret);
    let decoded = receiver.decrypt(&second);
    assert_ne!(decoded, b"bb".to_vec());
    // The offset is permanent: the next message garbles too.
    let third = violator.encrypt(b"cc");
    let decoded_next = receiver.decrypt(&third);
    assert_ne!(decoded_next, b"cc".to_vec());
}
