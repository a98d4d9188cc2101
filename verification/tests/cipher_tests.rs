use dhchat::keystream::StreamCipher;

#[test]
fn keystream_known_first_bytes() {
    let mut c = StreamCipher::new(1);
    assert_eq!(c.next_byte(), 0xA6);
    assert_eq!(c.next_byte(), 0xE7);
    assert_eq!(c.next_byte(), 0x94);
    assert_eq!(c.next_byte(), 0x3D);
}

#[test]
fn keystream_deterministic_across_instances() {
    let mut a = StreamCipher::new(0xDEAD_BEEF_0BAD_F00D);
    let mut b = StreamCipher::new(0xDEAD_BEEF_0BAD_F00D);
    for _ in 0..100 {
        assert_eq!(a.next_byte(), b.next_byte());
    }
}

#[test]
fn encrypt_known_ciphertext() {
    let mut c = StreamCipher::new(1);
    assert_eq!(c.encrypt(b"hi"), vec![0xCE, 0x8E]);
}

#[test]
fn encrypt_decrypt_round_trip() {
    let seed = 0x80C9_1315_22D1_47BD;
    let plaintext = b"the quick brown fox jumps over the lazy dog";
    let mut enc = StreamCipher::new(seed);
    let ciphertext = enc.encrypt(plaintext);
    assert_eq!(ciphertext.len(), plaintext.len());
    assert_ne!(&ciphertext[..], &plaintext[..]);
    let mut dec = StreamCipher::new(seed);
    assert_eq!(dec.decrypt(&ciphertext), plaintext.to_vec());
}

#[test]
fn round_trip_empty() {
    let mut enc = StreamCipher::new(42);
    let ciphertext = enc.encrypt(b"");
    assert!(ciphertext.is_empty());
    let mut dec = StreamCipher::new(42);
    assert!(dec.decrypt(&ciphertext).is_empty());
}

#[test]
fn keystream_split_invariance() {
    // Drawing the keystream in one batch or split across calls gives the
    // same bytes, as long as total count and order match.
    let seed = 7;
    let mut whole = StreamCipher::new(seed);
    let one = whole.encrypt(b"hello world");
    let mut split = StreamCipher::new(seed);
    let mut parts = split.encrypt(b"hello ");
    parts.extend_from_slice(&split.encrypt(b"world"));
    assert_eq!(one, parts);
}

#[test]
fn reseeding_mid_stream_desynchronizes() {
    // A generator reseeded mid-session no longer matches one advanced in
    // lockstep: the second message decrypts to garbage, not the plaintext.
    let seed = 7;
    let mut sender = StreamCipher::new(seed);
    let _c1 = sender.encrypt(b"aa");
    let c2 = sender.encrypt(b"bb");
    let mut reseeded = StreamCipher::new(seed);
    assert_ne!(reseeded.decrypt(&c2), b"bb".to_vec());
}
