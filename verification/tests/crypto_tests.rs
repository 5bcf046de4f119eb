use flow::crypto::{compute_fingerprint, generate_self_signed_cert, UdpCryptor, UdpReplayProtector};

#[test]
fn test_cert_generation_and_fingerprint() {
    let cert_res = generate_self_signed_cert();
    assert!(cert_res.is_ok());
    let (cert_pem, key_pem) = cert_res.unwrap();
    assert!(!cert_pem.is_empty());
    assert!(!key_pem.is_empty());

    let fingerprint = compute_fingerprint(b"test cert content");
    assert!(!fingerprint.is_empty());
}

#[test]
fn test_udp_replay_protector() {
    let mut protector = UdpReplayProtector::new();

    // Initial sequence must be accepted
    assert!(protector.is_valid(10));

    // Higher sequence accepted
    assert!(protector.is_valid(15));

    // Duplicate sequence rejected
    assert!(!protector.is_valid(15));
    assert!(!protector.is_valid(10));

    // Slightly older but unseen sequence accepted
    assert!(protector.is_valid(14));

    // Older sequence now marked as seen, must be rejected
    assert!(!protector.is_valid(14));

    // High jump resets window to 100
    assert!(protector.is_valid(100));
    // 15 is now outside the window (100 - 15 = 85 >= 64), must be rejected
    assert!(!protector.is_valid(15));
    // 35 is also outside the window (100 - 35 = 65 >= 64), must be rejected
    assert!(!protector.is_valid(35));
}

#[test]
fn test_udp_cryptor() {
    let key = [7u8; 32];
    let salt = [1, 2, 3, 4];
    let cryptor = UdpCryptor::new(&key, salt);

    let plaintext = b"Hello, secure KVM world!";
    let seq = 42u64;

    let encrypted = cryptor.encrypt(seq, plaintext).unwrap();
    let decrypted = cryptor.decrypt(seq, &encrypted).unwrap();

    assert_eq!(plaintext.as_slice(), decrypted.as_slice());

    // Mismatched sequence decryption should fail
    assert!(cryptor.decrypt(seq + 1, &encrypted).is_err());
}

#[test]
fn replay_window_edges() {
    let mut p = UdpReplayProtector::new();
    assert!(p.is_valid(100));
    // 63 behind the newest is still inside the window, 64 behind is not.
    assert!(p.is_valid(37));
    assert!(!p.is_valid(36));
    assert!(!p.is_valid(37));
}

#[test]
fn replay_accepts_zero_first() {
    let mut p = UdpReplayProtector::new();
    assert!(p.is_valid(0));
    assert!(!p.is_valid(0));
}

#[test]
fn fingerprint_of_empty_input_is_sha256_of_nothing() {
    let fp = compute_fingerprint(b"");
    assert_eq!(
        fp,
        "E3:B0:C4:42:98:FC:1C:14:9A:FB:F4:C8:99:6F:B9:24:27:AE:41:E4:64:9B:93:4C:A4:95:99:1B:78:52:B8:55"
    );
}

#[test]
fn fingerprint_of_abc() {
    let a = compute_fingerprint(b"abc");
    assert_eq!(
        a,
        "BA:78:16:BF:8F:01:CF:EA:41:41:40:DE:5D:AE:22:23:B0:03:61:A3:96:17:7A:9C:B4:10:FF:61:F2:00:15:AD"
    );
    assert_eq!(a.len(), 95);
}

#[test]
fn ciphertext_carries_sixteen_byte_tag() {
    let cryptor = UdpCryptor::new(&[1u8; 32], [9, 9, 9, 9]);
    let c = cryptor.encrypt(5, b"abc").unwrap();
    assert_eq!(c.len(), 3 + 16);
    assert_ne!(&c[..3], b"abc");
}

#[test]
fn tampered_ciphertext_is_rejected() {
    let cryptor = UdpCryptor::new(&[3u8; 32], [0, 0, 0, 1]);
    let mut c = cryptor.encrypt(1, b"payload").unwrap();
    c[0] ^= 1;
    assert!(cryptor.decrypt(1, &c).is_err());
}

#[test]
fn other_key_cannot_decrypt() {
    let a = UdpCryptor::new(&[3u8; 32], [0, 0, 0, 1]);
    let b = UdpCryptor::new(&[4u8; 32], [0, 0, 0, 1]);
    let c = a.encrypt(1, b"payload").unwrap();
    assert!(b.decrypt(1, &c).is_err());
}
