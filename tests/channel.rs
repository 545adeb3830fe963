use bitcoin::secp256k1::{PublicKey, Secp256k1, SecretKey};
use portal_signer::encryption::{BitcoinHashesSha256, SecpDH};

#[test]
fn dh_public_key_is_padded() {
    let secret = [7u8; 32];
    let padded = SecpDH::pubkey(&secret).unwrap();
    let secp = Secp256k1::new();
    let expected = PublicKey::from_secret_key(&secp, &SecretKey::from_slice(&secret).unwrap()).serialize();
    assert_eq!(&padded[..33], &expected[..]);
    assert!(padded[33..].iter().all(|b| *b == 0));
    assert!(SecpDH::pubkey(&[0u8; 32]).is_none());
    assert_eq!(SecpDH::name(), "Secp256k1 Diffie-Hellman");
}

#[test]
fn dh_agrees_on_both_sides() {
    let a = [3u8; 32];
    let b = [9u8; 32];
    let pa = SecpDH::pubkey(&a).unwrap();
    let pb = SecpDH::pubkey(&b).unwrap();
    let s1 = SecpDH::dh(&a, &pb).unwrap();
    let s2 = SecpDH::dh(&b, &pa).unwrap();
    assert_eq!(s1, s2);
    assert_ne!(s1, a);
    assert!(SecpDH::dh(&a, &[0u8; 64]).is_err());
}

#[test]
fn sha256_over_fed_input() {
    let mut h = BitcoinHashesSha256::new();
    h.input(b"a");
    h.input(b"bc");
    let digest = h.result();
    assert_eq!(
        digest,
        [
            0xba, 0x78, 0x16, 0xbf, 0x8f, 0x01, 0xcf, 0xea, 0x41, 0x41, 0x40, 0xde, 0x5d, 0xae, 0x22, 0x23,
            0xb0, 0x03, 0x61, 0xa3, 0x96, 0x17, 0x7a, 0x9c, 0xb4, 0x10, 0xff, 0x61, 0xf2, 0x00, 0x15, 0xad
        ]
    );
    assert_eq!(h.result(), digest);
    assert_eq!(BitcoinHashesSha256::name(), "bitcoin-hashes SHA256");
}
