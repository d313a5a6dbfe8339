use vanity_keys::encoding::{decode_key, encode_key};
use vanity_keys::keygen::{clamp_x25519_scalar, public_key, KeySource};

const ALICE_PRIVATE: &str = "77076d0a7318a57d3c16c17251b26645df4c2f87ebc0992ab177fba51db92c2a";
const ALICE_PUBLIC: &str = "8520f0098930a754748b7ddcb43ef75a0dbf3a0d26381af4eba4a98eaa9b4e6a";

fn from_hex(s: &str) -> [u8; 32] {
    let mut out = [0u8; 32];
    for i in 0..32 {
        out[i] = u8::from_str_radix(&s[2 * i..2 * i + 2], 16).unwrap();
    }
    out
}

#[test]
fn clamp_all_ones() {
    let mut sk = [0xffu8; 32];
    clamp_x25519_scalar(&mut sk);
    assert_eq!(sk[0], 0xf8);
    assert_eq!(sk[31], 0x7f);
    for i in 1..31 {
        assert_eq!(sk[i], 0xff);
    }
}

#[test]
fn clamp_all_zeros_sets_bit_six() {
    let mut sk = [0u8; 32];
    clamp_x25519_scalar(&mut sk);
    assert_eq!(sk[0], 0);
    assert_eq!(sk[31], 0x40);
}

#[test]
fn clamp_is_idempotent() {
    let mut sk = from_hex(ALICE_PRIVATE);
    clamp_x25519_scalar(&mut sk);
    let once = sk;
    clamp_x25519_scalar(&mut sk);
    assert_eq!(sk, once);
    assert_eq!(sk, from_hex("70076d0a7318a57d3c16c17251b26645df4c2f87ebc0992ab177fba51db92c6a"));
}

#[test]
fn drawn_keys_are_clamped() {
    let mut src = KeySource::new().unwrap();
    for _ in 0..200 {
        let sk = src.next_private();
        assert_eq!(sk[0] & 7, 0);
        assert_eq!(sk[31] & 128, 0);
        assert_eq!(sk[31] & 64, 64);
    }
}

#[test]
fn public_key_matches_rfc7748_vector() {
    let pk = public_key(&from_hex(ALICE_PRIVATE));
    assert_eq!(pk, from_hex(ALICE_PUBLIC));
}

#[test]
fn encode_known_values() {
    assert_eq!(encode_key(&[0u8; 32]), b"AAAAAAAAAAAAAAAAAAAAAAAAAAAAAAAAAAAAAAAAAAA=".to_vec());
    let mut seq = [0u8; 32];
    for i in 0..32 {
        seq[i] = i as u8;
    }
    assert_eq!(encode_key(&seq), b"AAECAwQFBgcICQoLDA0ODxAREhMUFRYXGBkaGxwdHh8=".to_vec());
    assert_eq!(encode_key(&[0xffu8; 32]), b"//////////////////////////////////////////8=".to_vec());
    assert_eq!(
        encode_key(&from_hex(ALICE_PUBLIC)),
        b"hSDwCYkwp1R0i33ctD73Wg2/Og0mOBr066SpjqqbTmo=".to_vec()
    );
}

#[test]
fn encoding_has_fixed_shape() {
    let mut src = KeySource::new().unwrap();
    for _ in 0..100 {
        let sk = src.next_private();
        let e = encode_key(&sk);
        assert_eq!(e.len(), 44);
        assert_eq!(e[43], b'=');
    }
}

#[test]
fn decode_round_trip_private_and_public() {
    let mut src = KeySource::new().unwrap();
    for _ in 0..50 {
        let sk = src.next_private();
        let pk = public_key(&sk);
        assert_eq!(decode_key(&encode_key(&sk)), Some(sk));
        assert_eq!(decode_key(&encode_key(&pk)), Some(pk));
    }
}

#[test]
fn decode_refuses_other_texts() {
    assert_eq!(decode_key(b"abc="), None);
    assert_eq!(decode_key(b""), None);
    // Trailing bits that the canonical encoding leaves zero.
    assert_eq!(decode_key(b"AAAAAAAAAAAAAAAAAAAAAAAAAAAAAAAAAAAAAAAAAAB="), None);
    // 33 bytes.
    assert_eq!(decode_key(b"AAAAAAAAAAAAAAAAAAAAAAAAAAAAAAAAAAAAAAAAAAAA"), None);
    assert_eq!(decode_key(b"hSDwCYkwp1R0i33ctD73Wg2/Og0mOBr066SpjqqbTmo="), Some(from_hex(ALICE_PUBLIC)));
}
