use vanity_keys::lines::{found_line, keys_line};
use vanity_keys::search::FoundKey;

#[test]
fn found_line_shape() {
    let f = FoundKey {
        private: [0u8; 32],
        public_text: b"hSDwCYkwp1R0i33ctD73Wg2/Og0mOBr066SpjqqbTmo=".to_vec(),
        private_text: b"AAAAAAAAAAAAAAAAAAAAAAAAAAAAAAAAAAAAAAAAAAA=".to_vec(),
    };
    assert_eq!(
        found_line(&f),
        b"FOUND: pub=hSDwCYkwp1R0i33ctD73Wg2/Og0mOBr066SpjqqbTmo= priv=AAAAAAAAAAAAAAAAAAAAAAAAAAAAAAAAAAAAAAAAAAA="
            .to_vec()
    );
}

#[test]
fn keys_line_shape() {
    assert_eq!(keys_line(0, 0), "Keys: total=0, 0/s");
    assert_eq!(keys_line(1234567, 12345), "Keys: total=1.23M, 12.3K/s");
}
