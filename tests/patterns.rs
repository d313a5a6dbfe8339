use vanity_keys::pattern::{compile_pattern, is_base64_search, matches_any};

const KEY_TEXT: &[u8] = b"hSDwCYkwp1R0i33ctD73Wg2/Og0mOBr066SpjqqbTmo=";

#[test]
fn search_alphabet() {
    assert!(is_base64_search("AAAA"));
    assert!(is_base64_search("az09+/Z"));
    assert!(!is_base64_search(""));
    assert!(!is_base64_search("abc="));
    assert!(!is_base64_search("a-b"));
    assert!(!is_base64_search("é"));
    assert!(!is_base64_search("a b"));
}

#[test]
fn compile_derives_suffix_and_offset() {
    let p = compile_pattern("AAAA").unwrap();
    assert_eq!(p.prefix, b"AAAA".to_vec());
    assert_eq!(p.suffix, b"AAAA=".to_vec());
    assert_eq!(p.suffix_off, 39);
}

#[test]
fn compile_long_patterns() {
    let s43 = "A".repeat(43);
    let p = compile_pattern(&s43).unwrap();
    assert_eq!(p.suffix.len(), 44);
    assert_eq!(p.suffix_off, 0);
    let s44 = "B".repeat(44);
    let q = compile_pattern(&s44).unwrap();
    assert_eq!(q.suffix.len(), 45);
    assert_eq!(q.suffix_off, 0);
}

#[test]
fn compile_refuses_invalid() {
    assert!(compile_pattern("abc=").is_none());
    assert!(compile_pattern("").is_none());
    assert!(compile_pattern("ab_c").is_none());
}

#[test]
fn match_by_prefix_and_suffix() {
    let pre = compile_pattern("hSDw").unwrap();
    assert!(pre.hits_key(KEY_TEXT));
    let suf = compile_pattern("Tmo").unwrap();
    assert!(suf.hits_key(KEY_TEXT));
    let none = compile_pattern("Tm").unwrap();
    assert!(!none.hits_key(KEY_TEXT));
    let whole = compile_pattern("hSDwCYkwp1R0i33ctD73Wg2/Og0mOBr066SpjqqbTmo").unwrap();
    assert!(whole.hits_key(KEY_TEXT));
}

#[test]
fn match_any_of_several() {
    let pats = vec![compile_pattern("ZZ").unwrap(), compile_pattern("bTmo").unwrap()];
    assert!(matches_any(KEY_TEXT, &pats));
    let pats2 = vec![compile_pattern("ZZ").unwrap(), compile_pattern("hSDx").unwrap()];
    assert!(!matches_any(KEY_TEXT, &pats2));
    assert!(!matches_any(KEY_TEXT, &Vec::new()));
}
