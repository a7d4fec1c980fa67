use chia_vault_recover::text::{starts_with_ascii_lowercase, str_equal, trim};

#[test]
fn trim_matches_std() {
    for s in ["", "   ", "abc", "  abc ", "\u{3000}x\u{2028}", "\t\n a b \r", "\u{85}y\u{a0}"] {
        assert_eq!(trim(s), s.trim());
    }
}

#[test]
fn starts_with_ascii_lowercase_folds_case() {
    assert!(starts_with_ascii_lowercase("XCH1abc", "xch1"));
    assert!(starts_with_ascii_lowercase("tXcH1", "txch1"));
    assert!(!starts_with_ascii_lowercase("xc", "xch1"));
    assert!(!starts_with_ascii_lowercase("ych1", "xch1"));
}

#[test]
fn str_equal_compares_characters() {
    assert!(str_equal("xch", "xch"));
    assert!(!str_equal("xch", "txch"));
    assert!(!str_equal("xch", "xcH"));
}

#[test]
fn trim_is_idempotent() {
    for s in [" \u{2003}a b\u{2003} ", "x", "\n\n"] {
        assert_eq!(trim(trim(s)), trim(s));
    }
}
