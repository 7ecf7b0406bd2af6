use pkgcraft::order::{CompareOp, Order};
use pkgcraft::version::{parse_version, SuffixKind, Version};

fn v(text: &str) -> Version {
    parse_version(text).unwrap()
}

#[test]
fn suffix_precedence() {
    assert!(v("1.0_alpha") < v("1.0_beta"));
    assert!(v("1.0_beta") < v("1.0"));
    assert!(v("1.0") < v("1.0_p1"));
    assert!(v("1.0_alpha") < v("1.0_beta") && v("1.0_beta") < v("1.0") && v("1.0") < v("1.0_p1"));
    assert!(v("1.0_beta") < v("1.0_pre"));
    assert!(v("1.0_pre") < v("1.0_rc"));
    assert!(v("1.0_rc") < v("1.0"));
    assert!(v("1.0") < v("1.0_p"));
}

#[test]
fn revision_defaults_to_zero() {
    assert!(v("1.0") == v("1.0-r0"));
    assert_eq!(v("1.0").compare(&v("1.0-r0")), Order::Equal);
    assert_eq!(v("1.0").to_string(), "1.0");
    assert_eq!(v("1.0-r0").to_string(), "1.0-r0");
    assert_eq!(v("1.0").revision(), "0");
    assert_eq!(v("1.0-r07").revision(), "07");
    assert!(v("1.0-r1") > v("1.0"));
    assert!(v("1.0-r01") == v("1.0-r1"));
    assert!(v("1.0-r2") < v("1.0-r10"));
}

#[test]
fn components_compare_by_value_then_width() {
    assert!(v("1.1") < v("1.01"));
    assert!(v("1.01") != v("1.1"));
    assert!(v("1.1") < v("1.10"));
    assert!(v("1.9") < v("1.10"));
    assert!(v("1.010") > v("1.10"));
    assert!(v("2") > v("1.99"));
    assert!(v("1") < v("1.0"));
    assert!(v("1.0") < v("1.0.0"));
    assert!(v("00") > v("0"));
    assert!(v("1.0") == v("1.0"));
}

#[test]
fn long_numbers_compare_by_value() {
    assert!(v("99999999999999999999999999") < v("100000000000000000000000000"));
    assert!(v("123456789012345678901234567890") == v("123456789012345678901234567890"));
    assert!(v("123456789012345678901234567891") > v("123456789012345678901234567890"));
    assert!(v("1_p18446744073709551616") > v("1_p18446744073709551615"));
}

#[test]
fn letters_and_suffix_numbers() {
    assert!(v("1.0") < v("1.0a"));
    assert!(v("1.0a") < v("1.0b"));
    assert!(v("1.0z") < v("1.1"));
    assert!(v("1.0_alpha") == v("1.0_alpha0"));
    assert!(v("1.0_alpha1") < v("1.0_alpha2"));
    assert!(v("1.0_alpha01") == v("1.0_alpha1"));
    assert!(v("1.0_alpha_p1") > v("1.0_alpha"));
    assert!(v("1.0_alpha_rc1") < v("1.0_alpha"));
    assert!(v("1.0_p1_alpha") < v("1.0_p1"));
    assert!(v("1.0_p1") < v("1.0_p1_p"));
    assert!(v("1.0a_alpha") < v("1.0a"));
}

#[test]
fn rich_comparison_follows_the_order() {
    let a = v("1.0_rc1");
    let b = v("1.0");
    assert!(a.richcmp(&b, CompareOp::Lt));
    assert!(a.richcmp(&b, CompareOp::Le));
    assert!(a.richcmp(&b, CompareOp::Ne));
    assert!(!a.richcmp(&b, CompareOp::Eq));
    assert!(!a.richcmp(&b, CompareOp::Gt));
    assert!(!a.richcmp(&b, CompareOp::Ge));
    assert!(b.richcmp(&b, CompareOp::Eq));
    assert!(b.richcmp(&b, CompareOp::Le));
    assert!(b.richcmp(&b, CompareOp::Ge));
    assert!(b.richcmp(&a, CompareOp::Gt));
}

#[test]
fn order_is_total_and_transitive_on_samples() {
    let texts = [
        "0", "00", "1", "1.0", "1.0-r1", "1.0_alpha", "1.0_alpha1", "1.0_beta", "1.0_p", "1.0_p1",
        "1.0a", "1.01", "1.1", "1.10", "2_rc", "2", "10",
    ];
    let versions: Vec<Version> = texts.iter().map(|t| v(t)).collect();
    for a in &versions {
        for b in &versions {
            let ab = a.compare(b);
            let ba = b.compare(a);
            assert_eq!(ab == Order::Less, ba == Order::Greater);
            assert_eq!(ab == Order::Equal, ba == Order::Equal);
            assert_eq!(ab == Order::Equal, a == b);
            for c in &versions {
                if ab == Order::Less && b.compare(c) == Order::Less {
                    assert_eq!(a.compare(c), Order::Less);
                }
            }
        }
    }
}

#[test]
fn parts_of_a_version() {
    let x = v("1.02.3b_alpha4_p-r5");
    let components: Vec<String> = x.components().iter().map(|c| c.iter().collect()).collect();
    assert_eq!(components, vec!["1", "02", "3"]);
    assert_eq!(x.letter(), Some('b'));
    assert_eq!(x.suffixes().len(), 2);
    assert_eq!(x.suffixes()[0].kind, SuffixKind::Alpha);
    assert_eq!(x.suffixes()[0].number, Some(vec!['4']));
    assert_eq!(x.suffixes()[1].kind, SuffixKind::P);
    assert_eq!(x.suffixes()[1].number, None);
    assert_eq!(x.revision(), "5");
    assert_eq!(x.base(), "1.02.3b_alpha4_p");
    assert_eq!(x.to_string(), "1.02.3b_alpha4_p-r5");
}

#[test]
fn text_of_parsed_version_is_the_input() {
    for text in ["1", "0.0.0", "1.2.3a", "1_alpha_beta_pre_rc_p", "010.020_p030-r040"] {
        assert_eq!(v(text).to_string(), text);
    }
}

#[test]
fn base_comparison_leaves_the_revision_aside() {
    assert_eq!(v("1.0-r1").compare_base(&v("1.0-r2")), Order::Equal);
    assert_eq!(v("1.0").compare_base(&v("1.0-r9")), Order::Equal);
    assert_eq!(v("1.0-r9").compare_base(&v("1.1")), Order::Less);
    assert_eq!(v("1.0_p-r1").compare_base(&v("1.0-r2")), Order::Greater);
    assert_eq!(v("1.0-r1").compare(&v("1.0-r2")), Order::Less);
}
