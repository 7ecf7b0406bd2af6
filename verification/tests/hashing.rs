use pkgcraft::atom::Atom;
use pkgcraft::version::{parse_version, Version};

fn v(text: &str) -> Version {
    parse_version(text).unwrap()
}

fn a(text: &str) -> Atom {
    Atom::new(text, None).unwrap()
}

#[test]
fn equal_versions_hash_alike() {
    assert_eq!(v("1.0").hash(), v("1.0-r0").hash());
    assert_eq!(v("1.0_alpha").hash(), v("1.0_alpha0").hash());
    assert_eq!(v("1.0-r01").hash(), v("1.0-r1").hash());
    assert_eq!(v("1_p007").hash(), v("1_p7").hash());
    assert_ne!(v("1.0").hash(), v("1.00").hash());
    assert_ne!(v("1.0").hash(), v("1.1").hash());
    assert_ne!(v("1.0").hash(), v("1.0a").hash());
    assert_ne!(v("1.0_p").hash(), v("1.0_rc").hash());
}

#[test]
fn version_hash_value() {
    // seed 14695981039346656037, factor 1099511628211, modulo 2^64:
    // one component, value 1 and width 1, no letter, no suffix, revision 0
    let mut h: u64 = 14695981039346656037;
    for x in [1u64, 1, 1, 0, 0, 0] {
        h = h.wrapping_mul(1099511628211).wrapping_add(x);
    }
    assert_eq!(v("1").hash(), h);
}

#[test]
fn long_numbers_hash_by_value() {
    assert_eq!(
        v("000000000000000000000018446744073709551617").hash(),
        v("000000000000000000000018446744073709551617-r0").hash()
    );
    assert_eq!(v("1-r18446744073709551617").hash(), v("1-r1").hash());
    assert_ne!(v("1-r18446744073709551617").hash(), v("1-r2").hash());
}

#[test]
fn equal_atoms_hash_alike() {
    assert_eq!(a("=cat/pkg-1.0").hash(), a("=cat/pkg-1.0-r0").hash());
    assert_eq!(a("cat/pkg:0/1=[a,b]::r").hash(), a("cat/pkg:0/1=[a,b]::r").hash());
    assert_ne!(a("cat/pkg").hash(), a("cat/pkg:0").hash());
    assert_ne!(a("cat/pkg[a,b]").hash(), a("cat/pkg[b,a]").hash());
    assert_ne!(a("=cat/pkg-1").hash(), a("~cat/pkg-1").hash());
    assert_ne!(a("ca/tpkg").hash(), a("cat/pkg").hash());
}

#[test]
fn clones_are_equal() {
    let x = v("1.02a_rc3-r4");
    let y = x.clone();
    assert!(x == y);
    assert_eq!(y.to_string(), "1.02a_rc3-r4");
    let p = a(">=cat/pkg-1.2_p3-r4:5/6=[a,-b(+)]::repo");
    let q = p.clone();
    assert!(p == q);
    assert_eq!(q.to_string(), ">=cat/pkg-1.2_p3-r4:5/6=[a,-b(+)]::repo");
    assert_eq!(p.hash(), q.hash());
}
