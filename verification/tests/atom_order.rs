use pkgcraft::atom::Atom;
use pkgcraft::order::{CompareOp, Order};

fn a(text: &str) -> Atom {
    Atom::new(text, None).unwrap()
}

#[test]
fn atoms_compare_part_by_part() {
    assert!(a("a/b") < a("b/a"));
    assert!(a("cat/a") < a("cat/b"));
    assert!(a("cat/pkg") < a("cat/pkg1"));
    assert!(a("cat/pkg") < a("=cat/pkg-1"));
    assert!(a("=cat/pkg-1") < a("=cat/pkg-2"));
    assert!(a("=cat/pkg-1.9") < a("=cat/pkg-1.10"));
    assert!(a("<cat/pkg-1") < a("=cat/pkg-1"));
    assert!(a("=cat/pkg-1") < a("=cat/pkg-1*"));
    assert!(a("cat/pkg") < a("cat/pkg:0"));
    assert!(a("cat/pkg:0") < a("cat/pkg:0/1"));
    assert!(a("cat/pkg:0") < a("cat/pkg:0="));
    assert!(a("cat/pkg:0=") < a("cat/pkg:0*"));
    assert!(a("cat/pkg:0") < a("cat/pkg:1"));
    assert!(a("cat/pkg") < a("cat/pkg[a]"));
    assert!(a("cat/pkg[a]") < a("cat/pkg[a,b]"));
    assert!(a("cat/pkg[a]") < a("cat/pkg[-a]"));
    assert!(a("cat/pkg[a]") < a("cat/pkg[a(-)]"));
    assert!(a("cat/pkg[a(-)]") < a("cat/pkg[a(+)]"));
    assert!(a("cat/pkg[a,b]") != a("cat/pkg[b,a]"));
    assert!(a("cat/pkg") < a("cat/pkg::repo"));
    assert!(a("cat/pkg::a") < a("cat/pkg::b"));
}

#[test]
fn atoms_equal_when_normalized_parts_are() {
    assert!(a("=cat/pkg-1.0") == a("=cat/pkg-1.0-r0"));
    assert!(a("=cat/pkg-1.0_p") == a("=cat/pkg-1.0_p0"));
    assert!(a("=cat/pkg-1.0") != a("=cat/pkg-1.00"));
    assert!(a("=cat/pkg-1.0") != a("~cat/pkg-1.0"));
    assert!(a("=cat/pkg-1.0") != a("=cat/pkg-1.0:0"));
    assert!(a("cat/pkg:0") == a("cat/pkg:0"));
    assert_eq!(a("cat/pkg:0").compare(&a("cat/pkg:0")), Order::Equal);
}

#[test]
fn atom_rich_comparison() {
    let x = a("=cat/pkg-1");
    let y = a("=cat/pkg-2");
    assert!(x.richcmp(&y, CompareOp::Lt));
    assert!(x.richcmp(&y, CompareOp::Le));
    assert!(x.richcmp(&y, CompareOp::Ne));
    assert!(!x.richcmp(&y, CompareOp::Eq));
    assert!(y.richcmp(&x, CompareOp::Gt));
    assert!(y.richcmp(&x, CompareOp::Ge));
    assert!(x.richcmp(&x, CompareOp::Eq));
}
