use pkgcraft::atom::{Atom, Operator, SlotOperator, UseDepKind};
use pkgcraft::atom_parse::parse_atom;
use pkgcraft::error::{Fault, ParseError, VersionError};
use pkgcraft::grammar::{resolve, GrammarRevision, RevisionId};

fn latest() -> GrammarRevision {
    GrammarRevision::latest()
}

#[test]
fn operator_without_version_is_structural_error() {
    assert_eq!(
        parse_atom(">=cat/pkg", latest()).unwrap_err(),
        ParseError::VersionError(Fault::StructuralMismatch, 9)
    );
    let atom = parse_atom("cat/pkg", latest()).unwrap();
    assert_eq!(atom.fullver(), None);
    assert_eq!(atom.operator(), None);
    assert_eq!(atom.category(), "cat");
    assert_eq!(atom.package(), "pkg");
}

#[test]
fn slot_subslot_and_operator() {
    let atom = parse_atom("cat/pkg:1/2=", latest()).unwrap();
    assert_eq!(atom.slot().as_deref(), Some("1"));
    assert_eq!(atom.subslot().as_deref(), Some("2"));
    assert_eq!(atom.slot_op(), Some("="));
    assert_eq!(atom.slot_clause().unwrap().operator, Some(SlotOperator::Equal));
    assert_eq!(atom.to_string(), "cat/pkg:1/2=");
}

#[test]
fn numeric_package_tail_is_not_a_version() {
    let atom = parse_atom("cat/pkg-123", latest()).unwrap();
    assert_eq!(atom.package(), "pkg-123");
    assert_eq!(atom.version(), None);
    assert_eq!(atom.fullver(), None);
    assert_eq!(atom.key(), "cat/pkg-123");
    assert_eq!(atom.cpv(), "cat/pkg-123");
}

#[test]
fn full_atom_parts() {
    let atom = parse_atom(">=app-misc/foo-bar-1.2.3a_rc4-r5:0/1=[a,-b(+),!c?,d=]::gentoo", latest())
        .unwrap();
    assert_eq!(atom.operator(), Some(Operator::GreaterOrEqual));
    assert_eq!(atom.category(), "app-misc");
    assert_eq!(atom.package(), "foo-bar");
    assert_eq!(atom.version().as_deref(), Some("1.2.3a_rc4"));
    assert_eq!(atom.revision().as_deref(), Some("5"));
    assert_eq!(atom.fullver().as_deref(), Some("1.2.3a_rc4-r5"));
    assert_eq!(atom.key(), "app-misc/foo-bar");
    assert_eq!(atom.cpv(), "app-misc/foo-bar-1.2.3a_rc4-r5");
    assert_eq!(atom.slot().as_deref(), Some("0"));
    assert_eq!(atom.subslot().as_deref(), Some("1"));
    assert_eq!(atom.slot_op(), Some("="));
    assert_eq!(
        atom.use_deps().unwrap(),
        vec!["a".to_string(), "-b(+)".to_string(), "!c?".to_string(), "d=".to_string()]
    );
    let deps = atom.use_dep_list().unwrap();
    assert_eq!(deps[1].kind, UseDepKind::Disabled);
    assert_eq!(deps[1].default, Some(true));
    assert_eq!(deps[2].kind, UseDepKind::ConditionalDisabled);
    assert_eq!(deps[3].kind, UseDepKind::Equal);
    assert_eq!(atom.repo().as_deref(), Some("gentoo"));
    assert_eq!(
        atom.to_string(),
        ">=app-misc/foo-bar-1.2.3a_rc4-r5:0/1=[a,-b(+),!c?,d=]::gentoo"
    );
}

#[test]
fn wildcard_operator() {
    let atom = parse_atom("=cat/pkg-1.2*", latest()).unwrap();
    assert_eq!(atom.operator(), Some(Operator::EqualGlob));
    assert_eq!(atom.fullver().as_deref(), Some("1.2"));
    assert_eq!(atom.to_string(), "=cat/pkg-1.2*");
    assert_eq!(
        parse_atom(">=cat/pkg-1.2*", latest()).unwrap_err(),
        ParseError::VersionError(Fault::StructuralMismatch, 13)
    );
    assert_eq!(
        parse_atom("=cat/pkg-1.2-r1*", latest()).unwrap_err(),
        ParseError::VersionError(Fault::StructuralMismatch, 15)
    );
    assert_eq!(
        parse_atom("=cat/pkg*", latest()).unwrap_err(),
        ParseError::VersionError(Fault::StructuralMismatch, 8)
    );
    assert_eq!(
        parse_atom("cat/pkg*", latest()).unwrap_err(),
        ParseError::UnexpectedTrailingInput(7)
    );
}

#[test]
fn version_errors_are_wrapped() {
    assert_eq!(
        parse_atom("=cat/pkg-1.0_foo", latest()).unwrap_err(),
        ParseError::VersionError(
            Fault::InvalidVersion(VersionError::InvalidSuffix("_foo".to_string())),
            9
        )
    );
    assert_eq!(
        parse_atom("~cat/pkg-1-2", latest()).unwrap().package(),
        "pkg-1"
    );
}

#[test]
fn category_and_package_errors() {
    assert_eq!(parse_atom("", latest()).unwrap_err(), ParseError::EmptyInput);
    assert_eq!(
        parse_atom("/pkg", latest()).unwrap_err(),
        ParseError::CategoryError(Fault::EmptyInput, 0)
    );
    assert_eq!(
        parse_atom("-cat/pkg", latest()).unwrap_err(),
        ParseError::CategoryError(Fault::InvalidCharacter, 0)
    );
    assert_eq!(
        parse_atom("cat", latest()).unwrap_err(),
        ParseError::CategoryError(Fault::StructuralMismatch, 3)
    );
    assert_eq!(
        parse_atom("ca t/pkg", latest()).unwrap_err(),
        ParseError::CategoryError(Fault::InvalidCharacter, 2)
    );
    assert_eq!(
        parse_atom("cat/", latest()).unwrap_err(),
        ParseError::PackageError(Fault::EmptyInput, 4)
    );
    assert_eq!(
        parse_atom("cat/.pkg", latest()).unwrap_err(),
        ParseError::PackageError(Fault::InvalidCharacter, 4)
    );
    assert_eq!(
        parse_atom("cat/ pkg", latest()).unwrap_err(),
        ParseError::PackageError(Fault::InvalidCharacter, 4)
    );
    assert_eq!(
        parse_atom("cat/:1", latest()).unwrap_err(),
        ParseError::PackageError(Fault::EmptyInput, 4)
    );
    assert_eq!(
        parse_atom(" cat/pkg", latest()).unwrap_err(),
        ParseError::CategoryError(Fault::InvalidCharacter, 0)
    );
    assert_eq!(
        parse_atom("cat/sub/pkg", latest()).unwrap_err(),
        ParseError::UnexpectedTrailingInput(7)
    );
    assert_eq!(
        parse_atom("cat//pkg", latest()).unwrap_err(),
        ParseError::PackageError(Fault::EmptyInput, 4)
    );
    assert_eq!(
        parse_atom("cat/pkg/", latest()).unwrap_err(),
        ParseError::UnexpectedTrailingInput(7)
    );
    assert_eq!(
        parse_atom("cat/pkg ", latest()).unwrap_err(),
        ParseError::UnexpectedTrailingInput(7)
    );
}

#[test]
fn slot_errors() {
    assert_eq!(
        parse_atom("cat/pkg:", latest()).unwrap_err(),
        ParseError::SlotError(Fault::EmptyInput, 8)
    );
    assert_eq!(
        parse_atom("cat/pkg:1/", latest()).unwrap_err(),
        ParseError::SlotError(Fault::StructuralMismatch, 10)
    );
    assert_eq!(
        parse_atom("cat/pkg:1/=", latest()).unwrap_err(),
        ParseError::SlotError(Fault::StructuralMismatch, 10)
    );
    assert_eq!(
        parse_atom("cat/pkg:1/.2", latest()).unwrap_err(),
        ParseError::SlotError(Fault::InvalidCharacter, 10)
    );
    assert_eq!(
        parse_atom("cat/pkg:/2", latest()).unwrap_err(),
        ParseError::SlotError(Fault::EmptyInput, 8)
    );
    assert_eq!(
        parse_atom("cat/pkg:=", latest()).unwrap_err(),
        ParseError::SlotError(Fault::EmptyInput, 8)
    );
    assert_eq!(
        parse_atom("cat/pkg:-1", latest()).unwrap_err(),
        ParseError::SlotError(Fault::InvalidCharacter, 8)
    );
    let atom = parse_atom("cat/pkg:2*", latest()).unwrap();
    assert_eq!(atom.slot_op(), Some("*"));
    assert_eq!(atom.subslot(), None);
}

#[test]
fn use_dep_errors() {
    assert_eq!(
        parse_atom("cat/pkg[]", latest()).unwrap_err(),
        ParseError::UseDepError(Fault::StructuralMismatch, 8)
    );
    assert_eq!(
        parse_atom("cat/pkg[a", latest()).unwrap_err(),
        ParseError::UseDepError(Fault::StructuralMismatch, 9)
    );
    assert_eq!(
        parse_atom("cat/pkg[a,]", latest()).unwrap_err(),
        ParseError::UseDepError(Fault::EmptyInput, 10)
    );
    assert_eq!(
        parse_atom("cat/pkg[-a?]", latest()).unwrap_err(),
        ParseError::UseDepError(Fault::StructuralMismatch, 8)
    );
    assert_eq!(
        parse_atom("cat/pkg[!a]", latest()).unwrap_err(),
        ParseError::UseDepError(Fault::StructuralMismatch, 8)
    );
    assert_eq!(
        parse_atom("cat/pkg[a(x)]", latest()).unwrap_err(),
        ParseError::UseDepError(Fault::StructuralMismatch, 9)
    );
    assert_eq!(
        parse_atom("cat/pkg[a b]", latest()).unwrap_err(),
        ParseError::UseDepError(Fault::InvalidCharacter, 9)
    );
    assert_eq!(
        parse_atom("cat/pkg[+a]", latest()).unwrap_err(),
        ParseError::UseDepError(Fault::InvalidCharacter, 8)
    );
    assert_eq!(
        parse_atom("cat/pkg[ a]", latest()).unwrap_err(),
        ParseError::UseDepError(Fault::InvalidCharacter, 8)
    );
    assert_eq!(
        parse_atom("cat/pkg[,a]", latest()).unwrap_err(),
        ParseError::UseDepError(Fault::EmptyInput, 8)
    );
}

#[test]
fn repo_errors_and_trailing_input() {
    assert_eq!(
        parse_atom("cat/pkg::", latest()).unwrap_err(),
        ParseError::RepoError(Fault::EmptyInput, 9)
    );
    assert_eq!(
        parse_atom("cat/pkg::-r", latest()).unwrap_err(),
        ParseError::RepoError(Fault::InvalidCharacter, 9)
    );
    assert_eq!(
        parse_atom("cat/pkg::repo.x", latest()).unwrap_err(),
        ParseError::UnexpectedTrailingInput(13)
    );
    assert_eq!(
        parse_atom("cat/pkg::repo[a]", latest()).unwrap_err(),
        ParseError::UnexpectedTrailingInput(13)
    );
    assert_eq!(parse_atom("cat/pkg:1::repo", latest()).unwrap().repo().as_deref(), Some("repo"));
}

#[test]
fn clauses_are_gated_by_revision() {
    let old = |n: RevisionId| GrammarRevision::of(n);
    assert_eq!(
        parse_atom("cat/pkg:1", old(RevisionId::Eapi0)).unwrap_err(),
        ParseError::SlotError(Fault::Unsupported, 7)
    );
    assert!(parse_atom("cat/pkg:1", old(RevisionId::Eapi1)).is_ok());
    assert_eq!(
        parse_atom("cat/pkg[a]", old(RevisionId::Eapi1)).unwrap_err(),
        ParseError::UseDepError(Fault::Unsupported, 7)
    );
    assert!(parse_atom("cat/pkg[a]", old(RevisionId::Eapi2)).is_ok());
    assert_eq!(
        parse_atom("cat/pkg[a(+)]", old(RevisionId::Eapi3)).unwrap_err(),
        ParseError::UseDepError(Fault::Unsupported, 9)
    );
    assert!(parse_atom("cat/pkg[a(+)]", old(RevisionId::Eapi4)).is_ok());
    assert_eq!(
        parse_atom("cat/pkg:1/2", old(RevisionId::Eapi4)).unwrap_err(),
        ParseError::SlotError(Fault::Unsupported, 9)
    );
    assert_eq!(
        parse_atom("cat/pkg:1=", old(RevisionId::Eapi4)).unwrap_err(),
        ParseError::SlotError(Fault::Unsupported, 9)
    );
    assert!(parse_atom("cat/pkg:1/2=", old(RevisionId::Eapi5)).is_ok());
    assert_eq!(
        parse_atom("cat/pkg::repo", old(RevisionId::Eapi8)).unwrap_err(),
        ParseError::RepoError(Fault::Unsupported, 7)
    );
    assert!(parse_atom("cat/pkg::repo", old(RevisionId::Pkgcraft)).is_ok());
}

#[test]
fn unknown_revision_is_reported() {
    assert_eq!(
        resolve(Some("nonexistent-eapi")).unwrap_err(),
        ParseError::UnknownRevision("nonexistent-eapi".to_string())
    );
    assert_eq!(
        Atom::new("cat/pkg", Some("nonexistent-eapi")).unwrap_err(),
        ParseError::UnknownRevision("nonexistent-eapi".to_string())
    );
    assert_eq!(resolve(None).unwrap(), GrammarRevision::latest());
    assert_eq!(resolve(Some("pkgcraft")).unwrap(), GrammarRevision::latest());
    assert_eq!(resolve(Some("0")).unwrap().id, RevisionId::Eapi0);
    assert_eq!(resolve(Some("8")).unwrap().name(), "8");
    assert!(resolve(Some("9")).is_err());
    assert!(resolve(Some("")).is_err());
    assert!(Atom::new("cat/pkg::repo", None).is_ok());
    assert!(Atom::new("cat/pkg::repo", Some("8")).is_err());
}

#[test]
fn text_of_parsed_atom_is_the_input() {
    for text in [
        "cat/pkg",
        "=cat/pkg-1",
        "<cat/pkg-1.0-r0",
        "<=a/b-01.010_alpha_beta2-r003",
        "~x11-libs/gtk+-2.24.33",
        ">dev-lang/rust-1.70.0:stable/1.70=",
        "=cat/pkg-2*:3[a,b(-)?,!c(+)=]::repo_1",
        "cat/pkg-r1",
        "virtual/libc::r",
    ] {
        let atom = parse_atom(text, latest()).unwrap();
        assert_eq!(atom.to_string(), text);
        let again = parse_atom(&atom.to_string(), latest()).unwrap();
        assert_eq!(again.to_string(), text);
    }
}
