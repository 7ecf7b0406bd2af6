use pkgcraft::atom_parse::parse_atom;
use pkgcraft::error::{Fault, ParseError, VersionError};
use pkgcraft::grammar::{resolve, GrammarRevision, RevisionId};
use pkgcraft::number::decimal_of;
use pkgcraft::version::parse_version;

#[test]
fn offsets_are_written_in_decimal() {
    let text = |n: usize| -> String { decimal_of(n).into_iter().collect() };
    assert_eq!(text(0), "0");
    assert_eq!(text(7), "7");
    assert_eq!(text(10), "10");
    assert_eq!(text(1234567890), "1234567890");
    assert_eq!(text(usize::MAX), usize::MAX.to_string());
}

#[test]
fn version_error_messages() {
    assert_eq!(parse_version("").unwrap_err().message(), "empty version");
    assert_eq!(parse_version("1.").unwrap_err().message(), "invalid component at offset 2");
    assert_eq!(parse_version("1_x").unwrap_err().message(), "invalid suffix: _x");
    assert_eq!(parse_version("1-rx").unwrap_err().message(), "invalid revision: -rx");
    assert_eq!(
        VersionError::InvalidComponent(12).message(),
        "invalid component at offset 12"
    );
}

#[test]
fn parse_error_messages() {
    let latest = GrammarRevision::latest();
    assert_eq!(parse_atom("", latest).unwrap_err().message(), "empty atom");
    assert_eq!(
        parse_atom("cat", latest).unwrap_err().message(),
        "invalid category at offset 3: structural mismatch"
    );
    assert_eq!(
        parse_atom("cat/", latest).unwrap_err().message(),
        "invalid package at offset 4: empty"
    );
    assert_eq!(
        parse_atom("=cat/pkg-1_x", latest).unwrap_err().message(),
        "invalid version at offset 9: invalid suffix: _x"
    );
    assert_eq!(
        parse_atom("cat/pkg:.", latest).unwrap_err().message(),
        "invalid slot at offset 8: invalid character"
    );
    assert_eq!(
        parse_atom("cat/pkg[]", latest).unwrap_err().message(),
        "invalid use dependency at offset 8: structural mismatch"
    );
    assert_eq!(
        parse_atom("cat/pkg::r", GrammarRevision::of(RevisionId::Eapi8))
            .unwrap_err()
            .message(),
        "invalid repository at offset 7: not supported by the grammar revision"
    );
    assert_eq!(
        parse_atom("cat/pkg!", latest).unwrap_err().message(),
        "unexpected input at offset 7"
    );
    assert_eq!(
        resolve(Some("nope")).unwrap_err().message(),
        "unknown grammar revision: nope"
    );
    assert_eq!(
        ParseError::SlotError(Fault::EmptyInput, 10).message(),
        "invalid slot at offset 10: empty"
    );
}
