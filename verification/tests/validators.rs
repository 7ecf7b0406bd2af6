use pkgcraft::error::{Fault, ParseError, VersionError};
use pkgcraft::parse::{category, cpv, package, repo, version};

#[test]
fn category_names() {
    assert_eq!(category("app-misc"), Ok("app-misc"));
    assert_eq!(category("_x11.libs+"), Ok("_x11.libs+"));
    assert_eq!(category(""), Err(ParseError::CategoryError(Fault::EmptyInput, 0)));
    assert_eq!(category("a/b"), Err(ParseError::CategoryError(Fault::InvalidCharacter, 1)));
    assert_eq!(category("+a"), Err(ParseError::CategoryError(Fault::InvalidCharacter, 0)));
    assert_eq!(category(" a"), Err(ParseError::CategoryError(Fault::InvalidCharacter, 0)));
    assert_eq!(category("/a"), Err(ParseError::CategoryError(Fault::EmptyInput, 0)));
    assert_eq!(category("a\u{e9}"), Err(ParseError::CategoryError(Fault::InvalidCharacter, 1)));
}

#[test]
fn package_names() {
    assert_eq!(package("gtk+"), Ok("gtk+"));
    assert_eq!(package("pkg-123"), Ok("pkg-123"));
    assert_eq!(package(""), Err(ParseError::PackageError(Fault::EmptyInput, 0)));
    assert_eq!(package("-pkg"), Err(ParseError::PackageError(Fault::InvalidCharacter, 0)));
    assert_eq!(package("pk:g"), Err(ParseError::PackageError(Fault::InvalidCharacter, 2)));
}

#[test]
fn repo_names() {
    assert_eq!(repo("gentoo"), Ok("gentoo"));
    assert_eq!(repo("my_repo-2"), Ok("my_repo-2"));
    assert_eq!(repo(""), Err(ParseError::RepoError(Fault::EmptyInput, 0)));
    assert_eq!(repo("-r"), Err(ParseError::RepoError(Fault::InvalidCharacter, 0)));
    assert_eq!(repo("a.b"), Err(ParseError::RepoError(Fault::InvalidCharacter, 1)));
}

#[test]
fn version_texts() {
    assert_eq!(version("1.0-r1"), Ok("1.0-r1"));
    assert_eq!(
        version(""),
        Err(ParseError::VersionError(Fault::InvalidVersion(VersionError::EmptyInput), 0))
    );
    assert_eq!(
        version("1.x"),
        Err(ParseError::VersionError(
            Fault::InvalidVersion(VersionError::InvalidComponent(2)),
            0
        ))
    );
}

#[test]
fn cpv_texts() {
    assert_eq!(cpv("cat/pkg-1"), Ok("cat/pkg-1"));
    assert_eq!(cpv("cat/pkg-1.0_rc2-r3"), Ok("cat/pkg-1.0_rc2-r3"));
    assert_eq!(cpv(""), Err(ParseError::EmptyInput));
    assert_eq!(cpv("cat/pkg"), Err(ParseError::VersionError(Fault::StructuralMismatch, 7)));
    assert_eq!(cpv("=cat/pkg-1"), Err(ParseError::CategoryError(Fault::EmptyInput, 0)));
    assert_eq!(cpv("cat/pkg-1:2"), Err(ParseError::UnexpectedTrailingInput(9)));
    assert_eq!(
        cpv("cat/pkg-1.0_x"),
        Err(ParseError::VersionError(
            Fault::InvalidVersion(VersionError::InvalidSuffix("_x".to_string())),
            8
        ))
    );
}
