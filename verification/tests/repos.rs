use pkgcraft::repo::{repo_id, repo_priority};

#[test]
fn repo_id_defaults_to_path() {
    assert_eq!(repo_id("/var/db/repos/gentoo", None), "/var/db/repos/gentoo");
    assert_eq!(repo_id("/var/db/repos/gentoo", Some("gentoo")), "gentoo");
    assert_eq!(repo_id("", None), "");
    assert_eq!(repo_id("relative/path", None), "relative/path");
}

#[test]
fn repo_priority_defaults_to_zero() {
    assert_eq!(repo_priority(None), 0);
    assert_eq!(repo_priority(Some(-5)), -5);
    assert_eq!(repo_priority(Some(7)), 7);
}
