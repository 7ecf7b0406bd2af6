//! Validators for the parts of an atom, each on a text of its own.
//!
//! Each gives back the text it was given where the text is valid, and where it
//! is not the error that the atom parser would report for that clause.

use vstd::prelude::*;
use crate::atom::{read_key, read_token, read_version};
use crate::atom_parse::{parse_key, parse_token, parse_version_in};
use crate::atom_accepts::lemma_versioned_key_read_back;
use crate::atom_text::{
    is_token, lemma_package_is_token, lemma_read_key, lemma_read_token, lemma_read_version,
};
use crate::error::{Fault, FaultView, ParseError, ParseErrorView};
use crate::text::{chars_of, lemma_run_end_is, CharClass};
use crate::version::{spec_parse_version, Version, VersionView};

verus! {

/// Checks that the whole of `s` is one token: nothing if it is, else the fault
/// and its offset.
pub open spec fn check_token(s: Seq<char>, start: CharClass, class: CharClass) -> Result<
    (),
    (FaultView, int),
> {
    match read_token(s, 0, start, class) {
        Err(f) => Err((f, 0)),
        Ok(e) => if e == s.len() {
            Ok(())
        } else {
            Err((FaultView::InvalidCharacter, e))
        },
    }
}

/// A text passes `check_token` exactly when it is a token.
pub proof fn lemma_check_token(s: Seq<char>, start: CharClass, class: CharClass)
    requires
        forall|c: char| start.has(c) ==> class.has(c),
    ensures
        check_token(s, start, class) is Ok <==> is_token(s, start, class),
{
    lemma_read_token(s, 0, start, class);
    if is_token(s, start, class) {
        assert(s.subrange(0, s.len() as int) =~= s);
        lemma_run_end_is(s, 0, class, s.len() as int);
    } else if check_token(s, start, class) is Ok {
        assert(s.subrange(0, s.len() as int) =~= s);
    }
}

/// What `category` reports for a text.
pub open spec fn check_category(s: Seq<char>) -> Result<(), ParseErrorView> {
    match check_token(s, CharClass::Word, CharClass::Name) {
        Ok(_) => Ok(()),
        Err((f, o)) => Err(ParseErrorView::CategoryError(f, o)),
    }
}

/// What `package` reports for a text.
pub open spec fn check_package(s: Seq<char>) -> Result<(), ParseErrorView> {
    match check_token(s, CharClass::Word, CharClass::Name) {
        Ok(_) => Ok(()),
        Err((f, o)) => Err(ParseErrorView::PackageError(f, o)),
    }
}

/// What `repo` reports for a text.
pub open spec fn check_repo(s: Seq<char>) -> Result<(), ParseErrorView> {
    match check_token(s, CharClass::Word, CharClass::Repo) {
        Ok(_) => Ok(()),
        Err((f, o)) => Err(ParseErrorView::RepoError(f, o)),
    }
}

/// What `version` reports for a text.
pub open spec fn check_version(s: Seq<char>) -> Result<(), ParseErrorView> {
    match spec_parse_version(s) {
        Ok(_) => Ok(()),
        Err(e) => Err(ParseErrorView::VersionError(FaultView::InvalidVersion(e), 0)),
    }
}

/// What `cpv` reports for a text: category, slash, package, hyphen and
/// version, and nothing after them.
pub open spec fn check_cpv(s: Seq<char>) -> Result<(), ParseErrorView> {
    if s.len() == 0 {
        Err(ParseErrorView::EmptyInput)
    } else {
        match read_key(s, 0) {
            Err(e) => Err(e),
            Ok((slash, end)) => match read_version(s, slash + 1, end) {
                Err(e) => Err(e),
                Ok(_) => if end == s.len() {
                    Ok(())
                } else {
                    Err(ParseErrorView::UnexpectedTrailingInput(end))
                },
            },
        }
    }
}

/// The text of a category, a package and a version: `cat/pkg-1.0`.
pub open spec fn cpv_text(category: Seq<char>, package: Seq<char>, v: VersionView) -> Seq<char> {
    category + seq!['/'] + package + seq!['-'] + v.text()
}

/// The category, the package and the version of a text that passes
/// `check_cpv`; none for a text that does not.
pub open spec fn cpv_parts(s: Seq<char>) -> Option<(Seq<char>, Seq<char>, VersionView)> {
    if check_cpv(s) is Ok {
        let (slash, end) = read_key(s, 0)->Ok_0;
        let (hyphen, v) = read_version(s, slash + 1, end)->Ok_0;
        Some((s.subrange(0, slash), s.subrange(slash + 1, hyphen), v))
    } else {
        None
    }
}

/// A text passes `check_cpv` exactly when it is a category, a slash, a
/// package, a hyphen and the text of a well-formed version; its parts are
/// these.
pub proof fn lemma_cpv_accepts(
    s: Seq<char>,
    category: Seq<char>,
    package: Seq<char>,
    v: VersionView,
)
    ensures
        cpv_parts(s) == Some((category, package, v)) <==> {
            &&& is_token(category, CharClass::Word, CharClass::Name)
            &&& is_token(package, CharClass::Word, CharClass::Name)
            &&& v.wf()
            &&& s == cpv_text(category, package, v)
        },
{
    if cpv_parts(s) == Some((category, package, v)) {
        let (slash, end) = read_key(s, 0)->Ok_0;
        let (hyphen, w) = read_version(s, slash + 1, end)->Ok_0;
        lemma_read_key(s, 0);
        lemma_read_version(s, slash + 1, end);
        lemma_package_is_token(s, slash + 1, hyphen, end);
        assert(s =~= s.subrange(0, slash) + seq!['/'] + s.subrange(slash + 1, hyphen) + seq!['-']
            + s.subrange(hyphen + 1, end));
    }
    if is_token(category, CharClass::Word, CharClass::Name) && is_token(
        package,
        CharClass::Word,
        CharClass::Name,
    ) && v.wf() && s == cpv_text(category, package, v) {
        assert(s.subrange(0, s.len() as int) =~= s);
        lemma_versioned_key_read_back(s, 0, category, package, v, s.len() as int);
    }
}

fn whole_token(s: &[char], start: CharClass, class: CharClass) -> (r: Result<(), (Fault, usize)>)
    ensures
        match r {
            Ok(_) => check_token(s@, start, class) is Ok,
            Err((f, o)) => check_token(s@, start, class) == Err::<(), (FaultView, int)>(
                (f@, o as int),
            ),
        },
{
    match parse_token(s, 0, start, class) {
        Err(f) => Err((f, 0)),
        Ok(e) => if e == s.len() {
            Ok(())
        } else {
            Err((Fault::InvalidCharacter, e))
        },
    }
}

/// Checks that `s` is the name of a category: it begins with a letter, a digit
/// or `_`, and goes on with these, `+`, `.` and `-`.
pub fn category(s: &str) -> (r: Result<&str, ParseError>)
    ensures
        r is Ok <==> is_token(s@, CharClass::Word, CharClass::Name),
        match r {
            Ok(t) => t@ == s@,
            Err(e) => check_category(s@) == Err::<(), ParseErrorView>(e@),
        },
{
    proof {
        lemma_check_token(s@, CharClass::Word, CharClass::Name);
    }
    let chars = chars_of(s);
    match whole_token(chars.as_slice(), CharClass::Word, CharClass::Name) {
        Ok(_) => Ok(s),
        Err((f, o)) => Err(ParseError::CategoryError(f, o)),
    }
}

/// Checks that `s` is the name of a package: it begins with a letter, a digit
/// or `_`, and goes on with these, `+`, `.` and `-`.
pub fn package(s: &str) -> (r: Result<&str, ParseError>)
    ensures
        r is Ok <==> is_token(s@, CharClass::Word, CharClass::Name),
        match r {
            Ok(t) => t@ == s@,
            Err(e) => check_package(s@) == Err::<(), ParseErrorView>(e@),
        },
{
    proof {
        lemma_check_token(s@, CharClass::Word, CharClass::Name);
    }
    let chars = chars_of(s);
    match whole_token(chars.as_slice(), CharClass::Word, CharClass::Name) {
        Ok(_) => Ok(s),
        Err((f, o)) => Err(ParseError::PackageError(f, o)),
    }
}

/// Checks that `s` is the name of a repository: it begins with a letter, a
/// digit or `_`, and goes on with these and `-`.
pub fn repo(s: &str) -> (r: Result<&str, ParseError>)
    ensures
        r is Ok <==> is_token(s@, CharClass::Word, CharClass::Repo),
        match r {
            Ok(t) => t@ == s@,
            Err(e) => check_repo(s@) == Err::<(), ParseErrorView>(e@),
        },
{
    proof {
        lemma_check_token(s@, CharClass::Word, CharClass::Repo);
    }
    let chars = chars_of(s);
    match whole_token(chars.as_slice(), CharClass::Word, CharClass::Repo) {
        Ok(_) => Ok(s),
        Err((f, o)) => Err(ParseError::RepoError(f, o)),
    }
}

/// Checks that `s` is a version.
pub fn version(s: &str) -> (r: Result<&str, ParseError>)
    ensures
        r is Ok <==> spec_parse_version(s@) is Ok,
        match r {
            Ok(t) => t@ == s@,
            Err(e) => check_version(s@) == Err::<(), ParseErrorView>(e@),
        },
{
    match Version::new(s) {
        Ok(_) => Ok(s),
        Err(e) => Err(ParseError::VersionError(Fault::InvalidVersion(e), 0)),
    }
}

/// Checks that `s` is a category, a package and a version: `cat/pkg-1.0`.
pub fn cpv(s: &str) -> (r: Result<&str, ParseError>)
    ensures
        r is Ok <==> cpv_parts(s@) is Some,
        match r {
            Ok(t) => t@ == s@,
            Err(e) => check_cpv(s@) == Err::<(), ParseErrorView>(e@),
        },
{
    let chars = chars_of(s);
    let text = chars.as_slice();
    if text.len() == 0 {
        return Err(ParseError::EmptyInput);
    }
    let (slash, end) = match parse_key(text, 0) {
        Ok(x) => x,
        Err(e) => {
            return Err(e);
        },
    };
    match parse_version_in(text, slash + 1, end) {
        Err(e) => Err(e),
        Ok(_) => if end == text.len() {
            Ok(s)
        } else {
            Err(ParseError::UnexpectedTrailingInput(end))
        },
    }
}

} // verus!
