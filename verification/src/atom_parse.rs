//! Parsing atoms.

use vstd::prelude::*;
use crate::atom::{
    is_default_at, read_head, read_key, read_operator, read_repo, read_slot, read_slot_operator,
    read_token, read_use_dep, read_use_deps, read_use_list, read_version, spec_parse_atom,
    use_dep_kind, use_dep_views, version_boundary, Atom, AtomView, HeadView, Operator, Slot,
    SlotOperator, SlotView, UseDep, UseDepKind, UseDepView,
};
use crate::atom_text::{
    lemma_parse_atom, lemma_read_token, lemma_read_use_dep, lemma_wf_under_latest,
};
use crate::error::{Fault, FaultView, ParseError, ParseErrorView};
use crate::grammar::{resolve, spec_resolve, GrammarRevision};
use crate::text::{chars_of, is_mark_char, scan, slice_of, CharClass};
use crate::version::{Version, VersionView};

verus! {

pub(crate) fn parse_token(s: &[char], i: usize, start: CharClass, class: CharClass) -> (r: Result<
    usize,
    Fault,
>)
    requires
        i <= s@.len(),
    ensures
        match r {
            Ok(e) => read_token(s@, i as int, start, class) == Ok::<int, FaultView>(e as int) && i
                <= e <= s@.len(),
            Err(f) => read_token(s@, i as int, start, class) == Err::<int, FaultView>(f@),
        },
{
    if i < s.len() && start.contains(s[i]) {
        Ok(scan(s, i, class))
    } else if i < s.len() && !is_mark_char(s[i]) {
        Err(Fault::InvalidCharacter)
    } else {
        Err(Fault::EmptyInput)
    }
}

fn parse_operator(s: &[char]) -> (r: (Option<Operator>, usize))
    ensures
        r.0 == read_operator(s@).0,
        r.1 == read_operator(s@).1,
        r.1 <= s@.len(),
{
    let n = s.len();
    if n >= 2 && s[0] == '<' && s[1] == '=' {
        (Some(Operator::LessOrEqual), 2)
    } else if n >= 1 && s[0] == '<' {
        (Some(Operator::Less), 1)
    } else if n >= 2 && s[0] == '>' && s[1] == '=' {
        (Some(Operator::GreaterOrEqual), 2)
    } else if n >= 1 && s[0] == '>' {
        (Some(Operator::Greater), 1)
    } else if n >= 1 && s[0] == '=' {
        (Some(Operator::Equal), 1)
    } else if n >= 1 && s[0] == '~' {
        (Some(Operator::Approximate), 1)
    } else {
        (None, 0)
    }
}

fn find_boundary(s: &[char], from: usize, to: usize) -> (r: Option<usize>)
    requires
        from <= s@.len(),
    ensures
        match r {
            Some(h) => version_boundary(s@, from as int, to as int) == Some(h as int) && from <= h
                < to < s@.len(),
            None => version_boundary(s@, from as int, to as int) is None,
        },
{
    if to >= s.len() {
        return None;
    }
    let mut k: usize = to;
    while k > from
        invariant
            k <= to < s@.len(),
            version_boundary(s@, from as int, to as int) == version_boundary(
                s@,
                from as int,
                k as int,
            ),
        decreases k,
    {
        if s[k - 1] == '-' && CharClass::Digit.contains(s[k]) {
            return Some(k - 1);
        }
        k -= 1;
    }
    None
}

pub(crate) fn parse_key(s: &[char], i: usize) -> (r: Result<(usize, usize), ParseError>)
    requires
        i <= s@.len(),
    ensures
        match r {
            Ok((slash, end)) => read_key(s@, i as int) == Ok::<(int, int), ParseErrorView>(
                (slash as int, end as int),
            ) && i < slash && slash + 1 < end <= s@.len(),
            Err(e) => read_key(s@, i as int) == Err::<(int, int), ParseErrorView>(e@),
        },
{
    proof {
        reveal(read_key);
        lemma_read_token(s@, i as int, CharClass::Word, CharClass::Name);
    }
    let slash = match parse_token(s, i, CharClass::Word, CharClass::Name) {
        Ok(e) => e,
        Err(f) => {
            return Err(ParseError::CategoryError(f, i));
        },
    };
    if slash >= s.len() {
        return Err(ParseError::CategoryError(Fault::StructuralMismatch, slash));
    }
    if s[slash] != '/' {
        return Err(ParseError::CategoryError(Fault::InvalidCharacter, slash));
    }
    proof {
        lemma_read_token(s@, slash as int + 1, CharClass::Word, CharClass::Name);
    }
    match parse_token(s, slash + 1, CharClass::Word, CharClass::Name) {
        Ok(end) => Ok((slash, end)),
        Err(f) => Err(ParseError::PackageError(f, slash + 1)),
    }
}

pub(crate) fn parse_version_in(s: &[char], from: usize, to: usize) -> (r: Result<
    (usize, Version),
    ParseError,
>)
    requires
        from < to <= s@.len(),
    ensures
        match r {
            Ok((hyphen, v)) => read_version(s@, from as int, to as int) == Ok::<
                (int, VersionView),
                ParseErrorView,
            >((hyphen as int, v@)) && from <= hyphen < to,
            Err(e) => read_version(s@, from as int, to as int) == Err::<
                (int, VersionView),
                ParseErrorView,
            >(e@),
        },
{
    proof {
        reveal(read_version);
    }
    match find_boundary(s, from, to - 1) {
        None => Err(ParseError::VersionError(Fault::StructuralMismatch, to)),
        Some(hyphen) => {
            let token = slice_of(s, hyphen + 1, to);
            match Version::from_chars(token.as_slice()) {
                Ok(v) => Ok((hyphen, v)),
                Err(e) => Err(ParseError::VersionError(Fault::InvalidVersion(e), hyphen + 1)),
            }
        },
    }
}

struct Head {
    category: Vec<char>,
    package: Vec<char>,
    version: Option<(Operator, Version)>,
    end: usize,
}

impl View for Head {
    type V = HeadView;

    closed spec fn view(&self) -> HeadView {
        HeadView {
            category: self.category@,
            package: self.package@,
            version: match self.version {
                Some((op, v)) => Some((op, v@)),
                None => None,
            },
            end: self.end as int,
        }
    }
}

fn parse_head(s: &[char]) -> (r: Result<Head, ParseError>)
    ensures
        match r {
            Ok(h) => read_head(s@) == Ok::<HeadView, ParseErrorView>(h@) && h.end <= s@.len(),
            Err(e) => read_head(s@) == Err::<HeadView, ParseErrorView>(e@),
        },
{
    proof {
        reveal(read_head);
    }
    let (op, start) = parse_operator(s);
    let (slash, end) = match parse_key(s, start) {
        Ok(x) => x,
        Err(e) => {
            return Err(e);
        },
    };
    let category = slice_of(s, start, slash);
    match op {
        None => {
            let package = slice_of(s, slash + 1, end);
            Ok(Head { category, package, version: None, end })
        },
        Some(op) => {
            let (hyphen, v) = match parse_version_in(s, slash + 1, end) {
                Ok(x) => x,
                Err(e) => {
                    return Err(e);
                },
            };
            let star = end < s.len() && s[end] == '*';
            let has_revision = v.revision_digits().is_some();
            if star && (op != Operator::Equal || has_revision) {
                return Err(ParseError::VersionError(Fault::StructuralMismatch, end));
            }
            let package = slice_of(s, slash + 1, hyphen);
            if star {
                Ok(Head { category, package, version: Some((Operator::EqualGlob, v)), end: end + 1 })
            } else {
                Ok(Head { category, package, version: Some((op, v)), end })
            }
        },
    }
}

fn parse_slot_operator(
    s: &[char],
    i: usize,
    rev: GrammarRevision,
    name: Vec<char>,
    subslot: Option<Vec<char>>,
) -> (r: Result<(Option<Slot>, usize), ParseError>)
    requires
        i <= s@.len(),
    ensures
        match r {
            Ok((slot, e)) => read_slot_operator(
                s@,
                i as int,
                rev,
                name@,
                match subslot {
                    Some(x) => Some(x@),
                    None => None,
                },
            ) == Ok::<(Option<SlotView>, int), ParseErrorView>(
                (
                    match slot {
                        Some(x) => Some(x@),
                        None => None,
                    },
                    e as int,
                ),
            ) && i <= e <= s@.len(),
            Err(e) => read_slot_operator(
                s@,
                i as int,
                rev,
                name@,
                match subslot {
                    Some(x) => Some(x@),
                    None => None,
                },
            ) == Err::<(Option<SlotView>, int), ParseErrorView>(e@),
        },
{
    let operator = if i < s.len() && s[i] == '=' {
        Some(SlotOperator::Equal)
    } else if i < s.len() && s[i] == '*' {
        Some(SlotOperator::Star)
    } else {
        None
    };
    if operator.is_some() {
        if rev.slot_ops {
            Ok((Some(Slot { name, subslot, operator }), i + 1))
        } else {
            Err(ParseError::SlotError(Fault::Unsupported, i))
        }
    } else {
        Ok((Some(Slot { name, subslot, operator: None }), i))
    }
}

fn parse_slot(s: &[char], i: usize, rev: GrammarRevision) -> (r: Result<
    (Option<Slot>, usize),
    ParseError,
>)
    requires
        i <= s@.len(),
    ensures
        match r {
            Ok((slot, e)) => read_slot(s@, i as int, rev) == Ok::<
                (Option<SlotView>, int),
                ParseErrorView,
            >(
                (
                    match slot {
                        Some(x) => Some(x@),
                        None => None,
                    },
                    e as int,
                ),
            ) && i <= e <= s@.len(),
            Err(e) => read_slot(s@, i as int, rev) == Err::<(Option<SlotView>, int), ParseErrorView>(
                e@,
            ),
        },
{
    proof {
        reveal(read_slot);
    }
    if !(i < s.len() && s[i] == ':' && !(s.len() - i > 1 && s[i + 1] == ':')) {
        return Ok((None, i));
    }
    if !rev.slot_deps {
        return Err(ParseError::SlotError(Fault::Unsupported, i));
    }
    let e = match parse_token(s, i + 1, CharClass::Word, CharClass::Name) {
        Ok(e) => e,
        Err(f) => {
            return Err(ParseError::SlotError(f, i + 1));
        },
    };
    let name = slice_of(s, i + 1, e);
    if e < s.len() && s[e] == '/' {
        if !rev.slot_ops {
            return Err(ParseError::SlotError(Fault::Unsupported, e));
        }
        let e2 = match parse_token(s, e + 1, CharClass::Word, CharClass::Name) {
            Ok(e2) => e2,
            Err(Fault::EmptyInput) => {
                return Err(ParseError::SlotError(Fault::StructuralMismatch, e + 1));
            },
            Err(f) => {
                return Err(ParseError::SlotError(f, e + 1));
            },
        };
        let subslot = slice_of(s, e + 1, e2);
        parse_slot_operator(s, e2, rev, name, Some(subslot))
    } else {
        parse_slot_operator(s, e, rev, name, None)
    }
}

fn kind_of(prefix: Option<char>, suffix: Option<char>) -> (r: Option<UseDepKind>)
    ensures
        r == use_dep_kind(prefix, suffix),
{
    match (prefix, suffix) {
        (None, None) => Some(UseDepKind::Enabled),
        (Some(p), None) => if p == '-' {
            Some(UseDepKind::Disabled)
        } else {
            None
        },
        (None, Some(q)) => if q == '?' {
            Some(UseDepKind::ConditionalEnabled)
        } else {
            Some(UseDepKind::Equal)
        },
        (Some(p), Some(q)) => if p == '!' && q == '?' {
            Some(UseDepKind::ConditionalDisabled)
        } else if p == '!' {
            Some(UseDepKind::NotEqual)
        } else {
            None
        },
    }
}

fn parse_use_dep(s: &[char], i: usize, rev: GrammarRevision) -> (r: Result<
    (UseDep, usize),
    ParseError,
>)
    requires
        i <= s@.len(),
    ensures
        match r {
            Ok((dep, e)) => read_use_dep(s@, i as int, rev) == Ok::<(UseDepView, int), ParseErrorView>(
                (dep@, e as int),
            ) && i < e <= s@.len(),
            Err(e) => read_use_dep(s@, i as int, rev) == Err::<(UseDepView, int), ParseErrorView>(
                e@,
            ),
        },
{
    proof {
        reveal(read_use_dep);
        lemma_read_use_dep(s@, i as int, rev);
    }
    let prefix = if i < s.len() && (s[i] == '-' || s[i] == '!') {
        Some(s[i])
    } else {
        None
    };
    let start = if prefix.is_some() {
        i + 1
    } else {
        i
    };
    let e = match parse_token(s, start, CharClass::Alnum, CharClass::Flag) {
        Ok(e) => e,
        Err(f) => {
            return Err(ParseError::UseDepError(f, start));
        },
    };
    let has_default = s.len() - e > 2 && s[e] == '(' && (s[e + 1] == '+' || s[e + 1] == '-') && s[e
        + 2] == ')';
    assert(has_default == is_default_at(s@, e as int));
    if e < s.len() && s[e] == '(' && !has_default {
        return Err(ParseError::UseDepError(Fault::StructuralMismatch, e));
    }
    if has_default && !rev.use_dep_defaults {
        return Err(ParseError::UseDepError(Fault::Unsupported, e));
    }
    let default = if has_default {
        Some(s[e + 1] == '+')
    } else {
        None
    };
    let d = if has_default {
        e + 3
    } else {
        e
    };
    let suffix = if d < s.len() && (s[d] == '?' || s[d] == '=') {
        Some(s[d])
    } else {
        None
    };
    let end = if suffix.is_some() {
        d + 1
    } else {
        d
    };
    match kind_of(prefix, suffix) {
        None => Err(ParseError::UseDepError(Fault::StructuralMismatch, i)),
        Some(kind) => {
            let flag = slice_of(s, start, e);
            Ok((UseDep { kind, flag, default }, end))
        },
    }
}

/// `r` with the USE dependencies `acc` before its own.
spec fn after_use_deps(
    acc: Seq<UseDepView>,
    r: Result<(Seq<UseDepView>, int), ParseErrorView>,
) -> Result<
    (Seq<UseDepView>, int),
    ParseErrorView,
> {
    match r {
        Ok((rest, end)) => Ok((acc + rest, end)),
        Err(e) => Err(e),
    }
}

fn parse_use_list(s: &[char], start: usize, rev: GrammarRevision) -> (r: Result<
    (Vec<UseDep>, usize),
    ParseError,
>)
    requires
        start <= s@.len(),
    ensures
        match r {
            Ok((deps, e)) => read_use_list(s@, start as int, rev) == Ok::<
                (Seq<UseDepView>, int),
                ParseErrorView,
            >((use_dep_views(deps@), e as int)) && start <= e <= s@.len(),
            Err(e) => read_use_list(s@, start as int, rev) == Err::<
                (Seq<UseDepView>, int),
                ParseErrorView,
            >(e@),
        },
{
    let mut deps: Vec<UseDep> = Vec::new();
    let mut i: usize = start;
    proof {
        match read_use_list(s@, start as int, rev) {
            Ok((rest, end)) => {
                assert(use_dep_views(deps@) + rest =~= rest);
            },
            Err(_) => {},
        }
    }
    loop
        invariant
            start <= i <= s@.len(),
            read_use_list(s@, start as int, rev) == after_use_deps(
                use_dep_views(deps@),
                read_use_list(s@, i as int, rev),
            ),
        decreases s@.len() - i,
    {
        let (dep, e) = match parse_use_dep(s, i, rev) {
            Ok(x) => x,
            Err(e) => {
                return Err(e);
            },
        };
        if e >= s.len() {
            return Err(ParseError::UseDepError(Fault::StructuralMismatch, e));
        }
        let ghost before = use_dep_views(deps@);
        let ghost item = dep@;
        if s[e] == ']' {
            deps.push(dep);
            assert(use_dep_views(deps@) =~= before + seq![item]);
            return Ok((deps, e + 1));
        }
        if s[e] != ',' {
            return Err(ParseError::UseDepError(Fault::InvalidCharacter, e));
        }
        deps.push(dep);
        proof {
            assert(use_dep_views(deps@) =~= before.push(item));
            match read_use_list(s@, e as int + 1, rev) {
                Ok((rest, end)) => {
                    assert(before + (seq![item] + rest) =~= before.push(item) + rest);
                },
                Err(_) => {},
            }
        }
        i = e + 1;
    }
}

fn parse_use_deps(s: &[char], i: usize, rev: GrammarRevision) -> (r: Result<
    (Option<Vec<UseDep>>, usize),
    ParseError,
>)
    requires
        i <= s@.len(),
    ensures
        match r {
            Ok((deps, e)) => read_use_deps(s@, i as int, rev) == Ok::<
                (Option<Seq<UseDepView>>, int),
                ParseErrorView,
            >(
                (
                    match deps {
                        Some(d) => Some(use_dep_views(d@)),
                        None => None,
                    },
                    e as int,
                ),
            ) && i <= e <= s@.len(),
            Err(e) => read_use_deps(s@, i as int, rev) == Err::<
                (Option<Seq<UseDepView>>, int),
                ParseErrorView,
            >(e@),
        },
{
    proof {
        reveal(read_use_deps);
    }
    if !(i < s.len() && s[i] == '[') {
        return Ok((None, i));
    }
    if !rev.use_deps {
        return Err(ParseError::UseDepError(Fault::Unsupported, i));
    }
    if s.len() - i > 1 && s[i + 1] == ']' {
        return Err(ParseError::UseDepError(Fault::StructuralMismatch, i + 1));
    }
    match parse_use_list(s, i + 1, rev) {
        Ok((deps, end)) => Ok((Some(deps), end)),
        Err(e) => Err(e),
    }
}

fn parse_repo(s: &[char], i: usize, rev: GrammarRevision) -> (r: Result<
    (Option<Vec<char>>, usize),
    ParseError,
>)
    requires
        i <= s@.len(),
    ensures
        match r {
            Ok((repo, e)) => read_repo(s@, i as int, rev) == Ok::<
                (Option<Seq<char>>, int),
                ParseErrorView,
            >(
                (
                    match repo {
                        Some(x) => Some(x@),
                        None => None,
                    },
                    e as int,
                ),
            ) && i <= e <= s@.len(),
            Err(e) => read_repo(s@, i as int, rev) == Err::<(Option<Seq<char>>, int), ParseErrorView>(
                e@,
            ),
        },
{
    proof {
        reveal(read_repo);
    }
    if !(s.len() - i > 1 && s[i] == ':' && s[i + 1] == ':') {
        return Ok((None, i));
    }
    if !rev.repo_ids {
        return Err(ParseError::RepoError(Fault::Unsupported, i));
    }
    match parse_token(s, i + 2, CharClass::Word, CharClass::Repo) {
        Ok(e) => Ok((Some(slice_of(s, i + 2, e)), e)),
        Err(f) => Err(ParseError::RepoError(f, i + 2)),
    }
}

impl Atom {
    /// Reads an atom from its characters under the grammar revision `rev`.
    pub fn from_chars(s: &[char], rev: GrammarRevision) -> (r: Result<Atom, ParseError>)
        ensures
            match r {
                Ok(a) => spec_parse_atom(s@, rev) == Ok::<AtomView, ParseErrorView>(a@),
                Err(e) => spec_parse_atom(s@, rev) == Err::<AtomView, ParseErrorView>(e@),
            },
            r matches Ok(a) ==> a@.wf(rev) && a@.text() == s@,
    {
        proof {
            lemma_parse_atom(s@, rev);
        }
        if s.len() == 0 {
            return Err(ParseError::EmptyInput);
        }
        let head = match parse_head(s) {
            Ok(h) => h,
            Err(e) => {
                return Err(e);
            },
        };
        let (slot, a) = match parse_slot(s, head.end, rev) {
            Ok(x) => x,
            Err(e) => {
                return Err(e);
            },
        };
        let (use_deps, b) = match parse_use_deps(s, a, rev) {
            Ok(x) => x,
            Err(e) => {
                return Err(e);
            },
        };
        let (repo, c) = match parse_repo(s, b, rev) {
            Ok(x) => x,
            Err(e) => {
                return Err(e);
            },
        };
        if c != s.len() {
            return Err(ParseError::UnexpectedTrailingInput(c));
        }
        proof {
            lemma_parse_atom(s@, rev);
            lemma_wf_under_latest(spec_parse_atom(s@, rev)->Ok_0, rev);
        }
        Ok(Atom::assemble(head.category, head.package, head.version, slot, use_deps, repo))
    }

    /// Reads an atom from a string under the grammar revision named `eapi`,
    /// or under the latest where no name is given. Fails with
    /// `UnknownRevision` where the registry holds no revision of that name,
    /// whatever the text.
    pub fn new(text: &str, eapi: Option<&str>) -> (r: Result<Atom, ParseError>)
        ensures
            match r {
                Ok(a) => spec_new_atom(text@, option_view(eapi)) == Ok::<AtomView, ParseErrorView>(
                    a@,
                ),
                Err(e) => spec_new_atom(text@, option_view(eapi)) == Err::<AtomView, ParseErrorView>(
                    e@,
                ),
            },
            r matches Ok(a) ==> a@.text() == text@,
    {
        let rev = match resolve(eapi) {
            Ok(rev) => rev,
            Err(e) => {
                return Err(e);
            },
        };
        parse_atom(text, rev)
    }
}

/// The view of a string that may be missing.
pub open spec fn option_view(s: Option<&str>) -> Option<Seq<char>> {
    match s {
        Some(s) => Some(s@),
        None => None,
    }
}

/// What `Atom::new` gives: the revision is looked up first, then the text is
/// parsed under it.
pub open spec fn spec_new_atom(text: Seq<char>, eapi: Option<Seq<char>>) -> Result<
    AtomView,
    ParseErrorView,
> {
    match spec_resolve(eapi) {
        Ok(rev) => spec_parse_atom(text, rev),
        Err(e) => Err(e),
    }
}

/// Reads an atom from a string under the grammar revision `rev`: the atom that
/// `spec_parse_atom` gives for the text, or the error that it gives.
pub fn parse_atom(text: &str, rev: GrammarRevision) -> (r: Result<Atom, ParseError>)
    ensures
        match r {
            Ok(a) => spec_parse_atom(text@, rev) == Ok::<AtomView, ParseErrorView>(a@),
            Err(e) => spec_parse_atom(text@, rev) == Err::<AtomView, ParseErrorView>(e@),
        },
        r matches Ok(a) ==> a@.wf(rev) && a@.text() == text@,
{
    let chars = chars_of(text);
    Atom::from_chars(chars.as_slice(), rev)
}

} // verus!
