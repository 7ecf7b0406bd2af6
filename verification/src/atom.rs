//! Package atoms: what an atom holds and the grammar that reads one.
//!
//! ```text
//! atom     = [OP] CATEGORY "/" PACKAGE ["-" VERSION ["*"]] [slot] [use] [repo]
//! OP       = "<" | "<=" | "=" | "~" | ">=" | ">"
//! slot     = ":" NAME ["/" NAME] ["=" | "*"]
//! use      = "[" dep ("," dep)* "]"
//! dep      = ["-" | "!"] FLAG ["(+)" | "(-)"] ["?" | "="]
//! repo     = "::" REPO
//! ```
//!
//! A version stands in the atom exactly when an operator does. `=` with `*`
//! after the version is the wildcard operator.

use vstd::prelude::*;
use crate::error::{FaultView, ParseErrorView};
use crate::grammar::GrammarRevision;
use crate::text::{
    copy_of, copy_of_option, is_digit, is_mark, lemma_run_end, run_end, CharClass,
};
use crate::version::{spec_parse_version, Version, VersionView};

verus! {

/// How the versions that an atom matches relate to the version it names.
#[derive(Clone, Copy, Debug, PartialEq, Eq, Structural)]
pub enum Operator {
    /// `<`
    Less,
    /// `<=`
    LessOrEqual,
    /// `=`
    Equal,
    /// `=` with `*` after the version: any version that begins like this one.
    EqualGlob,
    /// `~`: this version in any revision.
    Approximate,
    /// `>=`
    GreaterOrEqual,
    /// `>`
    Greater,
}

/// What a change of the slot or sub-slot of a dependency asks for.
#[derive(Clone, Copy, Debug, PartialEq, Eq, Structural)]
pub enum SlotOperator {
    /// `=`
    Equal,
    /// `*`
    Star,
}

/// The six forms of a USE dependency.
#[derive(Clone, Copy, Debug, PartialEq, Eq, Structural)]
pub enum UseDepKind {
    /// `flag`
    Enabled,
    /// `-flag`
    Disabled,
    /// `flag?`
    ConditionalEnabled,
    /// `!flag?`
    ConditionalDisabled,
    /// `flag=`
    Equal,
    /// `!flag=`
    NotEqual,
}

/// One USE dependency: a flag, the form of the dependency, and the default
/// that stands for the flag where a package does not have it: `(+)` is
/// `Some(true)`, `(-)` is `Some(false)`.
#[derive(Debug)]
pub struct UseDep {
    pub kind: UseDepKind,
    pub flag: Vec<char>,
    pub default: Option<bool>,
}

/// What a [`UseDep`] stands for in contracts.
pub struct UseDepView {
    pub kind: UseDepKind,
    pub flag: Seq<char>,
    pub default: Option<bool>,
}

impl View for UseDep {
    type V = UseDepView;

    open spec fn view(&self) -> UseDepView {
        UseDepView { kind: self.kind, flag: self.flag@, default: self.default }
    }
}

/// The slot clause of an atom.
#[derive(Debug)]
pub struct Slot {
    pub name: Vec<char>,
    pub subslot: Option<Vec<char>>,
    pub operator: Option<SlotOperator>,
}

/// What a [`Slot`] stands for in contracts.
pub struct SlotView {
    pub name: Seq<char>,
    pub subslot: Option<Seq<char>>,
    pub operator: Option<SlotOperator>,
}

impl View for Slot {
    type V = SlotView;

    open spec fn view(&self) -> SlotView {
        SlotView {
            name: self.name@,
            subslot: match self.subslot {
                Some(s) => Some(s@),
                None => None,
            },
            operator: self.operator,
        }
    }
}

/// A parsed atom.
#[derive(Debug)]
pub struct Atom {
    category: Vec<char>,
    package: Vec<char>,
    version: Option<(Operator, Version)>,
    slot: Option<Slot>,
    use_deps: Option<Vec<UseDep>>,
    repo: Option<Vec<char>>,
}

/// What an [`Atom`] stands for in contracts.
pub struct AtomView {
    pub category: Seq<char>,
    pub package: Seq<char>,
    /// The operator and the version: both or neither.
    pub version: Option<(Operator, VersionView)>,
    pub slot: Option<SlotView>,
    /// The USE dependencies, in the order written.
    pub use_deps: Option<Seq<UseDepView>>,
    pub repo: Option<Seq<char>>,
}

/// The views of the USE dependencies in `v`.
pub open spec fn use_dep_views(v: Seq<UseDep>) -> Seq<UseDepView> {
    Seq::new(v.len(), |i: int| v[i]@)
}

impl View for Atom {
    type V = AtomView;

    closed spec fn view(&self) -> AtomView {
        AtomView {
            category: self.category@,
            package: self.package@,
            version: match self.version {
                Some((op, v)) => Some((op, v@)),
                None => None,
            },
            slot: match self.slot {
                Some(s) => Some(s@),
                None => None,
            },
            use_deps: match self.use_deps {
                Some(u) => Some(use_dep_views(u@)),
                None => None,
            },
            repo: match self.repo {
                Some(r) => Some(r@),
                None => None,
            },
        }
    }
}

impl Clone for UseDep {
    fn clone(&self) -> (r: UseDep)
        ensures
            r@ == self@,
    {
        UseDep { kind: self.kind, flag: copy_of(&self.flag), default: self.default }
    }
}

impl Clone for Slot {
    fn clone(&self) -> (r: Slot)
        ensures
            r@ == self@,
    {
        Slot {
            name: copy_of(&self.name),
            subslot: copy_of_option(&self.subslot),
            operator: self.operator,
        }
    }
}

impl Clone for Atom {
    fn clone(&self) -> (r: Atom)
        ensures
            r@ == self@,
    {
        proof {
            use_type_invariant(self);
        }
        let version = match &self.version {
            Some((op, v)) => Some((*op, v.clone())),
            None => None,
        };
        let slot = match &self.slot {
            Some(s) => Some(s.clone()),
            None => None,
        };
        let use_deps = match &self.use_deps {
            Some(deps) => {
                let mut out: Vec<UseDep> = Vec::new();
                let mut i: usize = 0;
                while i < deps.len()
                    invariant
                        i <= deps@.len(),
                        out@.len() == i,
                        forall|k: int| 0 <= k < i ==> (#[trigger] out@[k])@ == deps@[k]@,
                    decreases deps@.len() - i,
                {
                    out.push(deps[i].clone());
                    i += 1;
                }
                assert(use_dep_views(out@) =~= use_dep_views(deps@));
                Some(out)
            },
            None => None,
        };
        Atom {
            category: copy_of(&self.category),
            package: copy_of(&self.package),
            version,
            slot,
            use_deps,
            repo: copy_of_option(&self.repo),
        }
    }
}

impl Atom {
    #[verifier::type_invariant]
    spec fn inv(self) -> bool {
        self@.wf(GrammarRevision::spec_latest())
    }

    /// The characters of the category.
    pub fn category_chars(&self) -> (r: &Vec<char>)
        ensures
            r@ == self@.category,
            self@.wf(GrammarRevision::spec_latest()),
    {
        proof {
            use_type_invariant(self);
        }
        &self.category
    }

    /// The characters of the package name.
    pub fn package_chars(&self) -> (r: &Vec<char>)
        ensures
            r@ == self@.package,
            self@.wf(GrammarRevision::spec_latest()),
    {
        proof {
            use_type_invariant(self);
        }
        &self.package
    }

    /// The operator and the version, where the atom has them.
    pub fn version_spec(&self) -> (r: Option<(Operator, &Version)>)
        ensures
            match r {
                Some((op, v)) => self@.version == Some((op, v@)),
                None => self@.version is None,
            },
            self@.wf(GrammarRevision::spec_latest()),
    {
        proof {
            use_type_invariant(self);
        }
        match &self.version {
            Some((op, v)) => Some((*op, v)),
            None => None,
        }
    }

    /// The slot clause, where the atom has one.
    pub fn slot_clause(&self) -> (r: Option<&Slot>)
        ensures
            match r {
                Some(s) => self@.slot == Some(s@),
                None => self@.slot is None,
            },
            self@.wf(GrammarRevision::spec_latest()),
    {
        proof {
            use_type_invariant(self);
        }
        match &self.slot {
            Some(s) => Some(s),
            None => None,
        }
    }

    /// The USE dependencies, where the atom has any.
    pub fn use_dep_list(&self) -> (r: Option<&Vec<UseDep>>)
        ensures
            match r {
                Some(u) => self@.use_deps == Some(use_dep_views(u@)),
                None => self@.use_deps is None,
            },
            self@.wf(GrammarRevision::spec_latest()),
    {
        proof {
            use_type_invariant(self);
        }
        match &self.use_deps {
            Some(u) => Some(u),
            None => None,
        }
    }

    /// The characters of the repository name, where the atom has one.
    pub fn repo_chars(&self) -> (r: Option<&Vec<char>>)
        ensures
            match r {
                Some(x) => self@.repo == Some(x@),
                None => self@.repo is None,
            },
            self@.wf(GrammarRevision::spec_latest()),
    {
        proof {
            use_type_invariant(self);
        }
        match &self.repo {
            Some(x) => Some(x),
            None => None,
        }
    }

    /// The atom with these parts.
    pub(crate) fn assemble(
        category: Vec<char>,
        package: Vec<char>,
        version: Option<(Operator, Version)>,
        slot: Option<Slot>,
        use_deps: Option<Vec<UseDep>>,
        repo: Option<Vec<char>>,
    ) -> (a: Atom)
        requires
            (AtomView {
                category: category@,
                package: package@,
                version: match version {
                    Some((op, v)) => Some((op, v@)),
                    None => None,
                },
                slot: match slot {
                    Some(s) => Some(s@),
                    None => None,
                },
                use_deps: match use_deps {
                    Some(u) => Some(use_dep_views(u@)),
                    None => None,
                },
                repo: match repo {
                    Some(r) => Some(r@),
                    None => None,
                },
            }).wf(GrammarRevision::spec_latest()),
        ensures
            a@ == (AtomView {
                category: category@,
                package: package@,
                version: match version {
                    Some((op, v)) => Some((op, v@)),
                    None => None,
                },
                slot: match slot {
                    Some(s) => Some(s@),
                    None => None,
                },
                use_deps: match use_deps {
                    Some(u) => Some(use_dep_views(u@)),
                    None => None,
                },
                repo: match repo {
                    Some(r) => Some(r@),
                    None => None,
                },
            }),
    {
        Atom { category, package, version, slot, use_deps, repo }
    }
}

// ---------------------------------------------------------------------------
// The grammar
// ---------------------------------------------------------------------------

/// Reads a token at position `i`: a character of `start` and then characters
/// of `class`, as many as there are. Gives the position after the token. Where
/// the text ends at `i`, or one of the marks of the grammar stands there, the
/// token is empty; any other character that cannot begin the token is an
/// `InvalidCharacter`.
pub open spec fn read_token(s: Seq<char>, i: int, start: CharClass, class: CharClass) -> Result<
    int,
    FaultView,
> {
    if 0 <= i < s.len() && start.has(s[i]) {
        Ok(run_end(s, i, class))
    } else if 0 <= i < s.len() && !is_mark(s[i]) {
        Err(FaultView::InvalidCharacter)
    } else {
        Err(FaultView::EmptyInput)
    }
}

/// The operator that `s` begins with, if it begins with one, and its length.
/// `=` is read here as `Equal`; whether it is the wildcard shows after the
/// version.
pub open spec fn read_operator(s: Seq<char>) -> (Option<Operator>, int) {
    if s.len() >= 2 && s[0] == '<' && s[1] == '=' {
        (Some(Operator::LessOrEqual), 2)
    } else if s.len() >= 1 && s[0] == '<' {
        (Some(Operator::Less), 1)
    } else if s.len() >= 2 && s[0] == '>' && s[1] == '=' {
        (Some(Operator::GreaterOrEqual), 2)
    } else if s.len() >= 1 && s[0] == '>' {
        (Some(Operator::Greater), 1)
    } else if s.len() >= 1 && s[0] == '=' {
        (Some(Operator::Equal), 1)
    } else if s.len() >= 1 && s[0] == '~' {
        (Some(Operator::Approximate), 1)
    } else {
        (None, 0)
    }
}

/// The last position in `from..to` that holds a hyphen with a digit after it:
/// where the version of a versioned package begins.
pub open spec fn version_boundary(s: Seq<char>, from: int, to: int) -> Option<int>
    decreases to - from,
{
    if to <= from || from < 0 || to >= s.len() {
        None
    } else if s[to - 1] == '-' && is_digit(s[to]) {
        Some(to - 1)
    } else {
        version_boundary(s, from, to - 1)
    }
}

/// The category and what follows the slash, up to where the characters of
/// names end: the position of the slash and the end of the segment.
#[verifier::opaque]
pub open spec fn read_key(s: Seq<char>, i: int) -> Result<(int, int), ParseErrorView> {
    match read_token(s, i, CharClass::Word, CharClass::Name) {
        Err(f) => Err(ParseErrorView::CategoryError(f, i)),
        Ok(slash) => {
            if slash >= s.len() {
                Err(ParseErrorView::CategoryError(FaultView::StructuralMismatch, slash))
            } else if s[slash] != '/' {
                Err(ParseErrorView::CategoryError(FaultView::InvalidCharacter, slash))
            } else {
                match read_token(s, slash + 1, CharClass::Word, CharClass::Name) {
                    Err(f) => Err(ParseErrorView::PackageError(f, slash + 1)),
                    Ok(end) => Ok((slash, end)),
                }
            }
        },
    }
}

/// Splits the segment `s[from..to]` into package and version: the position of
/// the hyphen between them, and the version.
#[verifier::opaque]
pub open spec fn read_version(s: Seq<char>, from: int, to: int) -> Result<
    (int, VersionView),
    ParseErrorView,
> {
    match version_boundary(s, from, to - 1) {
        None => Err(ParseErrorView::VersionError(FaultView::StructuralMismatch, to)),
        Some(h) => match spec_parse_version(s.subrange(h + 1, to)) {
            Err(e) => Err(ParseErrorView::VersionError(FaultView::InvalidVersion(e), h + 1)),
            Ok(v) => Ok((h, v)),
        },
    }
}

/// What stands before the slot clause, with the position after it.
pub struct HeadView {
    pub category: Seq<char>,
    pub package: Seq<char>,
    pub version: Option<(Operator, VersionView)>,
    pub end: int,
}

/// Reads operator, category, package and version.
#[verifier::opaque]
pub open spec fn read_head(s: Seq<char>) -> Result<HeadView, ParseErrorView> {
    let (op, start) = read_operator(s);
    match read_key(s, start) {
        Err(e) => Err(e),
        Ok((slash, end)) => match op {
            None => Ok(
                HeadView {
                    category: s.subrange(start, slash),
                    package: s.subrange(slash + 1, end),
                    version: None,
                    end,
                },
            ),
            Some(op) => match read_version(s, slash + 1, end) {
                Err(e) => Err(e),
                Ok((hyphen, v)) => {
                    let star = end < s.len() && s[end] == '*';
                    if star && (op != Operator::Equal || v.revision is Some) {
                        Err(ParseErrorView::VersionError(FaultView::StructuralMismatch, end))
                    } else {
                        Ok(
                            HeadView {
                                category: s.subrange(start, slash),
                                package: s.subrange(slash + 1, hyphen),
                                version: Some(
                                    (
                                        if star {
                                            Operator::EqualGlob
                                        } else {
                                            op
                                        },
                                        v,
                                    ),
                                ),
                                end: if star {
                                    end + 1
                                } else {
                                    end
                                },
                            },
                        )
                    }
                },
            },
        },
    }
}

/// The slot operator that `c` writes.
pub open spec fn slot_operator_of(c: char) -> Option<SlotOperator> {
    if c == '=' {
        Some(SlotOperator::Equal)
    } else if c == '*' {
        Some(SlotOperator::Star)
    } else {
        None
    }
}

/// Reads the operator that may end a slot clause, at position `i`.
pub open spec fn read_slot_operator(
    s: Seq<char>,
    i: int,
    rev: GrammarRevision,
    name: Seq<char>,
    subslot: Option<Seq<char>>,
) -> Result<(Option<SlotView>, int), ParseErrorView> {
    if 0 <= i < s.len() && slot_operator_of(s[i]) is Some {
        if rev.slot_ops {
            Ok((Some(SlotView { name, subslot, operator: slot_operator_of(s[i]) }), i + 1))
        } else {
            Err(ParseErrorView::SlotError(FaultView::Unsupported, i))
        }
    } else {
        Ok((Some(SlotView { name, subslot, operator: None }), i))
    }
}

/// Reads the slot clause at position `i`, if one stands there: a colon that is
/// not the first of two. A slash with no sub-slot after it is a
/// `StructuralMismatch`.
#[verifier::opaque]
pub open spec fn read_slot(s: Seq<char>, i: int, rev: GrammarRevision) -> Result<
    (Option<SlotView>, int),
    ParseErrorView,
> {
    if 0 <= i < s.len() && s[i] == ':' && !(i + 1 < s.len() && s[i + 1] == ':') {
        if !rev.slot_deps {
            Err(ParseErrorView::SlotError(FaultView::Unsupported, i))
        } else {
            match read_token(s, i + 1, CharClass::Word, CharClass::Name) {
                Err(f) => Err(ParseErrorView::SlotError(f, i + 1)),
                Ok(e) => {
                    if e < s.len() && s[e] == '/' {
                        if !rev.slot_ops {
                            Err(ParseErrorView::SlotError(FaultView::Unsupported, e))
                        } else {
                            match read_token(s, e + 1, CharClass::Word, CharClass::Name) {
                                Err(FaultView::EmptyInput) => Err(
                                    ParseErrorView::SlotError(FaultView::StructuralMismatch, e + 1),
                                ),
                                Err(f) => Err(ParseErrorView::SlotError(f, e + 1)),
                                Ok(e2) => read_slot_operator(
                                    s,
                                    e2,
                                    rev,
                                    s.subrange(i + 1, e),
                                    Some(s.subrange(e + 1, e2)),
                                ),
                            }
                        }
                    } else {
                        read_slot_operator(s, e, rev, s.subrange(i + 1, e), None)
                    }
                },
            }
        }
    } else {
        Ok((None, i))
    }
}

/// The form of a USE dependency that begins with `prefix` and ends with
/// `suffix`, where the two go together.
pub open spec fn use_dep_kind(prefix: Option<char>, suffix: Option<char>) -> Option<UseDepKind> {
    match (prefix, suffix) {
        (None, None) => Some(UseDepKind::Enabled),
        (Some(p), None) => if p == '-' {
            Some(UseDepKind::Disabled)
        } else {
            None
        },
        (None, Some(q)) => if q == '?' {
            Some(UseDepKind::ConditionalEnabled)
        } else {
            Some(UseDepKind::Equal)
        },
        (Some(p), Some(q)) => if p == '!' && q == '?' {
            Some(UseDepKind::ConditionalDisabled)
        } else if p == '!' {
            Some(UseDepKind::NotEqual)
        } else {
            None
        },
    }
}

/// Whether a default, `(+)` or `(-)`, stands at position `i`.
pub open spec fn is_default_at(s: Seq<char>, i: int) -> bool {
    &&& 0 <= i
    &&& i + 2 < s.len()
    &&& s[i] == '('
    &&& (s[i + 1] == '+' || s[i + 1] == '-')
    &&& s[i + 2] == ')'
}

/// Reads one USE dependency at position `i`.
#[verifier::opaque]
pub open spec fn read_use_dep(s: Seq<char>, i: int, rev: GrammarRevision) -> Result<
    (UseDepView, int),
    ParseErrorView,
> {
    let prefix = if 0 <= i < s.len() && (s[i] == '-' || s[i] == '!') {
        Some(s[i])
    } else {
        None
    };
    let start = if prefix is Some {
        i + 1
    } else {
        i
    };
    match read_token(s, start, CharClass::Alnum, CharClass::Flag) {
        Err(f) => Err(ParseErrorView::UseDepError(f, start)),
        Ok(e) => {
            if e < s.len() && s[e] == '(' && !is_default_at(s, e) {
                Err(ParseErrorView::UseDepError(FaultView::StructuralMismatch, e))
            } else if is_default_at(s, e) && !rev.use_dep_defaults {
                Err(ParseErrorView::UseDepError(FaultView::Unsupported, e))
            } else {
                let default = if is_default_at(s, e) {
                    Some(s[e + 1] == '+')
                } else {
                    None
                };
                let d = if default is Some {
                    e + 3
                } else {
                    e
                };
                let suffix = if 0 <= d < s.len() && (s[d] == '?' || s[d] == '=') {
                    Some(s[d])
                } else {
                    None
                };
                let end = if suffix is Some {
                    d + 1
                } else {
                    d
                };
                match use_dep_kind(prefix, suffix) {
                    None => Err(ParseErrorView::UseDepError(FaultView::StructuralMismatch, i)),
                    Some(kind) => Ok((UseDepView { kind, flag: s.subrange(start, e), default }, end)),
                }
            }
        },
    }
}

/// Reads USE dependencies with commas between them, up to the closing bracket.
pub open spec fn read_use_list(s: Seq<char>, i: int, rev: GrammarRevision) -> Result<
    (Seq<UseDepView>, int),
    ParseErrorView,
>
    decreases s.len() - i,
    via read_use_list_decreases
{
    match read_use_dep(s, i, rev) {
        Err(e) => Err(e),
        Ok((dep, e)) => {
            if e >= s.len() {
                Err(ParseErrorView::UseDepError(FaultView::StructuralMismatch, e))
            } else if s[e] == ']' {
                Ok((seq![dep], e + 1))
            } else if s[e] == ',' {
                match read_use_list(s, e + 1, rev) {
                    Ok((rest, end)) => Ok((seq![dep] + rest, end)),
                    Err(e) => Err(e),
                }
            } else {
                Err(ParseErrorView::UseDepError(FaultView::InvalidCharacter, e))
            }
        },
    }
}

#[via_fn]
proof fn read_use_list_decreases(s: Seq<char>, i: int, rev: GrammarRevision) {
    reveal(read_use_dep);
    if 0 <= i <= s.len() && read_use_dep(s, i, rev) is Ok {
        let start = if i < s.len() && (s[i] == '-' || s[i] == '!') {
            i + 1
        } else {
            i
        };
        lemma_run_end(s, start, CharClass::Flag);
    }
}

/// Reads the USE clause at position `i`, if one stands there.
#[verifier::opaque]
pub open spec fn read_use_deps(s: Seq<char>, i: int, rev: GrammarRevision) -> Result<
    (Option<Seq<UseDepView>>, int),
    ParseErrorView,
> {
    if 0 <= i < s.len() && s[i] == '[' {
        if !rev.use_deps {
            Err(ParseErrorView::UseDepError(FaultView::Unsupported, i))
        } else if i + 1 < s.len() && s[i + 1] == ']' {
            Err(ParseErrorView::UseDepError(FaultView::StructuralMismatch, i + 1))
        } else {
            match read_use_list(s, i + 1, rev) {
                Ok((deps, end)) => Ok((Some(deps), end)),
                Err(e) => Err(e),
            }
        }
    } else {
        Ok((None, i))
    }
}

/// Reads the repository clause at position `i`, if one stands there.
#[verifier::opaque]
pub open spec fn read_repo(s: Seq<char>, i: int, rev: GrammarRevision) -> Result<
    (Option<Seq<char>>, int),
    ParseErrorView,
> {
    if 0 <= i && i + 1 < s.len() && s[i] == ':' && s[i + 1] == ':' {
        if !rev.repo_ids {
            Err(ParseErrorView::RepoError(FaultView::Unsupported, i))
        } else {
            match read_token(s, i + 2, CharClass::Word, CharClass::Repo) {
                Err(f) => Err(ParseErrorView::RepoError(f, i + 2)),
                Ok(e) => Ok((Some(s.subrange(i + 2, e)), e)),
            }
        }
    } else {
        Ok((None, i))
    }
}

/// The atom that `s` writes under the grammar revision `rev`, or why it
/// writes none. The clauses are read from left to right and the first fault
/// is the one reported.
pub open spec fn spec_parse_atom(s: Seq<char>, rev: GrammarRevision) -> Result<
    AtomView,
    ParseErrorView,
> {
    if s.len() == 0 {
        Err(ParseErrorView::EmptyInput)
    } else {
        match read_head(s) {
            Err(e) => Err(e),
            Ok(head) => match read_slot(s, head.end, rev) {
                Err(e) => Err(e),
                Ok((slot, a)) => match read_use_deps(s, a, rev) {
                    Err(e) => Err(e),
                    Ok((use_deps, b)) => match read_repo(s, b, rev) {
                        Err(e) => Err(e),
                        Ok((repo, c)) => {
                            if c == s.len() {
                                Ok(
                                    AtomView {
                                        category: head.category,
                                        package: head.package,
                                        version: head.version,
                                        slot,
                                        use_deps,
                                        repo,
                                    },
                                )
                            } else {
                                Err(ParseErrorView::UnexpectedTrailingInput(c))
                            }
                        },
                    },
                },
            },
        }
    }
}

} // verus!
