//! Atoms as text, and the proof that the text of a parsed atom is the text it
//! was parsed from.

use vstd::prelude::*;
use crate::atom::{
    read_head, read_key, read_operator, read_repo, read_slot, read_slot_operator, read_token,
    read_use_dep, read_use_deps, read_use_list, read_version, spec_parse_atom, use_dep_views,
    version_boundary, Atom, AtomView, Operator, Slot, SlotOperator, SlotView, UseDep, UseDepKind,
    UseDepView,
};
use crate::atom_accepts::lemma_atom_text_is_parsed;
use crate::error::{ParseErrorView, VersionErrorView};
use crate::grammar::GrammarRevision;
use crate::text::{all_in, append_chars, is_digit, lemma_run_end, string_of, CharClass};
use crate::version::{lemma_parse_version, lemma_version_hyphens, spec_parse_version, VersionView};

verus! {

/// The operator as written before the category. The wildcard is written as
/// `=` here and as `*` after the version.
pub open spec fn operator_text(op: Operator) -> Seq<char> {
    match op {
        Operator::Less => seq!['<'],
        Operator::LessOrEqual => seq!['<', '='],
        Operator::Equal => seq!['='],
        Operator::EqualGlob => seq!['='],
        Operator::Approximate => seq!['~'],
        Operator::GreaterOrEqual => seq!['>', '='],
        Operator::Greater => seq!['>'],
    }
}

/// The slot operator as written, nothing where there is none.
pub open spec fn slot_operator_text(op: Option<SlotOperator>) -> Seq<char> {
    match op {
        Some(SlotOperator::Equal) => seq!['='],
        Some(SlotOperator::Star) => seq!['*'],
        None => Seq::empty(),
    }
}

/// The slot clause as written, nothing where there is none.
pub open spec fn slot_text(slot: Option<SlotView>) -> Seq<char> {
    match slot {
        Some(slot) => seq![':'] + slot.name + match slot.subslot {
            Some(sub) => seq!['/'] + sub,
            None => Seq::empty(),
        } + slot_operator_text(slot.operator),
        None => Seq::empty(),
    }
}

/// What is written before the flag of a USE dependency.
pub open spec fn use_dep_prefix(kind: UseDepKind) -> Seq<char> {
    match kind {
        UseDepKind::Disabled => seq!['-'],
        UseDepKind::ConditionalDisabled => seq!['!'],
        UseDepKind::NotEqual => seq!['!'],
        _ => Seq::empty(),
    }
}

/// What is written after the flag and the default of a USE dependency.
pub open spec fn use_dep_suffix(kind: UseDepKind) -> Seq<char> {
    match kind {
        UseDepKind::ConditionalEnabled => seq!['?'],
        UseDepKind::ConditionalDisabled => seq!['?'],
        UseDepKind::Equal => seq!['='],
        UseDepKind::NotEqual => seq!['='],
        _ => Seq::empty(),
    }
}

/// The default of a USE dependency as written, nothing where there is none.
pub open spec fn default_text(default: Option<bool>) -> Seq<char> {
    match default {
        Some(true) => seq!['(', '+', ')'],
        Some(false) => seq!['(', '-', ')'],
        None => Seq::empty(),
    }
}

/// A USE dependency as written.
pub open spec fn use_dep_text(dep: UseDepView) -> Seq<char> {
    use_dep_prefix(dep.kind) + dep.flag + default_text(dep.default) + use_dep_suffix(dep.kind)
}

/// The USE dependencies with a comma between each two.
pub open spec fn use_list_text(deps: Seq<UseDepView>) -> Seq<char>
    decreases deps.len(),
{
    if deps.len() == 0 {
        Seq::empty()
    } else if deps.len() == 1 {
        use_dep_text(deps[0])
    } else {
        use_dep_text(deps[0]) + seq![','] + use_list_text(deps.drop_first())
    }
}

/// The USE clause as written, nothing where there is none.
pub open spec fn use_deps_text(deps: Option<Seq<UseDepView>>) -> Seq<char> {
    match deps {
        Some(deps) => seq!['['] + use_list_text(deps) + seq![']'],
        None => Seq::empty(),
    }
}

/// The repository clause as written, nothing where there is none.
pub open spec fn repo_text(repo: Option<Seq<char>>) -> Seq<char> {
    match repo {
        Some(repo) => seq![':', ':'] + repo,
        None => Seq::empty(),
    }
}

/// Operator, category, package and version as text.
pub open spec fn head_text(
    category: Seq<char>,
    package: Seq<char>,
    version: Option<(Operator, VersionView)>,
) -> Seq<char> {
    match version {
        Some((op, v)) => operator_text(op) + category + seq!['/'] + package + seq!['-'] + v.text()
            + if op == Operator::EqualGlob {
            seq!['*']
        } else {
            Seq::empty()
        },
        None => category + seq!['/'] + package,
    }
}

impl AtomView {
    /// Category and package: `cat/pkg`.
    pub open spec fn key(self) -> Seq<char> {
        self.category + seq!['/'] + self.package
    }

    /// Category, package and version: `cat/pkg-1.0`; the key where the atom
    /// has no version.
    pub open spec fn cpv(self) -> Seq<char> {
        match self.version {
            Some((_, v)) => self.key() + seq!['-'] + v.text(),
            None => self.key(),
        }
    }

    /// The atom as text.
    pub open spec fn text(self) -> Seq<char> {
        head_text(self.category, self.package, self.version) + slot_text(self.slot) + use_deps_text(
            self.use_deps,
        ) + repo_text(self.repo)
    }
}

/// Whether `s` is a token that begins with a character of `start` and is made
/// of characters of `class`.
pub open spec fn is_token(s: Seq<char>, start: CharClass, class: CharClass) -> bool {
    s.len() > 0 && start.has(s[0]) && all_in(s, class)
}

/// A token that was read is not empty and ends where its class ends.
pub proof fn lemma_read_token(s: Seq<char>, i: int, start: CharClass, class: CharClass)
    requires
        forall|c: char| start.has(c) ==> class.has(c),
    ensures
        read_token(s, i, start, class) matches Ok(e) ==> {
            &&& 0 <= i < e <= s.len()
            &&& is_token(s.subrange(i, e), start, class)
            &&& e < s.len() ==> !class.has(s[e])
        },
{
    if 0 <= i < s.len() && start.has(s[i]) {
        lemma_run_end(s, i, class);
        lemma_run_end(s, i + 1, class);
    }
}

/// The boundary found is a hyphen followed by a digit, and no later position
/// in the range is one.
pub proof fn lemma_version_boundary(s: Seq<char>, from: int, to: int)
    ensures
        match version_boundary(s, from, to) {
            Some(h) => {
                &&& 0 <= from <= h < to < s.len()
                &&& s[h] == '-'
                &&& is_digit(s[h + 1])
                &&& forall|k: int| h < k < to ==> !(s[k] == '-' && is_digit(#[trigger] s[k + 1]))
            },
            None => forall|k: int|
                0 <= from <= k < to < s.len() ==> !(s[k] == '-' && is_digit(#[trigger] s[k + 1])),
        },
    decreases to - from,
{
    if !(to <= from || from < 0 || to >= s.len()) {
        if !(s[to - 1] == '-' && is_digit(s[to])) {
            lemma_version_boundary(s, from, to - 1);
        }
    }
}

/// A hyphen of the segment `s[from..to]` with a version from it to the end of
/// the segment is where the segment is split: there is at most one, it is the
/// last hyphen with a version after it, and what stands before it is the
/// package.
pub proof fn lemma_version_split(s: Seq<char>, from: int, to: int, k: int)
    requires
        0 <= from <= k < to <= s.len(),
        s[k] == '-',
        spec_parse_version(s.subrange(k + 1, to)) is Ok,
    ensures
        version_boundary(s, from, to - 1) == Some(k),
        read_version(s, from, to) matches Ok((h, _)) && h == k,
{
    reveal(read_version);
    let t = s.subrange(k + 1, to);
    lemma_version_hyphens(t);
    assert(t[0] == s[k + 1]);
    lemma_version_boundary(s, from, to - 1);
    match version_boundary(s, from, to - 1) {
        Some(h) => {
            if h > k {
                assert(t[h - k - 1] == s[h]);
                assert(t[h - k] == s[h + 1]);
            } else if h < k {
                assert(is_digit(s[k + 1]));
            }
        },
        None => {
            assert(is_digit(s[k + 1]));
        },
    }
}

/// The key that was read: a category, a slash, and a segment of the
/// characters of names that ends where they end.
pub proof fn lemma_read_key(s: Seq<char>, i: int)
    ensures
        read_key(s, i) matches Ok((slash, end)) ==> {
            &&& 0 <= i < slash
            &&& slash + 1 < end <= s.len()
            &&& s[slash] == '/'
            &&& is_token(s.subrange(i, slash), CharClass::Word, CharClass::Name)
            &&& is_token(s.subrange(slash + 1, end), CharClass::Word, CharClass::Name)
            &&& end < s.len() ==> !CharClass::Name.has(s[end])
        },
{
    reveal(read_key);
    lemma_read_token(s, i, CharClass::Word, CharClass::Name);
    match read_token(s, i, CharClass::Word, CharClass::Name) {
        Ok(slash) => {
            lemma_read_token(s, slash + 1, CharClass::Word, CharClass::Name);
        },
        Err(_) => {},
    }
}

/// The version that was read stands after a hyphen, up to the end of the
/// segment.
pub proof fn lemma_read_version(s: Seq<char>, from: int, to: int)
    ensures
        read_version(s, from, to) matches Ok((h, v)) ==> {
            &&& 0 <= from <= h
            &&& h + 1 < to <= s.len()
            &&& s[h] == '-'
            &&& spec_parse_version(s.subrange(h + 1, to)) == Ok::<VersionView, VersionErrorView>(v)
            &&& v.wf()
            &&& v.text() == s.subrange(h + 1, to)
        },
{
    reveal(read_version);
    lemma_version_boundary(s, from, to - 1);
    match version_boundary(s, from, to - 1) {
        Some(h) => {
            lemma_parse_version(s.subrange(h + 1, to));
        },
        None => {},
    }
}

/// A segment split at `hyphen` into a package and the version `v` is, with
/// what stands before it, the text of the head.
proof fn lemma_versioned_head(
    s: Seq<char>,
    op: Operator,
    start: int,
    slash: int,
    hyphen: int,
    end: int,
    v: VersionView,
)
    requires
        0 <= start < slash,
        slash + 1 < hyphen,
        hyphen + 1 < end <= s.len(),
        operator_text(op) == s.subrange(0, start),
        s[slash] == '/',
        s[hyphen] == '-',
        v.text() == s.subrange(hyphen + 1, end),
        op != Operator::EqualGlob,
    ensures
        head_text(s.subrange(start, slash), s.subrange(slash + 1, hyphen), Some((op, v)))
            == s.subrange(0, end),
        end < s.len() && s[end] == '*' && op == Operator::Equal ==> head_text(
            s.subrange(start, slash),
            s.subrange(slash + 1, hyphen),
            Some((Operator::EqualGlob, v)),
        ) == s.subrange(0, end + 1),
{
    let category = s.subrange(start, slash);
    let package = s.subrange(slash + 1, hyphen);
    let body = s.subrange(0, start) + category + seq!['/'] + package + seq!['-'] + s.subrange(
        hyphen + 1,
        end,
    );
    assert(body =~= s.subrange(0, end));
    assert(body + Seq::<char>::empty() =~= body);
    if end < s.len() && s[end] == '*' && op == Operator::Equal {
        assert(operator_text(Operator::EqualGlob) == operator_text(op));
        assert(body + seq!['*'] =~= s.subrange(0, end + 1));
    }
}

/// The package of a versioned segment is a name as the segment is.
pub proof fn lemma_package_is_token(s: Seq<char>, from: int, hyphen: int, to: int)
    requires
        0 <= from <= hyphen < to <= s.len(),
        s[hyphen] == '-',
        is_token(s.subrange(from, to), CharClass::Word, CharClass::Name),
    ensures
        from < hyphen,
        is_token(s.subrange(from, hyphen), CharClass::Word, CharClass::Name),
{
    let whole = s.subrange(from, to);
    let package = s.subrange(from, hyphen);
    assert(whole[0] == s[from]);
    assert(package[0] == whole[0]);
    assert forall|k: int| 0 <= k < package.len() implies CharClass::Name.has(
        #[trigger] package[k],
    ) by {
        assert(package[k] == whole[k]);
    }
}

/// The head that was read is, as text, the text it was read from.
#[verifier::rlimit(50)]
pub proof fn lemma_read_head(s: Seq<char>)
    ensures
        read_head(s) matches Ok(h) ==> {
            &&& 0 < h.end <= s.len()
            &&& head_text(h.category, h.package, h.version) == s.subrange(0, h.end)
            &&& is_token(h.category, CharClass::Word, CharClass::Name)
            &&& is_token(h.package, CharClass::Word, CharClass::Name)
            &&& h.version matches Some((op, v)) ==> v.wf() && (op == Operator::EqualGlob
                ==> v.revision is None)
        },
{
    reveal(read_head);
    if read_head(s) is Ok {
        let (op, start) = read_operator(s);
        lemma_read_key(s, start);
        let (slash, end) = read_key(s, start)->Ok_0;
        match op {
            None => {
                assert(s.subrange(start, slash) + seq!['/'] + s.subrange(slash + 1, end)
                    =~= s.subrange(0, end));
            },
            Some(op) => {
                lemma_read_version(s, slash + 1, end);
                let (hyphen, v) = read_version(s, slash + 1, end)->Ok_0;
                lemma_package_is_token(s, slash + 1, hyphen, end);
                assert(operator_text(op) =~= s.subrange(0, start));
                lemma_versioned_head(s, op, start, slash, hyphen, end, v);
            },
        }
    }
}

/// The slot clause that was read is, as text, the text it was read from.
pub proof fn lemma_read_slot(s: Seq<char>, i: int, rev: GrammarRevision)
    requires
        0 <= i <= s.len(),
    ensures
        read_slot(s, i, rev) matches Ok((slot, e)) ==> {
            &&& i <= e <= s.len()
            &&& slot_text(slot) == s.subrange(i, e)
            &&& slot matches Some(sl) ==> {
                &&& rev.slot_deps
                &&& is_token(sl.name, CharClass::Word, CharClass::Name)
                &&& sl.subslot matches Some(sub) ==> rev.slot_ops && is_token(
                    sub,
                    CharClass::Word,
                    CharClass::Name,
                )
                &&& sl.operator is Some ==> rev.slot_ops
            }
        },
{
    reveal(read_slot);
    if i < s.len() && s[i] == ':' && !(i + 1 < s.len() && s[i + 1] == ':') {
        lemma_read_token(s, i + 1, CharClass::Word, CharClass::Name);
        match read_token(s, i + 1, CharClass::Word, CharClass::Name) {
            Ok(e) => {
                let name = s.subrange(i + 1, e);
                if e < s.len() && s[e] == '/' {
                    lemma_read_token(s, e + 1, CharClass::Word, CharClass::Name);
                    match read_token(s, e + 1, CharClass::Word, CharClass::Name) {
                        Ok(e2) => {
                            let sub = s.subrange(e + 1, e2);
                            match read_slot_operator(s, e2, rev, name, Some(sub)) {
                                Ok((slot, end)) => {
                                    assert(seq![':'] + name + (seq!['/'] + sub) =~= s.subrange(i, e2));
                                    assert(slot_operator_text(slot->0.operator) =~= s.subrange(
                                        e2,
                                        end,
                                    ));
                                    assert(s.subrange(i, e2) + s.subrange(e2, end) =~= s.subrange(
                                        i,
                                        end,
                                    ));
                                },
                                Err(_) => {},
                            }
                        },
                        Err(_) => {},
                    }
                } else {
                    match read_slot_operator(s, e, rev, name, None) {
                        Ok((slot, end)) => {
                            assert(seq![':'] + name + Seq::<char>::empty() =~= s.subrange(i, e));
                            assert(slot_operator_text(slot->0.operator) =~= s.subrange(e, end));
                            assert(s.subrange(i, e) + s.subrange(e, end) =~= s.subrange(i, end));
                        },
                        Err(_) => {},
                    }
                }
            },
            Err(_) => {},
        }
    } else {
        assert(s.subrange(i, i) =~= Seq::<char>::empty());
    }
}

/// The USE dependency that was read is, as text, the text it was read from.
pub proof fn lemma_read_use_dep(s: Seq<char>, i: int, rev: GrammarRevision)
    requires
        0 <= i <= s.len(),
    ensures
        read_use_dep(s, i, rev) matches Ok((dep, e)) ==> {
            &&& i < e <= s.len()
            &&& use_dep_text(dep) == s.subrange(i, e)
            &&& is_token(dep.flag, CharClass::Alnum, CharClass::Flag)
            &&& dep.default is Some ==> rev.use_dep_defaults
        },
{
    reveal(read_use_dep);
    let prefix = if i < s.len() && (s[i] == '-' || s[i] == '!') {
        Some(s[i])
    } else {
        None
    };
    let start = if prefix is Some {
        i + 1
    } else {
        i
    };
    lemma_read_token(s, start, CharClass::Alnum, CharClass::Flag);
    match read_use_dep(s, i, rev) {
        Ok((dep, end)) => {
            let e = read_token(s, start, CharClass::Alnum, CharClass::Flag)->Ok_0;
            let d = if dep.default is Some {
                e + 3
            } else {
                e
            };
            assert(use_dep_prefix(dep.kind) =~= s.subrange(i, start));
            assert(default_text(dep.default) =~= s.subrange(e, d));
            assert(use_dep_suffix(dep.kind) =~= s.subrange(d, end));
            assert(s.subrange(i, start) + s.subrange(start, e) + s.subrange(e, d) + s.subrange(d, end)
                =~= s.subrange(i, end));
        },
        Err(_) => {},
    }
}

/// Whether the flags of the USE dependencies are flags, and their defaults
/// admitted by the grammar revision.
pub open spec fn use_deps_wf(deps: Seq<UseDepView>, rev: GrammarRevision) -> bool {
    forall|k: int|
        0 <= k < deps.len() ==> is_token(
            (#[trigger] deps[k]).flag,
            CharClass::Alnum,
            CharClass::Flag,
        ) && (deps[k].default is Some ==> rev.use_dep_defaults)
}

/// A list of USE dependencies with one more before it.
proof fn lemma_use_list_step(dep: UseDepView, rest: Seq<UseDepView>, rev: GrammarRevision)
    requires
        rest.len() > 0,
        use_deps_wf(rest, rev),
        is_token(dep.flag, CharClass::Alnum, CharClass::Flag),
        dep.default is Some ==> rev.use_dep_defaults,
    ensures
        use_deps_wf(seq![dep] + rest, rev),
        use_list_text(seq![dep] + rest) == use_dep_text(dep) + seq![','] + use_list_text(rest),
{
    let deps = seq![dep] + rest;
    assert(deps[0] == dep);
    assert(deps.drop_first() =~= rest);
    assert forall|k: int| 0 <= k < deps.len() implies is_token(
        (#[trigger] deps[k]).flag,
        CharClass::Alnum,
        CharClass::Flag,
    ) && (deps[k].default is Some ==> rev.use_dep_defaults) by {
        if k > 0 {
            assert(deps[k] == rest[k - 1]);
        }
    }
}

/// The USE dependencies that were read are, as text with the bracket that
/// closes them, the text they were read from.
pub proof fn lemma_read_use_list(s: Seq<char>, i: int, rev: GrammarRevision)
    requires
        0 <= i <= s.len(),
    ensures
        read_use_list(s, i, rev) matches Ok((deps, e)) ==> {
            &&& i < e <= s.len()
            &&& deps.len() > 0
            &&& use_list_text(deps) + seq![']'] == s.subrange(i, e)
            &&& use_deps_wf(deps, rev)
        },
    decreases s.len() - i,
{
    lemma_read_use_dep(s, i, rev);
    if read_use_list(s, i, rev) is Ok {
        let (dep, e) = read_use_dep(s, i, rev)->Ok_0;
        if s[e] == ']' {
            let deps = seq![dep];
            assert(deps[0] == dep);
            assert(s.subrange(i, e) + seq![']'] =~= s.subrange(i, e + 1));
        } else {
            lemma_read_use_list(s, e + 1, rev);
            let (rest, end) = read_use_list(s, e + 1, rev)->Ok_0;
            lemma_use_list_step(dep, rest, rev);
            assert(s.subrange(i, e) + seq![','] + (use_list_text(rest) + seq![']']) =~= s.subrange(
                i,
                end,
            ));
            assert(use_dep_text(dep) + seq![','] + use_list_text(rest) + seq![']'] =~= s.subrange(
                i,
                e,
            ) + seq![','] + (use_list_text(rest) + seq![']']));
        }
    }
}

/// The USE clause that was read is, as text, the text it was read from.
pub proof fn lemma_read_use_deps(s: Seq<char>, i: int, rev: GrammarRevision)
    requires
        0 <= i <= s.len(),
    ensures
        read_use_deps(s, i, rev) matches Ok((deps, e)) ==> {
            &&& i <= e <= s.len()
            &&& use_deps_text(deps) == s.subrange(i, e)
            &&& deps matches Some(d) ==> rev.use_deps && d.len() > 0 && use_deps_wf(d, rev)
        },
{
    reveal(read_use_deps);
    if i < s.len() && s[i] == '[' {
        lemma_read_use_list(s, i + 1, rev);
        match read_use_deps(s, i, rev) {
            Ok((deps, e)) => {
                assert(seq!['['] + (use_list_text(deps->0) + seq![']']) =~= s.subrange(i, e));
                assert(seq!['['] + use_list_text(deps->0) + seq![']'] =~= seq!['['] + (use_list_text(
                    deps->0,
                ) + seq![']']));
            },
            Err(_) => {},
        }
    } else {
        assert(s.subrange(i, i) =~= Seq::<char>::empty());
    }
}

/// The repository clause that was read is, as text, the text it was read from.
pub proof fn lemma_read_repo(s: Seq<char>, i: int, rev: GrammarRevision)
    requires
        0 <= i <= s.len(),
    ensures
        read_repo(s, i, rev) matches Ok((repo, e)) ==> {
            &&& i <= e <= s.len()
            &&& repo_text(repo) == s.subrange(i, e)
            &&& repo matches Some(r) ==> rev.repo_ids && is_token(
                r,
                CharClass::Word,
                CharClass::Repo,
            )
        },
{
    reveal(read_repo);
    if i + 1 < s.len() && s[i] == ':' && s[i + 1] == ':' {
        lemma_read_token(s, i + 2, CharClass::Word, CharClass::Repo);
        match read_repo(s, i, rev) {
            Ok((repo, e)) => {
                assert(seq![':', ':'] + repo->0 =~= s.subrange(i, e));
            },
            Err(_) => {},
        }
    } else {
        assert(s.subrange(i, i) =~= Seq::<char>::empty());
    }
}

impl AtomView {
    /// What holds of every atom parsed under the grammar revision `rev`.
    pub open spec fn wf(self, rev: GrammarRevision) -> bool {
        &&& is_token(self.category, CharClass::Word, CharClass::Name)
        &&& is_token(self.package, CharClass::Word, CharClass::Name)
        &&& self.version matches Some((op, v)) ==> v.wf() && (op == Operator::EqualGlob
            ==> v.revision is None)
        &&& self.slot matches Some(slot) ==> {
            &&& rev.slot_deps
            &&& is_token(slot.name, CharClass::Word, CharClass::Name)
            &&& slot.subslot matches Some(sub) ==> rev.slot_ops && is_token(
                sub,
                CharClass::Word,
                CharClass::Name,
            )
            &&& slot.operator is Some ==> rev.slot_ops
        }
        &&& self.use_deps matches Some(deps) ==> rev.use_deps && deps.len() > 0 && use_deps_wf(
            deps,
            rev,
        )
        &&& self.repo matches Some(r) ==> rev.repo_ids && is_token(
            r,
            CharClass::Word,
            CharClass::Repo,
        )
    }
}

/// An atom that is well formed under a grammar revision is well formed under
/// the latest, which admits every clause.
pub proof fn lemma_wf_under_latest(a: AtomView, rev: GrammarRevision)
    requires
        a.wf(rev),
    ensures
        a.wf(GrammarRevision::spec_latest()),
{
}

/// An atom that was parsed is well formed, and its text is the text it was
/// parsed from.
pub proof fn lemma_parse_atom(s: Seq<char>, rev: GrammarRevision)
    ensures
        spec_parse_atom(s, rev) matches Ok(a) ==> a.wf(rev) && a.text() == s,
{
    if spec_parse_atom(s, rev) is Ok {
        let atom = spec_parse_atom(s, rev)->Ok_0;
        let head = read_head(s)->Ok_0;
        let (slot, a) = read_slot(s, head.end, rev)->Ok_0;
        let (use_deps, b) = read_use_deps(s, a, rev)->Ok_0;
        let (repo, c) = read_repo(s, b, rev)->Ok_0;
        lemma_read_head(s);
        lemma_read_slot(s, head.end, rev);
        lemma_read_use_deps(s, a, rev);
        lemma_read_repo(s, b, rev);
        assert(c == s.len());
        assert(atom.category == head.category);
        assert(atom.package == head.package);
        assert(atom.version == head.version);
        assert(atom.slot == slot);
        assert(atom.use_deps == use_deps);
        assert(atom.repo == repo);
        assert(atom.text() == s) by {
            assert(s.subrange(0, head.end) + s.subrange(head.end, a) + s.subrange(a, b) + s.subrange(
                b,
                c,
            ) =~= s);
        }
        assert(atom.wf(rev));
    }
}

/// Parsing the text of a parsed atom gives the atom again.
pub proof fn lemma_parse_text(s: Seq<char>, rev: GrammarRevision)
    ensures
        spec_parse_atom(s, rev) matches Ok(a) ==> spec_parse_atom(a.text(), rev) == spec_parse_atom(
            s,
            rev,
        ),
{
    lemma_parse_atom(s, rev);
}

// ---------------------------------------------------------------------------
// Writing atoms
// ---------------------------------------------------------------------------

/// The string with the characters `chars`.
fn text_of(chars: &Vec<char>) -> (out: String)
    ensures
        out@ == chars@,
{
    let out = string_of(chars.as_slice(), 0, chars.len());
    assert(chars@.subrange(0, chars@.len() as int) == chars@);
    out
}

fn push_operator(out: &mut Vec<char>, op: Operator)
    ensures
        final(out)@ == old(out)@ + operator_text(op),
{
    match op {
        Operator::Less => {
            out.push('<');
        },
        Operator::LessOrEqual => {
            out.push('<');
            out.push('=');
        },
        Operator::Equal => {
            out.push('=');
        },
        Operator::EqualGlob => {
            out.push('=');
        },
        Operator::Approximate => {
            out.push('~');
        },
        Operator::GreaterOrEqual => {
            out.push('>');
            out.push('=');
        },
        Operator::Greater => {
            out.push('>');
        },
    }
    assert(out@ =~= old(out)@ + operator_text(op));
}

fn push_slot(out: &mut Vec<char>, slot: &Slot)
    ensures
        final(out)@ == old(out)@ + slot_text(Some(slot@)),
{
    out.push(':');
    append_chars(out, slot.name.as_slice());
    match &slot.subslot {
        Some(sub) => {
            out.push('/');
            append_chars(out, sub.as_slice());
        },
        None => {},
    }
    match slot.operator {
        Some(SlotOperator::Equal) => {
            out.push('=');
        },
        Some(SlotOperator::Star) => {
            out.push('*');
        },
        None => {},
    }
    assert(out@ =~= old(out)@ + slot_text(Some(slot@)));
}

fn push_use_dep_prefix(out: &mut Vec<char>, kind: UseDepKind)
    ensures
        final(out)@ == old(out)@ + use_dep_prefix(kind),
{
    match kind {
        UseDepKind::Disabled => {
            out.push('-');
        },
        UseDepKind::ConditionalDisabled => {
            out.push('!');
        },
        UseDepKind::NotEqual => {
            out.push('!');
        },
        _ => {},
    }
    assert(out@ =~= old(out)@ + use_dep_prefix(kind));
}

fn push_use_dep_suffix(out: &mut Vec<char>, kind: UseDepKind)
    ensures
        final(out)@ == old(out)@ + use_dep_suffix(kind),
{
    match kind {
        UseDepKind::ConditionalEnabled => {
            out.push('?');
        },
        UseDepKind::ConditionalDisabled => {
            out.push('?');
        },
        UseDepKind::Equal => {
            out.push('=');
        },
        UseDepKind::NotEqual => {
            out.push('=');
        },
        _ => {},
    }
    assert(out@ =~= old(out)@ + use_dep_suffix(kind));
}

fn push_default(out: &mut Vec<char>, default: Option<bool>)
    ensures
        final(out)@ == old(out)@ + default_text(default),
{
    match default {
        Some(true) => {
            out.push('(');
            out.push('+');
            out.push(')');
        },
        Some(false) => {
            out.push('(');
            out.push('-');
            out.push(')');
        },
        None => {},
    }
    assert(out@ =~= old(out)@ + default_text(default));
}

fn push_use_dep(out: &mut Vec<char>, dep: &UseDep)
    ensures
        final(out)@ == old(out)@ + use_dep_text(dep@),
{
    push_use_dep_prefix(out, dep.kind);
    append_chars(out, dep.flag.as_slice());
    push_default(out, dep.default);
    push_use_dep_suffix(out, dep.kind);
    assert(out@ =~= old(out)@ + (use_dep_prefix(dep.kind) + dep.flag@ + default_text(dep.default)
        + use_dep_suffix(dep.kind)));
}

fn push_use_deps(out: &mut Vec<char>, deps: &Vec<UseDep>)
    ensures
        final(out)@ == old(out)@ + use_deps_text(Some(use_dep_views(deps@))),
{
    let ghost d = use_dep_views(deps@);
    out.push('[');
    let ghost head = out@;
    let mut i: usize = 0;
    assert(d.skip(0) =~= d);
    while i < deps.len()
        invariant
            i <= deps@.len(),
            d == use_dep_views(deps@),
            out@ + use_list_text(d.skip(i as int)) == head + use_list_text(d),
        decreases deps@.len() - i,
    {
        let ghost before = out@;
        let ghost rest = d.skip(i as int);
        push_use_dep(out, &deps[i]);
        assert(rest[0] == deps@[i as int]@);
        assert(rest.drop_first() =~= d.skip(i as int + 1));
        if i + 1 < deps.len() {
            out.push(',');
            assert(out@ + use_list_text(d.skip(i as int + 1)) =~= before + (use_dep_text(rest[0])
                + seq![','] + use_list_text(rest.drop_first())));
        } else {
            assert(out@ + use_list_text(d.skip(i as int + 1)) =~= before + use_dep_text(rest[0]));
        }
        i += 1;
    }
    out.push(']');
    assert(out@ =~= old(out)@ + (seq!['['] + use_list_text(d) + seq![']']));
}

impl UseDep {
    /// The USE dependency as text.
    pub fn to_string(&self) -> (out: String)
        ensures
            out@ == use_dep_text(self@),
    {
        let mut chars: Vec<char> = Vec::new();
        push_use_dep(&mut chars, self);
        assert(Seq::<char>::empty() + use_dep_text(self@) =~= use_dep_text(self@));
        text_of(&chars)
    }
}

impl SlotOperator {
    /// The slot operator as text.
    pub fn as_str(&self) -> (out: &'static str)
        ensures
            out@ == slot_operator_text(Some(*self)),
    {
        proof {
            reveal_strlit("=");
            reveal_strlit("*");
        }
        let out = match self {
            SlotOperator::Equal => "=",
            SlotOperator::Star => "*",
        };
        assert(out@ =~= slot_operator_text(Some(*self)));
        out
    }
}

impl Atom {
    /// The characters of the category and the package: `cat/pkg`.
    fn key_chars(&self) -> (out: Vec<char>)
        ensures
            out@ == self@.key(),
    {
        let mut out: Vec<char> = Vec::new();
        append_chars(&mut out, self.category_chars().as_slice());
        out.push('/');
        append_chars(&mut out, self.package_chars().as_slice());
        assert(out@ =~= self@.key());
        out
    }

    /// The characters of category, package and version: `cat/pkg-1.0`.
    fn cpv_chars(&self) -> (out: Vec<char>)
        ensures
            out@ == self@.cpv(),
    {
        let mut out = self.key_chars();
        match self.version_spec() {
            Some((_, v)) => {
                out.push('-');
                let text = v.to_chars();
                append_chars(&mut out, text.as_slice());
                assert(out@ =~= self@.cpv());
            },
            None => {},
        }
        out
    }

    /// The characters of operator, category, package and version.
    fn head_chars(&self) -> (out: Vec<char>)
        ensures
            out@ == head_text(self@.category, self@.package, self@.version),
    {
        let mut out: Vec<char> = Vec::new();
        match self.version_spec() {
            Some((op, v)) => {
                push_operator(&mut out, op);
                let cpv = self.cpv_chars();
                append_chars(&mut out, cpv.as_slice());
                if op == Operator::EqualGlob {
                    out.push('*');
                    assert(out@ =~= operator_text(op) + self@.cpv() + seq!['*']);
                } else {
                    assert(out@ =~= operator_text(op) + self@.cpv() + Seq::<char>::empty());
                }
                assert(operator_text(op) + self@.cpv() =~= operator_text(op) + self@.category
                    + seq!['/'] + self@.package + seq!['-'] + v@.text());
            },
            None => {
                let cpv = self.cpv_chars();
                append_chars(&mut out, cpv.as_slice());
                assert(out@ =~= self@.cpv());
            },
        }
        out
    }

    /// The characters of the atom as text.
    pub fn to_chars(&self) -> (out: Vec<char>)
        ensures
            out@ == self@.text(),
            self@.wf(GrammarRevision::spec_latest()),
    {
        let mut out = self.head_chars();
        match self.slot_clause() {
            Some(slot) => {
                push_slot(&mut out, slot);
            },
            None => {
                assert(out@ + slot_text(self@.slot) =~= out@);
            },
        }
        match self.use_dep_list() {
            Some(deps) => {
                push_use_deps(&mut out, deps);
            },
            None => {
                assert(out@ + use_deps_text(self@.use_deps) =~= out@);
            },
        }
        match self.repo_chars() {
            Some(repo) => {
                let ghost before = out@;
                out.push(':');
                out.push(':');
                append_chars(&mut out, repo.as_slice());
                assert(out@ =~= before + repo_text(self@.repo));
            },
            None => {
                assert(out@ + repo_text(self@.repo) =~= out@);
            },
        }
        out
    }

    /// The atom as text. Read under the latest grammar revision, the text
    /// gives the atom again.
    pub fn to_string(&self) -> (out: String)
        ensures
            out@ == self@.text(),
            spec_parse_atom(out@, GrammarRevision::spec_latest()) == Ok::<AtomView, ParseErrorView>(
                self@,
            ),
    {
        let chars = self.to_chars();
        proof {
            lemma_atom_text_is_parsed(self@, GrammarRevision::spec_latest());
        }
        text_of(&chars)
    }

    /// Category and package: `cat/pkg`.
    pub fn key(&self) -> (out: String)
        ensures
            out@ == self@.key(),
    {
        let chars = self.key_chars();
        text_of(&chars)
    }

    /// Category, package and version: `cat/pkg-1.0`; the key where the atom
    /// has no version.
    pub fn cpv(&self) -> (out: String)
        ensures
            out@ == self@.cpv(),
    {
        let chars = self.cpv_chars();
        text_of(&chars)
    }

    /// The category.
    pub fn category(&self) -> (out: String)
        ensures
            out@ == self@.category,
    {
        text_of(self.category_chars())
    }

    /// The name of the package.
    pub fn package(&self) -> (out: String)
        ensures
            out@ == self@.package,
    {
        text_of(self.package_chars())
    }

    /// The operator, where the atom has a version.
    pub fn operator(&self) -> (out: Option<Operator>)
        ensures
            out == match self@.version {
                Some((op, _)) => Some(op),
                None => None,
            },
    {
        match self.version_spec() {
            Some((op, _)) => Some(op),
            None => None,
        }
    }

    /// The version without its revision, as text.
    pub fn version(&self) -> (out: Option<String>)
        ensures
            match out {
                Some(t) => self@.version matches Some((_, v)) && t@ == v.base_text(),
                None => self@.version is None,
            },
    {
        match self.version_spec() {
            Some((_, v)) => Some(v.base()),
            None => None,
        }
    }

    /// The digits of the revision, where the atom has a version that writes one.
    pub fn revision(&self) -> (out: Option<String>)
        ensures
            match out {
                Some(t) => self@.version matches Some((_, v)) && v.revision == Some(t@),
                None => self@.version matches Some((_, v)) ==> v.revision is None,
            },
    {
        match self.version_spec() {
            Some((_, v)) => match v.revision_digits() {
                Some(d) => Some(text_of(d)),
                None => None,
            },
            None => None,
        }
    }

    /// The version with its revision, as text.
    pub fn fullver(&self) -> (out: Option<String>)
        ensures
            match out {
                Some(t) => self@.version matches Some((_, v)) && t@ == v.text(),
                None => self@.version is None,
            },
    {
        match self.version_spec() {
            Some((_, v)) => Some(v.to_string()),
            None => None,
        }
    }

    /// The name of the slot.
    pub fn slot(&self) -> (out: Option<String>)
        ensures
            match out {
                Some(t) => self@.slot matches Some(s) && t@ == s.name,
                None => self@.slot is None,
            },
    {
        match self.slot_clause() {
            Some(s) => Some(text_of(&s.name)),
            None => None,
        }
    }

    /// The name of the sub-slot.
    pub fn subslot(&self) -> (out: Option<String>)
        ensures
            match out {
                Some(t) => self@.slot matches Some(s) && s.subslot == Some(t@),
                None => self@.slot matches Some(s) ==> s.subslot is None,
            },
    {
        match self.slot_clause() {
            Some(s) => match &s.subslot {
                Some(sub) => Some(text_of(sub)),
                None => None,
            },
            None => None,
        }
    }

    /// The slot operator, as text.
    pub fn slot_op(&self) -> (out: Option<&'static str>)
        ensures
            match out {
                Some(t) => self@.slot matches Some(s) && s.operator is Some && t@
                    == slot_operator_text(s.operator),
                None => self@.slot matches Some(s) ==> s.operator is None,
            },
    {
        match self.slot_clause() {
            Some(s) => match &s.operator {
                Some(op) => Some(op.as_str()),
                None => None,
            },
            None => None,
        }
    }

    /// The USE dependencies, each as text, in the order written.
    pub fn use_deps(&self) -> (out: Option<Vec<String>>)
        ensures
            match out {
                Some(t) => self@.use_deps matches Some(d) && t@.len() == d.len() && forall|i: int|
                    0 <= i < d.len() ==> (#[trigger] t@[i])@ == use_dep_text(d[i]),
                None => self@.use_deps is None,
            },
    {
        match self.use_dep_list() {
            Some(deps) => {
                let mut out: Vec<String> = Vec::new();
                let mut i: usize = 0;
                while i < deps.len()
                    invariant
                        i <= deps@.len(),
                        out@.len() == i,
                        forall|k: int|
                            0 <= k < i ==> (#[trigger] out@[k])@ == use_dep_text(
                                use_dep_views(deps@)[k],
                            ),
                    decreases deps@.len() - i,
                {
                    out.push(deps[i].to_string());
                    i += 1;
                }
                Some(out)
            },
            None => None,
        }
    }

    /// The name of the repository.
    pub fn repo(&self) -> (out: Option<String>)
        ensures
            match out {
                Some(t) => self@.repo == Some(t@),
                None => self@.repo is None,
            },
    {
        match self.repo_chars() {
            Some(r) => Some(text_of(r)),
            None => None,
        }
    }
}

} // verus!
