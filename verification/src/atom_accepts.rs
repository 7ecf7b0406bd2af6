//! The grammar of atoms accepts exactly the texts of well-formed atoms.
//!
//! `atom_text::lemma_parse_atom` shows that what is parsed is well formed and
//! has the parsed text as its text. Here is the converse: the text of an atom
//! that is well formed under a grammar revision is parsed under it, and gives
//! that atom.

use vstd::prelude::*;
use crate::atom::{
    is_default_at, read_head, read_key, read_operator, read_repo, read_slot, read_slot_operator,
    read_token, read_use_dep, read_use_deps, read_use_list, read_version, slot_operator_of,
    spec_parse_atom, use_dep_kind, AtomView, HeadView, Operator, SlotOperator, SlotView,
    UseDepKind, UseDepView,
};
use crate::atom_text::{
    default_text, head_text, is_token, lemma_read_version, lemma_version_split, operator_text,
    repo_text, slot_operator_text, slot_text, use_dep_prefix, use_dep_suffix, use_dep_text,
    use_deps_text, use_deps_wf, use_list_text,
};
use crate::error::{FaultView, ParseErrorView};
use crate::grammar::GrammarRevision;
use crate::text::{all_in, lemma_run_end_is, CharClass};
use crate::version::VersionView;
use crate::version_accepts::{lemma_version_is_name, lemma_version_text_is_parsed};

verus! {

/// A token written at position `i`, with no character of its class after it,
/// is read as it was written.
proof fn lemma_token_read_back(
    s: Seq<char>,
    i: int,
    t: Seq<char>,
    start: CharClass,
    class: CharClass,
)
    requires
        0 <= i,
        i + t.len() <= s.len(),
        is_token(t, start, class),
        s.subrange(i, i + t.len()) == t,
        i + t.len() < s.len() ==> !class.has(s[i + t.len()]),
    ensures
        read_token(s, i, start, class) == Ok::<int, FaultView>(i + t.len()),
{
    assert(s.subrange(i, i + t.len())[0] == s[i]);
    lemma_run_end_is(s, i, class, i + t.len());
}

/// The operator written before a category is read as it was written; the
/// wildcard is read as `=`.
proof fn lemma_operator_read_back(s: Seq<char>, op: Operator)
    requires
        operator_text(op).len() < s.len(),
        s.subrange(0, operator_text(op).len() as int) == operator_text(op),
        CharClass::Word.has(s[operator_text(op).len() as int]),
    ensures
        read_operator(s) == (
            Some(
                if op == Operator::EqualGlob {
                    Operator::Equal
                } else {
                    op
                },
            ),
            operator_text(op).len() as int,
        ),
{
    let t = operator_text(op);
    assert(s.subrange(0, t.len() as int)[0] == s[0]);
    if t.len() == 2 {
        assert(s.subrange(0, t.len() as int)[1] == s[1]);
    }
}

/// A text that begins with a category has no operator.
proof fn lemma_no_operator(s: Seq<char>)
    requires
        s.len() > 0,
        CharClass::Word.has(s[0]),
    ensures
        read_operator(s) == (None::<Operator>, 0int),
{
}

/// A category, a slash and a segment written at position `i` are read as they
/// were written.
proof fn lemma_key_read_back(s: Seq<char>, i: int, category: Seq<char>, segment: Seq<char>)
    requires
        0 <= i,
        i + category.len() + 1 + segment.len() <= s.len(),
        is_token(category, CharClass::Word, CharClass::Name),
        is_token(segment, CharClass::Word, CharClass::Name),
        s.subrange(i, i + category.len()) == category,
        s[i + category.len()] == '/',
        s.subrange(i + category.len() + 1, i + category.len() + 1 + segment.len()) == segment,
        i + category.len() + 1 + segment.len() < s.len() ==> !CharClass::Name.has(
            s[i + category.len() + 1 + segment.len()],
        ),
    ensures
        read_key(s, i) == Ok::<(int, int), ParseErrorView>(
            (i + category.len(), i + category.len() + 1 + segment.len()),
        ),
{
    reveal(read_key);
    lemma_token_read_back(s, i, category, CharClass::Word, CharClass::Name);
    lemma_token_read_back(s, i + category.len() + 1, segment, CharClass::Word, CharClass::Name);
}

/// A package, a hyphen and the text of a version are a segment.
proof fn lemma_segment_is_token(package: Seq<char>, v: VersionView)
    requires
        is_token(package, CharClass::Word, CharClass::Name),
        v.wf(),
    ensures
        is_token(package + seq!['-'] + v.text(), CharClass::Word, CharClass::Name),
{
    lemma_version_is_name(v);
    let segment = package + seq!['-'] + v.text();
    assert(segment[0] == package[0]);
    assert forall|k: int| 0 <= k < segment.len() implies CharClass::Name.has(
        #[trigger] segment[k],
    ) by {
        if k < package.len() {
            assert(segment[k] == package[k]);
        } else if k > package.len() {
            assert(segment[k] == v.text()[k - package.len() - 1]);
        }
    }
}

/// A head without a version, with no character of names after it, is read as
/// it was written.
proof fn lemma_plain_head_read_back(s: Seq<char>, category: Seq<char>, package: Seq<char>, e: int)
    requires
        is_token(category, CharClass::Word, CharClass::Name),
        is_token(package, CharClass::Word, CharClass::Name),
        0 <= e <= s.len(),
        s.subrange(0, e) == head_text(category, package, None),
        e < s.len() ==> !CharClass::Name.has(s[e]),
    ensures
        read_head(s) == Ok::<HeadView, ParseErrorView>(
            HeadView { category, package, version: None, end: e },
        ),
{
    reveal(read_head);
    let text = category + seq!['/'] + package;
    let slash = category.len() as int;
    assert(e == text.len());
    assert(s[0] == category[0]) by {
        assert(s.subrange(0, e)[0] == text[0]);
    }
    lemma_no_operator(s);
    assert(s.subrange(0, slash) =~= category) by {
        assert forall|k: int| 0 <= k < slash implies s.subrange(0, slash)[k] == category[k] by {
            assert(s.subrange(0, e)[k] == text[k]);
        }
    }
    assert(s[slash] == '/') by {
        assert(s.subrange(0, e)[slash] == text[slash]);
    }
    assert(s.subrange(slash + 1, e) =~= package) by {
        assert forall|k: int| 0 <= k < package.len() implies s.subrange(slash + 1, e)[k]
            == package[k] by {
            assert(s.subrange(0, e)[slash + 1 + k] == text[slash + 1 + k]);
        }
    }
    lemma_key_read_back(s, 0, category, package);
}

/// A category, a slash, a package, a hyphen and the text of a version written
/// at position `start`, with no character of names after them, are read as
/// they were written: the segment is split at that hyphen.
pub proof fn lemma_versioned_key_read_back(
    s: Seq<char>,
    start: int,
    category: Seq<char>,
    package: Seq<char>,
    v: VersionView,
    end: int,
)
    requires
        is_token(category, CharClass::Word, CharClass::Name),
        is_token(package, CharClass::Word, CharClass::Name),
        v.wf(),
        0 <= start <= end <= s.len(),
        s.subrange(start, end) == category + seq!['/'] + package + seq!['-'] + v.text(),
        end < s.len() ==> !CharClass::Name.has(s[end]),
    ensures
        read_key(s, start) == Ok::<(int, int), ParseErrorView>((start + category.len(), end)),
        read_version(s, start + category.len() + 1, end) == Ok::<(int, VersionView), ParseErrorView>(
            (start + category.len() + 1 + package.len(), v),
        ),
        s.subrange(start, start + category.len()) == category,
        s.subrange(start + category.len() + 1, start + category.len() + 1 + package.len())
            == package,
{
    let segment = package + seq!['-'] + v.text();
    let text = category + seq!['/'] + package + seq!['-'] + v.text();
    let slash = start + category.len();
    let hyphen = slash + 1 + package.len();
    assert(s.subrange(start, end).len() == end - start);
    assert(end == slash + 1 + segment.len());
    assert forall|k: int| 0 <= k < text.len() implies s[start + k] == #[trigger] text[k] by {
        assert(s.subrange(start, end)[k] == text[k]);
    }
    assert(s.subrange(start, slash) =~= category) by {
        assert forall|k: int| 0 <= k < category.len() implies s.subrange(start, slash)[k]
            == category[k] by {
            assert(text[k] == category[k]);
        }
    }
    assert(s[slash] == '/') by {
        assert(text[category.len() as int] == '/');
    }
    assert(s.subrange(slash + 1, end) =~= segment) by {
        assert forall|k: int| 0 <= k < segment.len() implies s.subrange(slash + 1, end)[k]
            == segment[k] by {
            assert(text[category.len() + 1 + k] == segment[k]);
        }
    }
    assert(s[hyphen] == '-') by {
        assert(text[hyphen - start] == '-');
    }
    assert(s.subrange(hyphen + 1, end) =~= v.text()) by {
        assert forall|k: int| 0 <= k < v.text().len() implies s.subrange(hyphen + 1, end)[k]
            == v.text()[k] by {
            assert(text[category.len() + 1 + package.len() + 1 + k] == v.text()[k]);
        }
    }
    assert(s.subrange(slash + 1, hyphen) =~= package) by {
        assert forall|k: int| 0 <= k < package.len() implies s.subrange(slash + 1, hyphen)[k]
            == package[k] by {
            assert(text[category.len() + 1 + k] == package[k]);
        }
    }
    lemma_segment_is_token(package, v);
    lemma_key_read_back(s, start, category, segment);
    lemma_version_text_is_parsed(v);
    lemma_version_split(s, slash + 1, end, hyphen);
    lemma_read_version(s, slash + 1, end);
}

/// A head with a version, with neither a character of names nor a star after
/// it, is read as it was written.
proof fn lemma_versioned_head_read_back(
    s: Seq<char>,
    category: Seq<char>,
    package: Seq<char>,
    op: Operator,
    v: VersionView,
    e: int,
)
    requires
        is_token(category, CharClass::Word, CharClass::Name),
        is_token(package, CharClass::Word, CharClass::Name),
        v.wf(),
        op == Operator::EqualGlob ==> v.revision is None,
        0 <= e <= s.len(),
        s.subrange(0, e) == head_text(category, package, Some((op, v))),
        e < s.len() ==> !CharClass::Name.has(s[e]) && s[e] != '*',
    ensures
        read_head(s) == Ok::<HeadView, ParseErrorView>(
            HeadView { category, package, version: Some((op, v)), end: e },
        ),
{
    reveal(read_head);
    let mark = operator_text(op);
    let body = category + seq!['/'] + package + seq!['-'] + v.text();
    let star = if op == Operator::EqualGlob {
        seq!['*']
    } else {
        Seq::<char>::empty()
    };
    let text = mark + body + star;
    assert(head_text(category, package, Some((op, v))) =~= text);
    let start = mark.len() as int;
    let end = start + body.len();
    assert(s.subrange(0, e).len() == e);
    assert(e == end + star.len());
    assert forall|k: int| 0 <= k < e implies s[k] == #[trigger] text[k] by {
        assert(s.subrange(0, e)[k] == text[k]);
    }
    assert(s.subrange(0, start) =~= mark);
    assert(s[start] == category[0]) by {
        assert(text[start] == body[0]);
    }
    assert(s.subrange(start, end) =~= body) by {
        assert forall|k: int| 0 <= k < body.len() implies s.subrange(start, end)[k] == body[k] by {
            assert(text[start + k] == body[k]);
        }
    }
    if op == Operator::EqualGlob {
        assert(s[end] == '*') by {
            assert(text[end] == '*');
        }
    }
    lemma_operator_read_back(s, op);
    lemma_versioned_key_read_back(s, start, category, package, v, end);
}

/// A head, with neither a character of names nor a star after it, is read as
/// it was written.
pub proof fn lemma_head_read_back(
    s: Seq<char>,
    category: Seq<char>,
    package: Seq<char>,
    version: Option<(Operator, VersionView)>,
    e: int,
)
    requires
        is_token(category, CharClass::Word, CharClass::Name),
        is_token(package, CharClass::Word, CharClass::Name),
        version matches Some((op, v)) ==> v.wf() && (op == Operator::EqualGlob
            ==> v.revision is None),
        0 <= e <= s.len(),
        s.subrange(0, e) == head_text(category, package, version),
        e < s.len() ==> !CharClass::Name.has(s[e]) && s[e] != '*',
    ensures
        read_head(s) == Ok::<HeadView, ParseErrorView>(
            HeadView { category, package, version, end: e },
        ),
{
    match version {
        Some((op, v)) => {
            lemma_versioned_head_read_back(s, category, package, op, v, e);
        },
        None => {
            lemma_plain_head_read_back(s, category, package, e);
        },
    }
}

/// Whether what stands at position `e` can follow a slot clause: the text
/// ends there, or USE dependencies or a repository begin.
pub open spec fn slot_ends_at(s: Seq<char>, e: int) -> bool {
    e < s.len() ==> s[e] == '[' || (s[e] == ':' && e + 1 < s.len() && s[e + 1] == ':')
}

/// The operator of a slot clause is read as it was written.
proof fn lemma_slot_operator_read_back(
    s: Seq<char>,
    i: int,
    rev: GrammarRevision,
    name: Seq<char>,
    subslot: Option<Seq<char>>,
    operator: Option<SlotOperator>,
    e: int,
)
    requires
        0 <= i <= e <= s.len(),
        s.subrange(i, e) == slot_operator_text(operator),
        operator is Some ==> rev.slot_ops,
        slot_ends_at(s, e),
    ensures
        read_slot_operator(s, i, rev, name, subslot) == Ok::<
            (Option<SlotView>, int),
            ParseErrorView,
        >((Some(SlotView { name, subslot, operator }), e)),
{
    assert(s.subrange(i, e).len() == e - i);
    if operator is Some {
        assert(s.subrange(i, e)[0] == s[i]);
    }
}

/// A slot clause, or none, with what can follow one after it, is read as it
/// was written.
pub proof fn lemma_slot_read_back(
    s: Seq<char>,
    i: int,
    slot: Option<SlotView>,
    rev: GrammarRevision,
    e: int,
)
    requires
        0 <= i <= e <= s.len(),
        s.subrange(i, e) == slot_text(slot),
        slot matches Some(sl) ==> {
            &&& rev.slot_deps
            &&& is_token(sl.name, CharClass::Word, CharClass::Name)
            &&& sl.subslot matches Some(sub) ==> rev.slot_ops && is_token(
                sub,
                CharClass::Word,
                CharClass::Name,
            )
            &&& sl.operator is Some ==> rev.slot_ops
        },
        slot_ends_at(s, e),
    ensures
        read_slot(s, i, rev) == Ok::<(Option<SlotView>, int), ParseErrorView>((slot, e)),
{
    reveal(read_slot);
    assert(s.subrange(i, e).len() == e - i);
    match slot {
        None => {
            assert(i == e);
        },
        Some(sl) => {
            let sub = match sl.subslot {
                Some(sub) => seq!['/'] + sub,
                None => Seq::<char>::empty(),
            };
            let mark = slot_operator_text(sl.operator);
            let text = seq![':'] + sl.name + sub + mark;
            assert(slot_text(slot) == text);
            assert forall|k: int| 0 <= k < text.len() implies s[i + k] == #[trigger] text[k] by {
                assert(s.subrange(i, e)[k] == text[k]);
            }
            let n = i + 1 + sl.name.len();
            let m = n + sub.len();
            assert(e == m + mark.len());
            assert(s[i] == ':') by {
                assert(text[0] == ':');
            }
            assert(s[i + 1] == sl.name[0]) by {
                assert(text[1] == sl.name[0]);
            }
            assert(s.subrange(i + 1, n) =~= sl.name) by {
                assert forall|k: int| 0 <= k < sl.name.len() implies s.subrange(i + 1, n)[k]
                    == sl.name[k] by {
                    assert(text[1 + k] == sl.name[k]);
                }
            }
            assert(s.subrange(m, e) =~= mark) by {
                assert forall|k: int| 0 <= k < mark.len() implies s.subrange(m, e)[k] == mark[k] by {
                    assert(text[1 + sl.name.len() + sub.len() + k] == mark[k]);
                }
            }
            // what stands after the sub-slot, or after the name where there is none
            assert(m < s.len() ==> !CharClass::Name.has(s[m]) && s[m] != '/') by {
                if m < e {
                    assert(text[m - i] == mark[0]);
                }
            }
            match sl.subslot {
                Some(t) => {
                    assert(s[n] == '/') by {
                        assert(text[n - i] == '/');
                    }
                    assert(s.subrange(n + 1, m) =~= t) by {
                        assert forall|k: int| 0 <= k < t.len() implies s.subrange(n + 1, m)[k]
                            == t[k] by {
                            assert(text[n - i + 1 + k] == t[k]);
                        }
                    }
                    lemma_token_read_back(s, i + 1, sl.name, CharClass::Word, CharClass::Name);
                    lemma_token_read_back(s, n + 1, t, CharClass::Word, CharClass::Name);
                    lemma_slot_operator_read_back(s, m, rev, sl.name, sl.subslot, sl.operator, e);
                },
                None => {
                    assert(n == m);
                    lemma_token_read_back(s, i + 1, sl.name, CharClass::Word, CharClass::Name);
                    lemma_slot_operator_read_back(s, m, rev, sl.name, sl.subslot, sl.operator, e);
                },
            }
        },
    }
}

/// What is written before and after the flag of a USE dependency says which
/// form the dependency has.
proof fn lemma_use_dep_kind(kind: UseDepKind)
    ensures
        use_dep_kind(
            if use_dep_prefix(kind).len() > 0 {
                Some(use_dep_prefix(kind)[0])
            } else {
                None
            },
            if use_dep_suffix(kind).len() > 0 {
                Some(use_dep_suffix(kind)[0])
            } else {
                None
            },
        ) == Some(kind),
        use_dep_prefix(kind).len() <= 1,
        use_dep_suffix(kind).len() <= 1,
        use_dep_prefix(kind).len() == 1 ==> use_dep_prefix(kind)[0] == '-' || use_dep_prefix(
            kind,
        )[0] == '!',
        use_dep_suffix(kind).len() == 1 ==> use_dep_suffix(kind)[0] == '?' || use_dep_suffix(
            kind,
        )[0] == '=',
{
}

/// A USE dependency with a comma or the closing bracket after it is read as
/// it was written.
proof fn lemma_use_dep_read_back(
    s: Seq<char>,
    i: int,
    dep: UseDepView,
    rev: GrammarRevision,
    e: int,
)
    requires
        0 <= i <= e < s.len(),
        s.subrange(i, e) == use_dep_text(dep),
        is_token(dep.flag, CharClass::Alnum, CharClass::Flag),
        dep.default is Some ==> rev.use_dep_defaults,
        s[e] == ',' || s[e] == ']',
    ensures
        read_use_dep(s, i, rev) == Ok::<(UseDepView, int), ParseErrorView>((dep, e)),
{
    reveal(read_use_dep);
    lemma_use_dep_kind(dep.kind);
    let before = use_dep_prefix(dep.kind);
    let default = default_text(dep.default);
    let after = use_dep_suffix(dep.kind);
    let text = before + dep.flag + default + after;
    assert(use_dep_text(dep) == text);
    assert forall|k: int| 0 <= k < text.len() implies s[i + k] == #[trigger] text[k] by {
        assert(s.subrange(i, e)[k] == text[k]);
    }
    let start = i + before.len();
    let f = start + dep.flag.len();
    let d = f + default.len();
    assert(e == d + after.len());
    assert(s[start] == dep.flag[0]) by {
        assert(text[before.len() as int] == dep.flag[0]);
    }
    if before.len() > 0 {
        assert(s[i] == before[0]) by {
            assert(text[0] == before[0]);
        }
    }
    assert(s.subrange(start, f) =~= dep.flag) by {
        assert forall|k: int| 0 <= k < dep.flag.len() implies s.subrange(start, f)[k]
            == dep.flag[k] by {
            assert(text[before.len() + k] == dep.flag[k]);
        }
    }
    if after.len() > 0 {
        assert(s[d] == after[0]) by {
            assert(text[d - i] == after[0]);
        }
    }
    if dep.default is Some {
        assert(default.len() == 3);
        assert(s[f] == default[0] && s[f + 1] == default[1] && s[f + 2] == default[2]) by {
            assert(text[f - i] == default[0]);
            assert(text[f - i + 1] == default[1]);
            assert(text[f - i + 2] == default[2]);
        }
        assert(is_default_at(s, f));
    } else {
        assert(f == d);
        assert(!is_default_at(s, f));
    }
    lemma_token_read_back(s, start, dep.flag, CharClass::Alnum, CharClass::Flag);
}

/// USE dependencies with the closing bracket after them are read as they were
/// written.
proof fn lemma_use_list_read_back(
    s: Seq<char>,
    i: int,
    deps: Seq<UseDepView>,
    rev: GrammarRevision,
    e: int,
)
    requires
        0 <= i <= e <= s.len(),
        deps.len() > 0,
        use_deps_wf(deps, rev),
        s.subrange(i, e) == use_list_text(deps) + seq![']'],
    ensures
        read_use_list(s, i, rev) == Ok::<(Seq<UseDepView>, int), ParseErrorView>((deps, e)),
    decreases deps.len(),
{
    let first = deps[0];
    let head = use_dep_text(first);
    let text = use_list_text(deps) + seq![']'];
    let m = i + head.len();
    assert forall|k: int| 0 <= k < text.len() implies s[i + k] == #[trigger] text[k] by {
        assert(s.subrange(i, e)[k] == text[k]);
    }
    if deps.len() == 1 {
        assert(use_list_text(deps) == head);
        assert(e == m + 1);
        assert(s[m] == ']') by {
            assert(text[head.len() as int] == ']');
        }
        assert(s.subrange(i, m) =~= head);
        lemma_use_dep_read_back(s, i, first, rev, m);
        assert(seq![first] =~= deps);
    } else {
        let rest = deps.drop_first();
        let tail = use_list_text(rest) + seq![']'];
        assert(use_list_text(deps) == head + seq![','] + use_list_text(rest));
        assert(text =~= head + seq![','] + tail);
        assert(s[m] == ',') by {
            assert(text[head.len() as int] == ',');
        }
        assert(s.subrange(i, m) =~= head);
        assert(s.subrange(m + 1, e) =~= tail) by {
            assert forall|k: int| 0 <= k < tail.len() implies s.subrange(m + 1, e)[k] == tail[k] by {
                assert(text[head.len() + 1 + k] == tail[k]);
            }
        }
        assert forall|k: int| 0 <= k < rest.len() implies is_token(
            (#[trigger] rest[k]).flag,
            CharClass::Alnum,
            CharClass::Flag,
        ) && (rest[k].default is Some ==> rev.use_dep_defaults) by {
            assert(rest[k] == deps[k + 1]);
        }
        lemma_use_dep_read_back(s, i, first, rev, m);
        lemma_use_list_read_back(s, m + 1, rest, rev, e);
        assert(seq![first] + rest =~= deps);
    }
}

/// The text of a USE dependency does not begin with a closing bracket.
proof fn lemma_use_dep_begins(dep: UseDepView)
    requires
        is_token(dep.flag, CharClass::Alnum, CharClass::Flag),
    ensures
        use_dep_text(dep).len() > 0,
        use_dep_text(dep)[0] != ']',
{
    lemma_use_dep_kind(dep.kind);
    let before = use_dep_prefix(dep.kind);
    let text = before + dep.flag + default_text(dep.default) + use_dep_suffix(dep.kind);
    if before.len() > 0 {
        assert(text[0] == before[0]);
    } else {
        assert(text[0] == dep.flag[0]);
    }
}

/// A USE clause, or none, with a repository or the end of the text after it,
/// is read as it was written.
pub proof fn lemma_use_deps_read_back(
    s: Seq<char>,
    i: int,
    deps: Option<Seq<UseDepView>>,
    rev: GrammarRevision,
    e: int,
)
    requires
        0 <= i <= e <= s.len(),
        s.subrange(i, e) == use_deps_text(deps),
        deps matches Some(d) ==> rev.use_deps && d.len() > 0 && use_deps_wf(d, rev),
        e < s.len() ==> s[e] == ':',
    ensures
        read_use_deps(s, i, rev) == Ok::<(Option<Seq<UseDepView>>, int), ParseErrorView>(
            (deps, e),
        ),
{
    reveal(read_use_deps);
    assert(s.subrange(i, e).len() == e - i);
    match deps {
        None => {
            assert(i == e);
        },
        Some(d) => {
            let list = use_list_text(d) + seq![']'];
            let text = seq!['['] + use_list_text(d) + seq![']'];
            assert(use_deps_text(deps) == text);
            assert forall|k: int| 0 <= k < text.len() implies s[i + k] == #[trigger] text[k] by {
                assert(s.subrange(i, e)[k] == text[k]);
            }
            assert(s[i] == '[') by {
                assert(text[0] == '[');
            }
            assert(s.subrange(i + 1, e) =~= list) by {
                assert forall|k: int| 0 <= k < list.len() implies s.subrange(i + 1, e)[k]
                    == list[k] by {
                    assert(text[1 + k] == list[k]);
                }
            }
            lemma_use_dep_begins(d[0]);
            assert(s[i + 1] != ']') by {
                if d.len() == 1 {
                    assert(use_list_text(d) == use_dep_text(d[0]));
                } else {
                    assert(use_list_text(d) == use_dep_text(d[0]) + seq![','] + use_list_text(
                        d.drop_first(),
                    ));
                }
                assert(text[1] == use_dep_text(d[0])[0]);
            }
            lemma_use_list_read_back(s, i + 1, d, rev, e);
        },
    }
}

/// A repository clause, or none, at the end of the text is read as it was
/// written.
pub proof fn lemma_repo_read_back(
    s: Seq<char>,
    i: int,
    repo: Option<Seq<char>>,
    rev: GrammarRevision,
)
    requires
        0 <= i <= s.len(),
        s.subrange(i, s.len() as int) == repo_text(repo),
        repo matches Some(r) ==> rev.repo_ids && is_token(r, CharClass::Word, CharClass::Repo),
    ensures
        read_repo(s, i, rev) == Ok::<(Option<Seq<char>>, int), ParseErrorView>(
            (repo, s.len() as int),
        ),
{
    reveal(read_repo);
    assert(s.subrange(i, s.len() as int).len() == s.len() - i);
    match repo {
        None => {
            assert(i == s.len());
        },
        Some(r) => {
            let text = seq![':', ':'] + r;
            assert forall|k: int| 0 <= k < text.len() implies s[i + k] == #[trigger] text[k] by {
                assert(s.subrange(i, s.len() as int)[k] == text[k]);
            }
            assert(s[i] == ':' && s[i + 1] == ':') by {
                assert(text[0] == ':' && text[1] == ':');
            }
            assert(s.subrange(i + 2, i + 2 + r.len()) =~= r) by {
                assert forall|k: int| 0 <= k < r.len() implies s.subrange(i + 2, i + 2 + r.len())[k]
                    == r[k] by {
                    assert(text[2 + k] == r[k]);
                }
            }
            lemma_token_read_back(s, i + 2, r, CharClass::Word, CharClass::Repo);
        },
    }
}

/// The text of a head is not empty.
proof fn lemma_head_text(
    category: Seq<char>,
    package: Seq<char>,
    version: Option<(Operator, VersionView)>,
)
    ensures
        head_text(category, package, version).len() > 0,
{
}

/// The text of an atom that is well formed under a grammar revision is parsed
/// under it, and gives that atom.
pub proof fn lemma_atom_text_is_parsed(a: AtomView, rev: GrammarRevision)
    requires
        a.wf(rev),
    ensures
        spec_parse_atom(a.text(), rev) == Ok::<AtomView, ParseErrorView>(a),
{
    let s = a.text();
    let head = head_text(a.category, a.package, a.version);
    let slot = slot_text(a.slot);
    let deps = use_deps_text(a.use_deps);
    let repo = repo_text(a.repo);
    let h = head.len() as int;
    let x = h + slot.len();
    let y = x + deps.len();
    assert(s == head + slot + deps + repo);
    lemma_head_text(a.category, a.package, a.version);
    assert(s.subrange(0, h) =~= head);
    assert(s.subrange(h, x) =~= slot);
    assert(s.subrange(x, y) =~= deps);
    assert(s.subrange(y, s.len() as int) =~= repo);
    // what stands at `y`: a repository, or nothing
    assert(y < s.len() ==> s[y] == ':' && y + 1 < s.len() && s[y + 1] == ':') by {
        if y < s.len() {
            assert(repo[0] == ':' && repo[1] == ':');
            assert(s.subrange(y, s.len() as int)[0] == s[y]);
            assert(s.subrange(y, s.len() as int)[1] == s[y + 1]);
        }
    }
    // what stands at `x`: USE dependencies, or what stands at `y`
    assert(slot_ends_at(s, x)) by {
        if x < y {
            assert(deps[0] == '[');
            assert(s.subrange(x, y)[0] == s[x]);
        }
    }
    // what stands at `h`: a slot clause, or what stands at `x`
    assert(h < s.len() ==> s[h] == ':' || s[h] == '[') by {
        if h < x {
            assert(slot[0] == ':');
            assert(s.subrange(h, x)[0] == s[h]);
        }
    }
    lemma_head_read_back(s, a.category, a.package, a.version, h);
    lemma_slot_read_back(s, h, a.slot, rev, x);
    lemma_use_deps_read_back(s, x, a.use_deps, rev, y);
    lemma_repo_read_back(s, y, a.repo, rev);
}

/// A text is an atom under a grammar revision exactly when it is the text of
/// an atom that is well formed under it; the atom parsed is that atom.
pub proof fn lemma_grammar_accepts(s: Seq<char>, a: AtomView, rev: GrammarRevision)
    ensures
        spec_parse_atom(s, rev) == Ok::<AtomView, ParseErrorView>(a) <==> a.wf(rev) && a.text()
            == s,
{
    crate::atom_text::lemma_parse_atom(s, rev);
    if a.wf(rev) && a.text() == s {
        lemma_atom_text_is_parsed(a, rev);
    }
}

} // verus!
