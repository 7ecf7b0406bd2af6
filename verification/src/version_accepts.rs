//! The grammar of versions accepts exactly the texts of well-formed versions.
//!
//! `version::lemma_parse_version` shows that what is parsed is well formed and
//! has the parsed text as its text. Here is the converse: the text of a
//! well-formed version is parsed, and gives that version.

use vstd::prelude::*;
use crate::error::VersionErrorView;
use crate::text::{all_in, is_digit, is_lower, lemma_run_end_is, run_end, CharClass};
use crate::version::{
    is_number, is_revision_at, join_components, kind_name, kind_named, letter_text,
    read_components, read_suffixes, revision_text, spec_parse_version, suffix_text,
    suffixes_text, SuffixKind, SuffixView, VersionView,
};

verus! {

/// Components written at position `i`, with neither a digit nor a dot after
/// them, are read as they were written.
proof fn lemma_components_read_back(s: Seq<char>, i: int, c: Seq<Seq<char>>, e: int)
    requires
        0 <= i <= e <= s.len(),
        c.len() > 0,
        forall|k: int| 0 <= k < c.len() ==> is_number(#[trigger] c[k]),
        s.subrange(i, e) == join_components(c),
        e < s.len() ==> !is_digit(s[e]) && s[e] != '.',
    ensures
        read_components(s, i) == Ok::<(Seq<Seq<char>>, int), int>((c, e)),
    decreases c.len(),
{
    let first = c[0];
    let m = i + first.len();
    assert(is_number(first));
    if c.len() == 1 {
        assert(join_components(c) == first);
        assert(m == e);
        lemma_run_end_is(s, i, CharClass::Digit, e);
        assert(seq![s.subrange(i, e)] =~= c);
    } else {
        let rest = c.drop_first();
        let tail = join_components(rest);
        assert(join_components(c) == first + seq!['.'] + tail);
        assert(e - i == first.len() + 1 + tail.len());
        assert(s.subrange(i, m) =~= first) by {
            assert forall|k: int| 0 <= k < first.len() implies s.subrange(i, m)[k] == first[k] by {
                assert(s.subrange(i, e)[k] == join_components(c)[k]);
            }
        }
        assert(s[m] == '.') by {
            assert(s.subrange(i, e)[first.len() as int] == join_components(c)[first.len() as int]);
        }
        assert(s.subrange(m + 1, e) =~= tail) by {
            assert forall|k: int| 0 <= k < tail.len() implies s.subrange(m + 1, e)[k] == tail[k] by {
                assert(s.subrange(i, e)[first.len() + 1 + k] == join_components(c)[first.len() + 1
                    + k]);
            }
        }
        lemma_run_end_is(s, i, CharClass::Digit, m);
        assert forall|k: int| 0 <= k < rest.len() implies is_number(#[trigger] rest[k]) by {
            assert(rest[k] == c[k + 1]);
        }
        lemma_components_read_back(s, m + 1, rest, e);
        assert(seq![s.subrange(i, m)] + rest =~= c);
    }
}

/// The name of a suffix kind is made of lower-case letters and names that
/// kind.
proof fn lemma_kind_name(kind: SuffixKind)
    ensures
        kind_name(kind).len() > 0,
        all_in(kind_name(kind), CharClass::Lower),
        kind_named(kind_name(kind)) == Some(kind),
{
    let a = kind_name(SuffixKind::Alpha);
    let b = kind_name(SuffixKind::Beta);
    let p = kind_name(SuffixKind::Pre);
    let r = kind_name(SuffixKind::Rc);
    let q = kind_name(SuffixKind::P);
    assert(a.len() == 5 && b.len() == 4 && p.len() == 3 && r.len() == 2 && q.len() == 1);
    assert(a[0] == 'a' && a[1] == 'l' && a[2] == 'p' && a[3] == 'h' && a[4] == 'a');
    assert(b[0] == 'b' && b[1] == 'e' && b[2] == 't' && b[3] == 'a');
    assert(p[0] == 'p' && p[1] == 'r' && p[2] == 'e');
    assert(r[0] == 'r' && r[1] == 'c');
    assert(q[0] == 'p');
}

/// Suffixes written at position `i`, with the hyphen of the revision or the
/// end of the text after them, are read as they were written.
proof fn lemma_suffixes_read_back(s: Seq<char>, i: int, f: Seq<SuffixView>, e: int)
    requires
        0 <= i <= e <= s.len(),
        forall|k: int|
            0 <= k < f.len() ==> ((#[trigger] f[k]).number matches Some(n) ==> is_number(n)),
        s.subrange(i, e) == suffixes_text(f),
        e < s.len() ==> s[e] == '-',
    ensures
        read_suffixes(s, i) == Ok::<(Seq<SuffixView>, int), int>((f, e)),
    decreases f.len(),
{
    if f.len() == 0 {
        assert(suffixes_text(f).len() == 0);
        assert(i == e);
        assert(Seq::<SuffixView>::empty() =~= f);
    } else {
        let first = f[0];
        let rest = f.drop_first();
        let name = kind_name(first.kind);
        let number = match first.number {
            Some(n) => n,
            None => Seq::<char>::empty(),
        };
        let tail = suffixes_text(rest);
        let whole = suffixes_text(f);
        lemma_kind_name(first.kind);
        assert(suffix_text(first) == seq!['_'] + name + number);
        assert(whole == suffix_text(first) + tail);
        let k = i + 1 + name.len();
        let n = k + number.len();
        assert(e - i == 1 + name.len() + number.len() + tail.len());
        assert(s[i] == '_') by {
            assert(s.subrange(i, e)[0] == whole[0]);
        }
        assert(s.subrange(i + 1, k) =~= name) by {
            assert forall|j: int| 0 <= j < name.len() implies s.subrange(i + 1, k)[j] == name[j] by {
                assert(s.subrange(i, e)[1 + j] == whole[1 + j]);
            }
        }
        assert(s.subrange(k, n) =~= number) by {
            assert forall|j: int| 0 <= j < number.len() implies s.subrange(k, n)[j] == number[j] by {
                assert(s.subrange(i, e)[1 + name.len() + j] == whole[1 + name.len() + j]);
            }
        }
        assert(s.subrange(n, e) =~= tail) by {
            assert forall|j: int| 0 <= j < tail.len() implies s.subrange(n, e)[j] == tail[j] by {
                assert(s.subrange(i, e)[1 + name.len() + number.len() + j] == whole[1 + name.len()
                    + number.len() + j]);
            }
        }
        assert forall|j: int| 0 <= j < rest.len() implies ((#[trigger] rest[j]).number matches Some(
            d,
        ) ==> is_number(d)) by {
            assert(rest[j] == f[j + 1]);
        }
        // what stands after the number: the next suffix, the revision, or nothing
        assert(n < s.len() ==> s[n] == '_' || s[n] == '-') by {
            if n < e {
                assert(rest.len() > 0);
                assert(tail == suffix_text(rest[0]) + suffixes_text(rest.drop_first()));
                assert(tail[0] == '_');
                assert(s.subrange(n, e)[0] == s[n]);
            }
        }
        // what stands after the name: the number, or what stands after the number
        assert(k < s.len() ==> !is_lower(s[k])) by {
            if k < n {
                assert(s.subrange(k, n)[0] == s[k]);
                assert(CharClass::Digit.has(number[0]));
            }
        }
        lemma_run_end_is(s, i + 1, CharClass::Lower, k);
        if first.number is Some {
            assert(is_number(number));
        }
        lemma_run_end_is(s, k, CharClass::Digit, n);
        lemma_suffixes_read_back(s, n, rest, e);
        let read = SuffixView {
            kind: first.kind,
            number: if n > k {
                Some(s.subrange(k, n))
            } else {
                None
            },
        };
        assert(read == first);
        assert(seq![read] + rest =~= f);
    }
}

/// The text of a well-formed version is parsed, and gives that version.
pub proof fn lemma_version_text_is_parsed(v: VersionView)
    requires
        v.wf(),
    ensures
        spec_parse_version(v.text()) == Ok::<VersionView, VersionErrorView>(v),
{
    let s = v.text();
    let head = join_components(v.components);
    let letter = letter_text(v.letter);
    let suffixes = suffixes_text(v.suffixes);
    let revision = revision_text(v.revision);
    let c = head.len() as int;
    let l = c + letter.len();
    let r = l + suffixes.len();
    assert(s == head + letter + suffixes + revision);
    assert(s.len() == r + revision.len());
    lemma_components_text(v.components);
    assert(c > 0);
    assert(s.subrange(0, c) =~= head);
    assert(s.subrange(c, l) =~= letter);
    assert(s.subrange(l, r) =~= suffixes);
    assert(s.subrange(r, s.len() as int) =~= revision);
    // what stands at `r`: the hyphen of the revision, or nothing
    assert(r < s.len() ==> s[r] == '-' && v.revision is Some) by {
        if r < s.len() {
            assert(s.subrange(r, s.len() as int)[0] == s[r]);
        }
    }
    // what stands at `l`: a suffix, or what stands at `r`
    assert(l < s.len() ==> s[l] == '_' || s[l] == '-') by {
        if l < r {
            assert(v.suffixes.len() > 0);
            assert(suffixes == suffix_text(v.suffixes[0]) + suffixes_text(v.suffixes.drop_first()));
            assert(suffixes[0] == '_');
            assert(s.subrange(l, r)[0] == s[l]);
        }
    }
    // what stands at `c`: the letter, or what stands at `l`
    assert(c < s.len() ==> (is_lower(s[c]) <==> v.letter is Some)) by {
        if c < l {
            assert(s.subrange(c, l)[0] == s[c]);
        }
    }
    lemma_components_read_back(s, 0, v.components, c);
    lemma_suffixes_read_back(s, l, v.suffixes, r);
    match v.revision {
        Some(d) => {
            assert(revision == seq!['-', 'r'] + d);
            assert(s[r + 1] == 'r') by {
                assert(s.subrange(r, s.len() as int)[1] == revision[1]);
            }
            assert(s.subrange(r + 2, s.len() as int) =~= d) by {
                assert forall|j: int| 0 <= j < d.len() implies s.subrange(r + 2, s.len() as int)[j]
                    == d[j] by {
                    assert(s.subrange(r, s.len() as int)[2 + j] == revision[2 + j]);
                }
            }
            lemma_run_end_is(s, r + 2, CharClass::Digit, s.len() as int);
            assert(is_revision_at(s, r));
        },
        None => {},
    }
    if c < l {
        assert(v.letter == Some(s[c]));
    }
}

/// The text of components is not empty.
proof fn lemma_components_text(c: Seq<Seq<char>>)
    requires
        c.len() > 0,
        forall|k: int| 0 <= k < c.len() ==> is_number(#[trigger] c[k]),
    ensures
        join_components(c).len() > 0,
{
    assert(is_number(c[0]));
}

proof fn lemma_components_are_names(c: Seq<Seq<char>>)
    requires
        forall|k: int| 0 <= k < c.len() ==> is_number(#[trigger] c[k]),
    ensures
        all_in(join_components(c), CharClass::Name),
    decreases c.len(),
{
    if c.len() == 1 {
        assert(is_number(c[0]));
        assert forall|j: int| 0 <= j < c[0].len() implies CharClass::Name.has(#[trigger] c[0][j]) by {
            assert(CharClass::Digit.has(c[0][j]));
        }
    } else if c.len() > 1 {
        let rest = c.drop_first();
        assert forall|k: int| 0 <= k < rest.len() implies is_number(#[trigger] rest[k]) by {
            assert(rest[k] == c[k + 1]);
        }
        lemma_components_are_names(rest);
        assert(is_number(c[0]));
        let text = join_components(c);
        let tail = join_components(rest);
        assert forall|j: int| 0 <= j < text.len() implies CharClass::Name.has(#[trigger] text[j]) by {
            if j < c[0].len() {
                assert(CharClass::Digit.has(c[0][j]));
            } else if j > c[0].len() {
                assert(CharClass::Name.has(tail[j - c[0].len() - 1]));
            }
        }
    }
}

proof fn lemma_suffixes_are_names(f: Seq<SuffixView>)
    requires
        forall|k: int|
            0 <= k < f.len() ==> ((#[trigger] f[k]).number matches Some(n) ==> is_number(n)),
    ensures
        all_in(suffixes_text(f), CharClass::Name),
    decreases f.len(),
{
    if f.len() > 0 {
        let rest = f.drop_first();
        assert forall|j: int| 0 <= j < rest.len() implies ((#[trigger] rest[j]).number matches Some(
            d,
        ) ==> is_number(d)) by {
            assert(rest[j] == f[j + 1]);
        }
        lemma_suffixes_are_names(rest);
        lemma_kind_name(f[0].kind);
        let name = kind_name(f[0].kind);
        let number = match f[0].number {
            Some(n) => n,
            None => Seq::<char>::empty(),
        };
        let tail = suffixes_text(rest);
        let text = suffixes_text(f);
        assert(text == seq!['_'] + name + number + tail);
        assert forall|j: int| 0 <= j < text.len() implies CharClass::Name.has(#[trigger] text[j]) by {
            if 1 <= j < 1 + name.len() {
                assert(CharClass::Lower.has(name[j - 1]));
            } else if 1 + name.len() <= j < 1 + name.len() + number.len() {
                assert(is_number(number));
                assert(CharClass::Digit.has(number[j - 1 - name.len()]));
            } else if j >= 1 + name.len() + number.len() {
                assert(CharClass::Name.has(tail[j - 1 - name.len() - number.len()]));
            }
        }
    }
}

/// The text of a well-formed version is made of the characters of names.
pub proof fn lemma_version_is_name(v: VersionView)
    requires
        v.wf(),
    ensures
        all_in(v.text(), CharClass::Name),
{
    lemma_components_are_names(v.components);
    lemma_suffixes_are_names(v.suffixes);
    let head = join_components(v.components);
    let letter = letter_text(v.letter);
    let suffixes = suffixes_text(v.suffixes);
    let revision = revision_text(v.revision);
    let text = v.text();
    assert(text == head + letter + suffixes + revision);
    assert forall|j: int| 0 <= j < text.len() implies CharClass::Name.has(#[trigger] text[j]) by {
        if j < head.len() {
            assert(CharClass::Name.has(head[j]));
        } else if j < head.len() + letter.len() {
        } else if j < head.len() + letter.len() + suffixes.len() {
            assert(CharClass::Name.has(suffixes[j - head.len() - letter.len()]));
        } else {
            let k = j - head.len() - letter.len() - suffixes.len();
            let d = v.revision->0;
            if k >= 2 {
                assert(CharClass::Digit.has(d[k - 2]));
            }
        }
    }
}

/// A text is a version exactly when it is the text of a well-formed version;
/// the version parsed is that version.
pub proof fn lemma_grammar_accepts(s: Seq<char>, v: VersionView)
    ensures
        spec_parse_version(s) == Ok::<VersionView, VersionErrorView>(v) <==> v.wf() && v.text()
            == s,
{
    crate::version::lemma_parse_version(s);
    if v.wf() && v.text() == s {
        lemma_version_text_is_parsed(v);
    }
}

} // verus!
