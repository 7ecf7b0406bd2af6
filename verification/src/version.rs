//! Package versions: what a version holds, the grammar that reads one, and how
//! a version is written out again.
//!
//! ```text
//! version  = NUM ("." NUM)* [LETTER] ("_" KIND [NUM])* ["-r" NUM]
//! KIND     = "alpha" | "beta" | "pre" | "rc" | "p"
//! ```

use vstd::prelude::*;
use crate::error::{VersionError, VersionErrorView};
use crate::version_accepts::lemma_version_text_is_parsed;
use crate::text::{
    all_in, append_chars, chars_of, copy_of, copy_of_option, is_digit, is_lower, lemma_run_end,
    run_end, scan, slice_of, string_of, CharClass,
};

verus! {

/// The kinds of release suffix, from the earliest to the latest.
#[derive(Clone, Copy, Debug, PartialEq, Eq, Structural)]
pub enum SuffixKind {
    Alpha,
    Beta,
    Pre,
    Rc,
    P,
}

/// A release suffix with its number as written, if one was written.
#[derive(Debug)]
pub struct Suffix {
    pub kind: SuffixKind,
    pub number: Option<Vec<char>>,
}

/// What a [`Suffix`] stands for in contracts.
pub struct SuffixView {
    pub kind: SuffixKind,
    pub number: Option<Seq<char>>,
}

impl View for Suffix {
    type V = SuffixView;

    open spec fn view(&self) -> SuffixView {
        SuffixView {
            kind: self.kind,
            number: match self.number {
                Some(n) => Some(n@),
                None => None,
            },
        }
    }
}

/// A parsed version. Nothing of the text is lost: each number keeps its digits.
#[derive(Debug)]
pub struct Version {
    components: Vec<Vec<char>>,
    letter: Option<char>,
    suffixes: Vec<Suffix>,
    revision: Option<Vec<char>>,
}

/// What a [`Version`] stands for in contracts.
pub struct VersionView {
    /// The numeric components, each as its digits.
    pub components: Seq<Seq<char>>,
    /// The letter after the last component.
    pub letter: Option<char>,
    /// The release suffixes, in the order written.
    pub suffixes: Seq<SuffixView>,
    /// The digits of the revision, where one is written.
    pub revision: Option<Seq<char>>,
}

/// Whether `d` is a number as the grammar has it: one digit or more.
pub open spec fn is_number(d: Seq<char>) -> bool {
    d.len() > 0 && all_in(d, CharClass::Digit)
}

impl VersionView {
    /// What holds of every parsed version.
    pub open spec fn wf(self) -> bool {
        &&& self.components.len() > 0
        &&& forall|i: int| 0 <= i < self.components.len() ==> is_number(#[trigger] self.components[i])
        &&& self.letter matches Some(c) ==> is_lower(c)
        &&& forall|i: int|
            0 <= i < self.suffixes.len() ==> ((#[trigger] self.suffixes[i]).number matches Some(n)
                ==> is_number(n))
        &&& self.revision matches Some(r) ==> is_number(r)
    }

    /// The version as text, without its revision.
    pub open spec fn base_text(self) -> Seq<char> {
        join_components(self.components) + letter_text(self.letter) + suffixes_text(self.suffixes)
    }

    /// The version as text.
    pub open spec fn text(self) -> Seq<char> {
        self.base_text() + revision_text(self.revision)
    }
}

/// The views of the vectors in `v`.
pub open spec fn views(v: Seq<Vec<char>>) -> Seq<Seq<char>> {
    Seq::new(v.len(), |i: int| v[i]@)
}

/// The views of the suffixes in `v`.
pub open spec fn suffix_views(v: Seq<Suffix>) -> Seq<SuffixView> {
    Seq::new(v.len(), |i: int| v[i]@)
}

impl View for Version {
    type V = VersionView;

    closed spec fn view(&self) -> VersionView {
        VersionView {
            components: views(self.components@),
            letter: self.letter,
            suffixes: suffix_views(self.suffixes@),
            revision: match self.revision {
                Some(r) => Some(r@),
                None => None,
            },
        }
    }
}

impl Clone for Suffix {
    fn clone(&self) -> (r: Suffix)
        ensures
            r@ == self@,
    {
        Suffix { kind: self.kind, number: copy_of_option(&self.number) }
    }
}

impl Clone for Version {
    fn clone(&self) -> (r: Version)
        ensures
            r@ == self@,
    {
        proof {
            use_type_invariant(self);
        }
        let mut components: Vec<Vec<char>> = Vec::new();
        let mut i: usize = 0;
        while i < self.components.len()
            invariant
                i <= self.components@.len(),
                components@.len() == i,
                forall|k: int| 0 <= k < i ==> (#[trigger] components@[k])@ == self.components@[k]@,
            decreases self.components@.len() - i,
        {
            components.push(copy_of(&self.components[i]));
            i += 1;
        }
        assert(views(components@) =~= views(self.components@));
        let mut suffixes: Vec<Suffix> = Vec::new();
        let mut j: usize = 0;
        while j < self.suffixes.len()
            invariant
                j <= self.suffixes@.len(),
                suffixes@.len() == j,
                forall|k: int| 0 <= k < j ==> (#[trigger] suffixes@[k])@ == self.suffixes@[k]@,
            decreases self.suffixes@.len() - j,
        {
            suffixes.push(self.suffixes[j].clone());
            j += 1;
        }
        assert(suffix_views(suffixes@) =~= suffix_views(self.suffixes@));
        Version {
            components,
            letter: self.letter,
            suffixes,
            revision: copy_of_option(&self.revision),
        }
    }
}

// ---------------------------------------------------------------------------
// The grammar
// ---------------------------------------------------------------------------

/// The name of a suffix kind, as written after the underscore.
pub open spec fn kind_name(kind: SuffixKind) -> Seq<char> {
    match kind {
        SuffixKind::Alpha => seq!['a', 'l', 'p', 'h', 'a'],
        SuffixKind::Beta => seq!['b', 'e', 't', 'a'],
        SuffixKind::Pre => seq!['p', 'r', 'e'],
        SuffixKind::Rc => seq!['r', 'c'],
        SuffixKind::P => seq!['p'],
    }
}

/// The suffix kind that `name` names.
pub open spec fn kind_named(name: Seq<char>) -> Option<SuffixKind> {
    if name == kind_name(SuffixKind::Alpha) {
        Some(SuffixKind::Alpha)
    } else if name == kind_name(SuffixKind::Beta) {
        Some(SuffixKind::Beta)
    } else if name == kind_name(SuffixKind::Pre) {
        Some(SuffixKind::Pre)
    } else if name == kind_name(SuffixKind::Rc) {
        Some(SuffixKind::Rc)
    } else if name == kind_name(SuffixKind::P) {
        Some(SuffixKind::P)
    } else {
        None
    }
}

/// Reads `NUM ("." NUM)*` at position `i`: the components with the position
/// after them or, where a number is missing, the position at which it is.
pub open spec fn read_components(s: Seq<char>, i: int) -> Result<(Seq<Seq<char>>, int), int>
    decreases s.len() - i,
{
    let e = run_end(s, i, CharClass::Digit);
    if e <= i {
        Err(i)
    } else if e < s.len() && s[e] == '.' {
        match read_components(s, e + 1) {
            Ok((rest, end)) => Ok((seq![s.subrange(i, e)] + rest, end)),
            Err(p) => Err(p),
        }
    } else {
        Ok((seq![s.subrange(i, e)], e))
    }
}

/// Reads `("_" KIND [NUM])*` at position `i`: the suffixes with the position
/// after them or, where an underscore is followed by no kind, its position.
pub open spec fn read_suffixes(s: Seq<char>, i: int) -> Result<(Seq<SuffixView>, int), int>
    decreases s.len() - i,
    via read_suffixes_decreases
{
    if 0 <= i < s.len() && s[i] == '_' {
        let k = run_end(s, i + 1, CharClass::Lower);
        let n = run_end(s, k, CharClass::Digit);
        match kind_named(s.subrange(i + 1, k)) {
            Some(kind) => {
                let suffix = SuffixView {
                    kind,
                    number: if n > k {
                        Some(s.subrange(k, n))
                    } else {
                        None
                    },
                };
                match read_suffixes(s, n) {
                    Ok((rest, end)) => Ok((seq![suffix] + rest, end)),
                    Err(p) => Err(p),
                }
            },
            None => Err(i),
        }
    } else {
        Ok((Seq::empty(), i))
    }
}

#[via_fn]
proof fn read_suffixes_decreases(s: Seq<char>, i: int) {
    if 0 <= i < s.len() && s[i] == '_' {
        lemma_run_end(s, i + 1, CharClass::Lower);
        lemma_run_end(s, run_end(s, i + 1, CharClass::Lower), CharClass::Digit);
    }
}

/// Whether `s` from position `i` on is `"-r" NUM`.
pub open spec fn is_revision_at(s: Seq<char>, i: int) -> bool {
    &&& 0 <= i
    &&& i + 2 < s.len()
    &&& s[i] == '-'
    &&& s[i + 1] == 'r'
    &&& run_end(s, i + 2, CharClass::Digit) == s.len()
}

/// The version that `s` writes, or why it writes none.
pub open spec fn spec_parse_version(s: Seq<char>) -> Result<VersionView, VersionErrorView> {
    if s.len() == 0 {
        Err(VersionErrorView::EmptyInput)
    } else {
        match read_components(s, 0) {
            Err(p) => Err(VersionErrorView::InvalidComponent(p)),
            Ok((components, c)) => {
                let letter = if c < s.len() && is_lower(s[c]) {
                    Some(s[c])
                } else {
                    None
                };
                let l = if letter is Some {
                    c + 1
                } else {
                    c
                };
                if l < s.len() && s[l] != '_' && s[l] != '-' {
                    Err(VersionErrorView::InvalidComponent(l))
                } else {
                    match read_suffixes(s, l) {
                        Err(p) => Err(VersionErrorView::InvalidSuffix(s.subrange(p, s.len() as int))),
                        Ok((suffixes, r)) => {
                            if r == s.len() {
                                Ok(VersionView { components, letter, suffixes, revision: None })
                            } else if s[r] != '-' {
                                Err(VersionErrorView::InvalidSuffix(s.subrange(r, s.len() as int)))
                            } else if is_revision_at(s, r) {
                                Ok(
                                    VersionView {
                                        components,
                                        letter,
                                        suffixes,
                                        revision: Some(s.subrange(r + 2, s.len() as int)),
                                    },
                                )
                            } else {
                                Err(
                                    VersionErrorView::InvalidRevision(
                                        s.subrange(r, s.len() as int),
                                    ),
                                )
                            }
                        },
                    }
                }
            },
        }
    }
}

// ---------------------------------------------------------------------------
// The text of a version
// ---------------------------------------------------------------------------

/// The components with a dot between each two.
pub open spec fn join_components(c: Seq<Seq<char>>) -> Seq<char>
    decreases c.len(),
{
    if c.len() == 0 {
        Seq::empty()
    } else if c.len() == 1 {
        c[0]
    } else {
        c[0] + seq!['.'] + join_components(c.drop_first())
    }
}

/// The letter as written, nothing where there is none.
pub open spec fn letter_text(letter: Option<char>) -> Seq<char> {
    match letter {
        Some(c) => seq![c],
        None => Seq::empty(),
    }
}

/// A suffix as written: an underscore, the kind, the number.
pub open spec fn suffix_text(suffix: SuffixView) -> Seq<char> {
    seq!['_'] + kind_name(suffix.kind) + match suffix.number {
        Some(n) => n,
        None => Seq::empty(),
    }
}

/// The suffixes as written, one after the other.
pub open spec fn suffixes_text(suffixes: Seq<SuffixView>) -> Seq<char>
    decreases suffixes.len(),
{
    if suffixes.len() == 0 {
        Seq::empty()
    } else {
        suffix_text(suffixes[0]) + suffixes_text(suffixes.drop_first())
    }
}

/// The revision as written, nothing where there is none.
pub open spec fn revision_text(revision: Option<Seq<char>>) -> Seq<char> {
    match revision {
        Some(r) => seq!['-', 'r'] + r,
        None => Seq::empty(),
    }
}

// ---------------------------------------------------------------------------
// What the grammar accepts
// ---------------------------------------------------------------------------

/// The components read are numbers, and their text is the text read.
pub proof fn lemma_read_components(s: Seq<char>, i: int)
    requires
        0 <= i <= s.len(),
    ensures
        match read_components(s, i) {
            Ok((c, e)) => {
                &&& i < e <= s.len()
                &&& c.len() > 0
                &&& forall|k: int| 0 <= k < c.len() ==> is_number(#[trigger] c[k])
                &&& join_components(c) == s.subrange(i, e)
            },
            Err(p) => i <= p <= s.len(),
        },
    decreases s.len() - i,
{
    let e = run_end(s, i, CharClass::Digit);
    lemma_run_end(s, i, CharClass::Digit);
    if e > i {
        let first = s.subrange(i, e);
        if e < s.len() && s[e] == '.' {
            lemma_read_components(s, e + 1);
            match read_components(s, e + 1) {
                Ok((rest, end)) => {
                    let c = seq![first] + rest;
                    assert(c.drop_first() == rest);
                    assert(c[0] == first);
                    assert forall|k: int| 0 <= k < c.len() implies is_number(#[trigger] c[k]) by {
                        if k > 0 {
                            assert(c[k] == rest[k - 1]);
                        }
                    }
                    assert(first + seq!['.'] + s.subrange(e + 1, end) == s.subrange(i, end));
                },
                Err(p) => {},
            }
        } else {
            let c = seq![first];
            assert(c[0] == first);
        }
    }
}

/// The suffixes read hold numbers, and their text is the text read.
#[verifier::rlimit(50)]
pub proof fn lemma_read_suffixes(s: Seq<char>, i: int)
    requires
        0 <= i <= s.len(),
    ensures
        match read_suffixes(s, i) {
            Ok((f, e)) => {
                &&& i <= e <= s.len()
                &&& forall|k: int|
                    0 <= k < f.len() ==> ((#[trigger] f[k]).number matches Some(n) ==> is_number(n))
                &&& suffixes_text(f) == s.subrange(i, e)
                &&& e < s.len() ==> s[e] != '_'
            },
            Err(p) => i <= p < s.len(),
        },
    decreases s.len() - i,
{
    if i < s.len() && s[i] == '_' {
        let k = run_end(s, i + 1, CharClass::Lower);
        lemma_run_end(s, i + 1, CharClass::Lower);
        let n = run_end(s, k, CharClass::Digit);
        lemma_run_end(s, k, CharClass::Digit);
        match kind_named(s.subrange(i + 1, k)) {
            Some(kind) => {
                let suffix = SuffixView {
                    kind,
                    number: if n > k {
                        Some(s.subrange(k, n))
                    } else {
                        None
                    },
                };
                lemma_read_suffixes(s, n);
                match read_suffixes(s, n) {
                    Ok((rest, end)) => {
                        let f = seq![suffix] + rest;
                        assert(f.drop_first() == rest);
                        assert(f[0] == suffix);
                        assert forall|j: int| 0 <= j < f.len() implies ((#[trigger] f[j]).number matches Some(
                            m,
                        ) ==> is_number(m)) by {
                            if j > 0 {
                                assert(f[j] == rest[j - 1]);
                            }
                        }
                        assert(kind_name(kind) == s.subrange(i + 1, k));
                        assert(suffix_text(suffix) == s.subrange(i, n)) by {
                            assert(seq!['_'] == s.subrange(i, i + 1));
                            if n > k {
                                assert(s.subrange(i, i + 1) + s.subrange(i + 1, k) + s.subrange(k, n)
                                    == s.subrange(i, n));
                            } else {
                                assert(s.subrange(i, i + 1) + s.subrange(i + 1, k) + Seq::<char>::empty()
                                    == s.subrange(i, n));
                            }
                        }
                        assert(s.subrange(i, n) + s.subrange(n, end) == s.subrange(i, end));
                    },
                    Err(p) => {},
                }
            },
            None => {},
        }
    } else {
        assert(s.subrange(i, i) == Seq::<char>::empty());
    }
}

/// What the grammar accepts is well formed, and written out again it is the
/// text that was read.
pub proof fn lemma_parse_version(s: Seq<char>)
    ensures
        spec_parse_version(s) matches Ok(v) ==> v.wf() && v.text() == s,
{
    if s.len() > 0 {
        lemma_read_components(s, 0);
        match read_components(s, 0) {
            Ok((components, c)) => {
                let l = if c < s.len() && is_lower(s[c]) {
                    c + 1
                } else {
                    c
                };
                lemma_read_suffixes(s, l);
                match read_suffixes(s, l) {
                    Ok((suffixes, r)) => {
                        match spec_parse_version(s) {
                            Ok(v) => {
                                assert(letter_text(v.letter) == s.subrange(c, l));
                                if r < s.len() {
                                    lemma_run_end(s, r + 2, CharClass::Digit);
                                    assert(revision_text(v.revision) == s.subrange(r, s.len() as int)) by {
                                        assert(seq!['-', 'r'] == s.subrange(r, r + 2));
                                        assert(s.subrange(r, r + 2) + s.subrange(r + 2, s.len() as int)
                                            == s.subrange(r, s.len() as int));
                                    }
                                } else {
                                    assert(revision_text(v.revision) == s.subrange(r, s.len() as int));
                                }
                                assert(s.subrange(0, c) + s.subrange(c, l) + s.subrange(l, r)
                                    + s.subrange(r, s.len() as int) == s);
                            },
                            Err(_) => {},
                        }
                    },
                    Err(_) => {},
                }
            },
            Err(_) => {},
        }
    }
}

proof fn lemma_components_hold_no_hyphen(s: Seq<char>, i: int)
    requires
        0 <= i <= s.len(),
    ensures
        read_components(s, i) matches Ok((c, e)) ==> forall|m: int|
            i <= m < e ==> #[trigger] s[m] != '-',
    decreases s.len() - i,
{
    let e = run_end(s, i, CharClass::Digit);
    lemma_run_end(s, i, CharClass::Digit);
    if e > i {
        assert forall|m: int| i <= m < e implies #[trigger] s[m] != '-' by {
            assert(CharClass::Digit.has(s.subrange(i, e)[m - i]));
        }
        if e < s.len() && s[e] == '.' {
            lemma_components_hold_no_hyphen(s, e + 1);
        }
    }
}

proof fn lemma_suffixes_hold_no_hyphen(s: Seq<char>, i: int)
    requires
        0 <= i <= s.len(),
    ensures
        read_suffixes(s, i) matches Ok((f, e)) ==> forall|m: int|
            i <= m < e ==> #[trigger] s[m] != '-',
    decreases s.len() - i,
{
    if i < s.len() && s[i] == '_' {
        let k = run_end(s, i + 1, CharClass::Lower);
        lemma_run_end(s, i + 1, CharClass::Lower);
        let n = run_end(s, k, CharClass::Digit);
        lemma_run_end(s, k, CharClass::Digit);
        if kind_named(s.subrange(i + 1, k)) is Some {
            assert forall|m: int| i <= m < n implies #[trigger] s[m] != '-' by {
                if i < m < k {
                    assert(CharClass::Lower.has(s.subrange(i + 1, k)[m - i - 1]));
                } else if k <= m {
                    assert(CharClass::Digit.has(s.subrange(k, n)[m - k]));
                }
            }
            lemma_read_suffixes(s, n);
            lemma_suffixes_hold_no_hyphen(s, n);
        }
    }
}

/// The text of a version begins with a digit, and a hyphen stands in it only
/// before the `r` of the revision.
pub proof fn lemma_version_hyphens(t: Seq<char>)
    requires
        spec_parse_version(t) is Ok,
    ensures
        t.len() > 0,
        is_digit(t[0]),
        forall|m: int|
            0 <= m < t.len() && #[trigger] t[m] == '-' ==> m + 1 < t.len() && t[m + 1] == 'r',
{
    lemma_read_components(t, 0);
    lemma_components_hold_no_hyphen(t, 0);
    lemma_run_end(t, 0, CharClass::Digit);
    let (components, c) = read_components(t, 0)->Ok_0;
    let l = if c < t.len() && is_lower(t[c]) {
        c + 1
    } else {
        c
    };
    lemma_read_suffixes(t, l);
    lemma_suffixes_hold_no_hyphen(t, l);
    let (suffixes, r) = read_suffixes(t, l)->Ok_0;
    if run_end(t, 0, CharClass::Digit) > 0 {
        assert(CharClass::Digit.has(t.subrange(0, run_end(t, 0, CharClass::Digit))[0]));
    }
    assert forall|m: int| 0 <= m < t.len() && #[trigger] t[m] == '-' implies m + 1 < t.len() && t[m
        + 1] == 'r' by {
        if m > r {
            lemma_run_end(t, r + 2, CharClass::Digit);
            assert(CharClass::Digit.has(t.subrange(r + 2, t.len() as int)[m - r - 2]));
        }
    }
}

// ---------------------------------------------------------------------------
// Parsing
// ---------------------------------------------------------------------------

/// `r` with the components `acc` before its own.
spec fn after_components(acc: Seq<Seq<char>>, r: Result<(Seq<Seq<char>>, int), int>) -> Result<
    (Seq<Seq<char>>, int),
    int,
> {
    match r {
        Ok((rest, end)) => Ok((acc + rest, end)),
        Err(p) => Err(p),
    }
}

/// `r` with the suffixes `acc` before its own.
spec fn after_suffixes(acc: Seq<SuffixView>, r: Result<(Seq<SuffixView>, int), int>) -> Result<
    (Seq<SuffixView>, int),
    int,
> {
    match r {
        Ok((rest, end)) => Ok((acc + rest, end)),
        Err(p) => Err(p),
    }
}

fn parse_components(s: &[char]) -> (r: Result<(Vec<Vec<char>>, usize), usize>)
    ensures
        match r {
            Ok((c, e)) => read_components(s@, 0) == Ok::<(Seq<Seq<char>>, int), int>(
                (views(c@), e as int),
            ),
            Err(p) => read_components(s@, 0) == Err::<(Seq<Seq<char>>, int), int>(p as int),
        },
{
    let mut components: Vec<Vec<char>> = Vec::new();
    let mut i: usize = 0;
    proof {
        match read_components(s@, 0) {
            Ok((rest, end)) => {
                assert(views(components@) + rest == rest);
            },
            Err(_) => {},
        }
    }
    loop
        invariant
            i <= s@.len(),
            read_components(s@, 0) == after_components(
                views(components@),
                read_components(s@, i as int),
            ),
        decreases s@.len() - i,
    {
        let e = scan(s, i, CharClass::Digit);
        if e == i {
            return Err(i);
        }
        let ghost before = views(components@);
        let number = slice_of(s, i, e);
        components.push(number);
        assert(views(components@) == before.push(s@.subrange(i as int, e as int)));
        if e < s.len() && s[e] == '.' {
            proof {
                match read_components(s@, e as int + 1) {
                    Ok((rest, end)) => {
                        assert(before + (seq![s@.subrange(i as int, e as int)] + rest) == before.push(
                            s@.subrange(i as int, e as int),
                        ) + rest);
                    },
                    Err(_) => {},
                }
            }
            i = e + 1;
        } else {
            assert(before + seq![s@.subrange(i as int, e as int)] == before.push(
                s@.subrange(i as int, e as int),
            ));
            return Ok((components, e));
        }
    }
}

/// The suffix kind that `s[from..to]` names.
fn kind_at(s: &[char], from: usize, to: usize) -> (r: Option<SuffixKind>)
    requires
        from <= to <= s@.len(),
    ensures
        r == kind_named(s@.subrange(from as int, to as int)),
{
    let ghost name = s@.subrange(from as int, to as int);
    let n = to - from;
    proof {
        assert(kind_name(SuffixKind::Alpha).len() == 5);
        assert(kind_name(SuffixKind::Beta).len() == 4);
        assert(kind_name(SuffixKind::Pre).len() == 3);
        assert(kind_name(SuffixKind::Rc).len() == 2);
        assert(kind_name(SuffixKind::P).len() == 1);
        assert(kind_name(SuffixKind::Alpha)[0] == 'a');
        assert(kind_name(SuffixKind::Beta)[0] == 'b');
        assert(kind_name(SuffixKind::Pre)[0] == 'p');
        assert(kind_name(SuffixKind::Rc)[0] == 'r');
        assert(kind_name(SuffixKind::P)[0] == 'p');
    }
    if n == 5 && s[from] == 'a' && s[from + 1] == 'l' && s[from + 2] == 'p' && s[from + 3] == 'h'
        && s[from + 4] == 'a' {
        assert(name == kind_name(SuffixKind::Alpha));
        Some(SuffixKind::Alpha)
    } else if n == 4 && s[from] == 'b' && s[from + 1] == 'e' && s[from + 2] == 't' && s[from + 3]
        == 'a' {
        assert(name == kind_name(SuffixKind::Beta));
        Some(SuffixKind::Beta)
    } else if n == 3 && s[from] == 'p' && s[from + 1] == 'r' && s[from + 2] == 'e' {
        assert(name == kind_name(SuffixKind::Pre));
        Some(SuffixKind::Pre)
    } else if n == 2 && s[from] == 'r' && s[from + 1] == 'c' {
        assert(name == kind_name(SuffixKind::Rc));
        Some(SuffixKind::Rc)
    } else if n == 1 && s[from] == 'p' {
        assert(name == kind_name(SuffixKind::P));
        Some(SuffixKind::P)
    } else {
        proof {
            let a = kind_name(SuffixKind::Alpha);
            let b = kind_name(SuffixKind::Beta);
            let p = kind_name(SuffixKind::Pre);
            let r = kind_name(SuffixKind::Rc);
            let q = kind_name(SuffixKind::P);
            if name == a {
                assert(name[0] == a[0] && name[1] == a[1] && name[2] == a[2] && name[3] == a[3]
                    && name[4] == a[4]);
            }
            if name == b {
                assert(name[0] == b[0] && name[1] == b[1] && name[2] == b[2] && name[3] == b[3]);
            }
            if name == p {
                assert(name[0] == p[0] && name[1] == p[1] && name[2] == p[2]);
            }
            if name == r {
                assert(name[0] == r[0] && name[1] == r[1]);
            }
            if name == q {
                assert(name[0] == q[0]);
            }
        }
        None
    }
}

fn parse_suffixes(s: &[char], start: usize) -> (r: Result<(Vec<Suffix>, usize), usize>)
    requires
        start <= s@.len(),
    ensures
        match r {
            Ok((f, e)) => read_suffixes(s@, start as int) == Ok::<(Seq<SuffixView>, int), int>(
                (suffix_views(f@), e as int),
            ) && e <= s@.len(),
            Err(p) => read_suffixes(s@, start as int) == Err::<(Seq<SuffixView>, int), int>(
                p as int,
            ) && p < s@.len(),
        },
{
    let mut suffixes: Vec<Suffix> = Vec::new();
    let mut i: usize = start;
    proof {
        match read_suffixes(s@, start as int) {
            Ok((rest, end)) => {
                assert(suffix_views(suffixes@) + rest == rest);
            },
            Err(_) => {},
        }
    }
    loop
        invariant
            i <= s@.len(),
            read_suffixes(s@, start as int) == after_suffixes(
                suffix_views(suffixes@),
                read_suffixes(s@, i as int),
            ),
        decreases s@.len() - i,
    {
        if !(i < s.len() && s[i] == '_') {
            assert(suffix_views(suffixes@) + Seq::<SuffixView>::empty() == suffix_views(suffixes@));
            return Ok((suffixes, i));
        }
        let k = scan(s, i + 1, CharClass::Lower);
        let n = scan(s, k, CharClass::Digit);
        match kind_at(s, i + 1, k) {
            None => {
                return Err(i);
            },
            Some(kind) => {
                let number = if n > k {
                    Some(slice_of(s, k, n))
                } else {
                    None
                };
                let suffix = Suffix { kind, number };
                let ghost before = suffix_views(suffixes@);
                suffixes.push(suffix);
                assert(suffix_views(suffixes@) == before.push(suffix@));
                proof {
                    match read_suffixes(s@, n as int) {
                        Ok((rest, end)) => {
                            assert(before + (seq![suffix@] + rest) == before.push(suffix@) + rest);
                        },
                        Err(_) => {},
                    }
                }
                i = n;
            },
        }
    }
}

impl Version {
    #[verifier::type_invariant]
    spec fn inv(self) -> bool {
        self@.wf()
    }

    /// The numeric components, each as its digits.
    pub fn components(&self) -> (r: &Vec<Vec<char>>)
        ensures
            views(r@) == self@.components,
            self@.wf(),
    {
        proof {
            use_type_invariant(self);
        }
        &self.components
    }

    /// The letter after the last component, if there is one.
    pub fn letter(&self) -> (r: Option<char>)
        ensures
            r == self@.letter,
            self@.wf(),
    {
        proof {
            use_type_invariant(self);
        }
        self.letter
    }

    /// The release suffixes, in the order written.
    pub fn suffixes(&self) -> (r: &Vec<Suffix>)
        ensures
            suffix_views(r@) == self@.suffixes,
            self@.wf(),
    {
        proof {
            use_type_invariant(self);
        }
        &self.suffixes
    }

    /// The digits of the revision, where one is written.
    pub fn revision_digits(&self) -> (r: Option<&Vec<char>>)
        ensures
            match r {
                Some(d) => self@.revision == Some(d@),
                None => self@.revision is None,
            },
            self@.wf(),
    {
        proof {
            use_type_invariant(self);
        }
        match &self.revision {
            Some(d) => Some(d),
            None => None,
        }
    }

    /// The revision as text: its digits, or `0` where none is written.
    pub fn revision(&self) -> (r: String)
        ensures
            r@ == match self@.revision {
                Some(d) => d,
                None => seq!['0'],
            },
    {
        match &self.revision {
            Some(d) => {
                let out = string_of(d.as_slice(), 0, d.len());
                assert(d@.subrange(0, d@.len() as int) == d@);
                out
            },
            None => {
                let mut out = String::new();
                out.push('0');
                assert(out@ == seq!['0']);
                out
            },
        }
    }

    /// The characters of the version as text, without its revision.
    pub fn base_chars(&self) -> (out: Vec<char>)
        ensures
            out@ == self@.base_text(),
    {
        let mut out: Vec<char> = Vec::new();
        let mut i: usize = 0;
        proof {
            use_type_invariant(self);
        }
        let ghost c = self@.components;
        assert(c.skip(0) == c);
        while i < self.components.len()
            invariant
                i <= self.components@.len(),
                c == views(self.components@),
                c.len() > 0,
                i < c.len() ==> out@ + join_components(c.skip(i as int)) == join_components(c),
                i == c.len() ==> out@ == join_components(c),
            decreases self.components@.len() - i,
        {
            let ghost before = out@;
            let ghost rest = c.skip(i as int);
            append_chars(&mut out, self.components[i].as_slice());
            assert(rest[0] == self.components@[i as int]@);
            if i + 1 < self.components.len() {
                out.push('.');
                assert(rest.drop_first() == c.skip(i as int + 1));
                assert(out@ + join_components(c.skip(i as int + 1)) == before + (rest[0] + seq!['.']
                    + join_components(rest.drop_first())));
            }
            i += 1;
        }
        match self.letter {
            Some(l) => {
                out.push(l);
                assert(out@ == join_components(c) + letter_text(self@.letter));
            },
            None => {
                assert(out@ == join_components(c) + letter_text(self@.letter));
            },
        }
        let ghost head = out@;
        let ghost f = self@.suffixes;
        let mut j: usize = 0;
        assert(f.skip(0) == f);
        while j < self.suffixes.len()
            invariant
                j <= self.suffixes@.len(),
                f == suffix_views(self.suffixes@),
                out@ + suffixes_text(f.skip(j as int)) == head + suffixes_text(f),
            decreases self.suffixes@.len() - j,
        {
            let ghost before = out@;
            let ghost rest = f.skip(j as int);
            let suffix = &self.suffixes[j];
            out.push('_');
            match suffix.kind {
                SuffixKind::Alpha => {
                    out.push('a');
                    out.push('l');
                    out.push('p');
                    out.push('h');
                    out.push('a');
                },
                SuffixKind::Beta => {
                    out.push('b');
                    out.push('e');
                    out.push('t');
                    out.push('a');
                },
                SuffixKind::Pre => {
                    out.push('p');
                    out.push('r');
                    out.push('e');
                },
                SuffixKind::Rc => {
                    out.push('r');
                    out.push('c');
                },
                SuffixKind::P => {
                    out.push('p');
                },
            }
            assert(out@ == before + (seq!['_'] + kind_name(suffix.kind)));
            match &suffix.number {
                Some(n) => {
                    append_chars(&mut out, n.as_slice());
                },
                None => {},
            }
            assert(rest[0] == suffix@);
            assert(out@ == before + suffix_text(suffix@));
            assert(rest.drop_first() == f.skip(j as int + 1));
            assert(before + suffix_text(suffix@) + suffixes_text(f.skip(j as int + 1)) == before + (
            suffix_text(rest[0]) + suffixes_text(rest.drop_first())));
            j += 1;
        }
        assert(out@ == head + suffixes_text(f));
        out
    }

    /// The characters of the version as text.
    pub fn to_chars(&self) -> (out: Vec<char>)
        ensures
            out@ == self@.text(),
    {
        let mut out = self.base_chars();
        match &self.revision {
            Some(r) => {
                let ghost before = out@;
                out.push('-');
                out.push('r');
                append_chars(&mut out, r.as_slice());
                assert(out@ == before + (seq!['-', 'r'] + r@));
            },
            None => {
                assert(out@ == out@ + Seq::<char>::empty());
            },
        }
        out
    }

    /// The version as text, without its revision.
    pub fn base(&self) -> (out: String)
        ensures
            out@ == self@.base_text(),
    {
        let chars = self.base_chars();
        let out = string_of(chars.as_slice(), 0, chars.len());
        assert(chars@.subrange(0, chars@.len() as int) == chars@);
        out
    }

    /// The version as text. Read as a version, the text gives the version
    /// again.
    pub fn to_string(&self) -> (out: String)
        ensures
            out@ == self@.text(),
            spec_parse_version(out@) == Ok::<VersionView, VersionErrorView>(self@),
    {
        proof {
            use_type_invariant(self);
            lemma_version_text_is_parsed(self@);
        }
        let chars = self.to_chars();
        let out = string_of(chars.as_slice(), 0, chars.len());
        assert(chars@.subrange(0, chars@.len() as int) == chars@);
        out
    }

    /// Reads a version from its characters.
    pub fn from_chars(s: &[char]) -> (r: Result<Version, VersionError>)
        ensures
            match r {
                Ok(v) => spec_parse_version(s@) == Ok::<VersionView, VersionErrorView>(v@),
                Err(e) => spec_parse_version(s@) == Err::<VersionView, VersionErrorView>(e@),
            },
            r matches Ok(v) ==> v@.wf() && v@.text() == s@,
    {
        proof {
            lemma_parse_version(s@);
        }
        if s.len() == 0 {
            return Err(VersionError::EmptyInput);
        }
        let (components, c) = match parse_components(s) {
            Ok(x) => x,
            Err(p) => {
                return Err(VersionError::InvalidComponent(p));
            },
        };
        proof {
            lemma_read_components(s@, 0);
            lemma_parse_version(s@);
        }
        let letter = if c < s.len() && CharClass::Lower.contains(s[c]) {
            Some(s[c])
        } else {
            None
        };
        let l = if letter.is_some() {
            c + 1
        } else {
            c
        };
        if l < s.len() && s[l] != '_' && s[l] != '-' {
            return Err(VersionError::InvalidComponent(l));
        }
        let (suffixes, r) = match parse_suffixes(s, l) {
            Ok(x) => x,
            Err(p) => {
                return Err(VersionError::InvalidSuffix(string_of(s, p, s.len())));
            },
        };
        if r == s.len() {
            return Ok(Version { components, letter, suffixes, revision: None });
        }
        if s[r] != '-' {
            return Err(VersionError::InvalidSuffix(string_of(s, r, s.len())));
        }
        if s.len() - r > 2 && s[r + 1] == 'r' && scan(s, r + 2, CharClass::Digit) == s.len() {
            let revision = slice_of(s, r + 2, s.len());
            return Ok(Version { components, letter, suffixes, revision: Some(revision) });
        }
        Err(VersionError::InvalidRevision(string_of(s, r, s.len())))
    }

    /// Reads a version from a string.
    pub fn new(text: &str) -> (r: Result<Version, VersionError>)
        ensures
            match r {
                Ok(v) => spec_parse_version(text@) == Ok::<VersionView, VersionErrorView>(v@),
                Err(e) => spec_parse_version(text@) == Err::<VersionView, VersionErrorView>(e@),
            },
            r matches Ok(v) ==> v@.wf() && v@.text() == text@,
    {
        let chars = chars_of(text);
        Version::from_chars(chars.as_slice())
    }
}

/// Reads a version from a string: the version that `spec_parse_version` gives
/// for the text, or the error that it gives.
pub fn parse_version(text: &str) -> (r: Result<Version, VersionError>)
    ensures
        match r {
            Ok(v) => spec_parse_version(text@) == Ok::<VersionView, VersionErrorView>(v@),
            Err(e) => spec_parse_version(text@) == Err::<VersionView, VersionErrorView>(e@),
        },
        r matches Ok(v) ==> v@.wf() && v@.text() == text@,
{
    Version::new(text)
}

} // verus!
