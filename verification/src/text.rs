//! Character classes, runs of characters, and conversions between strings and
//! character sequences.
//!
//! Every grammar of this crate is stated over `Seq<char>`, the view of a string.

use vstd::prelude::*;
use vstd::std_specs::iter::IteratorSpec;

verus! {

/// `String::push` appends one character to the end of the string.
pub assume_specification[ String::push ](s: &mut String, ch: char)
    ensures
        final(s)@ == old(s)@.push(ch),
;

/// The sets of characters from which the tokens of the grammar are built.
#[derive(Clone, Copy, Debug, PartialEq, Eq, Structural)]
pub enum CharClass {
    /// `0` to `9`.
    Digit,
    /// `a` to `z`.
    Lower,
    /// Letters, digits and `_`: what a name may begin with.
    Word,
    /// Category, package and slot names: letters, digits, `_`, `+`, `.`, `-`.
    Name,
    /// Repository names: letters, digits, `_`, `-`.
    Repo,
    /// Letters and digits: what a USE flag may begin with.
    Alnum,
    /// USE flag names: letters, digits, `+`, `_`, `@`, `-`.
    Flag,
}

/// Whether `c` is one of `0` to `9`.
pub open spec fn is_digit(c: char) -> bool {
    '0' <= c && c <= '9'
}

/// Whether `c` is one of `a` to `z`.
pub open spec fn is_lower(c: char) -> bool {
    'a' <= c && c <= 'z'
}

/// Whether `c` is one of `A` to `Z`.
pub open spec fn is_upper(c: char) -> bool {
    'A' <= c && c <= 'Z'
}

/// Whether `c` is a digit or a letter of these.
pub open spec fn is_alnum(c: char) -> bool {
    is_digit(c) || is_lower(c) || is_upper(c)
}

/// Whether `c` is one of the marks that stand between the tokens of an atom:
/// `/ : [ ] , ( ) = * ? ! < > ~`.
pub open spec fn is_mark(c: char) -> bool {
    c == '/' || c == ':' || c == '[' || c == ']' || c == ',' || c == '(' || c == ')' || c == '='
        || c == '*' || c == '?' || c == '!' || c == '<' || c == '>' || c == '~'
}

/// Whether `c` is one of the marks that stand between the tokens of an atom.
pub fn is_mark_char(c: char) -> (b: bool)
    ensures
        b == is_mark(c),
{
    c == '/' || c == ':' || c == '[' || c == ']' || c == ',' || c == '(' || c == ')' || c == '='
        || c == '*' || c == '?' || c == '!' || c == '<' || c == '>' || c == '~'
}

impl CharClass {
    /// Whether `c` belongs to the class.
    pub open spec fn has(self, c: char) -> bool {
        match self {
            CharClass::Digit => is_digit(c),
            CharClass::Lower => is_lower(c),
            CharClass::Word => is_alnum(c) || c == '_',
            CharClass::Name => is_alnum(c) || c == '_' || c == '+' || c == '.' || c == '-',
            CharClass::Repo => is_alnum(c) || c == '_' || c == '-',
            CharClass::Alnum => is_alnum(c),
            CharClass::Flag => is_alnum(c) || c == '+' || c == '_' || c == '@' || c == '-',
        }
    }

    /// Whether `c` belongs to the class.
    pub fn contains(self, c: char) -> (b: bool)
        ensures
            b == self.has(c),
    {
        let digit = '0' <= c && c <= '9';
        let lower = 'a' <= c && c <= 'z';
        let upper = 'A' <= c && c <= 'Z';
        let alnum = digit || lower || upper;
        match self {
            CharClass::Digit => digit,
            CharClass::Lower => lower,
            CharClass::Word => alnum || c == '_',
            CharClass::Name => alnum || c == '_' || c == '+' || c == '.' || c == '-',
            CharClass::Repo => alnum || c == '_' || c == '-',
            CharClass::Alnum => alnum,
            CharClass::Flag => alnum || c == '+' || c == '_' || c == '@' || c == '-',
        }
    }
}

/// Whether every character of `s` belongs to `class`.
pub open spec fn all_in(s: Seq<char>, class: CharClass) -> bool {
    forall|i: int| 0 <= i < s.len() ==> class.has(#[trigger] s[i])
}

/// Where the longest run of characters of `class` that starts at `i` ends: the
/// first position from `i` on that holds no character of the class.
pub open spec fn run_end(s: Seq<char>, i: int, class: CharClass) -> int
    decreases s.len() - i,
{
    if 0 <= i < s.len() && class.has(s[i]) {
        run_end(s, i + 1, class)
    } else {
        i
    }
}

/// `run_end` stops inside the text, on the first character outside the class.
pub proof fn lemma_run_end(s: Seq<char>, i: int, class: CharClass)
    requires
        0 <= i <= s.len(),
    ensures
        i <= run_end(s, i, class) <= s.len(),
        all_in(s.subrange(i, run_end(s, i, class)), class),
        run_end(s, i, class) < s.len() ==> !class.has(s[run_end(s, i, class)]),
    decreases s.len() - i,
{
    if i < s.len() && class.has(s[i]) {
        lemma_run_end(s, i + 1, class);
        let e = run_end(s, i, class);
        assert forall|k: int| 0 <= k < e - i implies class.has(#[trigger] s.subrange(i, e)[k]) by {
            if k > 0 {
                assert(s.subrange(i + 1, e)[k - 1] == s[i + k]);
            }
        }
    }
}

/// A position that ends a run of the class is where `run_end` stops.
pub proof fn lemma_run_end_is(s: Seq<char>, i: int, class: CharClass, e: int)
    requires
        0 <= i <= e <= s.len(),
        all_in(s.subrange(i, e), class),
        e < s.len() ==> !class.has(s[e]),
    ensures
        run_end(s, i, class) == e,
    decreases e - i,
{
    if i < e {
        assert(s.subrange(i, e)[0] == s[i]);
        assert forall|k: int| 0 <= k < e - (i + 1) implies class.has(
            #[trigger] s.subrange(i + 1, e)[k],
        ) by {
            assert(s.subrange(i, e)[k + 1] == s[i + 1 + k]);
        }
        lemma_run_end_is(s, i + 1, class, e);
    }
}

/// The end of the run of `class` that starts at `i`.
pub fn scan(s: &[char], i: usize, class: CharClass) -> (e: usize)
    requires
        i <= s@.len(),
    ensures
        e == run_end(s@, i as int, class),
        i <= e <= s@.len(),
{
    let mut e: usize = i;
    while e < s.len() && class.contains(s[e])
        invariant
            i <= e <= s@.len(),
            run_end(s@, i as int, class) == run_end(s@, e as int, class),
        decreases s@.len() - e,
    {
        e += 1;
    }
    proof {
        lemma_run_end(s@, i as int, class);
    }
    e
}

/// The characters of `s`, in order.
pub fn chars_of(s: &str) -> (out: Vec<char>)
    ensures
        out@ == s@,
{
    let mut out: Vec<char> = Vec::new();
    for c in it: s.chars()
        invariant
            it.seq() == s@,
            out@ == it.seq().take(it.index() as int),
    {
        out.push(c);
    }
    out
}

/// The string made of the characters `chars[from..to]`.
pub fn string_of(chars: &[char], from: usize, to: usize) -> (out: String)
    requires
        from <= to <= chars@.len(),
    ensures
        out@ == chars@.subrange(from as int, to as int),
{
    let mut out = String::new();
    let mut i: usize = from;
    while i < to
        invariant
            from <= i <= to <= chars@.len(),
            out@ == chars@.subrange(from as int, i as int),
        decreases to - i,
    {
        out.push(chars[i]);
        i += 1;
        assert(chars@.subrange(from as int, i as int) == chars@.subrange(
            from as int,
            i as int - 1,
        ).push(chars@[i as int - 1]));
    }
    out
}

/// A copy of the characters `chars[from..to]`.
pub(crate) fn slice_of(chars: &[char], from: usize, to: usize) -> (out: Vec<char>)
    requires
        from <= to <= chars@.len(),
    ensures
        out@ == chars@.subrange(from as int, to as int),
{
    let mut out: Vec<char> = Vec::new();
    let mut i: usize = from;
    while i < to
        invariant
            from <= i <= to <= chars@.len(),
            out@ == chars@.subrange(from as int, i as int),
        decreases to - i,
    {
        out.push(chars[i]);
        i += 1;
        assert(chars@.subrange(from as int, i as int) == chars@.subrange(
            from as int,
            i as int - 1,
        ).push(chars@[i as int - 1]));
    }
    out
}

/// A copy of `chars`.
pub(crate) fn copy_of(chars: &Vec<char>) -> (out: Vec<char>)
    ensures
        out@ == chars@,
{
    let out = slice_of(chars.as_slice(), 0, chars.len());
    assert(chars@.subrange(0, chars@.len() as int) == chars@);
    out
}

/// A copy of `chars`, where there are any.
pub(crate) fn copy_of_option(chars: &Option<Vec<char>>) -> (out: Option<Vec<char>>)
    ensures
        match (chars, out) {
            (Some(a), Some(b)) => a@ == b@,
            (None, None) => true,
            _ => false,
        },
{
    match chars {
        Some(c) => Some(copy_of(c)),
        None => None,
    }
}

/// Appends the characters of `chars` to `out`.
pub(crate) fn append_chars(out: &mut Vec<char>, chars: &[char])
    ensures
        final(out)@ == old(out)@ + chars@,
{
    let mut i: usize = 0;
    while i < chars.len()
        invariant
            i <= chars@.len(),
            out@ == old(out)@ + chars@.subrange(0, i as int),
        decreases chars@.len() - i,
    {
        out.push(chars[i]);
        i += 1;
        assert(chars@.subrange(0, i as int) == chars@.subrange(0, i as int - 1).push(
            chars@[i as int - 1],
        ));
    }
    assert(chars@.subrange(0, chars@.len() as int) == chars@);
}

} // verus!
