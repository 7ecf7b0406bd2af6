//! The order of versions.
//!
//! Versions compare by what their text means, not by the text: numeric
//! components by value and then by width, the letter, the release suffixes by
//! kind and number, and last the revision.

use vstd::prelude::*;
use crate::number::{compare_numbers, number_value};
use crate::order::{
    char_order, compare_int, compare_option, compare_seq, lemma_char_order_total,
    lemma_compare_seq_equal, lemma_compare_seq_flip, lemma_compare_seq_transitive, total_order,
    Order,
};
use crate::version::{suffix_views, views, Suffix, SuffixKind, SuffixView, Version, VersionView};

verus! {

/// A version reduced to what comparison, equality and hashing look at.
pub struct NormalVersion {
    /// Each numeric component as its value and the number of digits written.
    pub components: Seq<(nat, nat)>,
    pub letter: Option<char>,
    /// Each suffix as its kind and its number, 0 where none is written.
    pub suffixes: Seq<(SuffixKind, nat)>,
    /// The revision, 0 where none is written.
    pub revision: nat,
}

/// The value of a number that may be missing: 0 where it is.
pub open spec fn optional_value(d: Option<Seq<char>>) -> nat {
    match d {
        Some(d) => number_value(d),
        None => 0,
    }
}

/// A numeric component as its value and the number of its digits.
pub open spec fn normal_component(d: Seq<char>) -> (nat, nat) {
    (number_value(d), d.len())
}

/// A suffix as its kind and its number, 0 where none is written.
pub open spec fn normal_suffix(s: SuffixView) -> (SuffixKind, nat) {
    (s.kind, optional_value(s.number))
}

impl VersionView {
    /// The version without what does not count: leading zeros are kept only as
    /// width, a missing suffix number and a missing revision are 0.
    pub open spec fn normal(self) -> NormalVersion {
        NormalVersion {
            components: self.components.map_values(|d: Seq<char>| normal_component(d)),
            letter: self.letter,
            suffixes: self.suffixes.map_values(|s: SuffixView| normal_suffix(s)),
            revision: optional_value(self.revision),
        }
    }
}

/// The place of a suffix kind in the order of releases. A version without a
/// suffix stands at 4: after `rc`, before `p`.
pub open spec fn kind_rank(kind: SuffixKind) -> int {
    match kind {
        SuffixKind::Alpha => 0,
        SuffixKind::Beta => 1,
        SuffixKind::Pre => 2,
        SuffixKind::Rc => 3,
        SuffixKind::P => 5,
    }
}

/// Components compare by value, and those of one value by width: the wider
/// comes later.
pub open spec fn compare_component(a: (nat, nat), b: (nat, nat)) -> Order {
    compare_int(a.0 as int, b.0 as int).and_then(compare_int(a.1 as int, b.1 as int))
}

/// The order of components, as a function.
pub open spec fn component_order() -> spec_fn((nat, nat), (nat, nat)) -> Order {
    |a: (nat, nat), b: (nat, nat)| compare_component(a, b)
}

/// Suffixes compare by kind, and those of one kind by number.
pub open spec fn compare_suffix(a: (SuffixKind, nat), b: (SuffixKind, nat)) -> Order {
    compare_int(kind_rank(a.0), kind_rank(b.0)).and_then(compare_int(a.1 as int, b.1 as int))
}

/// Lists of suffixes compare at the first difference. Where one list ends
/// first, the next suffix of the other decides: `p` puts its version later,
/// any other kind earlier.
pub open spec fn compare_suffixes(a: Seq<(SuffixKind, nat)>, b: Seq<(SuffixKind, nat)>) -> Order
    decreases a.len(),
{
    if a.len() == 0 && b.len() == 0 {
        Order::Equal
    } else if a.len() == 0 {
        compare_int(4, kind_rank(b[0].0))
    } else if b.len() == 0 {
        compare_int(kind_rank(a[0].0), 4)
    } else {
        compare_suffix(a[0], b[0]).and_then(compare_suffixes(a.drop_first(), b.drop_first()))
    }
}

/// How two normalized versions compare when their revisions are left aside.
pub open spec fn compare_normal_base(a: NormalVersion, b: NormalVersion) -> Order {
    compare_seq(a.components, b.components, component_order()).and_then(
        compare_option(a.letter, b.letter, char_order()),
    ).and_then(compare_suffixes(a.suffixes, b.suffixes))
}

/// How two normalized versions compare: without their revisions first, and
/// where that does not decide, by revision.
pub open spec fn compare_normal(a: NormalVersion, b: NormalVersion) -> Order {
    compare_normal_base(a, b).and_then(compare_int(a.revision as int, b.revision as int))
}

/// How two versions compare when their revisions are left aside: what the
/// operator `~` of an atom goes by.
pub open spec fn compare_bases(a: VersionView, b: VersionView) -> Order {
    compare_normal_base(a.normal(), b.normal())
}

/// How two versions compare.
pub open spec fn compare_versions(a: VersionView, b: VersionView) -> Order {
    compare_normal(a.normal(), b.normal())
}

// ---------------------------------------------------------------------------
// Laws
// ---------------------------------------------------------------------------

proof fn lemma_component_order_total()
    ensures
        total_order(component_order()),
        total_order(char_order()),
{
    lemma_char_order_total();
}

proof fn lemma_compare_suffixes_flip(a: Seq<(SuffixKind, nat)>, b: Seq<(SuffixKind, nat)>)
    ensures
        compare_suffixes(b, a) == compare_suffixes(a, b).flip(),
    decreases a.len(),
{
    if a.len() > 0 && b.len() > 0 {
        lemma_compare_suffixes_flip(a.drop_first(), b.drop_first());
    }
}

proof fn lemma_compare_suffixes_equal(a: Seq<(SuffixKind, nat)>, b: Seq<(SuffixKind, nat)>)
    ensures
        compare_suffixes(a, b) == Order::Equal <==> a == b,
    decreases a.len(),
{
    if a.len() > 0 && b.len() > 0 {
        lemma_compare_suffixes_equal(a.drop_first(), b.drop_first());
        if a[0] == b[0] && a.drop_first() == b.drop_first() {
            assert(a == seq![a[0]] + a.drop_first());
            assert(b == seq![b[0]] + b.drop_first());
        }
    } else if a.len() == 0 && b.len() == 0 {
        assert(a == b);
    }
}

proof fn lemma_compare_suffixes_transitive(
    a: Seq<(SuffixKind, nat)>,
    b: Seq<(SuffixKind, nat)>,
    c: Seq<(SuffixKind, nat)>,
)
    requires
        compare_suffixes(a, b) == Order::Less,
        compare_suffixes(b, c) == Order::Less,
    ensures
        compare_suffixes(a, c) == Order::Less,
    decreases a.len(),
{
    if a.len() > 0 && b.len() > 0 && c.len() > 0 {
        if compare_suffix(a[0], b[0]) == Order::Equal && compare_suffix(b[0], c[0])
            == Order::Equal {
            lemma_compare_suffixes_transitive(a.drop_first(), b.drop_first(), c.drop_first());
        }
    }
}

/// Exchanging the two versions exchanges `Less` and `Greater`.
pub proof fn lemma_compare_flip(a: NormalVersion, b: NormalVersion)
    ensures
        compare_normal(b, a) == compare_normal(a, b).flip(),
{
    lemma_component_order_total();
    lemma_compare_seq_flip(a.components, b.components, component_order());
    lemma_compare_suffixes_flip(a.suffixes, b.suffixes);
}

/// Two versions compare as equal exactly when their normalized components,
/// letter, suffixes and revision are the same.
pub proof fn lemma_compare_equal(a: NormalVersion, b: NormalVersion)
    ensures
        compare_normal(a, b) == Order::Equal <==> a == b,
{
    lemma_component_order_total();
    lemma_compare_seq_equal(a.components, b.components, component_order());
    lemma_compare_suffixes_equal(a.suffixes, b.suffixes);
}

/// `Less` is transitive.
pub proof fn lemma_compare_transitive(a: NormalVersion, b: NormalVersion, c: NormalVersion)
    requires
        compare_normal(a, b) == Order::Less,
        compare_normal(b, c) == Order::Less,
    ensures
        compare_normal(a, c) == Order::Less,
{
    lemma_component_order_total();
    lemma_compare_seq_equal(a.components, b.components, component_order());
    lemma_compare_seq_equal(b.components, c.components, component_order());
    lemma_compare_seq_equal(a.components, c.components, component_order());
    lemma_compare_suffixes_equal(a.suffixes, b.suffixes);
    lemma_compare_suffixes_equal(b.suffixes, c.suffixes);
    lemma_compare_suffixes_equal(a.suffixes, c.suffixes);
    let x = compare_seq(a.components, b.components, component_order());
    let y = compare_seq(b.components, c.components, component_order());
    if x == Order::Less && y == Order::Less {
        lemma_compare_seq_transitive(a.components, b.components, c.components, component_order());
    }
    let u = compare_suffixes(a.suffixes, b.suffixes);
    let v = compare_suffixes(b.suffixes, c.suffixes);
    if u == Order::Less && v == Order::Less {
        lemma_compare_suffixes_transitive(a.suffixes, b.suffixes, c.suffixes);
    }
}

/// The order of versions is total: of `a < b`, `a == b` and `a > b` exactly one
/// holds, where `a == b` says that the normalized versions are the same and
/// `a > b` that `b < a`.
pub proof fn lemma_order_total(a: VersionView, b: VersionView)
    ensures
        compare_versions(a, b) == Order::Less <==> compare_versions(b, a) == Order::Greater,
        compare_versions(a, b) == Order::Greater <==> compare_versions(b, a) == Order::Less,
        compare_versions(a, b) == Order::Equal <==> a.normal() == b.normal(),
{
    lemma_compare_flip(a.normal(), b.normal());
    lemma_compare_equal(a.normal(), b.normal());
}

/// The order of versions is transitive.
pub proof fn lemma_order_transitive(a: VersionView, b: VersionView, c: VersionView)
    requires
        compare_versions(a, b) == Order::Less,
        compare_versions(b, c) == Order::Less,
    ensures
        compare_versions(a, c) == Order::Less,
{
    lemma_compare_transitive(a.normal(), b.normal(), c.normal());
}

// ---------------------------------------------------------------------------
// Comparing
// ---------------------------------------------------------------------------

fn compare_lengths(a: usize, b: usize) -> (o: Order)
    ensures
        o == compare_int(a as int, b as int),
{
    if a < b {
        Order::Less
    } else if a == b {
        Order::Equal
    } else {
        Order::Greater
    }
}

pub(crate) fn compare_ranks(a: u8, b: u8) -> (o: Order)
    ensures
        o == compare_int(a as int, b as int),
{
    if a < b {
        Order::Less
    } else if a == b {
        Order::Equal
    } else {
        Order::Greater
    }
}

fn rank_of(kind: SuffixKind) -> (r: u8)
    ensures
        r == kind_rank(kind),
{
    match kind {
        SuffixKind::Alpha => 0,
        SuffixKind::Beta => 1,
        SuffixKind::Pre => 2,
        SuffixKind::Rc => 3,
        SuffixKind::P => 5,
    }
}

/// Compares two numbers that may be missing; a missing one counts as 0.
fn compare_optional(a: Option<&Vec<char>>, b: Option<&Vec<char>>) -> (o: Order)
    requires
        a matches Some(d) ==> crate::version::is_number(d@),
        b matches Some(d) ==> crate::version::is_number(d@),
    ensures
        o == compare_int(
            optional_value(
                match a {
                    Some(d) => Some(d@),
                    None => None,
                },
            ) as int,
            optional_value(
                match b {
                    Some(d) => Some(d@),
                    None => None,
                },
            ) as int,
        ),
{
    let none: Vec<char> = Vec::new();
    let x = match a {
        Some(d) => d.as_slice(),
        None => none.as_slice(),
    };
    let y = match b {
        Some(d) => d.as_slice(),
        None => none.as_slice(),
    };
    compare_numbers(x, y)
}

fn compare_component_lists(a: &Vec<Vec<char>>, b: &Vec<Vec<char>>) -> (o: Order)
    requires
        forall|i: int| 0 <= i < a@.len() ==> crate::version::is_number(#[trigger] views(a@)[i]),
        forall|i: int| 0 <= i < b@.len() ==> crate::version::is_number(#[trigger] views(b@)[i]),
    ensures
        o == compare_seq(
            views(a@).map_values(|d: Seq<char>| normal_component(d)),
            views(b@).map_values(|d: Seq<char>| normal_component(d)),
            component_order(),
        ),
{
    let ghost na = views(a@).map_values(|d: Seq<char>| normal_component(d));
    let ghost nb = views(b@).map_values(|d: Seq<char>| normal_component(d));
    let mut i: usize = 0;
    assert(na.skip(0) == na);
    assert(nb.skip(0) == nb);
    while i < a.len() && i < b.len()
        invariant
            i <= a@.len(),
            i <= b@.len(),
            na == views(a@).map_values(|d: Seq<char>| normal_component(d)),
            nb == views(b@).map_values(|d: Seq<char>| normal_component(d)),
            forall|i: int| 0 <= i < a@.len() ==> crate::version::is_number(#[trigger] views(a@)[i]),
            forall|i: int| 0 <= i < b@.len() ==> crate::version::is_number(#[trigger] views(b@)[i]),
            compare_seq(na, nb, component_order()) == compare_seq(
                na.skip(i as int),
                nb.skip(i as int),
                component_order(),
            ),
        decreases a@.len() - i,
    {
        let x = &a[i];
        let y = &b[i];
        proof {
            assert(views(a@)[i as int] == x@);
            assert(views(b@)[i as int] == y@);
            assert(na.skip(i as int)[0] == normal_component(x@));
            assert(nb.skip(i as int)[0] == normal_component(y@));
            assert(na.skip(i as int).drop_first() == na.skip(i as int + 1));
            assert(nb.skip(i as int).drop_first() == nb.skip(i as int + 1));
        }
        let by_value = compare_numbers(x.as_slice(), y.as_slice());
        if by_value != Order::Equal {
            return by_value;
        }
        let by_width = compare_lengths(x.len(), y.len());
        if by_width != Order::Equal {
            return by_width;
        }
        i += 1;
    }
    if i < b.len() {
        Order::Less
    } else if i < a.len() {
        Order::Greater
    } else {
        Order::Equal
    }
}

fn compare_suffix_lists(a: &Vec<Suffix>, b: &Vec<Suffix>) -> (o: Order)
    requires
        forall|i: int|
            0 <= i < a@.len() ==> ((#[trigger] suffix_views(a@)[i]).number matches Some(n)
                ==> crate::version::is_number(n)),
        forall|i: int|
            0 <= i < b@.len() ==> ((#[trigger] suffix_views(b@)[i]).number matches Some(n)
                ==> crate::version::is_number(n)),
    ensures
        o == compare_suffixes(
            suffix_views(a@).map_values(|s: SuffixView| normal_suffix(s)),
            suffix_views(b@).map_values(|s: SuffixView| normal_suffix(s)),
        ),
{
    let ghost na = suffix_views(a@).map_values(|s: SuffixView| normal_suffix(s));
    let ghost nb = suffix_views(b@).map_values(|s: SuffixView| normal_suffix(s));
    let mut i: usize = 0;
    assert(na.skip(0) == na);
    assert(nb.skip(0) == nb);
    while i < a.len() && i < b.len()
        invariant
            i <= a@.len(),
            i <= b@.len(),
            na == suffix_views(a@).map_values(|s: SuffixView| normal_suffix(s)),
            nb == suffix_views(b@).map_values(|s: SuffixView| normal_suffix(s)),
            forall|i: int|
                0 <= i < a@.len() ==> ((#[trigger] suffix_views(a@)[i]).number matches Some(n)
                    ==> crate::version::is_number(n)),
            forall|i: int|
                0 <= i < b@.len() ==> ((#[trigger] suffix_views(b@)[i]).number matches Some(n)
                    ==> crate::version::is_number(n)),
            compare_suffixes(na, nb) == compare_suffixes(na.skip(i as int), nb.skip(i as int)),
        decreases a@.len() - i,
    {
        let x = &a[i];
        let y = &b[i];
        proof {
            assert(suffix_views(a@)[i as int] == x@);
            assert(suffix_views(b@)[i as int] == y@);
            assert(na.skip(i as int)[0] == normal_suffix(x@));
            assert(nb.skip(i as int)[0] == normal_suffix(y@));
            assert(na.skip(i as int).drop_first() == na.skip(i as int + 1));
            assert(nb.skip(i as int).drop_first() == nb.skip(i as int + 1));
        }
        let by_kind = compare_ranks(rank_of(x.kind), rank_of(y.kind));
        if by_kind != Order::Equal {
            return by_kind;
        }
        let by_number = compare_optional(x.number.as_ref(), y.number.as_ref());
        if by_number != Order::Equal {
            return by_number;
        }
        i += 1;
    }
    if i < b.len() {
        proof {
            assert(suffix_views(b@)[i as int] == b@[i as int]@);
            assert(nb.skip(i as int)[0] == normal_suffix(b@[i as int]@));
        }
        compare_ranks(4, rank_of(b[i].kind))
    } else if i < a.len() {
        proof {
            assert(suffix_views(a@)[i as int] == a@[i as int]@);
            assert(na.skip(i as int)[0] == normal_suffix(a@[i as int]@));
        }
        compare_ranks(rank_of(a[i].kind), 4)
    } else {
        Order::Equal
    }
}

fn compare_letters(a: Option<char>, b: Option<char>) -> (o: Order)
    ensures
        o == compare_option(a, b, char_order()),
{
    match (a, b) {
        (None, None) => Order::Equal,
        (None, Some(_)) => Order::Less,
        (Some(_), None) => Order::Greater,
        (Some(x), Some(y)) => {
            if x < y {
                Order::Less
            } else if x == y {
                Order::Equal
            } else {
                Order::Greater
            }
        },
    }
}

impl Version {
    /// How this version compares with `other` when the revisions are left
    /// aside.
    pub fn compare_base(&self, other: &Version) -> (o: Order)
        ensures
            o == compare_bases(self@, other@),
    {
        let by_components = compare_component_lists(self.components(), other.components());
        if by_components != Order::Equal {
            return by_components;
        }
        let by_letter = compare_letters(self.letter(), other.letter());
        if by_letter != Order::Equal {
            return by_letter;
        }
        compare_suffix_lists(self.suffixes(), other.suffixes())
    }

    /// How this version compares with `other`.
    pub fn compare(&self, other: &Version) -> (o: Order)
        ensures
            o == compare_versions(self@, other@),
    {
        let by_base = self.compare_base(other);
        if by_base != Order::Equal {
            return by_base;
        }
        compare_optional(self.revision_digits(), other.revision_digits())
    }
}

} // verus!
