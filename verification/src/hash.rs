//! Hashes of versions and atoms.
//!
//! A hash is computed from the normalized form alone, so values that are equal
//! have one hash. The hash is a polynomial over the parts, taken modulo 2^64.

use vstd::arithmetic::div_mod::{
    lemma_add_mod_noop, lemma_add_mod_noop_right, lemma_mul_mod_noop_left, lemma_small_mod,
};
use vstd::prelude::*;
use crate::atom::{use_dep_views, Atom, AtomView, Operator, Slot, SlotView, UseDep, UseDepView};
use crate::atom_order::{
    default_rank, operator_rank, slot_operator_rank, use_dep_kind_rank, NormalAtom,
};
use crate::number::number_value;
use crate::text::{all_in, CharClass};
use crate::version::{
    is_number, suffix_views, views, SuffixKind, SuffixView, Version, VersionView,
};
use crate::version_order::{
    kind_rank, normal_component, normal_suffix, optional_value, NormalVersion,
};

verus! {

/// The hash `h` with the number `x` taken in.
#[verifier::opaque]
pub open spec fn hash_step(h: nat, x: nat) -> nat {
    ((h * 1099511628211 + x) % 0x1_0000_0000_0000_0000) as nat
}

/// The hash that every hash starts from.
pub open spec fn hash_seed() -> nat {
    14695981039346656037
}

/// The hash `h` with the components taken in, each by value and width.
pub open spec fn hash_components(h: nat, c: Seq<(nat, nat)>) -> nat
    decreases c.len(),
{
    if c.len() == 0 {
        h
    } else {
        hash_components(hash_step(hash_step(h, c[0].0), c[0].1), c.drop_first())
    }
}

/// The hash `h` with the suffixes taken in, each by kind and number.
pub open spec fn hash_suffixes(h: nat, s: Seq<(SuffixKind, nat)>) -> nat
    decreases s.len(),
{
    if s.len() == 0 {
        h
    } else {
        hash_suffixes(hash_step(hash_step(h, kind_rank(s[0].0) as nat), s[0].1), s.drop_first())
    }
}

/// The number taken in for the letter: its code point, 0 where there is none.
pub open spec fn letter_code(letter: Option<char>) -> nat {
    match letter {
        Some(c) => c as nat,
        None => 0,
    }
}

/// The hash `h` with a normalized version taken in.
pub open spec fn hash_normal(h: nat, v: NormalVersion) -> nat {
    let a = hash_components(hash_step(h, v.components.len()), v.components);
    let b = hash_step(a, letter_code(v.letter));
    let c = hash_suffixes(hash_step(b, v.suffixes.len()), v.suffixes);
    hash_step(c, v.revision)
}

/// The hash of a version.
pub open spec fn hash_version(v: VersionView) -> nat {
    hash_normal(hash_seed(), v.normal())
}

/// The hash `h` with the characters taken in, each by its code point.
pub open spec fn hash_chars(h: nat, s: Seq<char>) -> nat
    decreases s.len(),
{
    if s.len() == 0 {
        h
    } else {
        hash_chars(hash_step(h, s[0] as nat), s.drop_first())
    }
}

/// The hash `h` with a text taken in: its length, then its characters.
pub open spec fn hash_text(h: nat, s: Seq<char>) -> nat {
    hash_chars(hash_step(h, s.len()), s)
}

/// The hash `h` with a text that may be missing taken in.
pub open spec fn hash_optional_text(h: nat, s: Option<Seq<char>>) -> nat {
    match s {
        Some(s) => hash_text(hash_step(h, 1), s),
        None => hash_step(h, 0),
    }
}

/// The hash `h` with a USE dependency taken in.
pub open spec fn hash_use_dep(h: nat, d: UseDepView) -> nat {
    hash_step(
        hash_step(hash_text(h, d.flag), use_dep_kind_rank(d.kind) as nat),
        default_rank(d.default) as nat,
    )
}

/// The hash `h` with the USE dependencies taken in.
pub open spec fn hash_use_deps(h: nat, d: Seq<UseDepView>) -> nat
    decreases d.len(),
{
    if d.len() == 0 {
        h
    } else {
        hash_use_deps(hash_use_dep(h, d[0]), d.drop_first())
    }
}

/// The hash `h` with a slot clause taken in.
pub open spec fn hash_slot(h: nat, s: SlotView) -> nat {
    hash_step(
        hash_optional_text(hash_text(h, s.name), s.subslot),
        match s.operator {
            Some(op) => (slot_operator_rank(op) + 1) as nat,
            None => 0,
        },
    )
}

/// The hash of a normalized atom.
pub open spec fn hash_normal_atom(a: NormalAtom) -> nat {
    let h = hash_text(hash_text(hash_seed(), a.category), a.package);
    let h = match a.version {
        Some((op, v)) => hash_normal(hash_step(hash_step(h, 1), operator_rank(op) as nat), v),
        None => hash_step(h, 0),
    };
    let h = match a.slot {
        Some(s) => hash_slot(hash_step(h, 1), s),
        None => hash_step(h, 0),
    };
    let h = match a.use_deps {
        Some(d) => hash_use_deps(hash_step(hash_step(h, 1), d.len()), d),
        None => hash_step(h, 0),
    };
    hash_optional_text(h, a.repo)
}

/// The hash of an atom.
pub open spec fn hash_atom(a: AtomView) -> nat {
    hash_normal_atom(a.normal())
}

/// Versions that are equal have one hash.
pub proof fn lemma_equal_versions_hash_alike(a: VersionView, b: VersionView)
    requires
        a.normal() == b.normal(),
    ensures
        hash_version(a) == hash_version(b),
{
}

/// Atoms that are equal have one hash.
pub proof fn lemma_equal_atoms_hash_alike(a: AtomView, b: AtomView)
    requires
        a.normal() == b.normal(),
    ensures
        hash_atom(a) == hash_atom(b),
{
}

// ---------------------------------------------------------------------------
// Hashing
// ---------------------------------------------------------------------------

fn step(h: u64, x: u64) -> (r: u64)
    ensures
        r == hash_step(h as nat, x as nat),
{
    let m = h.wrapping_mul(1099511628211);
    proof {
        reveal(hash_step);
        let big = 0x1_0000_0000_0000_0000int;
        lemma_small_mod(x as nat, big as nat);
        lemma_add_mod_noop(h * 1099511628211, x as int, big);
        if m + x > u64::MAX {
            assert((m + x) % big == m + x - big) by {
                lemma_small_mod((m + x - big) as nat, big as nat);
                vstd::arithmetic::div_mod::lemma_mod_add_multiples_vanish(m + x - big, big);
            }
        } else {
            lemma_small_mod((m + x) as nat, big as nat);
        }
    }
    m.wrapping_add(x)
}

/// Takes in a number given by its digits.
fn step_number(h: u64, d: &[char]) -> (r: u64)
    requires
        all_in(d@, CharClass::Digit),
    ensures
        r == hash_step(h as nat, number_value(d@)),
{
    let mut acc: u64 = 0;
    let mut i: usize = 0;
    let ghost big = 0x1_0000_0000_0000_0000int;
    assert(d@.take(0).len() == 0);
    while i < d.len()
        invariant
            i <= d@.len(),
            all_in(d@, CharClass::Digit),
            big == 0x1_0000_0000_0000_0000int,
            acc == number_value(d@.take(i as int)) % (big as nat),
        decreases d@.len() - i,
    {
        let c = d[i];
        assert(CharClass::Digit.has(d@[i as int]));
        let digit: u64 = (c as u32 - '0' as u32) as u64;
        let ghost before = number_value(d@.take(i as int));
        let scaled = acc.wrapping_mul(10);
        proof {
            let next = d@.take(i as int + 1);
            assert(next.drop_last() =~= d@.take(i as int));
            assert(next.last() == c);
            assert(number_value(next) == before * 10 + digit);
            lemma_mul_mod_noop_left(before as int, 10, big);
            lemma_small_mod(digit as nat, big as nat);
            lemma_add_mod_noop((before * 10) as int, digit as int, big);
            if scaled + digit > u64::MAX {
                assert((scaled + digit) % big == scaled + digit - big) by {
                    lemma_small_mod((scaled + digit - big) as nat, big as nat);
                    vstd::arithmetic::div_mod::lemma_mod_add_multiples_vanish(
                        scaled + digit - big,
                        big,
                    );
                }
            } else {
                lemma_small_mod((scaled + digit) as nat, big as nat);
            }
        }
        acc = scaled.wrapping_add(digit);
        i += 1;
    }
    proof {
        reveal(hash_step);
        assert(d@.take(d@.len() as int) =~= d@);
        lemma_add_mod_noop_right(h * 1099511628211, number_value(d@) as int, big);
    }
    step(h, acc)
}

/// Takes in a number that may be missing; a missing one counts as 0.
fn step_optional(h: u64, d: Option<&Vec<char>>) -> (r: u64)
    requires
        d matches Some(x) ==> is_number(x@),
    ensures
        r == hash_step(
            h as nat,
            optional_value(
                match d {
                    Some(x) => Some(x@),
                    None => None,
                },
            ),
        ),
{
    match d {
        Some(x) => step_number(h, x.as_slice()),
        None => step(h, 0),
    }
}

/// The code point of a character.
fn code_of(c: char) -> (r: u64)
    ensures
        r == c as nat,
{
    (c as u32) as u64
}

fn step_length(h: u64, n: usize) -> (r: u64)
    ensures
        r == hash_step(h as nat, n as nat),
{
    step(h, n as u64)
}

fn step_chars(h: u64, s: &[char]) -> (r: u64)
    ensures
        r == hash_text(h as nat, s@),
{
    let mut r = step_length(h, s.len());
    let ghost whole = hash_text(h as nat, s@);
    let mut i: usize = 0;
    assert(s@.skip(0) =~= s@);
    while i < s.len()
        invariant
            i <= s@.len(),
            whole == hash_chars(r as nat, s@.skip(i as int)),
        decreases s@.len() - i,
    {
        proof {
            assert(s@.skip(i as int)[0] == s@[i as int]);
            assert(s@.skip(i as int).drop_first() =~= s@.skip(i as int + 1));
        }
        let code = code_of(s[i]);
        r = step(r, code);
        i += 1;
    }
    r
}

fn step_optional_chars(h: u64, s: Option<&Vec<char>>) -> (r: u64)
    ensures
        r == hash_optional_text(
            h as nat,
            match s {
                Some(x) => Some(x@),
                None => None,
            },
        ),
{
    match s {
        Some(x) => step_chars(step(h, 1), x.as_slice()),
        None => step(h, 0),
    }
}

fn step_version(h: u64, v: &Version) -> (r: u64)
    ensures
        r == hash_normal(h as nat, v@.normal()),
{
    let components = v.components();
    let ghost nc = v@.normal().components;
    let mut r = step_length(h, components.len());
    let mut i: usize = 0;
    assert(nc.skip(0) =~= nc);
    while i < components.len()
        invariant
            i <= components@.len(),
            nc == views(components@).map_values(|d: Seq<char>| normal_component(d)),
            forall|k: int| 0 <= k < components@.len() ==> is_number(#[trigger] views(components@)[k]),
            hash_components(hash_step(h as nat, nc.len()), nc) == hash_components(
                r as nat,
                nc.skip(i as int),
            ),
        decreases components@.len() - i,
    {
        let d = &components[i];
        proof {
            assert(views(components@)[i as int] == d@);
            assert(nc.skip(i as int)[0] == normal_component(d@));
            assert(nc.skip(i as int).drop_first() =~= nc.skip(i as int + 1));
        }
        r = step_number(r, d.as_slice());
        r = step_length(r, d.len());
        i += 1;
    }
    r = match v.letter() {
        Some(c) => step(r, code_of(c)),
        None => step(r, 0),
    };
    let suffixes = v.suffixes();
    let ghost ns = v@.normal().suffixes;
    let ghost start = r as nat;
    r = step_length(r, suffixes.len());
    let mut j: usize = 0;
    assert(ns.skip(0) =~= ns);
    while j < suffixes.len()
        invariant
            j <= suffixes@.len(),
            ns == suffix_views(suffixes@).map_values(|s: SuffixView| normal_suffix(s)),
            forall|k: int|
                0 <= k < suffixes@.len() ==> ((#[trigger] suffix_views(suffixes@)[k]).number matches Some(
                    n,
                ) ==> is_number(n)),
            hash_suffixes(hash_step(start, ns.len()), ns) == hash_suffixes(
                r as nat,
                ns.skip(j as int),
            ),
        decreases suffixes@.len() - j,
    {
        let s = &suffixes[j];
        proof {
            assert(suffix_views(suffixes@)[j as int] == s@);
            assert(ns.skip(j as int)[0] == normal_suffix(s@));
            assert(ns.skip(j as int).drop_first() =~= ns.skip(j as int + 1));
        }
        let rank: u64 = match s.kind {
            SuffixKind::Alpha => 0,
            SuffixKind::Beta => 1,
            SuffixKind::Pre => 2,
            SuffixKind::Rc => 3,
            SuffixKind::P => 5,
        };
        r = step(r, rank);
        r = step_optional(r, s.number.as_ref());
        j += 1;
    }
    step_optional(r, v.revision_digits())
}

fn step_use_dep(h: u64, d: &UseDep) -> (r: u64)
    ensures
        r == hash_use_dep(h as nat, d@),
{
    let r = step_chars(h, d.flag.as_slice());
    let kind: u64 = match d.kind {
        crate::atom::UseDepKind::Enabled => 0,
        crate::atom::UseDepKind::Disabled => 1,
        crate::atom::UseDepKind::ConditionalEnabled => 2,
        crate::atom::UseDepKind::ConditionalDisabled => 3,
        crate::atom::UseDepKind::Equal => 4,
        crate::atom::UseDepKind::NotEqual => 5,
    };
    let default: u64 = match d.default {
        None => 0,
        Some(false) => 1,
        Some(true) => 2,
    };
    step(step(r, kind), default)
}

fn step_slot(h: u64, s: &Slot) -> (r: u64)
    ensures
        r == hash_slot(h as nat, s@),
{
    let r = step_chars(h, s.name.as_slice());
    let r = step_optional_chars(r, s.subslot.as_ref());
    let operator: u64 = match s.operator {
        Some(crate::atom::SlotOperator::Equal) => 1,
        Some(crate::atom::SlotOperator::Star) => 2,
        None => 0,
    };
    step(r, operator)
}

impl Version {
    /// The hash of the version. Versions that are equal have one hash.
    pub fn hash(&self) -> (h: u64)
        ensures
            h == hash_version(self@),
    {
        step_version(14695981039346656037, self)
    }
}

impl Atom {
    /// The hash of the atom. Atoms that are equal have one hash.
    pub fn hash(&self) -> (h: u64)
        ensures
            h == hash_atom(self@),
    {
        let h = step_chars(14695981039346656037, self.category_chars().as_slice());
        let h = step_chars(h, self.package_chars().as_slice());
        let h = match self.version_spec() {
            Some((op, v)) => {
                let rank: u64 = match op {
                    Operator::Less => 0,
                    Operator::LessOrEqual => 1,
                    Operator::Equal => 2,
                    Operator::EqualGlob => 3,
                    Operator::Approximate => 4,
                    Operator::GreaterOrEqual => 5,
                    Operator::Greater => 6,
                };
                step_version(step(step(h, 1), rank), v)
            },
            None => step(h, 0),
        };
        let h = match self.slot_clause() {
            Some(s) => step_slot(step(h, 1), s),
            None => step(h, 0),
        };
        let h = match self.use_dep_list() {
            Some(deps) => {
                let ghost d = use_dep_views(deps@);
                let mut r = step_length(step(h, 1), deps.len());
                let ghost start = r as nat;
                let mut i: usize = 0;
                assert(d.skip(0) =~= d);
                while i < deps.len()
                    invariant
                        i <= deps@.len(),
                        d == use_dep_views(deps@),
                        hash_use_deps(start, d) == hash_use_deps(r as nat, d.skip(i as int)),
                    decreases deps@.len() - i,
                {
                    proof {
                        assert(d.skip(i as int)[0] == deps@[i as int]@);
                        assert(d.skip(i as int).drop_first() =~= d.skip(i as int + 1));
                    }
                    r = step_use_dep(r, &deps[i]);
                    i += 1;
                }
                r
            },
            None => step(h, 0),
        };
        step_optional_chars(h, self.repo_chars())
    }
}

} // verus!
