//! The order of atoms.
//!
//! Atoms compare part by part: category, package, version and operator, slot
//! clause, USE dependencies, repository. Names compare character by
//! character, versions by what they mean, and a part that is missing comes
//! before one that is there.

use vstd::prelude::*;
use crate::atom::{
    use_dep_views, Atom, AtomView, Operator, Slot, SlotOperator, SlotView, UseDep, UseDepKind,
    UseDepView,
};
use crate::order::{
    char_order, compare_int, compare_option, compare_seq, lemma_char_order_total,
    lemma_compare_seq_equal, lemma_compare_seq_flip, lemma_compare_seq_transitive, total_order,
    Order,
};
use crate::version_order::{
    compare_normal, compare_ranks, lemma_compare_equal, lemma_compare_flip,
    lemma_compare_transitive, NormalVersion,
};

verus! {

/// An atom reduced to what comparison, equality and hashing look at: the
/// atom with its version normalized.
pub struct NormalAtom {
    pub category: Seq<char>,
    pub package: Seq<char>,
    pub version: Option<(Operator, NormalVersion)>,
    pub slot: Option<SlotView>,
    pub use_deps: Option<Seq<UseDepView>>,
    pub repo: Option<Seq<char>>,
}

impl AtomView {
    /// The atom with its version normalized.
    pub open spec fn normal(self) -> NormalAtom {
        NormalAtom {
            category: self.category,
            package: self.package,
            version: match self.version {
                Some((op, v)) => Some((op, v.normal())),
                None => None,
            },
            slot: self.slot,
            use_deps: self.use_deps,
            repo: self.repo,
        }
    }
}

/// The place of an operator among the operators: `<`, `<=`, `=`, `=*`, `~`,
/// `>=`, `>`.
pub open spec fn operator_rank(op: Operator) -> int {
    match op {
        Operator::Less => 0,
        Operator::LessOrEqual => 1,
        Operator::Equal => 2,
        Operator::EqualGlob => 3,
        Operator::Approximate => 4,
        Operator::GreaterOrEqual => 5,
        Operator::Greater => 6,
    }
}

/// The place of a slot operator: `=` before `*`.
pub open spec fn slot_operator_rank(op: SlotOperator) -> int {
    match op {
        SlotOperator::Equal => 0,
        SlotOperator::Star => 1,
    }
}

/// The place of a form of USE dependency among the forms.
pub open spec fn use_dep_kind_rank(kind: UseDepKind) -> int {
    match kind {
        UseDepKind::Enabled => 0,
        UseDepKind::Disabled => 1,
        UseDepKind::ConditionalEnabled => 2,
        UseDepKind::ConditionalDisabled => 3,
        UseDepKind::Equal => 4,
        UseDepKind::NotEqual => 5,
    }
}

/// No default, then `(-)`, then `(+)`.
pub open spec fn default_rank(default: Option<bool>) -> int {
    match default {
        None => 0,
        Some(false) => 1,
        Some(true) => 2,
    }
}

/// Texts compare character by character; a text comes before those that
/// extend it.
pub open spec fn compare_text(a: Seq<char>, b: Seq<char>) -> Order {
    compare_seq(a, b, char_order())
}

/// The order of texts, as a function.
pub open spec fn text_order() -> spec_fn(Seq<char>, Seq<char>) -> Order {
    |a: Seq<char>, b: Seq<char>| compare_text(a, b)
}

/// Versioned atoms compare by version and then by operator.
pub open spec fn compare_versioned(
    a: (Operator, NormalVersion),
    b: (Operator, NormalVersion),
) -> Order {
    compare_normal(a.1, b.1).and_then(compare_int(operator_rank(a.0), operator_rank(b.0)))
}

/// The order of versions with their operators, as a function.
pub open spec fn versioned_order() -> spec_fn(
    (Operator, NormalVersion),
    (Operator, NormalVersion),
) -> Order {
    |a: (Operator, NormalVersion), b: (Operator, NormalVersion)| compare_versioned(a, b)
}

/// The order of slot operators, as a function.
pub open spec fn slot_operator_order() -> spec_fn(SlotOperator, SlotOperator) -> Order {
    |a: SlotOperator, b: SlotOperator| compare_int(slot_operator_rank(a), slot_operator_rank(b))
}

/// Slot clauses compare by name, then by sub-slot, then by operator.
pub open spec fn compare_slot(a: SlotView, b: SlotView) -> Order {
    compare_text(a.name, b.name).and_then(
        compare_option(a.subslot, b.subslot, text_order()),
    ).and_then(compare_option(a.operator, b.operator, slot_operator_order()))
}

/// The order of slot clauses, as a function.
pub open spec fn slot_order() -> spec_fn(SlotView, SlotView) -> Order {
    |a: SlotView, b: SlotView| compare_slot(a, b)
}

/// USE dependencies compare by flag, then by form, then by default.
pub open spec fn compare_use_dep(a: UseDepView, b: UseDepView) -> Order {
    compare_text(a.flag, b.flag).and_then(
        compare_int(use_dep_kind_rank(a.kind), use_dep_kind_rank(b.kind)),
    ).and_then(compare_int(default_rank(a.default), default_rank(b.default)))
}

/// The order of USE dependencies, as a function.
pub open spec fn use_dep_order() -> spec_fn(UseDepView, UseDepView) -> Order {
    |a: UseDepView, b: UseDepView| compare_use_dep(a, b)
}

/// The order of lists of USE dependencies, as a function.
pub open spec fn use_deps_order() -> spec_fn(Seq<UseDepView>, Seq<UseDepView>) -> Order {
    |a: Seq<UseDepView>, b: Seq<UseDepView>| compare_seq(a, b, use_dep_order())
}

/// How two normalized atoms compare.
pub open spec fn compare_normal_atoms(a: NormalAtom, b: NormalAtom) -> Order {
    compare_text(a.category, b.category).and_then(compare_text(a.package, b.package)).and_then(
        compare_option(a.version, b.version, versioned_order()),
    ).and_then(compare_option(a.slot, b.slot, slot_order())).and_then(
        compare_option(a.use_deps, b.use_deps, use_deps_order()),
    ).and_then(compare_option(a.repo, b.repo, text_order()))
}

/// How two atoms compare.
pub open spec fn compare_atoms(a: AtomView, b: AtomView) -> Order {
    compare_normal_atoms(a.normal(), b.normal())
}

// ---------------------------------------------------------------------------
// Laws
// ---------------------------------------------------------------------------

/// The order of optional values is total where the order of the values is.
pub proof fn lemma_option_order_total<T>(f: spec_fn(T, T) -> Order)
    requires
        total_order(f),
    ensures
        total_order(|a: Option<T>, b: Option<T>| compare_option(a, b, f)),
{
    let g = |a: Option<T>, b: Option<T>| compare_option(a, b, f);
    assert forall|a: Option<T>, b: Option<T>| #[trigger] g(b, a) == g(a, b).flip() by {
        if a is Some && b is Some {
            assert(f(b->0, a->0) == f(a->0, b->0).flip());
        }
    }
    assert forall|a: Option<T>, b: Option<T>| #[trigger] g(a, b) == Order::Equal <==> a == b by {
        if a is Some && b is Some {
            assert(f(a->0, b->0) == Order::Equal <==> a->0 == b->0);
        }
    }
    assert forall|a: Option<T>, b: Option<T>, c: Option<T>|
        #[trigger] g(a, b) == Order::Less && #[trigger] g(b, c) == Order::Less implies g(a, c)
        == Order::Less by {
        if a is Some && b is Some && c is Some {
            assert(f(a->0, b->0) == Order::Less && f(b->0, c->0) == Order::Less);
        }
    }
}

/// The order of texts is total.
pub proof fn lemma_text_order_total()
    ensures
        total_order(text_order()),
{
    let g = text_order();
    lemma_char_order_total();
    assert forall|a: Seq<char>, b: Seq<char>| #[trigger] g(b, a) == g(a, b).flip() by {
        lemma_compare_seq_flip(a, b, char_order());
    }
    assert forall|a: Seq<char>, b: Seq<char>| #[trigger] g(a, b) == Order::Equal <==> a == b by {
        lemma_compare_seq_equal(a, b, char_order());
    }
    assert forall|a: Seq<char>, b: Seq<char>, c: Seq<char>|
        #[trigger] g(a, b) == Order::Less && #[trigger] g(b, c) == Order::Less implies g(a, c)
        == Order::Less by {
        lemma_compare_seq_transitive(a, b, c, char_order());
    }
}

proof fn lemma_versioned_order_total()
    ensures
        total_order(versioned_order()),
{
    let g = versioned_order();
    assert forall|a: (Operator, NormalVersion), b: (Operator, NormalVersion)| #[trigger]
        g(b, a) == g(a, b).flip() by {
        lemma_compare_flip(a.1, b.1);
    }
    assert forall|a: (Operator, NormalVersion), b: (Operator, NormalVersion)| #[trigger]
        g(a, b) == Order::Equal <==> a == b by {
        lemma_compare_equal(a.1, b.1);
    }
    assert forall|
        a: (Operator, NormalVersion),
        b: (Operator, NormalVersion),
        c: (Operator, NormalVersion),
    |
        #[trigger] g(a, b) == Order::Less && #[trigger] g(b, c) == Order::Less implies g(a, c)
        == Order::Less by {
        lemma_compare_equal(a.1, b.1);
        lemma_compare_equal(b.1, c.1);
        lemma_compare_equal(a.1, c.1);
        if compare_normal(a.1, b.1) == Order::Less && compare_normal(b.1, c.1) == Order::Less {
            lemma_compare_transitive(a.1, b.1, c.1);
        }
    }
}

proof fn lemma_slot_order_total()
    ensures
        total_order(slot_order()),
{
    let g = slot_order();
    lemma_text_order_total();
    let t = text_order();
    assert forall|a: SlotView, b: SlotView| #[trigger] g(b, a) == g(a, b).flip() by {
        assert(t(b.name, a.name) == t(a.name, b.name).flip());
        if a.subslot is Some && b.subslot is Some {
            assert(t(b.subslot->0, a.subslot->0) == t(a.subslot->0, b.subslot->0).flip());
        }
    }
    assert forall|a: SlotView, b: SlotView| #[trigger] g(a, b) == Order::Equal <==> a == b by {
        assert(t(a.name, b.name) == Order::Equal <==> a.name == b.name);
        if a.subslot is Some && b.subslot is Some {
            assert(t(a.subslot->0, b.subslot->0) == Order::Equal <==> a.subslot->0
                == b.subslot->0);
        }
    }
    assert forall|a: SlotView, b: SlotView, c: SlotView|
        #[trigger] g(a, b) == Order::Less && #[trigger] g(b, c) == Order::Less implies g(a, c)
        == Order::Less by {
        assert(t(a.name, b.name) == Order::Equal <==> a.name == b.name);
        assert(t(b.name, c.name) == Order::Equal <==> b.name == c.name);
        if t(a.name, b.name) == Order::Less && t(b.name, c.name) == Order::Less {
            assert(t(a.name, c.name) == Order::Less);
        }
        if a.subslot is Some && b.subslot is Some && c.subslot is Some {
            let x = a.subslot->0;
            let y = b.subslot->0;
            let z = c.subslot->0;
            assert(t(x, y) == Order::Equal <==> x == y);
            assert(t(y, z) == Order::Equal <==> y == z);
            if t(x, y) == Order::Less && t(y, z) == Order::Less {
                assert(t(x, z) == Order::Less);
            }
        }
    }
}

proof fn lemma_use_dep_order_total()
    ensures
        total_order(use_dep_order()),
{
    let g = use_dep_order();
    lemma_text_order_total();
    let t = text_order();
    assert forall|a: UseDepView, b: UseDepView| #[trigger] g(b, a) == g(a, b).flip() by {
        assert(t(b.flag, a.flag) == t(a.flag, b.flag).flip());
    }
    assert forall|a: UseDepView, b: UseDepView| #[trigger] g(a, b) == Order::Equal <==> a == b by {
        assert(t(a.flag, b.flag) == Order::Equal <==> a.flag == b.flag);
    }
    assert forall|a: UseDepView, b: UseDepView, c: UseDepView|
        #[trigger] g(a, b) == Order::Less && #[trigger] g(b, c) == Order::Less implies g(a, c)
        == Order::Less by {
        assert(t(a.flag, b.flag) == Order::Equal <==> a.flag == b.flag);
        assert(t(b.flag, c.flag) == Order::Equal <==> b.flag == c.flag);
        if t(a.flag, b.flag) == Order::Less && t(b.flag, c.flag) == Order::Less {
            assert(t(a.flag, c.flag) == Order::Less);
        }
    }
}

proof fn lemma_use_deps_order_total()
    ensures
        total_order(use_deps_order()),
{
    let g = use_deps_order();
    lemma_use_dep_order_total();
    assert forall|a: Seq<UseDepView>, b: Seq<UseDepView>| #[trigger] g(b, a) == g(a, b).flip() by {
        lemma_compare_seq_flip(a, b, use_dep_order());
    }
    assert forall|a: Seq<UseDepView>, b: Seq<UseDepView>| #[trigger]
        g(a, b) == Order::Equal <==> a == b by {
        lemma_compare_seq_equal(a, b, use_dep_order());
    }
    assert forall|a: Seq<UseDepView>, b: Seq<UseDepView>, c: Seq<UseDepView>|
        #[trigger] g(a, b) == Order::Less && #[trigger] g(b, c) == Order::Less implies g(a, c)
        == Order::Less by {
        lemma_compare_seq_transitive(a, b, c, use_dep_order());
    }
}

/// The order of the parts, each seen as an order of optional parts.
proof fn lemma_part_orders_total()
    ensures
        total_order(text_order()),
        total_order(|a: Option<(Operator, NormalVersion)>, b: Option<(Operator, NormalVersion)>|
            compare_option(a, b, versioned_order())),
        total_order(|a: Option<SlotView>, b: Option<SlotView>| compare_option(a, b, slot_order())),
        total_order(|a: Option<Seq<UseDepView>>, b: Option<Seq<UseDepView>>|
            compare_option(a, b, use_deps_order())),
        total_order(|a: Option<Seq<char>>, b: Option<Seq<char>>| compare_option(a, b, text_order())),
{
    lemma_text_order_total();
    lemma_versioned_order_total();
    lemma_slot_order_total();
    lemma_use_deps_order_total();
    lemma_option_order_total(versioned_order());
    lemma_option_order_total(slot_order());
    lemma_option_order_total(use_deps_order());
    lemma_option_order_total(text_order());
}

/// Exchanging the two atoms exchanges `Less` and `Greater`.
pub proof fn lemma_compare_atoms_flip(a: NormalAtom, b: NormalAtom)
    ensures
        compare_normal_atoms(b, a) == compare_normal_atoms(a, b).flip(),
{
    lemma_part_orders_total();
    let t = text_order();
    let v = |a: Option<(Operator, NormalVersion)>, b: Option<(Operator, NormalVersion)>|
        compare_option(a, b, versioned_order());
    let s = |a: Option<SlotView>, b: Option<SlotView>| compare_option(a, b, slot_order());
    let u = |a: Option<Seq<UseDepView>>, b: Option<Seq<UseDepView>>|
        compare_option(a, b, use_deps_order());
    let r = |a: Option<Seq<char>>, b: Option<Seq<char>>| compare_option(a, b, text_order());
    assert(t(b.category, a.category) == t(a.category, b.category).flip());
    assert(t(b.package, a.package) == t(a.package, b.package).flip());
    assert(v(b.version, a.version) == v(a.version, b.version).flip());
    assert(s(b.slot, a.slot) == s(a.slot, b.slot).flip());
    assert(u(b.use_deps, a.use_deps) == u(a.use_deps, b.use_deps).flip());
    assert(r(b.repo, a.repo) == r(a.repo, b.repo).flip());
}

/// Two atoms compare as equal exactly when they are the same but for what
/// normalizing their versions removes.
pub proof fn lemma_compare_atoms_equal(a: NormalAtom, b: NormalAtom)
    ensures
        compare_normal_atoms(a, b) == Order::Equal <==> a == b,
{
    lemma_part_orders_total();
    let t = text_order();
    let v = |a: Option<(Operator, NormalVersion)>, b: Option<(Operator, NormalVersion)>|
        compare_option(a, b, versioned_order());
    let s = |a: Option<SlotView>, b: Option<SlotView>| compare_option(a, b, slot_order());
    let u = |a: Option<Seq<UseDepView>>, b: Option<Seq<UseDepView>>|
        compare_option(a, b, use_deps_order());
    let r = |a: Option<Seq<char>>, b: Option<Seq<char>>| compare_option(a, b, text_order());
    assert(t(a.category, b.category) == Order::Equal <==> a.category == b.category);
    assert(t(a.package, b.package) == Order::Equal <==> a.package == b.package);
    assert(v(a.version, b.version) == Order::Equal <==> a.version == b.version);
    assert(s(a.slot, b.slot) == Order::Equal <==> a.slot == b.slot);
    assert(u(a.use_deps, b.use_deps) == Order::Equal <==> a.use_deps == b.use_deps);
    assert(r(a.repo, b.repo) == Order::Equal <==> a.repo == b.repo);
}

/// `Less` is transitive.
pub proof fn lemma_compare_atoms_transitive(a: NormalAtom, b: NormalAtom, c: NormalAtom)
    requires
        compare_normal_atoms(a, b) == Order::Less,
        compare_normal_atoms(b, c) == Order::Less,
    ensures
        compare_normal_atoms(a, c) == Order::Less,
{
    lemma_part_orders_total();
    let t = text_order();
    let v = |a: Option<(Operator, NormalVersion)>, b: Option<(Operator, NormalVersion)>|
        compare_option(a, b, versioned_order());
    let s = |a: Option<SlotView>, b: Option<SlotView>| compare_option(a, b, slot_order());
    let u = |a: Option<Seq<UseDepView>>, b: Option<Seq<UseDepView>>|
        compare_option(a, b, use_deps_order());
    let r = |a: Option<Seq<char>>, b: Option<Seq<char>>| compare_option(a, b, text_order());
    assert(t(a.category, b.category) == Order::Equal <==> a.category == b.category);
    assert(t(b.category, c.category) == Order::Equal <==> b.category == c.category);
    assert(t(a.category, b.category) == Order::Less && t(b.category, c.category) == Order::Less
        ==> t(a.category, c.category) == Order::Less);
    assert(t(a.package, b.package) == Order::Equal <==> a.package == b.package);
    assert(t(b.package, c.package) == Order::Equal <==> b.package == c.package);
    assert(t(a.package, b.package) == Order::Less && t(b.package, c.package) == Order::Less
        ==> t(a.package, c.package) == Order::Less);
    assert(v(a.version, b.version) == Order::Equal <==> a.version == b.version);
    assert(v(b.version, c.version) == Order::Equal <==> b.version == c.version);
    assert(v(a.version, b.version) == Order::Less && v(b.version, c.version) == Order::Less
        ==> v(a.version, c.version) == Order::Less);
    assert(s(a.slot, b.slot) == Order::Equal <==> a.slot == b.slot);
    assert(s(b.slot, c.slot) == Order::Equal <==> b.slot == c.slot);
    assert(s(a.slot, b.slot) == Order::Less && s(b.slot, c.slot) == Order::Less ==> s(
        a.slot,
        c.slot,
    ) == Order::Less);
    assert(u(a.use_deps, b.use_deps) == Order::Equal <==> a.use_deps == b.use_deps);
    assert(u(b.use_deps, c.use_deps) == Order::Equal <==> b.use_deps == c.use_deps);
    assert(u(a.use_deps, b.use_deps) == Order::Less && u(b.use_deps, c.use_deps) == Order::Less
        ==> u(a.use_deps, c.use_deps) == Order::Less);
    assert(r(a.repo, b.repo) == Order::Equal <==> a.repo == b.repo);
    assert(r(b.repo, c.repo) == Order::Equal <==> b.repo == c.repo);
    assert(r(a.repo, b.repo) == Order::Less && r(b.repo, c.repo) == Order::Less ==> r(
        a.repo,
        c.repo,
    ) == Order::Less);
}

/// The order of atoms is total: of `a < b`, `a == b` and `a > b` exactly one
/// holds, where `a == b` says that the normalized atoms are the same and
/// `a > b` that `b < a`.
pub proof fn lemma_atom_order_total(a: AtomView, b: AtomView)
    ensures
        compare_atoms(a, b) == Order::Less <==> compare_atoms(b, a) == Order::Greater,
        compare_atoms(a, b) == Order::Greater <==> compare_atoms(b, a) == Order::Less,
        compare_atoms(a, b) == Order::Equal <==> a.normal() == b.normal(),
{
    lemma_compare_atoms_flip(a.normal(), b.normal());
    lemma_compare_atoms_equal(a.normal(), b.normal());
}

/// The order of atoms is transitive.
pub proof fn lemma_atom_order_transitive(a: AtomView, b: AtomView, c: AtomView)
    requires
        compare_atoms(a, b) == Order::Less,
        compare_atoms(b, c) == Order::Less,
    ensures
        compare_atoms(a, c) == Order::Less,
{
    lemma_compare_atoms_transitive(a.normal(), b.normal(), c.normal());
}

// ---------------------------------------------------------------------------
// Comparing
// ---------------------------------------------------------------------------

fn compare_chars(a: &[char], b: &[char]) -> (o: Order)
    ensures
        o == compare_text(a@, b@),
{
    let mut i: usize = 0;
    assert(a@.skip(0) =~= a@);
    assert(b@.skip(0) =~= b@);
    while i < a.len() && i < b.len()
        invariant
            i <= a@.len(),
            i <= b@.len(),
            compare_text(a@, b@) == compare_text(a@.skip(i as int), b@.skip(i as int)),
        decreases a@.len() - i,
    {
        proof {
            assert(a@.skip(i as int)[0] == a@[i as int]);
            assert(b@.skip(i as int)[0] == b@[i as int]);
            assert(a@.skip(i as int).drop_first() =~= a@.skip(i as int + 1));
            assert(b@.skip(i as int).drop_first() =~= b@.skip(i as int + 1));
        }
        if a[i] < b[i] {
            return Order::Less;
        }
        if a[i] > b[i] {
            return Order::Greater;
        }
        i += 1;
    }
    if i < b.len() {
        Order::Less
    } else if i < a.len() {
        Order::Greater
    } else {
        Order::Equal
    }
}

fn compare_optional_chars(a: Option<&Vec<char>>, b: Option<&Vec<char>>) -> (o: Order)
    ensures
        o == compare_option(
            match a {
                Some(x) => Some(x@),
                None => None,
            },
            match b {
                Some(x) => Some(x@),
                None => None,
            },
            text_order(),
        ),
{
    match (a, b) {
        (None, None) => Order::Equal,
        (None, Some(_)) => Order::Less,
        (Some(_), None) => Order::Greater,
        (Some(x), Some(y)) => compare_chars(x.as_slice(), y.as_slice()),
    }
}

fn rank_of_operator(op: Operator) -> (r: u8)
    ensures
        r == operator_rank(op),
{
    match op {
        Operator::Less => 0,
        Operator::LessOrEqual => 1,
        Operator::Equal => 2,
        Operator::EqualGlob => 3,
        Operator::Approximate => 4,
        Operator::GreaterOrEqual => 5,
        Operator::Greater => 6,
    }
}

fn rank_of_kind(kind: UseDepKind) -> (r: u8)
    ensures
        r == use_dep_kind_rank(kind),
{
    match kind {
        UseDepKind::Enabled => 0,
        UseDepKind::Disabled => 1,
        UseDepKind::ConditionalEnabled => 2,
        UseDepKind::ConditionalDisabled => 3,
        UseDepKind::Equal => 4,
        UseDepKind::NotEqual => 5,
    }
}

fn rank_of_default(default: Option<bool>) -> (r: u8)
    ensures
        r == default_rank(default),
{
    match default {
        None => 0,
        Some(false) => 1,
        Some(true) => 2,
    }
}

fn compare_slot_operators(a: Option<SlotOperator>, b: Option<SlotOperator>) -> (o: Order)
    ensures
        o == compare_option(a, b, slot_operator_order()),
{
    match (a, b) {
        (None, None) => Order::Equal,
        (None, Some(_)) => Order::Less,
        (Some(_), None) => Order::Greater,
        (Some(x), Some(y)) => {
            let rx: u8 = match x {
                SlotOperator::Equal => 0,
                SlotOperator::Star => 1,
            };
            let ry: u8 = match y {
                SlotOperator::Equal => 0,
                SlotOperator::Star => 1,
            };
            compare_ranks(rx, ry)
        },
    }
}

fn compare_slots(a: &Slot, b: &Slot) -> (o: Order)
    ensures
        o == compare_slot(a@, b@),
{
    let by_name = compare_chars(a.name.as_slice(), b.name.as_slice());
    if by_name != Order::Equal {
        return by_name;
    }
    let by_subslot = compare_optional_chars(a.subslot.as_ref(), b.subslot.as_ref());
    if by_subslot != Order::Equal {
        return by_subslot;
    }
    compare_slot_operators(a.operator, b.operator)
}

fn compare_use_deps(a: &UseDep, b: &UseDep) -> (o: Order)
    ensures
        o == compare_use_dep(a@, b@),
{
    let by_flag = compare_chars(a.flag.as_slice(), b.flag.as_slice());
    if by_flag != Order::Equal {
        return by_flag;
    }
    let by_kind = compare_ranks(rank_of_kind(a.kind), rank_of_kind(b.kind));
    if by_kind != Order::Equal {
        return by_kind;
    }
    compare_ranks(rank_of_default(a.default), rank_of_default(b.default))
}

fn compare_use_dep_lists(a: &Vec<UseDep>, b: &Vec<UseDep>) -> (o: Order)
    ensures
        o == compare_seq(use_dep_views(a@), use_dep_views(b@), use_dep_order()),
{
    let ghost x = use_dep_views(a@);
    let ghost y = use_dep_views(b@);
    let mut i: usize = 0;
    assert(x.skip(0) =~= x);
    assert(y.skip(0) =~= y);
    while i < a.len() && i < b.len()
        invariant
            i <= a@.len(),
            i <= b@.len(),
            x == use_dep_views(a@),
            y == use_dep_views(b@),
            compare_seq(x, y, use_dep_order()) == compare_seq(
                x.skip(i as int),
                y.skip(i as int),
                use_dep_order(),
            ),
        decreases a@.len() - i,
    {
        proof {
            assert(x.skip(i as int)[0] == a@[i as int]@);
            assert(y.skip(i as int)[0] == b@[i as int]@);
            assert(x.skip(i as int).drop_first() =~= x.skip(i as int + 1));
            assert(y.skip(i as int).drop_first() =~= y.skip(i as int + 1));
        }
        let o = compare_use_deps(&a[i], &b[i]);
        if o != Order::Equal {
            return o;
        }
        i += 1;
    }
    if i < b.len() {
        Order::Less
    } else if i < a.len() {
        Order::Greater
    } else {
        Order::Equal
    }
}

impl Atom {
    /// How this atom compares with `other`.
    pub fn compare(&self, other: &Atom) -> (o: Order)
        ensures
            o == compare_atoms(self@, other@),
    {
        let by_category = compare_chars(
            self.category_chars().as_slice(),
            other.category_chars().as_slice(),
        );
        if by_category != Order::Equal {
            return by_category;
        }
        let by_package = compare_chars(
            self.package_chars().as_slice(),
            other.package_chars().as_slice(),
        );
        if by_package != Order::Equal {
            return by_package;
        }
        let by_version = match (self.version_spec(), other.version_spec()) {
            (None, None) => Order::Equal,
            (None, Some(_)) => Order::Less,
            (Some(_), None) => Order::Greater,
            (Some((p, v)), Some((q, w))) => {
                let o = v.compare(w);
                if o != Order::Equal {
                    o
                } else {
                    compare_ranks(rank_of_operator(p), rank_of_operator(q))
                }
            },
        };
        if by_version != Order::Equal {
            return by_version;
        }
        let by_slot = match (self.slot_clause(), other.slot_clause()) {
            (None, None) => Order::Equal,
            (None, Some(_)) => Order::Less,
            (Some(_), None) => Order::Greater,
            (Some(x), Some(y)) => compare_slots(x, y),
        };
        if by_slot != Order::Equal {
            return by_slot;
        }
        let by_use_deps = match (self.use_dep_list(), other.use_dep_list()) {
            (None, None) => Order::Equal,
            (None, Some(_)) => Order::Less,
            (Some(_), None) => Order::Greater,
            (Some(x), Some(y)) => compare_use_dep_lists(x, y),
        };
        if by_use_deps != Order::Equal {
            return by_use_deps;
        }
        compare_optional_chars(self.repo_chars(), other.repo_chars())
    }
}

} // verus!
