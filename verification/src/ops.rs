//! `==` and `<` on versions and on atoms, and the comparison that an operator
//! asks for.

use std::cmp::Ordering;
use vstd::prelude::*;
use vstd::std_specs::cmp::{PartialEqSpecImpl, PartialOrdSpecImpl};
use crate::atom::Atom;
use crate::atom_order::{compare_atoms, lemma_compare_atoms_equal};
use crate::order::{CompareOp, Order};
use crate::version::Version;
use crate::version_order::{compare_versions, lemma_compare_equal};

verus! {

/// The outcome of a comparison in the terms of the standard library.
pub open spec fn ordering_of(order: Order) -> Ordering {
    match order {
        Order::Less => Ordering::Less,
        Order::Equal => Ordering::Equal,
        Order::Greater => Ordering::Greater,
    }
}

impl PartialEq for Version {
    /// Two versions are equal when their normalized forms are the same.
    fn eq(&self, other: &Version) -> (r: bool) {
        proof {
            lemma_compare_equal(self@.normal(), other@.normal());
        }
        self.compare(other) == Order::Equal
    }
}

impl PartialEqSpecImpl for Version {
    open spec fn obeys_eq_spec() -> bool {
        true
    }

    open spec fn eq_spec(&self, other: &Version) -> bool {
        self@.normal() == other@.normal()
    }
}

impl Eq for Version {

}

impl PartialOrd for Version {
    fn partial_cmp(&self, other: &Version) -> (r: Option<Ordering>) {
        match self.compare(other) {
            Order::Less => Some(Ordering::Less),
            Order::Equal => Some(Ordering::Equal),
            Order::Greater => Some(Ordering::Greater),
        }
    }
}

impl PartialOrdSpecImpl for Version {
    open spec fn obeys_partial_cmp_spec() -> bool {
        true
    }

    open spec fn partial_cmp_spec(&self, other: &Version) -> Option<Ordering> {
        Some(ordering_of(compare_versions(self@, other@)))
    }
}

impl PartialEq for Atom {
    /// Two atoms are equal when their normalized forms are the same.
    fn eq(&self, other: &Atom) -> (r: bool) {
        proof {
            lemma_compare_atoms_equal(self@.normal(), other@.normal());
        }
        self.compare(other) == Order::Equal
    }
}

impl PartialEqSpecImpl for Atom {
    open spec fn obeys_eq_spec() -> bool {
        true
    }

    open spec fn eq_spec(&self, other: &Atom) -> bool {
        self@.normal() == other@.normal()
    }
}

impl Eq for Atom {

}

impl PartialOrd for Atom {
    fn partial_cmp(&self, other: &Atom) -> (r: Option<Ordering>) {
        match self.compare(other) {
            Order::Less => Some(Ordering::Less),
            Order::Equal => Some(Ordering::Equal),
            Order::Greater => Some(Ordering::Greater),
        }
    }
}

impl PartialOrdSpecImpl for Atom {
    open spec fn obeys_partial_cmp_spec() -> bool {
        true
    }

    open spec fn partial_cmp_spec(&self, other: &Atom) -> Option<Ordering> {
        Some(ordering_of(compare_atoms(self@, other@)))
    }
}

impl Version {
    /// Whether the relation `op` holds between this version and `other`.
    pub fn richcmp(&self, other: &Version, op: CompareOp) -> (r: bool)
        ensures
            r == op.holds(compare_versions(self@, other@)),
    {
        op.test(self.compare(other))
    }
}

impl Atom {
    /// Whether the relation `op` holds between this atom and `other`.
    pub fn richcmp(&self, other: &Atom, op: CompareOp) -> (r: bool)
        ensures
            r == op.holds(compare_atoms(self@, other@)),
    {
        op.test(self.compare(other))
    }
}

} // verus!
