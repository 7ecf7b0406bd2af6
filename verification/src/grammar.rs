//! The registry of grammar revisions.
//!
//! A grammar revision (an EAPI) says which clauses an atom may have. The
//! registry is a fixed table: the revisions `0` to `8`, and `pkgcraft`, the
//! latest of them with repository qualifiers added.

use vstd::prelude::*;
use crate::error::{ParseError, ParseErrorView};
use crate::text::{chars_of, string_of};

verus! {

/// The revisions of the registry, oldest first.
#[derive(Clone, Copy, Debug, PartialEq, Eq, Structural)]
pub enum RevisionId {
    Eapi0,
    Eapi1,
    Eapi2,
    Eapi3,
    Eapi4,
    Eapi5,
    Eapi6,
    Eapi7,
    Eapi8,
    Pkgcraft,
}

/// A grammar revision: its place in the registry and the clauses it admits.
#[derive(Clone, Copy, Debug, PartialEq, Eq, Structural)]
pub struct GrammarRevision {
    pub id: RevisionId,
    /// Slot clauses: `cat/pkg:slot`.
    pub slot_deps: bool,
    /// Sub-slots and slot operators: `cat/pkg:slot/sub=`.
    pub slot_ops: bool,
    /// USE dependency clauses: `cat/pkg[flag]`.
    pub use_deps: bool,
    /// Defaults in USE dependencies: `cat/pkg[flag(+)]`.
    pub use_dep_defaults: bool,
    /// Repository qualifiers: `cat/pkg::repo`.
    pub repo_ids: bool,
}

impl RevisionId {
    /// The place of the revision in the registry, from 0.
    pub open spec fn level(self) -> int {
        match self {
            RevisionId::Eapi0 => 0,
            RevisionId::Eapi1 => 1,
            RevisionId::Eapi2 => 2,
            RevisionId::Eapi3 => 3,
            RevisionId::Eapi4 => 4,
            RevisionId::Eapi5 => 5,
            RevisionId::Eapi6 => 6,
            RevisionId::Eapi7 => 7,
            RevisionId::Eapi8 => 8,
            RevisionId::Pkgcraft => 9,
        }
    }

    /// The name under which the registry holds the revision.
    pub open spec fn name(self) -> Seq<char> {
        match self {
            RevisionId::Eapi0 => seq!['0'],
            RevisionId::Eapi1 => seq!['1'],
            RevisionId::Eapi2 => seq!['2'],
            RevisionId::Eapi3 => seq!['3'],
            RevisionId::Eapi4 => seq!['4'],
            RevisionId::Eapi5 => seq!['5'],
            RevisionId::Eapi6 => seq!['6'],
            RevisionId::Eapi7 => seq!['7'],
            RevisionId::Eapi8 => seq!['8'],
            RevisionId::Pkgcraft => seq!['p', 'k', 'g', 'c', 'r', 'a', 'f', 't'],
        }
    }

    /// The revision with this name, if there is one.
    pub open spec fn named(name: Seq<char>) -> Option<RevisionId> {
        if name == RevisionId::Eapi0.name() {
            Some(RevisionId::Eapi0)
        } else if name == RevisionId::Eapi1.name() {
            Some(RevisionId::Eapi1)
        } else if name == RevisionId::Eapi2.name() {
            Some(RevisionId::Eapi2)
        } else if name == RevisionId::Eapi3.name() {
            Some(RevisionId::Eapi3)
        } else if name == RevisionId::Eapi4.name() {
            Some(RevisionId::Eapi4)
        } else if name == RevisionId::Eapi5.name() {
            Some(RevisionId::Eapi5)
        } else if name == RevisionId::Eapi6.name() {
            Some(RevisionId::Eapi6)
        } else if name == RevisionId::Eapi7.name() {
            Some(RevisionId::Eapi7)
        } else if name == RevisionId::Eapi8.name() {
            Some(RevisionId::Eapi8)
        } else if name == RevisionId::Pkgcraft.name() {
            Some(RevisionId::Pkgcraft)
        } else {
            None
        }
    }
}

impl GrammarRevision {
    /// The entry of the registry for `id`: slot clauses come with revision 1,
    /// USE dependencies with 2, their defaults with 4, sub-slots and slot
    /// operators with 5, repository qualifiers with `pkgcraft`.
    pub open spec fn spec_of(id: RevisionId) -> GrammarRevision {
        GrammarRevision {
            id,
            slot_deps: id.level() >= 1,
            use_deps: id.level() >= 2,
            use_dep_defaults: id.level() >= 4,
            slot_ops: id.level() >= 5,
            repo_ids: id.level() >= 9,
        }
    }

    /// The revision that parsing uses where none is asked for: the latest, which
    /// admits every clause.
    pub open spec fn spec_latest() -> GrammarRevision {
        GrammarRevision::spec_of(RevisionId::Pkgcraft)
    }

    /// The entry of the registry for `id`.
    pub fn of(id: RevisionId) -> (r: GrammarRevision)
        ensures
            r == GrammarRevision::spec_of(id),
    {
        let level: u8 = match id {
            RevisionId::Eapi0 => 0,
            RevisionId::Eapi1 => 1,
            RevisionId::Eapi2 => 2,
            RevisionId::Eapi3 => 3,
            RevisionId::Eapi4 => 4,
            RevisionId::Eapi5 => 5,
            RevisionId::Eapi6 => 6,
            RevisionId::Eapi7 => 7,
            RevisionId::Eapi8 => 8,
            RevisionId::Pkgcraft => 9,
        };
        GrammarRevision {
            id,
            slot_deps: level >= 1,
            use_deps: level >= 2,
            use_dep_defaults: level >= 4,
            slot_ops: level >= 5,
            repo_ids: level >= 9,
        }
    }

    /// The latest revision.
    pub fn latest() -> (r: GrammarRevision)
        ensures
            r == GrammarRevision::spec_latest(),
    {
        GrammarRevision::of(RevisionId::Pkgcraft)
    }

    /// The name under which the registry holds the revision.
    pub fn name(&self) -> (r: &'static str)
        ensures
            r@ == self.id.name(),
    {
        proof {
            reveal_strlit("0");
            reveal_strlit("1");
            reveal_strlit("2");
            reveal_strlit("3");
            reveal_strlit("4");
            reveal_strlit("5");
            reveal_strlit("6");
            reveal_strlit("7");
            reveal_strlit("8");
            reveal_strlit("pkgcraft");
        }
        let r = match self.id {
            RevisionId::Eapi0 => "0",
            RevisionId::Eapi1 => "1",
            RevisionId::Eapi2 => "2",
            RevisionId::Eapi3 => "3",
            RevisionId::Eapi4 => "4",
            RevisionId::Eapi5 => "5",
            RevisionId::Eapi6 => "6",
            RevisionId::Eapi7 => "7",
            RevisionId::Eapi8 => "8",
            RevisionId::Pkgcraft => "pkgcraft",
        };
        assert(r@ =~= self.id.name());
        r
    }
}

/// What `resolve` gives for a name: the registry's entry, the latest revision
/// where no name is given, and `UnknownRevision` with the name where the
/// registry holds none under it.
pub open spec fn spec_resolve(name: Option<Seq<char>>) -> Result<GrammarRevision, ParseErrorView> {
    match name {
        None => Ok(GrammarRevision::spec_latest()),
        Some(n) => match RevisionId::named(n) {
            Some(id) => Ok(GrammarRevision::spec_of(id)),
            None => Err(ParseErrorView::UnknownRevision(n)),
        },
    }
}

fn id_named(name: &[char]) -> (r: Option<RevisionId>)
    ensures
        r == RevisionId::named(name@),
{
    proof {
        assert(RevisionId::Eapi0.name().len() == 1 && RevisionId::Eapi0.name()[0] == '0');
        assert(RevisionId::Eapi1.name().len() == 1 && RevisionId::Eapi1.name()[0] == '1');
        assert(RevisionId::Eapi2.name().len() == 1 && RevisionId::Eapi2.name()[0] == '2');
        assert(RevisionId::Eapi3.name().len() == 1 && RevisionId::Eapi3.name()[0] == '3');
        assert(RevisionId::Eapi4.name().len() == 1 && RevisionId::Eapi4.name()[0] == '4');
        assert(RevisionId::Eapi5.name().len() == 1 && RevisionId::Eapi5.name()[0] == '5');
        assert(RevisionId::Eapi6.name().len() == 1 && RevisionId::Eapi6.name()[0] == '6');
        assert(RevisionId::Eapi7.name().len() == 1 && RevisionId::Eapi7.name()[0] == '7');
        assert(RevisionId::Eapi8.name().len() == 1 && RevisionId::Eapi8.name()[0] == '8');
        assert(RevisionId::Pkgcraft.name().len() == 8);
    }
    if name.len() == 1 {
        let c = name[0];
        let r = if c == '0' {
            Some(RevisionId::Eapi0)
        } else if c == '1' {
            Some(RevisionId::Eapi1)
        } else if c == '2' {
            Some(RevisionId::Eapi2)
        } else if c == '3' {
            Some(RevisionId::Eapi3)
        } else if c == '4' {
            Some(RevisionId::Eapi4)
        } else if c == '5' {
            Some(RevisionId::Eapi5)
        } else if c == '6' {
            Some(RevisionId::Eapi6)
        } else if c == '7' {
            Some(RevisionId::Eapi7)
        } else if c == '8' {
            Some(RevisionId::Eapi8)
        } else {
            None
        };
        proof {
            match r {
                Some(id) => {
                    assert(name@ =~= id.name());
                },
                None => {},
            }
        }
        r
    } else if name.len() == 8 && name[0] == 'p' && name[1] == 'k' && name[2] == 'g' && name[3] == 'c'
        && name[4] == 'r' && name[5] == 'a' && name[6] == 'f' && name[7] == 't' {
        assert(name@ =~= RevisionId::Pkgcraft.name());
        Some(RevisionId::Pkgcraft)
    } else {
        proof {
            let p = RevisionId::Pkgcraft.name();
            if name@ == p {
                assert(name@[0] == p[0] && name@[1] == p[1] && name@[2] == p[2] && name@[3] == p[3]
                    && name@[4] == p[4] && name@[5] == p[5] && name@[6] == p[6] && name@[7]
                    == p[7]);
            }
        }
        None
    }
}

/// Looks a grammar revision up by its name; without a name, gives the latest.
pub fn resolve(name: Option<&str>) -> (r: Result<GrammarRevision, ParseError>)
    ensures
        match r {
            Ok(g) => spec_resolve(
                match name {
                    Some(n) => Some(n@),
                    None => None,
                },
            ) == Ok::<GrammarRevision, ParseErrorView>(g),
            Err(e) => spec_resolve(
                match name {
                    Some(n) => Some(n@),
                    None => None,
                },
            ) == Err::<GrammarRevision, ParseErrorView>(e@),
        },
{
    match name {
        None => Ok(GrammarRevision::latest()),
        Some(n) => {
            let chars = chars_of(n);
            match id_named(chars.as_slice()) {
                Some(id) => Ok(GrammarRevision::of(id)),
                None => {
                    let text = string_of(chars.as_slice(), 0, chars.len());
                    assert(chars@.subrange(0, chars@.len() as int) == chars@);
                    Err(ParseError::UnknownRevision(text))
                },
            }
        },
    }
}

} // verus!
