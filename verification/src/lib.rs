//! Package atoms and package versions: parsing, writing, comparing, hashing.
//!
//! An atom names a package and narrows it down: `>=cat/pkg-1.2:3/4=[flag]::repo`
//! has an operator, a category, a package, a version, a slot clause, USE
//! dependencies and a repository. Which clauses an atom may have depends on
//! the grammar revision (the EAPI) under which it is read.
//!
//! Every grammar here is a function on `Seq<char>`, the view of a string, and
//! every parser is proved to compute it. The text of a parsed value is the
//! text it was parsed from; versions and atoms are totally ordered, and those
//! that are equal have one hash.
//!
//! - [`version`], [`version_accepts`], [`version_order`]: versions and their
//!   order.
//! - [`atom`], [`atom_parse`], [`atom_text`], [`atom_accepts`], [`atom_order`]:
//!   atoms and their order.
//! - [`grammar`]: the registry of grammar revisions.
//! - [`parse`]: validators for single parts of an atom.
//! - [`ops`]: `==`, `<` and comparison by operator.
//! - [`hash`]: hashes.
//! - [`error`], [`message`]: errors and what they say.
//! - [`repo`]: identifier and priority of a repository.
//! - [`order`], [`number`], [`text`]: the ground the others stand on.

pub mod atom;
pub mod atom_accepts;
pub mod atom_order;
pub mod atom_parse;
pub mod atom_text;
pub mod error;
pub mod grammar;
pub mod hash;
pub mod message;
pub mod number;
pub mod ops;
pub mod order;
pub mod parse;
pub mod repo;
pub mod text;
pub mod version;
pub mod version_accepts;
pub mod version_order;
