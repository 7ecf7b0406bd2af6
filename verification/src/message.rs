//! What the errors say in words.

use vstd::prelude::*;
use crate::error::{Fault, FaultView, ParseError, ParseErrorView, VersionError, VersionErrorView};
use crate::number::{decimal, decimal_of};
use crate::text::{append_chars, chars_of, string_of};

verus! {

impl VersionErrorView {
    /// The error in words.
    pub open spec fn message(self) -> Seq<char> {
        match self {
            VersionErrorView::EmptyInput => "empty version"@,
            VersionErrorView::InvalidComponent(p) => "invalid component at offset "@ + decimal(p as nat),
            VersionErrorView::InvalidSuffix(t) => "invalid suffix: "@ + t,
            VersionErrorView::InvalidRevision(t) => "invalid revision: "@ + t,
        }
    }
}

impl FaultView {
    /// The fault in words.
    pub open spec fn message(self) -> Seq<char> {
        match self {
            FaultView::EmptyInput => "empty"@,
            FaultView::InvalidCharacter => "invalid character"@,
            FaultView::StructuralMismatch => "structural mismatch"@,
            FaultView::Unsupported => "not supported by the grammar revision"@,
            FaultView::InvalidVersion(e) => e.message(),
        }
    }
}

/// The words for a fault in a clause: the clause, the offset, the fault.
pub open spec fn clause_message(clause: Seq<char>, fault: FaultView, offset: int) -> Seq<char> {
    "invalid "@ + clause + " at offset "@ + decimal(offset as nat) + ": "@ + fault.message()
}

impl ParseErrorView {
    /// The error in words.
    pub open spec fn message(self) -> Seq<char> {
        match self {
            ParseErrorView::EmptyInput => "empty atom"@,
            ParseErrorView::CategoryError(f, o) => clause_message("category"@, f, o),
            ParseErrorView::PackageError(f, o) => clause_message("package"@, f, o),
            ParseErrorView::VersionError(f, o) => clause_message("version"@, f, o),
            ParseErrorView::SlotError(f, o) => clause_message("slot"@, f, o),
            ParseErrorView::UseDepError(f, o) => clause_message("use dependency"@, f, o),
            ParseErrorView::RepoError(f, o) => clause_message("repository"@, f, o),
            ParseErrorView::UnexpectedTrailingInput(o) => "unexpected input at offset "@ + decimal(
                o as nat,
            ),
            ParseErrorView::UnknownRevision(n) => "unknown grammar revision: "@ + n,
        }
    }
}

fn push_text(out: &mut Vec<char>, s: &str)
    ensures
        final(out)@ == old(out)@ + s@,
{
    let chars = chars_of(s);
    append_chars(out, chars.as_slice());
}

fn push_version_error(out: &mut Vec<char>, e: &VersionError)
    ensures
        final(out)@ == old(out)@ + e@.message(),
{
    match e {
        VersionError::EmptyInput => {
            push_text(out, "empty version");
        },
        VersionError::InvalidComponent(p) => {
            push_text(out, "invalid component at offset ");
            let digits = decimal_of(*p);
            append_chars(out, digits.as_slice());
            assert(out@ =~= old(out)@ + e@.message());
        },
        VersionError::InvalidSuffix(t) => {
            push_text(out, "invalid suffix: ");
            push_text(out, t.as_str());
            assert(out@ =~= old(out)@ + e@.message());
        },
        VersionError::InvalidRevision(t) => {
            push_text(out, "invalid revision: ");
            push_text(out, t.as_str());
            assert(out@ =~= old(out)@ + e@.message());
        },
    }
}

fn push_fault(out: &mut Vec<char>, f: &Fault)
    ensures
        final(out)@ == old(out)@ + f@.message(),
{
    match f {
        Fault::EmptyInput => {
            push_text(out, "empty");
        },
        Fault::InvalidCharacter => {
            push_text(out, "invalid character");
        },
        Fault::StructuralMismatch => {
            push_text(out, "structural mismatch");
        },
        Fault::Unsupported => {
            push_text(out, "not supported by the grammar revision");
        },
        Fault::InvalidVersion(e) => {
            push_version_error(out, e);
        },
    }
}

fn clause_text(clause: &str, fault: &Fault, offset: usize) -> (out: Vec<char>)
    ensures
        out@ == clause_message(clause@, fault@, offset as int),
{
    let mut out: Vec<char> = Vec::new();
    push_text(&mut out, "invalid ");
    push_text(&mut out, clause);
    push_text(&mut out, " at offset ");
    let digits = decimal_of(offset);
    append_chars(&mut out, digits.as_slice());
    push_text(&mut out, ": ");
    push_fault(&mut out, fault);
    assert(out@ =~= clause_message(clause@, fault@, offset as int));
    out
}

impl VersionError {
    /// The error in words.
    pub fn message(&self) -> (r: String)
        ensures
            r@ == self@.message(),
    {
        let mut out: Vec<char> = Vec::new();
        push_version_error(&mut out, self);
        assert(out@ =~= self@.message());
        let r = string_of(out.as_slice(), 0, out.len());
        assert(out@.subrange(0, out@.len() as int) =~= out@);
        r
    }
}

impl ParseError {
    /// The error in words.
    pub fn message(&self) -> (r: String)
        ensures
            r@ == self@.message(),
    {
        let out = match self {
            ParseError::EmptyInput => chars_of("empty atom"),
            ParseError::CategoryError(f, o) => clause_text("category", f, *o),
            ParseError::PackageError(f, o) => clause_text("package", f, *o),
            ParseError::VersionError(f, o) => clause_text("version", f, *o),
            ParseError::SlotError(f, o) => clause_text("slot", f, *o),
            ParseError::UseDepError(f, o) => clause_text("use dependency", f, *o),
            ParseError::RepoError(f, o) => clause_text("repository", f, *o),
            ParseError::UnexpectedTrailingInput(o) => {
                let mut out = chars_of("unexpected input at offset ");
                let digits = decimal_of(*o);
                append_chars(&mut out, digits.as_slice());
                out
            },
            ParseError::UnknownRevision(n) => {
                let mut out = chars_of("unknown grammar revision: ");
                push_text(&mut out, n.as_str());
                out
            },
        };
        let r = string_of(out.as_slice(), 0, out.len());
        assert(out@.subrange(0, out@.len() as int) =~= out@);
        r
    }
}

} // verus!
