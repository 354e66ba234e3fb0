//! Diagnostics and their corrective edits.
//!
//! A violation produces exactly one diagnostic paired with exactly one
//! edit: delete the one-byte range of a specific semicolon, or put a
//! semicolon immediately after a statement's span.  Rendering a
//! diagnostic to a terminal is the collaborator's job; here it is plain
//! data.

use vstd::prelude::*;

use crate::span::Span;

verus! {

#[derive(Clone, Copy, Debug, PartialEq, Eq, Structural)]
pub enum DiagnosticKind {
    UnnecessarySemicolon,
    MissingSemicolon,
}

/// A span-anchored warning.
#[derive(Clone, Copy, Debug, PartialEq, Eq, Structural)]
pub struct Diagnostic {
    pub kind: DiagnosticKind,
    pub span: Span,
}

/// The one corrective edit attached to a diagnostic.  The only edits the
/// checker ever emits are "delete exactly one semicolon byte" and "put
/// exactly one semicolon byte right after a statement", so the inserted
/// text is implicit.
#[derive(Clone, Copy, Debug, PartialEq, Eq, Structural)]
pub enum Fix {
    /// Delete the bytes of `span` (always a single semicolon).
    Delete { span: Span },
    /// Put a `;` immediately after `span.end`.
    InsertSemicolonAfter { span: Span },
}

pub fn semi_unnecessary_diagnostic(span: Span) -> (r: Diagnostic)
    ensures
        r == (Diagnostic { kind: DiagnosticKind::UnnecessarySemicolon, span }),
{
    Diagnostic { kind: DiagnosticKind::UnnecessarySemicolon, span }
}

pub fn semi_missing_diagnostic(span: Span) -> (r: Diagnostic)
    ensures
        r == (Diagnostic { kind: DiagnosticKind::MissingSemicolon, span }),
{
    Diagnostic { kind: DiagnosticKind::MissingSemicolon, span }
}

impl Diagnostic {
    /// The warning message a renderer shows for this diagnostic.
    pub fn message(&self) -> (r: &'static str)
        ensures
            self.kind == DiagnosticKind::UnnecessarySemicolon ==> r@ == "Unnecessary semicolon"@,
            self.kind == DiagnosticKind::MissingSemicolon ==> r@
                == "Missing semicolon to avoid ASI issues"@,
    {
        match self.kind {
            DiagnosticKind::UnnecessarySemicolon => "Unnecessary semicolon",
            DiagnosticKind::MissingSemicolon => "Missing semicolon to avoid ASI issues",
        }
    }

    /// The help text a renderer shows for this diagnostic.
    pub fn help(&self) -> (r: &'static str)
        ensures
            self.kind == DiagnosticKind::UnnecessarySemicolon ==> r@
                == "JavaScript Standard Style: avoid unnecessary semicolons"@,
            self.kind == DiagnosticKind::MissingSemicolon ==> r@
                == "Add semicolon to prevent automatic semicolon insertion problems"@,
    {
        match self.kind {
            DiagnosticKind::UnnecessarySemicolon => {
                "JavaScript Standard Style: avoid unnecessary semicolons"
            },
            DiagnosticKind::MissingSemicolon => {
                "Add semicolon to prevent automatic semicolon insertion problems"
            },
        }
    }
}

/// The source text after `fix` is applied.
pub open spec fn spec_apply_fix(source: Seq<u8>, fix: Fix) -> Seq<u8> {
    match fix {
        Fix::Delete { span } => source.subrange(0, span.start as int) + source.subrange(
            span.end as int,
            source.len() as int,
        ),
        Fix::InsertSemicolonAfter { span } => source.subrange(0, span.end as int) + seq![59u8]
            + source.subrange(span.end as int, source.len() as int),
    }
}

/// Whether `fix` stays within a source of length `n`.
pub open spec fn fix_wf(fix: Fix, n: int) -> bool {
    match fix {
        Fix::Delete { span } => span.wf(n),
        Fix::InsertSemicolonAfter { span } => span.end <= n,
    }
}

/// Apply one edit to the source text.
pub fn apply_fix(source: &Vec<u8>, fix: &Fix) -> (r: Vec<u8>)
    requires
        fix_wf(*fix, source@.len() as int),
    ensures
        r@ == spec_apply_fix(source@, *fix),
{
    let (keep_to, resume_at): (usize, usize) = match fix {
        Fix::Delete { span } => (span.start as usize, span.end as usize),
        Fix::InsertSemicolonAfter { span } => (span.end as usize, span.end as usize),
    };
    let mut out: Vec<u8> = Vec::new();
    let mut i: usize = 0;
    while i < keep_to
        invariant
            i <= keep_to <= source@.len(),
            out@ == source@.subrange(0, i as int),
        decreases keep_to - i,
    {
        out.push(source[i]);
        proof {
            assert(out@ =~= source@.subrange(0, i + 1));
        }
        i = i + 1;
    }
    if let Fix::InsertSemicolonAfter { span: _ } = fix {
        out.push(59);
    }
    proof {
        let full = spec_apply_fix(source@, *fix);
        assert(out@ =~= full.subrange(0, full.len() - (source@.len() - resume_at)));
    }
    let mut j: usize = resume_at;
    while j < source.len()
        invariant
            resume_at <= j <= source@.len(),
            out@ == spec_apply_fix(source@, *fix).subrange(
                0,
                spec_apply_fix(source@, *fix).len() - (source@.len() - j),
            ),
            fix_wf(*fix, source@.len() as int),
            match *fix {
                Fix::Delete { span } => resume_at == span.end && spec_apply_fix(source@, *fix).len()
                    == source@.len() - (span.end - span.start),
                Fix::InsertSemicolonAfter { span } => resume_at == span.end && spec_apply_fix(
                    source@,
                    *fix,
                ).len() == source@.len() + 1,
            },
        decreases source@.len() - j,
    {
        out.push(source[j]);
        proof {
            let full = spec_apply_fix(source@, *fix);
            assert(out@ =~= full.subrange(0, full.len() - (source@.len() - (j + 1))));
        }
        j = j + 1;
    }
    proof {
        let full = spec_apply_fix(source@, *fix);
        assert(out@ =~= full);
    }
    out
}

} // verus!
