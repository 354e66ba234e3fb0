//! The checker's stated laws, proved against the policy model.
//!
//! The idempotence laws speak about re-running the checker after its one
//! edit was applied.  Re-running happens on a freshly built tree, so the
//! statement under scrutiny is modelled by its new text: the old text
//! with a semicolon appended (after an insertion) or with the flagged
//! semicolon removed (after a deletion), next to the unchanged text of
//! its following sibling.

use vstd::prelude::*;

use crate::diagnostic::{DiagnosticKind, Fix};
use crate::rule::{
    always_requires_semicolon, checkable, expression_like, hazard_text, next_text, range_of,
    required_semicolon, spec_run, spec_verdict, SemiMode, Semi,
};
use crate::span::Span;
use crate::text::{
    char_code_of, first_char_code, has_terminal_semicolon, is_cont, is_continuable_end,
    last_char_code, last_char_start, last_semicolon, lemma_last_char_start_bounds, space_code,
    trim_end, trim_start,
};
use crate::tree::{container_of, first_containing, next_statement, LintContext};

verus! {

/// Trimming trailing whitespace characters leaves a prefix of the text.
proof fn lemma_trim_end_prefix(s: Seq<u8>)
    ensures
        trim_end(s).len() <= s.len(),
        trim_end(s) == s.take(trim_end(s).len() as int),
    decreases s.len(),
{
    if s.len() > 0 && space_code(last_char_code(s)) {
        lemma_last_char_start_bounds(s);
        let k = last_char_start(s);
        lemma_trim_end_prefix(s.take(k));
        let m = trim_end(s).len() as int;
        assert(s.take(k).take(m) =~= s.take(m));
    } else {
        assert(s.take(s.len() as int) =~= s);
    }
}

/// A text with a semicolon byte in it has a last one.
proof fn lemma_semicolon_byte_found(s: Seq<u8>, i: int)
    requires
        0 <= i < s.len(),
        s[i] == 59,
    ensures
        last_semicolon(s) is Some,
    decreases s.len(),
{
    if s.last() != 59 {
        lemma_semicolon_byte_found(s.drop_last(), i);
    }
}

/// A text that ends, ignoring trailing whitespace, in a semicolon holds
/// a semicolon, so the reverse scan for the delete edit cannot miss.
pub proof fn lemma_terminal_semicolon_found(s: Seq<u8>)
    ensures
        has_terminal_semicolon(s) ==> last_semicolon(s) is Some,
{
    if has_terminal_semicolon(s) {
        lemma_trim_end_prefix(s);
        let m = trim_end(s).len() as int;
        assert(trim_end(s).last() == s.take(m)[m - 1]);
        assert(s[m - 1] == 59);
        lemma_semicolon_byte_found(s, m - 1);
    }
}

/// Appending a semicolon yields a text whose trimmed end is that
/// semicolon.
pub proof fn lemma_push_semicolon(s: Seq<u8>)
    ensures
        has_terminal_semicolon(s.push(59)),
{
    let t = s.push(59);
    assert(t.last() == 59);
    assert(!is_cont(59));
    assert(last_char_start(t) == t.len() - 1);
    assert(t.skip(t.len() - 1) =~= seq![59u8]);
    assert(char_code_of(seq![59u8]) == 59);
    assert(last_char_code(t) == 59);
    assert(trim_end(t) == t);
}

/// Every checkable kind is one that `Always` mode asks a semicolon of.
pub proof fn lemma_checkable_always_eligible(k: crate::tree::NodeKind)
    ensures
        checkable(k) ==> always_requires_semicolon(k),
{
}

/// Mode duality, `Never` half: a checkable statement with no following
/// hazardous sibling is never flagged for a missing semicolon, and a
/// present semicolon is always flagged as unnecessary.
pub proof fn lemma_mode_duality_never(rule: Semi, ctx: LintContext, id: int)
    requires
        ctx.wf(),
        0 <= id < ctx.nodes@.len(),
        checkable(ctx.nodes@[id].kind),
        rule.spec_mode() == SemiMode::Never,
        !required_semicolon(ctx, id, expression_like(ctx.nodes@[id].kind)),
    ensures
        !has_terminal_semicolon(range_of(ctx.source@, ctx.nodes@[id].span)) ==> spec_run(
            rule,
            ctx,
            id,
        ) is None,
        has_terminal_semicolon(range_of(ctx.source@, ctx.nodes@[id].span)) ==> (spec_run(
            rule,
            ctx,
            id,
        ) matches Some(p) && p.0.kind == DiagnosticKind::UnnecessarySemicolon && p.1 is Delete),
{
    lemma_terminal_semicolon_found(range_of(ctx.source@, ctx.nodes@[id].span));
}

/// Mode duality, `Always` half: a checkable statement with no following
/// hazardous sibling is flagged exactly when its semicolon is missing,
/// and never when one is present.
pub proof fn lemma_mode_duality_always(rule: Semi, ctx: LintContext, id: int)
    requires
        ctx.wf(),
        0 <= id < ctx.nodes@.len(),
        checkable(ctx.nodes@[id].kind),
        rule.spec_mode() == SemiMode::Always,
        !required_semicolon(ctx, id, expression_like(ctx.nodes@[id].kind)),
    ensures
        !has_terminal_semicolon(range_of(ctx.source@, ctx.nodes@[id].span)) ==> (spec_run(
            rule,
            ctx,
            id,
        ) matches Some(p) && p.0.kind == DiagnosticKind::MissingSemicolon && p.1
            is InsertSemicolonAfter),
        has_terminal_semicolon(range_of(ctx.source@, ctx.nodes@[id].span)) ==> spec_run(
            rule,
            ctx,
            id,
        ) is None,
{
    lemma_checkable_always_eligible(ctx.nodes@[id].kind);
}

/// Hazard symmetry, expression half: an expression statement without a
/// semicolon, followed by a statement whose first non-whitespace
/// character is `(`, `[` or a backtick, is always flagged in `Never`
/// mode.
pub proof fn lemma_hazard_symmetry_expression(rule: Semi, ctx: LintContext, id: int)
    requires
        ctx.wf(),
        0 <= id < ctx.nodes@.len(),
        ctx.nodes@[id].kind == crate::tree::NodeKind::ExpressionStatement,
        rule.spec_mode() == SemiMode::Never,
        !has_terminal_semicolon(range_of(ctx.source@, ctx.nodes@[id].span)),
        next_text(ctx, id) is Some,
        ({
            let t = trim_start(next_text(ctx, id)->0);
            t.len() > 0 && (first_char_code(t) == 40 || first_char_code(t) == 91
                || first_char_code(t) == 96)
        }),
    ensures
        spec_run(rule, ctx, id) matches Some(p) && p.0.kind == DiagnosticKind::MissingSemicolon,
{
}

/// Hazard symmetry, trailing-character half: a checkable statement that
/// is not expression-like and whose trimmed text ends in a character
/// that cannot continue as an expression is never flagged for a missing
/// semicolon in `Never` mode, even before such a following statement.
pub proof fn lemma_hazard_symmetry_non_continuable(rule: Semi, ctx: LintContext, id: int)
    requires
        ctx.wf(),
        0 <= id < ctx.nodes@.len(),
        checkable(ctx.nodes@[id].kind),
        !expression_like(ctx.nodes@[id].kind),
        rule.spec_mode() == SemiMode::Never,
        !has_terminal_semicolon(range_of(ctx.source@, ctx.nodes@[id].span)),
        ({
            let c = trim_end(range_of(ctx.source@, ctx.nodes@[id].span));
            c.len() == 0 || !is_continuable_end(last_char_code(c))
        }),
        next_text(ctx, id) is Some,
        ({
            let t = trim_start(next_text(ctx, id)->0);
            t.len() > 0 && (first_char_code(t) == 40 || first_char_code(t) == 91
                || first_char_code(t) == 96)
        }),
    ensures
        spec_run(rule, ctx, id) is None,
{
}

/// No cross-container hazard: a statement standing last in its
/// container's statement list resolves no next statement, so it is never
/// hazardous and `Never` mode never asks it for a semicolon — whatever
/// follows the container in an enclosing list.
pub proof fn lemma_no_cross_container_hazard(rule: Semi, ctx: LintContext, id: int)
    requires
        ctx.wf(),
        0 <= id < ctx.nodes@.len(),
        container_of(ctx.nodes@, id) is Some,
        ({
            let c = container_of(ctx.nodes@, id)->0;
            let body = ctx.nodes@[c].body@;
            first_containing(body, ctx.nodes@[id].span, 0) matches Some(idx) && idx + 1
                >= body.len()
        }),
        rule.spec_mode() == SemiMode::Never,
    ensures
        next_statement(ctx.nodes@, id) is None,
        !required_semicolon(ctx, id, true),
        !required_semicolon(ctx, id, false),
        !(spec_run(rule, ctx, id) matches Some(p) && p.0.kind
            == DiagnosticKind::MissingSemicolon),
{
}

/// Fix idempotence, `Always` insertion: after the suggested semicolon is
/// added, the statement carries a terminal semicolon and `Always` mode
/// has nothing left to flag on it.
pub proof fn lemma_fix_idempotent_insert_always(
    is_expr: bool,
    should: bool,
    cur: Seq<u8>,
    next: Option<Seq<u8>>,
    span: Span,
    span2: Span,
)
    requires
        spec_verdict(SemiMode::Always, is_expr, should, cur, next, span) is Some,
    ensures
        spec_verdict(SemiMode::Always, is_expr, should, cur.push(59), next, span2) is None,
{
    lemma_push_semicolon(cur);
}

/// Fix idempotence, `Never` insertion on an expression statement: the
/// added semicolon is load-bearing against the still-hazardous sibling,
/// so re-running flags nothing on the fixed statement.
pub proof fn lemma_fix_idempotent_insert_never(
    should: bool,
    cur: Seq<u8>,
    next: Option<Seq<u8>>,
    span: Span,
    span2: Span,
)
    requires
        spec_verdict(SemiMode::Never, true, should, cur, next, span) matches Some(p) && p.0.kind
            == DiagnosticKind::MissingSemicolon,
    ensures
        spec_verdict(SemiMode::Never, true, should, cur.push(59), next, span2) is None,
{
    lemma_push_semicolon(cur);
}

/// Fix idempotence, deletion: after the flagged semicolon is removed,
/// re-running flags nothing on the fixed statement — stated for the
/// texts where the removal neither uncovers an earlier semicolon nor
/// leaves a trailing byte that makes the sibling hazardous after all.
pub proof fn lemma_fix_idempotent_delete(
    is_expr: bool,
    should: bool,
    cur: Seq<u8>,
    next: Option<Seq<u8>>,
    span: Span,
    span2: Span,
    rel: int,
)
    requires
        spec_verdict(SemiMode::Never, is_expr, should, cur, next, span) matches Some(p) && p.1
            is Delete,
        last_semicolon(cur) == Some(rel),
        !has_terminal_semicolon(cur.remove(rel)),
        !is_expr ==> !hazard_text(false, cur.remove(rel), next),
    ensures
        spec_verdict(SemiMode::Never, is_expr, should, cur.remove(rel), next, span2) is None,
{
}

} // verus!
