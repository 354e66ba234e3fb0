//! The semicolon rule: configuration, the two policy predicates, the
//! sibling resolver and the policy engine that combines them.

use vstd::prelude::*;

use crate::diagnostic::{semi_missing_diagnostic, semi_unnecessary_diagnostic, Diagnostic, Fix};
use crate::span::Span;
use crate::text::{
    char_end_forward, char_start_back, continuable_end_code, decode_code, ends_with_semicolon,
    first_char_code, first_char_len, has_terminal_semicolon, hazard_start_code, is_continuable_end,
    is_hazard_start, last_char_code, last_char_start, last_semicolon, last_semicolon_index,
    trim_end, trim_end_index, trim_start, trim_start_index,
};
use crate::tree::{
    container_of, first_containing, first_with_span, next_statement, LintContext, NodeKind,
};

verus! {

/// The policy: `Never` omits semicolons except where omission would
/// change meaning; `Always` requires one on every eligible statement.
#[derive(Clone, Copy, Debug, PartialEq, Eq, Structural)]
pub enum SemiMode {
    Never,
    Always,
}

/// Configuration resolved once per rule instantiation.
#[derive(Clone, Copy, Debug, PartialEq, Eq, Structural)]
pub struct SemiConfig {
    pub mode: SemiMode,
}

impl Default for SemiConfig {
    /// The default policy omits semicolons.
    fn default() -> (r: Self)
        ensures
            r == (SemiConfig { mode: SemiMode::Never }),
    {
        SemiConfig { mode: SemiMode::Never }
    }
}

/// The semicolon rule.
#[derive(Debug, Clone)]
pub struct Semi(pub Box<SemiConfig>);

impl Default for Semi {
    fn default() -> (r: Self)
        ensures
            r.0.mode == SemiMode::Never,
    {
        Semi(Box::new(SemiConfig { mode: SemiMode::Never }))
    }
}

/// Resolves the mode from the optional single string argument of the
/// configuration: exactly `"always"` selects `Always`, anything else or
/// nothing selects `Never`.
pub open spec fn mode_of_arg(arg: Option<Seq<char>>) -> SemiMode {
    match arg {
        Some(s) => if s == "always"@ {
            SemiMode::Always
        } else {
            SemiMode::Never
        },
        None => SemiMode::Never,
    }
}

/// Relies on `str`'s equality operator: two string slices compare equal
/// exactly when their character sequences are equal.
#[verifier::external_body]
fn str_eq(a: &str, b: &str) -> (r: bool)
    ensures
        r == (a@ == b@),
{
    a == b
}

/// Declares `serde_json::Value` so that signatures here may carry it; a
/// value of it stays opaque to the verifier.
#[verifier::external_type_specification]
#[verifier::external_body]
pub struct ExValue(serde_json::Value);

/// The elements of a JSON value, when it is an array: a name for what
/// `serde_json::Value::as_array` returns, which depends on the value
/// alone.
pub uninterp spec fn json_array_of(v: serde_json::Value) -> Option<Seq<serde_json::Value>>;

/// The text of a JSON value, when it is a string: a name for what
/// `serde_json::Value::as_str` returns, which depends on the value alone.
pub uninterp spec fn json_str_of(v: serde_json::Value) -> Option<Seq<char>>;

/// Relies on `serde_json::Value::as_array`: borrows the elements exactly
/// when the value is an array, a function of the value alone.
pub assume_specification[ serde_json::Value::as_array ](v: &serde_json::Value) -> (r: Option<
    &Vec<serde_json::Value>,
>)
    ensures
        match r {
            Some(a) => json_array_of(*v) == Some(a@),
            None => json_array_of(*v) is None,
        },
;

/// Relies on `serde_json::Value::as_str`: borrows the text exactly when
/// the value is a string, a function of the value alone.
pub assume_specification[ serde_json::Value::as_str ](v: &serde_json::Value) -> (r: Option<&str>)
    ensures
        match r {
            Some(s) => json_str_of(*v) == Some(s@),
            None => json_str_of(*v) is None,
        },
;

/// The mode a configuration value resolves to: the mode named by the
/// first element of the value when that is an array whose first element
/// is a string, `Never` for every other shape.
pub open spec fn mode_of_value(v: serde_json::Value) -> SemiMode {
    match json_array_of(v) {
        Some(items) => if items.len() > 0 {
            mode_of_arg(json_str_of(items[0]))
        } else {
            SemiMode::Never
        },
        None => SemiMode::Never,
    }
}

impl SemiMode {
    /// The mode named by the configuration's first string argument, if
    /// one was given.
    pub fn from_arg(arg: Option<&str>) -> (r: SemiMode)
        ensures
            r == mode_of_arg(match arg {
                Some(s) => Some(s@),
                None => None,
            }),
    {
        match arg {
            Some(s) => if str_eq(s, "always") {
                SemiMode::Always
            } else {
                SemiMode::Never
            },
            None => SemiMode::Never,
        }
    }
}

/// Which node kinds the checker looks at.  Everything else (blocks,
/// declarations with bodies, compound control flow) is passed over and
/// never produces a diagnostic.
pub open spec fn checkable(k: NodeKind) -> bool {
    match k {
        NodeKind::ExpressionStatement => true,
        NodeKind::VariableDeclaration => true,
        NodeKind::ReturnStatement => true,
        NodeKind::ThrowStatement => true,
        NodeKind::BreakStatement => true,
        NodeKind::ContinueStatement => true,
        NodeKind::ImportDeclaration => true,
        NodeKind::ExportNamedDeclaration { has_declaration } => !has_declaration,
        NodeKind::ExportDefaultDeclaration { is_expression } => is_expression,
        NodeKind::ExportAllDeclaration => true,
        _ => false,
    }
}

/// Only plain expression statements carry this flag; it loosens the
/// hazard predicate, which then no longer looks at the statement's
/// trailing byte.
pub open spec fn expression_like(k: NodeKind) -> bool {
    k == NodeKind::ExpressionStatement
}

/// Whether `Always` mode asks for a semicolon on this kind at all:
/// block-bodied constructs and compound control flow are never
/// semicolon-terminated.
pub open spec fn always_requires_semicolon(k: NodeKind) -> bool {
    match k {
        NodeKind::BlockStatement => false,
        NodeKind::FunctionDeclaration => false,
        NodeKind::ClassDeclaration => false,
        NodeKind::IfStatement => false,
        NodeKind::WhileStatement => false,
        NodeKind::ForStatement => false,
        NodeKind::ForInStatement => false,
        NodeKind::ForOfStatement => false,
        NodeKind::DoWhileStatement => false,
        NodeKind::TryStatement => false,
        NodeKind::SwitchStatement => false,
        _ => true,
    }
}

/// The bytes the span covers.
pub open spec fn range_of(source: Seq<u8>, s: Span) -> Seq<u8> {
    source.subrange(s.start as int, s.end as int)
}

/// The omission hazard, over statement texts.  A missing semicolon is
/// dangerous exactly when the next statement's first non-whitespace
/// character could open a continuation, and the current statement either
/// is expression-like or trails off in a character that could continue
/// as an expression.
pub open spec fn hazard_text(is_expr: bool, cur: Seq<u8>, next: Option<Seq<u8>>) -> bool {
    match next {
        None => false,
        Some(n) => {
            let t = trim_start(n);
            t.len() > 0 && is_hazard_start(first_char_code(t)) && (is_expr || {
                let c = trim_end(cur);
                c.len() > 0 && is_continuable_end(last_char_code(c))
            })
        },
    }
}

/// The text of the statement following node `id`, if one resolves.
pub open spec fn next_text(ctx: LintContext, id: int) -> Option<Seq<u8>> {
    match next_statement(ctx.nodes@, id) {
        None => None,
        Some(n) => Some(range_of(ctx.source@, ctx.nodes@[n].span)),
    }
}

/// Whether node `id` needs a semicolon to avoid the omission hazard.
pub open spec fn required_semicolon(ctx: LintContext, id: int, is_expr: bool) -> bool {
    hazard_text(is_expr, range_of(ctx.source@, ctx.nodes@[id].span), next_text(ctx, id))
}

/// The span of the one semicolon a delete edit removes: the last
/// semicolon inside `span`, if there is one.
pub open spec fn semicolon_span(source: Seq<u8>, span: Span) -> Option<Span> {
    match last_semicolon(range_of(source, span)) {
        Some(rel) => Some(
            Span { start: (span.start + rel) as u32, end: (span.start + rel + 1) as u32 },
        ),
        None => None,
    }
}

/// The policy verdict on one statement, over its text: zero or one
/// diagnostic, each paired with its one corrective edit.
pub open spec fn spec_verdict(
    mode: SemiMode,
    is_expr: bool,
    should: bool,
    cur: Seq<u8>,
    next: Option<Seq<u8>>,
    span: Span,
) -> Option<(Diagnostic, Fix)> {
    if mode == SemiMode::Never {
        if has_terminal_semicolon(cur) {
            if !hazard_text(is_expr, cur, next) {
                match last_semicolon(cur) {
                    Some(rel) => {
                        let ss = Span {
                            start: (span.start + rel) as u32,
                            end: (span.start + rel + 1) as u32,
                        };
                        Some(
                            (
                                Diagnostic {
                                    kind: crate::diagnostic::DiagnosticKind::UnnecessarySemicolon,
                                    span: ss,
                                },
                                Fix::Delete { span: ss },
                            ),
                        )
                    },
                    None => None,
                }
            } else {
                None
            }
        } else {
            if hazard_text(is_expr, cur, next) {
                Some(
                    (
                        Diagnostic {
                            kind: crate::diagnostic::DiagnosticKind::MissingSemicolon,
                            span: Span { start: span.end, end: span.end },
                        },
                        Fix::InsertSemicolonAfter { span },
                    ),
                )
            } else {
                None
            }
        }
    } else {
        if !has_terminal_semicolon(cur) && should {
            Some(
                (
                    Diagnostic {
                        kind: crate::diagnostic::DiagnosticKind::MissingSemicolon,
                        span: Span { start: span.end, end: span.end },
                    },
                    Fix::InsertSemicolonAfter { span },
                ),
            )
        } else {
            None
        }
    }
}

/// What `Semi::run` produces for node `id`: nothing for kinds the
/// checker passes over, the policy verdict on the statement's own text
/// and its resolved next sibling otherwise.
pub open spec fn spec_run(rule: Semi, ctx: LintContext, id: int) -> Option<(Diagnostic, Fix)> {
    let k = ctx.nodes@[id].kind;
    if checkable(k) {
        spec_verdict(
            rule.spec_mode(),
            expression_like(k),
            always_requires_semicolon(k),
            range_of(ctx.source@, ctx.nodes@[id].span),
            next_text(ctx, id),
            ctx.nodes@[id].span,
        )
    } else {
        None
    }
}

impl Semi {
    /// The configured mode.
    pub open spec fn spec_mode(self) -> SemiMode {
        self.0.mode
    }

    /// Builds the rule from its configuration value: an optional array
    /// whose first element, when it is the string `"always"`, selects
    /// `Always` mode; any other shape selects `Never`.
    pub fn from_configuration(value: serde_json::Value) -> (r: Self)
        ensures
            r.0.mode == mode_of_value(value),
    {
        let arg: Option<&str> = match value.as_array() {
            Some(items) => if items.len() > 0 {
                items[0].as_str()
            } else {
                None
            },
            None => None,
        };
        let mode = SemiMode::from_arg(arg);
        Semi(Box::new(SemiConfig { mode }))
    }

    /// Finds, inside one statement list, the element covering the target
    /// node and resolves the following element back to a node by a
    /// span-equality scan over the whole node table.
    pub fn find_next_in_body(
        &self,
        body: &Vec<Span>,
        target_node_id: usize,
        ctx: &LintContext,
    ) -> (r: Option<usize>)
        requires
            target_node_id < ctx.nodes@.len(),
        ensures
            ({
                let expected = match first_containing(
                    body@,
                    ctx.nodes@[target_node_id as int].span,
                    0,
                ) {
                    Some(idx) => if idx + 1 < body@.len() {
                        first_with_span(ctx.nodes@, body@[idx + 1], 0)
                    } else {
                        None::<int>
                    },
                    None => None::<int>,
                };
                match r {
                    Some(n) => expected == Some(n as int) && n < ctx.nodes@.len(),
                    None => expected is None,
                }
            }),
    {
        let target_span = ctx.nodes[target_node_id].span;
        let mut i: usize = 0;
        let n = body.len();
        while i < n
            invariant
                i <= n == body@.len(),
                target_span == ctx.nodes@[target_node_id as int].span,
                first_containing(body@, target_span, 0) == first_containing(
                    body@,
                    target_span,
                    i as int,
                ),
            decreases n - i,
        {
            if body[i].contains(target_span) {
                if i + 1 < n {
                    let next_span = body[i + 1];
                    let mut j: usize = 0;
                    let m = ctx.nodes.len();
                    while j < m
                        invariant
                            j <= m == ctx.nodes@.len(),
                            i + 1 < n == body@.len(),
                            target_span == ctx.nodes@[target_node_id as int].span,
                            body@[i as int].spec_contains(target_span),
                            first_containing(body@, target_span, 0) == first_containing(
                                body@,
                                target_span,
                                i as int,
                            ),
                            next_span == body@[i + 1],
                            first_with_span(ctx.nodes@, next_span, 0) == first_with_span(
                                ctx.nodes@,
                                next_span,
                                j as int,
                            ),
                        decreases m - j,
                    {
                        if ctx.nodes[j].span.start == next_span.start && ctx.nodes[j].span.end
                            == next_span.end {
                            proof {
                                assert(ctx.nodes@[j as int].span == next_span);
                                assert(first_with_span(ctx.nodes@, next_span, j as int) == Some(
                                    j as int,
                                ));
                                assert(first_containing(body@, target_span, i as int) == Some(
                                    i as int,
                                ));
                            }
                            return Some(j);
                        }
                        j = j + 1;
                    }
                    proof {
                        assert(first_with_span(ctx.nodes@, next_span, j as int) is None);
                        assert(first_containing(body@, target_span, i as int) == Some(i as int));
                    }
                    return None;
                }
                proof {
                    assert(first_containing(body@, target_span, i as int) == Some(i as int));
                }
                return None;
            }
            i = i + 1;
        }
        proof {
            assert(first_containing(body@, target_span, i as int) is None);
        }
        None
    }

    /// Walks ancestor links from the node to the nearest enclosing
    /// statement-list container and returns the node of the statement
    /// that follows it there, if any.
    pub fn get_next_statement(&self, node_id: usize, ctx: &LintContext) -> (r: Option<usize>)
        requires
            ctx.wf(),
            node_id < ctx.nodes@.len(),
        ensures
            (match r {
                Some(n) => next_statement(ctx.nodes@, node_id as int) == Some(n as int) && n
                    < ctx.nodes@.len(),
                None => next_statement(ctx.nodes@, node_id as int) is None,
            }),
    {
        let mut current: usize = node_id;
        loop
            invariant
                ctx.wf(),
                current <= node_id < ctx.nodes@.len(),
                container_of(ctx.nodes@, node_id as int) == container_of(
                    ctx.nodes@,
                    current as int,
                ),
            decreases current,
        {
            let parent = match ctx.nodes[current].parent {
                Some(p) => p,
                None => {
                    return None;
                },
            };
            let k = ctx.nodes[parent].kind;
            match k {
                NodeKind::Program | NodeKind::BlockStatement => {
                    return self.find_next_in_body(&ctx.nodes[parent].body, node_id, ctx);
                },
                _ => {
                    current = parent;
                },
            }
        }
    }

    /// Whether omitting this statement's semicolon would create an
    /// automatic-termination hazard with the statement that follows it.
    pub fn is_semicolon_required(
        &self,
        node_id: usize,
        ctx: &LintContext,
        is_expression_statement: bool,
    ) -> (r: bool)
        requires
            ctx.wf(),
            node_id < ctx.nodes@.len(),
        ensures
            r == required_semicolon(*ctx, node_id as int, is_expression_statement),
    {
        let next_id = match self.get_next_statement(node_id, ctx) {
            Some(n) => n,
            None => {
                return false;
            },
        };
        let nspan = ctx.nodes[next_id].span;
        let nlo = nspan.start as usize;
        let nhi = nspan.end as usize;
        let l = trim_start_index(&ctx.source, nlo, nhi);
        proof {
            let nt = trim_start(ctx.source@.subrange(nlo as int, nhi as int));
            assert(nt.len() == nhi - l);
        }
        if l >= nhi {
            return false;
        }
        let j = char_end_forward(&ctx.source, l, nhi);
        let u = decode_code(&ctx.source, l, j);
        proof {
            let nt = trim_start(ctx.source@.subrange(nlo as int, nhi as int));
            assert(nt.take(j - l) =~= ctx.source@.subrange(l as int, j as int));
            assert(first_char_code(nt) == u);
        }
        if !hazard_start_code(u) {
            return false;
        }
        if is_expression_statement {
            return true;
        }
        let cspan = ctx.nodes[node_id].span;
        let clo = cspan.start as usize;
        let chi = cspan.end as usize;
        let t = trim_end_index(&ctx.source, clo, chi);
        proof {
            let ct = trim_end(ctx.source@.subrange(clo as int, chi as int));
            assert(ct.len() == t - clo);
        }
        if t <= clo {
            return false;
        }
        let k = char_start_back(&ctx.source, clo, t);
        let v = decode_code(&ctx.source, k, t);
        proof {
            let ct = trim_end(ctx.source@.subrange(clo as int, chi as int));
            assert(ct.skip(k - clo) =~= ctx.source@.subrange(k as int, t as int));
            assert(last_char_code(ct) == v);
        }
        continuable_end_code(v)
    }

    /// Whether `Always` mode asks for a semicolon on this node's kind.
    pub fn should_have_semicolon(&self, node_id: usize, ctx: &LintContext) -> (r: bool)
        requires
            node_id < ctx.nodes@.len(),
        ensures
            r == always_requires_semicolon(ctx.nodes@[node_id as int].kind),
    {
        match ctx.nodes[node_id].kind {
            NodeKind::BlockStatement | NodeKind::FunctionDeclaration | NodeKind::ClassDeclaration
                | NodeKind::IfStatement | NodeKind::WhileStatement | NodeKind::ForStatement
                | NodeKind::ForInStatement | NodeKind::ForOfStatement
                | NodeKind::DoWhileStatement | NodeKind::TryStatement
                | NodeKind::SwitchStatement => false,
            _ => true,
        }
    }

    /// The exact one-byte span of the last semicolon inside `span`,
    /// found by a reverse scan of the statement's source text.
    pub fn find_semicolon_position(&self, ctx: &LintContext, span: Span) -> (r: Option<Span>)
        requires
            span.wf(ctx.source@.len() as int),
        ensures
            r == semicolon_span(ctx.source@, span),
    {
        match last_semicolon_index(&ctx.source, span.start as usize, span.end as usize) {
            Some(i) => Some(Span::new(i as u32, (i + 1) as u32)),
            None => None,
        }
    }

    /// The policy engine for one checkable statement: combines the mode,
    /// the presence of a terminal semicolon, and the two predicates into
    /// zero or one diagnostic-and-fix pair.
    pub fn check_statement_semi(
        &self,
        node_id: usize,
        ctx: &LintContext,
        span: Span,
        is_expression_statement: bool,
    ) -> (r: Option<(Diagnostic, Fix)>)
        requires
            ctx.wf(),
            node_id < ctx.nodes@.len(),
            span == ctx.nodes@[node_id as int].span,
        ensures
            r == spec_verdict(
                self.spec_mode(),
                is_expression_statement,
                always_requires_semicolon(ctx.nodes@[node_id as int].kind),
                range_of(ctx.source@, span),
                next_text(*ctx, node_id as int),
                span,
            ),
    {
        let has_semicolon = ends_with_semicolon(&ctx.source, span.start as usize, span.end as usize);
        match self.0.mode {
            SemiMode::Never => {
                if has_semicolon {
                    if !self.is_semicolon_required(node_id, ctx, is_expression_statement) {
                        match self.find_semicolon_position(ctx, span) {
                            Some(semi_span) => Some(
                                (
                                    semi_unnecessary_diagnostic(semi_span),
                                    Fix::Delete { span: semi_span },
                                ),
                            ),
                            None => None,
                        }
                    } else {
                        None
                    }
                } else {
                    if self.is_semicolon_required(node_id, ctx, is_expression_statement) {
                        let end_span = Span::new(span.end, span.end);
                        Some(
                            (
                                semi_missing_diagnostic(end_span),
                                Fix::InsertSemicolonAfter { span },
                            ),
                        )
                    } else {
                        None
                    }
                }
            },
            SemiMode::Always => {
                if !has_semicolon && self.should_have_semicolon(node_id, ctx) {
                    let end_span = Span::new(span.end, span.end);
                    Some((semi_missing_diagnostic(end_span), Fix::InsertSemicolonAfter { span }))
                } else {
                    None
                }
            },
        }
    }

    /// The entry point the host traversal invokes once per visited node:
    /// zero or one diagnostic-and-fix pair.
    pub fn run(&self, node_id: usize, ctx: &LintContext) -> (r: Option<(Diagnostic, Fix)>)
        requires
            ctx.wf(),
            node_id < ctx.nodes@.len(),
        ensures
            r == spec_run(*self, *ctx, node_id as int),
    {
        let span = ctx.nodes[node_id].span;
        match ctx.nodes[node_id].kind {
            NodeKind::ExpressionStatement => self.check_statement_semi(node_id, ctx, span, true),
            NodeKind::VariableDeclaration => self.check_statement_semi(node_id, ctx, span, false),
            NodeKind::ReturnStatement => self.check_statement_semi(node_id, ctx, span, false),
            NodeKind::ThrowStatement => self.check_statement_semi(node_id, ctx, span, false),
            NodeKind::BreakStatement => self.check_statement_semi(node_id, ctx, span, false),
            NodeKind::ContinueStatement => self.check_statement_semi(node_id, ctx, span, false),
            NodeKind::ImportDeclaration => self.check_statement_semi(node_id, ctx, span, false),
            NodeKind::ExportNamedDeclaration { has_declaration } => {
                if !has_declaration {
                    self.check_statement_semi(node_id, ctx, span, false)
                } else {
                    None
                }
            },
            NodeKind::ExportDefaultDeclaration { is_expression } => {
                if is_expression {
                    self.check_statement_semi(node_id, ctx, span, false)
                } else {
                    None
                }
            },
            NodeKind::ExportAllDeclaration => self.check_statement_semi(node_id, ctx, span, false),
            _ => None,
        }
    }
}

} // verus!
