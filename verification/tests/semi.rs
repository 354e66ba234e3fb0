use semi::diagnostic::{apply_fix, Diagnostic, DiagnosticKind, Fix};
use semi::rule::{Semi, SemiConfig, SemiMode};
use semi::span::Span;
use semi::tree::{LintContext, Node, NodeKind};
use serde_json::Value;

fn never() -> Semi {
    Semi(Box::new(SemiConfig { mode: SemiMode::Never }))
}

fn always() -> Semi {
    Semi(Box::new(SemiConfig { mode: SemiMode::Always }))
}

/// A program whose statement list is exactly `stmts`, each a direct child
/// of the program root.
fn flat_ctx(source: &str, stmts: &[(NodeKind, u32, u32)]) -> LintContext {
    let len = source.len() as u32;
    let body: Vec<Span> = stmts.iter().map(|&(_, s, e)| Span::new(s, e)).collect();
    let mut nodes = vec![Node { kind: NodeKind::Program, span: Span::new(0, len), parent: None, body }];
    for &(k, s, e) in stmts {
        nodes.push(Node { kind: k, span: Span::new(s, e), parent: Some(0), body: Vec::new() });
    }
    LintContext { nodes, source: source.as_bytes().to_vec() }
}

/// A program holding one function declaration whose body (an own node
/// that is not a block statement) holds one return statement.
fn fn_return_ctx(source: &str, brace: u32, rs: u32, re: u32) -> LintContext {
    let len = source.len() as u32;
    let nodes = vec![
        Node {
            kind: NodeKind::Program,
            span: Span::new(0, len),
            parent: None,
            body: vec![Span::new(0, len)],
        },
        Node {
            kind: NodeKind::FunctionDeclaration,
            span: Span::new(0, len),
            parent: Some(0),
            body: Vec::new(),
        },
        Node { kind: NodeKind::Other, span: Span::new(brace, len), parent: Some(1), body: Vec::new() },
        Node { kind: NodeKind::ReturnStatement, span: Span::new(rs, re), parent: Some(2), body: Vec::new() },
    ];
    LintContext { nodes, source: source.as_bytes().to_vec() }
}

/// Drive the rule over every node, as the host traversal would.
fn run_all(rule: &Semi, ctx: &LintContext) -> Vec<(Diagnostic, Fix)> {
    let mut out = Vec::new();
    for id in 0..ctx.nodes.len() {
        if let Some(p) = rule.run(id, ctx) {
            out.push(p);
        }
    }
    out
}

fn fixed(source: &str, fix: &Fix) -> String {
    let out = apply_fix(&source.as_bytes().to_vec(), fix);
    String::from_utf8(out).unwrap()
}

const VD: NodeKind = NodeKind::VariableDeclaration;
const ES: NodeKind = NodeKind::ExpressionStatement;
const OT: NodeKind = NodeKind::Other;

#[test]
fn test() {
    // Standard Style (never) - correct cases
    assert!(run_all(&never(), &flat_ctx("var a = b", &[(VD, 0, 9)])).is_empty());
    assert!(run_all(&never(), &flat_ctx("var a = b\nvar c = d", &[(VD, 0, 9), (VD, 10, 19)]))
        .is_empty());
    assert!(run_all(&never(), &fn_return_ctx("function foo() { return 'bar' }", 15, 17, 29))
        .is_empty());
    assert!(run_all(
        &never(),
        &flat_ctx("const message = 'Hello'\nconsole.log(message)", &[(VD, 0, 23), (ES, 24, 44)])
    )
    .is_empty());

    // Required semicolons to avoid ASI
    assert!(run_all(
        &never(),
        &flat_ctx("var a = b\n;(function() {})()", &[(VD, 0, 9), (OT, 10, 11), (ES, 11, 28)])
    )
    .is_empty());
    assert!(run_all(
        &never(),
        &flat_ctx("var a = b\n;[1, 2, 3].forEach(fn)", &[(VD, 0, 9), (OT, 10, 11), (ES, 11, 32)])
    )
    .is_empty());
    assert!(run_all(
        &never(),
        &flat_ctx("var a = b\n;`template`", &[(VD, 0, 9), (OT, 10, 11), (ES, 11, 21)])
    )
    .is_empty());

    // Always mode - correct cases
    assert!(run_all(&always(), &flat_ctx("var a = b;", &[(VD, 0, 10)])).is_empty());
    assert!(run_all(&always(), &flat_ctx("var a = b;\nvar c = d;", &[(VD, 0, 10), (VD, 11, 21)]))
        .is_empty());
    assert!(run_all(&always(), &fn_return_ctx("function foo() { return 'bar'; }", 15, 17, 30))
        .is_empty());

    // Standard Style (never) - unnecessary semicolons
    let d = run_all(&never(), &flat_ctx("var a = b;", &[(VD, 0, 10)]));
    assert_eq!(
        d,
        vec![(
            Diagnostic { kind: DiagnosticKind::UnnecessarySemicolon, span: Span::new(9, 10) },
            Fix::Delete { span: Span::new(9, 10) },
        )]
    );

    let d = run_all(
        &never(),
        &flat_ctx(
            "const message = 'Hello';\nconsole.log(message);",
            &[(VD, 0, 24), (ES, 25, 46)],
        ),
    );
    assert_eq!(d.len(), 2);
    assert_eq!(d[0].0.kind, DiagnosticKind::UnnecessarySemicolon);
    assert_eq!(d[0].0.span, Span::new(23, 24));
    assert_eq!(d[1].0.kind, DiagnosticKind::UnnecessarySemicolon);
    assert_eq!(d[1].0.span, Span::new(45, 46));

    let d = run_all(&never(), &fn_return_ctx("function foo() { return 'bar'; }", 15, 17, 30));
    assert_eq!(
        d,
        vec![(
            Diagnostic { kind: DiagnosticKind::UnnecessarySemicolon, span: Span::new(29, 30) },
            Fix::Delete { span: Span::new(29, 30) },
        )]
    );

    // Missing required semicolons for ASI
    let d = run_all(
        &never(),
        &flat_ctx("var a = b\n(function() {})()", &[(VD, 0, 9), (ES, 10, 27)]),
    );
    assert_eq!(
        d,
        vec![(
            Diagnostic { kind: DiagnosticKind::MissingSemicolon, span: Span::new(9, 9) },
            Fix::InsertSemicolonAfter { span: Span::new(0, 9) },
        )]
    );

    let d = run_all(
        &never(),
        &flat_ctx("var a = b\n[1, 2, 3].forEach(fn)", &[(VD, 0, 9), (ES, 10, 31)]),
    );
    assert_eq!(d.len(), 1);
    assert_eq!(d[0].0.kind, DiagnosticKind::MissingSemicolon);
    assert_eq!(d[0].0.span, Span::new(9, 9));

    // Always mode - missing semicolons
    let d = run_all(&always(), &flat_ctx("var a = b", &[(VD, 0, 9)]));
    assert_eq!(
        d,
        vec![(
            Diagnostic { kind: DiagnosticKind::MissingSemicolon, span: Span::new(9, 9) },
            Fix::InsertSemicolonAfter { span: Span::new(0, 9) },
        )]
    );
    let d = run_all(&always(), &flat_ctx("const message = 'Hello'", &[(VD, 0, 23)]));
    assert_eq!(d.len(), 1);
    assert_eq!(d[0].0.kind, DiagnosticKind::MissingSemicolon);
    assert_eq!(d[0].0.span, Span::new(23, 23));

    // Remove unnecessary semicolons
    let d = run_all(&never(), &flat_ctx("var a = b;", &[(VD, 0, 10)]));
    assert_eq!(fixed("var a = b;", &d[0].1), "var a = b");
    let d = run_all(&never(), &flat_ctx("const message = 'Hello';", &[(VD, 0, 24)]));
    assert_eq!(fixed("const message = 'Hello';", &d[0].1), "const message = 'Hello'");

    // Add required semicolons
    let d = run_all(
        &never(),
        &flat_ctx("var a = b\n(function() {})()", &[(VD, 0, 9), (ES, 10, 27)]),
    );
    assert_eq!(fixed("var a = b\n(function() {})()", &d[0].1), "var a = b;\n(function() {})()");
    let d = run_all(
        &never(),
        &flat_ctx("var a = b\n[1, 2, 3].forEach(fn)", &[(VD, 0, 9), (ES, 10, 31)]),
    );
    assert_eq!(
        fixed("var a = b\n[1, 2, 3].forEach(fn)", &d[0].1),
        "var a = b;\n[1, 2, 3].forEach(fn)"
    );

    // Always mode fixes
    let d = run_all(&always(), &flat_ctx("var a = b", &[(VD, 0, 9)]));
    assert_eq!(fixed("var a = b", &d[0].1), "var a = b;");
}

#[test]
fn configuration_resolves_mode() {
    let arr = |s: &str| Value::Array(vec![Value::String(s.to_string())]);
    assert_eq!(Semi::from_configuration(arr("always")).0.mode, SemiMode::Always);
    assert_eq!(Semi::from_configuration(arr("never")).0.mode, SemiMode::Never);
    assert_eq!(Semi::from_configuration(arr("Always")).0.mode, SemiMode::Never);
    assert_eq!(Semi::from_configuration(Value::Array(Vec::new())).0.mode, SemiMode::Never);
    assert_eq!(
        Semi::from_configuration(Value::Array(vec![Value::Bool(true)])).0.mode,
        SemiMode::Never
    );
    assert_eq!(Semi::from_configuration(Value::Null).0.mode, SemiMode::Never);
    assert_eq!(Semi::default().0.mode, SemiMode::Never);
    assert_eq!(SemiConfig::default().mode, SemiMode::Never);
}

#[test]
fn diagnostic_texts() {
    let d = semi::diagnostic::semi_missing_diagnostic(Span::new(3, 3));
    assert_eq!(d.message(), "Missing semicolon to avoid ASI issues");
    assert_eq!(d.help(), "Add semicolon to prevent automatic semicolon insertion problems");
    let d = semi::diagnostic::semi_unnecessary_diagnostic(Span::new(1, 2));
    assert_eq!(d.message(), "Unnecessary semicolon");
    assert_eq!(d.help(), "JavaScript Standard Style: avoid unnecessary semicolons");
}

#[test]
fn hazard_operator_start() {
    // A throw statement ending in an identifier, followed by a `+` line.
    let ctx = flat_ctx("throw x\n+y", &[(NodeKind::ThrowStatement, 0, 7), (ES, 8, 10)]);
    let d = run_all(&never(), &ctx);
    assert_eq!(d.len(), 1);
    assert_eq!(d[0].0.kind, DiagnosticKind::MissingSemicolon);
    assert_eq!(d[0].0.span, Span::new(7, 7));
}

#[test]
fn hazard_needs_continuable_ending() {
    // The declaration ends in a quote, which cannot continue as an
    // expression, so the following `(` line is no hazard for it.
    let ctx = flat_ctx("var a = 'x.'\n(f())()", &[(VD, 0, 12), (ES, 13, 20)]);
    assert!(run_all(&never(), &ctx).is_empty());
}

#[test]
fn hazard_template_start() {
    let ctx = flat_ctx("a()\n`t`", &[(ES, 0, 3), (ES, 4, 7)]);
    let d = run_all(&never(), &ctx);
    assert_eq!(d.len(), 1);
    assert_eq!(d[0].0.kind, DiagnosticKind::MissingSemicolon);
    assert_eq!(d[0].0.span, Span::new(3, 3));
}

#[test]
fn no_hazard_across_block_boundary() {
    // The declaration is last in its block: the `(` line after the block
    // is not its sibling, so nothing is flagged.
    let source = "{ var a = b }\n(f())";
    let nodes = vec![
        Node {
            kind: NodeKind::Program,
            span: Span::new(0, 19),
            parent: None,
            body: vec![Span::new(0, 13), Span::new(14, 19)],
        },
        Node {
            kind: NodeKind::BlockStatement,
            span: Span::new(0, 13),
            parent: Some(0),
            body: vec![Span::new(2, 11)],
        },
        Node { kind: VD, span: Span::new(2, 11), parent: Some(1), body: Vec::new() },
        Node { kind: ES, span: Span::new(14, 19), parent: Some(0), body: Vec::new() },
    ];
    let ctx = LintContext { nodes, source: source.as_bytes().to_vec() };
    assert!(run_all(&never(), &ctx).is_empty());
}

#[test]
fn always_mode_skips_block_bodied_kinds() {
    let ctx = flat_ctx("if (a) {}", &[(NodeKind::IfStatement, 0, 9)]);
    assert!(run_all(&always(), &ctx).is_empty());
    let ctx = flat_ctx("import x", &[(NodeKind::ImportDeclaration, 0, 8)]);
    let d = run_all(&always(), &ctx);
    assert_eq!(d.len(), 1);
    assert_eq!(d[0].0.kind, DiagnosticKind::MissingSemicolon);
}

#[test]
fn export_kinds_checkable_only_without_body() {
    let k = NodeKind::ExportNamedDeclaration { has_declaration: true };
    let ctx = flat_ctx("export function f() {}", &[(k, 0, 22)]);
    assert!(run_all(&always(), &ctx).is_empty());
    let k = NodeKind::ExportNamedDeclaration { has_declaration: false };
    let ctx = flat_ctx("export { a }", &[(k, 0, 12)]);
    assert_eq!(run_all(&always(), &ctx).len(), 1);
    let k = NodeKind::ExportDefaultDeclaration { is_expression: false };
    let ctx = flat_ctx("export default class {}", &[(k, 0, 23)]);
    assert!(run_all(&always(), &ctx).is_empty());
    let k = NodeKind::ExportDefaultDeclaration { is_expression: true };
    let ctx = flat_ctx("export default a", &[(k, 0, 16)]);
    assert_eq!(run_all(&always(), &ctx).len(), 1);
}

#[test]
fn sibling_resolution() {
    let ctx = flat_ctx("var a = b\nvar c = d", &[(VD, 0, 9), (VD, 10, 19)]);
    let rule = never();
    // Node 1 is the first declaration, node 2 the second.
    assert_eq!(rule.get_next_statement(1, &ctx), Some(2));
    assert_eq!(rule.get_next_statement(2, &ctx), None);
    assert!(rule.is_semicolon_required(1, &ctx, false) == false);
    assert!(rule.should_have_semicolon(1, &ctx));
}

#[test]
fn semicolon_position_is_last() {
    let rule = never();
    let ctx = flat_ctx("var a = 'x;';", &[(VD, 0, 13)]);
    assert_eq!(rule.find_semicolon_position(&ctx, Span::new(0, 13)), Some(Span::new(12, 13)));
    let d = run_all(&never(), &ctx);
    assert_eq!(d[0].0.span, Span::new(12, 13));
    assert_eq!(fixed("var a = 'x;';", &d[0].1), "var a = 'x;'");
    let ctx = flat_ctx("var a = b", &[(VD, 0, 9)]);
    assert_eq!(rule.find_semicolon_position(&ctx, Span::new(0, 9)), None);
}

#[test]
fn hazard_sees_unicode_letter_ending() {
    // The declaration ends in a two-byte letter, which is alphanumeric,
    // so the `(` line after it is a hazard.
    let src = "var a = \u{e9}\n(f())()";
    let ctx = flat_ctx(src, &[(VD, 0, 10), (ES, 11, 18)]);
    let d = run_all(&never(), &ctx);
    assert_eq!(d.len(), 1);
    assert_eq!(d[0].0.kind, DiagnosticKind::MissingSemicolon);
    assert_eq!(d[0].0.span, Span::new(10, 10));
}

#[test]
fn trim_sees_unicode_whitespace() {
    // A no-break space after the semicolon is whitespace: trimming it
    // uncovers the semicolon, which is then flagged in `Never` mode.
    let src = "var a = b;\u{a0}";
    let ctx = flat_ctx(src, &[(VD, 0, 12)]);
    let d = run_all(&never(), &ctx);
    assert_eq!(d.len(), 1);
    assert_eq!(d[0].0.kind, DiagnosticKind::UnnecessarySemicolon);
    assert_eq!(d[0].0.span, Span::new(9, 10));
}

#[test]
fn apply_fix_edits_one_byte() {
    let src = "abc;def".as_bytes().to_vec();
    let out = apply_fix(&src, &Fix::Delete { span: Span::new(3, 4) });
    assert_eq!(out, "abcdef".as_bytes().to_vec());
    let out = apply_fix(&src, &Fix::InsertSemicolonAfter { span: Span::new(0, 7) });
    assert_eq!(out, "abc;def;".as_bytes().to_vec());
}
