//! The checker's model of an already-built syntax tree.
//!
//! The tree is immutable, owned by the collaborator that built it; the
//! checker reads node kinds, byte spans, parent links and the statement
//! lists of the two container kinds (the program root and block
//! statements).  Nodes are referred to by their index in traversal order,
//! so a parent always precedes its children.

use vstd::prelude::*;

use crate::span::Span;

verus! {

/// The closed set of node kinds the checker distinguishes.  Kinds the
/// checker never flags are either listed (because the always-mode
/// predicate names them) or collapsed into `Other`.
#[derive(Clone, Copy, Debug, PartialEq, Eq, Structural)]
pub enum NodeKind {
    Program,
    BlockStatement,
    ExpressionStatement,
    VariableDeclaration,
    ReturnStatement,
    ThrowStatement,
    BreakStatement,
    ContinueStatement,
    ImportDeclaration,
    /// A re-export; checkable only when no declaration body is attached.
    ExportNamedDeclaration { has_declaration: bool },
    /// A default export; checkable only when it wraps a bare expression.
    ExportDefaultDeclaration { is_expression: bool },
    ExportAllDeclaration,
    FunctionDeclaration,
    ClassDeclaration,
    IfStatement,
    WhileStatement,
    ForStatement,
    ForInStatement,
    ForOfStatement,
    DoWhileStatement,
    TryStatement,
    SwitchStatement,
    Other,
}

/// Containers are the nodes that own a statement list: "next statement"
/// is defined by adjacency inside one of these.
pub open spec fn is_container(k: NodeKind) -> bool {
    k == NodeKind::Program || k == NodeKind::BlockStatement
}

/// One node of the tree.
#[derive(Clone, Debug)]
pub struct Node {
    pub kind: NodeKind,
    pub span: Span,
    /// Index of the parent node; `None` only for the root.
    pub parent: Option<usize>,
    /// Spans of this node's statement list in source order; meaningful
    /// only for container kinds, empty elsewhere.
    pub body: Vec<Span>,
}

/// Everything the checker reads: the node table and the source text the
/// spans index into.
pub struct LintContext {
    pub nodes: Vec<Node>,
    pub source: Vec<u8>,
}

impl LintContext {
    /// The tree builder's contract: every span lies within the source and
    /// every parent precedes its child, so ancestor walks terminate.
    pub open spec fn wf(self) -> bool {
        &&& forall|i: int|
            0 <= i < self.nodes@.len() ==> (#[trigger] self.nodes@[i]).span.wf(
                self.source@.len() as int,
            )
        &&& forall|i: int|
            0 <= i < self.nodes@.len() ==> match (#[trigger] self.nodes@[i]).parent {
                Some(p) => p < i,
                None => true,
            }
    }
}

/// The first ancestor of node `i` that is a container, walking parent
/// links; `None` when the walk reaches the root without meeting one.
pub open spec fn container_of(nodes: Seq<Node>, i: int) -> Option<int>
    decreases i,
{
    if 0 <= i < nodes.len() {
        match nodes[i].parent {
            Some(p) => if !(0 <= p < i) {
                None
            } else if is_container(nodes[p as int].kind) {
                Some(p as int)
            } else {
                container_of(nodes, p as int)
            },
            None => None,
        }
    } else {
        None
    }
}

/// The first element of `body` (from index `i` on) whose span fully
/// covers `target`.
pub open spec fn first_containing(body: Seq<Span>, target: Span, i: int) -> Option<int>
    decreases body.len() - i,
{
    if i < 0 || i >= body.len() {
        None
    } else if body[i].spec_contains(target) {
        Some(i)
    } else {
        first_containing(body, target, i + 1)
    }
}

/// The first node (from index `i` on) whose span equals `s`: how a
/// statement-list element is resolved back to a node.
pub open spec fn first_with_span(nodes: Seq<Node>, s: Span, i: int) -> Option<int>
    decreases nodes.len() - i,
{
    if i < 0 || i >= nodes.len() {
        None
    } else if nodes[i].span == s {
        Some(i)
    } else {
        first_with_span(nodes, s, i + 1)
    }
}

/// The span of the statement following node `id` in its enclosing
/// statement list, if any.
pub open spec fn next_statement_span(nodes: Seq<Node>, id: int) -> Option<Span> {
    match container_of(nodes, id) {
        None => None,
        Some(c) => {
            let body = nodes[c].body@;
            match first_containing(body, nodes[id].span, 0) {
                None => None,
                Some(idx) => if idx + 1 < body.len() {
                    Some(body[idx + 1])
                } else {
                    None
                },
            }
        },
    }
}

/// The node holding the statement that follows node `id` in its
/// enclosing statement list; `None` when `id` is last in its list, no
/// container is found, or no node carries the following span.
pub open spec fn next_statement(nodes: Seq<Node>, id: int) -> Option<int> {
    match next_statement_span(nodes, id) {
        None => None,
        Some(s) => first_with_span(nodes, s, 0),
    }
}

} // verus!
