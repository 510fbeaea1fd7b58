//! What a traversal records, as a function of the tree alone.
//!
//! A block's entries are those of its statements, in order, each entry
//! carrying the number of the statement it was found in; the trailing
//! expression counts as one more statement. A nested block or a closure is
//! one entry of the enclosing block and holds its own entries inside.

use crate::provenance::origin_of;
use crate::syntax::{
    Block, BlockCheckMode, Child, Def, Expr, ExprKind, Function, Span, Stmt,
};
use crate::unsafe_ast::{
    indexed_at, ty_is_foreign, ty_is_unsafe, unsafety_flag, BlockView, CrateView, FnDeclView,
    IndexedView, NodeView, Unsafe, FFI,
};
use vstd::prelude::*;

verus! {

/// Whether a block carries a safety annotation that its author wrote.
pub open spec fn block_flag(rules: BlockCheckMode) -> bool {
    match rules {
        BlockCheckMode::UnsafeBlock(source)
        | BlockCheckMode::PushUnsafeBlock(source)
        | BlockCheckMode::PopUnsafeBlock(source) => source is UserProvided,
        _ => false,
    }
}

/// The entry for `item`, found at `span` in statement `index`.
pub open spec fn site(index: u64, item: NodeView, span: Span) -> IndexedView {
    indexed_at(index, item, span, origin_of(span))
}

/// What an expression is flagged as, by itself: a call whose target needs
/// an annotation or is foreign, a dereference of a raw pointer, inline
/// machine code, or a path to a mutable global.
pub open spec fn flagged(e: Expr) -> Option<NodeView> {
    match e.kind {
        ExprKind::Call(ty) | ExprKind::MethodCall(ty) => if ty_is_unsafe(ty) || ty_is_foreign(
            ty,
        ) {
            Some(NodeView::Call(Unsafe { unsaf: ty_is_unsafe(ty) }, FFI { is_ffi: ty_is_foreign(ty) }))
        } else {
            None
        },
        ExprKind::Deref(ty) => if ty is RawPtr {
            Some(NodeView::Deref)
        } else {
            None
        },
        ExprKind::InlineAsm => Some(NodeView::InlineASM),
        ExprKind::Path(def) => if def == Def::Static(true) {
            Some(NodeView::MutStatic)
        } else {
            None
        },
        ExprKind::Other => None,
    }
}

/// The entries recorded for an expression met in statement `index`: its own
/// entry, if it is flagged, then those of what it contains.
pub open spec fn expr_items(e: Expr, index: u64) -> Seq<IndexedView>
    decreases e, 0nat,
{
    let own = match flagged(e) {
        Some(node) => seq![site(index, node, e.span)],
        None => Seq::empty(),
    };
    own + children_items(e.children@, e.children@.len(), index)
}

/// The entries recorded for the first `n` of `children`, met in statement
/// `index`.
pub open spec fn children_items(children: Seq<Child>, n: nat, index: u64) -> Seq<IndexedView>
    decreases children, n,
{
    if n == 0 || n > children.len() {
        Seq::empty()
    } else {
        children_items(children, (n - 1) as nat, index) + child_items(children[n - 1], index)
    }
}

/// The entries recorded for one child. A block or a closure is a single
/// entry, whatever it holds.
pub open spec fn child_items(child: Child, index: u64) -> Seq<IndexedView>
    decreases child, 0nat,
{
    match child {
        Child::Expr(e) => expr_items(e, index),
        Child::Block(b) => seq![site(index, NodeView::InnerBlock(block_summary(b)), b.span)],
        Child::Closure(c) => seq![site(index, NodeView::Closure(block_summary(c.body)), c.span)],
    }
}

/// The entries recorded for the first `n` of `stmts`, the first of which is
/// statement `base`.
pub open spec fn stmts_items(stmts: Seq<Stmt>, n: nat, base: u64) -> Seq<IndexedView>
    decreases stmts, n,
{
    if n == 0 || n > stmts.len() {
        Seq::empty()
    } else {
        stmts_items(stmts, (n - 1) as nat, base) + children_items(
            stmts[n - 1].children@,
            stmts[n - 1].children@.len(),
            (base + n - 1) as u64,
        )
    }
}

/// The number of statements of a block, the trailing expression counted.
pub open spec fn statement_count(b: Block) -> int {
    b.stmts@.len() + if b.expr is Some {
        1int
    } else {
        0int
    }
}

/// The entries recorded for the statements and the trailing expression of
/// a block whose first statement is statement `base`.
pub open spec fn block_items(b: Block, base: u64) -> Seq<IndexedView>
    decreases b, 0nat,
{
    stmts_items(b.stmts@, b.stmts@.len(), base) + match b.expr {
        Some(e) => expr_items(e, (base + b.stmts@.len()) as u64),
        None => Seq::empty(),
    }
}

/// The summary of a block.
pub open spec fn block_summary(b: Block) -> BlockView
    decreases b, 1nat,
{
    BlockView {
        size: statement_count(b) as u64,
        unsaf: block_flag(b.rules),
        contents: block_items(b, 0),
    }
}

/// The entry of a function or method in the summary of its crate.
pub open spec fn function_summary(f: Function) -> FnDeclView {
    FnDeclView {
        name: f.name@,
        unsaf: unsafety_flag(f.unsafety),
        span: f.span.location@,
        macro_origin: origin_of(f.span),
        block: block_summary(f.body),
    }
}

/// The entries of the first `n` of `functions`.
pub open spec fn functions_summary(functions: Seq<Function>, n: nat) -> Seq<FnDeclView> {
    Seq::new(n, |k: int| function_summary(functions[k]))
}

/// The summary of a crate of the given name and kind.
pub open spec fn crate_summary(
    name: Seq<char>,
    ty: Seq<char>,
    functions: Seq<Function>,
) -> CrateView {
    CrateView { name, ty, functions: functions_summary(functions, functions.len()) }
}

} // verus!
