use unsafe_ast::emitter::{block_unsafety, AnalysisError, UnsafeASTEmitter};
use unsafe_ast::syntax::{
    Abi, Block, BlockCheckMode, Child, Closure, Def, Expansion, Expr, ExprKind, FnSig, Function,
    SourceCrate, Span, Stmt, Ty, UnsafeSource, Unsafety,
};
use unsafe_ast::unsafe_ast::{Indexed, MacroOrigin, UASTNode, Unsafe, FFI};

fn span(location: &str, text: &str) -> Span {
    Span { location: location.to_string(), text: Some(text.to_string()), expansion: None }
}

fn expr(kind: ExprKind, location: &str, text: &str, children: Vec<Child>) -> Expr {
    Expr { kind, span: span(location, text), children }
}

fn stmt(e: Expr) -> Stmt {
    Stmt { children: vec![Child::Expr(e)] }
}

fn block(stmts: Vec<Stmt>, tail: Option<Expr>, rules: BlockCheckMode, location: &str) -> Block {
    Block { stmts, expr: tail, rules, span: span(location, "{ .. }") }
}

fn function(name: &str, unsafety: Unsafety, body: Block) -> Function {
    Function { unsafety, name: name.to_string(), span: span("lib.rs:1:1: 9:2", "fn .."), body }
}

fn foreign() -> Ty {
    Ty::FnDef(FnSig { unsafety: Unsafety::Unsafe, abi: Abi::C })
}

fn plain() -> Ty {
    Ty::FnDef(FnSig { unsafety: Unsafety::Normal, abi: Abi::Rust })
}

#[test]
fn ordinary_statement_advances_the_position() {
    let body = block(
        vec![
            stmt(expr(ExprKind::Other, "lib.rs:2:5: 2:15", "let a = 1;", vec![])),
            stmt(expr(ExprKind::Deref(Ty::RawPtr), "lib.rs:3:5: 3:7", "*p", vec![])),
            stmt(expr(ExprKind::Call(foreign()), "lib.rs:4:5: 4:12", "getpid()", vec![])),
        ],
        None,
        BlockCheckMode::DefaultBlock,
        "lib.rs:1:10: 5:2",
    );
    let mut v = UnsafeASTEmitter::new("demo".to_string(), "bin".to_string());
    v.visit_fn(&function("demo::f", Unsafety::Normal, body));
    let c = v.into_uast();
    assert_eq!(c.functions.len(), 1);
    let b = &c.functions[0].block;
    assert_eq!(b.size, 3);
    assert!(!b.unsaf);
    assert_eq!(b.contents.len(), 2);
    assert_eq!(b.contents[0].index, 1);
    assert_eq!(b.contents[0].item, UASTNode::Deref);
    assert_eq!(b.contents[0].span, "lib.rs:3:5: 3:7");
    assert_eq!(b.contents[0].snippet, "*p");
    assert_eq!(b.contents[1].index, 2);
    assert_eq!(
        b.contents[1].item,
        UASTNode::Call(Unsafe { unsaf: true }, FFI { is_ffi: true })
    );
}

#[test]
fn function_without_flagged_sites_is_still_listed() {
    let body = block(
        vec![stmt(expr(ExprKind::Call(plain()), "lib.rs:2:5: 2:8", "g()", vec![]))],
        Some(expr(ExprKind::Path(Def::Static(false)), "lib.rs:3:5: 3:6", "X", vec![])),
        BlockCheckMode::DefaultBlock,
        "lib.rs:1:10: 4:2",
    );
    let mut v = UnsafeASTEmitter::new("demo".to_string(), "lib".to_string());
    v.visit_fn(&function("demo::quiet", Unsafety::Normal, body));
    let c = v.into_uast();
    assert_eq!(c.name, "demo");
    assert_eq!(c.ty, "lib");
    assert_eq!(c.functions.len(), 1);
    assert_eq!(c.functions[0].name, "demo::quiet");
    assert!(!c.functions[0].unsaf);
    assert_eq!(c.functions[0].block.size, 2);
    assert!(c.functions[0].block.contents.is_empty());
}

#[test]
fn closure_is_a_node_of_the_enclosing_block() {
    let closure_body = block(
        vec![],
        Some(expr(ExprKind::InlineAsm, "lib.rs:3:20: 3:30", "asm!(\"nop\")", vec![])),
        BlockCheckMode::DefaultBlock,
        "lib.rs:3:18: 3:32",
    );
    let closure = Closure { span: span("lib.rs:3:15: 3:32", "|| { asm!(\"nop\") }"), body: closure_body };
    let body = block(
        vec![
            stmt(expr(ExprKind::Other, "lib.rs:2:5: 2:15", "let a = 1;", vec![])),
            stmt(expr(ExprKind::Other, "lib.rs:3:5: 3:33", "let f = || ..;", vec![Child::Closure(closure)])),
        ],
        None,
        BlockCheckMode::DefaultBlock,
        "lib.rs:1:10: 4:2",
    );
    let mut v = UnsafeASTEmitter::new("demo".to_string(), "lib".to_string());
    v.visit_fn(&function("demo::outer", Unsafety::Normal, body));
    let c = v.into_uast();
    assert_eq!(c.functions.len(), 1);
    let b = &c.functions[0].block;
    assert_eq!(b.contents.len(), 1);
    assert_eq!(b.contents[0].index, 1);
    assert_eq!(b.contents[0].span, "lib.rs:3:15: 3:32");
    match &b.contents[0].item {
        UASTNode::Closure(inner) => {
            assert_eq!(inner.size, 1);
            assert_eq!(inner.contents.len(), 1);
            assert_eq!(inner.contents[0].index, 0);
            assert_eq!(inner.contents[0].item, UASTNode::InlineASM);
        }
        other => panic!("expected a closure, found {:?}", other),
    }
}

#[test]
fn nested_block_keeps_its_own_positions() {
    let inner = block(
        vec![
            stmt(expr(ExprKind::Path(Def::Static(true)), "lib.rs:3:9: 3:16", "COUNTER", vec![])),
            stmt(expr(ExprKind::Deref(Ty::Other), "lib.rs:4:9: 4:11", "*r", vec![])),
            stmt(expr(ExprKind::MethodCall(Ty::FnDef(FnSig { unsafety: Unsafety::Unsafe, abi: Abi::Rust })), "lib.rs:5:9: 5:20", "v.get_it()", vec![])),
        ],
        None,
        BlockCheckMode::UnsafeBlock(UnsafeSource::UserProvided),
        "lib.rs:2:5: 6:6",
    );
    let body = block(
        vec![],
        Some(expr(ExprKind::Other, "lib.rs:2:5: 6:6", "..", vec![Child::Block(inner)])),
        BlockCheckMode::DefaultBlock,
        "lib.rs:1:10: 7:2",
    );
    let mut v = UnsafeASTEmitter::new("demo".to_string(), "lib".to_string());
    v.visit_fn(&function("demo::g", Unsafety::Unsafe, body));
    let c = v.into_uast();
    let f = &c.functions[0];
    assert!(f.unsaf);
    assert_eq!(f.block.size, 1);
    assert_eq!(f.block.contents.len(), 1);
    assert_eq!(f.block.contents[0].index, 0);
    match &f.block.contents[0].item {
        UASTNode::InnerBlock(b) => {
            assert!(b.unsaf);
            assert_eq!(b.size, 3);
            assert_eq!(b.contents.len(), 2);
            assert_eq!(b.contents[0].index, 0);
            assert_eq!(b.contents[0].item, UASTNode::MutStatic);
            assert_eq!(b.contents[1].index, 2);
            assert_eq!(
                b.contents[1].item,
                UASTNode::Call(Unsafe { unsaf: true }, FFI { is_ffi: false })
            );
        }
        other => panic!("expected a block, found {:?}", other),
    }
}

#[test]
fn flagged_call_comes_before_its_flagged_arguments() {
    let arg = expr(ExprKind::Deref(Ty::RawPtr), "lib.rs:2:10: 2:12", "*p", vec![]);
    let call = expr(ExprKind::Call(foreign()), "lib.rs:2:5: 2:13", "free(*p)", vec![Child::Expr(arg)]);
    let body = block(vec![stmt(call)], None, BlockCheckMode::DefaultBlock, "lib.rs:1:10: 3:2");
    let mut v = UnsafeASTEmitter::new("demo".to_string(), "lib".to_string());
    v.visit_fn(&function("demo::h", Unsafety::Normal, body));
    let c = v.into_uast();
    let items = &c.functions[0].block.contents;
    assert_eq!(items.len(), 2);
    assert_eq!(items[0].index, 0);
    assert_eq!(items[0].snippet, "free(*p)");
    assert_eq!(items[1].index, 0);
    assert_eq!(items[1].item, UASTNode::Deref);
}

#[test]
fn compiler_generated_annotation_does_not_mark_a_block() {
    let inner = block(vec![], None, BlockCheckMode::UnsafeBlock(UnsafeSource::CompilerGenerated), "a.rs:2:1: 2:3");
    let mut v = UnsafeASTEmitter::new("demo".to_string(), "lib".to_string());
    v.visit_block(&inner);
    assert_eq!(v.contents.len(), 1);
    match &v.contents[0].item {
        UASTNode::InnerBlock(b) => {
            assert!(!b.unsaf);
            assert_eq!(b.size, 0);
        }
        other => panic!("expected a block, found {:?}", other),
    }
    assert_eq!(v.index, 0);
    assert!(v.stack.is_empty());
}

#[test]
fn scope_steps_save_and_restore() {
    let mut v = UnsafeASTEmitter::new("demo".to_string(), "lib".to_string());
    v.register_point(UASTNode::Deref, &span("a.rs:1:1: 1:3", "*p"));
    v.index = 4;
    v.enter_block();
    assert_eq!(v.index, 0);
    assert!(v.contents.is_empty());
    assert_eq!(v.stack.len(), 1);
    v.register_point(UASTNode::InlineASM, &span("a.rs:2:1: 2:3", "asm"));
    v.index = 7;
    let b = v.exit_block(Unsafety::Unsafe).unwrap();
    assert_eq!(b.size, 7);
    assert!(b.unsaf);
    assert_eq!(b.contents.len(), 1);
    assert_eq!(b.contents[0].index, 0);
    assert_eq!(v.index, 4);
    assert_eq!(v.contents.len(), 1);
    assert!(v.stack.is_empty());
}

#[test]
fn leaving_without_a_saved_scope_is_an_invariant_violation() {
    let mut v = UnsafeASTEmitter::new("demo".to_string(), "lib".to_string());
    v.index = 3;
    assert_eq!(v.exit_block(Unsafety::Normal), Err(AnalysisError::InvariantViolation));
    assert_eq!(v.index, 3);
    let b = block(vec![], None, BlockCheckMode::DefaultBlock, "a.rs:1:1: 1:3");
    assert_eq!(v.visit_block_post(&b), Err(AnalysisError::InvariantViolation));
    assert_eq!(v.index, 3);
}

#[test]
fn finishing_a_function_without_its_body_is_an_invariant_violation() {
    let f = function("demo::f", Unsafety::Normal, block(vec![], None, BlockCheckMode::DefaultBlock, "a.rs:1:1: 1:3"));
    let mut v = UnsafeASTEmitter::new("demo".to_string(), "lib".to_string());
    // nothing recorded
    v.enter_block();
    assert_eq!(v.visit_fn_post(&f), Err(AnalysisError::InvariantViolation));
    // the last entry is not a block
    v.register_point(UASTNode::Deref, &span("a.rs:1:1: 1:3", "*p"));
    assert_eq!(v.visit_fn_post(&f), Err(AnalysisError::InvariantViolation));
    assert_eq!(v.contents.len(), 1);
    assert_eq!(v.stack.len(), 1);
    assert!(v.functions.is_empty());
    // no saved scope
    let mut w = UnsafeASTEmitter::new("demo".to_string(), "lib".to_string());
    w.contents.push(Indexed::new(
        0,
        UASTNode::InnerBlock(Box::new(unsafe_ast::unsafe_ast::Block::new(Unsafety::Normal, 0, vec![]))),
        &span("a.rs:1:1: 1:3", "{}"),
        MacroOrigin::NotMacro,
    ));
    assert_eq!(w.visit_fn_post(&f), Err(AnalysisError::InvariantViolation));
    assert_eq!(w.contents.len(), 1);
    let c = Closure { span: span("a.rs:1:1: 1:3", "||{}"), body: block(vec![], None, BlockCheckMode::DefaultBlock, "a.rs:1:1: 1:3") };
    assert_eq!(w.visit_closure_post(&c), Err(AnalysisError::InvariantViolation));
}

#[test]
fn every_function_of_a_crate_is_listed_in_order() {
    let krate = SourceCrate {
        functions: vec![
            function("demo::a", Unsafety::Normal, block(vec![], None, BlockCheckMode::DefaultBlock, "a.rs:1:1: 1:3")),
            function("demo::b", Unsafety::Unsafe, block(vec![], None, BlockCheckMode::DefaultBlock, "a.rs:2:1: 2:3")),
        ],
    };
    let mut v = UnsafeASTEmitter::new("demo".to_string(), "lib".to_string());
    v.visit_all_items(&krate);
    let c = v.into_uast();
    assert_eq!(c.functions.len(), 2);
    assert_eq!(c.functions[0].name, "demo::a");
    assert!(!c.functions[0].unsaf);
    assert_eq!(c.functions[1].name, "demo::b");
    assert!(c.functions[1].unsaf);
    assert_eq!(c.functions[1].span, "lib.rs:1:1: 9:2");
    assert_eq!(c.functions[1].macro_origin, MacroOrigin::NotMacro);
}

#[test]
fn function_from_a_local_macro_carries_its_origin() {
    let mut f = function("demo::m", Unsafety::Normal, block(vec![], None, BlockCheckMode::DefaultBlock, "a.rs:1:1: 1:3"));
    f.span.expansion = Some(Expansion { attribute: false, definition: Some("macro_rules! m { () => {} }".to_string()) });
    let mut v = UnsafeASTEmitter::new("demo".to_string(), "lib".to_string());
    v.visit_fn(&f);
    assert_eq!(v.functions[0].macro_origin, MacroOrigin::LocalMacro);
}

#[test]
fn one_flagged_site_per_statement_counts_up_from_zero() {
    let body = block(
        vec![
            stmt(expr(ExprKind::Deref(Ty::RawPtr), "lib.rs:2:5: 2:7", "*a", vec![])),
            stmt(expr(ExprKind::InlineAsm, "lib.rs:3:5: 3:9", "asm!", vec![])),
            stmt(expr(ExprKind::Path(Def::Static(true)), "lib.rs:4:5: 4:6", "G", vec![])),
        ],
        Some(expr(ExprKind::Call(foreign()), "lib.rs:5:5: 5:8", "f()", vec![])),
        BlockCheckMode::DefaultBlock,
        "lib.rs:1:10: 6:2",
    );
    let mut v = UnsafeASTEmitter::new("demo".to_string(), "lib".to_string());
    v.visit_fn(&function("demo::f", Unsafety::Normal, body));
    let c = v.into_uast();
    let b = &c.functions[0].block;
    assert_eq!(b.size, 4);
    let positions: Vec<u64> = b.contents.iter().map(|e| e.index).collect();
    assert_eq!(positions, vec![0, 1, 2, 3]);
}

#[test]
fn positions_never_go_down_and_stay_below_the_size() {
    let inner = block(
        vec![
            stmt(expr(ExprKind::Other, "lib.rs:3:9: 3:10", "x", vec![])),
            stmt(expr(ExprKind::Deref(Ty::RawPtr), "lib.rs:4:9: 4:11", "*p", vec![
                Child::Expr(expr(ExprKind::Deref(Ty::RawPtr), "lib.rs:4:10: 4:11", "*q", vec![])),
            ])),
        ],
        None,
        BlockCheckMode::DefaultBlock,
        "lib.rs:2:5: 5:6",
    );
    let body = block(
        vec![
            stmt(expr(ExprKind::Other, "lib.rs:2:5: 2:6", "a", vec![])),
            stmt(expr(ExprKind::Other, "lib.rs:2:5: 5:6", "{..}", vec![Child::Block(inner)])),
            stmt(expr(ExprKind::Other, "lib.rs:6:5: 6:6", "b", vec![])),
            stmt(expr(ExprKind::InlineAsm, "lib.rs:7:5: 7:6", "c", vec![])),
        ],
        None,
        BlockCheckMode::DefaultBlock,
        "lib.rs:1:10: 8:2",
    );
    let mut v = UnsafeASTEmitter::new("demo".to_string(), "lib".to_string());
    v.visit_fn(&function("demo::f", Unsafety::Normal, body));
    let c = v.into_uast();
    let b = &c.functions[0].block;
    assert_eq!(b.size, 4);
    let positions: Vec<u64> = b.contents.iter().map(|e| e.index).collect();
    assert_eq!(positions, vec![1, 3]);
    match &b.contents[0].item {
        UASTNode::InnerBlock(nested) => {
            assert_eq!(nested.size, 2);
            let positions: Vec<u64> = nested.contents.iter().map(|e| e.index).collect();
            assert_eq!(positions, vec![1, 1]);
        }
        other => panic!("expected a block, found {:?}", other),
    }
}

#[test]
fn statement_step_moves_the_position_by_one() {
    let mut v = UnsafeASTEmitter::new("demo".to_string(), "lib".to_string());
    v.index = 41;
    v.visit_stmt(&stmt(expr(ExprKind::Deref(Ty::RawPtr), "lib.rs:2:5: 2:7", "*a", vec![])));
    assert_eq!(v.index, 42);
    assert_eq!(v.contents.len(), 1);
    assert_eq!(v.contents[0].index, 41);
    v.visit_expr(&expr(ExprKind::InlineAsm, "lib.rs:3:5: 3:9", "asm!", vec![]));
    assert_eq!(v.index, 42);
    assert_eq!(v.contents[1].index, 42);
}

#[test]
fn copy_of_a_summary_is_equal_to_it() {
    let inner = block(
        vec![stmt(expr(ExprKind::Deref(Ty::RawPtr), "lib.rs:4:9: 4:11", "*p", vec![]))],
        None,
        BlockCheckMode::UnsafeBlock(UnsafeSource::UserProvided),
        "lib.rs:2:5: 5:6",
    );
    let body = block(
        vec![stmt(expr(ExprKind::Call(foreign()), "lib.rs:2:5: 5:6", "f({..})", vec![Child::Block(inner)]))],
        None,
        BlockCheckMode::DefaultBlock,
        "lib.rs:1:10: 8:2",
    );
    let mut v = UnsafeASTEmitter::new("demo".to_string(), "lib".to_string());
    v.visit_fn(&function("demo::f", Unsafety::Normal, body));
    let c = v.into_uast();
    let copy = c.clone();
    assert_eq!(copy, c);
    assert_eq!(copy.functions[0].clone(), c.functions[0]);
    assert_eq!(copy.functions[0].block.contents[1].clone(), c.functions[0].block.contents[1]);
    assert_eq!((*copy.functions[0].block).clone(), *c.functions[0].block);
}

#[test]
fn only_an_annotation_written_by_the_author_marks_a_block() {
    let user = UnsafeSource::UserProvided;
    let compiler = UnsafeSource::CompilerGenerated;
    assert_eq!(block_unsafety(BlockCheckMode::UnsafeBlock(user)), Unsafety::Unsafe);
    assert_eq!(block_unsafety(BlockCheckMode::PushUnsafeBlock(user)), Unsafety::Unsafe);
    assert_eq!(block_unsafety(BlockCheckMode::PopUnsafeBlock(user)), Unsafety::Unsafe);
    assert_eq!(block_unsafety(BlockCheckMode::UnsafeBlock(compiler)), Unsafety::Normal);
    assert_eq!(block_unsafety(BlockCheckMode::PushUnsafeBlock(compiler)), Unsafety::Normal);
    assert_eq!(block_unsafety(BlockCheckMode::PopUnsafeBlock(compiler)), Unsafety::Normal);
    assert_eq!(block_unsafety(BlockCheckMode::DefaultBlock), Unsafety::Normal);
    assert_eq!(block_unsafety(BlockCheckMode::PushUnstableBlock), Unsafety::Normal);
    assert_eq!(block_unsafety(BlockCheckMode::PopUnstableBlock), Unsafety::Normal);
}
