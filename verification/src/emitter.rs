//! The traversal that builds the summary.
//!
//! The emitter keeps the entries of the block being visited, the number of
//! the statement being visited, and a stack of the same pair for each
//! enclosing block. Entering a block saves the pair and starts afresh;
//! leaving it turns what was gathered into one entry of the block around it.

use crate::laws::{block_fits, child_fits, children_fit, expr_fits, lemma_positions_ordered};
use crate::provenance::{get_macro_origin, origin_of};
use crate::summary::{
    block_flag, block_items, block_summary, child_items, children_items, expr_items,
    function_summary, functions_summary, site, stmts_items,
};
use crate::syntax::{
    Block as SourceBlock, BlockCheckMode, Child, Closure, Def, Expr, ExprKind, Function,
    SourceCrate, Span, Stmt, Ty, UnsafeSource, Unsafety,
};
use crate::unsafe_ast::{
    block_wf, unsafety_flag, Block, BlockView, Crate, CrateView, FnDecl, FnDeclView, Indexed,
    IndexedView, NodeView, UASTNode, Unsafe, FFI,
};
use vstd::prelude::*;

verus! {

/// Why a traversal step was refused.
#[derive(Clone, Copy, PartialEq, Eq, Debug, Structural)]
pub enum AnalysisError {
    /// The state of the emitter does not fit the step: no enclosing scope
    /// was saved, or what should be the finished body of a function is not
    /// there. This is a fault of the traversal, not of the analysed program,
    /// and the analysis of the unit cannot go on.
    InvariantViolation,
}

/// Builds the summary of one compilation unit while its tree is visited.
#[derive(Debug)]
pub struct UnsafeASTEmitter {
    /// The number of the statement being visited in the current block.
    pub index: u64,
    /// The entries gathered so far in the current block.
    pub contents: Vec<Indexed<UASTNode>>,
    /// For each enclosing block, innermost last, its statement number and
    /// its entries at the time the next block was entered.
    pub stack: Vec<(u64, Vec<Indexed<UASTNode>>)>,
    pub crate_name: String,
    pub crate_type: String,
    /// The functions finished so far.
    pub functions: Vec<FnDecl>,
}

/// The saved state of one enclosing block.
#[verifier::ext_equal]
pub struct ScopeFrame {
    pub index: u64,
    pub items: Seq<IndexedView>,
}

/// The mathematical value of an emitter.
#[verifier::ext_equal]
pub struct EmitterView {
    pub index: u64,
    pub contents: Seq<IndexedView>,
    pub stack: Seq<ScopeFrame>,
    pub crate_name: Seq<char>,
    pub crate_type: Seq<char>,
    pub functions: Seq<FnDeclView>,
}

pub open spec fn items_view(v: Seq<Indexed<UASTNode>>) -> Seq<IndexedView> {
    Seq::new(v.len(), |k: int| v[k]@)
}

pub open spec fn frames_view(v: Seq<(u64, Vec<Indexed<UASTNode>>)>) -> Seq<ScopeFrame> {
    Seq::new(v.len(), |k: int| ScopeFrame { index: v[k].0, items: items_view(v[k].1@) })
}

pub open spec fn functions_view(v: Seq<FnDecl>) -> Seq<FnDeclView> {
    Seq::new(v.len(), |k: int| v[k]@)
}

impl View for UnsafeASTEmitter {
    type V = EmitterView;

    open spec fn view(&self) -> EmitterView {
        EmitterView {
            index: self.index,
            contents: items_view(self.contents@),
            stack: frames_view(self.stack@),
            crate_name: self.crate_name@,
            crate_type: self.crate_type@,
            functions: functions_view(self.functions@),
        }
    }
}

impl EmitterView {
    /// The state after `items` were recorded in the current block.
    pub open spec fn record(self, items: Seq<IndexedView>) -> EmitterView {
        EmitterView { contents: self.contents + items, ..self }
    }

    /// The state after `n` more statements of the current block were
    /// visited.
    pub open spec fn advance(self, n: int) -> EmitterView {
        EmitterView { index: (self.index + n) as u64, ..self }
    }

    /// The state after a block was entered.
    pub open spec fn enter(self) -> EmitterView {
        EmitterView {
            index: 0,
            contents: Seq::empty(),
            stack: self.stack.push(ScopeFrame { index: self.index, items: self.contents }),
            ..self
        }
    }

    /// The state after the current block was left: that of the innermost
    /// saved scope.
    pub open spec fn leave(self) -> EmitterView
        recommends
            self.stack.len() > 0,
    {
        EmitterView {
            index: self.stack.last().index,
            contents: self.stack.last().items,
            stack: self.stack.drop_last(),
            ..self
        }
    }

    /// The state after `f` was added to the finished functions.
    pub open spec fn with_function(self, f: FnDeclView) -> EmitterView {
        EmitterView { functions: self.functions.push(f), ..self }
    }

    /// The block that the current scope holds as its last entry, where that
    /// entry is a nested block.
    pub open spec fn pending_body(self) -> Option<BlockView> {
        if self.contents.len() > 0 {
            match self.contents.last().item {
                NodeView::InnerBlock(body) => Some(body),
                _ => None,
            }
        } else {
            None
        }
    }
}

impl UnsafeASTEmitter {
    /// An emitter for the crate of the given name and kind, outside any
    /// block and with no function finished.
    pub fn new(crate_name: String, crate_type: String) -> (r: UnsafeASTEmitter)
        ensures
            r@ == (EmitterView {
                index: 0,
                contents: Seq::empty(),
                stack: Seq::empty(),
                crate_name: crate_name@,
                crate_type: crate_type@,
                functions: Seq::empty(),
            }),
    {
        UnsafeASTEmitter {
            index: 0,
            contents: Vec::new(),
            stack: Vec::new(),
            crate_name,
            crate_type,
            functions: Vec::new(),
        }
    }

    /// Produces the crate so far: its name, its kind and the functions
    /// finished. What was gathered outside any function is dropped.
    pub fn into_uast(self) -> (c: Crate)
        ensures
            c@ == (CrateView {
                name: self@.crate_name,
                ty: self@.crate_type,
                functions: self@.functions,
            }),
    {
        let c = Crate { name: self.crate_name, ty: self.crate_type, functions: self.functions };
        assert(c@.functions =~= self@.functions);
        c
    }

    /// Records `item`, found at `span`, under the statement being visited.
    /// The statement number does not change.
    pub fn register_point(&mut self, item: UASTNode, span: &Span)
        ensures
            final(self)@ == old(self)@.record(seq![site(old(self).index, item@, *span)]),
    {
        let macro_origin = get_macro_origin(span);
        let entry = Indexed::new(self.index, item, span, macro_origin);
        assert(entry@ == site(self.index, item@, *span));
        self.contents.push(entry);
        assert(self@.contents =~= old(self)@.contents + seq![site(old(self).index, item@, *span)]);
    }

    /// Adds a finished function or method: its body, its declared safety,
    /// its name and its place.
    pub fn register_function(
        &mut self,
        boxed_block: Box<Block>,
        unsafety: Unsafety,
        name: String,
        span: &Span,
    )
        ensures
            final(self)@ == old(self)@.with_function(
                FnDeclView {
                    name: name@,
                    unsaf: unsafety_flag(unsafety),
                    span: span.location@,
                    macro_origin: origin_of(*span),
                    block: boxed_block@,
                },
            ),
    {
        let macro_origin = get_macro_origin(span);
        let span_string = span.location.clone();
        let decl = FnDecl::new(boxed_block, unsafety, name, span_string, macro_origin);
        self.functions.push(decl);
        assert(self@.functions =~= old(self)@.functions.push(decl@));
    }

    /// Enters a block: saves the statement number and the entries of the
    /// current block and starts the new one at statement 0 with no entry.
    pub fn enter_block(&mut self)
        ensures
            final(self)@ == old(self)@.enter(),
    {
        let mut saved: Vec<Indexed<UASTNode>> = Vec::new();
        core::mem::swap(&mut self.contents, &mut saved);
        self.stack.push((self.index, saved));
        self.index = 0;
        assert(self@.stack =~= old(self)@.enter().stack);
        assert(self@.contents =~= old(self)@.enter().contents);
    }

    /// Leaves the current block: builds it from the statement number
    /// reached and the entries gathered, and goes back to the innermost
    /// saved scope. Refused, with the state unchanged, when no scope was
    /// saved.
    pub fn exit_block(&mut self, unsafety: Unsafety) -> (r: Result<Block, AnalysisError>)
        ensures
            match r {
                Ok(block) => {
                    &&& old(self)@.stack.len() > 0
                    &&& block@ == (BlockView {
                        size: old(self).index,
                        unsaf: unsafety_flag(unsafety),
                        contents: old(self)@.contents,
                    })
                    &&& final(self)@ == old(self)@.leave()
                },
                Err(e) => {
                    &&& e == AnalysisError::InvariantViolation
                    &&& old(self)@.stack.len() == 0
                    &&& final(self)@ == old(self)@
                },
            },
    {
        match self.stack.pop() {
            None => Err(AnalysisError::InvariantViolation),
            Some((index, mut contents)) => {
                core::mem::swap(&mut contents, &mut self.contents);
                let block = Block::new(unsafety, self.index, contents);
                self.index = index;
                assert(block@.contents =~= old(self)@.contents);
                assert(self@.stack =~= old(self)@.stack.drop_last());
                Ok(block)
            },
        }
    }

    /// Finishes a block whose statements and trailing expression were
    /// visited: counts the trailing expression as one more statement,
    /// leaves the block, and records it as one entry of the block around
    /// it, under the statement that holds it. Refused, with the state
    /// unchanged, when no scope was saved.
    pub fn visit_block_post(&mut self, b: &SourceBlock) -> (r: Result<(), AnalysisError>)
        requires
            b.expr is Some ==> old(self).index < u64::MAX,
        ensures
            match r {
                Ok(()) => {
                    &&& old(self)@.stack.len() > 0
                    &&& final(self)@ == old(self)@.leave().record(
                        seq![
                            site(
                                old(self)@.stack.last().index,
                                NodeView::InnerBlock(
                                    BlockView {
                                        size: if b.expr is Some {
                                            (old(self).index + 1) as u64
                                        } else {
                                            old(self).index
                                        },
                                        unsaf: block_flag(b.rules),
                                        contents: old(self)@.contents,
                                    },
                                ),
                                b.span,
                            ),
                        ],
                    )
                },
                Err(e) => {
                    &&& e == AnalysisError::InvariantViolation
                    &&& old(self)@.stack.len() == 0
                    &&& final(self)@ == old(self)@
                },
            },
    {
        if self.stack.len() == 0 {
            return Err(AnalysisError::InvariantViolation);
        }
        if b.expr.is_some() {
            self.index += 1
        }
        let unsafety = block_unsafety(b.rules);
        match self.exit_block(unsafety) {
            Ok(block) => {
                self.register_point(UASTNode::InnerBlock(Box::new(block)), &b.span);
                Ok(())
            },
            Err(e) => Err(e),
        }
    }

    /// Takes the finished body of a function out of the current scope,
    /// where it is the last entry, and goes back to the innermost saved
    /// scope. Refused, with the state unchanged, when the current scope has
    /// no entry, when its last entry is not a nested block, or when no
    /// scope was saved.
    pub fn take_pending_body(&mut self) -> (r: Result<Box<Block>, AnalysisError>)
        ensures
            match r {
                Ok(body) => {
                    &&& old(self)@.pending_body() == Some(body@)
                    &&& old(self)@.stack.len() > 0
                    &&& final(self)@ == old(self)@.leave()
                },
                Err(e) => {
                    &&& e == AnalysisError::InvariantViolation
                    &&& old(self)@.pending_body() is None || old(self)@.stack.len() == 0
                    &&& final(self)@ == old(self)@
                },
            },
    {
        let n = self.contents.len();
        if n == 0 || self.stack.len() == 0 {
            return Err(AnalysisError::InvariantViolation);
        }
        match &self.contents[n - 1].item {
            UASTNode::InnerBlock(_) => {},
            _ => {
                return Err(AnalysisError::InvariantViolation);
            },
        }
        let entry = self.contents.pop();
        let frame = self.stack.pop();
        match (entry, frame) {
            (Some(Indexed { item: UASTNode::InnerBlock(boxed_block), .. }), Some((index, contents))) => {
                self.index = index;
                self.contents = contents;
                assert(self@.stack =~= old(self)@.stack.drop_last());
                Ok(boxed_block)
            },
            _ => Err(AnalysisError::InvariantViolation),
        }
    }

    /// Finishes a function or method whose body was visited: takes the
    /// body out of the current scope, goes back to the scope that was
    /// current before the function, and adds the function to the finished
    /// ones. Refused as `take_pending_body` is.
    pub fn visit_fn_post(&mut self, f: &Function) -> (r: Result<(), AnalysisError>)
        ensures
            match r {
                Ok(()) => {
                    &&& old(self)@.pending_body() is Some
                    &&& old(self)@.stack.len() > 0
                    &&& final(self)@ == old(self)@.leave().with_function(
                        FnDeclView {
                            name: f.name@,
                            unsaf: unsafety_flag(f.unsafety),
                            span: f.span.location@,
                            macro_origin: origin_of(f.span),
                            block: old(self)@.pending_body()->0,
                        },
                    )
                },
                Err(e) => {
                    &&& e == AnalysisError::InvariantViolation
                    &&& old(self)@.pending_body() is None || old(self)@.stack.len() == 0
                    &&& final(self)@ == old(self)@
                },
            },
    {
        match self.take_pending_body() {
            Ok(boxed_block) => {
                self.register_function(boxed_block, f.unsafety, f.name.clone(), &f.span);
                Ok(())
            },
            Err(e) => Err(e),
        }
    }

    /// Finishes a closure whose body was visited: takes the body out of
    /// the current scope, goes back to the scope that holds the closure,
    /// and records the closure there under the statement being visited.
    /// Refused as `take_pending_body` is.
    pub fn visit_closure_post(&mut self, c: &Closure) -> (r: Result<(), AnalysisError>)
        ensures
            match r {
                Ok(()) => {
                    &&& old(self)@.pending_body() is Some
                    &&& old(self)@.stack.len() > 0
                    &&& final(self)@ == old(self)@.leave().record(
                        seq![
                            site(
                                old(self)@.stack.last().index,
                                NodeView::Closure(old(self)@.pending_body()->0),
                                c.span,
                            ),
                        ],
                    )
                },
                Err(e) => {
                    &&& e == AnalysisError::InvariantViolation
                    &&& old(self)@.pending_body() is None || old(self)@.stack.len() == 0
                    &&& final(self)@ == old(self)@
                },
            },
    {
        match self.take_pending_body() {
            Ok(boxed_block) => {
                self.register_point(UASTNode::Closure(boxed_block), &c.span);
                Ok(())
            },
            Err(e) => Err(e),
        }
    }

    /// Visits what an expression or a statement directly contains, in
    /// order, within the statement being visited.
    pub fn walk_children(&mut self, children: &Vec<Child>)
        ensures
            final(self)@ == old(self)@.record(
                children_items(children@, children@.len(), old(self).index),
            ),
            children_fit(children@),
        decreases children, 0nat,
    {
        let ghost start = self@;
        let n = children.len();
        let mut i: usize = 0;
        while i < n
            invariant
                i <= n,
                n == children@.len(),
                self@ == start.record(children_items(children@, i as nat, start.index)),
                forall|k: int| 0 <= k < i ==> child_fits(#[trigger] children@[k]),
            decreases n - i,
        {
            let ghost before = self@;
            match &children[i] {
                Child::Expr(e) => self.visit_expr(e),
                Child::Block(b) => self.visit_block(b),
                Child::Closure(c) => self.visit_closure(c),
            }
            assert(self@.contents == before.contents + child_items(
                children@[i as int],
                start.index,
            ));
            assert(children_items(children@, (i + 1) as nat, start.index) == children_items(
                children@,
                i as nat,
                start.index,
            ) + child_items(children@[i as int], start.index));
            assert(self@.contents =~= start.contents + children_items(
                children@,
                (i + 1) as nat,
                start.index,
            ));
            i += 1;
        }
    }

    /// Visits what an expression contains.
    pub fn walk_expr(&mut self, expr: &Expr)
        ensures
            final(self)@ == old(self)@.record(
                children_items(expr.children@, expr.children@.len(), old(self).index),
            ),
            expr_fits(*expr),
        decreases expr, 0nat,
    {
        self.walk_children(&expr.children)
    }

    /// Visits an expression: records it, if it is flagged, under the
    /// statement being visited, then visits what it contains.
    pub fn visit_expr(&mut self, expr: &Expr)
        ensures
            final(self)@ == old(self)@.record(expr_items(*expr, old(self).index)),
            expr_fits(*expr),
        decreases expr, 1nat,
    {
        match expr.kind {
            ExprKind::Call(fn_ty) | ExprKind::MethodCall(fn_ty) => {
                let fn_safety = Unsafe::from_fn_ty(&fn_ty);
                let fn_ffi = FFI::from_fn_ty(&fn_ty);
                if fn_safety.unsaf || fn_ffi.is_ffi {
                    let unsafe_call = UASTNode::Call(fn_safety, fn_ffi);
                    self.register_point(unsafe_call, &expr.span);
                }
            },
            ExprKind::Deref(ty) => {
                if let Ty::RawPtr = ty {
                    self.register_point(UASTNode::Deref, &expr.span);
                }
            },
            ExprKind::InlineAsm => {
                self.register_point(UASTNode::InlineASM, &expr.span);
            },
            ExprKind::Path(def) => {
                if let Def::Static(true) = def {
                    self.register_point(UASTNode::MutStatic, &expr.span);
                }
            },
            ExprKind::Other => {},
        }
        self.walk_expr(expr);
        assert(self@.contents =~= old(self)@.contents + expr_items(*expr, old(self).index));
    }

    /// Visits what a statement contains.
    pub fn walk_stmt(&mut self, s: &Stmt)
        ensures
            final(self)@ == old(self)@.record(
                children_items(s.children@, s.children@.len(), old(self).index),
            ),
            children_fit(s.children@),
        decreases s, 0nat,
    {
        self.walk_children(&s.children)
    }

    /// Visits a statement of the current block, then moves on to the next
    /// statement number.
    pub fn visit_stmt(&mut self, s: &Stmt)
        requires
            old(self).index < u64::MAX,
        ensures
            final(self)@ == old(self)@.record(
                children_items(s.children@, s.children@.len(), old(self).index),
            ).advance(1),
            children_fit(s.children@),
        decreases s, 1nat,
    {
        self.walk_stmt(s);
        self.index += 1;
    }

    /// Visits the statements of a block in order, then its trailing
    /// expression. The trailing expression is visited under the statement
    /// number that follows the last statement, and does not advance it.
    pub fn walk_block(&mut self, b: &SourceBlock)
        requires
            old(self).index + b.stmts@.len() <= u64::MAX,
        ensures
            final(self)@ == old(self)@.record(block_items(*b, old(self).index)).advance(
                b.stmts@.len() as int,
            ),
            block_fits(*b),
        decreases b, 0nat,
    {
        let ghost start = self@;
        let n = stmt_count(&b.stmts);
        let mut i: usize = 0;
        while i < n
            invariant
                i <= n,
                n == b.stmts@.len(),
                start.index + n <= u64::MAX,
                self@ == start.record(stmts_items(b.stmts@, i as nat, start.index)).advance(
                    i as int,
                ),
                forall|k: int| 0 <= k < i ==> children_fit((#[trigger] b.stmts@[k]).children@),
            decreases n - i,
        {
            self.visit_stmt(&b.stmts[i]);
            assert(self@.contents =~= start.contents + stmts_items(
                b.stmts@,
                (i + 1) as nat,
                start.index,
            ));
            i += 1;
        }
        match &b.expr {
            Some(e) => self.visit_expr(e),
            None => {},
        }
        assert(self@.contents =~= start.contents + block_items(*b, start.index));
    }

    /// Visits a block: enters it, visits its statements and trailing
    /// expression, and records the finished block as one entry of the block
    /// around it, under the statement being visited there.
    pub fn visit_block(&mut self, b: &SourceBlock)
        ensures
            final(self)@ == old(self)@.record(
                seq![site(old(self).index, NodeView::InnerBlock(block_summary(*b)), b.span)],
            ),
            block_fits(*b),
        decreases b, 1nat,
    {
        self.enter_block();
        assert(b.stmts@.len() == b.stmts.len());
        self.walk_block(b);
        let done = self.visit_block_post(b);
        assert(done is Ok);
        assert(self@.stack =~= old(self)@.stack);
    }

    /// Visits a closure: its body is visited as a block of its own, and the
    /// closure is recorded as one entry under the statement being visited.
    pub fn visit_closure(&mut self, c: &Closure)
        ensures
            final(self)@ == old(self)@.record(
                seq![site(old(self).index, NodeView::Closure(block_summary(c.body)), c.span)],
            ),
            block_fits(c.body),
        decreases c, 0nat,
    {
        self.enter_block();
        self.visit_block(&c.body);
        let done = self.visit_closure_post(c);
        assert(done is Ok);
        assert(self@.stack =~= old(self)@.stack);
        assert(self@.contents =~= old(self)@.contents + seq![
            site(old(self).index, NodeView::Closure(block_summary(c.body)), c.span),
        ]);
    }

    /// Visits a function or method definition and adds its entry to the
    /// finished functions. The scopes are left as they were found.
    pub fn visit_fn(&mut self, f: &Function)
        ensures
            final(self)@ == old(self)@.with_function(function_summary(*f)),
            block_wf(function_summary(*f).block),
    {
        self.enter_block();
        self.visit_block(&f.body);
        proof {
            lemma_positions_ordered(f.body);
        }
        let done = self.visit_fn_post(f);
        assert(done is Ok);
        assert(self@.stack =~= old(self)@.stack);
        assert(self@.contents =~= old(self)@.contents);
    }

    /// Visits every function and method definition of a crate, in order.
    pub fn visit_all_items(&mut self, krate: &SourceCrate)
        ensures
            final(self)@ == (EmitterView {
                functions: old(self)@.functions + functions_summary(
                    krate.functions@,
                    krate.functions@.len(),
                ),
                ..old(self)@
            }),
            forall|k: int|
                0 <= k < krate.functions@.len() ==> block_wf(
                    (#[trigger] function_summary(krate.functions@[k])).block,
                ),
    {
        let ghost start = self@;
        let n = krate.functions.len();
        let mut i: usize = 0;
        while i < n
            invariant
                i <= n,
                n == krate.functions@.len(),
                self@ == (EmitterView {
                    functions: start.functions + functions_summary(krate.functions@, i as nat),
                    ..start
                }),
                forall|k: int|
                    0 <= k < i ==> block_wf(
                        (#[trigger] function_summary(krate.functions@[k])).block,
                    ),
            decreases n - i,
        {
            self.visit_fn(&krate.functions[i]);
            assert(self@.functions =~= start.functions + functions_summary(
                krate.functions@,
                (i + 1) as nat,
            ));
            i += 1;
        }
    }
}

/// The safety that a block counts as having: annotated only where its
/// author wrote the annotation.
pub fn block_unsafety(rules: BlockCheckMode) -> (r: Unsafety)
    ensures
        unsafety_flag(r) == block_flag(rules),
{
    match rules {
        BlockCheckMode::DefaultBlock => Unsafety::Normal,
        BlockCheckMode::UnsafeBlock(UnsafeSource::UserProvided)
        | BlockCheckMode::PushUnsafeBlock(UnsafeSource::UserProvided)
        | BlockCheckMode::PopUnsafeBlock(UnsafeSource::UserProvided) => Unsafety::Unsafe,
        _ => Unsafety::Normal,
    }
}

/// The number of statements in a list. The standard library's `Vec::len`
/// gives the length; that it is below `usize::MAX` is the library's
/// guarantee that a vector never takes up more than `isize::MAX` bytes,
/// and a statement takes up more than one byte.
#[verifier::external_body]
fn stmt_count(stmts: &Vec<Stmt>) -> (n: usize)
    ensures
        n == stmts@.len(),
        n < usize::MAX,
{
    stmts.len()
}

} // verus!
