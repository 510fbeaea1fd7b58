//! What holds of every summary.

use crate::provenance::text_of;
use crate::summary::{
    block_items, block_summary, child_items, children_items, expr_items, flagged,
    function_summary, site, statement_count, stmts_items,
};
use crate::syntax::{Block, Child, Expr, Function, Stmt};
use crate::unsafe_ast::{block_wf, item_wf, lemma_snippet_bounded, IndexedView};
use vstd::prelude::*;

verus! {

/// The statement count of every block under an expression fits the
/// counter.
pub open spec fn expr_fits(e: Expr) -> bool
    decreases e, 1nat,
{
    children_fit(e.children@)
}

/// The statement count of every block under these children fits the
/// counter.
pub open spec fn children_fit(children: Seq<Child>) -> bool
    decreases children, 0nat,
{
    forall|k: int| 0 <= k < children.len() ==> child_fits(#[trigger] children[k])
}

pub open spec fn child_fits(child: Child) -> bool
    decreases child, 0nat,
{
    match child {
        Child::Expr(e) => expr_fits(e),
        Child::Block(b) => block_fits(b),
        Child::Closure(c) => block_fits(c.body),
    }
}

/// The statement count of a block, and of every block inside it, fits the
/// counter. A vector in memory cannot hold so many statements that it
/// would not.
pub open spec fn block_fits(b: Block) -> bool
    decreases b, 0nat,
{
    &&& statement_count(b) <= u64::MAX
    &&& forall|k: int|
        0 <= k < b.stmts@.len() ==> children_fit((#[trigger] b.stmts@[k]).children@)
    &&& match b.expr {
        Some(e) => expr_fits(e),
        None => true,
    }
}

/// Every entry has a position from `low` up to, not including, `high`;
/// the positions never go down; every entry is well formed.
pub open spec fn entries_within(items: Seq<IndexedView>, low: int, high: int) -> bool {
    &&& forall|k: int| 0 <= k < items.len() ==> low <= (#[trigger] items[k]).index < high
    &&& forall|j: int, k: int|
        0 <= j <= k < items.len() ==> (#[trigger] items[j]).index <= (#[trigger] items[k]).index
    &&& forall|k: int| 0 <= k < items.len() ==> item_wf(#[trigger] items[k])
}

proof fn lemma_within_concat(a: Seq<IndexedView>, b: Seq<IndexedView>, low: int, mid: int, high: int)
    requires
        entries_within(a, low, mid),
        entries_within(b, mid - 1, high),
        low < mid <= high,
    ensures
        entries_within(a + b, low, high),
{
    let c = a + b;
    assert forall|k: int| 0 <= k < c.len() implies low <= (#[trigger] c[k]).index < high
        && item_wf(c[k]) by {
        if k < a.len() {
            assert(c[k] == a[k]);
        } else {
            assert(c[k] == b[k - a.len()]);
        }
    }
    assert forall|j: int, k: int| 0 <= j <= k < c.len() implies (#[trigger] c[j]).index <= (
    #[trigger] c[k]).index by {
        if k < a.len() {
            assert(c[k] == a[k]);
            assert(c[j] == a[j]);
        } else if j < a.len() {
            assert(c[j] == a[j]);
            assert(c[k] == b[k - a.len()]);
        } else {
            assert(c[j] == b[j - a.len()]);
            assert(c[k] == b[k - a.len()]);
        }
    }
}

proof fn lemma_expr_items(e: Expr, index: u64)
    requires
        expr_fits(e),
    ensures
        entries_within(expr_items(e, index), index as int, index + 1),
    decreases e, 1nat,
{
    lemma_children_items(e.children@, e.children@.len(), index);
    lemma_snippet_bounded(text_of(e.span));
    let own = match flagged(e) {
        Some(node) => seq![site(index, node, e.span)],
        None => Seq::empty(),
    };
    assert(entries_within(own, index as int, index + 1));
    lemma_within_concat(
        own,
        children_items(e.children@, e.children@.len(), index),
        index as int,
        index + 1,
        index + 1,
    );
}

proof fn lemma_children_items(children: Seq<Child>, n: nat, index: u64)
    requires
        children_fit(children),
        n <= children.len(),
    ensures
        entries_within(children_items(children, n, index), index as int, index + 1),
    decreases children, n,
{
    if n > 0 {
        lemma_children_items(children, (n - 1) as nat, index);
        lemma_child_items(children[n - 1], index);
        lemma_within_concat(
            children_items(children, (n - 1) as nat, index),
            child_items(children[n - 1], index),
            index as int,
            index + 1,
            index + 1,
        );
    }
}

proof fn lemma_child_items(child: Child, index: u64)
    requires
        child_fits(child),
    ensures
        entries_within(child_items(child, index), index as int, index + 1),
    decreases child, 0nat,
{
    match child {
        Child::Expr(e) => lemma_expr_items(e, index),
        Child::Block(b) => {
            lemma_positions_ordered(b);
            lemma_snippet_bounded(text_of(b.span));
        },
        Child::Closure(c) => {
            lemma_positions_ordered(c.body);
            lemma_snippet_bounded(text_of(c.span));
        },
    }
}

proof fn lemma_stmts_items(stmts: Seq<Stmt>, n: nat, base: u64)
    requires
        forall|k: int| 0 <= k < stmts.len() ==> children_fit((#[trigger] stmts[k]).children@),
        n <= stmts.len(),
        base + stmts.len() <= u64::MAX,
    ensures
        entries_within(stmts_items(stmts, n, base), base as int, base + n),
    decreases stmts, n,
{
    if n > 0 {
        lemma_stmts_items(stmts, (n - 1) as nat, base);
        let index = (base + n - 1) as u64;
        lemma_children_items(stmts[n - 1].children@, stmts[n - 1].children@.len(), index);
        lemma_within_concat(
            stmts_items(stmts, (n - 1) as nat, base),
            children_items(stmts[n - 1].children@, stmts[n - 1].children@.len(), index),
            base as int,
            base + n,
            base + n,
        );
    }
}

/// In the summary of a block, the positions of the entries never go down
/// and each is the number of a statement of the block; the same holds of
/// every block nested in it, and every snippet is within the length limit.
pub proof fn lemma_positions_ordered(b: Block)
    requires
        block_fits(b),
    ensures
        block_wf(block_summary(b)),
    decreases b, 1nat,
{
    let n = b.stmts@.len();
    assert(n == b.stmts.len());
    lemma_stmts_items(b.stmts@, n, 0);
    assert(entries_within(stmts_items(b.stmts@, n, 0), 0, n as int));
    match b.expr {
        Some(e) => {
            lemma_expr_items(e, n as u64);
            lemma_within_concat(
                stmts_items(b.stmts@, n, 0),
                expr_items(e, n as u64),
                0,
                (n + 1) as int,
                (n + 1) as int,
            );
        },
        None => {
            assert(block_items(b, 0) =~= stmts_items(b.stmts@, n, 0));
        },
    }
}

/// The entries found in statement `j` of a block. The trailing expression
/// is the statement that follows the last one.
pub open spec fn statement_items(b: Block, j: int) -> Seq<IndexedView> {
    if 0 <= j < b.stmts@.len() {
        children_items(b.stmts@[j].children@, b.stmts@[j].children@.len(), j as u64)
    } else if j == b.stmts@.len() {
        match b.expr {
            Some(e) => expr_items(e, j as u64),
            None => Seq::empty(),
        }
    } else {
        Seq::empty()
    }
}

proof fn lemma_stmts_count_up(b: Block, n: nat, k: nat)
    requires
        block_fits(b),
        n <= b.stmts@.len(),
        forall|j: int|
            0 <= j < statement_count(b) ==> (#[trigger] statement_items(b, j)).len() == (if j
                < k {
                1int
            } else {
                0int
            }),
    ensures
        stmts_items(b.stmts@, n, 0).len() == (if n <= k {
            n
        } else {
            k
        }),
        forall|i: int|
            0 <= i < stmts_items(b.stmts@, n, 0).len() ==> (#[trigger] stmts_items(
                b.stmts@,
                n,
                0,
            )[i]).index == i,
    decreases n,
{
    if n > 0 {
        lemma_stmts_count_up(b, (n - 1) as nat, k);
        let own = statement_items(b, n - 1);
        assert(b.stmts@.len() == b.stmts.len());
        lemma_children_items(
            b.stmts@[n - 1].children@,
            b.stmts@[n - 1].children@.len(),
            (n - 1) as u64,
        );
        let before = stmts_items(b.stmts@, (n - 1) as nat, 0);
        assert(stmts_items(b.stmts@, n, 0) == before + own);
        assert forall|i: int| 0 <= i < (before + own).len() implies (#[trigger] (before + own)[i]).index
            == i by {
            if i < before.len() {
                assert((before + own)[i] == before[i]);
            } else {
                assert((before + own)[i] == own[i - before.len()]);
            }
        }
    }
}

/// Where each of the first `k` statements of a block yields exactly one
/// entry and the statements after them yield none, the positions of the
/// entries of the block are 0, 1, and so on up to `k - 1`, without a gap
/// and without a repeat.
pub proof fn lemma_positions_count_up(b: Block, k: nat)
    requires
        block_fits(b),
        k <= statement_count(b),
        forall|j: int|
            0 <= j < statement_count(b) ==> (#[trigger] statement_items(b, j)).len() == (if j
                < k {
                1int
            } else {
                0int
            }),
    ensures
        block_summary(b).contents.len() == k,
        forall|i: int| 0 <= i < k ==> (#[trigger] block_summary(b).contents[i]).index == i,
{
    let n = b.stmts@.len();
    assert(n == b.stmts.len());
    lemma_stmts_count_up(b, n, k);
    let before = stmts_items(b.stmts@, n, 0);
    match b.expr {
        Some(e) => {
            let own = statement_items(b, n as int);
            lemma_expr_items(e, n as u64);
            assert(block_items(b, 0) == before + own);
            assert forall|i: int| 0 <= i < (before + own).len() implies (#[trigger] (before
                + own)[i]).index == i by {
                if i < before.len() {
                    assert((before + own)[i] == before[i]);
                } else {
                    assert((before + own)[i] == own[i - before.len()]);
                }
            }
        },
        None => {
            assert(block_items(b, 0) =~= before);
        },
    }
}

/// An expression is quiet when neither it nor anything under it is
/// flagged, and no block or closure stands under it.
pub open spec fn expr_quiet(e: Expr) -> bool
    decreases e, 1nat,
{
    flagged(e) is None && children_quiet(e.children@)
}

pub open spec fn children_quiet(children: Seq<Child>) -> bool
    decreases children, 0nat,
{
    forall|k: int|
        0 <= k < children.len() ==> match #[trigger] children[k] {
            Child::Expr(e) => expr_quiet(e),
            _ => false,
        }
}

/// A block is quiet when its statements and its trailing expression are.
pub open spec fn block_quiet(b: Block) -> bool {
    &&& forall|k: int|
        0 <= k < b.stmts@.len() ==> children_quiet((#[trigger] b.stmts@[k]).children@)
    &&& match b.expr {
        Some(e) => expr_quiet(e),
        None => true,
    }
}

proof fn lemma_quiet_expr(e: Expr, index: u64)
    requires
        expr_quiet(e),
    ensures
        expr_items(e, index) =~= Seq::empty(),
    decreases e, 1nat,
{
    lemma_quiet_children(e.children@, e.children@.len(), index);
}

proof fn lemma_quiet_children(children: Seq<Child>, n: nat, index: u64)
    requires
        children_quiet(children),
        n <= children.len(),
    ensures
        children_items(children, n, index) =~= Seq::empty(),
    decreases children, n,
{
    if n > 0 {
        lemma_quiet_children(children, (n - 1) as nat, index);
        let last = children[n - 1];
        assert(last is Expr);
        match last {
            Child::Expr(e) => {
                lemma_quiet_expr(e, index);
                assert(child_items(last, index) == expr_items(e, index));
            },
            _ => {},
        }
    }
}

proof fn lemma_quiet_stmts(stmts: Seq<Stmt>, n: nat, base: u64)
    requires
        forall|k: int| 0 <= k < stmts.len() ==> children_quiet((#[trigger] stmts[k]).children@),
        n <= stmts.len(),
    ensures
        stmts_items(stmts, n, base) =~= Seq::empty(),
    decreases n,
{
    if n > 0 {
        lemma_quiet_stmts(stmts, (n - 1) as nat, base);
        lemma_quiet_children(
            stmts[n - 1].children@,
            stmts[n - 1].children@.len(),
            (base + n - 1) as u64,
        );
    }
}

/// A function that is not declared to need a safety annotation, and whose
/// body is quiet, still has an entry: one that is not marked and whose
/// body holds no entry.
pub proof fn lemma_quiet_function(f: Function)
    requires
        f.unsafety is Normal,
        block_quiet(f.body),
    ensures
        !function_summary(f).unsaf,
        function_summary(f).name == f.name@,
        function_summary(f).block.contents =~= Seq::empty(),
        function_summary(f).block.size == statement_count(f.body) as u64,
{
    lemma_quiet_stmts(f.body.stmts@, f.body.stmts@.len(), 0);
    match f.body.expr {
        Some(e) => lemma_quiet_expr(e, f.body.stmts@.len() as u64),
        None => {},
    }
}

} // verus!
