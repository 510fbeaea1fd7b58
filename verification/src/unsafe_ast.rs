//! The summary itself: a crate holds functions, a function holds a block, and
//! a block holds the flagged sites found directly inside it, each with the
//! number of the statement it occurred in.

use crate::provenance::text_of;
use crate::syntax::{Abi, Span, Ty, Unsafety};
use vstd::prelude::*;
use vstd::string::*;

verus! {

/// The greatest number of characters in a snippet.
pub const SNIPPET_LENGTH: usize = 40;

/// Where a flagged site came from, with respect to macro expansion.
#[derive(Clone, Copy, PartialEq, Eq, Debug, Structural)]
pub enum MacroOrigin {
    NotMacro,
    LocalMacro,
    ExternalMacro,
    DeriveMacro,
}

/// Whether a call target is declared as needing a safety annotation.
#[derive(Clone, Copy, PartialEq, Eq, Debug, Structural)]
pub struct Unsafe {
    pub unsaf: bool,
}

/// Whether a call target is declared with a foreign calling convention.
#[derive(Clone, Copy, PartialEq, Eq, Debug, Structural)]
pub struct FFI {
    pub is_ffi: bool,
}

/// One flagged site.
#[derive(PartialEq, Eq, Debug)]
pub enum UASTNode {
    Deref,
    MutStatic,
    InlineASM,
    Call(Unsafe, FFI),
    Closure(Box<Block>),
    InnerBlock(Box<Block>),
}

/// A flagged site together with its place in the enclosing block.
#[derive(PartialEq, Eq, Debug)]
pub struct Indexed<T> {
    pub index: u64,
    pub span: String,
    pub snippet: String,
    pub macro_origin: MacroOrigin,
    pub item: T,
}

/// One lexical scope.
#[derive(PartialEq, Eq, Debug)]
pub struct Block {
    pub size: u64,
    pub unsaf: bool,
    pub contents: Vec<Indexed<UASTNode>>,
}

/// One function or method definition.
#[derive(PartialEq, Eq, Debug)]
pub struct FnDecl {
    pub name: String,
    pub unsaf: bool,
    pub span: String,
    pub macro_origin: MacroOrigin,
    pub block: Box<Block>,
}

/// The summary of one compilation unit.
#[derive(PartialEq, Eq, Debug)]
pub struct Crate {
    pub name: String,
    pub ty: String,
    pub functions: Vec<FnDecl>,
}

/// The mathematical value of a flagged site.
pub enum NodeView {
    Deref,
    MutStatic,
    InlineASM,
    Call(Unsafe, FFI),
    Closure(BlockView),
    InnerBlock(BlockView),
}

/// The mathematical value of an indexed flagged site.
pub struct IndexedView {
    pub index: u64,
    pub span: Seq<char>,
    pub snippet: Seq<char>,
    pub macro_origin: MacroOrigin,
    pub item: NodeView,
}

/// The mathematical value of a block.
pub struct BlockView {
    pub size: u64,
    pub unsaf: bool,
    pub contents: Seq<IndexedView>,
}

/// The mathematical value of a function entry.
pub struct FnDeclView {
    pub name: Seq<char>,
    pub unsaf: bool,
    pub span: Seq<char>,
    pub macro_origin: MacroOrigin,
    pub block: BlockView,
}

/// The mathematical value of a crate summary.
pub struct CrateView {
    pub name: Seq<char>,
    pub ty: Seq<char>,
    pub functions: Seq<FnDeclView>,
}

pub open spec fn node_view(n: UASTNode) -> NodeView
    decreases n,
{
    match n {
        UASTNode::Deref => NodeView::Deref,
        UASTNode::MutStatic => NodeView::MutStatic,
        UASTNode::InlineASM => NodeView::InlineASM,
        UASTNode::Call(u, f) => NodeView::Call(u, f),
        UASTNode::Closure(b) => NodeView::Closure(block_view(*b)),
        UASTNode::InnerBlock(b) => NodeView::InnerBlock(block_view(*b)),
    }
}

pub open spec fn indexed_view(i: Indexed<UASTNode>) -> IndexedView
    decreases i,
{
    IndexedView {
        index: i.index,
        span: i.span@,
        snippet: i.snippet@,
        macro_origin: i.macro_origin,
        item: node_view(i.item),
    }
}

pub open spec fn block_view(b: Block) -> BlockView
    decreases b,
{
    BlockView {
        size: b.size,
        unsaf: b.unsaf,
        contents: Seq::new(
            b.contents@.len(),
            |k: int|
                if 0 <= k < b.contents@.len() {
                    indexed_view(b.contents@[k])
                } else {
                    arbitrary()
                },
        ),
    }
}

impl View for UASTNode {
    type V = NodeView;

    open spec fn view(&self) -> NodeView {
        node_view(*self)
    }
}

impl View for Indexed<UASTNode> {
    type V = IndexedView;

    open spec fn view(&self) -> IndexedView {
        indexed_view(*self)
    }
}

impl View for Block {
    type V = BlockView;

    open spec fn view(&self) -> BlockView {
        block_view(*self)
    }
}

impl View for FnDecl {
    type V = FnDeclView;

    open spec fn view(&self) -> FnDeclView {
        FnDeclView {
            name: self.name@,
            unsaf: self.unsaf,
            span: self.span@,
            macro_origin: self.macro_origin,
            block: self.block@,
        }
    }
}

impl View for Crate {
    type V = CrateView;

    open spec fn view(&self) -> CrateView {
        CrateView {
            name: self.name@,
            ty: self.ty@,
            functions: Seq::new(self.functions@.len(), |k: int| self.functions@[k]@),
        }
    }
}

/// The excerpt kept of a source text: the text itself where it has at most
/// `SNIPPET_LENGTH` characters, else its first `SNIPPET_LENGTH - 1`
/// characters followed by the marker `#`.
pub open spec fn snippet_of(text: Seq<char>) -> Seq<char> {
    if text.len() > SNIPPET_LENGTH {
        text.subrange(0, SNIPPET_LENGTH - 1).push('#')
    } else {
        text
    }
}

/// The value of the entry that records `item` at statement `index`, at the
/// place `span`, with the provenance `macro_origin`.
pub open spec fn indexed_at(
    index: u64,
    item: NodeView,
    span: Span,
    macro_origin: MacroOrigin,
) -> IndexedView {
    IndexedView {
        index,
        span: span.location@,
        snippet: snippet_of(text_of(span)),
        macro_origin,
        item,
    }
}

/// Whether a declared safety asks for an annotation.
pub open spec fn unsafety_flag(h: Unsafety) -> bool {
    h is Unsafe
}

/// Whether a calling convention crosses into foreign code.
pub open spec fn abi_is_foreign(h: Abi) -> bool {
    h is C || h is System
}

/// Whether a resolved type is a function type that needs a safety annotation
/// to be called.
pub open spec fn ty_is_unsafe(ty: Ty) -> bool {
    match ty {
        Ty::FnDef(sig) | Ty::FnPtr(sig) => unsafety_flag(sig.unsafety),
        _ => false,
    }
}

/// Whether a resolved type is a function type with a foreign calling
/// convention.
pub open spec fn ty_is_foreign(ty: Ty) -> bool {
    match ty {
        Ty::FnDef(sig) | Ty::FnPtr(sig) => abi_is_foreign(sig.abi),
        _ => false,
    }
}

/// Cuts a source text down to a snippet.
pub fn make_snippet(text: &str) -> (snippet: String)
    ensures
        snippet@ == snippet_of(text@),
{
    if text.unicode_len() > SNIPPET_LENGTH {
        let mut snippet = String::from_str(text.substring_char(0, SNIPPET_LENGTH - 1));
        proof {
            reveal_strlit("#");
            assert("#"@ =~= seq!['#']);
        }
        snippet.append("#");
        assert(snippet@ =~= snippet_of(text@));
        snippet
    } else {
        String::from_str(text)
    }
}

impl<T> Indexed<T> {
    /// Records `item` at statement `index` of the enclosing block. The
    /// display form and the snippet are taken from `span`; a range without
    /// source text gives an empty snippet.
    pub fn new(index: u64, item: T, span: &Span, macro_origin: MacroOrigin) -> (r: Indexed<T>)
        ensures
            r.index == index,
            r.item == item,
            r.span@ == span.location@,
            r.snippet@ == snippet_of(text_of(*span)),
            r.macro_origin == macro_origin,
    {
        let span_string = span.location.clone();
        let snippet = match &span.text {
            Some(text) => make_snippet(text.as_str()),
            None => String::new(),
        };
        Indexed { index, span: span_string, snippet, macro_origin, item }
    }
}

impl Block {
    pub fn new(unsafety: Unsafety, size: u64, contents: Vec<Indexed<UASTNode>>) -> (r: Block)
        ensures
            r.unsaf == unsafety_flag(unsafety),
            r.size == size,
            r.contents == contents,
    {
        Block { unsaf: is_unsafe(unsafety), size, contents }
    }
}

impl FnDecl {
    pub fn new(
        block: Box<Block>,
        unsafety: Unsafety,
        name: String,
        span: String,
        macro_origin: MacroOrigin,
    ) -> (r: FnDecl)
        ensures
            r.block == block,
            r.unsaf == unsafety_flag(unsafety),
            r.name == name,
            r.span == span,
            r.macro_origin == macro_origin,
    {
        FnDecl { unsaf: is_unsafe(unsafety), block, name, span, macro_origin }
    }
}

impl FFI {
    pub fn new(h: Abi) -> (r: FFI)
        ensures
            r.is_ffi == abi_is_foreign(h),
    {
        FFI {
            is_ffi: match h {
                Abi::C | Abi::System => true,
                _ => false,
            },
        }
    }

    /// The flag for the target of a call, from its resolved type. A type
    /// that is no function type is not foreign.
    pub fn from_fn_ty(ty: &Ty) -> (r: FFI)
        ensures
            r.is_ffi == ty_is_foreign(*ty),
    {
        match ty {
            Ty::FnDef(f) | Ty::FnPtr(f) => FFI::new(f.abi),
            _ => FFI { is_ffi: false },
        }
    }
}

impl Unsafe {
    pub fn new(h: Unsafety) -> (r: Unsafe)
        ensures
            r.unsaf == unsafety_flag(h),
    {
        Unsafe { unsaf: is_unsafe(h) }
    }

    /// The flag for the target of a call, from its resolved type. A type
    /// that is no function type needs no annotation.
    pub fn from_fn_ty(ty: &Ty) -> (r: Unsafe)
        ensures
            r.unsaf == ty_is_unsafe(*ty),
    {
        match ty {
            Ty::FnDef(f) | Ty::FnPtr(f) => Unsafe::new(f.unsafety),
            _ => Unsafe { unsaf: false },
        }
    }
}

pub fn is_unsafe(h: Unsafety) -> (r: bool)
    ensures
        r == unsafety_flag(h),
{
    match h {
        Unsafety::Normal => false,
        Unsafety::Unsafe => true,
    }
}

/// A copy of a flagged site.
pub fn clone_node(n: &UASTNode) -> (r: UASTNode)
    ensures
        r@ == n@,
    decreases n, 0nat,
{
    match n {
        UASTNode::Deref => UASTNode::Deref,
        UASTNode::MutStatic => UASTNode::MutStatic,
        UASTNode::InlineASM => UASTNode::InlineASM,
        UASTNode::Call(u, f) => UASTNode::Call(*u, *f),
        UASTNode::Closure(b) => UASTNode::Closure(Box::new(clone_block(b))),
        UASTNode::InnerBlock(b) => UASTNode::InnerBlock(Box::new(clone_block(b))),
    }
}

/// A copy of an entry.
pub fn clone_entry(i: &Indexed<UASTNode>) -> (r: Indexed<UASTNode>)
    ensures
        r@ == i@,
    decreases i, 1nat,
{
    Indexed {
        index: i.index,
        span: i.span.clone(),
        snippet: i.snippet.clone(),
        macro_origin: i.macro_origin,
        item: clone_node(&i.item),
    }
}

/// A copy of a block, with everything it holds.
pub fn clone_block(b: &Block) -> (r: Block)
    ensures
        r@ == b@,
    decreases b, 0nat,
{
    let mut contents: Vec<Indexed<UASTNode>> = Vec::new();
    let n = b.contents.len();
    let mut k: usize = 0;
    while k < n
        invariant
            k <= n,
            n == b.contents@.len(),
            contents@.len() == k,
            forall|j: int| 0 <= j < k ==> (#[trigger] contents@[j])@ == b.contents@[j]@,
        decreases n - k,
    {
        contents.push(clone_entry(&b.contents[k]));
        k += 1;
    }
    let r = Block { size: b.size, unsaf: b.unsaf, contents };
    assert(r@.contents =~= b@.contents);
    r
}

impl Clone for UASTNode {
    fn clone(&self) -> (r: UASTNode)
        ensures
            r@ == self@,
    {
        clone_node(self)
    }
}

impl<T: Clone> Clone for Indexed<T> {
    fn clone(&self) -> (r: Indexed<T>)
        ensures
            r.index == self.index,
            r.span@ == self.span@,
            r.snippet@ == self.snippet@,
            r.macro_origin == self.macro_origin,
            cloned::<T>(self.item, r.item),
    {
        Indexed {
            index: self.index,
            span: self.span.clone(),
            snippet: self.snippet.clone(),
            macro_origin: self.macro_origin,
            item: self.item.clone(),
        }
    }
}

impl Clone for Block {
    fn clone(&self) -> (r: Block)
        ensures
            r@ == self@,
    {
        clone_block(self)
    }
}

impl Clone for FnDecl {
    fn clone(&self) -> (r: FnDecl)
        ensures
            r@ == self@,
    {
        FnDecl {
            name: self.name.clone(),
            unsaf: self.unsaf,
            span: self.span.clone(),
            macro_origin: self.macro_origin,
            block: Box::new(clone_block(&self.block)),
        }
    }
}

impl Clone for Crate {
    fn clone(&self) -> (r: Crate)
        ensures
            r@ == self@,
    {
        let mut functions: Vec<FnDecl> = Vec::new();
        let n = self.functions.len();
        let mut k: usize = 0;
        while k < n
            invariant
                k <= n,
                n == self.functions@.len(),
                functions@.len() == k,
                forall|j: int| 0 <= j < k ==> (#[trigger] functions@[j])@ == self.functions@[j]@,
            decreases n - k,
        {
            functions.push(self.functions[k].clone());
            k += 1;
        }
        let r = Crate { name: self.name.clone(), ty: self.ty.clone(), functions };
        assert(r@.functions =~= self@.functions);
        r
    }
}

/// A snippet never has more than `SNIPPET_LENGTH` characters. A text
/// within that length is kept whole; of a longer one the snippet keeps the
/// first `SNIPPET_LENGTH - 1` characters and ends in the marker.
pub proof fn lemma_snippet_bounded(text: Seq<char>)
    ensures
        snippet_of(text).len() <= SNIPPET_LENGTH,
        text.len() <= SNIPPET_LENGTH ==> snippet_of(text) == text,
        text.len() > SNIPPET_LENGTH ==> snippet_of(text).len() == SNIPPET_LENGTH,
        text.len() > SNIPPET_LENGTH ==> snippet_of(text).subrange(0, SNIPPET_LENGTH - 1)
            == text.subrange(0, SNIPPET_LENGTH - 1),
        text.len() > SNIPPET_LENGTH ==> snippet_of(text)[SNIPPET_LENGTH - 1] == '#',
{
    if text.len() > SNIPPET_LENGTH {
        assert(snippet_of(text).subrange(0, SNIPPET_LENGTH - 1) =~= text.subrange(
            0,
            SNIPPET_LENGTH - 1,
        ));
    }
}

/// The positions of the entries of a block never go down, and each is
/// below `size`.
pub open spec fn entries_ordered(items: Seq<IndexedView>, size: int) -> bool {
    &&& forall|k: int| 0 <= k < items.len() ==> (#[trigger] items[k]).index < size
    &&& forall|j: int, k: int|
        0 <= j <= k < items.len() ==> (#[trigger] items[j]).index <= (#[trigger] items[k]).index
}

/// An entry is well formed when its snippet is within the length limit and
/// the block it holds, if it holds one, is well formed.
pub open spec fn item_wf(i: IndexedView) -> bool
    decreases i, 0nat,
{
    &&& i.snippet.len() <= SNIPPET_LENGTH
    &&& match i.item {
        NodeView::Closure(b) => block_wf(b),
        NodeView::InnerBlock(b) => block_wf(b),
        _ => true,
    }
}

/// A block is well formed when its entries are ordered by position, each
/// position is the number of one of its statements, and each entry is well
/// formed.
pub open spec fn block_wf(b: BlockView) -> bool
    decreases b, 0nat,
{
    &&& entries_ordered(b.contents, b.size as int)
    &&& forall|k: int| 0 <= k < b.contents.len() ==> item_wf(#[trigger] b.contents[k])
}

/// A crate summary is well formed when the body of each of its functions
/// is.
pub open spec fn crate_wf(c: CrateView) -> bool {
    forall|k: int| 0 <= k < c.functions.len() ==> block_wf((#[trigger] c.functions[k]).block)
}

} // verus!
