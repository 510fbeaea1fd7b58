//! The analysed program, as an owned tree.
//!
//! The tree holds, as plain values, what the front end knows of each
//! construct: the resolved type of a call target, whether a path names a
//! mutable global, and for each position range its display form, its source
//! text and its macro-expansion data.

use vstd::prelude::*;

verus! {

/// The declared safety of a function or of a function type.
#[derive(Clone, Copy, PartialEq, Eq, Debug, Structural)]
pub enum Unsafety {
    Unsafe,
    Normal,
}

/// The declared calling convention of a function type.
#[derive(Clone, Copy, PartialEq, Eq, Debug, Structural)]
pub enum Abi {
    Cdecl,
    Stdcall,
    Fastcall,
    Vectorcall,
    Aapcs,
    Win64,
    Rust,
    C,
    System,
    RustIntrinsic,
    RustCall,
    PlatformIntrinsic,
}

/// Who wrote the safety annotation of a block.
#[derive(Clone, Copy, PartialEq, Eq, Debug, Structural)]
pub enum UnsafeSource {
    CompilerGenerated,
    UserProvided,
}

/// The checking rules that a block was written under.
#[derive(Clone, Copy, PartialEq, Eq, Debug, Structural)]
pub enum BlockCheckMode {
    DefaultBlock,
    UnsafeBlock(UnsafeSource),
    PushUnsafeBlock(UnsafeSource),
    PopUnsafeBlock(UnsafeSource),
    PushUnstableBlock,
    PopUnstableBlock,
}

/// The safety and calling convention of a function type.
#[derive(Clone, Copy, PartialEq, Eq, Debug, Structural)]
pub struct FnSig {
    pub unsafety: Unsafety,
    pub abi: Abi,
}

/// What the analysis reads of a resolved type.
#[derive(Clone, Copy, PartialEq, Eq, Debug, Structural)]
pub enum Ty {
    /// The type of a function item.
    FnDef(FnSig),
    /// A function pointer.
    FnPtr(FnSig),
    /// A raw pointer.
    RawPtr,
    /// Any other type.
    Other,
}

/// What a path expression resolves to.
#[derive(Clone, Copy, PartialEq, Eq, Debug, Structural)]
pub enum Def {
    /// A global; the flag says whether it is mutable.
    Static(bool),
    /// Anything else.
    Other,
}

/// The macro expansion that produced a position range.
#[derive(PartialEq, Eq, Debug)]
pub struct Expansion {
    /// The expanding macro is written as an attribute.
    pub attribute: bool,
    /// The source text of the expanding macro's definition, where the
    /// definition has a position range and that range has text.
    pub definition: Option<String>,
}

/// A position range of the analysed program.
#[derive(PartialEq, Eq, Debug)]
pub struct Span {
    /// The display form of the range (file, lines and columns).
    pub location: String,
    /// The source text under the range, where there is any.
    pub text: Option<String>,
    /// The expansion that the range came from, if it came from one.
    pub expansion: Option<Expansion>,
}

/// The kinds of expression that the analysis tells apart.
#[derive(Clone, Copy, PartialEq, Eq, Debug, Structural)]
pub enum ExprKind {
    /// A call; the type is that of the called expression.
    Call(Ty),
    /// A method call; the type is that of the resolved method.
    MethodCall(Ty),
    /// A dereference; the type is that of the operand.
    Deref(Ty),
    /// Inline machine code.
    InlineAsm,
    /// A path.
    Path(Def),
    /// Any other expression.
    Other,
}

/// What an expression or a statement directly contains, in source order.
#[derive(PartialEq, Eq, Debug)]
pub enum Child {
    Expr(Expr),
    Block(Block),
    Closure(Closure),
}

#[derive(PartialEq, Eq, Debug)]
pub struct Expr {
    pub kind: ExprKind,
    pub span: Span,
    pub children: Vec<Child>,
}

#[derive(PartialEq, Eq, Debug)]
pub struct Stmt {
    pub children: Vec<Child>,
}

#[derive(PartialEq, Eq, Debug)]
pub struct Block {
    pub stmts: Vec<Stmt>,
    /// The trailing expression.
    pub expr: Option<Expr>,
    pub rules: BlockCheckMode,
    pub span: Span,
}

/// A function written inside an expression.
#[derive(PartialEq, Eq, Debug)]
pub struct Closure {
    pub span: Span,
    pub body: Block,
}

/// A function or method definition.
#[derive(PartialEq, Eq, Debug)]
pub struct Function {
    pub unsafety: Unsafety,
    /// The path of the definition within its crate.
    pub name: String,
    pub span: Span,
    pub body: Block,
}

/// The function and method definitions of one compilation unit, nested
/// definitions included, each listed once.
#[derive(PartialEq, Eq, Debug)]
pub struct SourceCrate {
    pub functions: Vec<Function>,
}

fn clone_text(text: &Option<String>) -> (r: Option<String>)
    ensures
        r == *text,
{
    match text {
        Some(t) => Some(t.clone()),
        None => None,
    }
}

impl Clone for Expansion {
    fn clone(&self) -> (r: Expansion)
        ensures
            r == *self,
    {
        Expansion { attribute: self.attribute, definition: clone_text(&self.definition) }
    }
}

impl Clone for Span {
    fn clone(&self) -> (r: Span)
        ensures
            r == *self,
    {
        Span {
            location: self.location.clone(),
            text: clone_text(&self.text),
            expansion: match &self.expansion {
                Some(e) => Some(e.clone()),
                None => None,
            },
        }
    }
}

} // verus!
