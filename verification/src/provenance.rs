//! Macro provenance of a position range: written by hand, expanded from a
//! macro of the analysed crate, expanded from a macro defined elsewhere, or
//! generated for a derived implementation.
//!
//! The classification is a heuristic on what the source map holds. A range
//! counts as derived when its source text is exactly one of a fixed list of
//! trait names; a derive of a trait outside that list counts as external.

use crate::syntax::{Expansion, Span};
use crate::text::{starts_with, str_equal};
use crate::unsafe_ast::MacroOrigin;
use vstd::prelude::*;
use vstd::string::*;

verus! {

/// `text` is one of the trait names that mark a derived implementation.
pub open spec fn is_derive_name(text: Seq<char>) -> bool {
    ||| text == "Clone"@
    ||| text == "Hash"@
    ||| text == "RustcEncodable"@
    ||| text == "RustcDecodable"@
    ||| text == "PartialEq"@
    ||| text == "Eq"@
    ||| text == "PartialOrd"@
    ||| text == "Ord"@
    ||| text == "Debug"@
    ||| text == "Default"@
    ||| text == "Send"@
    ||| text == "Sync"@
    ||| text == "Copy"@
    ||| text == "Encodable"@
    ||| text == "Decodable"@
}

/// The source text under a range, empty where the source map has none.
pub open spec fn text_of(span: Span) -> Seq<char> {
    match span.text {
        Some(t) => t@,
        None => Seq::empty(),
    }
}

/// The expanding macro is not one of the analysed crate: it is written as an
/// attribute, or its definition has no source text here, or that text does
/// not begin with the keyword that introduces a macro definition.
pub open spec fn is_external(exp: Expansion) -> bool {
    exp.attribute || match exp.definition {
        Some(code) => !"macro_rules"@.is_prefix_of(code@),
        None => true,
    }
}

/// The provenance of a range.
pub open spec fn origin_of(span: Span) -> MacroOrigin {
    match span.expansion {
        None => MacroOrigin::NotMacro,
        Some(exp) => if is_external(exp) {
            if is_derive_name(text_of(span)) {
                MacroOrigin::DeriveMacro
            } else {
                MacroOrigin::ExternalMacro
            }
        } else {
            MacroOrigin::LocalMacro
        },
    }
}

/// Whether `text` is one of the trait names that mark a derived
/// implementation.
pub fn names_derived_trait(text: &str) -> (r: bool)
    ensures
        r == is_derive_name(text@),
{
    str_equal(text, "Clone") || str_equal(text, "Hash") || str_equal(text, "RustcEncodable")
        || str_equal(text, "RustcDecodable") || str_equal(text, "PartialEq") || str_equal(
        text,
        "Eq",
    ) || str_equal(text, "PartialOrd") || str_equal(text, "Ord") || str_equal(text, "Debug")
        || str_equal(text, "Default") || str_equal(text, "Send") || str_equal(text, "Sync")
        || str_equal(text, "Copy") || str_equal(text, "Encodable") || str_equal(
        text,
        "Decodable",
    )
}

/// Whether the range was produced by any macro expansion.
pub fn in_macro(span: &Span) -> (r: bool)
    ensures
        r == span.expansion.is_some(),
{
    span.expansion.is_some()
}

/// Whether the range was produced by a macro that is not defined in the
/// analysed crate.
pub fn in_external_macro(span: &Span) -> (r: bool)
    ensures
        r == (span.expansion matches Some(exp) && is_external(exp)),
{
    match &span.expansion {
        None => false,
        Some(exp) => {
            if exp.attribute {
                return true;
            }
            match &exp.definition {
                None => true,
                Some(code) => !starts_with(code.as_str(), "macro_rules"),
            }
        },
    }
}

/// Classifies the provenance of a range. Every range has exactly one.
pub fn get_macro_origin(span: &Span) -> (r: MacroOrigin)
    ensures
        r == origin_of(*span),
{
    if in_macro(span) {
        if in_external_macro(span) {
            let derived = match &span.text {
                Some(text) => names_derived_trait(text.as_str()),
                None => {
                    proof {
                        reveal_strlit("");
                        assert(""@ =~= Seq::<char>::empty());
                    }
                    names_derived_trait("")
                },
            };
            if derived {
                MacroOrigin::DeriveMacro
            } else {
                MacroOrigin::ExternalMacro
            }
        } else {
            MacroOrigin::LocalMacro
        }
    } else {
        MacroOrigin::NotMacro
    }
}

/// Every range has exactly one provenance, and which one is decided by
/// three questions: whether the range came from an expansion, whether the
/// expanding macro is external, and whether the text under the range is one
/// of the listed trait names.
pub proof fn lemma_origin_exactly_one(span: Span)
    ensures
        origin_of(span) is NotMacro <==> span.expansion is None,
        origin_of(span) is LocalMacro <==> span.expansion is Some && !is_external(
            span.expansion->0,
        ),
        origin_of(span) is ExternalMacro <==> span.expansion is Some && is_external(
            span.expansion->0,
        ) && !is_derive_name(text_of(span)),
        origin_of(span) is DeriveMacro <==> span.expansion is Some && is_external(
            span.expansion->0,
        ) && is_derive_name(text_of(span)),
        (if origin_of(span) is NotMacro {
            1int
        } else {
            0int
        }) + (if origin_of(span) is LocalMacro {
            1int
        } else {
            0int
        }) + (if origin_of(span) is ExternalMacro {
            1int
        } else {
            0int
        }) + (if origin_of(span) is DeriveMacro {
            1int
        } else {
            0int
        }) == 1,
{
}

} // verus!
