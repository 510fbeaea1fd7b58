use unsafe_ast::provenance::{get_macro_origin, in_external_macro, in_macro};
use unsafe_ast::syntax::{Expansion, Span};
use unsafe_ast::text::{starts_with, str_equal};
use unsafe_ast::unsafe_ast::{make_snippet, Indexed, MacroOrigin, UASTNode};

fn span(text: Option<&str>, expansion: Option<Expansion>) -> Span {
    Span { location: "a.rs:1:1: 1:2".to_string(), text: text.map(|t| t.to_string()), expansion }
}

fn expansion(attribute: bool, definition: Option<&str>) -> Expansion {
    Expansion { attribute, definition: definition.map(|d| d.to_string()) }
}

#[test]
fn range_without_expansion_is_no_macro() {
    let s = span(Some("Clone"), None);
    assert!(!in_macro(&s));
    assert!(!in_external_macro(&s));
    assert_eq!(get_macro_origin(&s), MacroOrigin::NotMacro);
}

#[test]
fn expansion_of_a_macro_defined_here_is_local() {
    let s = span(Some("m!()"), Some(expansion(false, Some("macro_rules! m { () => { 1 } }"))));
    assert!(in_macro(&s));
    assert!(!in_external_macro(&s));
    assert_eq!(get_macro_origin(&s), MacroOrigin::LocalMacro);
}

#[test]
fn local_definition_does_not_make_a_derive_name_derived() {
    let s = span(Some("Clone"), Some(expansion(false, Some("macro_rules! Clone { () => {} }"))));
    assert_eq!(get_macro_origin(&s), MacroOrigin::LocalMacro);
}

#[test]
fn expansion_without_definition_text_is_external() {
    let s = span(Some("println!(\"x\")"), Some(expansion(false, None)));
    assert!(in_external_macro(&s));
    assert_eq!(get_macro_origin(&s), MacroOrigin::ExternalMacro);
}

#[test]
fn definition_that_is_no_macro_definition_is_external() {
    let s = span(Some("vec![1]"), Some(expansion(false, Some("fn macro_rules() {}"))));
    assert!(in_external_macro(&s));
    assert_eq!(get_macro_origin(&s), MacroOrigin::ExternalMacro);
    let short = span(Some("vec![1]"), Some(expansion(false, Some("macro_rule"))));
    assert_eq!(get_macro_origin(&short), MacroOrigin::ExternalMacro);
}

#[test]
fn attribute_macro_is_external_even_with_a_local_definition() {
    let s = span(Some("#[test]"), Some(expansion(true, Some("macro_rules! t { () => {} }"))));
    assert!(in_external_macro(&s));
    assert_eq!(get_macro_origin(&s), MacroOrigin::ExternalMacro);
}

#[test]
fn derive_name_with_unresolvable_definition_is_derived() {
    let s = span(Some("PartialEq"), Some(expansion(false, None)));
    assert_eq!(get_macro_origin(&s), MacroOrigin::DeriveMacro);
    let entry = Indexed::new(0, UASTNode::Call(
        unsafe_ast::unsafe_ast::Unsafe { unsaf: true },
        unsafe_ast::unsafe_ast::FFI { is_ffi: false },
    ), &s, get_macro_origin(&s));
    assert_eq!(entry.macro_origin, MacroOrigin::DeriveMacro);
    assert_eq!(entry.snippet, "PartialEq");
}

#[test]
fn each_listed_trait_name_is_derived() {
    let names = [
        "Clone", "Hash", "RustcEncodable", "RustcDecodable", "PartialEq", "Eq", "PartialOrd",
        "Ord", "Debug", "Default", "Send", "Sync", "Copy", "Encodable", "Decodable",
    ];
    for name in names {
        let s = span(Some(name), Some(expansion(true, None)));
        assert_eq!(get_macro_origin(&s), MacroOrigin::DeriveMacro, "{}", name);
    }
}

#[test]
fn other_text_in_an_external_expansion_is_external() {
    for text in ["Serialize", "clone", "Clone ", "", "Display", "derive(Clone)"] {
        let s = span(Some(text), Some(expansion(true, None)));
        assert_eq!(get_macro_origin(&s), MacroOrigin::ExternalMacro, "{:?}", text);
    }
    let no_text = span(None, Some(expansion(true, None)));
    assert_eq!(get_macro_origin(&no_text), MacroOrigin::ExternalMacro);
}

#[test]
fn short_text_is_kept_whole() {
    assert_eq!(make_snippet(""), "");
    assert_eq!(make_snippet("*p"), "*p");
    let forty = "0123456789012345678901234567890123456789";
    assert_eq!(forty.chars().count(), 40);
    assert_eq!(make_snippet(forty), forty);
}

#[test]
fn long_text_is_cut_to_thirty_nine_characters_and_the_marker() {
    let text = "0123456789012345678901234567890123456789X";
    assert_eq!(make_snippet(text), "012345678901234567890123456789012345678#");
    assert_eq!(make_snippet(text).chars().count(), 40);
    let long = "let value = unsafe { std::mem::transmute::<u32, f32>(bits) };";
    assert_eq!(make_snippet(long), "let value = unsafe { std::mem::transmut#");
}

#[test]
fn snippet_length_counts_characters() {
    let accents = "éééééééééééééééééééééééééééééé";
    assert_eq!(accents.chars().count(), 30);
    assert_eq!(make_snippet(accents), accents);
    let long: String = std::iter::repeat('é').take(41).collect();
    let cut: String = std::iter::repeat('é').take(39).chain(std::iter::once('#')).collect();
    assert_eq!(make_snippet(&long), cut);
}

#[test]
fn range_without_text_has_an_empty_snippet() {
    let s = span(None, None);
    let entry = Indexed::new(5, UASTNode::Deref, &s, MacroOrigin::NotMacro);
    assert_eq!(entry.index, 5);
    assert_eq!(entry.span, "a.rs:1:1: 1:2");
    assert_eq!(entry.snippet, "");
    assert_eq!(entry.item, UASTNode::Deref);
}

#[test]
fn prefix_and_equality_go_by_characters() {
    assert!(starts_with("macro_rules! m", "macro_rules"));
    assert!(starts_with("macro_rules", "macro_rules"));
    assert!(!starts_with("macro_rule", "macro_rules"));
    assert!(!starts_with(" macro_rules", "macro_rules"));
    assert!(starts_with("anything", ""));
    assert!(starts_with("été chaud", "été"));
    assert!(str_equal("deps", "deps"));
    assert!(!str_equal("deps", "dep"));
    assert!(!str_equal("deps", "Deps"));
    assert!(str_equal("", ""));
}
