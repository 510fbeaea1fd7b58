use rustc_serialize::{Encodable, Encoder};
use unsafe_ast::json::encode;
use unsafe_ast::syntax::{Span, Unsafety};
use unsafe_ast::unsafe_ast::{
    Block, Crate, FnDecl, Indexed, MacroOrigin, UASTNode, Unsafe, FFI,
};

/// Encodes a value of the library field by field, in declaration order, the
/// way a derived encoder does.
struct Mirror<'a, T>(&'a T);

impl<'a> Encodable for Mirror<'a, MacroOrigin> {
    fn encode<S: Encoder>(&self, s: &mut S) -> Result<(), S::Error> {
        s.emit_enum("MacroOrigin", |s| match self.0 {
            MacroOrigin::NotMacro => s.emit_enum_variant("NotMacro", 0, 0, |_| Ok(())),
            MacroOrigin::LocalMacro => s.emit_enum_variant("LocalMacro", 1, 0, |_| Ok(())),
            MacroOrigin::ExternalMacro => s.emit_enum_variant("ExternalMacro", 2, 0, |_| Ok(())),
            MacroOrigin::DeriveMacro => s.emit_enum_variant("DeriveMacro", 3, 0, |_| Ok(())),
        })
    }
}

impl<'a> Encodable for Mirror<'a, Unsafe> {
    fn encode<S: Encoder>(&self, s: &mut S) -> Result<(), S::Error> {
        s.emit_struct("Unsafe", 1, |s| s.emit_struct_field("unsaf", 0, |s| self.0.unsaf.encode(s)))
    }
}

impl<'a> Encodable for Mirror<'a, FFI> {
    fn encode<S: Encoder>(&self, s: &mut S) -> Result<(), S::Error> {
        s.emit_struct("FFI", 1, |s| s.emit_struct_field("is_ffi", 0, |s| self.0.is_ffi.encode(s)))
    }
}

impl<'a> Encodable for Mirror<'a, UASTNode> {
    fn encode<S: Encoder>(&self, s: &mut S) -> Result<(), S::Error> {
        s.emit_enum("UASTNode", |s| match self.0 {
            UASTNode::Deref => s.emit_enum_variant("Deref", 0, 0, |_| Ok(())),
            UASTNode::MutStatic => s.emit_enum_variant("MutStatic", 1, 0, |_| Ok(())),
            UASTNode::InlineASM => s.emit_enum_variant("InlineASM", 2, 0, |_| Ok(())),
            UASTNode::Call(u, f) => s.emit_enum_variant("Call", 3, 2, |s| {
                s.emit_enum_variant_arg(0, |s| Mirror(u).encode(s))?;
                s.emit_enum_variant_arg(1, |s| Mirror(f).encode(s))
            }),
            UASTNode::Closure(b) => s.emit_enum_variant("Closure", 4, 1, |s| {
                s.emit_enum_variant_arg(0, |s| Mirror(&**b).encode(s))
            }),
            UASTNode::InnerBlock(b) => s.emit_enum_variant("InnerBlock", 5, 1, |s| {
                s.emit_enum_variant_arg(0, |s| Mirror(&**b).encode(s))
            }),
        })
    }
}

impl<'a> Encodable for Mirror<'a, Indexed<UASTNode>> {
    fn encode<S: Encoder>(&self, s: &mut S) -> Result<(), S::Error> {
        s.emit_struct("Indexed", 5, |s| {
            s.emit_struct_field("index", 0, |s| self.0.index.encode(s))?;
            s.emit_struct_field("span", 1, |s| self.0.span.encode(s))?;
            s.emit_struct_field("snippet", 2, |s| self.0.snippet.encode(s))?;
            s.emit_struct_field("macro_origin", 3, |s| Mirror(&self.0.macro_origin).encode(s))?;
            s.emit_struct_field("item", 4, |s| Mirror(&self.0.item).encode(s))
        })
    }
}

impl<'a> Encodable for Mirror<'a, Block> {
    fn encode<S: Encoder>(&self, s: &mut S) -> Result<(), S::Error> {
        s.emit_struct("Block", 3, |s| {
            s.emit_struct_field("size", 0, |s| self.0.size.encode(s))?;
            s.emit_struct_field("unsaf", 1, |s| self.0.unsaf.encode(s))?;
            s.emit_struct_field("contents", 2, |s| {
                s.emit_seq(self.0.contents.len(), |s| {
                    for (i, e) in self.0.contents.iter().enumerate() {
                        s.emit_seq_elt(i, |s| Mirror(e).encode(s))?;
                    }
                    Ok(())
                })
            })
        })
    }
}

impl<'a> Encodable for Mirror<'a, FnDecl> {
    fn encode<S: Encoder>(&self, s: &mut S) -> Result<(), S::Error> {
        s.emit_struct("FnDecl", 5, |s| {
            s.emit_struct_field("name", 0, |s| self.0.name.encode(s))?;
            s.emit_struct_field("unsaf", 1, |s| self.0.unsaf.encode(s))?;
            s.emit_struct_field("span", 2, |s| self.0.span.encode(s))?;
            s.emit_struct_field("macro_origin", 3, |s| Mirror(&self.0.macro_origin).encode(s))?;
            s.emit_struct_field("block", 4, |s| Mirror(&*self.0.block).encode(s))
        })
    }
}

impl<'a> Encodable for Mirror<'a, Crate> {
    fn encode<S: Encoder>(&self, s: &mut S) -> Result<(), S::Error> {
        s.emit_struct("Crate", 3, |s| {
            s.emit_struct_field("name", 0, |s| self.0.name.encode(s))?;
            s.emit_struct_field("ty", 1, |s| self.0.ty.encode(s))?;
            s.emit_struct_field("functions", 2, |s| {
                s.emit_seq(self.0.functions.len(), |s| {
                    for (i, e) in self.0.functions.iter().enumerate() {
                        s.emit_seq_elt(i, |s| Mirror(e).encode(s))?;
                    }
                    Ok(())
                })
            })
        })
    }
}

fn span(location: &str, text: &str) -> Span {
    Span { location: location.to_string(), text: Some(text.to_string()), expansion: None }
}

fn entry(index: u64, item: UASTNode, text: &str, origin: MacroOrigin) -> Indexed<UASTNode> {
    Indexed::new(index, item, &span("src/lib.rs:3:5: 3:9", text), origin)
}

fn sample() -> Crate {
    let inner = Block::new(
        Unsafety::Unsafe,
        18446744073709551615,
        vec![
            entry(0, UASTNode::Deref, "*p", MacroOrigin::NotMacro),
            entry(7, UASTNode::MutStatic, "X", MacroOrigin::LocalMacro),
            entry(1234567890, UASTNode::InlineASM, "asm!(\"nop\")", MacroOrigin::ExternalMacro),
        ],
    );
    let closure = Block::new(Unsafety::Normal, 0, vec![]);
    let body = Block::new(
        Unsafety::Normal,
        10,
        vec![
            entry(
                0,
                UASTNode::Call(Unsafe { unsaf: true }, FFI { is_ffi: false }),
                "a\tb\\c\"d\ne\u{7f}f\u{1}g\u{1f}h\r\u{8}\u{c}\u{0}é☃",
                MacroOrigin::DeriveMacro,
            ),
            entry(3, UASTNode::InnerBlock(Box::new(inner)), "unsafe { .. }", MacroOrigin::NotMacro),
            entry(9, UASTNode::Closure(Box::new(closure)), "|| ()", MacroOrigin::NotMacro),
        ],
    );
    Crate {
        name: "demo \"crate\"".to_string(),
        ty: "CrateTypeExecutable".to_string(),
        functions: vec![
            FnDecl::new(
                Box::new(body),
                Unsafety::Unsafe,
                "demo::f".to_string(),
                "src/lib.rs:1:1: 9:2".to_string(),
                MacroOrigin::NotMacro,
            ),
            FnDecl::new(
                Box::new(Block::new(Unsafety::Normal, 1, vec![])),
                Unsafety::Normal,
                "demo::S::g".to_string(),
                "src/lib.rs:11:1: 12:2".to_string(),
                MacroOrigin::LocalMacro,
            ),
        ],
    }
}

#[test]
fn record_of_an_empty_crate() {
    let c = Crate { name: "empty".to_string(), ty: "lib".to_string(), functions: vec![] };
    assert_eq!(encode(&c), "{\"name\":\"empty\",\"ty\":\"lib\",\"functions\":[]}");
}

#[test]
fn record_has_the_documented_shape() {
    let body = Block::new(
        Unsafety::Normal,
        3,
        vec![
            entry(1, UASTNode::Deref, "*p", MacroOrigin::NotMacro),
            entry(2, UASTNode::Call(Unsafe { unsaf: true }, FFI { is_ffi: true }), "f()", MacroOrigin::NotMacro),
        ],
    );
    let c = Crate {
        name: "demo".to_string(),
        ty: "bin".to_string(),
        functions: vec![FnDecl::new(
            Box::new(body),
            Unsafety::Normal,
            "demo::main".to_string(),
            "src/main.rs:1:1: 5:2".to_string(),
            MacroOrigin::NotMacro,
        )],
    };
    let expected = concat_all(&[
        "{\"name\":\"demo\",\"ty\":\"bin\",\"functions\":[",
        "{\"name\":\"demo::main\",\"unsaf\":false,\"span\":\"src/main.rs:1:1: 5:2\",",
        "\"macro_origin\":\"NotMacro\",\"block\":{\"size\":3,\"unsaf\":false,\"contents\":[",
        "{\"index\":1,\"span\":\"src/lib.rs:3:5: 3:9\",\"snippet\":\"*p\",",
        "\"macro_origin\":\"NotMacro\",\"item\":\"Deref\"},",
        "{\"index\":2,\"span\":\"src/lib.rs:3:5: 3:9\",\"snippet\":\"f()\",",
        "\"macro_origin\":\"NotMacro\",\"item\":{\"variant\":\"Call\",\"fields\":[",
        "{\"unsaf\":true},{\"is_ffi\":true}]}}",
        "]}}]}",
    ]);
    assert_eq!(encode(&c), expected);
}

fn concat_all(parts: &[&str]) -> String {
    let mut s = String::new();
    for p in parts {
        s.push_str(p);
    }
    s
}

#[test]
fn record_is_what_the_json_crate_writes() {
    let c = sample();
    let theirs = rustc_serialize::json::encode(&Mirror(&c)).unwrap();
    assert_eq!(encode(&c), theirs);
}

#[test]
fn every_control_character_is_escaped_as_the_json_crate_does() {
    let mut text = String::new();
    for code in 0u32..0x90 {
        text.push(char::from_u32(code).unwrap());
    }
    text.push('\u{10ffff}');
    let c = Crate { name: text, ty: String::new(), functions: vec![] };
    let theirs = rustc_serialize::json::encode(&Mirror(&c)).unwrap();
    assert_eq!(encode(&c), theirs);
}

#[test]
fn numbers_are_written_in_decimal() {
    for n in [0u64, 9, 10, 99, 100, 4294967296, 18446744073709551615] {
        let c = Crate {
            name: String::new(),
            ty: String::new(),
            functions: vec![FnDecl::new(
                Box::new(Block::new(Unsafety::Normal, n, vec![])),
                Unsafety::Normal,
                String::new(),
                String::new(),
                MacroOrigin::NotMacro,
            )],
        };
        let expected = format!(
            "{{\"name\":\"\",\"ty\":\"\",\"functions\":[{{\"name\":\"\",\"unsaf\":false,\"span\":\"\",\"macro_origin\":\"NotMacro\",\"block\":{{\"size\":{},\"unsaf\":false,\"contents\":[]}}}}]}}",
            n
        );
        assert_eq!(encode(&c), expected);
    }
}
