//! The textual form of a summary: one compact JSON record per crate.
//!
//! A struct is an object with its fields in declaration order. An enum
//! variant without fields is its name as a string; one with fields is an
//! object holding the name under `variant` and the fields as a list under
//! `fields`. No white space is written.

use crate::unsafe_ast::{
    Block, BlockView, Crate, CrateView, FnDecl, FnDeclView, Indexed, IndexedView, MacroOrigin,
    NodeView, UASTNode,
};
use vstd::prelude::*;
use vstd::std_specs::iter::IteratorSpec;

verus! {

/// The digit for a value below 16: `0` to `9`, then `a` to `f`.
pub open spec fn digit_char(d: int) -> char {
    if d == 0 {
        '0'
    } else if d == 1 {
        '1'
    } else if d == 2 {
        '2'
    } else if d == 3 {
        '3'
    } else if d == 4 {
        '4'
    } else if d == 5 {
        '5'
    } else if d == 6 {
        '6'
    } else if d == 7 {
        '7'
    } else if d == 8 {
        '8'
    } else if d == 9 {
        '9'
    } else if d == 10 {
        'a'
    } else if d == 11 {
        'b'
    } else if d == 12 {
        'c'
    } else if d == 13 {
        'd'
    } else if d == 14 {
        'e'
    } else {
        'f'
    }
}

/// Whether a character is written as an escape inside a string: the
/// quote, the backslash, the control characters below U+0020, and U+007F.
pub open spec fn needs_escape(c: char) -> bool {
    c == '"' || c == '\\' || (c as u32) < 0x20 || c == '\u{7f}'
}

/// How one character is written inside a string. The characters with a
/// short escape get it; the other control characters are written as
/// `\u00` and two hexadecimal digits; every other character stands for
/// itself.
pub open spec fn escape_char(c: char) -> Seq<char> {
    if c == '"' {
        seq!['\\', '"']
    } else if c == '\\' {
        seq!['\\', '\\']
    } else if c == '\u{8}' {
        seq!['\\', 'b']
    } else if c == '\t' {
        seq!['\\', 't']
    } else if c == '\n' {
        seq!['\\', 'n']
    } else if c == '\u{c}' {
        seq!['\\', 'f']
    } else if c == '\r' {
        seq!['\\', 'r']
    } else if (c as u32) < 0x20 || c == '\u{7f}' {
        seq!['\\', 'u', '0', '0', digit_char((c as u32) as int / 16), digit_char((c as u32) as int % 16)]
    } else {
        seq![c]
    }
}

/// The first `n` characters of `s`, each written as inside a string.
pub open spec fn escaped(s: Seq<char>, n: nat) -> Seq<char>
    decreases n,
{
    if n == 0 || n > s.len() {
        Seq::empty()
    } else {
        escaped(s, (n - 1) as nat) + escape_char(s[n - 1])
    }
}

/// A string, between quotes.
pub open spec fn string_text(s: Seq<char>) -> Seq<char> {
    seq!['"'] + escaped(s, s.len()) + seq!['"']
}

/// A number, in decimal without leading zeros.
pub open spec fn number_text(n: nat) -> Seq<char>
    decreases n,
{
    if n < 10 {
        seq![digit_char(n as int)]
    } else {
        number_text(n / 10).push(digit_char((n % 10) as int))
    }
}

pub open spec fn bool_text(b: bool) -> Seq<char> {
    if b {
        "true"@
    } else {
        "false"@
    }
}

pub open spec fn origin_text(o: MacroOrigin) -> Seq<char> {
    match o {
        MacroOrigin::NotMacro => "\"NotMacro\""@,
        MacroOrigin::LocalMacro => "\"LocalMacro\""@,
        MacroOrigin::ExternalMacro => "\"ExternalMacro\""@,
        MacroOrigin::DeriveMacro => "\"DeriveMacro\""@,
    }
}

pub open spec fn node_text(n: NodeView) -> Seq<char>
    decreases n, 0nat,
{
    match n {
        NodeView::Deref => "\"Deref\""@,
        NodeView::MutStatic => "\"MutStatic\""@,
        NodeView::InlineASM => "\"InlineASM\""@,
        NodeView::Call(u, f) => "{\"variant\":\"Call\",\"fields\":[{\"unsaf\":"@ + bool_text(u.unsaf)
            + "},{\"is_ffi\":"@ + bool_text(f.is_ffi) + "}]}"@,
        NodeView::Closure(b) => "{\"variant\":\"Closure\",\"fields\":["@ + block_text(b) + "]}"@,
        NodeView::InnerBlock(b) => "{\"variant\":\"InnerBlock\",\"fields\":["@ + block_text(b)
            + "]}"@,
    }
}

pub open spec fn item_text(i: IndexedView) -> Seq<char>
    decreases i, 0nat,
{
    "{\"index\":"@ + number_text(i.index as nat) + ",\"span\":"@ + string_text(i.span)
        + ",\"snippet\":"@ + string_text(i.snippet) + ",\"macro_origin\":"@ + origin_text(
        i.macro_origin,
    ) + ",\"item\":"@ + node_text(i.item) + "}"@
}

/// The first `n` of `items`, with a comma between one and the next.
pub open spec fn items_text(items: Seq<IndexedView>, n: nat) -> Seq<char>
    decreases items, n,
{
    if n == 0 || n > items.len() {
        Seq::empty()
    } else if n == 1 {
        item_text(items[0])
    } else {
        items_text(items, (n - 1) as nat) + ","@ + item_text(items[n - 1])
    }
}

pub open spec fn block_text(b: BlockView) -> Seq<char>
    decreases b, 0nat,
{
    "{\"size\":"@ + number_text(b.size as nat) + ",\"unsaf\":"@ + bool_text(b.unsaf)
        + ",\"contents\":["@ + items_text(b.contents, b.contents.len()) + "]}"@
}

pub open spec fn function_text(f: FnDeclView) -> Seq<char> {
    "{\"name\":"@ + string_text(f.name) + ",\"unsaf\":"@ + bool_text(f.unsaf) + ",\"span\":"@
        + string_text(f.span) + ",\"macro_origin\":"@ + origin_text(f.macro_origin)
        + ",\"block\":"@ + block_text(f.block) + "}"@
}

/// The first `n` of `functions`, with a comma between one and the next.
pub open spec fn functions_text(functions: Seq<FnDeclView>, n: nat) -> Seq<char>
    decreases n,
{
    if n == 0 || n > functions.len() {
        Seq::empty()
    } else if n == 1 {
        function_text(functions[0])
    } else {
        functions_text(functions, (n - 1) as nat) + ","@ + function_text(functions[n - 1])
    }
}

/// The record of a crate.
pub open spec fn crate_text(c: CrateView) -> Seq<char> {
    "{\"name\":"@ + string_text(c.name) + ",\"ty\":"@ + string_text(c.ty) + ",\"functions\":["@
        + functions_text(c.functions, c.functions.len()) + "]}"@
}

/// The standard library's `String::push` appends the given character to
/// the end of the string.
pub assume_specification[ String::push ](s: &mut String, ch: char)
    ensures
        final(s)@ == old(s)@.push(ch),
;

fn digit_for(d: u32) -> (c: char)
    requires
        d < 16,
    ensures
        c == digit_char(d as int),
{
    if d == 0 {
        '0'
    } else if d == 1 {
        '1'
    } else if d == 2 {
        '2'
    } else if d == 3 {
        '3'
    } else if d == 4 {
        '4'
    } else if d == 5 {
        '5'
    } else if d == 6 {
        '6'
    } else if d == 7 {
        '7'
    } else if d == 8 {
        '8'
    } else if d == 9 {
        '9'
    } else if d == 10 {
        'a'
    } else if d == 11 {
        'b'
    } else if d == 12 {
        'c'
    } else if d == 13 {
        'd'
    } else if d == 14 {
        'e'
    } else {
        'f'
    }
}

/// Appends one character, as it is written inside a string.
pub fn write_escaped_char(out: &mut String, c: char)
    ensures
        final(out)@ == old(out)@ + escape_char(c),
{
    let code = c as u32;
    if c == '"' {
        out.push('\\');
        out.push('"');
    } else if c == '\\' {
        out.push('\\');
        out.push('\\');
    } else if c == '\u{8}' {
        out.push('\\');
        out.push('b');
    } else if c == '\t' {
        out.push('\\');
        out.push('t');
    } else if c == '\n' {
        out.push('\\');
        out.push('n');
    } else if c == '\u{c}' {
        out.push('\\');
        out.push('f');
    } else if c == '\r' {
        out.push('\\');
        out.push('r');
    } else if code < 0x20 || c == '\u{7f}' {
        out.push('\\');
        out.push('u');
        out.push('0');
        out.push('0');
        out.push(digit_for(code / 16));
        out.push(digit_for(code % 16));
    } else {
        out.push(c);
    }
    assert(out@ =~= old(out)@ + escape_char(c));
}

/// Appends a string, between quotes.
pub fn write_string(out: &mut String, s: &str)
    ensures
        final(out)@ == old(out)@ + string_text(s@),
{
    out.push('"');
    let ghost start = out@;
    let ghost mut done: nat = 0;
    let mut it = s.chars();
    loop
        invariant
            done <= s@.len(),
            it.remaining() == s@.skip(done as int),
            it.obeys_prophetic_iter_laws(),
            out@ == start + escaped(s@, done),
        ensures
            done == s@.len(),
        decreases s@.len() - done,
    {
        match it.next() {
            Some(c) => {
                write_escaped_char(out, c);
                proof {
                    assert(c == s@[done as int]);
                    assert(out@ =~= start + escaped(s@, done + 1));
                    done = done + 1;
                }
            },
            None => {
                break ;
            },
        }
    }
    out.push('"');
    assert(out@ =~= old(out)@ + string_text(s@));
}

/// Appends a number, in decimal.
pub fn write_number(out: &mut String, n: u64)
    ensures
        final(out)@ == old(out)@ + number_text(n as nat),
    decreases n,
{
    if n < 10 {
        out.push(digit_for(n as u32));
        assert(out@ =~= old(out)@ + number_text(n as nat));
    } else {
        write_number(out, n / 10);
        out.push(digit_for((n % 10) as u32));
        assert(out@ =~= old(out)@ + number_text(n as nat));
    }
}

pub fn write_bool(out: &mut String, b: bool)
    ensures
        final(out)@ == old(out)@ + bool_text(b),
{
    if b {
        out.append("true");
    } else {
        out.append("false");
    }
}

pub fn write_origin(out: &mut String, o: MacroOrigin)
    ensures
        final(out)@ == old(out)@ + origin_text(o),
{
    match o {
        MacroOrigin::NotMacro => out.append("\"NotMacro\""),
        MacroOrigin::LocalMacro => out.append("\"LocalMacro\""),
        MacroOrigin::ExternalMacro => out.append("\"ExternalMacro\""),
        MacroOrigin::DeriveMacro => out.append("\"DeriveMacro\""),
    }
}

pub fn write_node(out: &mut String, n: &UASTNode)
    ensures
        final(out)@ == old(out)@ + node_text(n@),
    decreases n, 0nat,
{
    match n {
        UASTNode::Deref => out.append("\"Deref\""),
        UASTNode::MutStatic => out.append("\"MutStatic\""),
        UASTNode::InlineASM => out.append("\"InlineASM\""),
        UASTNode::Call(u, f) => {
            out.append("{\"variant\":\"Call\",\"fields\":[{\"unsaf\":");
            write_bool(out, u.unsaf);
            out.append("},{\"is_ffi\":");
            write_bool(out, f.is_ffi);
            out.append("}]}");
            assert(out@ =~= old(out)@ + node_text(n@));
        },
        UASTNode::Closure(b) => {
            out.append("{\"variant\":\"Closure\",\"fields\":[");
            write_block(out, b);
            out.append("]}");
            assert(out@ =~= old(out)@ + node_text(n@));
        },
        UASTNode::InnerBlock(b) => {
            out.append("{\"variant\":\"InnerBlock\",\"fields\":[");
            write_block(out, b);
            out.append("]}");
            assert(out@ =~= old(out)@ + node_text(n@));
        },
    }
}

pub fn write_item(out: &mut String, i: &Indexed<UASTNode>)
    ensures
        final(out)@ == old(out)@ + item_text(i@),
    decreases i, 1nat,
{
    out.append("{\"index\":");
    write_number(out, i.index);
    out.append(",\"span\":");
    write_string(out, i.span.as_str());
    out.append(",\"snippet\":");
    write_string(out, i.snippet.as_str());
    out.append(",\"macro_origin\":");
    write_origin(out, i.macro_origin);
    out.append(",\"item\":");
    write_node(out, &i.item);
    out.append("}");
    assert(out@ =~= old(out)@ + item_text(i@));
}

pub fn write_block(out: &mut String, b: &Block)
    ensures
        final(out)@ == old(out)@ + block_text(b@),
    decreases b, 0nat,
{
    out.append("{\"size\":");
    write_number(out, b.size);
    out.append(",\"unsaf\":");
    write_bool(out, b.unsaf);
    out.append(",\"contents\":[");
    let ghost start = out@;
    let n = b.contents.len();
    let mut i: usize = 0;
    while i < n
        invariant
            i <= n,
            n == b.contents@.len(),
            b@.contents.len() == n,
            out@ == start + items_text(b@.contents, i as nat),
        decreases n - i,
    {
        if i > 0 {
            out.append(",");
        }
        write_item(out, &b.contents[i]);
        assert(b@.contents[i as int] == b.contents@[i as int]@);
        assert(out@ =~= start + items_text(b@.contents, (i + 1) as nat));
        i += 1;
    }
    out.append("]}");
    assert(out@ =~= old(out)@ + block_text(b@));
}

pub fn write_function(out: &mut String, f: &FnDecl)
    ensures
        final(out)@ == old(out)@ + function_text(f@),
{
    out.append("{\"name\":");
    write_string(out, f.name.as_str());
    out.append(",\"unsaf\":");
    write_bool(out, f.unsaf);
    out.append(",\"span\":");
    write_string(out, f.span.as_str());
    out.append(",\"macro_origin\":");
    write_origin(out, f.macro_origin);
    out.append(",\"block\":");
    write_block(out, &f.block);
    out.append("}");
    assert(out@ =~= old(out)@ + function_text(f@));
}

/// The record of a crate, as text.
pub fn encode(c: &Crate) -> (text: String)
    ensures
        text@ == crate_text(c@),
{
    let mut out = String::new();
    out.append("{\"name\":");
    write_string(&mut out, c.name.as_str());
    out.append(",\"ty\":");
    write_string(&mut out, c.ty.as_str());
    out.append(",\"functions\":[");
    let ghost start = out@;
    let n = c.functions.len();
    let mut i: usize = 0;
    while i < n
        invariant
            i <= n,
            n == c.functions@.len(),
            c@.functions.len() == n,
            out@ == start + functions_text(c@.functions, i as nat),
        decreases n - i,
    {
        if i > 0 {
            out.append(",");
        }
        write_function(&mut out, &c.functions[i]);
        assert(c@.functions[i as int] == c.functions@[i as int]@);
        assert(out@ =~= start + functions_text(c@.functions, (i + 1) as nat));
        i += 1;
    }
    out.append("]}");
    assert(out@ =~= crate_text(c@));
    out
}

} // verus!
