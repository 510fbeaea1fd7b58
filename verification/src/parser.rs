//! The parser of records. Each function reads one kind of value at a
//! position of the text and gives what the grammar says stands there.

use crate::emitter::{functions_view, items_view};
use crate::grammar::{
    at, digit_value, digits_value, hex_value, is_digit, lemma_digit_run, shift, sp_block, sp_bool,
    sp_call, sp_char, sp_chars, sp_closure, sp_crate, sp_function, sp_functions,
    sp_functions_tail, sp_inner_block, sp_item, sp_items, sp_items_tail, sp_lit, sp_node,
    sp_number, sp_origin, sp_string,
};
use crate::unsafe_ast::{Block, Crate, FnDecl, Indexed, MacroOrigin, UASTNode, Unsafe, FFI};
use vstd::prelude::*;
use vstd::std_specs::iter::IteratorSpec;

verus! {

/// The characters of a text.
pub fn chars_of(text: &str) -> (v: Vec<char>)
    ensures
        v@ == text@,
{
    let mut v: Vec<char> = Vec::new();
    let ghost mut done: nat = 0;
    let mut it = text.chars();
    loop
        invariant
            done <= text@.len(),
            it.remaining() == text@.skip(done as int),
            it.obeys_prophetic_iter_laws(),
            v@ == text@.take(done as int),
        ensures
            done == text@.len(),
        decreases text@.len() - done,
    {
        match it.next() {
            Some(c) => {
                v.push(c);
                proof {
                    assert(c == text@[done as int]);
                    assert(v@ =~= text@.take(done + 1 as int));
                    done = done + 1;
                }
            },
            None => {
                break ;
            },
        }
    }
    assert(v@ =~= text@);
    v
}

/// Matches a literal at `pos`. Gives the position after it.
pub fn expect(s: &Vec<char>, pos: usize, lit: &str) -> (r: Option<usize>)
    requires
        pos <= s.len(),
    ensures
        match r {
            Some(end) => pos < end <= s.len() && sp_lit(s@, pos as int, lit@) == Some(
                (end - pos) as nat,
            ),
            None => sp_lit(s@, pos as int, lit@) is None,
        },
{
    reveal(sp_lit);
    let mut p = pos;
    let ghost mut done: nat = 0;
    let mut it = lit.chars();
    loop
        invariant
            done <= lit@.len(),
            p == pos + done,
            p <= s.len(),
            it.remaining() == lit@.skip(done as int),
            it.obeys_prophetic_iter_laws(),
            s@.subrange(pos as int, p as int) == lit@.take(done as int),
        ensures
            done == lit@.len(),
        decreases lit@.len() - done,
    {
        match it.next() {
            Some(c) => {
                assert(c == lit@[done as int]);
                if p >= s.len() || s[p] != c {
                    proof {
                        reveal(sp_lit);
                        if at(s@, pos as int, lit@) {
                            assert(s@.subrange(pos as int, pos + lit@.len())[done as int]
                                == lit@[done as int]);
                        }
                    }
                    return None;
                }
                proof {
                    assert(s@.subrange(pos as int, p + 1) =~= lit@.take(done + 1 as int));
                    done = done + 1;
                }
                p += 1;
            },
            None => {
                break ;
            },
        }
    }
    assert(lit@.take(done as int) =~= lit@);
    if p == pos {
        None
    } else {
        Some(p)
    }
}

pub fn parse_bool(s: &Vec<char>, pos: usize) -> (r: Option<(bool, usize)>)
    requires
        pos <= s.len(),
    ensures
        match r {
            Some((b, end)) => pos <= end <= s.len() && sp_bool(s@, pos as int) == Some(
                (b, (end - pos) as nat),
            ),
            None => sp_bool(s@, pos as int) is None,
        },
{
    reveal(sp_bool);
    match expect(s, pos, "true") {
        Some(end) => Some((true, end)),
        None => match expect(s, pos, "false") {
            Some(end) => Some((false, end)),
            None => None,
        },
    }
}

pub fn parse_number(s: &Vec<char>, pos: usize) -> (r: Option<(u64, usize)>)
    requires
        pos <= s.len(),
    ensures
        match r {
            Some((n, end)) => pos <= end <= s.len() && sp_number(s@, pos as int) == Some(
                (n, (end - pos) as nat),
            ),
            None => sp_number(s@, pos as int) is None,
        },
{
    reveal(sp_number);
    let mut p = pos;
    let mut value: u64 = 0;
    let mut fits = true;
    while p < s.len() && '0' <= s[p] && s[p] <= '9'
        invariant
            pos <= p <= s.len(),
            forall|j: int| pos <= j < p ==> is_digit(#[trigger] s@[j]),
            fits ==> value == digits_value(s@, pos as int, (p - pos) as nat),
            !fits ==> digits_value(s@, pos as int, (p - pos) as nat) > u64::MAX,
        decreases s.len() - p,
    {
        let d = (s[p] as u32 - '0' as u32) as u64;
        assert(d == digit_value(s@[p as int]));
        assert(digits_value(s@, pos as int, (p + 1 - pos) as nat) == digits_value(
            s@,
            pos as int,
            (p - pos) as nat,
        ) * 10 + d);
        if fits {
            if value > (u64::MAX - d) / 10 {
                fits = false;
            } else {
                value = value * 10 + d;
            }
        }
        p += 1;
    }
    proof {
        lemma_digit_run(s@, pos as int, (p - pos) as nat);
    }
    if p == pos || !fits {
        None
    } else {
        Some((value, p))
    }
}

pub fn hex_of(c: char) -> (r: Option<u32>)
    ensures
        match r {
            Some(v) => v < 16 && hex_value(c) == Some(v as nat),
            None => hex_value(c) is None,
        },
{
    if '0' <= c && c <= '9' {
        Some(c as u32 - '0' as u32)
    } else if 'a' <= c && c <= 'f' {
        Some(c as u32 - 'a' as u32 + 10)
    } else {
        None
    }
}

pub fn parse_char(s: &Vec<char>, pos: usize) -> (r: Option<(char, usize)>)
    requires
        pos <= s.len(),
    ensures
        match r {
            Some((c, end)) => pos < end <= s.len() && sp_char(s@, pos as int) == Some(
                (c, (end - pos) as nat),
            ),
            None => sp_char(s@, pos as int) is None,
        },
{
    if pos >= s.len() {
        return None;
    }
    let c = s[pos];
    if c != '\\' {
        return Some((c, pos + 1));
    }
    if s.len() - pos < 2 {
        return None;
    }
    let e = s[pos + 1];
    if e == '"' {
        Some(('"', pos + 2))
    } else if e == '\\' {
        Some(('\\', pos + 2))
    } else if e == 'b' {
        Some(('\u{8}', pos + 2))
    } else if e == 't' {
        Some(('\t', pos + 2))
    } else if e == 'n' {
        Some(('\n', pos + 2))
    } else if e == 'f' {
        Some(('\u{c}', pos + 2))
    } else if e == 'r' {
        Some(('\r', pos + 2))
    } else if e == 'u' && s.len() - pos > 5 && s[pos + 2] == '0' && s[pos + 3] == '0' {
        match (hex_of(s[pos + 4]), hex_of(s[pos + 5])) {
            (Some(high), Some(low)) => {
                if high < 8 {
                    Some((((high * 16 + low) as u8) as char, pos + 6))
                } else {
                    None
                }
            },
            _ => None,
        }
    } else {
        None
    }
}

pub fn parse_string(s: &Vec<char>, pos: usize) -> (r: Option<(String, usize)>)
    requires
        pos <= s.len(),
    ensures
        match r {
            Some((v, end)) => pos <= end <= s.len() && sp_string(s@, pos as int) == Some(
                (v@, (end - pos) as nat),
            ),
            None => sp_string(s@, pos as int) is None,
        },
{
    reveal(sp_string);
    if pos >= s.len() || s[pos] != '"' {
        return None;
    }
    let mut out = String::new();
    let mut p = pos + 1;
    loop
        invariant
            pos < p <= s.len(),
            s@[pos as int] == '"',
            sp_chars(s@, pos + 1, Seq::empty()) == shift(
                sp_chars(s@, p as int, out@),
                (p - pos - 1) as nat,
            ),
        decreases s.len() - p,
    {
        reveal(sp_string);
        if p >= s.len() {
            return None;
        }
        if s[p] == '"' {
            assert(sp_chars(s@, p as int, out@) == Some((out@, 1nat)));
            assert(sp_chars(s@, pos + 1, Seq::empty()) == Some((out@, (p - pos) as nat)));
            assert(sp_string(s@, pos as int) == Some((out@, (p + 1 - pos) as nat)));
            return Some((out, p + 1));
        }
        match parse_char(s, p) {
            None => {
                return None;
            },
            Some((c, q)) => {
                assert(sp_chars(s@, p as int, out@) == shift(
                    sp_chars(s@, q as int, out@.push(c)),
                    (q - p) as nat,
                ));
                out.push(c);
                p = q;
            },
        }
    }
}

pub fn parse_origin(s: &Vec<char>, pos: usize) -> (r: Option<(MacroOrigin, usize)>)
    requires
        pos <= s.len(),
    ensures
        match r {
            Some((o, end)) => pos <= end <= s.len() && sp_origin(s@, pos as int) == Some(
                (o, (end - pos) as nat),
            ),
            None => sp_origin(s@, pos as int) is None,
        },
{
    reveal(sp_origin);
    if let Some(end) = expect(s, pos, "\"NotMacro\"") {
        Some((MacroOrigin::NotMacro, end))
    } else if let Some(end) = expect(s, pos, "\"LocalMacro\"") {
        Some((MacroOrigin::LocalMacro, end))
    } else if let Some(end) = expect(s, pos, "\"ExternalMacro\"") {
        Some((MacroOrigin::ExternalMacro, end))
    } else if let Some(end) = expect(s, pos, "\"DeriveMacro\"") {
        Some((MacroOrigin::DeriveMacro, end))
    } else {
        None
    }
}

pub fn parse_call(s: &Vec<char>, pos: usize) -> (r: Option<(UASTNode, usize)>)
    requires
        pos <= s.len(),
    ensures
        match r {
            Some((n, end)) => pos <= end <= s.len() && sp_call(s@, pos as int) == Some(
                (n@, (end - pos) as nat),
            ),
            None => sp_call(s@, pos as int) is None,
        },
{
    reveal(sp_call);
    let p = match expect(s, pos, "{\"variant\":\"Call\",\"fields\":[{\"unsaf\":") {
        Some(p) => p,
        None => {
            return None;
        },
    };
    let (unsaf, p) = match parse_bool(s, p) {
        Some(x) => x,
        None => {
            return None;
        },
    };
    let p = match expect(s, p, "},{\"is_ffi\":") {
        Some(p) => p,
        None => {
            return None;
        },
    };
    let (is_ffi, p) = match parse_bool(s, p) {
        Some(x) => x,
        None => {
            return None;
        },
    };
    let p = match expect(s, p, "}]}") {
        Some(p) => p,
        None => {
            return None;
        },
    };
    Some((UASTNode::Call(Unsafe { unsaf }, FFI { is_ffi }), p))
}

pub fn parse_closure(s: &Vec<char>, pos: usize) -> (r: Option<(UASTNode, usize)>)
    requires
        pos <= s.len(),
    ensures
        match r {
            Some((n, end)) => pos <= end <= s.len() && sp_closure(s@, pos as int) == Some(
                (n@, (end - pos) as nat),
            ),
            None => sp_closure(s@, pos as int) is None,
        },
    decreases s.len() - pos, 6nat,
{
    let p = match expect(s, pos, "{\"variant\":\"Closure\",\"fields\":[") {
        Some(p) => p,
        None => {
            return None;
        },
    };
    let (block, p) = match parse_block(s, p) {
        Some(x) => x,
        None => {
            return None;
        },
    };
    let p = match expect(s, p, "]}") {
        Some(p) => p,
        None => {
            return None;
        },
    };
    Some((UASTNode::Closure(Box::new(block)), p))
}

pub fn parse_inner_block(s: &Vec<char>, pos: usize) -> (r: Option<(UASTNode, usize)>)
    requires
        pos <= s.len(),
    ensures
        match r {
            Some((n, end)) => pos <= end <= s.len() && sp_inner_block(s@, pos as int) == Some(
                (n@, (end - pos) as nat),
            ),
            None => sp_inner_block(s@, pos as int) is None,
        },
    decreases s.len() - pos, 6nat,
{
    let p = match expect(s, pos, "{\"variant\":\"InnerBlock\",\"fields\":[") {
        Some(p) => p,
        None => {
            return None;
        },
    };
    let (block, p) = match parse_block(s, p) {
        Some(x) => x,
        None => {
            return None;
        },
    };
    let p = match expect(s, p, "]}") {
        Some(p) => p,
        None => {
            return None;
        },
    };
    Some((UASTNode::InnerBlock(Box::new(block)), p))
}

pub fn parse_node(s: &Vec<char>, pos: usize) -> (r: Option<(UASTNode, usize)>)
    requires
        pos <= s.len(),
    ensures
        match r {
            Some((n, end)) => pos <= end <= s.len() && sp_node(s@, pos as int) == Some(
                (n@, (end - pos) as nat),
            ),
            None => sp_node(s@, pos as int) is None,
        },
    decreases s.len() - pos, 7nat,
{
    if let Some(end) = expect(s, pos, "\"Deref\"") {
        return Some((UASTNode::Deref, end));
    }
    if let Some(end) = expect(s, pos, "\"MutStatic\"") {
        return Some((UASTNode::MutStatic, end));
    }
    if let Some(end) = expect(s, pos, "\"InlineASM\"") {
        return Some((UASTNode::InlineASM, end));
    }
    if let Some(found) = parse_call(s, pos) {
        return Some(found);
    }
    if let Some(found) = parse_closure(s, pos) {
        return Some(found);
    }
    parse_inner_block(s, pos)
}

#[verifier::rlimit(50)]
pub fn parse_item(s: &Vec<char>, pos: usize) -> (r: Option<(Indexed<UASTNode>, usize)>)
    requires
        pos <= s.len(),
    ensures
        match r {
            Some((x, end)) => pos <= end <= s.len() && sp_item(s@, pos as int) == Some(
                (x@, (end - pos) as nat),
            ),
            None => sp_item(s@, pos as int) is None,
        },
    decreases s.len() - pos, 1nat,
{
    let p = match expect(s, pos, "{\"index\":") {
        Some(p) => p,
        None => {
            return None;
        },
    };
    let (index, p) = match parse_number(s, p) {
        Some(x) => x,
        None => {
            return None;
        },
    };
    let p = match expect(s, p, ",\"span\":") {
        Some(p) => p,
        None => {
            return None;
        },
    };
    let (span, p) = match parse_string(s, p) {
        Some(x) => x,
        None => {
            return None;
        },
    };
    let p = match expect(s, p, ",\"snippet\":") {
        Some(p) => p,
        None => {
            return None;
        },
    };
    let (snippet, p) = match parse_string(s, p) {
        Some(x) => x,
        None => {
            return None;
        },
    };
    let p = match expect(s, p, ",\"macro_origin\":") {
        Some(p) => p,
        None => {
            return None;
        },
    };
    let (macro_origin, p) = match parse_origin(s, p) {
        Some(x) => x,
        None => {
            return None;
        },
    };
    let p = match expect(s, p, ",\"item\":") {
        Some(p) => p,
        None => {
            return None;
        },
    };
    let (item, p) = match parse_node(s, p) {
        Some(x) => x,
        None => {
            return None;
        },
    };
    let p = match expect(s, p, "}") {
        Some(p) => p,
        None => {
            return None;
        },
    };
    Some((Indexed { index, span, snippet, macro_origin, item }, p))
}

pub fn parse_items(s: &Vec<char>, pos: usize) -> (r: Option<(Vec<Indexed<UASTNode>>, usize)>)
    requires
        pos <= s.len(),
    ensures
        match r {
            Some((v, end)) => pos <= end <= s.len() && sp_items(s@, pos as int) == Some(
                (items_view(v@), (end - pos) as nat),
            ),
            None => sp_items(s@, pos as int) is None,
        },
    decreases s.len() - pos, 4nat,
{
    let mut items: Vec<Indexed<UASTNode>> = Vec::new();
    if pos < s.len() && s[pos] == ']' {
        assert(items_view(items@) =~= Seq::empty());
        return Some((items, pos));
    }
    let (first, mut p) = match parse_item(s, pos) {
        Some(x) => x,
        None => {
            return None;
        },
    };
    items.push(first);
    assert(items_view(items@) =~= seq![first@]);
    loop
        invariant
            pos <= p <= s.len(),
            sp_items(s@, pos as int) == shift(
                sp_items_tail(s@, p as int, items_view(items@)),
                (p - pos) as nat,
            ),
        decreases s.len() - p,
    {
        if p < s.len() && s[p] == ',' {
            match parse_item(s, p + 1) {
                None => {
                    return None;
                },
                Some((x, q)) => {
                    let ghost before = items_view(items@);
                    items.push(x);
                    assert(items_view(items@) =~= before.push(x@));
                    p = q;
                },
            }
        } else {
            return Some((items, p));
        }
    }
}

#[verifier::rlimit(50)]
pub fn parse_block(s: &Vec<char>, pos: usize) -> (r: Option<(Block, usize)>)
    requires
        pos <= s.len(),
    ensures
        match r {
            Some((b, end)) => pos <= end <= s.len() && sp_block(s@, pos as int) == Some(
                (b@, (end - pos) as nat),
            ),
            None => sp_block(s@, pos as int) is None,
        },
    decreases s.len() - pos, 5nat,
{
    let p = match expect(s, pos, "{\"size\":") {
        Some(p) => p,
        None => {
            return None;
        },
    };
    let (size, p) = match parse_number(s, p) {
        Some(x) => x,
        None => {
            return None;
        },
    };
    let p = match expect(s, p, ",\"unsaf\":") {
        Some(p) => p,
        None => {
            return None;
        },
    };
    let (unsaf, p) = match parse_bool(s, p) {
        Some(x) => x,
        None => {
            return None;
        },
    };
    let p = match expect(s, p, ",\"contents\":[") {
        Some(p) => p,
        None => {
            return None;
        },
    };
    let (contents, p) = match parse_items(s, p) {
        Some(x) => x,
        None => {
            return None;
        },
    };
    let p = match expect(s, p, "]}") {
        Some(p) => p,
        None => {
            return None;
        },
    };
    let block = Block { size, unsaf, contents };
    assert(block@.contents =~= items_view(contents@));
    Some((block, p))
}

#[verifier::rlimit(50)]
pub fn parse_function(s: &Vec<char>, pos: usize) -> (r: Option<(FnDecl, usize)>)
    requires
        pos <= s.len(),
    ensures
        match r {
            Some((f, end)) => pos <= end <= s.len() && sp_function(s@, pos as int) == Some(
                (f@, (end - pos) as nat),
            ),
            None => sp_function(s@, pos as int) is None,
        },
{
    reveal(sp_function);
    let p = match expect(s, pos, "{\"name\":") {
        Some(p) => p,
        None => {
            return None;
        },
    };
    let (name, p) = match parse_string(s, p) {
        Some(x) => x,
        None => {
            return None;
        },
    };
    let p = match expect(s, p, ",\"unsaf\":") {
        Some(p) => p,
        None => {
            return None;
        },
    };
    let (unsaf, p) = match parse_bool(s, p) {
        Some(x) => x,
        None => {
            return None;
        },
    };
    let p = match expect(s, p, ",\"span\":") {
        Some(p) => p,
        None => {
            return None;
        },
    };
    let (span, p) = match parse_string(s, p) {
        Some(x) => x,
        None => {
            return None;
        },
    };
    let p = match expect(s, p, ",\"macro_origin\":") {
        Some(p) => p,
        None => {
            return None;
        },
    };
    let (macro_origin, p) = match parse_origin(s, p) {
        Some(x) => x,
        None => {
            return None;
        },
    };
    let p = match expect(s, p, ",\"block\":") {
        Some(p) => p,
        None => {
            return None;
        },
    };
    let (block, p) = match parse_block(s, p) {
        Some(x) => x,
        None => {
            return None;
        },
    };
    let p = match expect(s, p, "}") {
        Some(p) => p,
        None => {
            return None;
        },
    };
    Some((FnDecl { name, unsaf, span, macro_origin, block: Box::new(block) }, p))
}

pub fn parse_functions(s: &Vec<char>, pos: usize) -> (r: Option<(Vec<FnDecl>, usize)>)
    requires
        pos <= s.len(),
    ensures
        match r {
            Some((v, end)) => pos <= end <= s.len() && sp_functions(s@, pos as int) == Some(
                (functions_view(v@), (end - pos) as nat),
            ),
            None => sp_functions(s@, pos as int) is None,
        },
{
    let mut functions: Vec<FnDecl> = Vec::new();
    if pos < s.len() && s[pos] == ']' {
        assert(functions_view(functions@) =~= Seq::empty());
        return Some((functions, pos));
    }
    let (first, mut p) = match parse_function(s, pos) {
        Some(x) => x,
        None => {
            return None;
        },
    };
    functions.push(first);
    assert(functions_view(functions@) =~= seq![first@]);
    loop
        invariant
            pos <= p <= s.len(),
            sp_functions(s@, pos as int) == shift(
                sp_functions_tail(s@, p as int, functions_view(functions@)),
                (p - pos) as nat,
            ),
        decreases s.len() - p,
    {
        if p < s.len() && s[p] == ',' {
            match parse_function(s, p + 1) {
                None => {
                    return None;
                },
                Some((x, q)) => {
                    let ghost before = functions_view(functions@);
                    functions.push(x);
                    assert(functions_view(functions@) =~= before.push(x@));
                    p = q;
                },
            }
        } else {
            return Some((functions, p));
        }
    }
}

#[verifier::rlimit(50)]
pub fn parse_crate(s: &Vec<char>) -> (r: Option<Crate>)
    ensures
        match r {
            Some(c) => sp_crate(s@) == Some(c@),
            None => sp_crate(s@) is None,
        },
{
    let p = match expect(s, 0, "{\"name\":") {
        Some(p) => p,
        None => {
            return None;
        },
    };
    let (name, p) = match parse_string(s, p) {
        Some(x) => x,
        None => {
            return None;
        },
    };
    let p = match expect(s, p, ",\"ty\":") {
        Some(p) => p,
        None => {
            return None;
        },
    };
    let (ty, p) = match parse_string(s, p) {
        Some(x) => x,
        None => {
            return None;
        },
    };
    let p = match expect(s, p, ",\"functions\":[") {
        Some(p) => p,
        None => {
            return None;
        },
    };
    let (functions, p) = match parse_functions(s, p) {
        Some(x) => x,
        None => {
            return None;
        },
    };
    let p = match expect(s, p, "]}") {
        Some(p) => p,
        None => {
            return None;
        },
    };
    if p != s.len() {
        return None;
    }
    let c = Crate { name, ty, functions };
    assert(c@.functions =~= functions_view(functions@));
    Some(c)
}

} // verus!
