//! The grammar of a record, as functions from a text and a position to
//! the value that stands there and the number of characters it takes.
//!
//! The grammar takes in more than the writer writes: a number may begin
//! with zeros, and a character that the writer escapes may stand raw. The
//! reader leaves such texts out by writing again what it read.

use crate::unsafe_ast::{
    BlockView, CrateView, FnDeclView, IndexedView, MacroOrigin, NodeView, Unsafe, FFI,
};
use vstd::prelude::*;

verus! {

/// `t` stands in `s` at position `i`.
pub open spec fn at(s: Seq<char>, i: int, t: Seq<char>) -> bool {
    0 <= i && i + t.len() <= s.len() && s.subrange(i, i + t.len()) == t
}

/// The number of characters taken by the literal `l`, where it stands at
/// position `i`.
#[verifier::opaque]
pub open spec fn sp_lit(s: Seq<char>, i: int, l: Seq<char>) -> Option<nat> {
    if l.len() > 0 && at(s, i, l) {
        Some(l.len())
    } else {
        None
    }
}

#[verifier::opaque]
pub open spec fn sp_bool(s: Seq<char>, i: int) -> Option<(bool, nat)> {
    if sp_lit(s, i, "true"@) is Some {
        Some((true, sp_lit(s, i, "true"@)->0))
    } else if sp_lit(s, i, "false"@) is Some {
        Some((false, sp_lit(s, i, "false"@)->0))
    } else {
        None
    }
}

pub open spec fn is_digit(c: char) -> bool {
    '0' <= c && c <= '9'
}

pub open spec fn digit_value(c: char) -> nat {
    (c as u32 - '0' as u32) as nat
}

/// The number of digits that stand in a row from position `i`.
pub open spec fn digit_run(s: Seq<char>, i: int) -> nat
    decreases s.len() - i,
{
    if 0 <= i < s.len() && is_digit(s[i]) {
        1 + digit_run(s, i + 1)
    } else {
        0
    }
}

/// The value in decimal of the `n` digits from position `i`.
pub open spec fn digits_value(s: Seq<char>, i: int, n: nat) -> nat
    decreases n,
{
    if n == 0 {
        0
    } else {
        digits_value(s, i, (n - 1) as nat) * 10 + digit_value(s[i + n - 1])
    }
}

#[verifier::opaque]
pub open spec fn sp_number(s: Seq<char>, i: int) -> Option<(u64, nat)> {
    let n = digit_run(s, i);
    if n == 0 || digits_value(s, i, n) > u64::MAX {
        None
    } else {
        Some((digits_value(s, i, n) as u64, n))
    }
}

pub open spec fn hex_value(c: char) -> Option<nat> {
    if is_digit(c) {
        Some(digit_value(c))
    } else if 'a' <= c && c <= 'f' {
        Some((c as u32 - 'a' as u32 + 10) as nat)
    } else {
        None
    }
}

/// The character written at position `i` inside a string, and the number
/// of characters it takes there.
pub open spec fn sp_char(s: Seq<char>, i: int) -> Option<(char, nat)> {
    if !(0 <= i < s.len()) {
        None
    } else if s[i] != '\\' {
        Some((s[i], 1))
    } else if i + 1 >= s.len() {
        None
    } else if s[i + 1] == '"' {
        Some(('"', 2))
    } else if s[i + 1] == '\\' {
        Some(('\\', 2))
    } else if s[i + 1] == 'b' {
        Some(('\u{8}', 2))
    } else if s[i + 1] == 't' {
        Some(('\t', 2))
    } else if s[i + 1] == 'n' {
        Some(('\n', 2))
    } else if s[i + 1] == 'f' {
        Some(('\u{c}', 2))
    } else if s[i + 1] == 'r' {
        Some(('\r', 2))
    } else if s[i + 1] == 'u' && i + 5 < s.len() && s[i + 2] == '0' && s[i + 3] == '0'
        && hex_value(s[i + 4]) is Some && hex_value(s[i + 5]) is Some && hex_value(s[i + 4])->0
        < 8 {
        Some((((hex_value(s[i + 4])->0 * 16 + hex_value(s[i + 5])->0) as u8) as char, 6))
    } else {
        None
    }
}

/// The characters of a string from position `i` up to the closing quote,
/// after those in `acc`, and the number of characters taken, the quote
/// included.
pub open spec fn sp_chars(s: Seq<char>, i: int, acc: Seq<char>) -> Option<(Seq<char>, nat)>
    decreases s.len() - i,
{
    if !(0 <= i < s.len()) {
        None
    } else if s[i] == '"' {
        Some((acc, 1))
    } else {
        match sp_char(s, i) {
            None => None,
            Some((c, k)) => match sp_chars(s, i + k, acc.push(c)) {
                None => None,
                Some((v, n)) => Some((v, n + k)),
            },
        }
    }
}

#[verifier::opaque]
pub open spec fn sp_string(s: Seq<char>, i: int) -> Option<(Seq<char>, nat)> {
    if 0 <= i < s.len() && s[i] == '"' {
        match sp_chars(s, i + 1, Seq::empty()) {
            None => None,
            Some((v, n)) => Some((v, n + 1)),
        }
    } else {
        None
    }
}

/// A row of `k` digits that no digit follows is the whole row.
pub proof fn lemma_digit_run(s: Seq<char>, i: int, k: nat)
    requires
        0 <= i,
        i + k <= s.len(),
        forall|j: int| i <= j < i + k ==> is_digit(#[trigger] s[j]),
        i + k == s.len() || !is_digit(s[i + k]),
    ensures
        digit_run(s, i) == k,
    decreases k,
{
    if k > 0 {
        lemma_digit_run(s, i + 1, (k - 1) as nat);
    }
}

/// The number of characters that a parse took; none where it failed.
pub open spec fn taken<V>(r: Option<(V, nat)>) -> nat {
    match r {
        Some((_, n)) => n,
        None => 0,
    }
}

/// The value that a parse gave.
pub open spec fn parsed<V>(r: Option<(V, nat)>) -> V
    recommends
        r is Some,
{
    match r {
        Some((v, _)) => v,
        None => arbitrary(),
    }
}

/// The length of a matched literal; 0 where it did not match.
pub open spec fn lit_len(r: Option<nat>) -> nat {
    match r {
        Some(n) => n,
        None => 0,
    }
}

/// A parse that took `d` characters more.
pub open spec fn shift<V>(r: Option<(V, nat)>, d: nat) -> Option<(V, nat)> {
    match r {
        Some((v, n)) => Some((v, n + d)),
        None => None,
    }
}

#[verifier::opaque]
pub open spec fn sp_origin(s: Seq<char>, i: int) -> Option<(MacroOrigin, nat)> {
    if sp_lit(s, i, "\"NotMacro\""@) is Some {
        Some((MacroOrigin::NotMacro, sp_lit(s, i, "\"NotMacro\""@)->0))
    } else if sp_lit(s, i, "\"LocalMacro\""@) is Some {
        Some((MacroOrigin::LocalMacro, sp_lit(s, i, "\"LocalMacro\""@)->0))
    } else if sp_lit(s, i, "\"ExternalMacro\""@) is Some {
        Some((MacroOrigin::ExternalMacro, sp_lit(s, i, "\"ExternalMacro\""@)->0))
    } else if sp_lit(s, i, "\"DeriveMacro\""@) is Some {
        Some((MacroOrigin::DeriveMacro, sp_lit(s, i, "\"DeriveMacro\""@)->0))
    } else {
        None
    }
}

#[verifier::opaque]
pub open spec fn sp_call(s: Seq<char>, i: int) -> Option<(NodeView, nat)> {
    let a = sp_lit(s, i, "{\"variant\":\"Call\",\"fields\":[{\"unsaf\":"@);
    let u = sp_bool(s, i + lit_len(a));
    let b = sp_lit(s, i + lit_len(a) + taken(u), "},{\"is_ffi\":"@);
    let f = sp_bool(s, i + lit_len(a) + taken(u) + lit_len(b));
    let c = sp_lit(s, i + lit_len(a) + taken(u) + lit_len(b) + taken(f), "}]}"@);
    if a is Some && u is Some && b is Some && f is Some && c is Some {
        Some(
            (
                NodeView::Call(Unsafe { unsaf: parsed(u) }, FFI { is_ffi: parsed(f) }),
                lit_len(a) + taken(u) + lit_len(b) + taken(f) + lit_len(c),
            ),
        )
    } else {
        None
    }
}

pub open spec fn sp_closure(s: Seq<char>, i: int) -> Option<(NodeView, nat)>
    decreases s.len() - i, 6nat,
{
    let a = sp_lit(s, i, "{\"variant\":\"Closure\",\"fields\":["@);
    let b = if a is Some && i < i + lit_len(a) <= s.len() {
        sp_block(s, i + lit_len(a))
    } else {
        None
    };
    let c = sp_lit(s, i + lit_len(a) + taken(b), "]}"@);
    if a is Some && b is Some && c is Some {
        Some((NodeView::Closure(parsed(b)), lit_len(a) + taken(b) + lit_len(c)))
    } else {
        None
    }
}

pub open spec fn sp_inner_block(s: Seq<char>, i: int) -> Option<(NodeView, nat)>
    decreases s.len() - i, 6nat,
{
    let a = sp_lit(s, i, "{\"variant\":\"InnerBlock\",\"fields\":["@);
    let b = if a is Some && i < i + lit_len(a) <= s.len() {
        sp_block(s, i + lit_len(a))
    } else {
        None
    };
    let c = sp_lit(s, i + lit_len(a) + taken(b), "]}"@);
    if a is Some && b is Some && c is Some {
        Some((NodeView::InnerBlock(parsed(b)), lit_len(a) + taken(b) + lit_len(c)))
    } else {
        None
    }
}

pub open spec fn sp_node(s: Seq<char>, i: int) -> Option<(NodeView, nat)>
    decreases s.len() - i, 7nat,
{
    if sp_lit(s, i, "\"Deref\""@) is Some {
        Some((NodeView::Deref, lit_len(sp_lit(s, i, "\"Deref\""@))))
    } else if sp_lit(s, i, "\"MutStatic\""@) is Some {
        Some((NodeView::MutStatic, lit_len(sp_lit(s, i, "\"MutStatic\""@))))
    } else if sp_lit(s, i, "\"InlineASM\""@) is Some {
        Some((NodeView::InlineASM, lit_len(sp_lit(s, i, "\"InlineASM\""@))))
    } else if sp_call(s, i) is Some {
        sp_call(s, i)
    } else if sp_closure(s, i) is Some {
        sp_closure(s, i)
    } else {
        sp_inner_block(s, i)
    }
}

pub open spec fn sp_item(s: Seq<char>, i: int) -> Option<(IndexedView, nat)>
    decreases s.len() - i, 1nat,
{
    let a = sp_lit(s, i, "{\"index\":"@);
    let n = sp_number(s, i + lit_len(a));
    let pos1 = i + lit_len(a) + taken(n);
    let b = sp_lit(s, pos1, ",\"span\":"@);
    let sp = sp_string(s, pos1 + lit_len(b));
    let pos2 = pos1 + lit_len(b) + taken(sp);
    let c = sp_lit(s, pos2, ",\"snippet\":"@);
    let sn = sp_string(s, pos2 + lit_len(c));
    let pos3 = pos2 + lit_len(c) + taken(sn);
    let d = sp_lit(s, pos3, ",\"macro_origin\":"@);
    let o = sp_origin(s, pos3 + lit_len(d));
    let pos4 = pos3 + lit_len(d) + taken(o);
    let e = sp_lit(s, pos4, ",\"item\":"@);
    let pos5 = pos4 + lit_len(e);
    if a is Some && n is Some && b is Some && sp is Some && c is Some && sn is Some && d is Some
        && o is Some && e is Some && i < pos5 <= s.len() {
        let node = sp_node(s, pos5);
        let f = sp_lit(s, pos5 + taken(node), "}"@);
        if node is Some && f is Some {
            Some(
                (
                    IndexedView {
                        index: parsed(n),
                        span: parsed(sp),
                        snippet: parsed(sn),
                        macro_origin: parsed(o),
                        item: parsed(node),
                    },
                    (pos5 - i + taken(node) + lit_len(f)) as nat,
                ),
            )
        } else {
            None
        }
    } else {
        None
    }
}

/// The entries that follow those in `acc`, each after a comma.
pub open spec fn sp_items_tail(s: Seq<char>, i: int, acc: Seq<IndexedView>) -> Option<
    (Seq<IndexedView>, nat),
>
    decreases s.len() - i, 3nat,
{
    if 0 <= i < s.len() && s[i] == ',' {
        let x = sp_item(s, i + 1);
        if x is Some && i + 1 + taken(x) <= s.len() {
            shift(sp_items_tail(s, i + 1 + taken(x), acc.push(parsed(x))), 1 + taken(x))
        } else {
            None
        }
    } else {
        Some((acc, 0))
    }
}

/// The entries between the brackets of a list.
pub open spec fn sp_items(s: Seq<char>, i: int) -> Option<(Seq<IndexedView>, nat)>
    decreases s.len() - i, 4nat,
{
    if 0 <= i < s.len() && s[i] == ']' {
        Some((Seq::empty(), 0))
    } else {
        let x = sp_item(s, i);
        if x is Some && i + taken(x) <= s.len() {
            shift(sp_items_tail(s, i + taken(x), seq![parsed(x)]), taken(x))
        } else {
            None
        }
    }
}

pub open spec fn sp_block(s: Seq<char>, i: int) -> Option<(BlockView, nat)>
    decreases s.len() - i, 5nat,
{
    let a = sp_lit(s, i, "{\"size\":"@);
    let n = sp_number(s, i + lit_len(a));
    let pos1 = i + lit_len(a) + taken(n);
    let b = sp_lit(s, pos1, ",\"unsaf\":"@);
    let u = sp_bool(s, pos1 + lit_len(b));
    let pos2 = pos1 + lit_len(b) + taken(u);
    let c = sp_lit(s, pos2, ",\"contents\":["@);
    let pos3 = pos2 + lit_len(c);
    if a is Some && n is Some && b is Some && u is Some && c is Some && i < pos3 <= s.len() {
        let items = sp_items(s, pos3);
        let d = sp_lit(s, pos3 + taken(items), "]}"@);
        if items is Some && d is Some {
            Some(
                (
                    BlockView { size: parsed(n), unsaf: parsed(u), contents: parsed(items) },
                    (pos3 - i + taken(items) + lit_len(d)) as nat,
                ),
            )
        } else {
            None
        }
    } else {
        None
    }
}

#[verifier::opaque]
pub open spec fn sp_function(s: Seq<char>, i: int) -> Option<(FnDeclView, nat)> {
    let a = sp_lit(s, i, "{\"name\":"@);
    let name = sp_string(s, i + lit_len(a));
    let pos1 = i + lit_len(a) + taken(name);
    let b = sp_lit(s, pos1, ",\"unsaf\":"@);
    let u = sp_bool(s, pos1 + lit_len(b));
    let pos2 = pos1 + lit_len(b) + taken(u);
    let c = sp_lit(s, pos2, ",\"span\":"@);
    let sp = sp_string(s, pos2 + lit_len(c));
    let pos3 = pos2 + lit_len(c) + taken(sp);
    let d = sp_lit(s, pos3, ",\"macro_origin\":"@);
    let o = sp_origin(s, pos3 + lit_len(d));
    let pos4 = pos3 + lit_len(d) + taken(o);
    let e = sp_lit(s, pos4, ",\"block\":"@);
    let block = sp_block(s, pos4 + lit_len(e));
    let pos5 = pos4 + lit_len(e) + taken(block);
    let f = sp_lit(s, pos5, "}"@);
    if a is Some && name is Some && b is Some && u is Some && c is Some && sp is Some && d is Some
        && o is Some && e is Some && block is Some && f is Some {
        Some(
            (
                FnDeclView {
                    name: parsed(name),
                    unsaf: parsed(u),
                    span: parsed(sp),
                    macro_origin: parsed(o),
                    block: parsed(block),
                },
                (pos5 - i + lit_len(f)) as nat,
            ),
        )
    } else {
        None
    }
}

/// The functions that follow those in `acc`, each after a comma.
pub open spec fn sp_functions_tail(s: Seq<char>, i: int, acc: Seq<FnDeclView>) -> Option<
    (Seq<FnDeclView>, nat),
>
    decreases s.len() - i,
{
    if 0 <= i < s.len() && s[i] == ',' {
        let x = sp_function(s, i + 1);
        if x is Some && i + 1 + taken(x) <= s.len() {
            shift(sp_functions_tail(s, i + 1 + taken(x), acc.push(parsed(x))), 1 + taken(x))
        } else {
            None
        }
    } else {
        Some((acc, 0))
    }
}

/// The functions between the brackets of a list.
pub open spec fn sp_functions(s: Seq<char>, i: int) -> Option<(Seq<FnDeclView>, nat)> {
    if 0 <= i < s.len() && s[i] == ']' {
        Some((Seq::empty(), 0))
    } else {
        let x = sp_function(s, i);
        if x is Some && i + taken(x) <= s.len() {
            shift(sp_functions_tail(s, i + taken(x), seq![parsed(x)]), taken(x))
        } else {
            None
        }
    }
}

/// The crate that a whole text is parsed as.
pub open spec fn sp_crate(s: Seq<char>) -> Option<CrateView> {
    let a = sp_lit(s, 0, "{\"name\":"@);
    let name = sp_string(s, lit_len(a) as int);
    let pos1 = 0int + lit_len(a) + taken(name);
    let b = sp_lit(s, pos1, ",\"ty\":"@);
    let ty = sp_string(s, pos1 + lit_len(b));
    let pos2 = pos1 + lit_len(b) + taken(ty);
    let c = sp_lit(s, pos2, ",\"functions\":["@);
    let functions = sp_functions(s, pos2 + lit_len(c));
    let pos3 = pos2 + lit_len(c) + taken(functions);
    let d = sp_lit(s, pos3, "]}"@);
    if a is Some && name is Some && b is Some && ty is Some && c is Some && functions is Some
        && d is Some && pos3 + lit_len(d) == s.len() {
        Some(CrateView { name: parsed(name), ty: parsed(ty), functions: parsed(functions) })
    } else {
        None
    }
}

} // verus!
