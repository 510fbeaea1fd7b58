//! Why reading a written record gives the crate back.
//!
//! Each lemma here follows the reader over the text that the writer
//! produces for one kind of value, and shows that the reader finds that
//! value and takes exactly that text.

use crate::grammar::{
    at, digit_value, digits_value, hex_value, is_digit, lemma_digit_run, sp_block, sp_bool,
    sp_call, sp_char, sp_chars, sp_crate, sp_function, sp_functions, sp_functions_tail, sp_item,
    sp_items, sp_items_tail, sp_lit, sp_node, sp_number, sp_origin, sp_string,
};
use crate::json::{
    block_text, bool_text, crate_text, escape_char, escaped, function_text, functions_text,
    digit_char, item_text, items_text, node_text, number_text, origin_text, string_text,
};
use crate::unsafe_ast::{
    BlockView, CrateView, FnDeclView, IndexedView, MacroOrigin, NodeView, Unsafe, FFI,
};
use vstd::prelude::*;

verus! {

/// Where a text stands, its front part stands, and its back part stands
/// right after.
pub proof fn lemma_at_split(s: Seq<char>, i: int, a: Seq<char>, b: Seq<char>)
    requires
        at(s, i, a + b),
    ensures
        at(s, i, a),
        at(s, i + a.len(), b),
{
    let t = a + b;
    assert(s.subrange(i, i + a.len()) =~= t.subrange(0, a.len() as int));
    assert(t.subrange(0, a.len() as int) =~= a);
    assert(s.subrange(i + a.len(), i + a.len() + b.len()) =~= t.subrange(
        a.len() as int,
        t.len() as int,
    ));
    assert(t.subrange(a.len() as int, t.len() as int) =~= b);
}

/// The character of `s` at offset `k` of a text that stands at `i`.
pub proof fn lemma_at_index(s: Seq<char>, i: int, t: Seq<char>, k: int)
    requires
        at(s, i, t),
        0 <= k < t.len(),
    ensures
        s[i + k] == t[k],
{
    assert(s.subrange(i, i + t.len())[k] == s[i + k]);
}

pub proof fn lemma_lit(s: Seq<char>, i: int, l: Seq<char>)
    requires
        at(s, i, l),
        l.len() > 0,
    ensures
        sp_lit(s, i, l) == Some(l.len()),
{
    reveal(sp_lit);
}

/// A literal does not stand where the text differs from it at offset `k`.
pub proof fn lemma_not_lit(s: Seq<char>, i: int, l: Seq<char>, k: int)
    requires
        0 <= k < l.len(),
        0 <= i,
        i + k >= s.len() || s[i + k] != l[k],
    ensures
        sp_lit(s, i, l) is None,
{
    reveal(sp_lit);
    if at(s, i, l) {
        lemma_at_index(s, i, l, k);
    }
}

pub proof fn lemma_bool(s: Seq<char>, i: int, b: bool)
    requires
        at(s, i, bool_text(b)),
    ensures
        sp_bool(s, i) == Some((b, bool_text(b).len())),
{
    reveal(sp_bool);
    reveal_strlit("true");
    reveal_strlit("false");
    if b {
        lemma_lit(s, i, "true"@);
    } else {
        lemma_lit(s, i, "false"@);
        lemma_at_index(s, i, "false"@, 0);
        lemma_not_lit(s, i, "true"@, 0);
    }
}

proof fn lemma_digit_char(d: int)
    requires
        0 <= d < 16,
    ensures
        hex_value(digit_char(d)) == Some(d as nat),
        d < 10 ==> is_digit(digit_char(d)) && digit_value(digit_char(d)) == d,
{
}

/// The digits of a number: there is at least one, each is a digit, and
/// the first is no zero unless the number is zero.
proof fn lemma_number_text(n: nat)
    ensures
        number_text(n).len() >= 1,
        forall|k: int| 0 <= k < number_text(n).len() ==> is_digit(#[trigger] number_text(n)[k]),
    decreases n,
{
    if n < 10 {
        lemma_digit_char(n as int);
    } else {
        lemma_number_text(n / 10);
        lemma_digit_char((n % 10) as int);
    }
}

proof fn lemma_number_value(s: Seq<char>, i: int, n: nat)
    requires
        at(s, i, number_text(n)),
    ensures
        digits_value(s, i, number_text(n).len()) == n,
    decreases n,
{
    let t = number_text(n);
    lemma_number_text(n);
    if n < 10 {
        lemma_digit_char(n as int);
        lemma_at_index(s, i, t, 0);
        assert(digits_value(s, i, 1) == digits_value(s, i, 0) * 10 + digit_value(s[i]));
    } else {
        let front = number_text(n / 10);
        let last = seq![digit_char((n % 10) as int)];
        assert(t =~= front + last);
        lemma_at_split(s, i, front, last);
        lemma_number_value(s, i, n / 10);
        lemma_digit_char((n % 10) as int);
        lemma_at_index(s, i, t, t.len() - 1);
        assert(digits_value(s, i, t.len()) == digits_value(s, i, (t.len() - 1) as nat) * 10
            + digit_value(s[i + t.len() - 1]));
    }
}

/// A number stands at `i` and no digit follows it.
pub proof fn lemma_number(s: Seq<char>, i: int, n: u64)
    requires
        at(s, i, number_text(n as nat)),
        i + number_text(n as nat).len() == s.len() || !is_digit(
            s[i + number_text(n as nat).len()],
        ),
    ensures
        sp_number(s, i) == Some((n, number_text(n as nat).len())),
{
    reveal(sp_number);
    let t = number_text(n as nat);
    lemma_number_text(n as nat);
    assert forall|j: int| i <= j < i + t.len() implies is_digit(#[trigger] s[j]) by {
        lemma_at_index(s, i, t, j - i);
    }
    lemma_digit_run(s, i, t.len());
    lemma_number_value(s, i, n as nat);
}

/// The written form of a character is read back as that character.
pub proof fn lemma_char(s: Seq<char>, i: int, c: char)
    requires
        at(s, i, escape_char(c)),
    ensures
        sp_char(s, i) == Some((c, escape_char(c).len())),
        s[i] != '"',
{
    let t = escape_char(c);
    lemma_at_index(s, i, t, 0);
    if t.len() >= 2 {
        lemma_at_index(s, i, t, 1);
    }
    if t.len() == 6 {
        lemma_at_index(s, i, t, 2);
        lemma_at_index(s, i, t, 3);
        lemma_at_index(s, i, t, 4);
        lemma_at_index(s, i, t, 5);
        let code = (c as u32) as int;
        lemma_digit_char(code / 16);
        lemma_digit_char(code % 16);
        assert(((code / 16 * 16 + code % 16) as u8) as char == c);
    }
}

proof fn lemma_escaped_grows(x: Seq<char>, k: nat, m: nat)
    requires
        k <= m <= x.len(),
    ensures
        escaped(x, k).len() <= escaped(x, m).len(),
        escaped(x, m).subrange(0, escaped(x, k).len() as int) == escaped(x, k),
    decreases m,
{
    if k < m {
        lemma_escaped_grows(x, k, (m - 1) as nat);
        assert(escaped(x, m) == escaped(x, (m - 1) as nat) + escape_char(x[m - 1]));
        assert(escaped(x, m).subrange(0, escaped(x, k).len() as int) =~= escaped(
            x,
            (m - 1) as nat,
        ).subrange(0, escaped(x, k).len() as int));
    } else {
        assert(escaped(x, m).subrange(0, escaped(x, k).len() as int) =~= escaped(x, k));
    }
}

proof fn lemma_at_front(s: Seq<char>, i: int, t: Seq<char>, n: int)
    requires
        at(s, i, t),
        0 <= n <= t.len(),
    ensures
        at(s, i, t.subrange(0, n)),
{
    assert(t =~= t.subrange(0, n) + t.subrange(n, t.len() as int));
    lemma_at_split(s, i, t.subrange(0, n), t.subrange(n, t.len() as int));
}

proof fn lemma_chars(s: Seq<char>, i: int, x: Seq<char>, k: nat)
    requires
        at(s, i, escaped(x, x.len()) + seq!['"']),
        k <= x.len(),
    ensures
        escaped(x, k).len() <= escaped(x, x.len()).len(),
        sp_chars(s, i + escaped(x, k).len(), x.take(k as int)) == Some(
            (x, (escaped(x, x.len()).len() - escaped(x, k).len() + 1) as nat),
        ),
    decreases x.len() - k,
{
    let whole = escaped(x, x.len());
    lemma_at_split(s, i, whole, seq!['"']);
    lemma_escaped_grows(x, k, x.len());
    if k == x.len() {
        lemma_at_index(s, i + whole.len(), seq!['"'], 0);
        assert(x.take(k as int) =~= x);
    } else {
        let next = escaped(x, k + 1);
        lemma_escaped_grows(x, k + 1, x.len());
        lemma_at_front(s, i, whole, next.len() as int);
        assert(next == escaped(x, k) + escape_char(x[k as int]));
        lemma_at_split(s, i, escaped(x, k), escape_char(x[k as int]));
        lemma_char(s, i + escaped(x, k).len(), x[k as int]);
        lemma_chars(s, i, x, k + 1);
        assert(x.take(k as int).push(x[k as int]) =~= x.take(k + 1 as int));
    }
}

pub proof fn lemma_string(s: Seq<char>, i: int, x: Seq<char>)
    requires
        at(s, i, string_text(x)),
    ensures
        sp_string(s, i) == Some((x, string_text(x).len())),
{
    reveal(sp_string);
    let body = escaped(x, x.len()) + seq!['"'];
    assert(string_text(x) =~= seq!['"'] + body);
    lemma_at_split(s, i, seq!['"'], body);
    lemma_at_index(s, i, seq!['"'], 0);
    lemma_chars(s, i + 1, x, 0);
    assert(x.take(0) =~= Seq::empty());
}

pub proof fn lemma_origin(s: Seq<char>, i: int, o: MacroOrigin)
    requires
        at(s, i, origin_text(o)),
    ensures
        sp_origin(s, i) == Some((o, origin_text(o).len())),
{
    reveal(sp_origin);
    reveal_strlit("\"NotMacro\"");
    reveal_strlit("\"LocalMacro\"");
    reveal_strlit("\"ExternalMacro\"");
    reveal_strlit("\"DeriveMacro\"");
    lemma_lit(s, i, origin_text(o));
    lemma_at_index(s, i, origin_text(o), 1);
    match o {
        MacroOrigin::NotMacro => {},
        MacroOrigin::LocalMacro => {
            lemma_not_lit(s, i, "\"NotMacro\""@, 1);
        },
        MacroOrigin::ExternalMacro => {
            lemma_not_lit(s, i, "\"NotMacro\""@, 1);
            lemma_not_lit(s, i, "\"LocalMacro\""@, 1);
        },
        MacroOrigin::DeriveMacro => {
            lemma_not_lit(s, i, "\"NotMacro\""@, 1);
            lemma_not_lit(s, i, "\"LocalMacro\""@, 1);
            lemma_not_lit(s, i, "\"ExternalMacro\""@, 1);
        },
    }
}

pub proof fn lemma_call(s: Seq<char>, i: int, u: Unsafe, f: FFI)
    requires
        at(s, i, node_text(NodeView::Call(u, f))),
    ensures
        sp_call(s, i) == Some((NodeView::Call(u, f), node_text(NodeView::Call(u, f)).len())),
{
    reveal(sp_call);
    reveal_strlit("{\"variant\":\"Call\",\"fields\":[{\"unsaf\":");
    reveal_strlit("},{\"is_ffi\":");
    reveal_strlit("}]}");
    let l1 = "{\"variant\":\"Call\",\"fields\":[{\"unsaf\":"@;
    let b1 = bool_text(u.unsaf);
    let l2 = "},{\"is_ffi\":"@;
    let b2 = bool_text(f.is_ffi);
    let l3 = "}]}"@;
    let t2 = l1 + b1;
    let t3 = t2 + l2;
    let t4 = t3 + b2;
    assert(node_text(NodeView::Call(u, f)) == t4 + l3);
    lemma_at_split(s, i, t4, l3);
    lemma_at_split(s, i, t3, b2);
    lemma_at_split(s, i, t2, l2);
    lemma_at_split(s, i, l1, b1);
    lemma_lit(s, i, l1);
    lemma_bool(s, i + l1.len(), u.unsaf);
    lemma_lit(s, i + t2.len(), l2);
    lemma_bool(s, i + t3.len(), f.is_ffi);
    lemma_lit(s, i + t4.len(), l3);
}

proof fn lemma_items_grows(items: Seq<IndexedView>, k: nat, m: nat)
    requires
        k <= m <= items.len(),
    ensures
        items_text(items, k).len() <= items_text(items, m).len(),
        items_text(items, m).subrange(0, items_text(items, k).len() as int) == items_text(
            items,
            k,
        ),
    decreases m,
{
    if k < m {
        lemma_items_grows(items, k, (m - 1) as nat);
        if m == 1 {
            assert(items_text(items, 0) =~= Seq::empty());
        } else {
            assert(items_text(items, m) == items_text(items, (m - 1) as nat) + ","@ + item_text(
                items[m - 1],
            ));
        }
        assert(items_text(items, m).subrange(0, items_text(items, k).len() as int)
            =~= items_text(items, k));
    } else {
        assert(items_text(items, m).subrange(0, items_text(items, k).len() as int)
            =~= items_text(items, k));
    }
}

pub proof fn lemma_node(s: Seq<char>, i: int, v: NodeView)
    requires
        at(s, i, node_text(v)),
    ensures
        sp_node(s, i) == Some((v, node_text(v).len())),
    decreases v, 0nat,
{
    reveal_strlit("\"Deref\"");
    reveal_strlit("\"MutStatic\"");
    reveal_strlit("\"InlineASM\"");
    reveal_strlit("{\"variant\":\"Call\",\"fields\":[{\"unsaf\":");
    reveal_strlit("{\"variant\":\"Closure\",\"fields\":[");
    reveal_strlit("{\"variant\":\"InnerBlock\",\"fields\":[");
    reveal_strlit("]}");
    let deref = "\"Deref\""@;
    let mut_static = "\"MutStatic\""@;
    let inline_asm = "\"InlineASM\""@;
    let call = "{\"variant\":\"Call\",\"fields\":[{\"unsaf\":"@;
    let closure = "{\"variant\":\"Closure\",\"fields\":["@;
    let inner = "{\"variant\":\"InnerBlock\",\"fields\":["@;
    let close = "]}"@;
    match v {
        NodeView::Deref => {
            lemma_lit(s, i, deref);
        },
        NodeView::MutStatic => {
            lemma_lit(s, i, mut_static);
            lemma_at_index(s, i, mut_static, 1);
            lemma_not_lit(s, i, deref, 1);
        },
        NodeView::InlineASM => {
            lemma_lit(s, i, inline_asm);
            lemma_at_index(s, i, inline_asm, 1);
            lemma_not_lit(s, i, deref, 1);
            lemma_not_lit(s, i, mut_static, 1);
        },
        NodeView::Call(u, f) => {
            assert(node_text(v) == call + bool_text(u.unsaf) + "},{\"is_ffi\":"@ + bool_text(
                f.is_ffi,
            ) + "}]}"@);
            lemma_at_front(s, i, node_text(v), 1);
            lemma_at_index(s, i, node_text(v).subrange(0, 1), 0);
            assert(node_text(v)[0] == call[0]);
            lemma_not_lit(s, i, deref, 0);
            lemma_not_lit(s, i, mut_static, 0);
            lemma_not_lit(s, i, inline_asm, 0);
            lemma_call(s, i, u, f);
        },
        NodeView::Closure(b) => {
            let t = closure + block_text(b);
            assert(node_text(v) == t + close);
            lemma_at_split(s, i, t, close);
            lemma_at_split(s, i, closure, block_text(b));
            lemma_at_index(s, i, closure, 0);
            lemma_at_index(s, i, closure, 13);
            lemma_not_lit(s, i, deref, 0);
            lemma_not_lit(s, i, mut_static, 0);
            lemma_not_lit(s, i, inline_asm, 0);
            lemma_not_lit(s, i, call, 13);
            assert(sp_call(s, i) is None) by {
                reveal(sp_call);
            }
            lemma_lit(s, i, closure);
            lemma_block(s, i + closure.len(), b);
            lemma_lit(s, i + t.len(), close);
        },
        NodeView::InnerBlock(b) => {
            let t = inner + block_text(b);
            assert(node_text(v) == t + close);
            lemma_at_split(s, i, t, close);
            lemma_at_split(s, i, inner, block_text(b));
            lemma_at_index(s, i, inner, 0);
            lemma_at_index(s, i, inner, 12);
            lemma_not_lit(s, i, deref, 0);
            lemma_not_lit(s, i, mut_static, 0);
            lemma_not_lit(s, i, inline_asm, 0);
            lemma_not_lit(s, i, call, 12);
            lemma_not_lit(s, i, closure, 12);
            assert(sp_call(s, i) is None) by {
                reveal(sp_call);
            }
            lemma_lit(s, i, inner);
            lemma_block(s, i + inner.len(), b);
            lemma_lit(s, i + t.len(), close);
        },
    }
}

pub proof fn lemma_item(s: Seq<char>, i: int, v: IndexedView)
    requires
        at(s, i, item_text(v)),
    ensures
        sp_item(s, i) == Some((v, item_text(v).len())),
        s[i] == '{',
    decreases v, 1nat,
{
    reveal_strlit("{\"index\":");
    reveal_strlit(",\"span\":");
    reveal_strlit(",\"snippet\":");
    reveal_strlit(",\"macro_origin\":");
    reveal_strlit(",\"item\":");
    reveal_strlit("}");
    let l1 = "{\"index\":"@;
    let n = number_text(v.index as nat);
    let l2 = ",\"span\":"@;
    let sp = string_text(v.span);
    let l3 = ",\"snippet\":"@;
    let sn = string_text(v.snippet);
    let l4 = ",\"macro_origin\":"@;
    let o = origin_text(v.macro_origin);
    let l5 = ",\"item\":"@;
    let nd = node_text(v.item);
    let l6 = "}"@;
    let t2 = l1 + n;
    let t3 = t2 + l2;
    let t4 = t3 + sp;
    let t5 = t4 + l3;
    let t6 = t5 + sn;
    let t7 = t6 + l4;
    let t8 = t7 + o;
    let t9 = t8 + l5;
    let t10 = t9 + nd;
    assert(item_text(v) == t10 + l6);
    lemma_at_split(s, i, t10, l6);
    lemma_at_split(s, i, t9, nd);
    lemma_at_split(s, i, t8, l5);
    lemma_at_split(s, i, t7, o);
    lemma_at_split(s, i, t6, l4);
    lemma_at_split(s, i, t5, sn);
    lemma_at_split(s, i, t4, l3);
    lemma_at_split(s, i, t3, sp);
    lemma_at_split(s, i, t2, l2);
    lemma_at_split(s, i, l1, n);
    lemma_at_index(s, i, l1, 0);
    lemma_lit(s, i, l1);
    lemma_at_index(s, i + t2.len(), l2, 0);
    lemma_number(s, i + l1.len(), v.index);
    lemma_lit(s, i + t2.len(), l2);
    lemma_string(s, i + t3.len(), v.span);
    lemma_lit(s, i + t4.len(), l3);
    lemma_string(s, i + t5.len(), v.snippet);
    lemma_lit(s, i + t6.len(), l4);
    lemma_origin(s, i + t7.len(), v.macro_origin);
    lemma_lit(s, i + t8.len(), l5);
    lemma_node(s, i + t9.len(), v.item);
    lemma_lit(s, i + t10.len(), l6);
}

proof fn lemma_items_tail(s: Seq<char>, i: int, items: Seq<IndexedView>, k: nat)
    requires
        1 <= k <= items.len(),
        at(s, i, items_text(items, items.len())),
        i + items_text(items, items.len()).len() < s.len(),
        s[i + items_text(items, items.len()).len()] == ']',
    ensures
        items_text(items, k).len() <= items_text(items, items.len()).len(),
        sp_items_tail(s, i + items_text(items, k).len(), items.take(k as int)) == Some(
            (items, (items_text(items, items.len()).len() - items_text(items, k).len()) as nat),
        ),
    decreases items, items.len() - k,
{
    reveal_strlit(",");
    let whole = items_text(items, items.len());
    lemma_items_grows(items, k, items.len());
    if k == items.len() {
        assert(items.take(k as int) =~= items);
    } else {
        let next = items_text(items, k + 1);
        lemma_items_grows(items, k + 1, items.len());
        lemma_at_front(s, i, whole, next.len() as int);
        let t = items_text(items, k) + ","@;
        assert(next == t + item_text(items[k as int]));
        lemma_at_split(s, i, t, item_text(items[k as int]));
        lemma_at_split(s, i, items_text(items, k), ","@);
        lemma_at_index(s, i + items_text(items, k).len(), ","@, 0);
        lemma_item(s, i + t.len(), items[k as int]);
        lemma_items_tail(s, i, items, k + 1);
        assert(items.take(k as int).push(items[k as int]) =~= items.take(k + 1 as int));
    }
}

proof fn lemma_items(s: Seq<char>, i: int, items: Seq<IndexedView>)
    requires
        at(s, i, items_text(items, items.len())),
        i + items_text(items, items.len()).len() < s.len(),
        s[i + items_text(items, items.len()).len()] == ']',
    ensures
        sp_items(s, i) == Some((items, items_text(items, items.len()).len())),
    decreases items, items.len() + 1,
{
    if items.len() == 0 {
    } else {
        let whole = items_text(items, items.len());
        lemma_items_grows(items, 1, items.len());
        lemma_at_front(s, i, whole, items_text(items, 1).len() as int);
        lemma_item(s, i, items[0]);
        lemma_items_tail(s, i, items, 1);
        assert(items.take(1) =~= seq![items[0]]);
    }
}

pub proof fn lemma_block(s: Seq<char>, i: int, b: BlockView)
    requires
        at(s, i, block_text(b)),
    ensures
        sp_block(s, i) == Some((b, block_text(b).len())),
    decreases b, 0nat,
{
    reveal_strlit("{\"size\":");
    reveal_strlit(",\"unsaf\":");
    reveal_strlit(",\"contents\":[");
    reveal_strlit("]}");
    let l1 = "{\"size\":"@;
    let n = number_text(b.size as nat);
    let l2 = ",\"unsaf\":"@;
    let u = bool_text(b.unsaf);
    let l3 = ",\"contents\":["@;
    let items = items_text(b.contents, b.contents.len());
    let l4 = "]}"@;
    let t2 = l1 + n;
    let t3 = t2 + l2;
    let t4 = t3 + u;
    let t5 = t4 + l3;
    let t6 = t5 + items;
    assert(block_text(b) == t6 + l4);
    lemma_at_split(s, i, t6, l4);
    lemma_at_split(s, i, t5, items);
    lemma_at_split(s, i, t4, l3);
    lemma_at_split(s, i, t3, u);
    lemma_at_split(s, i, t2, l2);
    lemma_at_split(s, i, l1, n);
    lemma_lit(s, i, l1);
    lemma_at_index(s, i + t2.len(), l2, 0);
    lemma_number(s, i + l1.len(), b.size);
    lemma_lit(s, i + t2.len(), l2);
    lemma_bool(s, i + t3.len(), b.unsaf);
    lemma_lit(s, i + t4.len(), l3);
    lemma_at_index(s, i + t6.len(), l4, 0);
    lemma_items(s, i + t5.len(), b.contents);
    lemma_lit(s, i + t6.len(), l4);
}

pub proof fn lemma_function(s: Seq<char>, i: int, f: FnDeclView)
    requires
        at(s, i, function_text(f)),
    ensures
        sp_function(s, i) == Some((f, function_text(f).len())),
        s[i] == '{',
{
    reveal(sp_function);
    reveal_strlit("{\"name\":");
    reveal_strlit(",\"unsaf\":");
    reveal_strlit(",\"span\":");
    reveal_strlit(",\"macro_origin\":");
    reveal_strlit(",\"block\":");
    reveal_strlit("}");
    let l1 = "{\"name\":"@;
    let name = string_text(f.name);
    let l2 = ",\"unsaf\":"@;
    let u = bool_text(f.unsaf);
    let l3 = ",\"span\":"@;
    let sp = string_text(f.span);
    let l4 = ",\"macro_origin\":"@;
    let o = origin_text(f.macro_origin);
    let l5 = ",\"block\":"@;
    let b = block_text(f.block);
    let l6 = "}"@;
    let t2 = l1 + name;
    let t3 = t2 + l2;
    let t4 = t3 + u;
    let t5 = t4 + l3;
    let t6 = t5 + sp;
    let t7 = t6 + l4;
    let t8 = t7 + o;
    let t9 = t8 + l5;
    let t10 = t9 + b;
    assert(function_text(f) == t10 + l6);
    lemma_at_split(s, i, t10, l6);
    lemma_at_split(s, i, t9, b);
    lemma_at_split(s, i, t8, l5);
    lemma_at_split(s, i, t7, o);
    lemma_at_split(s, i, t6, l4);
    lemma_at_split(s, i, t5, sp);
    lemma_at_split(s, i, t4, l3);
    lemma_at_split(s, i, t3, u);
    lemma_at_split(s, i, t2, l2);
    lemma_at_split(s, i, l1, name);
    lemma_at_index(s, i, l1, 0);
    lemma_lit(s, i, l1);
    lemma_string(s, i + l1.len(), f.name);
    lemma_lit(s, i + t2.len(), l2);
    lemma_bool(s, i + t3.len(), f.unsaf);
    lemma_lit(s, i + t4.len(), l3);
    lemma_string(s, i + t5.len(), f.span);
    lemma_lit(s, i + t6.len(), l4);
    lemma_origin(s, i + t7.len(), f.macro_origin);
    lemma_lit(s, i + t8.len(), l5);
    lemma_block(s, i + t9.len(), f.block);
    lemma_lit(s, i + t10.len(), l6);
}

proof fn lemma_functions_grows(functions: Seq<FnDeclView>, k: nat, m: nat)
    requires
        k <= m <= functions.len(),
    ensures
        functions_text(functions, k).len() <= functions_text(functions, m).len(),
        functions_text(functions, m).subrange(0, functions_text(functions, k).len() as int)
            == functions_text(functions, k),
    decreases m,
{
    if k < m {
        lemma_functions_grows(functions, k, (m - 1) as nat);
        if m == 1 {
            assert(functions_text(functions, 0) =~= Seq::empty());
        } else {
            assert(functions_text(functions, m) == functions_text(functions, (m - 1) as nat)
                + ","@ + function_text(functions[m - 1]));
        }
        assert(functions_text(functions, m).subrange(
            0,
            functions_text(functions, k).len() as int,
        ) =~= functions_text(functions, k));
    } else {
        assert(functions_text(functions, m).subrange(
            0,
            functions_text(functions, k).len() as int,
        ) =~= functions_text(functions, k));
    }
}

proof fn lemma_functions_tail(s: Seq<char>, i: int, functions: Seq<FnDeclView>, k: nat)
    requires
        1 <= k <= functions.len(),
        at(s, i, functions_text(functions, functions.len())),
        i + functions_text(functions, functions.len()).len() < s.len(),
        s[i + functions_text(functions, functions.len()).len()] == ']',
    ensures
        functions_text(functions, k).len() <= functions_text(functions, functions.len()).len(),
        sp_functions_tail(s, i + functions_text(functions, k).len(), functions.take(k as int))
            == Some(
            (
                functions,
                (functions_text(functions, functions.len()).len() - functions_text(
                    functions,
                    k,
                ).len()) as nat,
            ),
        ),
    decreases functions.len() - k,
{
    reveal_strlit(",");
    let whole = functions_text(functions, functions.len());
    lemma_functions_grows(functions, k, functions.len());
    if k == functions.len() {
        assert(functions.take(k as int) =~= functions);
    } else {
        let next = functions_text(functions, k + 1);
        lemma_functions_grows(functions, k + 1, functions.len());
        lemma_at_front(s, i, whole, next.len() as int);
        let t = functions_text(functions, k) + ","@;
        assert(next == t + function_text(functions[k as int]));
        lemma_at_split(s, i, t, function_text(functions[k as int]));
        lemma_at_split(s, i, functions_text(functions, k), ","@);
        lemma_at_index(s, i + functions_text(functions, k).len(), ","@, 0);
        lemma_function(s, i + t.len(), functions[k as int]);
        lemma_functions_tail(s, i, functions, k + 1);
        assert(functions.take(k as int).push(functions[k as int]) =~= functions.take(
            k + 1 as int,
        ));
    }
}

proof fn lemma_functions(s: Seq<char>, i: int, functions: Seq<FnDeclView>)
    requires
        at(s, i, functions_text(functions, functions.len())),
        i + functions_text(functions, functions.len()).len() < s.len(),
        s[i + functions_text(functions, functions.len()).len()] == ']',
    ensures
        sp_functions(s, i) == Some(
            (functions, functions_text(functions, functions.len()).len()),
        ),
{
    if functions.len() == 0 {
    } else {
        let whole = functions_text(functions, functions.len());
        lemma_functions_grows(functions, 1, functions.len());
        lemma_at_front(s, i, whole, functions_text(functions, 1).len() as int);
        lemma_function(s, i, functions[0]);
        lemma_functions_tail(s, i, functions, 1);
        assert(functions.take(1) =~= seq![functions[0]]);
    }
}

/// The reader finds in the record of a crate that crate.
pub proof fn lemma_crate(c: CrateView)
    ensures
        sp_crate(crate_text(c)) == Some(c),
{
    reveal_strlit("{\"name\":");
    reveal_strlit(",\"ty\":");
    reveal_strlit(",\"functions\":[");
    reveal_strlit("]}");
    let s = crate_text(c);
    assert(s.subrange(0, s.len() as int) =~= s);
    assert(at(s, 0, s));
    let l1 = "{\"name\":"@;
    let name = string_text(c.name);
    let l2 = ",\"ty\":"@;
    let ty = string_text(c.ty);
    let l3 = ",\"functions\":["@;
    let fs = functions_text(c.functions, c.functions.len());
    let l4 = "]}"@;
    let t2 = l1 + name;
    let t3 = t2 + l2;
    let t4 = t3 + ty;
    let t5 = t4 + l3;
    let t6 = t5 + fs;
    assert(s == t6 + l4);
    lemma_at_split(s, 0, t6, l4);
    lemma_at_split(s, 0, t5, fs);
    lemma_at_split(s, 0, t4, l3);
    lemma_at_split(s, 0, t3, ty);
    lemma_at_split(s, 0, t2, l2);
    lemma_at_split(s, 0, l1, name);
    lemma_lit(s, 0, l1);
    lemma_string(s, l1.len() as int, c.name);
    lemma_lit(s, t2.len() as int, l2);
    lemma_string(s, t3.len() as int, c.ty);
    lemma_lit(s, t4.len() as int, l3);
    lemma_at_index(s, t6.len() as int, l4, 0);
    lemma_functions(s, t5.len() as int, c.functions);
    lemma_lit(s, t6.len() as int, l4);
}

} // verus!
