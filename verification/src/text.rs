//! Comparisons of strings by their characters.

use vstd::prelude::*;
use vstd::std_specs::iter::IteratorSpec;
use vstd::string::*;

verus! {

/// Whether two strings hold the same characters.
pub fn str_equal(a: &str, b: &str) -> (r: bool)
    ensures
        r == (a@ == b@),
{
    let ghost mut done: nat = 0;
    let mut left = a.chars();
    let mut right = b.chars();
    loop
        invariant
            done <= a@.len(),
            done <= b@.len(),
            left.remaining() == a@.skip(done as int),
            right.remaining() == b@.skip(done as int),
            left.obeys_prophetic_iter_laws(),
            right.obeys_prophetic_iter_laws(),
            a@.take(done as int) == b@.take(done as int),
        decreases a@.len() - done,
    {
        match (left.next(), right.next()) {
            (Some(c), Some(d)) => {
                assert(c == a@[done as int] && d == b@[done as int]);
                if c != d {
                    return false;
                }
                proof {
                    assert(a@.take(done + 1 as int) =~= a@.take(done as int).push(c));
                    assert(b@.take(done + 1 as int) =~= b@.take(done as int).push(d));
                    done = done + 1;
                }
            },
            (None, None) => {
                assert(a@ =~= a@.take(done as int));
                assert(b@ =~= b@.take(done as int));
                return true;
            },
            _ => {
                return false;
            },
        }
    }
}

/// Whether `text` begins with `prefix`.
pub fn starts_with(text: &str, prefix: &str) -> (r: bool)
    ensures
        r == prefix@.is_prefix_of(text@),
{
    let n = prefix.unicode_len();
    if text.unicode_len() < n {
        return false;
    }
    assert(prefix@.is_prefix_of(text@) <==> text@.subrange(0, n as int) =~= prefix@);
    str_equal(text.substring_char(0, n), prefix)
}

} // verus!
