//! Reading a record back.
//!
//! A text is the record of at most one crate. The reader parses the text,
//! writes the result again, and accepts it only where the two texts are the
//! same: what it accepts is exactly what the writer writes.

use crate::json::{crate_text, encode};
use crate::parser::{chars_of, parse_crate};
use crate::roundtrip::lemma_crate;
use crate::text::str_equal;
use crate::unsafe_ast::{Crate, CrateView};
use vstd::prelude::*;

verus! {

/// The crate that a text is the record of, if it is the record of one.
pub open spec fn decoded(text: Seq<char>) -> Option<CrateView> {
    if exists|c: CrateView| crate_text(c) == text {
        Some(choose|c: CrateView| crate_text(c) == text)
    } else {
        None
    }
}

/// A text is the record of one crate at most.
pub proof fn lemma_record_determines_crate(a: CrateView, b: CrateView)
    requires
        crate_text(a) == crate_text(b),
    ensures
        a == b,
{
    lemma_crate(a);
    lemma_crate(b);
}

/// Reading the record of a crate gives that crate, and writing what was
/// read gives the same record again.
pub proof fn lemma_round_trip(c: CrateView)
    ensures
        decoded(crate_text(c)) == Some(c),
        crate_text(decoded(crate_text(c))->0) == crate_text(c),
{
    let found = choose|v: CrateView| crate_text(v) == crate_text(c);
    lemma_record_determines_crate(found, c);
}

/// Reads a record. The result is the crate whose record the text is; a
/// text that no crate is written as, be it by one character, is refused.
pub fn decode(text: &str) -> (r: Option<Crate>)
    ensures
        match r {
            Some(c) => decoded(text@) == Some(c@) && crate_text(c@) == text@,
            None => decoded(text@) is None && forall|v: CrateView| crate_text(v) != text@,
        },
{
    let s = chars_of(text);
    match parse_crate(&s) {
        None => {
            assert forall|v: CrateView| crate_text(v) != text@ by {
                lemma_crate(v);
            }
            None
        },
        Some(c) => {
            let again = encode(&c);
            if str_equal(again.as_str(), text) {
                proof {
                    let found = choose|v: CrateView| crate_text(v) == text@;
                    lemma_record_determines_crate(found, c@);
                }
                Some(c)
            } else {
                assert forall|v: CrateView| crate_text(v) != text@ by {
                    lemma_crate(v);
                }
                None
            }
        },
    }
}

} // verus!
