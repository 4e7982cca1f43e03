//! What the crosspoint matrix writes in its cells.
use vstd::prelude::*;
use crate::text::{chars_of, is_digit, push_char};

verus! {

/// The ASCII digits of `s`, in order.
pub open spec fn digits_of(s: Seq<char>) -> Seq<char> {
    s.filter(|c: char| is_digit(c))
}

/// A column header one cell wide: the label's digits when there are one or
/// two of them ("Output 3" is "3"), else its first three characters.
pub open spec fn short_label_spec(label: Seq<char>) -> Seq<char> {
    let d = digits_of(label);
    if 0 < d.len() <= 2 {
        d
    } else if label.len() <= 3 {
        label
    } else {
        label.take(3)
    }
}

/// Column headers are one cell wide, so long labels get shortened rather than
/// overlapping their neighbours. The full label is in the tooltip.
pub fn short_label(label: &str) -> (s: String)
    ensures
        s@ == short_label_spec(label@),
{
    let cs = chars_of(label);
    let ghost keep = |c: char| is_digit(c);
    let mut digits = String::new();
    let mut i: usize = 0;
    while i < cs.len()
        invariant
            i <= cs@.len(),
            cs@ == label@,
            keep == (|c: char| is_digit(c)),
            digits@ == cs@.subrange(0, i as int).filter(keep),
        decreases cs@.len() - i,
    {
        proof {
            let done = cs@.subrange(0, i as int);
            assert(cs@.subrange(0, i as int + 1) =~= done.push(cs@[i as int]));
            done.lemma_filter_push(cs@[i as int], keep);
        }
        let c = cs[i];
        if '0' <= c && c <= '9' {
            push_char(&mut digits, c);
        }
        i += 1;
    }
    assert(cs@.subrange(0, cs@.len() as int) =~= cs@);
    let n = digits.unicode_len();
    if 0 < n && n <= 2 {
        return digits;
    }
    let mut out = String::new();
    let mut j: usize = 0;
    while j < cs.len() && j < 3
        invariant
            j <= cs@.len(),
            j <= 3,
            out@ == cs@.subrange(0, j as int),
        decreases cs@.len() - j,
    {
        push_char(&mut out, cs[j]);
        assert(out@ =~= cs@.subrange(0, j as int + 1));
        j += 1;
    }
    if cs.len() <= 3 {
        assert(out@ =~= label@);
    } else {
        assert(out@ =~= label@.take(3));
    }
    out
}

} // verus!
