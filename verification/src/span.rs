//! Matching a known pattern at a position of a character stream: the shared
//! ground the persistence format's writer and reader are proved against.

use vstd::prelude::*;
use crate::model::chars_of_str;

verus! {

/// The characters of `p` stand in `s` starting at position `i`.
pub open spec fn at_pos(s: Seq<char>, i: int, p: Seq<char>) -> bool {
    &&& 0 <= i
    &&& i + p.len() <= s.len()
    &&& forall|k: int| 0 <= k < p.len() ==> s[i + k] == p[k]
}

/// One character of a pattern standing at `i`, read off at its offset.
pub proof fn lemma_at_pos_index(s: Seq<char>, i: int, p: Seq<char>, k: int)
    requires
        at_pos(s, i, p),
        0 <= k < p.len(),
    ensures
        s[i + k] == p[k],
{
}

/// A pattern made of two halves stands at `i` exactly when the first half
/// stands at `i` and the second right after it.
pub proof fn lemma_at_pos_split(s: Seq<char>, i: int, a: Seq<char>, b: Seq<char>)
    requires
        at_pos(s, i, a + b),
    ensures
        at_pos(s, i, a),
        at_pos(s, i + a.len(), b),
{
    assert forall|k: int| 0 <= k < a.len() implies s[i + k] == a[k] by {
        assert(s[i + k] == (a + b)[k]);
    }
    assert forall|k: int| 0 <= k < b.len() implies s[i + a.len() + k] == b[k] by {
        assert(s[i + (a.len() + k)] == (a + b)[a.len() + k]);
    }
}

/// Consumes the exact literal `lit` at position `i`, or nothing.
pub open spec fn p_lit(s: Seq<char>, i: int, lit: Seq<char>) -> Option<int> {
    if 0 <= i && i + lit.len() <= s.len() && s.subrange(i, i + lit.len()) == lit {
        Some(i + lit.len())
    } else {
        None
    }
}

/// A literal that stands at `i` is consumed whole.
pub proof fn lemma_lit_rt(s: Seq<char>, i: int, lit: Seq<char>)
    requires
        at_pos(s, i, lit),
    ensures
        p_lit(s, i, lit) == Some(i + lit.len() as int),
{
    assert(s.subrange(i, i + lit.len()) =~= lit);
}

/// Runs [`p_lit`] on a vector, taking the literal as a string slice.
pub fn parse_lit(v: &Vec<char>, i: usize, lit: &str) -> (r: Option<usize>)
    ensures
        match r {
            Some(j) => p_lit(v@, i as int, lit@) == Some(j as int),
            None => p_lit(v@, i as int, lit@) is None,
        },
{
    let lc = chars_of_str(lit);
    let n = lc.len();
    if i > v.len() || n > v.len() - i {
        return None;
    }
    let vn = v.len();
    let mut k: usize = 0;
    while k < n
        invariant
            k <= n,
            n == lc@.len(),
            lc@ == lit@,
            vn == v@.len(),
            i + n <= vn,
            forall|t: int| 0 <= t < k ==> v@[i + t] == lit@[t],
        decreases n - k,
    {
        if v[i + k] != lc[k] {
            proof {
                assert(v@.subrange(i as int, i + lit@.len()) != lit@) by {
                    assert(v@.subrange(i as int, i + lit@.len())[k as int] != lit@[k as int]);
                }
            }
            return None;
        }
        k += 1;
    }
    proof {
        assert(v@.subrange(i as int, i + lit@.len()) =~= lit@);
    }
    Some(i + n)
}

} // verus!
