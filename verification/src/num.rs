//! Decimal representation of ordinal ids: formatting and parsing, with the
//! round-trip facts the persistence format relies on.

use vstd::prelude::*;
use crate::span::at_pos;

verus! {

/// The character for one decimal digit.
pub open spec fn digit_char(d: nat) -> char {
    if d == 0 {
        '0'
    } else if d == 1 {
        '1'
    } else if d == 2 {
        '2'
    } else if d == 3 {
        '3'
    } else if d == 4 {
        '4'
    } else if d == 5 {
        '5'
    } else if d == 6 {
        '6'
    } else if d == 7 {
        '7'
    } else if d == 8 {
        '8'
    } else {
        '9'
    }
}

/// Numeric value of a decimal digit character, or 10 for any other character.
pub open spec fn digit_val(c: char) -> nat {
    if c == '0' {
        0
    } else if c == '1' {
        1
    } else if c == '2' {
        2
    } else if c == '3' {
        3
    } else if c == '4' {
        4
    } else if c == '5' {
        5
    } else if c == '6' {
        6
    } else if c == '7' {
        7
    } else if c == '8' {
        8
    } else if c == '9' {
        9
    } else {
        10
    }
}

/// Whether a character is a decimal digit.
pub open spec fn is_digit(c: char) -> bool {
    digit_val(c) < 10
}

/// Decimal representation of a natural number, most significant digit first,
/// with no leading zeros (a single `'0'` for zero).
pub open spec fn dec_rep(n: nat) -> Seq<char>
    decreases n,
{
    if n < 10 {
        seq![digit_char(n)]
    } else {
        dec_rep(n / 10).push(digit_char(n % 10))
    }
}

/// Every character of a decimal representation is a digit, and the digit's
/// value reads back; in particular the representation is never empty.
pub proof fn lemma_dec_rep_digits(n: nat)
    ensures
        dec_rep(n).len() >= 1,
        forall|k: int| 0 <= k < dec_rep(n).len() ==> is_digit(#[trigger] dec_rep(n)[k]),
    decreases n,
{
    if n >= 10 {
        lemma_dec_rep_digits(n / 10);
    }
}

fn digit_of(d: usize) -> (c: char)
    requires
        d < 10,
    ensures
        c == digit_char(d as nat),
{
    if d == 0 {
        '0'
    } else if d == 1 {
        '1'
    } else if d == 2 {
        '2'
    } else if d == 3 {
        '3'
    } else if d == 4 {
        '4'
    } else if d == 5 {
        '5'
    } else if d == 6 {
        '6'
    } else if d == 7 {
        '7'
    } else if d == 8 {
        '8'
    } else {
        '9'
    }
}

/// Appends the decimal representation of `n` to `out`.
pub fn push_dec(out: &mut Vec<char>, n: usize)
    ensures
        final(out)@ == old(out)@ + dec_rep(n as nat),
    decreases n,
{
    if n < 10 {
        out.push(digit_of(n));
        proof {
            assert(out@ =~= old(out)@ + dec_rep(n as nat));
        }
    } else {
        push_dec(out, n / 10);
        out.push(digit_of(n % 10));
        proof {
            assert(out@ =~= old(out)@ + dec_rep(n as nat));
        }
    }
}

/// Powers of ten.
pub open spec fn pow10(k: nat) -> nat
    decreases k,
{
    if k == 0 {
        1
    } else {
        10 * pow10((k - 1) as nat)
    }
}

pub proof fn lemma_pow10_pos(k: nat)
    ensures
        pow10(k) >= 1,
    decreases k,
{
    if k > 0 {
        lemma_pow10_pos((k - 1) as nat);
    }
}

/// Value of a digit sequence read as a decimal numeral; empty is worth zero.
pub open spec fn digits_val(d: Seq<char>) -> nat
    decreases d.len(),
{
    if d.len() == 0 {
        0
    } else {
        digits_val(d.drop_last()) * 10 + digit_val(d.last())
    }
}

/// Reading two digit runs in sequence: the first is scaled past the second.
pub proof fn lemma_digits_val_append(a: Seq<char>, b: Seq<char>)
    ensures
        digits_val(a + b) == digits_val(a) * pow10(b.len()) + digits_val(b),
    decreases b.len(),
{
    if b.len() == 0 {
        assert(a + b =~= a);
        assert(digits_val(b) == 0);
        assert(pow10(b.len()) == 1);
        assert(digits_val(a + b) == digits_val(a) * pow10(b.len()) + digits_val(b));
    } else {
        lemma_digits_val_append(a, b.drop_last());
        assert((a + b).drop_last() =~= a + b.drop_last());
        assert((a + b).last() == b.last());
        let p: nat = pow10((b.len() - 1) as nat);
        let x: nat = digits_val(a);
        let y: nat = digits_val(b.drop_last());
        assert((x * p + y) * 10 == x * (10 * p) + y * 10) by (nonlinear_arith);
        assert(pow10(b.len()) == 10 * p);
        assert(digits_val(a + b) == digits_val((a + b).drop_last()) * 10 + digit_val((a + b).last()));
        assert(digits_val(a + b.drop_last()) == x * p + y);
        assert(digits_val(a + b) == (x * p + y) * 10 + digit_val(b.last()));
        assert(digits_val(b) == y * 10 + digit_val(b.last()));
        assert(digits_val(a + b) == x * (10 * p) + digits_val(b));
        assert(digits_val(a + b) == digits_val(a) * pow10(b.len()) + digits_val(b));
    }
}

/// The decimal representation of `n` reads back as `n`.
pub proof fn lemma_dec_rep_val(n: nat)
    ensures
        digits_val(dec_rep(n)) == n,
    decreases n,
{
    if n < 10 {
        assert(seq![digit_char(n)].drop_last() =~= Seq::<char>::empty());
        assert(digits_val(Seq::<char>::empty()) == 0);
        assert(digit_val(digit_char(n)) == n);
    } else {
        lemma_dec_rep_val(n / 10);
        assert(dec_rep(n / 10).push(digit_char(n % 10)).drop_last() =~= dec_rep(n / 10));
        assert(digit_val(digit_char(n % 10)) == n % 10);
    }
}

/// Consumes a run of decimal digits starting at `i`, folding them onto `acc`;
/// refuses a value that would not fit the machine's word.
pub open spec fn p_dec_loop(s: Seq<char>, i: int, acc: nat) -> Option<(nat, int)>
    decreases s.len() - i,
{
    if 0 <= i < s.len() && is_digit(s[i]) {
        if acc * 10 + digit_val(s[i]) > usize::MAX {
            None
        } else {
            p_dec_loop(s, i + 1, acc * 10 + digit_val(s[i]))
        }
    } else {
        Some((acc, i))
    }
}

/// Consumes a nonempty run of decimal digits at `i` as a number.
pub open spec fn p_dec(s: Seq<char>, i: int) -> Option<(nat, int)> {
    if 0 <= i < s.len() && is_digit(s[i]) {
        p_dec_loop(s, i, 0)
    } else {
        None
    }
}

proof fn lemma_dec_loop_rt(s: Seq<char>, i: int, d: Seq<char>, acc: nat)
    requires
        at_pos(s, i, d),
        forall|k: int| 0 <= k < d.len() ==> is_digit(#[trigger] d[k]),
        i + d.len() == s.len() || !is_digit(s[i + d.len()]),
        acc * pow10(d.len()) + digits_val(d) <= usize::MAX,
    ensures
        p_dec_loop(s, i, acc) == Some((acc * pow10(d.len()) + digits_val(d), i + d.len() as int)),
    decreases d.len(),
{
    if d.len() == 0 {
        assert(pow10(0) == 1);
        assert(digits_val(d) == 0);
        assert(p_dec_loop(s, i, acc) == Some((acc, i)));
        let p0: nat = pow10(d.len());
        assert(p0 == 1);
        assert(acc * p0 == acc) by (nonlinear_arith)
            requires
                p0 == 1,
        ;
        assert(acc * pow10(d.len()) + digits_val(d) == acc);
    } else {
        let d0: nat = digit_val(d[0]);
        let rest = d.skip(1);
        let p: nat = pow10(rest.len());
        assert(s[i] == d[0]);
        lemma_digits_val_append(seq![d[0]], rest);
        assert(seq![d[0]] + rest =~= d);
        assert(seq![d[0]].drop_last() =~= Seq::<char>::empty());
        assert(digits_val(Seq::<char>::empty()) == 0);
        assert(digits_val(seq![d[0]]) == d0);
        assert(digits_val(d) == d0 * p + digits_val(rest));
        let acc2: nat = acc * 10 + d0;
        let r: nat = digits_val(rest);
        assert((acc * 10 + d0) * p + r == acc * (10 * p) + (d0 * p + r)) by (nonlinear_arith);
        assert(10 * p == pow10(d.len()));
        lemma_pow10_pos(rest.len());
        assert(acc2 <= acc2 * p) by (nonlinear_arith)
            requires
                p >= 1,
                acc2 >= 0,
        ;
        assert forall|k: int| 0 <= k < rest.len() implies s[i + 1 + k] == rest[k] by {
            assert(s[i + (k + 1)] == d[k + 1]);
        }
        assert(forall|k: int| 0 <= k < rest.len() ==> is_digit(#[trigger] rest[k]));
        assert(acc2 * p + r == acc * pow10(d.len()) + digits_val(d));
        lemma_dec_loop_rt(s, i + 1, rest, acc2);
        assert(p_dec_loop(s, i + 1, acc2) == Some((acc2 * pow10(rest.len()) + digits_val(rest), i + 1 + rest.len() as int)));
        assert(acc2 * pow10(rest.len()) + digits_val(rest) == acc * pow10(d.len()) + digits_val(d));
        assert(acc * 10 + digit_val(s[i]) == acc2);
        assert(acc2 <= usize::MAX);
        assert(p_dec_loop(s, i, acc) == p_dec_loop(s, i + 1, acc2));
        assert(i + 1 + rest.len() as int == i + d.len() as int);
    }
}

/// A decimal representation followed by anything but a digit parses back to
/// the number it was written from.
pub proof fn lemma_dec_rt(s: Seq<char>, i: int, n: usize)
    requires
        at_pos(s, i, dec_rep(n as nat)),
        i + dec_rep(n as nat).len() == s.len() || !is_digit(s[i + dec_rep(n as nat).len()]),
    ensures
        p_dec(s, i) == Some((n as nat, i + dec_rep(n as nat).len() as int)),
{
    lemma_dec_rep_digits(n as nat);
    lemma_dec_rep_val(n as nat);
    assert(s[i] == dec_rep(n as nat)[0]);
    lemma_dec_loop_rt(s, i, dec_rep(n as nat), 0);
}

fn digit_val_of(c: char) -> (d: usize)
    ensures
        d as nat == digit_val(c),
{
    if c == '0' {
        0
    } else if c == '1' {
        1
    } else if c == '2' {
        2
    } else if c == '3' {
        3
    } else if c == '4' {
        4
    } else if c == '5' {
        5
    } else if c == '6' {
        6
    } else if c == '7' {
        7
    } else if c == '8' {
        8
    } else if c == '9' {
        9
    } else {
        10
    }
}

fn parse_dec_loop(v: &Vec<char>, i: usize, acc: usize) -> (r: Option<(usize, usize)>)
    requires
        i <= v@.len(),
    ensures
        match r {
            Some(p) => {
                &&& p_dec_loop(v@, i as int, acc as nat) == Some((p.0 as nat, p.1 as int))
                &&& p.1 <= v@.len()
            },
            None => p_dec_loop(v@, i as int, acc as nat) is None,
        },
    decreases v@.len() - i,
{
    if i < v.len() {
        let d = digit_val_of(v[i]);
        if d < 10 {
            let wide: u128 = acc as u128 * 10 + d as u128;
            if wide > usize::MAX as u128 {
                None
            } else {
                parse_dec_loop(v, i + 1, wide as usize)
            }
        } else {
            Some((acc, i))
        }
    } else {
        Some((acc, i))
    }
}

/// Runs [`p_dec`] on a vector.
pub fn parse_dec(v: &Vec<char>, i: usize) -> (r: Option<(usize, usize)>)
    requires
        i <= v@.len(),
    ensures
        match r {
            Some(p) => {
                &&& p_dec(v@, i as int) == Some((p.0 as nat, p.1 as int))
                &&& p.1 <= v@.len()
            },
            None => p_dec(v@, i as int) is None,
        },
{
    if i < v.len() {
        let d = digit_val_of(v[i]);
        if d < 10 {
            parse_dec_loop(v, i, 0)
        } else {
            None
        }
    } else {
        None
    }
}

} // verus!
