//! Decimal rendering of unsigned integers, used to build node ids and labels.

use vstd::prelude::*;
use vstd::string::StringExecFns;

verus! {

/// The character for a single decimal digit.
pub open spec fn digit_char(d: int) -> char {
    if d == 0 {
        '0'
    } else if d == 1 {
        '1'
    } else if d == 2 {
        '2'
    } else if d == 3 {
        '3'
    } else if d == 4 {
        '4'
    } else if d == 5 {
        '5'
    } else if d == 6 {
        '6'
    } else if d == 7 {
        '7'
    } else if d == 8 {
        '8'
    } else {
        '9'
    }
}

/// The usual decimal representation of a non-negative integer:
/// most significant digit first, no leading zeros (except for 0 itself).
pub open spec fn dec_rep(n: int) -> Seq<char>
    recommends
        n >= 0,
    decreases n,
{
    if n < 10 {
        seq![digit_char(n)]
    } else {
        dec_rep(n / 10).push(digit_char(n % 10))
    }
}

/// Every character of a decimal representation is a digit, never the
/// `'-'` separator of the id templates.
pub proof fn lemma_dec_rep_no_sep(n: int)
    requires
        n >= 0,
    ensures
        forall|p: int| 0 <= p < dec_rep(n).len() ==> #[trigger] dec_rep(n)[p] != '-',
    decreases n,
{
    if n >= 10 {
        lemma_dec_rep_no_sep(n / 10);
        assert forall|p: int| 0 <= p < dec_rep(n).len() implies #[trigger] dec_rep(n)[p]
            != '-' by {
            if p < dec_rep(n / 10).len() {
                assert(dec_rep(n)[p] == dec_rep(n / 10)[p]);
            } else {
                assert(dec_rep(n)[p] == digit_char(n % 10));
            }
        }
    }
}

/// A decimal representation is never empty, and one of a number of two
/// or more digits has length at least two.
pub proof fn lemma_dec_rep_len(n: int)
    requires
        n >= 0,
    ensures
        dec_rep(n).len() >= 1,
        n >= 10 ==> dec_rep(n).len() >= 2,
    decreases n,
{
    if n >= 10 {
        lemma_dec_rep_len(n / 10);
    }
}

/// Distinct non-negative numbers have distinct decimal representations.
pub proof fn lemma_dec_rep_injective(a: int, b: int)
    requires
        a >= 0,
        b >= 0,
        dec_rep(a) == dec_rep(b),
    ensures
        a == b,
    decreases a,
{
    lemma_dec_rep_len(a);
    lemma_dec_rep_len(b);
    if a < 10 && b < 10 {
        assert(dec_rep(a)[0] == digit_char(a));
        assert(dec_rep(b)[0] == digit_char(b));
    } else if a < 10 {
        assert(dec_rep(a).len() == 1);
        assert(false);
    } else if b < 10 {
        assert(dec_rep(b).len() == 1);
        assert(false);
    } else {
        let sa = dec_rep(a / 10);
        let sb = dec_rep(b / 10);
        assert(dec_rep(a) == sa.push(digit_char(a % 10)));
        assert(dec_rep(b) == sb.push(digit_char(b % 10)));
        assert(sa.len() == sb.len());
        assert(dec_rep(a)[sa.len() as int] == digit_char(a % 10));
        assert(dec_rep(b)[sb.len() as int] == digit_char(b % 10));
        assert(a % 10 == b % 10);
        assert(sa =~= sb) by {
            assert forall|p: int| 0 <= p < sa.len() implies sa[p] == sb[p] by {
                assert(dec_rep(a)[p] == sa[p]);
                assert(dec_rep(b)[p] == sb[p]);
            }
        }
        lemma_dec_rep_injective(a / 10, b / 10);
        vstd::arithmetic::div_mod::lemma_fundamental_div_mod(a, 10);
        vstd::arithmetic::div_mod::lemma_fundamental_div_mod(b, 10);
    }
}

/// A one-character string slice for a single decimal digit.
fn digit_str(d: u32) -> (r: &'static str)
    requires
        d < 10,
    ensures
        r@.len() == 1,
        r@[0] == digit_char(d as int),
{
    proof {
        reveal_strlit("0");
        reveal_strlit("1");
        reveal_strlit("2");
        reveal_strlit("3");
        reveal_strlit("4");
        reveal_strlit("5");
        reveal_strlit("6");
        reveal_strlit("7");
        reveal_strlit("8");
        reveal_strlit("9");
    }
    match d {
        0 => "0",
        1 => "1",
        2 => "2",
        3 => "3",
        4 => "4",
        5 => "5",
        6 => "6",
        7 => "7",
        8 => "8",
        _ => "9",
    }
}

/// Appends the decimal representation of `n` to `s`.
pub fn push_decimal(s: &mut String, n: u32)
    ensures
        final(s)@ == old(s)@ + dec_rep(n as int),
    decreases n,
{
    if n < 10 {
        let d = digit_str(n);
        s.append(d);
        proof {
            assert(s@ =~= old(s)@ + dec_rep(n as int));
        }
    } else {
        push_decimal(s, n / 10);
        let d = digit_str(n % 10);
        s.append(d);
        proof {
            assert(s@ =~= old(s)@ + dec_rep(n as int));
        }
    }
}

} // verus!
