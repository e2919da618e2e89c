//! Decimal rendering for the diagnostic line.

use vstd::prelude::*;

verus! {

/// The character for one decimal digit.
pub open spec fn digit_char(d: int) -> char {
    if d == 0 {
        '0'
    } else if d == 1 {
        '1'
    } else if d == 2 {
        '2'
    } else if d == 3 {
        '3'
    } else if d == 4 {
        '4'
    } else if d == 5 {
        '5'
    } else if d == 6 {
        '6'
    } else if d == 7 {
        '7'
    } else if d == 8 {
        '8'
    } else {
        '9'
    }
}

/// The decimal digits of `n`, most significant first, no leading zeros
/// (a lone `0` for zero itself).
pub open spec fn dec_rep(n: nat) -> Seq<char>
    decreases n,
{
    if n < 10 {
        seq![digit_char(n as int)]
    } else {
        dec_rep(n / 10).push(digit_char((n % 10) as int))
    }
}

/// The decimal rendering of a signed value: a minus sign, then the digits
/// of the magnitude.
pub open spec fn dec_rep_int(v: int) -> Seq<char> {
    if v < 0 {
        seq!['-'] + dec_rep((-v) as nat)
    } else {
        dec_rep(v as nat)
    }
}

/// One digit as a string slice.
fn digit_str(d: usize) -> (s: &'static str)
    requires
        d < 10,
    ensures
        s@ == seq![digit_char(d as int)],
{
    proof {
        reveal_strlit("0");
        reveal_strlit("1");
        reveal_strlit("2");
        reveal_strlit("3");
        reveal_strlit("4");
        reveal_strlit("5");
        reveal_strlit("6");
        reveal_strlit("7");
        reveal_strlit("8");
        reveal_strlit("9");
    }
    let s = if d == 0 {
        "0"
    } else if d == 1 {
        "1"
    } else if d == 2 {
        "2"
    } else if d == 3 {
        "3"
    } else if d == 4 {
        "4"
    } else if d == 5 {
        "5"
    } else if d == 6 {
        "6"
    } else if d == 7 {
        "7"
    } else if d == 8 {
        "8"
    } else {
        "9"
    };
    proof {
        assert(s@ =~= seq![digit_char(d as int)]);
    }
    s
}

/// The characters of a stack of digits, popped back off: last pushed
/// first.
spec fn pushed_chars(ds: Seq<usize>) -> Seq<char>
    decreases ds.len(),
{
    if ds.len() == 0 {
        Seq::<char>::empty()
    } else {
        seq![digit_char(ds.last() as int)] + pushed_chars(ds.drop_last())
    }
}

/// Appends the decimal digits of `n` to `out`.
pub fn push_decimal(n: usize, out: &mut String)
    ensures
        final(out)@ == old(out)@ + dec_rep(n as nat),
{
    let mut digits: Vec<usize> = Vec::new();
    let mut m: usize = n;
    proof {
        assert(dec_rep(n as nat) =~= dec_rep(n as nat) + pushed_chars(digits@));
    }
    while m >= 10
        invariant
            forall|k: int| 0 <= k < digits@.len() ==> digits@[k] < 10,
            dec_rep(n as nat) == dec_rep(m as nat) + pushed_chars(digits@),
        decreases m,
    {
        let ghost pre = digits@;
        let d = m % 10;
        digits.push(d);
        proof {
            assert(digits@.drop_last() =~= pre);
            assert(pushed_chars(digits@) =~= seq![digit_char(d as int)] + pushed_chars(pre));
            assert(dec_rep((m / 10) as nat).push(digit_char((m % 10) as int)) =~= dec_rep(
                (m / 10) as nat,
            ) + seq![digit_char((m % 10) as int)]);
            assert(dec_rep(n as nat) =~= dec_rep((m / 10) as nat) + pushed_chars(digits@));
        }
        m = m / 10;
    }
    out.append(digit_str(m));
    let mut i: usize = digits.len();
    proof {
        assert(digits@.take(i as int) =~= digits@);
    }
    while i > 0
        invariant
            i <= digits@.len(),
            forall|k: int| 0 <= k < digits@.len() ==> digits@[k] < 10,
            out@ + pushed_chars(digits@.take(i as int)) == old(out)@ + seq![
                digit_char(m as int),
            ] + pushed_chars(digits@),
        decreases i,
    {
        i = i - 1;
        let ghost before = out@;
        out.append(digit_str(digits[i]));
        proof {
            assert(digits@.take(i + 1).drop_last() =~= digits@.take(i as int));
            assert(pushed_chars(digits@.take(i + 1)) =~= seq![
                digit_char(digits@[i as int] as int),
            ] + pushed_chars(digits@.take(i as int)));
            assert(out@ + pushed_chars(digits@.take(i as int)) =~= before + pushed_chars(
                digits@.take(i + 1),
            ));
        }
    }
    proof {
        assert(digits@.take(0) =~= Seq::<usize>::empty());
        assert(out@ =~= old(out)@ + dec_rep(n as nat));
    }
}

/// Appends the decimal rendering of `v` to `out`, with a leading minus
/// sign when `v` is negative.
pub fn push_decimal_signed(v: isize, out: &mut String)
    ensures
        final(out)@ == old(out)@ + dec_rep_int(v as int),
{
    if v >= 0 {
        push_decimal(v as usize, out);
    } else {
        out.append("-");
        proof {
            reveal_strlit("-");
            assert("-"@ =~= seq!['-']);
        }
        let magnitude = ((-(v + 1)) as usize) + 1;
        push_decimal(magnitude, out);
        proof {
            assert(old(out)@ + dec_rep_int(v as int) =~= (old(out)@ + "-"@) + dec_rep(
                magnitude as nat,
            ));
        }
    }
}

} // verus!
