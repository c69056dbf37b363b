//! Base-ten rendering of integers, as used in the cookie-jar format and in the
//! driver's command line.

use vstd::prelude::*;

verus! {

/// The ASCII digit for `d`, for `d` below ten.
pub open spec fn digit_char(d: nat) -> char {
    if d == 0 { '0' }
    else if d == 1 { '1' }
    else if d == 2 { '2' }
    else if d == 3 { '3' }
    else if d == 4 { '4' }
    else if d == 5 { '5' }
    else if d == 6 { '6' }
    else if d == 7 { '7' }
    else if d == 8 { '8' }
    else { '9' }
}

/// The decimal digits of `n`, most significant first, without leading zeros
/// (zero itself is the single digit `0`).
pub open spec fn digits(n: nat) -> Seq<char>
    decreases n,
{
    if n < 10 {
        seq![digit_char(n)]
    } else {
        digits(n / 10).push(digit_char(n % 10))
    }
}

/// The decimal text of `i`: its digits, after a minus sign when it is negative.
pub open spec fn decimal(i: int) -> Seq<char> {
    if i < 0 {
        seq!['-'] + digits((-i) as nat)
    } else {
        digits(i as nat)
    }
}

/// The decimal text of any integer holds only digits and perhaps a minus sign.
pub proof fn lemma_decimal_has_no_newline(i: int)
    ensures
        forall|k: int| 0 <= k < decimal(i).len() ==> decimal(i)[k] != '\n',
{
    if i < 0 {
        lemma_digits_have_no_newline((-i) as nat);
        let d = digits((-i) as nat);
        assert forall|k: int| 0 <= k < decimal(i).len() implies decimal(i)[k] != '\n' by {
            if k > 0 {
                assert(decimal(i)[k] == d[k - 1]);
            }
        }
    } else {
        lemma_digits_have_no_newline(i as nat);
    }
}

proof fn lemma_digits_have_no_newline(n: nat)
    ensures
        forall|k: int| 0 <= k < digits(n).len() ==> digits(n)[k] != '\n',
    decreases n,
{
    if n >= 10 {
        lemma_digits_have_no_newline(n / 10);
        let d = digits(n);
        assert forall|k: int| 0 <= k < d.len() implies d[k] != '\n' by {
            if k < digits(n / 10).len() {
                assert(d[k] == digits(n / 10)[k]);
            }
        }
    }
}

fn digit_str(d: u64) -> (r: &'static str)
    requires
        d < 10,
    ensures
        r@ == seq![digit_char(d as nat)],
{
    proof {
        reveal_strlit("0");
        reveal_strlit("1");
        reveal_strlit("2");
        reveal_strlit("3");
        reveal_strlit("4");
        reveal_strlit("5");
        reveal_strlit("6");
        reveal_strlit("7");
        reveal_strlit("8");
        reveal_strlit("9");
    }
    if d == 0 { "0" }
    else if d == 1 { "1" }
    else if d == 2 { "2" }
    else if d == 3 { "3" }
    else if d == 4 { "4" }
    else if d == 5 { "5" }
    else if d == 6 { "6" }
    else if d == 7 { "7" }
    else if d == 8 { "8" }
    else { "9" }
}

/// Appends the decimal digits of `n` to `out`.
pub fn append_digits(out: &mut String, n: u64)
    ensures
        final(out)@ == old(out)@ + digits(n as nat),
    decreases n,
{
    if n >= 10 {
        append_digits(out, n / 10);
        out.append(digit_str(n % 10));
        assert(out@ =~= old(out)@ + digits(n as nat));
    } else {
        out.append(digit_str(n));
    }
}

/// Appends the decimal text of `i` to `out`, with a minus sign when negative.
pub fn append_decimal(out: &mut String, i: i64)
    ensures
        final(out)@ == old(out)@ + decimal(i as int),
{
    if i < 0 {
        proof { reveal_strlit("-"); }
        out.append("-");
        let magnitude: u64 = (0i128 - i as i128) as u64;
        append_digits(out, magnitude);
        assert(out@ =~= old(out)@ + decimal(i as int));
    } else {
        append_digits(out, i as u64);
    }
}

} // verus!
