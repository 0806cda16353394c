//! Numbers as text: decimal digits, and digits in groups of three.

use vstd::prelude::*;
use crate::text::text_of;

verus! {

/// The character of a decimal digit.
pub open spec fn digit_char(d: int) -> char
    recommends
        0 <= d < 10,
{
    ('0' as u8 + d as u8) as char
}

/// A number written in decimal digits, with no leading zero but for zero
/// itself.
pub open spec fn decimal_digits(n: nat) -> Seq<char>
    decreases n,
{
    if n < 10 {
        seq![digit_char(n as int)]
    } else {
        decimal_digits(n / 10).push(digit_char((n % 10) as int))
    }
}

/// Digits with a comma before every group of three counted from the right.
pub open spec fn grouped_by_thousands(digits: Seq<char>) -> Seq<char>
    decreases digits.len(),
{
    if digits.len() <= 3 {
        digits
    } else {
        grouped_by_thousands(digits.take(digits.len() - 3)) + seq![','] + digits.skip(
            digits.len() - 3,
        )
    }
}

/// The decimal digits of a number, lowest first.
fn digits_reversed(n: u64) -> (digits: Vec<char>)
    ensures
        digits@.reverse() == decimal_digits(n as nat),
        digits@.len() >= 1,
{
    let mut digits: Vec<char> = Vec::new();
    let mut rest: u64 = n;
    proof {
        assert(digits@.reverse() =~= Seq::<char>::empty());
        assert(decimal_digits(rest as nat) + Seq::<char>::empty() =~= decimal_digits(rest as nat));
    }
    while rest >= 10
        invariant
            decimal_digits(n as nat) == decimal_digits(rest as nat) + digits@.reverse(),
        decreases rest,
    {
        let d = (rest % 10) as u8;
        let c = (48u8 + d) as char;
        proof {
            let longer = digits@.push(c);
            assert(longer.reverse() =~= seq![c] + digits@.reverse());
            assert(c == digit_char((rest % 10) as int));
            assert(decimal_digits((rest / 10) as nat).push(c) + digits@.reverse()
                =~= decimal_digits((rest / 10) as nat) + longer.reverse());
        }
        digits.push(c);
        rest = rest / 10;
    }
    let c = (48u8 + rest as u8) as char;
    proof {
        let longer = digits@.push(c);
        assert(longer.reverse() =~= seq![c] + digits@.reverse());
        assert(c == digit_char(rest as int));
    }
    digits.push(c);
    digits
}

/// The characters of a list in turned-round order.
fn reversed(chars: &Vec<char>) -> (out: Vec<char>)
    ensures
        out@ == chars@.reverse(),
{
    let mut out: Vec<char> = Vec::new();
    let mut i: usize = chars.len();
    while i > 0
        invariant
            i <= chars.len(),
            out@.len() == chars.len() - i,
            forall|k: int| 0 <= k < out@.len() ==> out@[k] == chars@[chars@.len() - 1 - k],
        decreases i,
    {
        i -= 1;
        out.push(chars[i]);
    }
    assert(out@ =~= chars@.reverse());
    out
}

/// A number written in decimal digits.
pub fn decimal_text(n: u64) -> (text: String)
    ensures
        text@ == decimal_digits(n as nat),
{
    let digits = reversed(&digits_reversed(n));
    text_of(digits.as_slice())
}

/// One more digit in front of grouped digits: a comma comes between
/// exactly when the digits behind fill whole groups.
proof fn grouping_with_one_more_digit(d: char, digits: Seq<char>)
    ensures
        grouped_by_thousands(seq![d] + digits) == if digits.len() > 0 && digits.len() % 3 == 0 {
            seq![d, ','] + grouped_by_thousands(digits)
        } else {
            seq![d] + grouped_by_thousands(digits)
        },
    decreases digits.len(),
{
    let longer = seq![d] + digits;
    if digits.len() < 3 {
    } else if digits.len() == 3 {
        assert(longer.take(longer.len() - 3) =~= seq![d]);
        assert(longer.skip(longer.len() - 3) =~= digits);
        assert(grouped_by_thousands(seq![d]) == seq![d]);
        assert(grouped_by_thousands(digits) == digits);
        assert(seq![d] + seq![','] + digits =~= seq![d, ','] + digits);
    } else {
        let head = digits.take(digits.len() - 3);
        let tail = digits.skip(digits.len() - 3);
        assert(longer.take(longer.len() - 3) =~= seq![d] + head);
        assert(longer.skip(longer.len() - 3) =~= tail);
        grouping_with_one_more_digit(d, head);
        if digits.len() % 3 == 0 {
            assert((seq![d, ','] + grouped_by_thousands(head)) + seq![','] + tail =~= seq![d, ',']
                + (grouped_by_thousands(head) + seq![','] + tail));
        } else {
            assert((seq![d] + grouped_by_thousands(head)) + seq![','] + tail =~= seq![d] + (
            grouped_by_thousands(head) + seq![','] + tail));
        }
    }
}

/// A number written in decimal digits, with a comma before every group of
/// three digits counted from the right: `12345` gives `12,345`.
pub fn format_usize_with_thousands(n: usize) -> (text: String)
    ensures
        text@ == grouped_by_thousands(decimal_digits(n as nat)),
{
    let low_first = digits_reversed(n as u64);
    let ghost digits = decimal_digits(n as nat);
    let mut out: Vec<char> = Vec::new();
    let mut i: usize = 0;
    proof {
        assert(digits.skip(digits.len() as int) =~= Seq::<char>::empty());
        assert(out@.reverse() =~= Seq::<char>::empty());
    }
    while i < low_first.len()
        invariant
            i <= low_first.len(),
            low_first@.reverse() == digits,
            digits.len() == low_first@.len(),
            out@.reverse() == grouped_by_thousands(digits.skip(digits.len() - i)),
        decreases low_first.len() - i,
    {
        let c = low_first[i];
        let ghost done = digits.skip(digits.len() - i);
        let ghost before = out@;
        proof {
            assert(done.len() == i);
            assert(digits[digits.len() - 1 - i] == c);
            assert(digits.skip(digits.len() - i - 1) =~= seq![c] + done);
            grouping_with_one_more_digit(c, done);
        }
        if i != 0 && i % 3 == 0 {
            out.push(',');
            out.push(c);
            assert(out@.reverse() =~= seq![c, ','] + before.reverse());
        } else {
            out.push(c);
            assert(out@.reverse() =~= seq![c] + before.reverse());
        }
        i += 1;
    }
    assert(digits.skip(0) =~= digits);
    let forward = reversed(&out);
    text_of(forward.as_slice())
}

} // verus!
