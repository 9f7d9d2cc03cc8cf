//! Decimal rendering of integers, as `{}`, `{:0w}` do for unsigned and
//! signed values.

use vstd::prelude::*;

verus! {

/// The ASCII digit for `d` (`d < 10`).
pub open spec fn digit_char(d: nat) -> char {
    ((d + 48) as u8) as char
}

/// The decimal digits of `n`, most significant first, with no leading zero.
pub open spec fn decimal(n: nat) -> Seq<char>
    decreases n,
{
    if n < 10 {
        seq![digit_char(n)]
    } else {
        decimal(n / 10).push(digit_char(n % 10))
    }
}

/// `count` copies of `'0'`.
pub open spec fn zeros(count: nat) -> Seq<char> {
    Seq::new(count, |_i: int| '0')
}

/// The decimal digits of `n`, with `'0'`s in front up to `width` characters.
pub open spec fn zero_padded(n: nat, width: nat) -> Seq<char> {
    let d = decimal(n);
    if d.len() < width {
        zeros((width - d.len()) as nat) + d
    } else {
        d
    }
}

/// A signed value padded with zeros: the sign counts in the width, so a
/// negative value is `'-'` and its magnitude padded to one place less.
pub open spec fn signed_zero_padded(n: int, width: nat) -> Seq<char> {
    if n < 0 {
        seq!['-'] + zero_padded((-n) as nat, if width > 0 { (width - 1) as nat } else { 0 })
    } else {
        zero_padded(n as nat, width)
    }
}

/// The value that a string of ASCII digits denotes.
pub open spec fn digits_value(s: Seq<char>) -> nat
    decreases s.len(),
{
    if s.len() == 0 {
        0
    } else {
        digits_value(s.drop_last()) * 10 + ((s.last() as int - 48) as nat)
    }
}

/// Every character is an ASCII digit.
pub open spec fn all_digits(s: Seq<char>) -> bool {
    forall|i: int| 0 <= i < s.len() ==> '0' <= #[trigger] s[i] <= '9'
}

pub proof fn lemma_digit_char(d: nat)
    requires
        d < 10,
    ensures
        digit_char(d) as int == d + 48,
        '0' <= digit_char(d) <= '9',
{
}

/// The decimal text of `n` is made of digits, starts with a nonzero digit
/// unless `n` is zero, and denotes `n`.
pub proof fn lemma_decimal_denotes(n: nat)
    ensures
        all_digits(decimal(n)),
        decimal(n).len() >= 1,
        n != 0 ==> decimal(n)[0] != '0',
        digits_value(decimal(n)) == n,
    decreases n,
{
    lemma_digit_char(n % 10);
    if n < 10 {
        let s = decimal(n);
        assert(s.drop_last() =~= Seq::<char>::empty());
        assert(s.last() == digit_char(n));
        assert(digits_value(s) == digits_value(s.drop_last()) * 10 + ((s.last() as int - 48) as nat));
    } else {
        lemma_decimal_denotes(n / 10);
        let s = decimal(n);
        assert(s.drop_last() =~= decimal(n / 10));
        assert(s[0] == decimal(n / 10)[0]);
        assert((n / 10) * 10 + n % 10 == n) by (nonlinear_arith);
        assert(s.last() == digit_char(n % 10));
        assert(digits_value(s) == digits_value(s.drop_last()) * 10 + ((s.last() as int - 48) as nat));
    }
}

/// Leading zeros add nothing to the value of a digit string.
pub proof fn lemma_leading_zeros(k: nat, s: Seq<char>)
    ensures
        digits_value(zeros(k) + s) == digits_value(s) + digits_value(zeros(k)) * pow10(s.len()),
        digits_value(zeros(k)) == 0,
    decreases s.len(), k,
{
    if s.len() == 0 {
        assert(zeros(k) + s =~= zeros(k));
        if k > 0 {
            assert(zeros(k).drop_last() =~= zeros((k - 1) as nat));
            lemma_leading_zeros((k - 1) as nat, s);
        }
    } else {
        assert((zeros(k) + s).drop_last() =~= zeros(k) + s.drop_last());
        lemma_leading_zeros(k, s.drop_last());
    }
}

/// `10` to the power `e`.
pub open spec fn pow10(e: nat) -> nat
    decreases e,
{
    if e == 0 { 1 } else { 10 * pow10((e - 1) as nat) }
}

/// Zero padding keeps the value and gives at least `width` digits: what
/// `{:0width}` prints of `n` reads back as `n`.
pub proof fn lemma_zero_padded_denotes(n: nat, width: nat)
    ensures
        all_digits(zero_padded(n, width)),
        digits_value(zero_padded(n, width)) == n,
        zero_padded(n, width).len() == if decimal(n).len() < width { width } else { decimal(n).len() },
{
    lemma_decimal_denotes(n);
    let d = decimal(n);
    if d.len() < width {
        let k: nat = (width - d.len()) as nat;
        lemma_leading_zeros(k, d);
        assert forall|i: int| 0 <= i < zero_padded(n, width).len() implies '0' <= #[trigger] zero_padded(n, width)[i] <= '9' by {
            if i < k {
            } else {
                assert(zero_padded(n, width)[i] == d[i - k]);
            }
        }
    }
}

/// Appends one character to a `String`.
#[verifier::external_body]
pub(crate) fn push_char(s: &mut String, c: char)
    ensures
        final(s)@ == old(s)@.push(c),
{
    s.push(c);
}

fn digit(d: u64) -> (c: char)
    requires
        d < 10,
    ensures
        c == digit_char(d as nat),
{
    ((d as u8) + 48) as char
}

/// Appends the decimal digits of `n`.
pub fn push_decimal(s: &mut String, n: u64)
    ensures
        final(s)@ == old(s)@ + decimal(n as nat),
    decreases n,
{
    if n >= 10 {
        push_decimal(s, n / 10);
    }
    push_char(s, digit(n % 10));
    assert(s@ =~= old(s)@ + decimal(n as nat));
}

proof fn lemma_padded_step(n: nat, width: nat)
    requires
        n >= 10,
    ensures
        zero_padded(n, width) =~= zero_padded(n / 10, if width > 0 { (width - 1) as nat } else { 0 }).push(
            digit_char(n % 10),
        ),
{
    let w1: nat = if width > 0 { (width - 1) as nat } else { 0 };
    let d = decimal(n / 10);
    assert(decimal(n) == d.push(digit_char(n % 10)));
    if d.len() < w1 {
        assert(zeros((width - decimal(n).len()) as nat) =~= zeros((w1 - d.len()) as nat));
    }
}

/// Appends the decimal digits of `n`, zero-padded to `width` characters.
pub fn push_zero_padded(s: &mut String, n: u64, width: usize)
    ensures
        final(s)@ == old(s)@ + zero_padded(n as nat, width as nat),
    decreases n,
{
    let rest_width: usize = if width > 0 { width - 1 } else { 0 };
    if n >= 10 {
        push_zero_padded(s, n / 10, rest_width);
    } else {
        let mut i: usize = 0;
        while i < rest_width
            invariant
                i <= rest_width,
                s@ == old(s)@ + zeros(i as nat),
            decreases rest_width - i,
        {
            push_char(s, '0');
            i = i + 1;
            assert(s@ =~= old(s)@ + zeros(i as nat));
        }
    }
    push_char(s, digit(n % 10));
    proof {
        if n >= 10 {
            lemma_padded_step(n as nat, width as nat);
        } else {
            assert(decimal(n as nat) =~= seq![digit_char(n as nat)]);
        }
        assert(s@ =~= old(s)@ + zero_padded(n as nat, width as nat));
    }
}

/// Appends a signed value zero-padded to `width` characters, the sign
/// included, as `{:0width}` writes an `i32`.
pub fn push_signed_zero_padded(s: &mut String, n: i32, width: usize)
    ensures
        final(s)@ == old(s)@ + signed_zero_padded(n as int, width as nat),
{
    if n < 0 {
        push_char(s, '-');
        let magnitude: u64 = (0i64 - (n as i64)) as u64;
        let rest_width: usize = if width > 0 { width - 1 } else { 0 };
        push_zero_padded(s, magnitude, rest_width);
        assert(s@ =~= old(s)@ + signed_zero_padded(n as int, width as nat));
    } else {
        push_zero_padded(s, n as u64, width);
    }
}

/// The decimal text of `n`, as `n.to_string()` gives it.
pub fn decimal_string(n: u64) -> (s: String)
    ensures
        s@ == decimal(n as nat),
{
    let mut s = String::new();
    push_decimal(&mut s, n);
    assert(s@ =~= decimal(n as nat));
    s
}

} // verus!
