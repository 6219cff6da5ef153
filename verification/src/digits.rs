//! Decimal digits: reading a run of digits as a number and writing a number
//! as digits.

use vstd::prelude::*;

verus! {

/// One of the ten ASCII digits.
pub open spec fn is_digit(c: char) -> bool {
    '0' <= c <= '9'
}

/// The number that the digit `c` stands for.
pub open spec fn digit_value(c: char) -> nat {
    (c as u32 - 48) as nat
}

/// The digit that stands for `d`, for `d` below ten.
pub open spec fn digit_char(d: nat) -> char {
    (d + 48) as char
}

/// Every character of `s` is a digit.
pub open spec fn all_digits(s: Seq<char>) -> bool {
    forall|i: int| 0 <= i < s.len() ==> is_digit(#[trigger] s[i])
}

/// The number that the digits of `s` write in base ten; 0 for no digits.
pub open spec fn digits_value(s: Seq<char>) -> nat
    decreases s.len(),
{
    if s.len() == 0 {
        0
    } else {
        digits_value(s.drop_last()) * 10 + digit_value(s.last())
    }
}

/// The digit at index `i` of `s` as a number; 0 where `s` has no such index.
pub open spec fn digit_at(s: Seq<char>, i: int) -> nat {
    if 0 <= i < s.len() {
        digit_value(s[i])
    } else {
        0
    }
}

/// `n` in base ten, without leading zeros; `"0"` for 0.
pub open spec fn nat_text(n: nat) -> Seq<char>
    decreases n,
{
    if n < 10 {
        seq![digit_char(n)]
    } else {
        nat_text(n / 10).push(digit_char(n % 10))
    }
}

/// `count` zeros.
pub open spec fn zeros(count: nat) -> Seq<char> {
    Seq::new(count, |i: int| '0')
}

/// `n` in base ten, with zeros in front where it has fewer than `width` digits.
pub open spec fn zero_padded(n: nat, width: nat) -> Seq<char> {
    let text = nat_text(n);
    if text.len() < width {
        zeros((width - text.len()) as nat) + text
    } else {
        text
    }
}

/// A longer run of digits writes no smaller a number than its beginning.
pub proof fn digits_value_grows(s: Seq<char>, k: int)
    requires
        0 <= k <= s.len(),
    ensures
        digits_value(s.subrange(0, k)) <= digits_value(s),
    decreases s.len() - k,
{
    if k == s.len() {
        assert(s.subrange(0, k) == s);
    } else {
        digits_value_grows(s.drop_last(), k);
        assert(s.drop_last().subrange(0, k) == s.subrange(0, k));
    }
}

/// The text of a number has at least one digit, and only digits.
pub proof fn nat_text_is_digits(n: nat)
    ensures
        nat_text(n).len() >= 1,
        all_digits(nat_text(n)),
    decreases n,
{
    if n >= 10 {
        nat_text_is_digits(n / 10);
    }
}

/// Reading the text of a number gives the number back.
pub proof fn nat_text_round_trip(n: nat)
    ensures
        digits_value(nat_text(n)) == n,
    decreases n,
{
    if n < 10 {
        assert(nat_text(n).drop_last() == Seq::<char>::empty());
        assert(digits_value(nat_text(n).drop_last()) == 0);
    } else {
        nat_text_round_trip(n / 10);
        assert(nat_text(n).drop_last() == nat_text(n / 10));
    }
}

/// Whether `c` is one of the ten ASCII digits.
pub fn is_ascii_digit(c: char) -> (b: bool)
    ensures
        b == is_digit(c),
{
    '0' <= c && c <= '9'
}

/// The number that the digit `c` stands for.
pub fn value_of_digit(c: char) -> (d: u64)
    requires
        is_digit(c),
    ensures
        d == digit_value(c),
        d <= 9,
{
    (c as u32 - 48) as u64
}

/// The digit that stands for `d`.
pub fn char_of_digit(d: u64) -> (c: char)
    requires
        d <= 9,
    ensures
        c == digit_char(d as nat),
        is_digit(c),
{
    ((d as u8) + 48u8) as char
}

/// Appends `n` in base ten to `out`.
pub fn push_nat(out: &mut Vec<char>, n: u64)
    ensures
        final(out)@ == old(out)@ + nat_text(n as nat),
    decreases n,
{
    if n >= 10 {
        push_nat(out, n / 10);
    }
    out.push(char_of_digit(n % 10));
    assert(out@ =~= old(out)@ + nat_text(n as nat));
}

/// Appends `n` in base ten to `out`, with zeros in front where it has fewer
/// than `width` digits.
pub fn push_zero_padded(out: &mut Vec<char>, n: u64, width: usize)
    ensures
        final(out)@ == old(out)@ + zero_padded(n as nat, width as nat),
{
    let mut text: Vec<char> = Vec::new();
    push_nat(&mut text, n);
    assert(text@ =~= nat_text(n as nat));
    let mut i: usize = text.len();
    while i < width
        invariant
            text.len() <= i,
            i <= width || i == text.len(),
            out@ == old(out)@ + zeros((i - text.len()) as nat),
        decreases width - i,
    {
        out.push('0');
        i += 1;
        assert(out@ =~= old(out)@ + zeros((i - text.len()) as nat));
    }
    let ghost front = out@;
    let mut k: usize = 0;
    while k < text.len()
        invariant
            k <= text.len(),
            out@ == front + text@.subrange(0, k as int),
        decreases text.len() - k,
    {
        out.push(text[k]);
        k += 1;
    }
    assert(text@.subrange(0, k as int) =~= text@);
    assert(zeros(0) =~= Seq::<char>::empty());
    assert(out@ =~= old(out)@ + zero_padded(n as nat, width as nat));
}

} // verus!
