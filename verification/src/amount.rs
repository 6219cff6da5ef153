//! Amounts of money as fixed-point numbers: a signed count of hundredths.

use crate::digits::{
    all_digits, char_of_digit, digit_at, digit_char, digits_value, digits_value_grows,
    is_ascii_digit, is_digit, nat_text, nat_text_is_digits, nat_text_round_trip, push_nat,
    value_of_digit,
};
use crate::text::{chars_of, find_from, index_of, index_of_bounds, string_of};
use vstd::prelude::*;

verus! {

/// The largest count of hundredths that an [`Amount`] holds, in either direction.
pub const MAX_HUNDREDTHS: i64 = 0x7fff_ffff_ffff_ffff;

/// A count of hundredths that an [`Amount`] can hold. The range is
/// symmetric, so that every amount has a negative.
pub open spec fn representable(hundredths: int) -> bool {
    -MAX_HUNDREDTHS <= hundredths <= MAX_HUNDREDTHS
}

/// Number of sign characters at the start of a decimal text: one for a
/// leading `-` or `+`, else none.
pub open spec fn sign_len(s: Seq<char>) -> int {
    if s.len() > 0 && (s[0] == '-' || s[0] == '+') {
        1
    } else {
        0
    }
}

/// The hundredths that the digits after the decimal point give: the first two
/// digits, one more where the third digit is 5 or above. Further digits do
/// not count.
pub open spec fn rounded_hundredths(frac: Seq<char>) -> nat {
    digit_at(frac, 0) * 10 + digit_at(frac, 1) + if digit_at(frac, 2) >= 5 {
        1nat
    } else {
        0nat
    }
}

/// The size of the number that a decimal text writes, in hundredths, rounded
/// to the nearest hundredth with halves away from zero.
///
/// A decimal text is an optional sign, digits, and optionally a point and
/// more digits, with at least one digit before or after the point. Nothing
/// else is one: no exponent, no white space, no digit grouping.
pub open spec fn decimal_magnitude(s: Seq<char>) -> Option<nat> {
    let start = sign_len(s);
    let dot = index_of(s, '.', start);
    let whole = s.subrange(start, dot);
    let frac = if dot < s.len() {
        s.subrange(dot + 1, s.len() as int)
    } else {
        Seq::empty()
    };
    if all_digits(whole) && all_digits(frac) && whole.len() + frac.len() > 0 {
        Some(digits_value(whole) * 100 + rounded_hundredths(frac))
    } else {
        None
    }
}

/// The number that a decimal text writes, in hundredths.
pub open spec fn decimal_hundredths(s: Seq<char>) -> Option<int> {
    match decimal_magnitude(s) {
        Some(m) => Some(
            if s.len() > 0 && s[0] == '-' {
                -(m as int)
            } else {
                m as int
            },
        ),
        None => None,
    }
}

/// The amount that a text writes: its number in hundredths, where the text is
/// a decimal text and the number is representable.
pub open spec fn decimal_amount(s: Seq<char>) -> Option<int> {
    match decimal_hundredths(s) {
        Some(v) => if representable(v) {
            Some(v)
        } else {
            None
        },
        None => None,
    }
}

/// An amount written with two digits after the point: a `-` for a negative
/// amount, the whole part without leading zeros, a point, two digits.
pub open spec fn amount_text(hundredths: int) -> Seq<char> {
    let m = (if hundredths < 0 {
        -hundredths
    } else {
        hundredths
    }) as nat;
    let sign = if hundredths < 0 {
        seq!['-']
    } else {
        Seq::<char>::empty()
    };
    sign + nat_text(m / 100) + seq!['.', digit_char(m % 100 / 10), digit_char(m % 10)]
}

/// A signed amount of money, held as a whole number of hundredths.
#[derive(Clone, Copy, Debug, PartialEq, Eq)]
pub struct Amount {
    hundredths: i64,
}

impl View for Amount {
    type V = int;

    /// The amount in hundredths.
    closed spec fn view(&self) -> int {
        self.hundredths as int
    }
}

impl Amount {
    #[verifier::type_invariant]
    closed spec fn in_range(self) -> bool {
        representable(self.hundredths as int)
    }

    /// Two amounts of the same number of hundredths are the same amount.
    pub proof fn same_view_same_amount(self, other: Amount)
        requires
            self@ == other@,
        ensures
            self == other,
    {
    }

    /// The amount of `hundredths` hundredths, if it is representable.
    pub fn from_hundredths(hundredths: i64) -> (r: Option<Amount>)
        ensures
            r is Some <==> representable(hundredths as int),
            r matches Some(a) ==> a@ == hundredths,
    {
        if hundredths == i64::MIN {
            None
        } else {
            Some(Amount { hundredths })
        }
    }

    /// The amount in hundredths.
    pub fn hundredths(&self) -> (h: i64)
        ensures
            h == self@,
            representable(self@),
    {
        proof {
            use_type_invariant(self);
        }
        self.hundredths
    }

    /// The same amount with the opposite sign.
    pub fn negated(&self) -> (r: Amount)
        ensures
            r@ == -self@,
    {
        proof {
            use_type_invariant(self);
        }
        Amount { hundredths: -self.hundredths }
    }

    /// `self - other`, if it is representable.
    pub fn checked_sub(&self, other: &Amount) -> (r: Option<Amount>)
        ensures
            r is Some <==> representable(self@ - other@),
            r matches Some(a) ==> a@ == self@ - other@,
    {
        proof {
            use_type_invariant(self);
            use_type_invariant(other);
        }
        let wide: i128 = self.hundredths as i128 - other.hundredths as i128;
        if -(MAX_HUNDREDTHS as i128) <= wide && wide <= MAX_HUNDREDTHS as i128 {
            Some(Amount { hundredths: wide as i64 })
        } else {
            None
        }
    }

    /// Reads a decimal text. `None` where the text is no decimal text or its
    /// number is not representable.
    pub fn parse(text: &str) -> (r: Option<Amount>)
        ensures
            match r {
                Some(a) => decimal_amount(text@) == Some(a@),
                None => decimal_amount(text@) is None,
            },
    {
        let chars = chars_of(text);
        Amount::parse_chars(&chars)
    }

    /// Reads a decimal text given by its characters.
    pub fn parse_chars(v: &Vec<char>) -> (r: Option<Amount>)
        ensures
            match r {
                Some(a) => decimal_amount(v@) == Some(a@),
                None => decimal_amount(v@) is None,
            },
    {
        let n: usize = v.len();
        let negative: bool = n > 0 && v[0] == '-';
        let start: usize = if n > 0 && (v[0] == '-' || v[0] == '+') {
            1
        } else {
            0
        };
        let dot: usize = find_from(v, '.', start);
        proof {
            index_of_bounds(v@, '.', start as int);
        }
        let first: usize = if dot < n {
            dot + 1
        } else {
            n
        };
        let ghost frac = if dot < n {
            v@.subrange(dot + 1, n as int)
        } else {
            Seq::empty()
        };
        assert(frac =~= v@.subrange(first as int, n as int));
        // The whole part is kept below the point where its hundredths leave the range.
        let whole: u64 = match read_digits(v, start, dot, (MAX_HUNDREDTHS / 100) as u64) {
            Some(whole) => whole,
            None => { return None; },
        };
        if !only_digits(v, first, n) || dot - start + (n - first) == 0 {
            return None;
        }
        let magnitude: u64 = whole * 100 + read_hundredths(v, first);
        if magnitude > MAX_HUNDREDTHS as u64 {
            return None;
        }
        let value: i64 = if negative {
            -(magnitude as i64)
        } else {
            magnitude as i64
        };
        Some(Amount { hundredths: value })
    }

    /// The amount written with two digits after the point.
    pub fn render(&self) -> (r: String)
        ensures
            r@ == amount_text(self@),
    {
        let mut out: Vec<char> = Vec::new();
        self.push_to(&mut out);
        string_of(out.as_slice())
    }

    /// Appends the amount, written with two digits after the point, to `out`.
    pub fn push_to(&self, out: &mut Vec<char>)
        ensures
            final(out)@ == old(out)@ + amount_text(self@),
    {
        proof {
            use_type_invariant(self);
        }
        let magnitude: u64 = if self.hundredths < 0 {
            out.push('-');
            (-self.hundredths) as u64
        } else {
            self.hundredths as u64
        };
        push_nat(out, magnitude / 100);
        out.push('.');
        out.push(char_of_digit(magnitude % 100 / 10));
        out.push(char_of_digit(magnitude % 10));
        assert(out@ =~= old(out)@ + amount_text(self@));
    }
}

/// What a field that may be empty holds: no amount for an empty field, else
/// the amount that the field writes. `None` where the field is not empty and
/// writes no amount.
pub open spec fn optional_amount(field: Seq<char>) -> Option<Option<int>> {
    if field.len() == 0 {
        Some(None)
    } else {
        match decimal_amount(field) {
            Some(amount) => Some(Some(amount)),
            None => None,
        }
    }
}

/// The amount that an optional amount holds, in hundredths.
pub open spec fn amount_view(amount: Option<Amount>) -> Option<int> {
    match amount {
        Some(amount) => Some(amount@),
        None => None,
    }
}

/// Reads a field that may be empty. `Err` where the field is not empty and
/// writes no amount.
pub fn parse_optional_amount(field: &str) -> (r: Result<Option<Amount>, ()>)
    ensures
        match r {
            Ok(amount) => optional_amount(field@) == Some(amount_view(amount)),
            Err(_) => optional_amount(field@) is None,
        },
{
    if field.is_empty() {
        Ok(None)
    } else {
        match Amount::parse(field) {
            Some(amount) => Ok(Some(amount)),
            None => Err(()),
        }
    }
}

/// Where `c` stands at index `at` and nowhere between `from` and `at`, the
/// first `c` at or after `from` is the one at `at`.
pub proof fn index_of_is_first(s: Seq<char>, c: char, from: int, at: int)
    requires
        0 <= from <= at < s.len(),
        s[at] == c,
        forall|k: int| from <= k < at ==> s[k] != c,
    ensures
        index_of(s, c, from) == at,
    decreases at - from,
{
    if from < at {
        index_of_is_first(s, c, from + 1, at);
    }
}

/// An amount that is written and read again is the same amount.
pub proof fn written_amount_reads_back(hundredths: int)
    requires
        representable(hundredths),
    ensures
        decimal_amount(amount_text(hundredths)) == Some(hundredths),
{
    let m = (if hundredths < 0 {
        -hundredths
    } else {
        hundredths
    }) as nat;
    let sign = if hundredths < 0 {
        seq!['-']
    } else {
        Seq::<char>::empty()
    };
    let whole = nat_text(m / 100);
    let frac = seq![digit_char(m % 100 / 10), digit_char(m % 10)];
    let s = amount_text(hundredths);
    nat_text_is_digits(m / 100);
    nat_text_round_trip(m / 100);
    let start = sign.len() as int;
    let dot = start + whole.len();
    assert(s =~= sign + whole + seq!['.'] + frac);
    assert(forall|k: int| 0 <= k < whole.len() ==> s[start + k] == whole[k]);
    assert(is_digit(whole[0]));
    assert(sign_len(s) == start);
    assert(s[dot] == '.');
    assert forall|k: int| start <= k < dot implies s[k] != '.' by {
        assert(is_digit(whole[k - start]));
    }
    index_of_is_first(s, '.', start, dot);
    assert(s.subrange(start, dot) =~= whole);
    assert(s.subrange(dot + 1, s.len() as int) =~= frac);
    assert(all_digits(frac));
    assert(rounded_hundredths(frac) == m % 100);
    assert(decimal_magnitude(s) == Some(m));
}

/// Reads the digits `v[from..to]` as a number. `None` where one of the
/// characters is no digit or the number is above `limit`.
pub fn read_digits(v: &Vec<char>, from: usize, to: usize, limit: u64) -> (r: Option<u64>)
    requires
        from <= to <= v.len(),
        limit <= MAX_HUNDREDTHS,
    ensures
        match r {
            Some(value) => {
                &&& all_digits(v@.subrange(from as int, to as int))
                &&& value == digits_value(v@.subrange(from as int, to as int))
                &&& value <= limit
            },
            None => !all_digits(v@.subrange(from as int, to as int)) || digits_value(
                v@.subrange(from as int, to as int),
            ) > limit,
        },
{
    let ghost run = v@.subrange(from as int, to as int);
    let mut acc: u64 = 0;
    let mut i: usize = from;
    while i < to
        invariant
            from <= i <= to <= v.len(),
            run == v@.subrange(from as int, to as int),
            forall|k: int| 0 <= k < i - from ==> is_digit(#[trigger] run[k]),
            acc == digits_value(run.subrange(0, i - from)),
            acc <= limit <= MAX_HUNDREDTHS,
        decreases to - i,
    {
        let c = v[i];
        if !is_ascii_digit(c) {
            assert(!is_digit(run[i - from]));
            return None;
        }
        let digit = value_of_digit(c);
        let next: u128 = acc as u128 * 10 + digit as u128;
        if next > limit as u128 {
            proof {
                let upto = run.subrange(0, i - from + 1);
                assert(upto.drop_last() == run.subrange(0, i - from));
                assert(upto.last() == c);
                assert(digits_value(upto) == acc * 10 + digit);
                digits_value_grows(run, i - from + 1);
            }
            return None;
        }
        proof {
            let upto = run.subrange(0, i - from + 1);
            assert(upto.drop_last() == run.subrange(0, i - from));
            assert(upto.last() == c);
        }
        acc = next as u64;
        i += 1;
    }
    assert(run.subrange(0, to - from) == run);
    Some(acc)
}

/// Whether every character of `v[from..to]` is a digit.
pub fn only_digits(v: &Vec<char>, from: usize, to: usize) -> (b: bool)
    requires
        from <= to <= v.len(),
    ensures
        b == all_digits(v@.subrange(from as int, to as int)),
{
    let ghost run = v@.subrange(from as int, to as int);
    let mut i: usize = from;
    while i < to
        invariant
            from <= i <= to <= v.len(),
            run == v@.subrange(from as int, to as int),
            forall|k: int| 0 <= k < i - from ==> is_digit(#[trigger] run[k]),
        decreases to - i,
    {
        if !is_ascii_digit(v[i]) {
            assert(!is_digit(run[i - from]));
            return false;
        }
        i += 1;
    }
    true
}

/// The hundredths that the digits `v[from..]` after a decimal point give.
pub fn read_hundredths(v: &Vec<char>, from: usize) -> (r: u64)
    requires
        from <= v.len(),
        all_digits(v@.subrange(from as int, v.len() as int)),
    ensures
        r == rounded_hundredths(v@.subrange(from as int, v.len() as int)),
        r <= 100,
{
    let ghost frac = v@.subrange(from as int, v.len() as int);
    let count: usize = v.len() - from;
    assert(forall|k: int| 0 <= k < count ==> is_digit(#[trigger] frac[k]) && frac[k] == v@[from + k]);
    let tenths: u64 = if count > 0 {
        assert(is_digit(frac[0]));
        value_of_digit(v[from])
    } else {
        0
    };
    let hundredths: u64 = if count > 1 {
        assert(is_digit(frac[1]));
        value_of_digit(v[from + 1])
    } else {
        0
    };
    let third: u64 = if count > 2 {
        assert(is_digit(frac[2]));
        value_of_digit(v[from + 2])
    } else {
        0
    };
    tenths * 10 + hundredths + if third >= 5 {
        1
    } else {
        0
    }
}

} // verus!
