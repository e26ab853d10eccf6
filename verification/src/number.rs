//! Decimal integers as text.

use vstd::prelude::*;
use vstd::string::*;

use crate::text;

verus! {

/// Why a text is not an integer of the wanted range.
#[derive(Debug, Clone, Copy, PartialEq, Eq, Structural)]
pub enum NumberError {
    /// There is no text.
    Empty,
    /// A character stands where a digit is wanted.
    InvalidDigit,
    /// The integer is above the range.
    PosOverflow,
    /// The integer is below the range.
    NegOverflow,
}

/// The value of the decimal digit `c`.
pub open spec fn digit_value(c: char) -> Option<int> {
    if '0' <= c <= '9' {
        Some(c as int - '0' as int)
    } else {
        None
    }
}

/// What the digits `s` count up to (down to, where `negative`), read from the left.
/// The first character that is no digit, or that takes the number out of
/// `lo..=hi`, decides the error.
pub open spec fn digits_number(s: Seq<char>, negative: bool, lo: int, hi: int) -> Result<
    int,
    NumberError,
>
    decreases s.len(),
{
    if s.len() == 0 {
        Ok(0)
    } else {
        match digits_number(s.drop_last(), negative, lo, hi) {
            Err(e) => Err(e),
            Ok(n) => match digit_value(s.last()) {
                None => Err(NumberError::InvalidDigit),
                Some(d) => {
                    let next = if negative {
                        10 * n - d
                    } else {
                        10 * n + d
                    };
                    if next > hi {
                        Err(NumberError::PosOverflow)
                    } else if next < lo {
                        Err(NumberError::NegOverflow)
                    } else {
                        Ok(next)
                    }
                },
            },
        }
    }
}

/// The integer of `lo..=hi` that `s` stands for: digits after an optional sign,
/// where a minus sign is one only if the range holds negative numbers.
pub open spec fn number(s: Seq<char>, lo: int, hi: int) -> Result<int, NumberError> {
    if s.len() == 0 {
        Err(NumberError::Empty)
    } else if s.len() == 1 && (s[0] == '+' || s[0] == '-') {
        Err(NumberError::InvalidDigit)
    } else if s[0] == '+' {
        digits_number(s.skip(1), false, lo, hi)
    } else if s[0] == '-' && lo < 0 {
        digits_number(s.skip(1), true, lo, hi)
    } else {
        digits_number(s, false, lo, hi)
    }
}

proof fn lemma_digits_error_stays(s: Seq<char>, k: int, negative: bool, lo: int, hi: int)
    requires
        0 <= k <= s.len(),
        digits_number(s.take(k), negative, lo, hi) is Err,
    ensures
        digits_number(s, negative, lo, hi) == digits_number(s.take(k), negative, lo, hi),
    decreases s.len() - k,
{
    if k < s.len() {
        assert(s.take(k + 1).drop_last() =~= s.take(k));
        lemma_digits_error_stays(s, k + 1, negative, lo, hi);
    } else {
        assert(s.take(k) =~= s);
    }
}

fn read_digits(chars: &Vec<char>, from: usize, negative: bool, lo: i64, hi: i64) -> (r: Result<
    i64,
    NumberError,
>)
    requires
        from <= chars.len(),
        -0x1_0000_0000 <= lo <= 0 <= hi <= 0x1_0000_0000,
    ensures
        match r {
            Ok(n) => digits_number(chars@.skip(from as int), negative, lo as int, hi as int)
                == Ok::<int, NumberError>(n as int),
            Err(e) => digits_number(chars@.skip(from as int), negative, lo as int, hi as int)
                == Err::<int, NumberError>(e),
        },
{
    let ghost s = chars@.skip(from as int);
    let mut n: i64 = 0;
    let mut i: usize = from;
    assert(s.take(0) =~= Seq::<char>::empty());
    while i < chars.len()
        invariant
            from <= i <= chars.len(),
            s == chars@.skip(from as int),
            -0x1_0000_0000 <= lo <= 0 <= hi <= 0x1_0000_0000,
            lo <= n <= hi,
            digits_number(s.take(i - from), negative, lo as int, hi as int) == Ok::<
                int,
                NumberError,
            >(n as int),
        decreases chars.len() - i,
    {
        let c = chars[i];
        proof {
            assert(s.take(i - from + 1).drop_last() =~= s.take(i - from));
            assert(s.take(i - from + 1).last() == c);
            if digits_number(s.take(i - from + 1), negative, lo as int, hi as int) is Err {
                lemma_digits_error_stays(s, i - from + 1, negative, lo as int, hi as int);
            }
        }
        if !('0' <= c && c <= '9') {
            return Err(NumberError::InvalidDigit);
        }
        let d: i64 = (c as u32 - '0' as u32) as i64;
        let next: i64 = if negative {
            10 * n - d
        } else {
            10 * n + d
        };
        if next > hi {
            return Err(NumberError::PosOverflow);
        }
        if next < lo {
            return Err(NumberError::NegOverflow);
        }
        n = next;
        i += 1;
    }
    assert(s.take(i - from) =~= s);
    Ok(n)
}

fn read_number(s: &str, lo: i64, hi: i64) -> (r: Result<i64, NumberError>)
    requires
        -0x1_0000_0000 <= lo <= 0 <= hi <= 0x1_0000_0000,
    ensures
        match r {
            Ok(n) => number(s@, lo as int, hi as int) == Ok::<int, NumberError>(n as int),
            Err(e) => number(s@, lo as int, hi as int) == Err::<int, NumberError>(e),
        },
{
    let chars = text::chars_of(s);
    if chars.len() == 0 {
        return Err(NumberError::Empty);
    }
    let first = chars[0];
    if chars.len() == 1 && (first == '+' || first == '-') {
        return Err(NumberError::InvalidDigit);
    }
    if first == '+' {
        read_digits(&chars, 1, false, lo, hi)
    } else if first == '-' && lo < 0 {
        read_digits(&chars, 1, true, lo, hi)
    } else {
        assert(chars@.skip(0) =~= chars@);
        read_digits(&chars, 0, false, lo, hi)
    }
}

proof fn lemma_number_in_range(s: Seq<char>, negative: bool, lo: int, hi: int)
    requires
        lo <= 0 <= hi,
    ensures
        digits_number(s, negative, lo, hi) matches Ok(n) ==> lo <= n <= hi,
    decreases s.len(),
{
    if s.len() > 0 {
        lemma_number_in_range(s.drop_last(), negative, lo, hi);
    }
}

/// Reads an `i32`, as `str::parse` does.
pub fn parse_i32(s: &str) -> (r: Result<i32, NumberError>)
    ensures
        match r {
            Ok(n) => number(s@, i32::MIN as int, i32::MAX as int) == Ok::<int, NumberError>(
                n as int,
            ),
            Err(e) => number(s@, i32::MIN as int, i32::MAX as int) == Err::<int, NumberError>(e),
        },
{
    match read_number(s, i32::MIN as i64, i32::MAX as i64) {
        Ok(n) => {
            proof {
                lemma_number_in_range(s@, false, i32::MIN as int, i32::MAX as int);
                lemma_number_in_range(s@.skip(1), false, i32::MIN as int, i32::MAX as int);
                lemma_number_in_range(s@.skip(1), true, i32::MIN as int, i32::MAX as int);
            }
            Ok(n as i32)
        },
        Err(e) => Err(e),
    }
}

/// Reads a `u32`, as `str::parse` does.
pub fn parse_u32(s: &str) -> (r: Result<u32, NumberError>)
    ensures
        match r {
            Ok(n) => number(s@, 0, u32::MAX as int) == Ok::<int, NumberError>(n as int),
            Err(e) => number(s@, 0, u32::MAX as int) == Err::<int, NumberError>(e),
        },
{
    match read_number(s, 0, u32::MAX as i64) {
        Ok(n) => {
            proof {
                lemma_number_in_range(s@, false, 0, u32::MAX as int);
                lemma_number_in_range(s@.skip(1), false, 0, u32::MAX as int);
            }
            Ok(n as u32)
        },
        Err(e) => Err(e),
    }
}

impl NumberError {
    /// What is wrong, in words.
    pub open spec fn text(self) -> Seq<char> {
        match self {
            NumberError::Empty => "cannot parse integer from empty string"@,
            NumberError::InvalidDigit => "invalid digit found in string"@,
            NumberError::PosOverflow => "number too large to fit in target type"@,
            NumberError::NegOverflow => "number too small to fit in target type"@,
        }
    }

    /// Says what is wrong.
    pub fn message(&self) -> (r: String)
        ensures
            r@ == self.text(),
    {
        match self {
            NumberError::Empty => "cannot parse integer from empty string".to_owned(),
            NumberError::InvalidDigit => "invalid digit found in string".to_owned(),
            NumberError::PosOverflow => "number too large to fit in target type".to_owned(),
            NumberError::NegOverflow => "number too small to fit in target type".to_owned(),
        }
    }
}

proof fn lemma_decimal_digits(n: nat, negative: bool, lo: int, hi: int)
    requires
        lo <= 0 <= hi,
        negative ==> lo <= -n,
        !negative ==> n <= hi,
    ensures
        digits_number(text::decimal(n), negative, lo, hi) == Ok::<int, NumberError>(
            if negative {
                -n
            } else {
                n as int
            },
        ),
        text::decimal(n).len() > 0,
        '0' <= text::decimal(n)[0] <= '9',
    decreases n,
{
    let s = text::decimal(n);
    if n < 10 {
        assert(s.drop_last() =~= Seq::<char>::empty());
        assert(digits_number(s.drop_last(), negative, lo, hi) == Ok::<int, NumberError>(0));
        assert(digit_value(s.last()) == Some(n as int));
    } else {
        lemma_decimal_digits(n / 10, negative, lo, hi);
        assert(s.drop_last() =~= text::decimal(n / 10));
        assert(digit_value(s.last()) == Some((n % 10) as int));
    }
}

/// A number that is printed in decimal reads back as itself.
pub proof fn printed_number_reads_back(n: int, lo: int, hi: int)
    requires
        lo <= 0 <= hi,
        lo <= n <= hi,
    ensures
        number(text::signed_decimal(n), lo, hi) == Ok::<int, NumberError>(n),
{
    let s = text::signed_decimal(n);
    if n < 0 {
        lemma_decimal_digits((-n) as nat, true, lo, hi);
        assert(s.skip(1) =~= text::decimal((-n) as nat));
    } else {
        lemma_decimal_digits(n as nat, false, lo, hi);
    }
}

proof fn lemma_decimal_is_word(n: nat)
    ensures
        text::is_word(text::decimal(n)),
    decreases n,
{
    if n >= 10 {
        lemma_decimal_is_word(n / 10);
    }
}

/// A printed number holds no white space.
pub proof fn lemma_signed_decimal_is_word(n: int)
    ensures
        text::is_word(text::signed_decimal(n)),
{
    if n < 0 {
        lemma_decimal_is_word((-n) as nat);
    } else {
        lemma_decimal_is_word(n as nat);
    }
}

/// Whether all characters are decimal digits.
pub open spec fn all_digits(s: Seq<char>) -> bool {
    forall|i: int| 0 <= i < s.len() ==> '0' <= #[trigger] s[i] <= '9'
}

/// What digits stand for by their places: the first for so many of the highest power of
/// ten.
pub open spec fn place_value(s: Seq<char>) -> int
    decreases s.len(),
{
    if s.len() == 0 {
        0
    } else {
        (s[0] as int - '0' as int) * vstd::arithmetic::power::pow(10, (s.len() - 1) as nat)
            + place_value(s.drop_first())
    }
}

proof fn lemma_place_value_of_front(s: Seq<char>)
    requires
        s.len() > 0,
        all_digits(s),
    ensures
        place_value(s) == 10 * place_value(s.drop_last()) + (s.last() as int - '0' as int),
        place_value(s.drop_last()) >= 0,
    decreases s.len(),
{
    if s.len() == 1 {
        vstd::arithmetic::power::lemma_pow0(10);
        assert(s.drop_first() =~= Seq::<char>::empty());
        assert(place_value(s.drop_first()) == 0);
        assert(place_value(s.drop_last()) == 0);
    } else {
        let rest = s.drop_first();
        let d = s[0] as int - '0' as int;
        assert forall|i: int| 0 <= i < rest.len() implies '0' <= #[trigger] rest[i] <= '9' by {
            assert(rest[i] == s[i + 1]);
        }
        lemma_place_value_of_front(rest);
        let front = s.drop_last();
        assert(front.drop_first() =~= rest.drop_last());
        assert(front[0] == s[0]);
        let p = vstd::arithmetic::power::pow(10, (s.len() - 2) as nat);
        vstd::arithmetic::power::lemma_pow_positive(10, (s.len() - 2) as nat);
        assert(vstd::arithmetic::power::pow(10, (s.len() - 1) as nat) == 10 * p) by {
            reveal(vstd::arithmetic::power::pow);
        }
        assert(d * (10 * p) == 10 * (d * p)) by (nonlinear_arith);
        assert(d * p >= 0) by (nonlinear_arith)
            requires
                d >= 0,
                p > 0,
        ;
    }
}

/// What comes of digits that stand for `n`: the number with its sign, unless it is out
/// of the range.
pub open spec fn in_range(n: int, negative: bool, lo: int, hi: int) -> Result<int, NumberError> {
    if negative {
        if -n < lo {
            Err(NumberError::NegOverflow)
        } else {
            Ok(-n)
        }
    } else if n > hi {
        Err(NumberError::PosOverflow)
    } else {
        Ok(n)
    }
}

proof fn lemma_digits_by_place(s: Seq<char>, negative: bool, lo: int, hi: int)
    requires
        lo <= 0 <= hi,
        all_digits(s),
    ensures
        place_value(s) >= 0,
        digits_number(s, negative, lo, hi) == in_range(place_value(s), negative, lo, hi),
    decreases s.len(),
{
    if s.len() > 0 {
        let front = s.drop_last();
        assert forall|i: int| 0 <= i < front.len() implies '0' <= #[trigger] front[i] <= '9' by {
            assert(front[i] == s[i]);
        }
        lemma_digits_by_place(front, negative, lo, hi);
        lemma_place_value_of_front(s);
        assert('0' <= s[s.len() - 1] <= '9');
    }
}

/// A text is a number where, after a sign that is followed by something, there are digits
/// and nothing else, and what they stand for by their places is in the range. A minus sign
/// is one only where the range holds negative numbers. What is wrong is told by the first
/// character that is wrong: one that is no digit, or a digit that leaves the range.
pub proof fn number_is_what_the_digits_say(s: Seq<char>, lo: int, hi: int)
    requires
        lo <= 0 <= hi,
    ensures
        number(s, lo, hi) == Err::<int, NumberError>(NumberError::Empty) <==> s.len() == 0,
        s.len() > 0 ==> {
            let negative = s.len() > 1 && s[0] == '-' && lo < 0;
            let digits = if negative || s.len() > 1 && s[0] == '+' {
                s.skip(1)
            } else {
                s
            };
            &&& all_digits(digits) ==> number(s, lo, hi) == in_range(
                place_value(digits),
                negative,
                lo,
                hi,
            )
            &&& forall|k: int|
                0 <= k < digits.len() && all_digits(#[trigger] digits.take(k)) && !('0' <= digits[k]
                    <= '9') ==> number(s, lo, hi) == (match in_range(
                    place_value(digits.take(k)),
                    negative,
                    lo,
                    hi,
                ) {
                    Ok(_) => Err(NumberError::InvalidDigit),
                    Err(e) => Err::<int, NumberError>(e),
                })
        },
{
    if s.len() > 0 {
        let negative = s.len() > 1 && s[0] == '-' && lo < 0;
        let digits = if negative || s.len() > 1 && s[0] == '+' {
            s.skip(1)
        } else {
            s
        };
        if all_digits(digits) {
            lemma_digits_by_place(digits, negative, lo, hi);
            if s.len() == 1 {
                assert('0' <= digits[0] <= '9');
            }
        }
        assert forall|k: int|
            0 <= k < digits.len() && all_digits(#[trigger] digits.take(k)) && !('0' <= digits[k]
                <= '9') implies number(s, lo, hi) == (match in_range(
            place_value(digits.take(k)),
            negative,
            lo,
            hi,
        ) {
            Ok(_) => Err(NumberError::InvalidDigit),
            Err(e) => Err::<int, NumberError>(e),
        }) by {
            lemma_digits_by_place(digits.take(k), negative, lo, hi);
            let more = digits.take(k + 1);
            assert(more.drop_last() =~= digits.take(k));
            assert(more.last() == digits[k]);
            assert(digit_value(digits[k]) is None);
            assert(digits_number(more, negative, lo, hi) is Err);
            lemma_digits_error_stays(digits, k + 1, negative, lo, hi);
        }
        lemma_no_digits_are_empty(digits, negative, lo, hi);
    }
}

proof fn lemma_no_digits_are_empty(s: Seq<char>, negative: bool, lo: int, hi: int)
    ensures
        digits_number(s, negative, lo, hi) != Err::<int, NumberError>(NumberError::Empty),
    decreases s.len(),
{
    if s.len() > 0 {
        lemma_no_digits_are_empty(s.drop_last(), negative, lo, hi);
    }
}

/// A number that is read is one of the range.
pub proof fn lemma_numbers_are_in_range(s: Seq<char>, lo: int, hi: int)
    requires
        lo <= 0 <= hi,
    ensures
        number(s, lo, hi) matches Ok(n) ==> lo <= n <= hi,
{
    lemma_number_in_range(s, false, lo, hi);
    lemma_number_in_range(s.skip(1), false, lo, hi);
    lemma_number_in_range(s.skip(1), true, lo, hi);
}

/// Each way in which a text can fail to be a number has its words.
pub proof fn number_errors_have_their_words()
    ensures
        NumberError::Empty.text() == "cannot parse integer from empty string"@,
        NumberError::InvalidDigit.text() == "invalid digit found in string"@,
        NumberError::PosOverflow.text() == "number too large to fit in target type"@,
        NumberError::NegOverflow.text() == "number too small to fit in target type"@,
{
}

} // verus!
