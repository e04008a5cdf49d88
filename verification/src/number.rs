//! Whole numbers as decimal text, both ways.

use vstd::prelude::*;

verus! {

/// The character of a decimal digit.
pub open spec fn digit(d: nat) -> char {
    (48 + d) as char
}

/// A number in decimal, without a sign and without leading zeros.
pub open spec fn decimal(n: nat) -> Seq<char>
    decreases n,
{
    if n < 10 {
        seq![digit(n)]
    } else {
        decimal(n / 10).push(digit(n % 10))
    }
}

/// Whether `c` is one of the digits `0` to `9`.
pub open spec fn is_digit(c: char) -> bool {
    '0' <= c <= '9'
}

/// The number that a string of digits spells in decimal.
pub open spec fn decimal_value(digits: Seq<char>) -> nat
    decreases digits.len(),
{
    if digits.len() == 0 {
        0
    } else {
        (decimal_value(digits.drop_last()) * 10 + (digits.last() as nat - 48)) as nat
    }
}

/// The number of digits that `text` starts with from index `from` on.
pub open spec fn digits_len(text: Seq<char>, from: int) -> nat
    decreases text.len() - from,
{
    if from < 0 || from >= text.len() || !is_digit(text[from]) {
        0
    } else {
        1 + digits_len(text, from + 1)
    }
}

/// Why a text is no number.
#[derive(Clone, Copy, Debug, PartialEq, Eq)]
pub enum IntError {
    /// The text is empty.
    Empty,
    /// The text holds something that is no digit, or no digit at all.
    InvalidDigit,
    /// The number is too large for its type.
    PosOverflow,
    /// The number is too small for its type.
    NegOverflow,
}

impl IntError {
    /// The error in words.
    pub open spec fn text(self) -> Seq<char> {
        match self {
            IntError::Empty => "cannot parse integer from empty string"@,
            IntError::InvalidDigit => "invalid digit found in string"@,
            IntError::PosOverflow => "number too large to fit in target type"@,
            IntError::NegOverflow => "number too small to fit in target type"@,
        }
    }

    /// The error in words.
    pub fn message(&self) -> (words: &'static str)
        ensures
            words@ == self.text(),
    {
        match self {
            IntError::Empty => "cannot parse integer from empty string",
            IntError::InvalidDigit => "invalid digit found in string",
            IntError::PosOverflow => "number too large to fit in target type",
            IntError::NegOverflow => "number too small to fit in target type",
        }
    }
}

/// What a text means as a whole number between `-below` and `above`.
///
/// A number is an optional sign and one digit or more, and nothing else.
/// A `-` is a sign only where negative numbers are asked for (`below > 0`).
/// Where the digits run past the range, that is the error, whatever follows
/// them.
pub open spec fn parse_int(text: Seq<char>, below: nat, above: nat) -> Result<int, IntError> {
    if text.len() == 0 {
        Err(IntError::Empty)
    } else {
        let negative = below > 0 && text[0] == '-';
        let signed = text[0] == '+' || negative;
        let start: int = if signed {
            1
        } else {
            0
        };
        let value = decimal_value(text.subrange(start, start + digits_len(text, start)));
        if text.len() == start {
            Err(IntError::InvalidDigit)
        } else if negative && value > below {
            Err(IntError::NegOverflow)
        } else if !negative && value > above {
            Err(IntError::PosOverflow)
        } else if start + digits_len(text, start) < text.len() {
            Err(IntError::InvalidDigit)
        } else if negative {
            Ok(-value)
        } else {
            Ok(value as int)
        }
    }
}

/// What a text means as a `u64`.
pub open spec fn parse_u64_spec(text: Seq<char>) -> Result<u64, IntError> {
    match parse_int(text, 0, u64::MAX as nat) {
        Ok(v) => Ok(v as u64),
        Err(e) => Err(e),
    }
}

/// What a text means as an `i64`.
pub open spec fn parse_i64_spec(text: Seq<char>) -> Result<i64, IntError> {
    match parse_int(text, 0x8000_0000_0000_0000, i64::MAX as nat) {
        Ok(v) => Ok(v as i64),
        Err(e) => Err(e),
    }
}

/// A longer string of digits spells a number that is no smaller.
pub proof fn lemma_decimal_value_grows(digits: Seq<char>, shorter: int)
    requires
        0 <= shorter <= digits.len(),
        forall|i: int| 0 <= i < digits.len() ==> is_digit(digits[i]),
    ensures
        decimal_value(digits.take(shorter)) <= decimal_value(digits),
    decreases digits.len(),
{
    if shorter < digits.len() {
        assert(digits.drop_last().take(shorter) =~= digits.take(shorter));
        lemma_decimal_value_grows(digits.drop_last(), shorter);
    } else {
        assert(digits.take(shorter) =~= digits);
    }
}

/// A number written in decimal spells itself, so different numbers are
/// written differently.
pub proof fn lemma_decimal_round_trip(n: nat)
    ensures
        decimal_value(decimal(n)) == n,
        decimal(n).len() > 0,
    decreases n,
{
    if n < 10 {
        assert(decimal(n).drop_last() =~= Seq::<char>::empty());
        assert(decimal_value(decimal(n).drop_last()) == 0);
    } else {
        lemma_decimal_round_trip(n / 10);
        assert(decimal(n).drop_last() =~= decimal(n / 10));
    }
}

/// The digits of `chars[from..]` read as a number of at most `limit`: the
/// number and the index behind its last digit, or the error.
fn read_digits(chars: &Vec<char>, from: usize, limit: u64) -> (r: Result<u64, IntError>)
    requires
        from <= chars@.len(),
    ensures
        ({
            let len = digits_len(chars@, from as int);
            let value = decimal_value(chars@.subrange(from as int, from + len));
            if from == chars@.len() {
                r == Err::<u64, IntError>(IntError::InvalidDigit)
            } else if value > limit {
                r == Err::<u64, IntError>(IntError::PosOverflow)
            } else if from + len < chars@.len() {
                r == Err::<u64, IntError>(IntError::InvalidDigit)
            } else {
                r == Ok::<u64, IntError>(value as u64)
            }
        }),
{
    let n = chars.len();
    if from == n {
        return Err(IntError::InvalidDigit);
    }
    let ghost len = digits_len(chars@, from as int);
    let ghost all = chars@.subrange(from as int, from + len);
    proof {
        lemma_digits_len(chars@, from as int);
    }
    let mut value: u64 = 0;
    let mut i: usize = from;
    while i < n
        invariant
            from <= i <= n,
            n == chars@.len(),
            len == digits_len(chars@, from as int),
            from + len <= n,
            all == chars@.subrange(from as int, from + len),
            forall|k: int| 0 <= k < all.len() ==> is_digit(#[trigger] all[k]),
            len == (i - from) + digits_len(chars@, i as int),
            forall|k: int| from <= k < i ==> is_digit(#[trigger] chars@[k]),
            value == decimal_value(chars@.subrange(from as int, i as int)),
            value <= limit,
        decreases n - i,
    {
        let c = chars[i];
        let ghost head = chars@.subrange(from as int, i + 1);
        assert(head.drop_last() =~= chars@.subrange(from as int, i as int));
        if !('0' <= c && c <= '9') {
            assert(all =~= chars@.subrange(from as int, i as int));
            return Err(IntError::InvalidDigit);
        }
        let d: u64 = (c as u64) - 48;
        assert(all.take(i + 1 - from) =~= head);
        proof {
            lemma_decimal_value_grows(all, i + 1 - from);
        }
        if value > limit / 10 || d > limit - value * 10 {
            return Err(IntError::PosOverflow);
        }
        value = value * 10 + d;
        i = i + 1;
    }
    assert(all =~= chars@.subrange(from as int, i as int));
    Ok(value)
}

/// The digits that `text` starts with from index `from` on are digits, and
/// they end where the text ends or before.
pub proof fn lemma_digits_len(text: Seq<char>, from: int)
    requires
        0 <= from <= text.len(),
    ensures
        from + digits_len(text, from) <= text.len(),
        forall|k: int| from <= k < from + digits_len(text, from) ==> is_digit(#[trigger] text[k]),
    decreases text.len() - from,
{
    if from < text.len() && is_digit(text[from]) {
        lemma_digits_len(text, from + 1);
    }
}

/// Parse a `u64` from decimal text: an optional `+` and digits.
pub fn parse_u64(text: &Vec<char>) -> (r: Result<u64, IntError>)
    ensures
        r == parse_u64_spec(text@),
{
    if text.len() == 0 {
        return Err(IntError::Empty);
    }
    let start: usize = if text[0] == '+' {
        1
    } else {
        0
    };
    match read_digits(text, start, u64::MAX) {
        Ok(v) => Ok(v),
        Err(e) => Err(e),
    }
}

/// Parse an `i64` from decimal text: an optional `+` or `-` and digits.
pub fn parse_i64(text: &Vec<char>) -> (r: Result<i64, IntError>)
    ensures
        r == parse_i64_spec(text@),
{
    if text.len() == 0 {
        return Err(IntError::Empty);
    }
    if text[0] == '-' {
        match read_digits(text, 1, 0x8000_0000_0000_0000) {
            Ok(v) => {
                if v == 0x8000_0000_0000_0000 {
                    Ok(i64::MIN)
                } else {
                    Ok(-(v as i64))
                }
            },
            Err(IntError::PosOverflow) => Err(IntError::NegOverflow),
            Err(e) => Err(e),
        }
    } else {
        let start: usize = if text[0] == '+' {
            1
        } else {
            0
        };
        match read_digits(text, start, 0x7fff_ffff_ffff_ffff) {
            Ok(v) => Ok(v as i64),
            Err(e) => Err(e),
        }
    }
}

/// Append `n` in decimal to `text`.
pub fn push_decimal(text: &mut String, n: u64)
    ensures
        final(text)@ == old(text)@ + decimal(n as nat),
    decreases n,
{
    if n >= 10 {
        push_decimal(text, n / 10);
    }
    let d: u8 = (n % 10) as u8;
    text.push((48 + d) as char);
    assert(final(text)@ =~= old(text)@ + decimal(n as nat));
}

/// A whole number in decimal, with a `-` in front where it is negative.
pub open spec fn signed_decimal(n: int) -> Seq<char> {
    if n < 0 {
        seq!['-'] + decimal((-n) as nat)
    } else {
        decimal(n as nat)
    }
}

/// Append `n` in decimal to `text`, with its sign where it is negative.
pub fn push_signed(text: &mut String, n: i64)
    ensures
        final(text)@ == old(text)@ + signed_decimal(n as int),
{
    if n < 0 {
        text.push('-');
        let magnitude: u64 = (-(n as i128)) as u64;
        push_decimal(text, magnitude);
    } else {
        push_decimal(text, n as u64);
    }
    assert(final(text)@ =~= old(text)@ + signed_decimal(n as int));
}

/// Append `n` in decimal to `text`, with a `0` in front where it has one
/// digit only.
pub fn push_two_digits(text: &mut String, n: u64)
    ensures
        final(text)@ == old(text)@ + two_digits(n as nat),
{
    if n < 10 {
        text.push('0');
    }
    push_decimal(text, n);
    assert(final(text)@ =~= old(text)@ + two_digits(n as nat));
}

/// A number in decimal, at least two digits wide.
pub open spec fn two_digits(n: nat) -> Seq<char> {
    if n < 10 {
        seq!['0'] + decimal(n)
    } else {
        decimal(n)
    }
}

} // verus!
