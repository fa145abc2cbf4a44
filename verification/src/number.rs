//! Unsigned decimal numbers as text: reading one component of a version, and writing it.

use crate::text::chars_of;
use vstd::prelude::*;

verus! {

/// Why a piece of text is not an unsigned 32-bit decimal number.
#[derive(Clone, Copy, Debug, PartialEq, Eq, Structural)]
pub enum NumberError {
    /// The text is empty.
    Empty,
    /// A character that is not a decimal digit stands where a digit is needed; a sign with
    /// nothing after it counts as one, and so does any `-`.
    InvalidDigit,
    /// The digits denote a number above `u32::MAX`.
    Overflow,
}

impl NumberError {
    /// The fault in words.
    pub open spec fn text(self) -> Seq<char> {
        match self {
            NumberError::Empty => "cannot parse integer from empty string"@,
            NumberError::InvalidDigit => "invalid digit found in string"@,
            NumberError::Overflow => "number too large to fit in target type"@,
        }
    }

    /// The fault in words.
    pub fn message(&self) -> (message: String)
        ensures
            message@ == self.text(),
    {
        match self {
            NumberError::Empty => "cannot parse integer from empty string".to_owned(),
            NumberError::InvalidDigit => "invalid digit found in string".to_owned(),
            NumberError::Overflow => "number too large to fit in target type".to_owned(),
        }
    }
}

/// `c` is one of `0` to `9`.
pub open spec fn is_digit(c: char) -> bool {
    '0' as u32 <= c as u32 <= '9' as u32
}

/// The number that the digit `c` stands for.
pub open spec fn digit_value(c: char) -> nat
    recommends
        is_digit(c),
{
    (c as u32 - '0' as u32) as nat
}

/// The character that writes `d`, for `d` below ten.
pub open spec fn digit_char(d: nat) -> char
    recommends
        d < 10,
{
    ('0' as u32 + d) as char
}

/// Every character of `s` is a decimal digit.
pub open spec fn all_digits(s: Seq<char>) -> bool {
    forall|i: int| 0 <= i < s.len() ==> is_digit(#[trigger] s[i])
}

/// The number that the digits of `s` denote in base ten, most significant digit first.
pub open spec fn decimal_value(s: Seq<char>) -> nat
    decreases s.len(),
{
    if s.len() == 0 {
        0
    } else {
        10 * decimal_value(s.drop_last()) + digit_value(s.last())
    }
}

/// How many decimal digits `s` starts with.
pub open spec fn digit_run(s: Seq<char>) -> nat
    decreases s.len(),
{
    if s.len() == 0 || !is_digit(s[0]) {
        0
    } else {
        1 + digit_run(s.drop_first())
    }
}

/// `s` without a leading `+`, if it has one.
pub open spec fn unsigned_part(s: Seq<char>) -> Seq<char> {
    if s.len() > 0 && s[0] == '+' {
        s.skip(1)
    } else {
        s
    }
}

/// What `s` is as an unsigned 32-bit decimal number.
///
/// A number is an optional `+` and then one digit or more, denoting at most `u32::MAX`.
/// Of the two faults that text after the sign can have, the one that a reader going left to
/// right meets first is reported: `Overflow` when the leading digits alone already denote too
/// much, `InvalidDigit` otherwise.
pub open spec fn number_spec(s: Seq<char>) -> Result<u32, NumberError> {
    let body = unsigned_part(s);
    let lead = body.take(digit_run(body) as int);
    if s.len() == 0 {
        Err(NumberError::Empty)
    } else if decimal_value(lead) > u32::MAX {
        Err(NumberError::Overflow)
    } else if body.len() == 0 || lead.len() < body.len() {
        Err(NumberError::InvalidDigit)
    } else {
        Ok(decimal_value(body) as u32)
    }
}

/// The shortest decimal writing of `n`.
pub open spec fn decimal(n: nat) -> Seq<char>
    decreases n,
{
    if n < 10 {
        seq![digit_char(n)]
    } else {
        decimal(n / 10).push(digit_char(n % 10))
    }
}

/// The leading digits of `s` are digits, and what follows them, if anything, is not.
pub proof fn lemma_digit_run_bounds(s: Seq<char>)
    ensures
        digit_run(s) <= s.len(),
        all_digits(s.take(digit_run(s) as int)),
        digit_run(s) < s.len() ==> !is_digit(s[digit_run(s) as int]),
    decreases s.len(),
{
    if s.len() == 0 || !is_digit(s[0]) {
    } else {
        let rest = s.drop_first();
        lemma_digit_run_bounds(rest);
        let k = digit_run(s) as int;
        assert forall|i: int| 0 <= i < k implies is_digit(#[trigger] s.take(k)[i]) by {
            if i > 0 {
                assert(s.take(k)[i] == rest.take(k - 1)[i - 1]);
            }
        }
    }
}

/// A run of `k` digits that ends at the end of `s` or before a character that is no digit
/// is the whole of the leading digits.
pub proof fn lemma_digit_run_unique(s: Seq<char>, k: int)
    requires
        0 <= k <= s.len(),
        all_digits(s.take(k)),
        k < s.len() ==> !is_digit(s[k]),
    ensures
        digit_run(s) == k,
    decreases s.len(),
{
    if k == 0 {
    } else {
        assert(s.take(k)[0] == s[0]);
        let rest = s.drop_first();
        assert forall|i: int| 0 <= i < k - 1 implies is_digit(#[trigger] rest.take(k - 1)[i]) by {
            assert(rest.take(k - 1)[i] == s.take(k)[i + 1]);
        }
        lemma_digit_run_unique(rest, k - 1);
    }
}

/// Reading more digits never gives a smaller number.
pub proof fn lemma_decimal_value_prefix(s: Seq<char>, j: int, k: int)
    requires
        0 <= j <= k <= s.len(),
    ensures
        decimal_value(s.take(j)) <= decimal_value(s.take(k)),
    decreases k - j,
{
    if j < k {
        lemma_decimal_value_prefix(s, j, k - 1);
        assert(s.take(k).drop_last() == s.take(k - 1));
    }
}

/// Reads `segment` as an unsigned 32-bit decimal number.
pub fn parse_number(segment: &str) -> (r: Result<u32, NumberError>)
    ensures
        r == number_spec(segment@),
{
    let chars = chars_of(segment);
    let n = chars.len();
    if n == 0 {
        return Err(NumberError::Empty);
    }
    let start: usize = if chars[0] == '+' {
        1
    } else {
        0
    };
    let ghost body = unsigned_part(segment@);
    assert(body == chars@.skip(start as int));
    let zero: u32 = '0' as u32;
    let nine: u32 = '9' as u32;
    let mut value: u32 = 0;
    let mut i: usize = start;
    while i < n
        invariant
            start <= i <= n,
            zero == '0' as u32,
            nine == '9' as u32,
            n == chars@.len(),
            segment@.len() > 0,
            body == unsigned_part(segment@),
            body == chars@.skip(start as int),
            all_digits(body.take(i - start)),
            value == decimal_value(body.take(i - start)),
        decreases n - i,
    {
        let c = chars[i];
        let code: u32 = c as u32;
        let ghost k = i - start;
        assert(body[k] == c);
        assert(body.take(k + 1).drop_last() == body.take(k));
        assert(body.take(k + 1).last() == c);
        if code < zero || code > nine {
            proof {
                lemma_digit_run_unique(body, k);
            }
            return Err(NumberError::InvalidDigit);
        }
        let digit: u32 = code - zero;
        assert(digit == digit_value(c));
        assert(all_digits(body.take(k + 1))) by {
            assert forall|j: int| 0 <= j < k + 1 implies is_digit(#[trigger] body.take(k + 1)[j]) by {
                if j < k {
                    assert(body.take(k + 1)[j] == body.take(k)[j]);
                }
            }
        }
        let grown = match value.checked_mul(10) {
            Some(tens) => tens.checked_add(digit),
            None => None,
        };
        if grown.is_none() {
            proof {
                lemma_digit_run_bounds(body);
                let run = digit_run(body) as int;
                if run < k + 1 {
                    assert(body.take(k + 1)[run] == body[run]);
                }
                lemma_decimal_value_prefix(body.take(run), k + 1, run);
                assert(body.take(run).take(k + 1) == body.take(k + 1));
                assert(body.take(run).take(run) == body.take(run));
            }
            return Err(NumberError::Overflow);
        }
        value = grown.unwrap();
        i = i + 1;
    }
    proof {
        assert(body.take(n - start) == body);
        lemma_digit_run_unique(body, n - start);
    }
    if start == n {
        Err(NumberError::InvalidDigit)
    } else {
        Ok(value)
    }
}

/// The one-character text that writes the digit `d`.
fn digit_text(d: u32) -> (text: &'static str)
    requires
        d < 10,
    ensures
        text@ == seq![digit_char(d as nat)],
{
    proof {
        reveal_strlit("0");
        reveal_strlit("1");
        reveal_strlit("2");
        reveal_strlit("3");
        reveal_strlit("4");
        reveal_strlit("5");
        reveal_strlit("6");
        reveal_strlit("7");
        reveal_strlit("8");
        reveal_strlit("9");
    }
    let text = match d {
        0 => "0",
        1 => "1",
        2 => "2",
        3 => "3",
        4 => "4",
        5 => "5",
        6 => "6",
        7 => "7",
        8 => "8",
        _ => "9",
    };
    assert(text@ =~= seq![digit_char(d as nat)]);
    text
}

/// Appends the shortest decimal writing of `n` to `out`.
pub fn write_number(n: u32, out: &mut String)
    ensures
        final(out)@ == old(out)@ + decimal(n as nat),
    decreases n,
{
    if n >= 10 {
        write_number(n / 10, out);
    }
    out.append(digit_text(n % 10));
}

/// The shortest decimal writing of `n`, which reads back as `n`.
pub fn format_number(n: u32) -> (text: String)
    ensures
        text@ == decimal(n as nat),
        number_spec(text@) == Ok::<u32, NumberError>(n),
{
    let mut text = String::new();
    write_number(n, &mut text);
    proof {
        lemma_number_round_trip(n);
    }
    text
}

/// The writing of a number consists of digits, at least one, and denotes that number.
pub proof fn lemma_decimal_denotes(n: nat)
    ensures
        decimal(n).len() >= 1,
        all_digits(decimal(n)),
        decimal_value(decimal(n)) == n,
    decreases n,
{
    let s = decimal(n);
    assert(digit_value(digit_char(n % 10)) == n % 10);
    assert(s.last() == digit_char(n % 10));
    if n < 10 {
        assert(s.drop_last() == Seq::<char>::empty());
        assert(decimal_value(s.drop_last()) == 0);
    } else {
        lemma_decimal_denotes(n / 10);
        assert(s.drop_last() == decimal(n / 10));
    }
}

/// Reading what was written gives the number back.
pub proof fn lemma_number_round_trip(n: u32)
    ensures
        number_spec(decimal(n as nat)) == Ok::<u32, NumberError>(n),
{
    let s = decimal(n as nat);
    lemma_decimal_denotes(n as nat);
    assert(is_digit(s[0]));
    assert(s.take(s.len() as int) == s);
    lemma_digit_run_unique(s, s.len() as int);
}

/// A text is a number exactly when it is one digit or more, with or without a `+` in
/// front, and denotes at most `u32::MAX`; the number is the one that the digits denote.
/// So an empty text is none, nor is one with a `-`, a space or a letter in it.
pub proof fn lemma_number_accepts(s: Seq<char>)
    ensures
        number_spec(s) is Ok <==> unsigned_part(s).len() >= 1 && all_digits(unsigned_part(s))
            && decimal_value(unsigned_part(s)) <= u32::MAX,
        number_spec(s) is Ok ==> number_spec(s) == Ok::<u32, NumberError>(
            decimal_value(unsigned_part(s)) as u32,
        ),
        s.len() > 0 && s[0] == '-' ==> number_spec(s) == Err::<u32, NumberError>(
            NumberError::InvalidDigit,
        ),
{
    let body = unsigned_part(s);
    lemma_digit_run_bounds(body);
    if body.len() >= 1 && all_digits(body) {
        assert(body.take(body.len() as int) == body);
        lemma_digit_run_unique(body, body.len() as int);
    }
    if digit_run(body) == body.len() {
        assert(body.take(body.len() as int) == body);
    }
    if s.len() > 0 && s[0] == '-' {
        assert(!is_digit(s[0]));
        assert(decimal_value(body.take(0)) == 0);
    }
}

} // verus!
