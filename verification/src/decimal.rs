//! Decimal numerals: the text of a natural number, and the number that a
//! text denotes.

use vstd::prelude::*;

verus! {

/// The character that stands for the digit `d`.
pub open spec fn digit_char(d: nat) -> char
    recommends
        d < 10,
{
    if d == 0 {
        '0'
    } else if d == 1 {
        '1'
    } else if d == 2 {
        '2'
    } else if d == 3 {
        '3'
    } else if d == 4 {
        '4'
    } else if d == 5 {
        '5'
    } else if d == 6 {
        '6'
    } else if d == 7 {
        '7'
    } else if d == 8 {
        '8'
    } else {
        '9'
    }
}

/// The digit that `c` stands for; `0` where `c` is no digit.
pub open spec fn digit_value(c: char) -> nat {
    if c == '1' {
        1
    } else if c == '2' {
        2
    } else if c == '3' {
        3
    } else if c == '4' {
        4
    } else if c == '5' {
        5
    } else if c == '6' {
        6
    } else if c == '7' {
        7
    } else if c == '8' {
        8
    } else if c == '9' {
        9
    } else {
        0
    }
}

/// Whether `c` is one of the ten decimal digits.
pub open spec fn is_digit(c: char) -> bool {
    c == digit_char(digit_value(c))
}

/// The shortest decimal numeral of `n`: no sign, no leading zero but for `0` itself.
pub open spec fn numeral(n: nat) -> Seq<char>
    decreases n,
{
    if n < 10 {
        seq![digit_char(n)]
    } else {
        numeral(n / 10).push(digit_char(n % 10))
    }
}

/// The one-character text of a digit.
fn digit_text(d: u64) -> (r: &'static str)
    requires
        d < 10,
    ensures
        r@ == seq![digit_char(d as nat)],
{
    proof {
        reveal_strlit("0");
        reveal_strlit("1");
        reveal_strlit("2");
        reveal_strlit("3");
        reveal_strlit("4");
        reveal_strlit("5");
        reveal_strlit("6");
        reveal_strlit("7");
        reveal_strlit("8");
        reveal_strlit("9");
    }
    let r = if d == 0 {
        "0"
    } else if d == 1 {
        "1"
    } else if d == 2 {
        "2"
    } else if d == 3 {
        "3"
    } else if d == 4 {
        "4"
    } else if d == 5 {
        "5"
    } else if d == 6 {
        "6"
    } else if d == 7 {
        "7"
    } else if d == 8 {
        "8"
    } else {
        "9"
    };
    assert(r@ =~= seq![digit_char(d as nat)]);
    r
}

/// Writes `n` as its shortest decimal numeral.
pub fn uint_text(n: u64) -> (r: String)
    ensures
        r@ == numeral(n as nat),
    decreases n,
{
    if n < 10 {
        digit_text(n).to_owned()
    } else {
        let mut text = uint_text(n / 10);
        text.append(digit_text(n % 10));
        text
    }
}

/// Why a text is no numeral of the kind asked for.
#[derive(Clone, Copy, Debug, PartialEq, Eq, Structural)]
pub enum ParseFailure {
    /// The text is empty.
    Empty,
    /// A character is no digit where one must stand, or a sign stands alone.
    InvalidDigit,
    /// The number is above the largest one allowed.
    PosOverflow,
    /// The number is below the smallest one allowed.
    NegOverflow,
}

impl ParseFailure {
    /// The text that the failure is reported with.
    pub open spec fn text(self) -> Seq<char> {
        match self {
            ParseFailure::Empty => "cannot parse integer from empty string"@,
            ParseFailure::InvalidDigit => "invalid digit found in string"@,
            ParseFailure::PosOverflow => "number too large to fit in target type"@,
            ParseFailure::NegOverflow => "number too small to fit in target type"@,
        }
    }

    /// Writes the failure for a reader.
    pub fn message(&self) -> (r: String)
        ensures
            r@ == self.text(),
    {
        match self {
            ParseFailure::Empty => "cannot parse integer from empty string".to_owned(),
            ParseFailure::InvalidDigit => "invalid digit found in string".to_owned(),
            ParseFailure::PosOverflow => "number too large to fit in target type".to_owned(),
            ParseFailure::NegOverflow => "number too small to fit in target type".to_owned(),
        }
    }
}

/// Whether every character of `s` is a decimal digit.
pub open spec fn all_digits(s: Seq<char>) -> bool {
    forall|i: int| 0 <= i < s.len() ==> is_digit(#[trigger] s[i])
}

/// The number that a run of digits denotes, its most significant digit first.
pub open spec fn digits_value(s: Seq<char>) -> nat
    decreases s.len(),
{
    if s.len() == 0 {
        0
    } else {
        digits_value(s.drop_last()) * 10 + digit_value(s.last())
    }
}

/// The digits that `s` starts with, up to its first character that is none.
pub open spec fn leading_digits(s: Seq<char>) -> Seq<char>
    decreases s.len(),
{
    if s.len() > 0 && is_digit(s[0]) {
        seq![s[0]] + leading_digits(s.drop_first())
    } else {
        Seq::empty()
    }
}

/// The number that `digits` denotes where it is at most `bound`. Reading
/// goes from left to right and the first obstacle decides: a number that
/// has grown above `bound` before any other character is met is too large,
/// whatever follows.
pub open spec fn magnitude(digits: Seq<char>, bound: nat) -> Result<nat, ParseFailure> {
    let lead = leading_digits(digits);
    if digits.len() == 0 {
        Err(ParseFailure::InvalidDigit)
    } else if digits_value(lead) > bound {
        Err(ParseFailure::PosOverflow)
    } else if lead.len() < digits.len() {
        Err(ParseFailure::InvalidDigit)
    } else {
        Ok(digits_value(lead))
    }
}

/// The digits of an unsigned numeral: the text without one leading plus sign.
pub open spec fn unsigned_digits(s: Seq<char>) -> Seq<char> {
    if s.len() > 0 && s[0] == '+' {
        s.skip(1)
    } else {
        s
    }
}

/// The number that `s` denotes as an unsigned decimal numeral of at most
/// `max`: an optional plus sign, then one digit or more, and nothing else.
/// Leading zeros are accepted; a minus sign is no digit.
pub open spec fn unsigned_value(s: Seq<char>, max: nat) -> Result<nat, ParseFailure> {
    if s.len() == 0 {
        Err(ParseFailure::Empty)
    } else {
        magnitude(unsigned_digits(s), max)
    }
}

/// The number that `s` denotes as a signed decimal numeral between `min`
/// and `max`: an optional plus or minus sign, then one digit or more, and
/// nothing else.
pub open spec fn signed_value(s: Seq<char>, min: int, max: int) -> Result<int, ParseFailure>
    recommends
        min <= 0 <= max,
{
    if s.len() == 0 {
        Err(ParseFailure::Empty)
    } else if s[0] == '-' {
        match magnitude(s.skip(1), (-min) as nat) {
            Ok(m) => Ok(-(m as int)),
            Err(ParseFailure::PosOverflow) => Err(ParseFailure::NegOverflow),
            Err(e) => Err(e),
        }
    } else {
        match magnitude(unsigned_digits(s), max as nat) {
            Ok(m) => Ok(m as int),
            Err(e) => Err(e),
        }
    }
}

/// The text of the failure that `parse_uint` reports.
pub open spec fn invalid_number_message() -> Seq<char> {
    "Invalid input. Please enter a valid number."@
}

/// A run of digits denotes at least what any of its prefixes denotes.
pub proof fn lemma_digits_value_grows(s: Seq<char>, k: int)
    requires
        0 <= k <= s.len(),
    ensures
        digits_value(s.take(k)) <= digits_value(s),
    decreases s.len(),
{
    if k == s.len() {
        assert(s.take(k) =~= s);
    } else {
        lemma_digits_value_grows(s.drop_last(), k);
        assert(s.drop_last().take(k) =~= s.take(k));
    }
}

/// Where the first `k` characters of `s` are digits, its leading digits
/// start with them; they are exactly those where `s` ends there or goes on
/// with another character.
pub proof fn lemma_leading_digits_prefix(s: Seq<char>, k: int)
    requires
        0 <= k <= s.len(),
        all_digits(s.take(k)),
    ensures
        leading_digits(s).len() >= k,
        leading_digits(s).take(k) == s.take(k),
        k == s.len() || !is_digit(s[k]) ==> leading_digits(s) == s.take(k),
    decreases k,
{
    if k == 0 {
        assert(leading_digits(s).take(0) =~= s.take(0));
        if s.len() > 0 && !is_digit(s[0]) {
            assert(leading_digits(s) =~= s.take(0));
        }
    } else {
        let rest = s.drop_first();
        assert(is_digit(s.take(k)[0]));
        assert forall|i: int| 0 <= i < k - 1 implies is_digit(#[trigger] rest.take(k - 1)[i]) by {
            assert(rest.take(k - 1)[i] == s.take(k)[i + 1]);
        }
        lemma_leading_digits_prefix(rest, k - 1);
        assert(leading_digits(s).take(k) =~= seq![s[0]] + leading_digits(rest).take(k - 1));
        assert(s.take(k) =~= seq![s[0]] + rest.take(k - 1));
        if k == s.len() || !is_digit(s[k]) {
            assert(k < s.len() ==> rest[k - 1] == s[k]);
            assert(leading_digits(s) =~= s.take(k));
        }
    }
}

/// The digit that `c` stands for, if it is one.
fn digit_of(c: char) -> (r: Option<u64>)
    ensures
        is_digit(c) ==> r == Some(digit_value(c) as u64),
        !is_digit(c) ==> r is None,
{
    if c == '0' {
        Some(0)
    } else if c == '1' {
        Some(1)
    } else if c == '2' {
        Some(2)
    } else if c == '3' {
        Some(3)
    } else if c == '4' {
        Some(4)
    } else if c == '5' {
        Some(5)
    } else if c == '6' {
        Some(6)
    } else if c == '7' {
        Some(7)
    } else if c == '8' {
        Some(8)
    } else if c == '9' {
        Some(9)
    } else {
        None
    }
}

/// Reads what follows the first `start` characters of `input` as a run of
/// digits that denotes at most `bound`.
fn read_magnitude(input: &str, start: usize, bound: u64) -> (r: Result<u64, ParseFailure>)
    requires
        start <= input@.len(),
    ensures
        match magnitude(input@.skip(start as int), bound as nat) {
            Ok(m) => r == Ok::<u64, ParseFailure>(m as u64),
            Err(e) => r == Err::<u64, ParseFailure>(e),
        },
{
    let len = input.unicode_len();
    if start == len {
        return Err(ParseFailure::InvalidDigit);
    }
    let ghost digits = input@.skip(start as int);
    let mut value: u64 = 0;
    let mut i: usize = start;
    assert(digits.take(0) =~= Seq::<char>::empty());
    while i < len
        invariant
            start <= i <= len,
            start < len,
            len == input@.len(),
            digits == input@.skip(start as int),
            all_digits(digits.take(i - start)),
            value == digits_value(digits.take(i - start)),
            value <= bound,
        decreases len - i,
    {
        let c = input.get_char(i);
        let ghost seen = digits.take(i + 1 - start);
        proof {
            assert(seen.drop_last() =~= digits.take(i - start));
            assert(digits[i - start] == c);
        }
        match digit_of(c) {
            None => {
                proof {
                    lemma_leading_digits_prefix(digits, i - start);
                }
                return Err(ParseFailure::InvalidDigit);
            },
            Some(d) => {
                assert(all_digits(seen)) by {
                    assert forall|j: int| 0 <= j < seen.len() implies is_digit(
                        #[trigger] seen[j],
                    ) by {
                        if j < i - start {
                            assert(seen[j] == digits.take(i - start)[j]);
                        }
                    }
                }
                if value > bound / 10 || d > bound - value * 10 {
                    proof {
                        assert(digits_value(seen) > bound);
                        lemma_leading_digits_prefix(digits, i + 1 - start);
                        lemma_digits_value_grows(leading_digits(digits), i + 1 - start);
                    }
                    return Err(ParseFailure::PosOverflow);
                }
                value = value * 10 + d;
            },
        }
        i += 1;
    }
    proof {
        assert(digits.take(len - start) =~= digits);
        lemma_leading_digits_prefix(digits, len - start);
    }
    Ok(value)
}

/// Reads `input` as an unsigned decimal numeral of at most `max`.
pub fn parse_unsigned(input: &str, max: u64) -> (r: Result<u64, ParseFailure>)
    ensures
        match unsigned_value(input@, max as nat) {
            Ok(v) => r == Ok::<u64, ParseFailure>(v as u64),
            Err(e) => r == Err::<u64, ParseFailure>(e),
        },
{
    let len = input.unicode_len();
    if len == 0 {
        return Err(ParseFailure::Empty);
    }
    if input.get_char(0) == '+' {
        read_magnitude(input, 1, max)
    } else {
        assert(input@.skip(0) =~= input@);
        read_magnitude(input, 0, max)
    }
}

/// Reads `input` as a signed decimal numeral between `min` and `max`.
pub fn parse_signed(input: &str, min: i64, max: i64) -> (r: Result<i64, ParseFailure>)
    requires
        min <= 0 <= max,
    ensures
        match signed_value(input@, min as int, max as int) {
            Ok(v) => r == Ok::<i64, ParseFailure>(v as i64),
            Err(e) => r == Err::<i64, ParseFailure>(e),
        },
{
    let len = input.unicode_len();
    if len == 0 {
        return Err(ParseFailure::Empty);
    }
    let first = input.get_char(0);
    if first == '-' {
        let bound: u64 = if min == i64::MIN {
            0x8000_0000_0000_0000
        } else {
            (-min) as u64
        };
        match read_magnitude(input, 1, bound) {
            Ok(m) => if m == 0x8000_0000_0000_0000 {
                Ok(i64::MIN)
            } else {
                Ok(-(m as i64))
            },
            Err(ParseFailure::PosOverflow) => Err(ParseFailure::NegOverflow),
            Err(e) => Err(e),
        }
    } else {
        let from: usize = if first == '+' {
            1
        } else {
            0
        };
        assert(input@.skip(0) =~= input@);
        match read_magnitude(input, from, max as u64) {
            Ok(m) => Ok(m as i64),
            Err(e) => Err(e),
        }
    }
}

/// Reads `input` as an unsigned 32-bit number in decimal.
pub fn parse_uint(input: &str) -> (r: Result<u32, String>)
    ensures
        match unsigned_value(input@, u32::MAX as nat) {
            Ok(v) => r matches Ok(n) && n == v,
            Err(_) => r matches Err(m) && m@ == invalid_number_message(),
        },
{
    match parse_unsigned(input, 0xffff_ffff) {
        Ok(v) => Ok(v as u32),
        Err(_) => Err("Invalid input. Please enter a valid number.".to_owned()),
    }
}

/// The shortest numeral of a number is a non-empty run of digits, without a
/// sign, that denotes it.
pub proof fn lemma_numeral_is_digits(n: nat)
    ensures
        numeral(n).len() > 0,
        all_digits(numeral(n)),
        numeral(n)[0] != '+',
        numeral(n)[0] != '-',
        digits_value(numeral(n)) == n,
    decreases n,
{
    let text = numeral(n);
    if n < 10 {
        assert(text.drop_last() =~= Seq::<char>::empty());
        assert(digits_value(text.drop_last()) == 0);
        assert(digit_value(text.last()) == n);
    } else {
        lemma_numeral_is_digits(n / 10);
        assert(text.drop_last() =~= numeral(n / 10));
        assert(digit_value(text.last()) == n % 10);
        assert(text[0] == numeral(n / 10)[0]);
    }
}

/// Reading back the shortest numeral of a number gives that number, as an
/// unsigned numeral and as a signed one.
pub proof fn lemma_numeral_reads_back(n: nat, min: int, max: nat)
    requires
        min <= 0,
        n <= max,
    ensures
        unsigned_value(numeral(n), max) == Ok::<nat, ParseFailure>(n),
        signed_value(numeral(n), min, max as int) == Ok::<int, ParseFailure>(n as int),
{
    let text = numeral(n);
    lemma_numeral_is_digits(n);
    assert(text.take(text.len() as int) =~= text);
    lemma_leading_digits_prefix(text, text.len() as int);
}

} // verus!
