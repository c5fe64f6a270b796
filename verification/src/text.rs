//! Small tools for text: comparing, searching, trimming, and numbers in decimal.

use vstd::prelude::*;
use vstd::string::*;

verus! {

/// True when `a` and `b` hold the same characters.
pub fn str_eq(a: &str, b: &str) -> (equal: bool)
    ensures
        equal == (a@ == b@),
{
    let n = a.unicode_len();
    if n != b.unicode_len() {
        return false;
    }
    let mut i: usize = 0;
    while i < n
        invariant
            i <= n,
            n == a@.len(),
            n == b@.len(),
            forall|j: int| 0 <= j < i ==> a@[j] == b@[j],
        decreases n - i,
    {
        if a.get_char(i) != b.get_char(i) {
            return false;
        }
        i += 1;
    }
    assert(a@ =~= b@);
    true
}

/// The position of the first `c` in `s` at or behind `from`; the length of `s` where there
/// is none.
pub open spec fn index_from(s: Seq<char>, c: char, from: int) -> int
    decreases s.len() - from,
{
    if from < 0 || from >= s.len() {
        s.len() as int
    } else if s[from] == c {
        from
    } else {
        index_from(s, c, from + 1)
    }
}

/// The position of the first `c` in `s`; the length of `s` where there is none.
pub open spec fn index_of(s: Seq<char>, c: char) -> int {
    index_from(s, c, 0)
}

/// The first `c` is found within the text, or not at all.
pub proof fn lemma_index_from(s: Seq<char>, c: char, from: int)
    requires
        0 <= from <= s.len(),
    ensures
        from <= index_from(s, c, from) <= s.len(),
        index_from(s, c, from) < s.len() ==> s[index_from(s, c, from)] == c,
        forall|j: int| from <= j < index_from(s, c, from) ==> s[j] != c,
    decreases s.len() - from,
{
    if from < s.len() && s[from] != c {
        lemma_index_from(s, c, from + 1);
    }
}

/// The position of the first `c` in `s`; the length of `s` where there is none.
pub fn find_char(s: &str, c: char) -> (position: usize)
    ensures
        position == index_of(s@, c),
        position <= s@.len(),
{
    let n = s.unicode_len();
    let mut i: usize = 0;
    while i < n
        invariant
            i <= n,
            n == s@.len(),
            index_of(s@, c) == index_from(s@, c, i as int),
        decreases n - i,
    {
        if s.get_char(i) == c {
            return i;
        }
        i += 1;
    }
    n
}

/// The text before the first `c` and the text behind it, where `s` holds a `c`.
pub open spec fn split_once(s: Seq<char>, c: char) -> Option<(Seq<char>, Seq<char>)> {
    let i = index_of(s, c);
    if i < s.len() {
        Some((s.subrange(0, i), s.subrange(i + 1, s.len() as int)))
    } else {
        None
    }
}

/// The text before the first `c` and the text behind it, where `s` holds a `c`.
pub fn split_text_once(s: &str, c: char) -> (halves: Option<(&str, &str)>)
    ensures
        halves is Some <==> split_once(s@, c) is Some,
        halves matches Some((before, behind)) ==> split_once(s@, c) == Some((before@, behind@)),
{
    let n = s.unicode_len();
    let i = find_char(s, c);
    if i < n {
        Some((s.substring_char(0, i), s.substring_char(i + 1, n)))
    } else {
        None
    }
}

/// True for the characters that count as white space: those with the Unicode property
/// `White_Space`.
pub open spec fn is_white_space(c: char) -> bool {
    let code = c as u32;
    ||| 0x09 <= code <= 0x0d
    ||| code == 0x20
    ||| code == 0x85
    ||| code == 0xa0
    ||| code == 0x1680
    ||| 0x2000 <= code <= 0x200a
    ||| code == 0x2028
    ||| code == 0x2029
    ||| code == 0x202f
    ||| code == 0x205f
    ||| code == 0x3000
}

/// True when `c` counts as white space.
pub fn white_space(c: char) -> (white: bool)
    ensures
        white == is_white_space(c),
{
    let code = c as u32;
    (0x09 <= code && code <= 0x0d) || code == 0x20 || code == 0x85 || code == 0xa0 || code
        == 0x1680 || (0x2000 <= code && code <= 0x200a) || code == 0x2028 || code == 0x2029
        || code == 0x202f || code == 0x205f || code == 0x3000
}

/// The position of the first character of `s` at or behind `from` that is not white space;
/// the length of `s` where there is none.
pub open spec fn text_start(s: Seq<char>, from: int) -> int
    decreases s.len() - from,
{
    if 0 <= from < s.len() && is_white_space(s[from]) {
        text_start(s, from + 1)
    } else {
        from
    }
}

/// The position behind the last character of `s` before `end` and not before `start` that
/// is not white space; `start` where there is none.
pub open spec fn text_end(s: Seq<char>, start: int, end: int) -> int
    decreases end - start,
{
    if start < end <= s.len() && is_white_space(s[end - 1]) {
        text_end(s, start, end - 1)
    } else {
        end
    }
}

/// `s` without the white space at its start and at its end.
pub open spec fn trim(s: Seq<char>) -> Seq<char> {
    let start = text_start(s, 0);
    s.subrange(start, text_end(s, start, s.len() as int))
}

/// `s` without the white space at its start and at its end.
pub fn trim_text(s: &str) -> (trimmed: &str)
    ensures
        trimmed@ == trim(s@),
{
    let n = s.unicode_len();
    let mut start: usize = 0;
    while start < n && white_space(s.get_char(start))
        invariant
            start <= n,
            n == s@.len(),
            text_start(s@, 0) == text_start(s@, start as int),
        decreases n - start,
    {
        start += 1;
    }
    let mut end: usize = n;
    while start < end && white_space(s.get_char(end - 1))
        invariant
            start <= end <= n,
            n == s@.len(),
            text_end(s@, start as int, n as int) == text_end(s@, start as int, end as int),
        decreases end - start,
    {
        end -= 1;
    }
    s.substring_char(start, end)
}

/// The character that stands for the digit `digit`.
pub open spec fn digit_char(digit: int) -> char {
    if digit == 0 {
        '0'
    } else if digit == 1 {
        '1'
    } else if digit == 2 {
        '2'
    } else if digit == 3 {
        '3'
    } else if digit == 4 {
        '4'
    } else if digit == 5 {
        '5'
    } else if digit == 6 {
        '6'
    } else if digit == 7 {
        '7'
    } else if digit == 8 {
        '8'
    } else {
        '9'
    }
}

/// The number `n` in decimal, without leading zeros.
pub open spec fn decimal(n: nat) -> Seq<char>
    decreases n,
{
    if n < 10 {
        seq![digit_char(n as int)]
    } else {
        decimal(n / 10).push(digit_char((n % 10) as int))
    }
}

/// The text of one decimal digit.
fn digit_text(digit: u64) -> (text: &'static str)
    requires
        digit < 10,
    ensures
        text@ == seq![digit_char(digit as int)],
{
    proof {
        reveal_strlit("0");
        reveal_strlit("1");
        reveal_strlit("2");
        reveal_strlit("3");
        reveal_strlit("4");
        reveal_strlit("5");
        reveal_strlit("6");
        reveal_strlit("7");
        reveal_strlit("8");
        reveal_strlit("9");
    }
    let text = if digit == 0 {
        "0"
    } else if digit == 1 {
        "1"
    } else if digit == 2 {
        "2"
    } else if digit == 3 {
        "3"
    } else if digit == 4 {
        "4"
    } else if digit == 5 {
        "5"
    } else if digit == 6 {
        "6"
    } else if digit == 7 {
        "7"
    } else if digit == 8 {
        "8"
    } else {
        "9"
    };
    assert(text@ =~= seq![digit_char(digit as int)]);
    text
}

/// The number `n` in decimal, without leading zeros.
pub fn decimal_text(n: u64) -> (text: String)
    ensures
        text@ == decimal(n as nat),
    decreases n,
{
    if n < 10 {
        String::from_str(digit_text(n))
    } else {
        let mut text = decimal_text(n / 10);
        text.append(digit_text(n % 10));
        assert(text@ =~= decimal(n as nat));
        text
    }
}

/// The value of the digit `c`, if it is one.
pub open spec fn digit_value(c: char) -> Option<int> {
    if '0' <= c <= '9' {
        Some(c as int - '0' as int)
    } else {
        None
    }
}

/// Why a text is not a number that fits in 32 bits.
#[derive(Debug, Clone, Copy, PartialEq, Eq, Structural)]
pub enum NumberError {
    /// The text is empty.
    Empty,
    /// The text holds something other than digits behind an optional plus sign, or no
    /// digit at all.
    InvalidDigit,
    /// The number is too large.
    TooLarge,
}

impl NumberError {
    /// What is wrong with the text, in words.
    pub open spec fn spec_message(self) -> Seq<char> {
        match self {
            NumberError::Empty => "cannot parse integer from empty string"@,
            NumberError::InvalidDigit => "invalid digit found in string"@,
            NumberError::TooLarge => "number too large to fit in target type"@,
        }
    }

    /// What is wrong with the text, in words.
    pub fn message(&self) -> (text: &'static str)
        ensures
            text@ == self.spec_message(),
    {
        match self {
            NumberError::Empty => "cannot parse integer from empty string",
            NumberError::InvalidDigit => "invalid digit found in string",
            NumberError::TooLarge => "number too large to fit in target type",
        }
    }
}

/// The value of the digits `digits` behind a number that has the value `value` so far.
pub open spec fn digits_value(digits: Seq<char>, value: int) -> Result<int, NumberError>
    decreases digits.len(),
{
    if digits.len() == 0 {
        Ok(value)
    } else {
        match digit_value(digits[0]) {
            None => Err(NumberError::InvalidDigit),
            Some(d) => if value * 10 + d > u32::MAX {
                Err(NumberError::TooLarge)
            } else {
                digits_value(digits.drop_first(), value * 10 + d)
            },
        }
    }
}

/// The number that `text` denotes: digits, as many as one likes, behind an optional plus
/// sign, with a value that fits in 32 bits.
pub open spec fn number(text: Seq<char>) -> Result<int, NumberError> {
    if text.len() == 0 {
        Err(NumberError::Empty)
    } else {
        let digits = if text[0] == '+' {
            text.drop_first()
        } else {
            text
        };
        if digits.len() == 0 {
            Err(NumberError::InvalidDigit)
        } else {
            digits_value(digits, 0)
        }
    }
}

/// What a parsed number holds, as plain values.
pub open spec fn number_view(res: Result<u32, NumberError>) -> Result<int, NumberError> {
    match res {
        Ok(n) => Ok(n as int),
        Err(e) => Err(e),
    }
}

/// The number that `text` denotes.
pub fn parse_number(text: &str) -> (res: Result<u32, NumberError>)
    ensures
        number_view(res) == number(text@),
{
    let n = text.unicode_len();
    if n == 0 {
        return Err(NumberError::Empty);
    }
    let first: usize = if text.get_char(0) == '+' {
        1
    } else {
        0
    };
    if first == n {
        return Err(NumberError::InvalidDigit);
    }
    let ghost digits = text@.subrange(first as int, n as int);
    assert(digits =~= if text@[0] == '+' {
        text@.drop_first()
    } else {
        text@
    });
    let mut value: u32 = 0;
    let mut i: usize = first;
    while i < n
        invariant
            first <= i <= n,
            n == text@.len(),
            digits == text@.subrange(first as int, n as int),
            number(text@) == digits_value(digits, 0),
            digits_value(digits, 0) == digits_value(text@.subrange(i as int, n as int), value as int),
        decreases n - i,
    {
        let c = text.get_char(i);
        let ghost rest = text@.subrange(i as int, n as int);
        assert(rest[0] == c);
        assert(rest.drop_first() =~= text@.subrange(i + 1, n as int));
        if c < '0' || c > '9' {
            return Err(NumberError::InvalidDigit);
        }
        let d: u32 = (c as u32) - ('0' as u32);
        if value > (u32::MAX - d) / 10 {
            assert(value * 10 + d > u32::MAX) by (nonlinear_arith)
                requires
                    value > (u32::MAX - d) / 10,
                    0 <= d <= 9,
            ;
            return Err(NumberError::TooLarge);
        }
        assert(value * 10 + d <= u32::MAX) by (nonlinear_arith)
            requires
                value <= (u32::MAX - d) / 10,
                0 <= d <= 9,
        ;
        value = value * 10 + d;
        i += 1;
    }
    assert(text@.subrange(n as int, n as int).len() == 0);
    Ok(value)
}

} // verus!
