//! The high score: the best score of all sessions, and the text that holds
//! it between them.

use vstd::prelude::*;
use vstd::std_specs::iter::IteratorSpec;
use vstd::string::StringExecFns;

verus! {

/// The magnitude of the least `i32`. No number that an `i32` holds has a
/// greater one.
pub const MAGNITUDE_LIMIT: i64 = 2_147_483_648;

/// Whether `c` is white space: a character with Unicode's property
/// `White_Space`.
pub open spec fn spec_is_whitespace(c: char) -> bool {
    let code = c as u32;
    ||| 0x09 <= code <= 0x0D
    ||| code == 0x20
    ||| code == 0x85
    ||| code == 0xA0
    ||| code == 0x1680
    ||| 0x2000 <= code <= 0x200A
    ||| code == 0x2028
    ||| code == 0x2029
    ||| code == 0x202F
    ||| code == 0x205F
    ||| code == 0x3000
}

/// `text` without the white space at its start.
pub open spec fn trim_start(text: Seq<char>) -> Seq<char>
    decreases text.len(),
{
    if text.len() > 0 && spec_is_whitespace(text[0]) {
        trim_start(text.skip(1))
    } else {
        text
    }
}

/// `text` without the white space at its end.
pub open spec fn trim_end(text: Seq<char>) -> Seq<char>
    decreases text.len(),
{
    if text.len() > 0 && spec_is_whitespace(text.last()) {
        trim_end(text.drop_last())
    } else {
        text
    }
}

/// `text` without the white space at its start and at its end.
pub open spec fn trim(text: Seq<char>) -> Seq<char> {
    trim_end(trim_start(text))
}

/// Whether `c` is one of the digits `0` to `9`.
pub open spec fn is_digit(c: char) -> bool {
    '0' <= c <= '9'
}

/// The number that the digit `c` stands for.
pub open spec fn digit_value(c: char) -> int {
    c as u32 - '0' as u32
}

/// Whether `digits` is one or more digits and nothing else.
pub open spec fn is_decimal(digits: Seq<char>) -> bool {
    &&& digits.len() > 0
    &&& forall|i: int| 0 <= i < digits.len() ==> is_digit(#[trigger] digits[i])
}

/// The number that `digits` writes in base ten.
pub open spec fn decimal_value(digits: Seq<char>) -> int
    decreases digits.len(),
{
    if digits.len() == 0 {
        0
    } else {
        10 * decimal_value(digits.drop_last()) + digit_value(digits.last())
    }
}

/// The integer that `text` writes, if it writes one that an `i32` holds: an
/// optional sign `+` or `-`, then one or more digits, and nothing else.
pub open spec fn parse_integer(text: Seq<char>) -> Option<int> {
    let negative = text.len() > 0 && text[0] == '-';
    let signed = text.len() > 0 && (text[0] == '-' || text[0] == '+');
    let digits = if signed {
        text.skip(1)
    } else {
        text
    };
    let value = if negative {
        -decimal_value(digits)
    } else {
        decimal_value(digits)
    };
    if is_decimal(digits) && i32::MIN <= value <= i32::MAX {
        Some(value)
    } else {
        None
    }
}

/// The high score that `text` holds: the integer written in it, white space
/// around it set aside, or 0 if it holds no such integer.
pub open spec fn high_score_of_text(text: Seq<char>) -> int {
    match parse_integer(trim(text)) {
        Some(value) => value,
        None => 0,
    }
}

/// The digit that stands for `d`, a number from 0 to 9.
pub open spec fn digit_char(d: int) -> char {
    ('0' as u32 + d) as char
}

/// The digits that write `n` in base ten, without leading zeros.
pub open spec fn decimal_digits(n: nat) -> Seq<char>
    decreases n,
{
    if n < 10 {
        seq![digit_char(n as int)]
    } else {
        decimal_digits(n / 10).push(digit_char((n % 10) as int))
    }
}

/// The text that writes `value` in base ten, with a `-` in front if it is
/// negative.
pub open spec fn decimal_text(value: int) -> Seq<char> {
    if value < 0 {
        seq!['-'] + decimal_digits((-value) as nat)
    } else {
        decimal_digits(value as nat)
    }
}

/// A number of several digits is at least the number that its first digits
/// write.
pub proof fn lemma_decimal_value_grows(digits: Seq<char>, k: int)
    requires
        0 <= k <= digits.len(),
        forall|i: int| 0 <= i < digits.len() ==> is_digit(#[trigger] digits[i]),
    ensures
        0 <= decimal_value(digits.take(k)) <= decimal_value(digits),
    decreases digits.len() - k,
{
    if k == digits.len() {
        assert(digits.take(k) =~= digits);
        lemma_decimal_value_not_negative(digits);
    } else {
        lemma_decimal_value_grows(digits, k + 1);
        assert(digits.take(k + 1).drop_last() =~= digits.take(k));
        assert(digits.take(k + 1).last() == digits[k]);
    }
}

/// Digits write a number that is not negative.
pub proof fn lemma_decimal_value_not_negative(digits: Seq<char>)
    requires
        forall|i: int| 0 <= i < digits.len() ==> is_digit(#[trigger] digits[i]),
    ensures
        0 <= decimal_value(digits),
    decreases digits.len(),
{
    if digits.len() > 0 {
        lemma_decimal_value_not_negative(digits.drop_last());
    }
}

/// Whether `c` is white space: a character with Unicode's property
/// `White_Space`.
#[verifier::when_used_as_spec(spec_is_whitespace)]
pub fn is_whitespace(c: char) -> (r: bool)
    ensures
        r == spec_is_whitespace(c),
{
    let code: u32 = c as u32;
    (0x09 <= code && code <= 0x0D) || code == 0x20 || code == 0x85 || code == 0xA0 || code
        == 0x1680 || (0x2000 <= code && code <= 0x200A) || code == 0x2028 || code == 0x2029
        || code == 0x202F || code == 0x205F || code == 0x3000
}

/// The characters of `text`, one by one.
fn chars_of(text: &str) -> (chars: Vec<char>)
    ensures
        chars@ == text@,
{
    let mut chars: Vec<char> = Vec::new();
    let mut rest = text.chars();
    loop
        invariant
            rest.obeys_prophetic_iter_laws(),
            rest.decrease() is Some,
            text@ == chars@ + rest.remaining(),
        decreases rest.decrease()->0,
    {
        match rest.next() {
            Some(c) => {
                chars.push(c);
            },
            None => {
                assert(text@ =~= chars@);
                return chars;
            },
        }
    }
}

/// Where `chars` starts and ends once the white space around it is set
/// aside.
fn trimmed_range(chars: &Vec<char>) -> (range: (usize, usize))
    ensures
        range.0 <= range.1 <= chars.len(),
        chars@.subrange(range.0 as int, range.1 as int) == trim(chars@),
{
    let n = chars.len();
    let mut start: usize = 0;
    assert(chars@.skip(0) =~= chars@);
    while start < n && is_whitespace(chars[start])
        invariant
            n == chars.len(),
            start <= n,
            trim_start(chars@) == trim_start(chars@.skip(start as int)),
        decreases n - start,
    {
        assert(chars@.skip(start as int).skip(1) =~= chars@.skip(start + 1));
        start += 1;
    }
    assert(trim_start(chars@) == chars@.skip(start as int));
    let mut end: usize = n;
    assert(chars@.subrange(start as int, end as int) =~= chars@.skip(start as int));
    while end > start && is_whitespace(chars[end - 1])
        invariant
            n == chars.len(),
            start <= end <= n,
            trim(chars@) == trim_end(chars@.subrange(start as int, end as int)),
        decreases end - start,
    {
        assert(chars@.subrange(start as int, end as int).drop_last() =~= chars@.subrange(
            start as int,
            end - 1,
        ));
        end -= 1;
    }
    (start, end)
}

/// The high score that `contents` holds: the integer written in it, white
/// space around it set aside, or 0 if it holds no integer that an `i32`
/// holds.
pub fn parse_high_score(contents: &str) -> (r: i32)
    ensures
        r == high_score_of_text(contents@),
{
    let chars = chars_of(contents);
    let (start, end) = trimmed_range(&chars);
    let ghost text = chars@.subrange(start as int, end as int);
    if start == end {
        return 0;
    }
    let negative = chars[start] == '-';
    let signed = negative || chars[start] == '+';
    let first: usize = if signed {
        start + 1
    } else {
        start
    };
    let ghost digits = chars@.subrange(first as int, end as int);
    assert(digits =~= if signed {
        text.skip(1)
    } else {
        text
    });
    let mut magnitude: i64 = 0;
    let mut i: usize = first;
    while i < end
        invariant
            first <= i <= end <= chars.len(),
            digits == chars@.subrange(first as int, end as int),
            text == trim(contents@),
            text.len() > 0,
            negative == (text[0] == '-'),
            signed == (text[0] == '-' || text[0] == '+'),
            digits == if signed {
                text.skip(1)
            } else {
                text
            },
            forall|k: int| 0 <= k < i - first ==> is_digit(#[trigger] digits[k]),
            magnitude == decimal_value(digits.take(i - first)),
            0 <= magnitude <= MAGNITUDE_LIMIT,
        decreases end - i,
    {
        let c = chars[i];
        assert(c == digits[i - first]);
        if !(c >= '0' && c <= '9') {
            return 0;
        }
        let digit: i64 = (c as u32 - '0' as u32) as i64;
        assert(digits.take(i - first + 1).drop_last() =~= digits.take(i - first));
        assert(digits.take(i - first + 1).last() == c);
        if 10 * magnitude + digit > MAGNITUDE_LIMIT {
            proof {
                if is_decimal(digits) {
                    lemma_decimal_value_grows(digits, i - first + 1);
                }
            }
            return 0;
        }
        magnitude = 10 * magnitude + digit;
        i += 1;
    }
    assert(digits.take(end - first) =~= digits);
    if first == end {
        return 0;
    }
    let value: i64 = if negative {
        -magnitude
    } else {
        magnitude
    };
    if value > i32::MAX as i64 {
        0
    } else {
        value as i32
    }
}

/// The high score at the start of a session, from what the store holds:
/// `None` stands for a store that does not exist, and gives 0; a text gives
/// the integer written in it, or 0 if it holds none.
pub fn load_high_score(contents: Option<&str>) -> (r: i32)
    ensures
        r == match contents {
            Some(text) => high_score_of_text(text@),
            None => 0,
        },
{
    match contents {
        Some(text) => parse_high_score(text),
        None => 0,
    }
}

/// The text of one digit.
fn digit_text(d: u32) -> (text: &'static str)
    requires
        d < 10,
    ensures
        text@ == seq![digit_char(d as int)],
{
    proof {
        reveal_strlit("0");
        reveal_strlit("1");
        reveal_strlit("2");
        reveal_strlit("3");
        reveal_strlit("4");
        reveal_strlit("5");
        reveal_strlit("6");
        reveal_strlit("7");
        reveal_strlit("8");
        reveal_strlit("9");
    }
    let text = match d {
        0 => "0",
        1 => "1",
        2 => "2",
        3 => "3",
        4 => "4",
        5 => "5",
        6 => "6",
        7 => "7",
        8 => "8",
        _ => "9",
    };
    assert(text@ =~= seq![digit_char(d as int)]);
    text
}

/// Writes `n` in base ten at the end of `text`.
fn append_decimal(text: &mut String, n: u32)
    ensures
        final(text)@ == old(text)@ + decimal_digits(n as nat),
    decreases n,
{
    if n >= 10 {
        append_decimal(text, n / 10);
    }
    text.append(digit_text(n % 10));
    proof {
        if n >= 10 {
            assert(final(text)@ =~= old(text)@ + decimal_digits(n as nat));
        }
    }
}

/// The text that holds `high_score` in the store: the number in base ten,
/// with a `-` in front if it is negative.
pub fn high_score_text(high_score: i32) -> (text: String)
    ensures
        text@ == decimal_text(high_score as int),
{
    let mut text = String::new();
    let magnitude: u32 = if high_score < 0 {
        proof {
            reveal_strlit("-");
        }
        text.append("-");
        assert(text@ =~= seq!['-']);
        (-(high_score as i64)) as u32
    } else {
        high_score as u32
    };
    append_decimal(&mut text, magnitude);
    text
}

/// The high score after a session that ended with `score` points.
pub open spec fn best_of(high_score: int, score: int) -> int {
    if score > high_score {
        score
    } else {
        high_score
    }
}

/// The best score so far. Its value is that number.
#[derive(Clone, Copy, Debug)]
pub struct HighScore {
    value: i32,
}

impl View for HighScore {
    type V = int;

    closed spec fn view(&self) -> int {
        self.value as int
    }
}

impl HighScore {
    /// The high score `value`.
    pub fn new(value: i32) -> (r: HighScore)
        ensures
            r@ == value,
    {
        HighScore { value }
    }

    /// The best score so far.
    pub fn value(&self) -> (r: i32)
        ensures
            r == self@,
    {
        self.value
    }

    /// Takes in the score of a session that has ended. A score above the
    /// high score becomes the high score and is returned, to be stored; any
    /// other leaves it as it is and returns `None`.
    pub fn record(&mut self, score: i32) -> (stored: Option<i32>)
        ensures
            final(self)@ == best_of(old(self)@, score as int),
            final(self)@ >= old(self)@,
            stored == (if score > old(self)@ {
                Some(score)
            } else {
                None
            }),
    {
        if score > self.value {
            self.value = score;
            Some(score)
        } else {
            None
        }
    }
}

/// The digits of a number are digits, and write that number.
pub proof fn lemma_decimal_digits_write_the_number(n: nat)
    ensures
        is_decimal(decimal_digits(n)),
        decimal_value(decimal_digits(n)) == n,
    decreases n,
{
    let last = digit_char((n % 10) as int);
    assert(decimal_digits(n).last() == last);
    assert(is_digit(last) && digit_value(last) == n % 10);
    if n >= 10 {
        lemma_decimal_digits_write_the_number(n / 10);
        assert(decimal_digits(n).drop_last() =~= decimal_digits(n / 10));
    } else {
        assert(decimal_digits(n).drop_last() =~= Seq::<char>::empty());
        assert(decimal_value(Seq::<char>::empty()) == 0);
    }
}

/// What is stored is what is loaded: the text of a high score holds that
/// high score.
pub proof fn lemma_stored_text_round_trip(high_score: i32)
    ensures
        high_score_of_text(decimal_text(high_score as int)) == high_score,
{
    let text = decimal_text(high_score as int);
    let magnitude: nat = if high_score < 0 {
        (-high_score) as nat
    } else {
        high_score as nat
    };
    let digits = decimal_digits(magnitude);
    lemma_decimal_digits_write_the_number(magnitude);
    assert(is_digit(digits[0]));
    assert(is_digit(digits[digits.len() - 1]));
    assert(text.last() == digits.last());
    assert(trim_start(text) == text);
    assert(trim_end(text) == text);
    if high_score < 0 {
        assert(text.skip(1) =~= digits);
    }
}

} // verus!
