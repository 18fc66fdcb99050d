//! Small tools for text: comparing, scanning, and reading and writing
//! whole numbers in decimal.

use vstd::prelude::*;
use vstd::std_specs::iter::IteratorSpec;
use vstd::string::{StringExecFns, StringSliceAdditionalSpecFns};
use vstd::utf8::encode_utf8_decode_utf8;

verus! {

/// Whether two texts are the same, character for character.
pub fn same_text(a: &str, b: &str) -> (same: bool)
    ensures
        same == (a@ == b@),
{
    let x = a.as_bytes();
    let y = b.as_bytes();
    if x.len() != y.len() {
        return false;
    }
    let mut i: usize = 0;
    while i < x.len()
        invariant
            i <= x.len(),
            x.len() == y.len(),
            x@ == a.spec_bytes(),
            y@ == b.spec_bytes(),
            forall|j: int| 0 <= j < i ==> x@[j] == y@[j],
        decreases x.len() - i,
    {
        if x[i] != y[i] {
            return false;
        }
        i = i + 1;
    }
    proof {
        assert(x@ =~= y@);
        encode_utf8_decode_utf8(a@);
        encode_utf8_decode_utf8(b@);
    }
    true
}

/// The characters of a text, one by one.
pub fn chars_of(text: &str) -> (chars: Vec<char>)
    ensures
        chars@ == text@,
{
    broadcast use vstd::string::group_string_axioms;

    let count = text.unicode_len();
    let mut rest = text.chars();
    let mut chars: Vec<char> = Vec::new();
    assert(chars@ + rest.remaining() =~= text@);
    while chars.len() < count
        invariant
            chars@ + rest.remaining() == text@,
            rest.obeys_prophetic_iter_laws(),
            count == text@.len(),
        decreases count - chars.len(),
    {
        let ghost before = rest.remaining();
        let ghost seen = chars@;
        match rest.next() {
            Some(c) => {
                chars.push(c);
                assert(chars@ + rest.remaining() =~= seen + before);
            },
            None => {},
        }
    }
    assert(chars@ =~= text@);
    chars
}

/// Whether a character is white space: a space, one of the controls from
/// tab to carriage return, or one of the other characters that Unicode
/// gives the property `White_Space`.
pub open spec fn is_space(c: char) -> bool {
    let code = c as u32;
    ||| code == 0x20
    ||| 0x09 <= code <= 0x0d
    ||| code == 0x85
    ||| code == 0xa0
    ||| code == 0x1680
    ||| 0x2000 <= code <= 0x200a
    ||| code == 0x2028
    ||| code == 0x2029
    ||| code == 0x202f
    ||| code == 0x205f
    ||| code == 0x3000
}

/// Whether a character is white space.
pub fn char_is_space(c: char) -> (space: bool)
    ensures
        space == is_space(c),
{
    let code = c as u32;
    code == 0x20 || (0x09 <= code && code <= 0x0d) || code == 0x85 || code == 0xa0 || code
        == 0x1680 || (0x2000 <= code && code <= 0x200a) || code == 0x2028 || code == 0x2029 || code
        == 0x202f || code == 0x205f || code == 0x3000
}

/// A kind of character that a scan runs over.
#[derive(Clone, Copy, PartialEq, Eq, Structural, Debug)]
pub enum Run {
    /// White space.
    Spaces,
    /// Anything but white space.
    Word,
    /// Anything but the given character.
    Until(char),
    /// Anything but the two given characters.
    UntilEither(char, char),
}

impl Run {
    /// Whether the run goes on over `c`.
    pub open spec fn holds(self, c: char) -> bool {
        match self {
            Run::Spaces => is_space(c),
            Run::Word => !is_space(c),
            Run::Until(stop) => c != stop,
            Run::UntilEither(one, other) => c != one && c != other,
        }
    }

    /// Whether the run goes on over `c`.
    pub fn covers(&self, c: char) -> (yes: bool)
        ensures
            yes == self.holds(c),
    {
        match self {
            Run::Spaces => char_is_space(c),
            Run::Word => !char_is_space(c),
            Run::Until(stop) => c != *stop,
            Run::UntilEither(one, other) => c != *one && c != *other,
        }
    }
}

/// The length of the longest run of the given kind with which `text` begins.
pub open spec fn span(text: Seq<char>, run: Run) -> nat
    decreases text.len(),
{
    if text.len() > 0 && run.holds(text[0]) {
        1 + span(text.drop_first(), run)
    } else {
        0
    }
}

/// The length of the longest run of the given kind with which `text` ends.
pub open spec fn span_back(text: Seq<char>, run: Run) -> nat
    decreases text.len(),
{
    if text.len() > 0 && run.holds(text.last()) {
        1 + span_back(text.drop_last(), run)
    } else {
        0
    }
}

/// `text` without the white space at its two ends.
pub open spec fn trimmed(text: Seq<char>) -> Seq<char> {
    let start = span(text, Run::Spaces);
    let rest = text.skip(start as int);
    rest.take(rest.len() - span_back(rest, Run::Spaces))
}

/// Where the run that begins at `from` ends.
pub(crate) fn scan(chars: &Vec<char>, from: usize, to: usize, run: Run) -> (end: usize)
    requires
        from <= to <= chars.len(),
    ensures
        from <= end <= to,
        end == from + span(chars@.subrange(from as int, to as int), run),
{
    let mut end = from;
    while end < to && run.covers(chars[end])
        invariant
            from <= end <= to <= chars.len(),
            span(chars@.subrange(from as int, to as int), run) == (end - from) + span(
                chars@.subrange(end as int, to as int),
                run,
            ),
        decreases to - end,
    {
        assert(chars@.subrange(end as int, to as int).drop_first() =~= chars@.subrange(
            end + 1,
            to as int,
        ));
        end = end + 1;
    }
    end
}

/// Where the run that ends at `to` begins.
pub(crate) fn scan_back(chars: &Vec<char>, from: usize, to: usize, run: Run) -> (start: usize)
    requires
        from <= to <= chars.len(),
    ensures
        from <= start <= to,
        start == to - span_back(chars@.subrange(from as int, to as int), run),
{
    let mut start = to;
    while start > from && run.covers(chars[start - 1])
        invariant
            from <= start <= to <= chars.len(),
            span_back(chars@.subrange(from as int, to as int), run) == (to - start) + span_back(
                chars@.subrange(from as int, start as int),
                run,
            ),
        decreases start - from,
    {
        assert(chars@.subrange(from as int, start as int).drop_last() =~= chars@.subrange(
            from as int,
            start - 1,
        ));
        start = start - 1;
    }
    start
}

/// The ten digits.
pub open spec fn digit_char(digit: nat) -> char {
    seq!['0', '1', '2', '3', '4', '5', '6', '7', '8', '9'][digit as int]
}

/// A whole number written in decimal, without leading zeros.
pub open spec fn decimal(n: nat) -> Seq<char>
    decreases n,
{
    if n < 10 {
        seq![digit_char(n)]
    } else {
        decimal(n / 10).push(digit_char(n % 10))
    }
}

pub(crate) fn digit_text(digit: u8) -> (text: &'static str)
    requires
        digit < 10,
    ensures
        text@ == seq![digit_char(digit as nat)],
{
    proof {
        reveal_strlit("0");
        reveal_strlit("1");
        reveal_strlit("2");
        reveal_strlit("3");
        reveal_strlit("4");
        reveal_strlit("5");
        reveal_strlit("6");
        reveal_strlit("7");
        reveal_strlit("8");
        reveal_strlit("9");
    }
    let text = match digit {
        0 => "0",
        1 => "1",
        2 => "2",
        3 => "3",
        4 => "4",
        5 => "5",
        6 => "6",
        7 => "7",
        8 => "8",
        _ => "9",
    };
    assert(text@ =~= seq![digit_char(digit as nat)]);
    text
}

/// Writes a whole number in decimal.
pub fn render_decimal(n: u128) -> (text: String)
    ensures
        text@ == decimal(n as nat),
    decreases n,
{
    if n < 10 {
        String::from_str(digit_text(n as u8))
    } else {
        let mut text = render_decimal(n / 10);
        text.append(digit_text((n % 10) as u8));
        text
    }
}

/// The value of a decimal digit; `None` for any other character.
pub open spec fn digit_value(c: char) -> Option<nat> {
    let code = c as u32;
    if 0x30 <= code <= 0x39 {
        Some((code - 0x30) as nat)
    } else {
        None
    }
}

/// Whether `text` consists of decimal digits only.
pub open spec fn all_digits(text: Seq<char>) -> bool {
    forall|i: int| 0 <= i < text.len() ==> digit_value(#[trigger] text[i]) is Some
}

/// The number that a text of decimal digits denotes.
pub open spec fn digits_value(text: Seq<char>) -> nat
    decreases text.len(),
{
    if text.len() == 0 {
        0
    } else {
        digits_value(text.drop_last()) * 10 + match digit_value(text.last()) {
            Some(d) => d,
            None => 0,
        }
    }
}

/// The number below 2^64 that `text` denotes: an optional plus sign, then
/// one decimal digit or more. `None` for any other text, and for a number
/// that does not fit.
pub open spec fn u64_of(text: Seq<char>) -> Option<u64> {
    let digits = if text.len() > 0 && text[0] == '+' {
        text.drop_first()
    } else {
        text
    };
    if digits.len() > 0 && all_digits(digits) && digits_value(digits) <= u64::MAX {
        Some(digits_value(digits) as u64)
    } else {
        None
    }
}

/// More digits never denote less.
proof fn lemma_digits_grow(text: Seq<char>, shorter: int)
    requires
        0 <= shorter <= text.len(),
    ensures
        digits_value(text.take(shorter)) <= digits_value(text),
    decreases text.len() - shorter,
{
    if shorter < text.len() {
        lemma_digits_grow(text, shorter + 1);
        assert(text.take(shorter + 1).drop_last() =~= text.take(shorter));
    } else {
        assert(text.take(shorter) =~= text);
    }
}

/// The number that a text of decimal digits denotes, if it is such a text
/// and the number fits in 128 bits. The empty text denotes 0.
pub open spec fn natural_of(text: Seq<char>) -> Option<u128> {
    if all_digits(text) && digits_value(text) <= u128::MAX {
        Some(digits_value(text) as u128)
    } else {
        None
    }
}

/// Reads the decimal digits from `from` up to `to`.
pub(crate) fn read_digits(chars: &Vec<char>, from: usize, to: usize) -> (number: Option<u128>)
    requires
        from <= to <= chars.len(),
    ensures
        number == natural_of(chars@.subrange(from as int, to as int)),
{
    let ghost digits = chars@.subrange(from as int, to as int);
    let mut value: u128 = 0;
    let mut i = from;
    assert(digits.take(0) =~= Seq::<char>::empty());
    while i < to
        invariant
            from <= i <= to <= chars.len(),
            digits == chars@.subrange(from as int, to as int),
            all_digits(digits.take(i - from)),
            value == digits_value(digits.take(i - from)),
        decreases to - i,
    {
        let code = chars[i] as u32;
        let ghost seen = digits.take(i - from);
        let ghost more = digits.take(i - from + 1);
        assert(more.drop_last() =~= seen);
        assert(more.last() == chars@[i as int]);
        if !(0x30 <= code && code <= 0x39) {
            assert(digit_value(digits[i - from]) is None);
            return None;
        }
        let digit = (code - 0x30) as u128;
        proof {
            lemma_digits_grow(digits, i - from + 1);
            assert(digit_value(more.last()) == Some(digit as nat));
            assert(digits_value(more) == value * 10 + digit);
        }
        let tens = match value.checked_mul(10) {
            Some(tens) => tens,
            None => {
                return None;
            },
        };
        value = match tens.checked_add(digit) {
            Some(sum) => sum,
            None => {
                return None;
            },
        };
        assert(all_digits(more)) by {
            assert forall|j: int| 0 <= j < more.len() implies digit_value(#[trigger] more[j])
                is Some by {
                if j < seen.len() {
                    assert(more[j] == seen[j]);
                }
            }
        }
        i = i + 1;
    }
    assert(digits.take(to - from) =~= digits);
    Some(value)
}

/// Reads the number that the characters from `from` up to `to` denote.
pub(crate) fn read_u64(chars: &Vec<char>, from: usize, to: usize) -> (number: Option<u64>)
    requires
        from <= to <= chars.len(),
    ensures
        number == u64_of(chars@.subrange(from as int, to as int)),
{
    let ghost text = chars@.subrange(from as int, to as int);
    let start = if from < to && chars[from] == '+' {
        from + 1
    } else {
        from
    };
    assert(chars@.subrange(start as int, to as int) =~= if text.len() > 0 && text[0] == '+' {
        text.drop_first()
    } else {
        text
    });
    if start == to {
        return None;
    }
    match read_digits(chars, start, to) {
        Some(value) => {
            if value <= u64::MAX as u128 {
                Some(value as u64)
            } else {
                None
            }
        },
        None => None,
    }
}

/// The part of a text before the first `stop`; the whole text if it holds none.
pub open spec fn before(text: Seq<char>, stop: char) -> Seq<char> {
    text.take(span(text, Run::Until(stop)) as int)
}

/// The part of a text after the first `stop`; `None` if it holds none.
pub open spec fn after(text: Seq<char>, stop: char) -> Option<Seq<char>> {
    let at = span(text, Run::Until(stop));
    if at < text.len() {
        Some(text.skip(at as int + 1))
    } else {
        None
    }
}

/// A whole number written with exactly `width` digits: its last `width`
/// digits, with zeros in front where it has fewer.
pub open spec fn fixed(n: nat, width: nat) -> Seq<char>
    decreases width,
{
    if width == 0 {
        Seq::empty()
    } else {
        fixed(n / 10, (width - 1) as nat).push(digit_char(n % 10))
    }
}

/// A number of millionths written as a decimal number with six places.
pub open spec fn micros_text(micros: nat) -> Seq<char> {
    decimal(micros / 1_000_000) + seq!['.'] + fixed(micros % 1_000_000, 6)
}

/// A number of thousandths, negative or not, written as a decimal number
/// with three places.
pub open spec fn millis_text(millis: int) -> Seq<char> {
    let size = if millis < 0 {
        -millis
    } else {
        millis
    } as nat;
    let sign = if millis < 0 {
        seq!['-']
    } else {
        Seq::empty()
    };
    sign + decimal(size / 1000) + seq!['.'] + fixed(size % 1000, 3)
}

/// Writes a whole number with exactly `width` digits.
pub fn render_fixed(n: u128, width: u8) -> (text: String)
    ensures
        text@ == fixed(n as nat, width as nat),
    decreases width,
{
    if width == 0 {
        String::new()
    } else {
        let mut text = render_fixed(n / 10, width - 1);
        text.append(digit_text((n % 10) as u8));
        text
    }
}

/// Writes a number of millionths as a decimal number with six places.
pub fn render_micros(micros: u128) -> (text: String)
    ensures
        text@ == micros_text(micros as nat),
{
    let mut text = render_decimal(micros / 1_000_000);
    proof {
        reveal_strlit(".");
        assert("."@ =~= seq!['.']);
    }
    text.append(".");
    let places = render_fixed(micros % 1_000_000, 6);
    text.append(places.as_str());
    text
}

/// Writes a number of thousandths as a decimal number with three places.
pub fn render_millis(millis: i64) -> (text: String)
    ensures
        text@ == millis_text(millis as int),
{
    let size: u128 = if millis < 0 {
        (-(millis as i128)) as u128
    } else {
        millis as u128
    };
    proof {
        reveal_strlit(".");
        reveal_strlit("-");
        assert("."@ =~= seq!['.']);
        assert("-"@ =~= seq!['-']);
    }
    let mut text = if millis < 0 {
        String::from_str("-")
    } else {
        String::new()
    };
    let whole = render_decimal(size / 1000);
    text.append(whole.as_str());
    text.append(".");
    let places = render_fixed(size % 1000, 3);
    text.append(places.as_str());
    assert(text@ =~= millis_text(millis as int));
    text
}

} // verus!
