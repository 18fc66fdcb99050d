//! Decimal numbers read as whole millionths, without floating point.

use crate::text::{
    after, all_digits, before, decimal, digit_char, digit_value, digits_value, fixed, micros_text,
    read_digits, scan, span, Run,
};
use vstd::arithmetic::div_mod::{lemma_fundamental_div_mod_converse, lemma_mod_breakdown};
use vstd::prelude::*;

verus! {

/// Ten to the power of `n`.
pub open spec fn pow10(n: nat) -> nat
    decreases n,
{
    if n == 0 {
        1
    } else {
        10 * pow10((n - 1) as nat)
    }
}

/// `value` times ten to the power of `shift`, rounded to the nearest whole
/// number; a half is rounded up.
pub open spec fn scaled(value: nat, shift: int) -> nat {
    if shift >= 0 {
        value * pow10(shift as nat)
    } else {
        let unit = pow10((-shift) as nat);
        (value + unit / 2) / unit
    }
}

/// The exponent that the text behind an `e` denotes: an optional sign and
/// one to three digits. `None` for any other text.
pub open spec fn exponent_of(text: Seq<char>) -> Option<int> {
    let signed = text.len() > 0 && (text[0] == '-' || text[0] == '+');
    let digits = if signed {
        text.drop_first()
    } else {
        text
    };
    if 1 <= digits.len() <= 3 && all_digits(digits) {
        Some(
            if text[0] == '-' {
                -(digits_value(digits) as int)
            } else {
                digits_value(digits) as int
            },
        )
    } else {
        None
    }
}

/// The number of millionths that a decimal number denotes, rounded to the
/// nearest, half up. The number is written as digits, optionally a point
/// and more digits, and optionally an `e` or `E` and an exponent. `None`
/// for any other text; a sign in front makes it another text.
pub open spec fn micros_of_text(text: Seq<char>) -> Option<nat> {
    let mantissa = text.take(span(text, Run::UntilEither('e', 'E')) as int);
    let exponent = if mantissa.len() < text.len() {
        exponent_of(text.skip(mantissa.len() as int + 1))
    } else {
        Some(0int)
    };
    let whole = before(mantissa, '.');
    let fraction = match after(mantissa, '.') {
        Some(fraction) => fraction,
        None => Seq::empty(),
    };
    if whole.len() > 0 && all_digits(whole) && all_digits(fraction) && (after(mantissa, '.')
        is Some ==> fraction.len() > 0) && exponent is Some {
        Some(scaled(digits_value(whole + fraction), exponent->0 - fraction.len() + 6))
    } else {
        None
    }
}

/// A power of ten is positive, and a higher power is larger.
pub proof fn lemma_pow10_grows(low: nat, high: nat)
    requires
        low <= high,
    ensures
        1 <= pow10(low) <= pow10(high),
    decreases high,
{
    if low < high {
        lemma_pow10_grows(low, (high - 1) as nat);
    } else if low > 0 {
        lemma_pow10_grows((low - 1) as nat, (high - 1) as nat);
    }
}

/// A text of `n` digits denotes less than ten to the power of `n`.
pub proof fn lemma_digits_bounded(text: Seq<char>)
    ensures
        digits_value(text) < pow10(text.len()),
    decreases text.len(),
{
    if text.len() > 0 {
        lemma_digits_bounded(text.drop_last());
    }
}

/// Digits written behind other digits: the value of the first is shifted
/// by the length of the second.
pub proof fn lemma_digits_concat(first: Seq<char>, second: Seq<char>)
    ensures
        digits_value(first + second) == digits_value(first) * pow10(second.len()) + digits_value(
            second,
        ),
    decreases second.len(),
{
    if second.len() == 0 {
        assert(first + second =~= first);
        assert(pow10(second.len()) == 1);
        assert(digits_value(first) * pow10(second.len()) == digits_value(first))
            by (nonlinear_arith)
            requires
                pow10(second.len()) == 1,
        ;
    } else {
        let whole = first + second;
        assert(whole.drop_last() =~= first + second.drop_last());
        assert(whole.last() == second.last());
        lemma_digits_concat(first, second.drop_last());
        let a = digits_value(first) as int;
        let p = pow10((second.len() - 1) as nat) as int;
        let b = digits_value(second.drop_last()) as int;
        let d = match digit_value(second.last()) {
            Some(d) => d as int,
            None => 0int,
        };
        assert(digits_value(whole) == digits_value(whole.drop_last()) * 10 + d);
        assert(digits_value(second) == b * 10 + d);
        assert(pow10(second.len()) == 10 * p);
        assert(digits_value(whole.drop_last()) == a * p + b);
        assert((a * p + b) * 10 + d == a * (10 * p) + (b * 10 + d)) by (nonlinear_arith);
        assert(digits_value(first) * pow10(second.len()) == a * (10 * p)) by (nonlinear_arith)
            requires
                digits_value(first) == a,
                pow10(second.len()) == 10 * p,
        ;
    }
}

/// Cutting off the last `cut` digits and rounding: what is left is the
/// value of the digits kept, and one more if the first digit cut off is 5 or
/// more. Nothing is left when more digits are cut off than there are.
pub proof fn lemma_scaled_down(digits: Seq<char>, cut: nat)
    requires
        cut >= 1,
    ensures
        cut > digits.len() ==> scaled(digits_value(digits), -(cut as int)) == 0,
        cut <= digits.len() ==> scaled(digits_value(digits), -(cut as int)) == digits_value(
            digits.take(digits.len() - cut),
        ) + match digit_value(digits[digits.len() - cut]) {
            Some(d) => if d >= 5 {
                1nat
            } else {
                0nat
            },
            None => 0nat,
        },
{
    let value = digits_value(digits) as int;
    let unit = pow10(cut) as int;
    let half = pow10((cut - 1) as nat) as int;
    assert(unit == 10 * half);
    lemma_pow10_grows(0, (cut - 1) as nat);
    assert(unit / 2 == 5 * half);
    if cut > digits.len() {
        lemma_digits_bounded(digits);
        lemma_pow10_grows(digits.len(), (cut - 1) as nat);
        lemma_fundamental_div_mod_converse(value + unit / 2, unit, 0, value + unit / 2);
    } else {
        let kept = digits.take(digits.len() - cut);
        let dropped = digits.skip(digits.len() - cut);
        let first = seq![dropped[0]];
        let rest = dropped.drop_first();
        assert(digits =~= kept + dropped);
        assert(dropped =~= first + rest);
        lemma_digits_concat(kept, dropped);
        lemma_digits_concat(first, rest);
        lemma_digits_bounded(rest);
        assert(first.drop_last() =~= Seq::<char>::empty());
        assert(digits_value(first.drop_last()) == 0);
        let d = match digit_value(dropped[0]) {
            Some(d) => d as int,
            None => 0int,
        };
        assert(digits_value(first) == d);
        let t = digits_value(kept) as int;
        let r = digits_value(dropped) as int;
        let tail = digits_value(rest) as int;
        assert(rest.len() == cut - 1);
        assert(r == d * half + tail);
        assert(0 <= d <= 9);
        assert(value == t * unit + r);
        if d >= 5 {
            assert(5 * half <= d * half) by (nonlinear_arith)
                requires
                    d >= 5,
                    half >= 1,
            ;
            assert(d * half + tail < 10 * half) by (nonlinear_arith)
                requires
                    0 <= d <= 9,
                    0 <= tail < half,
            ;
            assert(value + unit / 2 == (t + 1) * unit + (r - 5 * half)) by (nonlinear_arith)
                requires
                    value == t * unit + r,
                    unit / 2 == 5 * half,
                    unit == 10 * half,
            ;
            lemma_fundamental_div_mod_converse(value + unit / 2, unit, t + 1, r - 5 * half);
        } else {
            assert(d * half + tail < 5 * half) by (nonlinear_arith)
                requires
                    0 <= d <= 4,
                    0 <= tail < half,
            ;
            assert(value + unit / 2 == t * unit + (r + 5 * half)) by (nonlinear_arith)
                requires
                    value == t * unit + r,
                    unit / 2 == 5 * half,
            ;
            lemma_fundamental_div_mod_converse(value + unit / 2, unit, t, r + 5 * half);
        }
    }
}

fn digits_only(chars: &Vec<char>, from: usize, to: usize) -> (only: bool)
    requires
        from <= to <= chars.len(),
    ensures
        only == all_digits(chars@.subrange(from as int, to as int)),
{
    let mut i = from;
    while i < to
        invariant
            from <= i <= to <= chars.len(),
            forall|j: int| from <= j < i ==> digit_value(#[trigger] chars@[j]) is Some,
        decreases to - i,
    {
        let code = chars[i] as u32;
        if !(0x30 <= code && code <= 0x39) {
            assert(chars@.subrange(from as int, to as int)[i - from] == chars@[i as int]);
            return false;
        }
        i = i + 1;
    }
    assert forall|j: int| 0 <= j < to - from implies digit_value(
        #[trigger] chars@.subrange(from as int, to as int)[j],
    ) is Some by {
        assert(chars@.subrange(from as int, to as int)[j] == chars@[from + j]);
    }
    true
}

fn read_exponent(chars: &Vec<char>, from: usize, to: usize) -> (exponent: Option<i64>)
    requires
        from <= to <= chars.len(),
    ensures
        match exponent {
            Some(e) => exponent_of(chars@.subrange(from as int, to as int)) == Some(e as int)
                && -999 <= e <= 999,
            None => exponent_of(chars@.subrange(from as int, to as int)) is None,
        },
{
    let ghost text = chars@.subrange(from as int, to as int);
    let signed = from < to && (chars[from] == '-' || chars[from] == '+');
    let start = if signed {
        from + 1
    } else {
        from
    };
    let ghost digits = chars@.subrange(start as int, to as int);
    assert(digits =~= if text.len() > 0 && (text[0] == '-' || text[0] == '+') {
        text.drop_first()
    } else {
        text
    });
    if to - start < 1 || to - start > 3 {
        return None;
    }
    proof {
        lemma_digits_bounded(digits);
        reveal_with_fuel(pow10, 4);
    }
    match read_digits(chars, start, to) {
        Some(value) => {
            if signed && chars[from] == '-' {
                Some(-(value as i64))
            } else {
                Some(value as i64)
            }
        },
        None => None,
    }
}

/// The digits of a number without its point.
fn mantissa_digits(chars: &Vec<char>, from: usize, dot: usize, start: usize, end: usize) -> (digits:
    Vec<char>)
    requires
        from <= dot <= start <= end <= chars.len(),
    ensures
        digits@ == chars@.subrange(from as int, dot as int) + chars@.subrange(
            start as int,
            end as int,
        ),
{
    let mut digits: Vec<char> = Vec::new();
    let mut i = from;
    while i < dot
        invariant
            from <= i <= dot <= chars.len(),
            digits@ == chars@.subrange(from as int, i as int),
        decreases dot - i,
    {
        digits.push(chars[i]);
        assert(digits@ =~= chars@.subrange(from as int, i + 1));
        i = i + 1;
    }
    let mut j = start;
    assert(digits@ =~= chars@.subrange(from as int, dot as int) + chars@.subrange(
        start as int,
        j as int,
    ));
    while j < end
        invariant
            start <= j <= end <= chars.len(),
            digits@ == chars@.subrange(from as int, dot as int) + chars@.subrange(
                start as int,
                j as int,
            ),
        decreases end - j,
    {
        digits.push(chars[j]);
        assert(digits@ =~= chars@.subrange(from as int, dot as int) + chars@.subrange(
            start as int,
            j + 1,
        ));
        j = j + 1;
    }
    digits
}

/// What fits in 128 bits of a number.
pub open spec fn fitting(n: nat) -> Option<u128> {
    if n <= u128::MAX {
        Some(n as u128)
    } else {
        None
    }
}

/// The number that the digits denote, times ten to the power of `shift`.
fn scale_up(digits: &Vec<char>, shift: u32) -> (scaled_value: Option<u128>)
    requires
        all_digits(digits@),
    ensures
        scaled_value == fitting(scaled(digits_value(digits@), shift as int)),
{
    let ghost value = digits_value(digits@);
    assert(digits@.subrange(0, digits.len() as int) =~= digits@);
    proof {
        lemma_pow10_grows(0, shift as nat);
        assert(value * pow10(shift as nat) >= value) by (nonlinear_arith)
            requires
                pow10(shift as nat) >= 1,
        ;
    }
    let mut scaled_value = match read_digits(digits, 0, digits.len()) {
        Some(value) => value,
        None => {
            return None;
        },
    };
    if scaled_value == 0 {
        assert(value * pow10(shift as nat) == 0) by (nonlinear_arith)
            requires
                value == 0,
        ;
        return Some(0);
    }
    let mut done: u32 = 0;
    assert(value * pow10(0) == value) by (nonlinear_arith)
        requires
            pow10(0) == 1,
    ;
    while done < shift
        invariant
            0 <= done <= shift,
            value == digits_value(digits@),
            scaled_value == value * pow10(done as nat),
            value >= 1,
        decreases shift - done,
    {
        proof {
            assert(value * pow10((done + 1) as nat) == value * pow10(done as nat) * 10)
                by (nonlinear_arith)
                requires
                    pow10((done + 1) as nat) == 10 * pow10(done as nat),
            ;
            lemma_pow10_grows((done + 1) as nat, shift as nat);
            assert(value * pow10((done + 1) as nat) <= value * pow10(shift as nat))
                by (nonlinear_arith)
                requires
                    pow10((done + 1) as nat) <= pow10(shift as nat),
            ;
        }
        scaled_value = match scaled_value.checked_mul(10) {
            Some(next) => next,
            None => {
                return None;
            },
        };
        done = done + 1;
    }
    Some(scaled_value)
}

/// The number that the digits denote without its last `cut` digits, rounded.
fn scale_down(digits: &Vec<char>, cut: usize) -> (scaled_value: Option<u128>)
    requires
        all_digits(digits@),
        cut >= 1,
    ensures
        scaled_value == fitting(scaled(digits_value(digits@), -(cut as int))),
{
    proof {
        lemma_scaled_down(digits@, cut as nat);
    }
    if cut > digits.len() {
        return Some(0);
    }
    let kept: usize = digits.len() - cut;
    assert(digits@.subrange(0, kept as int) =~= digits@.take(kept as int));
    let rounds_up = digits[kept] as u32 >= 0x35;
    assert(digit_value(digits@[kept as int]) is Some);
    assert(all_digits(digits@.take(kept as int))) by {
        assert forall|j: int| 0 <= j < kept implies digit_value(
            #[trigger] digits@.take(kept as int)[j],
        ) is Some by {
            assert(digits@.take(kept as int)[j] == digits@[j]);
        }
    }
    match read_digits(digits, 0, kept) {
        Some(value) => value.checked_add(
            if rounds_up {
                1
            } else {
                0
            },
        ),
        None => None,
    }
}

/// Reads the decimal number from `from` up to `to` as millionths.
pub(crate) fn read_micros(chars: &Vec<char>, from: usize, to: usize) -> (micros: Option<u128>)
    requires
        from <= to <= chars.len(),
    ensures
        micros == match micros_of_text(chars@.subrange(from as int, to as int)) {
            Some(n) => fitting(n),
            None => None,
        },
{
    let ghost text = chars@.subrange(from as int, to as int);
    let end = scan(chars, from, to, Run::UntilEither('e', 'E'));
    let ghost mantissa = text.take(span(text, Run::UntilEither('e', 'E')) as int);
    assert(mantissa =~= chars@.subrange(from as int, end as int));
    let dot = scan(chars, from, end, Run::Until('.'));
    let ghost whole = before(mantissa, '.');
    assert(whole =~= chars@.subrange(from as int, dot as int));
    let start = if dot < end {
        dot + 1
    } else {
        end
    };
    let ghost fraction = match after(mantissa, '.') {
        Some(fraction) => fraction,
        None => Seq::empty(),
    };
    assert(fraction =~= chars@.subrange(start as int, end as int));
    let exponent = if end < to {
        assert(text.skip(mantissa.len() as int + 1) =~= chars@.subrange(end + 1, to as int));
        read_exponent(chars, end + 1, to)
    } else {
        Some(0)
    };
    if dot == from || (dot < end && start == end) {
        return None;
    }
    if !digits_only(chars, from, dot) || !digits_only(chars, start, end) {
        return None;
    }
    let exponent = match exponent {
        Some(exponent) => exponent,
        None => {
            return None;
        },
    };
    let digits = mantissa_digits(chars, from, dot, start, end);
    proof {
        lemma_all_digits_concat(whole, fraction);
    }
    let places = end - start;
    let shift: i128 = exponent as i128 - places as i128 + 6;
    assert(micros_of_text(text) == Some(scaled(digits_value(digits@), shift as int)));
    if shift >= 0 {
        scale_up(&digits, shift as u32)
    } else if -shift > digits.len() as i128 {
        proof {
            lemma_scaled_down(digits@, (-shift) as nat);
        }
        Some(0)
    } else {
        scale_down(&digits, (-shift) as usize)
    }
}

/// Digits written behind digits are digits.
proof fn lemma_all_digits_concat(first: Seq<char>, second: Seq<char>)
    requires
        all_digits(first),
        all_digits(second),
    ensures
        all_digits(first + second),
{
    assert forall|i: int| 0 <= i < (first + second).len() implies digit_value(
        #[trigger] (first + second)[i],
    ) is Some by {
        if i < first.len() {
            assert((first + second)[i] == first[i]);
        } else {
            assert((first + second)[i] == second[i - first.len()]);
        }
    }
}

/// Each digit is read back as what it stands for.
pub proof fn lemma_digit_reads_back(digit: nat)
    requires
        digit < 10,
    ensures
        digit_value(digit_char(digit)) == Some(digit),
        digit_char(digit) != '.',
        digit_char(digit) != 'e',
        digit_char(digit) != 'E',
{
}

/// A whole number written in decimal consists of digits, at least one, and
/// is read back as the number.
pub proof fn lemma_decimal_reads_back(n: nat)
    ensures
        decimal(n).len() >= 1,
        all_digits(decimal(n)),
        digits_value(decimal(n)) == n,
    decreases n,
{
    lemma_digit_reads_back(n % 10);
    if n < 10 {
        let text = decimal(n);
        assert(text.drop_last() =~= Seq::<char>::empty());
        assert(digits_value(text.drop_last()) == 0);
    } else {
        lemma_decimal_reads_back(n / 10);
        let front = decimal(n / 10);
        let text = front.push(digit_char(n % 10));
        assert(text.drop_last() =~= front);
        assert forall|i: int| 0 <= i < text.len() implies digit_value(#[trigger] text[i])
            is Some by {
            if i < front.len() {
                assert(text[i] == front[i]);
            }
        }
    }
}

/// A whole number written with a fixed width consists of that many digits
/// and is read back as what the number leaves when divided by ten to the
/// power of the width.
pub proof fn lemma_fixed_reads_back(n: nat, width: nat)
    ensures
        fixed(n, width).len() == width,
        all_digits(fixed(n, width)),
        digits_value(fixed(n, width)) == n % pow10(width),
    decreases width,
{
    if width > 0 {
        lemma_fixed_reads_back(n / 10, (width - 1) as nat);
        lemma_digit_reads_back(n % 10);
        lemma_pow10_grows(0, (width - 1) as nat);
        let front = fixed(n / 10, (width - 1) as nat);
        let text = front.push(digit_char(n % 10));
        assert(text.drop_last() =~= front);
        assert forall|i: int| 0 <= i < text.len() implies digit_value(#[trigger] text[i])
            is Some by {
            if i < front.len() {
                assert(text[i] == front[i]);
            }
        }
        lemma_mod_breakdown(n as int, 10, pow10((width - 1) as nat) as int);
    }
}

/// A run goes on over a whole text if it goes on over each character.
pub proof fn lemma_span_whole(text: Seq<char>, run: Run)
    requires
        forall|i: int| 0 <= i < text.len() ==> run.holds(#[trigger] text[i]),
    ensures
        span(text, run) == text.len(),
    decreases text.len(),
{
    if text.len() > 0 {
        assert forall|i: int| 0 <= i < text.drop_first().len() implies run.holds(
            #[trigger] text.drop_first()[i],
        ) by {
            assert(text.drop_first()[i] == text[i + 1]);
        }
        lemma_span_whole(text.drop_first(), run);
    }
}

/// A run ends at the first character over which it does not go on.
pub proof fn lemma_span_stops(front: Seq<char>, stop: char, back: Seq<char>, run: Run)
    requires
        forall|i: int| 0 <= i < front.len() ==> run.holds(#[trigger] front[i]),
        !run.holds(stop),
    ensures
        span(front + seq![stop] + back, run) == front.len(),
    decreases front.len(),
{
    let text = front + seq![stop] + back;
    if front.len() > 0 {
        assert(text[0] == front[0]);
        assert(text.drop_first() =~= front.drop_first() + seq![stop] + back);
        assert forall|i: int| 0 <= i < front.drop_first().len() implies run.holds(
            #[trigger] front.drop_first()[i],
        ) by {
            assert(front.drop_first()[i] == front[i + 1]);
        }
        lemma_span_stops(front.drop_first(), stop, back, run);
    } else {
        assert(text[0] == stop);
    }
}

/// What is written is read back: a number of millionths, written as a
/// decimal number with six places, denotes that number of millionths.
pub proof fn lemma_micros_read_back(micros: nat)
    ensures
        micros_of_text(micros_text(micros)) == Some(micros),
{
    let whole = decimal(micros / 1_000_000);
    let places = fixed(micros % 1_000_000, 6);
    let text = whole + seq!['.'] + places;
    lemma_decimal_reads_back(micros / 1_000_000);
    lemma_fixed_reads_back(micros % 1_000_000, 6);
    assert(pow10(6) == 1_000_000 && pow10(0) == 1) by {
        reveal_with_fuel(pow10, 7);
    }
    assert forall|i: int| 0 <= i < text.len() implies Run::UntilEither('e', 'E').holds(
        #[trigger] text[i],
    ) by {
        if i < whole.len() {
            assert(text[i] == whole[i]);
            assert(digit_value(whole[i]) is Some);
        } else if i > whole.len() {
            assert(text[i] == places[i - whole.len() - 1]);
            assert(digit_value(places[i - whole.len() - 1]) is Some);
        }
    }
    lemma_span_whole(text, Run::UntilEither('e', 'E'));
    let mantissa = text.take(text.len() as int);
    assert(mantissa =~= text);
    assert forall|i: int| 0 <= i < whole.len() implies Run::Until('.').holds(
        #[trigger] whole[i],
    ) by {
        assert(digit_value(whole[i]) is Some);
    }
    lemma_span_stops(whole, '.', places, Run::Until('.'));
    assert(before(mantissa, '.') =~= whole);
    assert(after(mantissa, '.') == Some(mantissa.skip(whole.len() as int + 1)));
    assert(mantissa.skip(whole.len() as int + 1) =~= places);
    lemma_digits_concat(whole, places);
    let value = digits_value(whole + places);
    assert(value == (micros / 1_000_000) * 1_000_000 + micros % 1_000_000);
    assert(value * pow10(0) == value) by (nonlinear_arith)
        requires
            pow10(0) == 1,
    ;
}

} // verus!
