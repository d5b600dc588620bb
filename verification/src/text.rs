//! The written form of amounts: a sign, the integer digits, and, where the
//! scale is positive, a point followed by exactly `scale` digits.

use vstd::arithmetic::div_mod::{lemma_fundamental_div_mod, lemma_mod_bound};
use vstd::math::abs;
use vstd::prelude::*;

use crate::amount::{viewed, Amount, AmountView, MAX_MANTISSA, MAX_SCALE};
use crate::powers::{lemma_pow10_unfold, pow10};

verus! {

/// The character for a single decimal digit.
pub open spec fn digit_char(d: int) -> char
    recommends
        0 <= d <= 9,
{
    if d == 0 {
        '0'
    } else if d == 1 {
        '1'
    } else if d == 2 {
        '2'
    } else if d == 3 {
        '3'
    } else if d == 4 {
        '4'
    } else if d == 5 {
        '5'
    } else if d == 6 {
        '6'
    } else if d == 7 {
        '7'
    } else if d == 8 {
        '8'
    } else {
        '9'
    }
}

/// The decimal digits of `n`, most significant first, without leading zeros
/// (`"0"` for zero).
pub open spec fn digits(n: nat) -> Seq<char>
    decreases n,
{
    if n < 10 {
        seq![digit_char(n as int)]
    } else {
        digits(n / 10).push(digit_char((n % 10) as int))
    }
}

/// The last `width` decimal digits of `n`, most significant first, with
/// leading zeros where `n` is short.
pub open spec fn fixed_digits(n: nat, width: nat) -> Seq<char>
    decreases width,
{
    if width == 0 {
        Seq::<char>::empty()
    } else {
        fixed_digits(n / 10, (width - 1) as nat).push(digit_char((n % 10) as int))
    }
}

/// The written form of an amount: `-` for a negative mantissa, the digits of
/// the integer part, and for a positive scale a point and exactly `scale`
/// fractional digits. `1337 / 10^2` is written `13.37`, `1 / 10^2` is `0.01`.
pub open spec fn decimal_text(a: AmountView) -> Seq<char> {
    let magnitude = vstd::math::abs(a.mantissa) as nat;
    let unit = pow10(a.scale) as nat;
    let sign = if a.mantissa < 0 {
        seq!['-']
    } else {
        Seq::<char>::empty()
    };
    let fraction = if a.scale > 0 {
        seq!['.'] + fixed_digits(magnitude % unit, a.scale)
    } else {
        Seq::<char>::empty()
    };
    sign + digits(magnitude / unit) + fraction
}

/// Whether a character is a decimal digit.
pub open spec fn is_digit(c: char) -> bool {
    '0' <= c <= '9'
}

/// The value of a decimal digit.
pub open spec fn digit_value(c: char) -> int
    recommends
        is_digit(c),
{
    c as int - '0' as int
}

/// Every character of the text is a decimal digit.
pub open spec fn all_digits(text: Seq<char>) -> bool {
    forall|i: int| 0 <= i < text.len() ==> is_digit(#[trigger] text[i])
}

/// The number that a sequence of decimal digits denotes, most significant
/// digit first; zero for the empty sequence.
pub open spec fn number(text: Seq<char>) -> int
    decreases text.len(),
{
    if text.len() == 0 {
        0
    } else {
        number(text.drop_last()) * 10 + digit_value(text.last())
    }
}

/// The number of characters before the first point, or the length of the
/// text if it holds no point.
pub open spec fn before_point(text: Seq<char>) -> int
    decreases text.len(),
{
    if text.len() == 0 || text[0] == '.' {
        0
    } else {
        1 + before_point(text.drop_first())
    }
}

/// The amount that a text denotes: an optional `-`, one or more digits, and
/// optionally a point followed by one or more digits, of which there are at
/// most 28. The digits together give the mantissa, which must fit 96 bits,
/// and the digits after the point give the scale. Any other text denotes
/// nothing.
pub open spec fn parsed(text: Seq<char>) -> Option<AmountView> {
    let negative = text.len() > 0 && text[0] == '-';
    let body = if negative {
        text.drop_first()
    } else {
        text
    };
    let point = before_point(body);
    let whole = body.take(point);
    let fraction = if point < body.len() {
        body.skip(point + 1)
    } else {
        Seq::<char>::empty()
    };
    let magnitude = number(whole + fraction);
    if whole.len() == 0 || !all_digits(whole) || !all_digits(fraction) {
        None
    } else if point < body.len() && fraction.len() == 0 {
        None
    } else if fraction.len() > MAX_SCALE || magnitude > MAX_MANTISSA {
        None
    } else {
        Some(
            AmountView {
                mantissa: if negative {
                    -magnitude
                } else {
                    magnitude
                },
                scale: fraction.len(),
            },
        )
    }
}

/// The digits of a number are digits, there is at least one of them, and
/// they denote the number.
pub proof fn lemma_digits(n: nat)
    ensures
        digits(n).len() >= 1,
        all_digits(digits(n)),
        number(digits(n)) == n,
    decreases n,
{
    if n < 10 {
        assert(digits(n).drop_last() =~= Seq::<char>::empty());
        assert(number(digits(n).drop_last()) == 0);
    } else {
        lemma_digits(n / 10);
        assert(digits(n).drop_last() =~= digits(n / 10));
    }
}

/// A number written with `width` digits gives `width` digits, and they
/// denote the number if it is below `10^width`.
pub proof fn lemma_fixed_digits(n: nat, width: nat)
    ensures
        fixed_digits(n, width).len() == width,
        all_digits(fixed_digits(n, width)),
        n < pow10(width) ==> number(fixed_digits(n, width)) == n,
    decreases width,
{
    lemma_pow10_unfold(0);
    if width > 0 {
        lemma_fixed_digits(n / 10, (width - 1) as nat);
        lemma_pow10_unfold((width - 1) as nat);
        assert(fixed_digits(n, width).drop_last() =~= fixed_digits(n / 10, (width - 1) as nat));
    }
}

/// The digits of two texts in a row denote the first number shifted left
/// by the length of the second text, plus the second number.
pub proof fn lemma_number_of_concat(a: Seq<char>, b: Seq<char>)
    ensures
        number(a + b) == number(a) * pow10(b.len()) + number(b),
    decreases b.len(),
{
    lemma_pow10_unfold(0);
    if b.len() == 0 {
        assert(a + b =~= a);
    } else {
        lemma_number_of_concat(a, b.drop_last());
        lemma_pow10_unfold((b.len() - 1) as nat);
        assert((a + b).drop_last() =~= a + b.drop_last());
        assert((a + b).last() == b.last());
        let shifted = pow10((b.len() - 1) as nat);
        assert((number(a) * shifted + number(b.drop_last())) * 10 == number(a) * (10 * shifted)
            + number(b.drop_last()) * 10) by (nonlinear_arith);
    }
}

/// Where the first `point` characters of a text are no points and the text
/// ends there or goes on with a point, `point` characters stand before the
/// first point.
pub proof fn lemma_before_point(text: Seq<char>, point: int)
    requires
        0 <= point <= text.len(),
        forall|i: int| 0 <= i < point ==> text[i] != '.',
        point < text.len() ==> text[point] == '.',
    ensures
        before_point(text) == point,
    decreases point,
{
    if point > 0 {
        let rest = text.drop_first();
        assert forall|i: int| 0 <= i < point - 1 implies rest[i] != '.' by {
            assert(rest[i] == text[i + 1]);
        }
        lemma_before_point(rest, point - 1);
    }
}

/// Reading what was written gives back the amount that was written, scale
/// included.
pub proof fn lemma_text_round_trip(a: AmountView)
    requires
        a.wf(),
    ensures
        parsed(decimal_text(a)) == Some(a),
{
    let magnitude = abs(a.mantissa) as nat;
    let unit = pow10(a.scale) as nat;
    lemma_pow10_unfold(a.scale);
    lemma_fundamental_div_mod(magnitude as int, unit as int);
    lemma_mod_bound(magnitude as int, unit as int);
    let whole = digits(magnitude / unit);
    let fraction = if a.scale > 0 {
        fixed_digits(magnitude % unit, a.scale)
    } else {
        Seq::<char>::empty()
    };
    lemma_digits(magnitude / unit);
    lemma_fixed_digits(magnitude % unit, a.scale);
    let body = if a.scale > 0 {
        whole + seq!['.'] + fraction
    } else {
        whole
    };
    let text = decimal_text(a);
    if a.mantissa < 0 {
        assert(text =~= seq!['-'] + body);
        assert(text.drop_first() =~= body);
    } else {
        assert(text =~= body);
        assert(is_digit(whole[0]));
        assert(body[0] == whole[0]);
    }
    assert forall|i: int| 0 <= i < whole.len() implies body[i] != '.' by {
        assert(is_digit(whole[i]));
        assert(body[i] == whole[i]);
    }
    lemma_before_point(body, whole.len() as int);
    assert(body.take(whole.len() as int) =~= whole);
    if a.scale > 0 {
        assert(body.skip(whole.len() as int + 1) =~= fraction);
    }
    lemma_number_of_concat(whole, fraction);
    assert(number(fraction) == magnitude % unit) by {
        if a.scale == 0 {
            assert(unit == 1);
        }
    }
    assert(fraction.len() == a.scale);
    assert((magnitude / unit) * unit + magnitude % unit == magnitude) by (nonlinear_arith)
        requires
            magnitude == unit * (magnitude / unit) + magnitude % unit,
    ;
}

/// The first point of a text stands where `before_point` says, and nowhere
/// before.
pub proof fn lemma_point_position(text: Seq<char>)
    ensures
        0 <= before_point(text) <= text.len(),
        forall|i: int| 0 <= i < before_point(text) ==> text[i] != '.',
        before_point(text) < text.len() ==> text[before_point(text)] == '.',
    decreases text.len(),
{
    if !(text.len() == 0 || text[0] == '.') {
        let rest = text.drop_first();
        lemma_point_position(rest);
        assert forall|i: int| 0 <= i < before_point(text) implies text[i] != '.' by {
            if i > 0 {
                assert(text[i] == rest[i - 1]);
            }
        }
    }
}

/// A text that holds a character which is neither a digit, nor a point, nor
/// a leading minus sign denotes nothing.
pub proof fn lemma_stray_character(text: Seq<char>, at: int)
    requires
        0 <= at < text.len(),
        !is_digit(text[at]),
        text[at] != '.',
        text[at] != '-',
    ensures
        parsed(text) is None,
{
    let negative = text.len() > 0 && text[0] == '-';
    let body = if negative {
        text.drop_first()
    } else {
        text
    };
    let shift: int = if negative {
        1
    } else {
        0
    };
    let point = before_point(body);
    lemma_point_position(body);
    let position = at - shift;
    assert(body[position] == text[at]);
    if position < point {
        assert(body.take(point)[position] == body[position]);
    } else {
        assert(body.skip(point + 1)[position - point - 1] == body[position]);
    }
}

/// A sequence of digits denotes a number that is not negative.
pub proof fn lemma_number_not_negative(text: Seq<char>)
    requires
        all_digits(text),
    ensures
        number(text) >= 0,
    decreases text.len(),
{
    if text.len() > 0 {
        assert(is_digit(text.last()));
        assert forall|i: int| 0 <= i < text.drop_last().len() implies is_digit(
            #[trigger] text.drop_last()[i],
        ) by {
            assert(text.drop_last()[i] == text[i]);
        }
        lemma_number_not_negative(text.drop_last());
    }
}

/// Further digits do not make a number smaller.
pub proof fn lemma_number_grows(a: Seq<char>, b: Seq<char>)
    requires
        number(a) >= 0,
        all_digits(b),
    ensures
        number(a + b) >= number(a),
{
    lemma_number_of_concat(a, b);
    lemma_number_not_negative(b);
    lemma_pow10_unfold(b.len());
    assert(number(a) * pow10(b.len()) >= number(a)) by (nonlinear_arith)
        requires
            number(a) >= 0,
            pow10(b.len()) >= 1,
    ;
}

/// The index of the first point at or after `from`, or the length of the text
/// if there is none.
fn find_point(text: &str, from: usize) -> (point: usize)
    requires
        text.is_ascii(),
        from <= text@.len(),
    ensures
        from <= point <= text@.len(),
        forall|i: int| from <= i < point ==> text@[i] != '.',
        point < text@.len() ==> text@[point as int] == '.',
{
    let n = text.unicode_len();
    let mut i = from;
    while i < n
        invariant
            text.is_ascii(),
            n == text@.len(),
            from <= i <= n,
            forall|j: int| from <= j < i ==> text@[j] != '.',
        decreases n - i,
    {
        if text.get_ascii(i) == 46u8 {
            return i;
        }
        i = i + 1;
    }
    n
}

/// Reads the digits `text[from..to]` as a continuation of the number
/// `before`: `None` if one of the characters is no digit or the number
/// outgrows the mantissa.
fn read_digits(text: &str, from: usize, to: usize, before: i128) -> (r: Option<i128>)
    requires
        text.is_ascii(),
        from <= to <= text@.len(),
        0 <= before <= MAX_MANTISSA,
    ensures
        ({
            let part = text@.subrange(from as int, to as int);
            let value = before * pow10(part.len()) + number(part);
            match r {
                Some(v) => all_digits(part) && v == value && 0 <= v <= MAX_MANTISSA,
                None => !all_digits(part) || value > MAX_MANTISSA,
            }
        }),
{
    let ghost part = text@.subrange(from as int, to as int);
    let mut value = before;
    let mut i = from;
    proof {
        lemma_pow10_unfold(0);
        assert(text@.subrange(from as int, from as int) =~= Seq::<char>::empty());
        assert(before * pow10(0) == before) by (nonlinear_arith)
            requires
                pow10(0) == 1,
        ;
    }
    while i < to
        invariant
            text.is_ascii(),
            from <= i <= to <= text@.len(),
            0 <= before <= MAX_MANTISSA,
            part == text@.subrange(from as int, to as int),
            all_digits(text@.subrange(from as int, i as int)),
            value == before * pow10((i - from) as nat) + number(
                text@.subrange(from as int, i as int),
            ),
            0 <= value <= MAX_MANTISSA,
        decreases to - i,
    {
        let ghost read = text@.subrange(from as int, i as int);
        let ghost next = text@.subrange(from as int, i + 1);
        let b = text.get_ascii(i);
        proof {
            assert(next.drop_last() =~= read);
            assert(next.last() == text@[i as int]);
            assert(part[i - from] == text@[i as int]);
            lemma_pow10_unfold((i - from) as nat);
        }
        if b < 48u8 || b > 57u8 {
            return None;
        }
        let digit = (b - 48u8) as i128;
        let grown = value * 10 + digit;
        proof {
            assert(is_digit(text@[i as int]));
            assert(digit == digit_value(text@[i as int]));
            assert(all_digits(next));
            assert(grown == before * pow10((i + 1 - from) as nat) + number(next)) by (nonlinear_arith)
                requires
                    grown == value * 10 + digit,
                    value == before * pow10((i - from) as nat) + number(read),
                    number(next) == number(read) * 10 + digit,
                    pow10((i + 1 - from) as nat) == 10 * pow10((i - from) as nat),
            ;
        }
        if grown > MAX_MANTISSA {
            proof {
                if all_digits(part) {
                    let rest = text@.subrange(i + 1, to as int);
                    assert(part =~= next + rest);
                    assert forall|j: int| 0 <= j < rest.len() implies is_digit(#[trigger] rest[j]) by {
                        assert(rest[j] == part[i + 1 - from + j]);
                    }
                    lemma_number_not_negative(next);
                    lemma_number_of_concat(next, rest);
                    lemma_number_not_negative(rest);
                    lemma_pow10_unfold(rest.len());
                    vstd::arithmetic::power::lemma_pow_adds(10, next.len(), rest.len());
                    let shift = pow10(rest.len());
                    let front = pow10(next.len());
                    assert(before * (front * shift) + (number(next) * shift + number(rest))
                        >= before * front + number(next)) by (nonlinear_arith)
                        requires
                            shift >= 1,
                            front >= 1,
                            before >= 0,
                            number(next) >= 0,
                            number(rest) >= 0,
                    ;
                }
            }
            return None;
        }
        value = grown;
        i = i + 1;
    }
    proof {
        assert(text@.subrange(from as int, i as int) =~= part);
    }
    Some(value)
}

/// The text of a single decimal digit.
fn digit_text(d: u32) -> (r: &'static str)
    requires
        d <= 9,
    ensures
        r@ == seq![digit_char(d as int)],
{
    proof {
        reveal_strlit("0");
        reveal_strlit("1");
        reveal_strlit("2");
        reveal_strlit("3");
        reveal_strlit("4");
        reveal_strlit("5");
        reveal_strlit("6");
        reveal_strlit("7");
        reveal_strlit("8");
        reveal_strlit("9");
    }
    let r = if d == 0 {
        "0"
    } else if d == 1 {
        "1"
    } else if d == 2 {
        "2"
    } else if d == 3 {
        "3"
    } else if d == 4 {
        "4"
    } else if d == 5 {
        "5"
    } else if d == 6 {
        "6"
    } else if d == 7 {
        "7"
    } else if d == 8 {
        "8"
    } else {
        "9"
    };
    assert(r@ =~= seq![digit_char(d as int)]);
    r
}

/// The decimal digits of `n`, without leading zeros.
pub(crate) fn integer_text(n: u32) -> (r: String)
    ensures
        r@ == digits(n as nat),
    decreases n,
{
    if n < 10 {
        String::from_str(digit_text(n))
    } else {
        let r = integer_text(n / 10).concat(digit_text(n % 10));
        assert(r@ =~= digits(n as nat));
        r
    }
}

/// Reads an amount from its written form: see [`parsed`].
pub(crate) fn read_amount(text: &str) -> (r: Option<Amount>)
    ensures
        viewed(r) == parsed(text@),
{
    if !text.is_ascii() {
        proof {
            let at = choose|i: int|
                0 <= i < text@.len() && !('\0' <= #[trigger] text@[i] <= '\u{7f}');
            lemma_stray_character(text@, at);
        }
        return None;
    }
    let n = text.unicode_len();
    let negative = n > 0 && text.get_ascii(0) == 45u8;
    let start: usize = if negative {
        1
    } else {
        0
    };
    let point = find_point(text, start);
    let ghost body = if negative {
        text@.drop_first()
    } else {
        text@
    };
    let ghost whole = text@.subrange(start as int, point as int);
    let ghost fraction = if point < n {
        text@.subrange(point + 1, n as int)
    } else {
        Seq::<char>::empty()
    };
    proof {
        assert forall|i: int| 0 <= i < point - start implies body[i] != '.' by {
            assert(body[i] == text@[i + start]);
        }
        lemma_before_point(body, point - start);
        assert(body.take(point - start) =~= whole);
        if point < n {
            assert(body.skip(point - start + 1) =~= fraction);
        }
    }
    if point == start {
        return None;
    }
    let units = match read_digits(text, start, point, 0) {
        Some(units) => units,
        None => {
            proof {
                if all_digits(whole) && all_digits(fraction) {
                    lemma_number_not_negative(whole);
                    lemma_number_grows(whole, fraction);
                }
            }
            return None;
        },
    };
    if point == n {
        proof {
            assert(whole + fraction =~= whole);
        }
        return Amount::new(
            if negative {
                -units
            } else {
                units
            },
            0,
        );
    }
    if n - point - 1 == 0 || n - point - 1 > 28 {
        return None;
    }
    let magnitude = match read_digits(text, point + 1, n, units) {
        Some(magnitude) => magnitude,
        None => {
            proof {
                lemma_number_of_concat(whole, fraction);
            }
            return None;
        },
    };
    proof {
        lemma_number_of_concat(whole, fraction);
    }
    Amount::new(
        if negative {
            -magnitude
        } else {
            magnitude
        },
        (n - point - 1) as u32,
    )
}

} // verus!
