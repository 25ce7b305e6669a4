//! Decimal integers in text: the grammar `str::parse` reads them by, and
//! zero-padded writing.
use vstd::prelude::*;

use vstd::string::StringExecFns;

use crate::text::{decimal, digit, push_char, push_decimal};

verus! {

pub open spec fn is_digit(c: char) -> bool {
    '0' <= c <= '9'
}

/// One or more ASCII digits and nothing else.
pub open spec fn all_digits(text: Seq<char>) -> bool {
    text.len() > 0 && forall|i: int| 0 <= i < text.len() ==> is_digit(#[trigger] text[i])
}

/// The value of a run of digits, most significant first.
pub open spec fn digits_value(text: Seq<char>) -> nat
    decreases text.len(),
{
    if text.len() == 0 {
        0
    } else {
        digits_value(text.drop_last()) * 10 + ((text.last() as nat) - ('0' as nat)) as nat
    }
}

/// What `str::parse::<i32>` reads: an optional sign, then digits, in range.
pub open spec fn signed_value(text: Seq<char>) -> Option<int> {
    if text.len() > 0 && text[0] == '-' && all_digits(text.skip(1)) {
        Some(-(digits_value(text.skip(1)) as int))
    } else if text.len() > 0 && text[0] == '+' && all_digits(text.skip(1)) {
        Some(digits_value(text.skip(1)) as int)
    } else if all_digits(text) {
        Some(digits_value(text) as int)
    } else {
        None
    }
}

/// What `str::parse::<u32>` reads: an optional plus sign, then digits.
pub open spec fn unsigned_value(text: Seq<char>) -> Option<nat> {
    if text.len() > 0 && text[0] == '+' && all_digits(text.skip(1)) {
        Some(digits_value(text.skip(1)))
    } else if all_digits(text) {
        Some(digits_value(text))
    } else {
        None
    }
}

pub open spec fn i32_of(text: Seq<char>) -> Option<i32> {
    match signed_value(text) {
        Some(v) => if i32::MIN <= v <= i32::MAX {
            Some(v as i32)
        } else {
            None
        },
        None => None,
    }
}

pub open spec fn u32_of(text: Seq<char>) -> Option<u32> {
    match unsigned_value(text) {
        Some(v) => if v <= u32::MAX {
            Some(v as u32)
        } else {
            None
        },
        None => None,
    }
}

/// `str::parse::<i32>`, as its documentation states it: an optional `+` or
/// `-`, then only ASCII digits, and a value that fits.
#[verifier::external_body]
pub(crate) fn parse_i32(text: &str) -> (parsed: Option<i32>)
    ensures
        parsed == i32_of(text@),
{
    text.parse::<i32>().ok()
}

/// `str::parse::<u32>`, as its documentation states it: an optional `+`, then
/// only ASCII digits, and a value that fits.
#[verifier::external_body]
pub(crate) fn parse_u32(text: &str) -> (parsed: Option<u32>)
    ensures
        parsed == u32_of(text@),
{
    text.parse::<u32>().ok()
}

/// `count` zeros.
pub open spec fn zeros(count: int) -> Seq<char> {
    Seq::new(if count < 0 { 0 } else { count as nat }, |i: int| '0')
}

/// Digits padded on the left with zeros to at least `width` characters.
pub open spec fn zero_padded(digits: Seq<char>, width: int) -> Seq<char> {
    zeros(width - digits.len()) + digits
}

/// `value` written in at least `width` characters the way `{:0width}` writes
/// it: a minus sign first when negative, the sign counted in the width.
pub open spec fn padded(value: int, width: int) -> Seq<char> {
    if value < 0 {
        seq!['-'] + zero_padded(decimal((-value) as nat), width - 1)
    } else {
        zero_padded(decimal(value as nat), width)
    }
}

/// Append `value` zero-padded to `width` characters.
pub fn push_padded(text: &mut String, value: i64, width: usize)
    ensures
        final(text)@ == old(text)@ + padded(value as int, width as int),
{
    let magnitude: u64 = if value < 0 {
        ((-(value + 1)) as u64) + 1
    } else {
        value as u64
    };
    let ghost digits = decimal(magnitude as nat);
    let mut room: usize = width;
    if value < 0 {
        push_char(text, '-');
        room = if width > 0 { width - 1 } else { 0 };
    }
    let ghost start = text@;
    let mut written = String::new();
    push_decimal(&mut written, magnitude);
    assert(written@ =~= digits);
    let length = written.as_str().unicode_len();
    let mut fill: usize = 0;
    let missing: usize = if room > length { room - length } else { 0 };
    while fill < missing
        invariant
            fill <= missing,
            text@ == start + zeros(fill as int),
        decreases missing - fill,
    {
        push_char(text, '0');
        fill = fill + 1;
        assert(zeros(fill as int) =~= zeros((fill - 1) as int).push('0'));
    }
    text.append(written.as_str());
    proof {
        let w = if value < 0 { width as int - 1 } else { width as int };
        assert(zeros(missing as int) =~= zeros(w - digits.len()));
        if value < 0 {
            assert(text@ =~= old(text)@ + padded(value as int, width as int));
        } else {
            assert(text@ =~= old(text)@ + padded(value as int, width as int));
        }
    }
}

pub proof fn lemma_digit_is_digit(value: nat)
    requires
        value < 10,
    ensures
        is_digit(digit(value)),
        (digit(value) as nat) - ('0' as nat) == value,
{
}

/// Decimal digits read back as the value they were written from.
pub proof fn lemma_decimal_value(value: nat)
    ensures
        all_digits(decimal(value)),
        digits_value(decimal(value)) == value,
    decreases value,
{
    if value < 10 {
        lemma_digit_is_digit(value);
        let d = decimal(value);
        assert(d =~= seq![digit(value)]);
        assert(d.drop_last() =~= Seq::<char>::empty());
        assert(d.last() == digit(value));
        assert(digits_value(d) == digits_value(d.drop_last()) * 10 + ((d.last() as nat) - ('0' as nat)) as nat);
    } else {
        lemma_decimal_value(value / 10);
        lemma_digit_is_digit(value % 10);
        let d = decimal(value);
        assert(d == decimal(value / 10).push(digit(value % 10)));
        assert(d.drop_last() =~= decimal(value / 10));
        assert(d.last() == digit(value % 10));
        assert forall|i: int| 0 <= i < d.len() implies is_digit(#[trigger] d[i]) by {
            if i < d.len() - 1 {
                assert(d[i] == decimal(value / 10)[i]);
            }
        }
        assert(digits_value(d) == digits_value(d.drop_last()) * 10 + ((d.last() as nat) - ('0' as nat)) as nat);
        assert((value / 10) * 10 + value % 10 == value);
    }
}

/// Leading zeros do not change what digits are worth.
pub proof fn lemma_leading_zeros(count: int, digits: Seq<char>)
    requires
        all_digits(digits),
    ensures
        all_digits(zeros(count) + digits),
        digits_value(zeros(count) + digits) == digits_value(digits),
    decreases digits.len(),
{
    let whole = zeros(count) + digits;
    assert forall|i: int| 0 <= i < whole.len() implies is_digit(#[trigger] whole[i]) by {
        if i >= zeros(count).len() {
            assert(whole[i] == digits[i - zeros(count).len()]);
        }
    }
    assert(whole.last() == digits.last());
    assert(digits_value(whole) == digits_value(whole.drop_last()) * 10 + ((whole.last() as nat) - ('0' as nat)) as nat);
    assert(digits_value(digits) == digits_value(digits.drop_last()) * 10 + ((digits.last() as nat) - ('0' as nat)) as nat);
    if digits.len() == 1 {
        lemma_zeros_value(count);
        assert(whole.drop_last() =~= zeros(count));
        assert(digits.drop_last() =~= Seq::<char>::empty());
    } else {
        assert(all_digits(digits.drop_last()));
        lemma_leading_zeros(count, digits.drop_last());
        assert(whole.drop_last() =~= zeros(count) + digits.drop_last());
    }
}

pub proof fn lemma_zeros_value(count: int)
    ensures
        digits_value(zeros(count)) == 0,
    decreases (if count < 0 { 0 } else { count }),
{
    if count > 0 {
        lemma_zeros_value(count - 1);
        assert(zeros(count).drop_last() =~= zeros(count - 1));
        assert(zeros(count).last() == '0');
    } else {
        assert(zeros(count) =~= Seq::<char>::empty());
    }
}

/// A zero-padded number reads back as itself.
pub proof fn lemma_padded_value(value: int, width: int)
    ensures
        signed_value(padded(value, width)) == Some(value),
        forall|i: int| 0 <= i < padded(value, width).len() ==> #[trigger] padded(value, width)[i] != '_',
        value >= 0 ==> unsigned_value(padded(value, width)) == Some(value as nat),
{
    let magnitude: nat = if value < 0 { (-value) as nat } else { value as nat };
    let w = if value < 0 { width - 1 } else { width };
    lemma_decimal_value(magnitude);
    lemma_leading_zeros(w - decimal(magnitude).len(), decimal(magnitude));
    let body = zero_padded(decimal(magnitude), w);
    assert(all_digits(body));
    if value < 0 {
        assert(padded(value, width).skip(1) =~= body);
        assert(padded(value, width)[0] == '-');
        assert forall|i: int| 0 <= i < padded(value, width).len() implies #[trigger] padded(value, width)[i] != '_' by {
            if i > 0 {
                assert(padded(value, width)[i] == body[i - 1]);
                assert(is_digit(body[i - 1]));
            }
        }
    } else {
        assert(padded(value, width) == body);
        assert(body[0] != '-' && body[0] != '+') by {
            assert(is_digit(body[0]));
        }
        assert forall|i: int| 0 <= i < padded(value, width).len() implies #[trigger] padded(value, width)[i] != '_' by {
            assert(is_digit(body[i]));
        }
    }
}

} // verus!
