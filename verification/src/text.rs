//! Small facts about text that the rest of the library relies on.
use vstd::prelude::*;

verus! {

/// Whether two strings hold the same characters.
pub fn same_text(a: &str, b: &str) -> (same: bool)
    ensures
        same == (a@ == b@),
{
    let length = a.unicode_len();
    if length != b.unicode_len() {
        return false;
    }
    let mut i: usize = 0;
    while i < length
        invariant
            length == a@.len(),
            length == b@.len(),
            0 <= i <= length,
            forall|j: int| 0 <= j < i ==> a@[j] == b@[j],
        decreases length - i,
    {
        if a.get_char(i) != b.get_char(i) {
            return false;
        }
        i = i + 1;
    }
    assert(a@ =~= b@);
    true
}

/// Whether `c` has the Unicode `White_Space` property: the ASCII controls
/// tab to carriage return, space, next line, no-break space, Ogham space
/// mark, the general punctuation spaces, the line and paragraph separators,
/// the narrow no-break and medium mathematical spaces, and ideographic space.
pub open spec fn white_space(c: char) -> bool {
    let v = c as u32;
    ||| (0x09 <= v <= 0x0D)
    ||| v == 0x20
    ||| v == 0x85
    ||| v == 0xA0
    ||| v == 0x1680
    ||| (0x2000 <= v <= 0x200A)
    ||| v == 0x2028
    ||| v == 0x2029
    ||| v == 0x202F
    ||| v == 0x205F
    ||| v == 0x3000
}

/// Whether a character is white space, by `char::is_whitespace`, which
/// tests the `White_Space` property.
#[verifier::external_body]
fn is_white_space(c: char) -> (white: bool)
    ensures
        white == white_space(c),
{
    c.is_whitespace()
}

/// Whether a string is empty once white space is trimmed from both ends,
/// that is, whether every character is white space.
pub open spec fn blank(text: Seq<char>) -> bool {
    forall|i: int| 0 <= i < text.len() ==> white_space(#[trigger] text[i])
}

/// Whether a string holds nothing but white space.
pub fn is_blank(text: &str) -> (is: bool)
    ensures
        is == blank(text@),
{
    let length = text.unicode_len();
    let mut i: usize = 0;
    while i < length
        invariant
            length == text@.len(),
            0 <= i <= length,
            forall|j: int| 0 <= j < i ==> white_space(#[trigger] text@[j]),
        decreases length - i,
    {
        if !is_white_space(text.get_char(i)) {
            return false;
        }
        i = i + 1;
    }
    true
}

/// Where the text left after trimming white space from both ends starts.
pub open spec fn trim_start(text: Seq<char>) -> int
    decreases text.len(),
{
    if text.len() == 0 || !white_space(text[0]) {
        0
    } else {
        1 + trim_start(text.drop_first())
    }
}

/// Where the text left after trimming white space from both ends stops.
pub open spec fn trim_end(text: Seq<char>) -> int
    decreases text.len(),
{
    if text.len() == 0 || !white_space(text.last()) {
        text.len() as int
    } else {
        trim_end(text.drop_last())
    }
}

/// The text with white space trimmed from both ends, as `str::trim` leaves it.
pub open spec fn trimmed(text: Seq<char>) -> Seq<char> {
    if trim_start(text) >= trim_end(text) {
        Seq::empty()
    } else {
        text.subrange(trim_start(text), trim_end(text))
    }
}

proof fn lemma_trim_start(text: Seq<char>)
    ensures
        0 <= trim_start(text) <= text.len(),
        forall|i: int| 0 <= i < trim_start(text) ==> white_space(#[trigger] text[i]),
        trim_start(text) < text.len() ==> !white_space(text[trim_start(text)]),
    decreases text.len(),
{
    if text.len() > 0 && white_space(text[0]) {
        let rest = text.drop_first();
        lemma_trim_start(rest);
        assert forall|i: int| 0 <= i < trim_start(text) implies white_space(#[trigger] text[i]) by {
            if i > 0 {
                assert(text[i] == rest[i - 1]);
            }
        }
        if trim_start(text) < text.len() {
            assert(text[trim_start(text)] == rest[trim_start(rest)]);
        }
    }
}

proof fn lemma_trim_end(text: Seq<char>)
    ensures
        0 <= trim_end(text) <= text.len(),
        forall|i: int| trim_end(text) <= i < text.len() ==> white_space(#[trigger] text[i]),
        trim_end(text) > 0 ==> !white_space(text[trim_end(text) - 1]),
    decreases text.len(),
{
    if text.len() > 0 && white_space(text.last()) {
        let rest = text.drop_last();
        lemma_trim_end(rest);
        assert forall|i: int| trim_end(text) <= i < text.len() implies white_space(#[trigger] text[i]) by {
            if i < text.len() - 1 {
                assert(text[i] == rest[i]);
            }
        }
        if trim_end(text) > 0 {
            assert(text[trim_end(text) - 1] == rest[trim_end(rest) - 1]);
        }
    }
}

/// The text with white space trimmed from both ends.
pub fn trim(text: &str) -> (inner: &str)
    ensures
        inner@ == trimmed(text@),
{
    proof {
        lemma_trim_start(text@);
        lemma_trim_end(text@);
    }
    let length = text.unicode_len();
    let mut start: usize = 0;
    while start < length && is_white_space(text.get_char(start))
        invariant
            length == text@.len(),
            0 <= start <= trim_start(text@),
            forall|i: int| 0 <= i < trim_start(text@) ==> white_space(#[trigger] text@[i]),
            trim_start(text@) < text@.len() ==> !white_space(text@[trim_start(text@)]),
            trim_start(text@) <= text@.len(),
        decreases length - start,
    {
        start = start + 1;
    }
    let mut end: usize = length;
    while end > start && is_white_space(text.get_char(end - 1))
        invariant
            length == text@.len(),
            start == trim_start(text@),
            start <= end <= length,
            trim_end(text@) <= end,
            forall|i: int| trim_end(text@) <= i < text@.len() ==> white_space(#[trigger] text@[i]),
            trim_end(text@) > 0 ==> !white_space(text@[trim_end(text@) - 1]),
            trim_end(text@) <= text@.len(),
            start < text@.len() ==> !white_space(text@[start as int]),
        decreases end,
    {
        end = end - 1;
    }
    proof {
        if start < end {
            assert(end == trim_end(text@));
        } else {
            assert(trim_start(text@) >= trim_end(text@));
        }
    }
    text.substring_char(start, end)
}

/// `str::to_lowercase`: the text with every character lowercased, Unicode-wise.
pub uninterp spec fn lowercase(text: Seq<char>) -> Seq<char>;

/// `str::to_lowercase`.
#[verifier::external_body]
pub(crate) fn to_lowercase(text: &str) -> (lower: String)
    ensures
        lower@ == lowercase(text@),
{
    text.to_lowercase()
}

/// Append one character, by `String::push`.
#[verifier::external_body]
pub(crate) fn push_char(text: &mut String, c: char)
    ensures
        final(text)@ == old(text)@.push(c),
{
    text.push(c);
}

/// The decimal digits of `value`, most significant first, without leading zeros.
pub open spec fn decimal(value: nat) -> Seq<char>
    decreases value,
{
    if value < 10 {
        seq![digit(value)]
    } else {
        decimal(value / 10).push(digit(value % 10))
    }
}

/// The character for one decimal digit.
pub open spec fn digit(value: nat) -> char {
    if value == 0 {
        '0'
    } else if value == 1 {
        '1'
    } else if value == 2 {
        '2'
    } else if value == 3 {
        '3'
    } else if value == 4 {
        '4'
    } else if value == 5 {
        '5'
    } else if value == 6 {
        '6'
    } else if value == 7 {
        '7'
    } else if value == 8 {
        '8'
    } else {
        '9'
    }
}

fn digit_char(value: u64) -> (c: char)
    requires
        value < 10,
    ensures
        c == digit(value as nat),
{
    if value == 0 {
        '0'
    } else if value == 1 {
        '1'
    } else if value == 2 {
        '2'
    } else if value == 3 {
        '3'
    } else if value == 4 {
        '4'
    } else if value == 5 {
        '5'
    } else if value == 6 {
        '6'
    } else if value == 7 {
        '7'
    } else if value == 8 {
        '8'
    } else {
        '9'
    }
}

/// Append the decimal digits of `value`.
pub fn push_decimal(text: &mut String, value: u64)
    ensures
        final(text)@ == old(text)@ + decimal(value as nat),
    decreases value,
{
    if value >= 10 {
        push_decimal(text, value / 10);
    }
    push_char(text, digit_char(value % 10));
    proof {
        if value >= 10 {
            assert(decimal(value as nat) == decimal((value / 10) as nat).push(digit((value % 10) as nat)));
        }
    }
    assert(final(text)@ =~= old(text)@ + decimal(value as nat)) by {
        if value >= 10 {
            assert(decimal(value as nat) == decimal((value / 10) as nat).push(digit((value % 10) as nat)));
        }
    }
}

/// The decimal form of a signed integer, with a minus sign when negative.
pub open spec fn signed_decimal(value: int) -> Seq<char> {
    if value < 0 {
        seq!['-'] + decimal((-value) as nat)
    } else {
        decimal(value as nat)
    }
}

/// Append the decimal form of a signed integer.
pub fn push_signed_decimal(text: &mut String, value: i64)
    ensures
        final(text)@ == old(text)@ + signed_decimal(value as int),
{
    if value < 0 {
        push_char(text, '-');
        let magnitude: u64 = if value == i64::MIN {
            9_223_372_036_854_775_808
        } else {
            (-value) as u64
        };
        let ghost before = text@;
        push_decimal(text, magnitude);
        assert(text@ =~= old(text)@ + signed_decimal(value as int));
    } else {
        push_decimal(text, value as u64);
    }
}

} // verus!
