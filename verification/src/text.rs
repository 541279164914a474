//! Text as sequences of characters: conversions and the number formats that
//! the emulator prints.

use vstd::prelude::*;
use vstd::arithmetic::power2::{lemma2_to64, lemma_pow2_unfold, pow2};

verus! {

/// `String::push` of the standard library appends one character to the end
/// of the string and leaves the rest as it was.
pub assume_specification[ String::push ](text: &mut String, symbol: char)
    ensures
        final(text)@ == old(text)@.push(symbol),
;

/// The characters of a text, in order.
pub fn to_chars(text: &str) -> (chars: Vec<char>)
    ensures
        chars@ == text@,
{
    let mut chars: Vec<char> = Vec::new();
    for symbol in iter: text.chars()
        invariant
            iter.seq() == text@,
            chars@ == text@.take(iter.index()),
    {
        assert(text@.take(iter.index() + 1) == text@.take(iter.index()).push(symbol));
        chars.push(symbol);
    }
    assert(text@.take(text@.len() as int) == text@);
    chars
}

/// The text that holds the characters `chars[from..to]`.
pub fn to_text(chars: &Vec<char>, from: usize, to: usize) -> (text: String)
    requires
        from <= to <= chars.len(),
    ensures
        text@ == chars@.subrange(from as int, to as int),
{
    let mut text = String::new();
    let mut i: usize = from;
    while i < to
        invariant
            from <= i <= to <= chars.len(),
            text@ == chars@.subrange(from as int, i as int),
        decreases to - i,
    {
        assert(chars@.subrange(from as int, i + 1) == chars@.subrange(from as int, i as int).push(
            chars@[i as int],
        ));
        text.push(chars[i]);
        i += 1;
    }
    text
}

/// The character of a digit below sixteen; the digits from ten on are the
/// capital letters `A` to `F`.
pub open spec fn digit_char(digit: int) -> char {
    if digit < 10 {
        (48 + digit) as char
    } else {
        (55 + digit) as char
    }
}

/// Computes [`digit_char`].
pub fn digit(value: u8) -> (symbol: char)
    requires
        value < 16,
    ensures
        symbol == digit_char(value as int),
{
    if value < 10 {
        (48 + value) as char
    } else {
        (55 + value) as char
    }
}

/// A byte in capital hexadecimal digits, without leading zeros.
pub open spec fn hex_text(value: u8) -> Seq<char> {
    if value < 16 {
        seq![digit_char(value as int)]
    } else {
        seq![digit_char(value as int / 16), digit_char(value as int % 16)]
    }
}

/// Appends [`hex_text`] of `value` to `text`.
pub fn push_hex(text: &mut String, value: u8)
    ensures
        final(text)@ == old(text)@ + hex_text(value),
{
    if value >= 16 {
        text.push(digit(value / 16));
    }
    text.push(digit(value % 16));
}

/// The lowest `width` binary digits of `value`, highest first.
pub open spec fn binary_text(value: int, width: nat) -> Seq<char>
    decreases width,
{
    if width == 0 {
        Seq::empty()
    } else {
        binary_text(value / 2, (width - 1) as nat).push(digit_char(value % 2))
    }
}

/// Appends [`binary_text`] of `value` with `width` digits to `text`.
pub fn push_binary(text: &mut String, value: u8, width: u8)
    ensures
        final(text)@ == old(text)@ + binary_text(value as int, width as nat),
    decreases width,
{
    if width > 0 {
        push_binary(text, value / 2, width - 1);
        text.push(digit(value % 2));
    }
}

/// The index of the first `wanted` in `text`, or the length of `text` if it
/// holds none.
pub open spec fn position_of(text: Seq<char>, wanted: char) -> nat
    decreases text.len(),
{
    if text.len() == 0 || text.first() == wanted {
        0
    } else {
        1 + position_of(text.drop_first(), wanted)
    }
}

/// [`position_of`] is at most the length; no character before it is the
/// wanted one; the character at it is, unless it is the length.
pub proof fn lemma_position_of(text: Seq<char>, wanted: char)
    ensures
        position_of(text, wanted) <= text.len(),
        forall|i: int| 0 <= i < position_of(text, wanted) ==> text[i] != wanted,
        position_of(text, wanted) < text.len() ==> text[position_of(text, wanted) as int]
            == wanted,
    decreases text.len(),
{
    if text.len() == 0 || text.first() == wanted {
    } else {
        let rest = text.drop_first();
        lemma_position_of(rest, wanted);
        assert forall|i: int| 0 <= i < position_of(text, wanted) implies text[i] != wanted by {
            if i > 0 {
                assert(text[i] == rest[i - 1]);
            }
        }
        assert(position_of(rest, wanted) < rest.len() ==> rest[position_of(rest, wanted) as int]
            == text[position_of(text, wanted) as int]);
    }
}

/// An index with the three properties of [`lemma_position_of`] is
/// [`position_of`].
pub proof fn lemma_position_of_unique(text: Seq<char>, wanted: char, index: int)
    requires
        0 <= index <= text.len(),
        forall|i: int| 0 <= i < index ==> text[i] != wanted,
        index < text.len() ==> text[index] == wanted,
    ensures
        index == position_of(text, wanted),
{
    lemma_position_of(text, wanted);
    let found = position_of(text, wanted) as int;
    if found < index {
        assert(text[found] != wanted);
    }
    if index < found {
        assert(text[index] != wanted);
    }
}

/// The index of the first `wanted` in `chars[from..to]`, or `to`.
pub fn find(chars: &Vec<char>, from: usize, to: usize, wanted: char) -> (index: usize)
    requires
        from <= to <= chars.len(),
    ensures
        from <= index <= to,
        index - from == position_of(chars@.subrange(from as int, to as int), wanted),
{
    let ghost range = chars@.subrange(from as int, to as int);
    let mut index: usize = from;
    while index < to && chars[index] != wanted
        invariant
            from <= index <= to <= chars.len(),
            range == chars@.subrange(from as int, to as int),
            forall|i: int| 0 <= i < index - from ==> range[i] != wanted,
        decreases to - index,
    {
        index += 1;
    }
    proof {
        lemma_position_of_unique(range, wanted, index - from);
    }
    index
}

/// White space: the characters that Unicode gives the property White_Space.
pub open spec fn is_white_space(symbol: char) -> bool {
    let code = symbol as u32;
    ||| 0x09 <= code <= 0x0D
    ||| code == 0x20
    ||| code == 0x85
    ||| code == 0xA0
    ||| code == 0x1680
    ||| 0x2000 <= code <= 0x200A
    ||| code == 0x2028
    ||| code == 0x2029
    ||| code == 0x202F
    ||| code == 0x205F
    ||| code == 0x3000
}

/// Computes [`is_white_space`].
pub fn is_space(symbol: char) -> (space: bool)
    ensures
        space == is_white_space(symbol),
{
    let code = symbol as u32;
    (0x09 <= code && code <= 0x0D) || code == 0x20 || code == 0x85 || code == 0xA0 || code
        == 0x1680 || (0x2000 <= code && code <= 0x200A) || code == 0x2028 || code == 0x2029
        || code == 0x202F || code == 0x205F || code == 0x3000
}

/// A text without the white space at its start.
pub open spec fn trim_start(text: Seq<char>) -> Seq<char>
    decreases text.len(),
{
    if text.len() > 0 && is_white_space(text.first()) {
        trim_start(text.drop_first())
    } else {
        text
    }
}

/// A text without the white space at its end.
pub open spec fn trim_end(text: Seq<char>) -> Seq<char>
    decreases text.len(),
{
    if text.len() > 0 && is_white_space(text.last()) {
        trim_end(text.drop_last())
    } else {
        text
    }
}

/// A text without the white space at its start and at its end.
pub open spec fn trimmed(text: Seq<char>) -> Seq<char> {
    trim_end(trim_start(text))
}

/// Cutting `count` characters of white space off the start leaves
/// [`trim_start`], if the next character is none.
pub proof fn lemma_trim_start(text: Seq<char>, count: int)
    requires
        0 <= count <= text.len(),
        forall|i: int| 0 <= i < count ==> is_white_space(text[i]),
        count < text.len() ==> !is_white_space(text[count]),
    ensures
        trim_start(text) == text.skip(count),
    decreases count,
{
    if count == 0 {
        assert(text.skip(0) == text);
    } else {
        let rest = text.drop_first();
        assert forall|i: int| 0 <= i < count - 1 implies is_white_space(rest[i]) by {
            assert(rest[i] == text[i + 1]);
        }
        lemma_trim_start(rest, count - 1);
        assert(rest.skip(count - 1) == text.skip(count));
    }
}

/// Keeping the first `kept` characters leaves [`trim_end`], if all that
/// follow are white space and the last of the kept is none.
pub proof fn lemma_trim_end(text: Seq<char>, kept: int)
    requires
        0 <= kept <= text.len(),
        forall|i: int| kept <= i < text.len() ==> is_white_space(text[i]),
        kept > 0 ==> !is_white_space(text[kept - 1]),
    ensures
        trim_end(text) == text.take(kept),
    decreases text.len() - kept,
{
    if kept == text.len() {
        assert(text.take(kept) == text);
    } else {
        let rest = text.drop_last();
        lemma_trim_end(rest, kept);
        assert(rest.take(kept) == text.take(kept));
    }
}

/// The bounds of `chars[from..to]` without the white space at its start and
/// at its end.
pub fn trim(chars: &Vec<char>, from: usize, to: usize) -> (bounds: (usize, usize))
    requires
        from <= to <= chars.len(),
    ensures
        from <= bounds.0 <= bounds.1 <= to,
        chars@.subrange(bounds.0 as int, bounds.1 as int) == trimmed(
            chars@.subrange(from as int, to as int),
        ),
{
    let ghost range = chars@.subrange(from as int, to as int);
    let mut first: usize = from;
    while first < to && is_space(chars[first])
        invariant
            from <= first <= to <= chars.len(),
            range == chars@.subrange(from as int, to as int),
            forall|i: int| 0 <= i < first - from ==> is_white_space(range[i]),
        decreases to - first,
    {
        first += 1;
    }
    let ghost rest = range.skip(first - from);
    let mut last: usize = to;
    while last > first && is_space(chars[last - 1])
        invariant
            from <= first <= last <= to <= chars.len(),
            range == chars@.subrange(from as int, to as int),
            rest == range.skip(first - from),
            forall|i: int| last - first <= i < rest.len() ==> is_white_space(rest[i]),
        decreases last,
    {
        last -= 1;
    }
    proof {
        lemma_trim_start(range, first - from);
        lemma_trim_end(rest, last - first);
        assert(rest.take(last - first) == chars@.subrange(first as int, last as int));
    }
    (first, last)
}

/// Whether a character is a binary digit.
pub open spec fn is_binary_digit(symbol: char) -> bool {
    symbol == '0' || symbol == '1'
}

/// Whether a text holds binary digits only.
pub open spec fn is_binary(text: Seq<char>) -> bool {
    forall|i: int| 0 <= i < text.len() ==> is_binary_digit(#[trigger] text[i])
}

/// The binary digits of a text, in order; all other characters are left out.
pub open spec fn binary_digits(text: Seq<char>) -> Seq<char>
    decreases text.len(),
{
    if text.len() == 0 {
        Seq::empty()
    } else if is_binary_digit(text.last()) {
        binary_digits(text.drop_last()).push(text.last())
    } else {
        binary_digits(text.drop_last())
    }
}

/// The number that a text of binary digits denotes, highest digit first.
pub open spec fn binary_number(digits: Seq<char>) -> nat
    decreases digits.len(),
{
    if digits.len() == 0 {
        0
    } else {
        2 * binary_number(digits.drop_last()) + (if digits.last() == '1' {
            1nat
        } else {
            0nat
        })
    }
}

/// A text of `n` binary digits denotes a number below two to the power of
/// `n`.
pub proof fn lemma_binary_number_bound(text: Seq<char>)
    ensures
        binary_number(text) < pow2(text.len()),
    decreases text.len(),
{
    if text.len() == 0 {
        lemma2_to64();
    } else {
        lemma_binary_number_bound(text.drop_last());
        lemma_pow2_unfold(text.len());
    }
}

/// The number that the binary digits of a text denote.
pub open spec fn digits_number(text: Seq<char>) -> nat {
    binary_number(binary_digits(text))
}

/// A number, or the greatest `u32` where it is greater.
pub open spec fn saturated(number: nat) -> u32 {
    if number > u32::MAX {
        u32::MAX
    } else {
        number as u32
    }
}

/// The number that the binary digits of `chars[from..to]` denote, or the
/// greatest `u32` where it is greater.
pub fn read_binary(chars: &Vec<char>, from: usize, to: usize) -> (number: u32)
    requires
        from <= to <= chars.len(),
    ensures
        number == saturated(digits_number(chars@.subrange(from as int, to as int))),
{
    let mut number: u32 = 0;
    let mut i: usize = from;
    while i < to
        invariant
            from <= i <= to <= chars.len(),
            number == saturated(digits_number(chars@.subrange(from as int, i as int))),
        decreases to - i,
    {
        let symbol = chars[i];
        proof {
            let before = chars@.subrange(from as int, i as int);
            let after = chars@.subrange(from as int, i + 1);
            assert(after.drop_last() == before);
            assert(after.last() == symbol);
            if symbol == '0' || symbol == '1' {
                assert(binary_digits(after) == binary_digits(before).push(symbol));
                assert(binary_digits(after).drop_last() == binary_digits(before));
            } else {
                assert(binary_digits(after) == binary_digits(before));
            }
        }
        if symbol == '0' || symbol == '1' {
            let bit: u64 = if symbol == '1' { 1 } else { 0 };
            let next: u64 = 2 * (number as u64) + bit;
            number = if next > u32::MAX as u64 { u32::MAX } else { next as u32 };
        }
        i += 1;
    }
    number
}

} // verus!
