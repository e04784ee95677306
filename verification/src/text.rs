//! Character-level text helpers shared by the parsers and encoders.
use vstd::prelude::*;

verus! {

/// `String::push` appends one character.
pub assume_specification[ String::push ](s: &mut String, c: char)
    ensures
        final(s)@ == old(s)@.push(c),
;

/// Equality of string slices is equality of their characters.
pub assume_specification[ <str as PartialEq<str>>::eq ](left: &str, right: &str) -> (same: bool)
    ensures
        same == (left@ == right@),
;

/// Whether two byte strings are equal.
pub fn same_bytes(left: &[u8], right: &[u8]) -> (same: bool)
    ensures
        same == (left@ == right@),
{
    if left.len() != right.len() {
        return false;
    }
    let mut i: usize = 0;
    while i < left.len()
        invariant
            i <= left@.len(),
            left@.len() == right@.len(),
            left@.take(i as int) == right@.take(i as int),
        decreases left@.len() - i,
    {
        if left[i] != right[i] {
            return false;
        }
        i += 1;
        assert(left@.take(i as int) =~= left@.take(i as int - 1).push(left@[i as int - 1]));
        assert(right@.take(i as int) =~= right@.take(i as int - 1).push(right@[i as int - 1]));
    }
    assert(left@.take(left@.len() as int) =~= left@);
    assert(right@.take(right@.len() as int) =~= right@);
    true
}

/// The text that bytes spell, by `std::str::from_utf8`: bytes that are not
/// UTF-8 spell none, and others spell the characters that they encode.
#[verifier::external_body]
pub(crate) fn utf8_text(bytes: &[u8]) -> (r: Option<String>)
    ensures
        match r {
            Some(text) => vstd::utf8::valid_utf8(bytes@) && text@ == vstd::utf8::decode_utf8(
                bytes@,
            ),
            None => !vstd::utf8::valid_utf8(bytes@),
        },
{
    std::str::from_utf8(bytes).ok().map(str::to_owned)
}

/// The characters of `text`, in order.
pub fn chars_of(text: &str) -> (chars: Vec<char>)
    ensures
        chars@ == text@,
{
    let mut chars: Vec<char> = Vec::new();
    for c in it: text.chars()
        invariant
            it.seq() == text@,
            chars@ == it.seq().take(it.index() as int),
    {
        chars.push(c);
        assert(it.seq().take(it.index() as int + 1) =~= it.seq().take(it.index() as int).push(c));
    }
    assert(text@.take(text@.len() as int) =~= text@);
    chars
}

/// The text made of `chars`, in order.
pub fn text_of(chars: &[char]) -> (text: String)
    ensures
        text@ == chars@,
{
    let mut text = String::new();
    let mut i: usize = 0;
    while i < chars.len()
        invariant
            i <= chars@.len(),
            text@ == chars@.take(i as int),
        decreases chars@.len() - i,
    {
        text.push(chars[i]);
        assert(chars@.take(i as int + 1) =~= chars@.take(i as int).push(chars@[i as int]));
        i += 1;
    }
    assert(chars@.take(chars@.len() as int) =~= chars@);
    text
}

/// Whether `left` and `right` hold the same text.
pub fn same_text(left: &str, right: &str) -> (same: bool)
    ensures
        same == (left@ == right@),
{
    *left == *right
}

/// The length of the UTF-8 form of a text.
pub fn byte_length(text: &str) -> (length: usize)
    ensures
        length == vstd::utf8::encode_utf8(text@).len(),
{
    text.as_bytes().len()
}

/// The concatenation of two texts.
pub fn joined(left: &str, right: &str) -> (text: String)
    ensures
        text@ == left@ + right@,
{
    let mut text = left.to_owned();
    text.append(right);
    text
}

pub open spec fn has_prefix(text: Seq<char>, prefix: Seq<char>) -> bool {
    text.len() >= prefix.len() && text.take(prefix.len() as int) == prefix
}

/// Whether `chars` begins with `prefix`.
pub fn starts_with(chars: &[char], prefix: &str) -> (r: bool)
    ensures
        r == has_prefix(chars@, prefix@),
{
    let wanted = chars_of(prefix);
    if chars.len() < wanted.len() {
        return false;
    }
    let mut i: usize = 0;
    while i < wanted.len()
        invariant
            wanted@ == prefix@,
            wanted@.len() <= chars@.len(),
            i <= wanted@.len(),
            forall|k: int| 0 <= k < i ==> chars@[k] == wanted@[k],
        decreases wanted@.len() - i,
    {
        if chars[i] != wanted[i] {
            assert(chars@.take(prefix@.len() as int)[i as int] != prefix@[i as int]);
            return false;
        }
        i += 1;
    }
    assert(chars@.take(prefix@.len() as int) =~= prefix@);
    true
}

pub open spec fn is_decimal_digit(c: char) -> bool {
    '0' <= c <= '9'
}

pub open spec fn is_lower_hex(c: char) -> bool {
    '0' <= c <= '9' || 'a' <= c <= 'f'
}

/// A control character: U+0000..U+001F or U+007F..U+009F.
pub open spec fn is_control(c: char) -> bool {
    c <= '\u{1f}' || '\u{7f}' <= c <= '\u{9f}'
}

pub open spec fn digit_char(digit: int) -> char {
    ('0' as int + digit) as char
}

pub open spec fn hex_char(nibble: int) -> char {
    if nibble < 10 {
        ('0' as int + nibble) as char
    } else {
        ('a' as int + nibble - 10) as char
    }
}

/// The shortest decimal spelling of `n`.
pub open spec fn decimal(n: nat) -> Seq<char>
    decreases n,
{
    if n < 10 {
        seq![digit_char(n as int)]
    } else {
        decimal(n / 10).push(digit_char((n % 10) as int))
    }
}

pub open spec fn all_digits(text: Seq<char>) -> bool {
    forall|i: int| 0 <= i < text.len() ==> is_decimal_digit(#[trigger] text[i])
}

/// The number that a run of decimal digits spells.
pub open spec fn decimal_value(text: Seq<char>) -> nat
    decreases text.len(),
{
    if text.len() == 0 {
        0
    } else {
        decimal_value(text.drop_last()) * 10 + (text.last() as int - '0' as int) as nat
    }
}

/// Two lower-case hexadecimal digits per byte, high nibble first.
pub open spec fn hex_text(bytes: Seq<u8>) -> Seq<char>
    decreases bytes.len(),
{
    if bytes.len() == 0 {
        Seq::empty()
    } else {
        hex_text(bytes.drop_last()).push(hex_char(bytes.last() as int / 16)).push(
            hex_char(bytes.last() as int % 16),
        )
    }
}

/// The character of one hexadecimal digit.
pub fn hex_digit(nibble: u8) -> (c: char)
    requires
        nibble < 16,
    ensures
        c == hex_char(nibble as int),
        is_lower_hex(c),
        nibble < 10 ==> c == digit_char(nibble as int),
{
    if nibble < 10 {
        (48 + nibble) as char
    } else {
        (97 + (nibble - 10)) as char
    }
}

/// The shortest decimal spelling of a number.
pub fn decimal_text(n: u64) -> (text: String)
    ensures
        text@ == decimal(n as nat),
    decreases n,
{
    if n < 10 {
        let mut text = String::new();
        text.push(hex_digit(n as u8));
        assert(text@ =~= decimal(n as nat));
        text
    } else {
        let mut text = decimal_text(n / 10);
        text.push(hex_digit((n % 10) as u8));
        text
    }
}

/// Lower-case hexadecimal spelling of `bytes`.
pub fn hex_of(bytes: &[u8]) -> (text: String)
    ensures
        text@ == hex_text(bytes@),
{
    let mut text = String::new();
    let mut i: usize = 0;
    while i < bytes.len()
        invariant
            i <= bytes@.len(),
            text@ == hex_text(bytes@.take(i as int)),
        decreases bytes@.len() - i,
    {
        text.push(hex_digit(bytes[i] / 16));
        text.push(hex_digit(bytes[i] % 16));
        assert(bytes@.take(i as int + 1).drop_last() =~= bytes@.take(i as int));
        i += 1;
    }
    assert(bytes@.take(bytes@.len() as int) =~= bytes@);
    text
}

/// Reads a nonempty run of decimal digits that fits in 128 bits.
pub fn wide_digits_value(chars: &[char]) -> (value: Option<u128>)
    ensures
        value is Some <==> chars@.len() > 0 && all_digits(chars@) && decimal_value(chars@)
            <= u128::MAX,
        value matches Some(v) ==> v == decimal_value(chars@),
{
    if chars.len() == 0 {
        return None;
    }
    let mut value: u128 = 0;
    let mut i: usize = 0;
    while i < chars.len()
        invariant
            i <= chars@.len(),
            all_digits(chars@.take(i as int)),
            value == decimal_value(chars@.take(i as int)),
        decreases chars@.len() - i,
    {
        let c = chars[i];
        proof {
            lemma_decimal_value_prefix(chars@, i as int + 1);
            assert(chars@.take(i as int + 1).drop_last() =~= chars@.take(i as int));
        }
        if !('0' <= c && c <= '9') {
            assert(!is_decimal_digit(chars@[i as int]));
            return None;
        }
        let digit: u128 = (c as u32 - '0' as u32) as u128;
        if value > (u128::MAX - digit) / 10 {
            return None;
        }
        value = value * 10 + digit;
        assert(all_digits(chars@.take(i as int + 1))) by {
            assert forall|k: int| 0 <= k < i + 1 implies is_decimal_digit(
                #[trigger] chars@.take(i as int + 1)[k],
            ) by {
                if k < i {
                    assert(chars@.take(i as int)[k] == chars@[k]);
                }
            }
        }
        i += 1;
    }
    assert(chars@.take(chars@.len() as int) =~= chars@);
    Some(value)
}

/// Reads a nonempty run of decimal digits that fits in 64 bits.
pub fn digits_value(chars: &[char]) -> (value: Option<u64>)
    ensures
        value is Some <==> chars@.len() > 0 && all_digits(chars@) && decimal_value(chars@)
            <= u64::MAX,
        value matches Some(v) ==> v == decimal_value(chars@),
{
    match wide_digits_value(chars) {
        Some(value) => if value <= u64::MAX as u128 {
            Some(value as u64)
        } else {
            None
        },
        None => None,
    }
}

/// A decimal number as integer parsing reads it: digits after at most one plus
/// sign, within `max`.
pub open spec fn parsed_number(chars: Seq<char>, max: nat) -> Option<nat> {
    let digits = if chars.len() > 0 && chars[0] == '+' {
        chars.skip(1)
    } else {
        chars
    };
    if digits.len() > 0 && all_digits(digits) && decimal_value(digits) <= max {
        Some(decimal_value(digits))
    } else {
        None
    }
}

/// Reads a decimal number of at most `max`, with at most one plus sign before
/// its digits.
pub fn parse_number(chars: &[char], max: u64) -> (value: Option<u64>)
    ensures
        match value {
            Some(v) => parsed_number(chars@, max as nat) == Some(v as nat),
            None => parsed_number(chars@, max as nat) is None,
        },
{
    let digits = if chars.len() > 0 && chars[0] == '+' {
        vstd::slice::slice_subrange(chars, 1, chars.len())
    } else {
        chars
    };
    assert(chars@.len() > 0 && chars@[0] == '+' ==> digits@ =~= chars@.skip(1));
    match digits_value(digits) {
        Some(value) => if value <= max {
            Some(value)
        } else {
            None
        },
        None => None,
    }
}

/// A longer run of digits never spells a smaller number.
pub proof fn lemma_decimal_value_prefix(text: Seq<char>, n: int)
    requires
        0 <= n <= text.len(),
    ensures
        all_digits(text) ==> decimal_value(text.take(n)) <= decimal_value(text),
    decreases text.len() - n,
{
    if n < text.len() {
        lemma_decimal_value_prefix(text, n + 1);
        assert(text.take(n + 1).drop_last() =~= text.take(n));
        assert(text.take(n + 1).last() == text[n]);
        if all_digits(text) {
            assert(is_decimal_digit(text[n]));
        }
    } else {
        assert(text.take(n) =~= text);
    }
}

/// The decimal spelling of a number is a nonempty run of digits that spells it
/// back, without a leading zero unless the number is zero.
pub proof fn lemma_decimal_spells(n: nat)
    ensures
        decimal(n).len() > 0,
        all_digits(decimal(n)),
        decimal_value(decimal(n)) == n,
        decimal(n)[0] == '0' ==> n == 0,
    decreases n,
{
    if n >= 10 {
        lemma_decimal_spells(n / 10);
        assert(decimal(n).drop_last() =~= decimal(n / 10));
    } else {
        assert(decimal(n).drop_last() =~= Seq::empty());
        assert(decimal_value(Seq::<char>::empty()) == 0);
    }
}

/// A 64-bit number has no more than twenty decimal digits.
pub proof fn lemma_decimal_length(n: nat)
    requires
        n <= u64::MAX,
    ensures
        decimal(n).len() <= 20,
{
    reveal_with_fuel(decimal, 21);
}

/// A run of digits without a superfluous leading zero is the spelling of the
/// number it spells.
pub proof fn lemma_canonical_digits(text: Seq<char>)
    requires
        text.len() > 0,
        all_digits(text),
        text[0] == '0' ==> text.len() == 1,
    ensures
        decimal(decimal_value(text)) == text,
    decreases text.len(),
{
    let last = text.last();
    assert(is_decimal_digit(text[text.len() - 1]));
    let d = (last as int - '0' as int);
    assert(digit_char(d) == last);
    if text.len() == 1 {
        assert(text.drop_last() =~= Seq::empty());
        assert(decimal_value(text.drop_last()) == 0);
        assert(text =~= seq![last]);
    } else {
        let front = text.drop_last();
        assert(front[0] == text[0]);
        assert forall|i: int| 0 <= i < front.len() implies is_decimal_digit(#[trigger] front[i]) by {
            assert(is_decimal_digit(text[i]));
        }
        lemma_canonical_digits(front);
        lemma_positive_digits(front);
        let v = decimal_value(front);
        assert(decimal_value(text) == v * 10 + d);
        assert((v * 10 + d) / 10 == v && (v * 10 + d) % 10 == d) by (nonlinear_arith)
            requires
                0 <= d < 10,
                v >= 0,
        ;
        assert(text =~= front.push(last));
    }
}

proof fn lemma_positive_digits(text: Seq<char>)
    requires
        text.len() > 0,
        all_digits(text),
        text[0] != '0',
    ensures
        decimal_value(text) > 0,
    decreases text.len(),
{
    assert(is_decimal_digit(text[0]));
    if text.len() > 1 {
        let front = text.drop_last();
        assert(front[0] == text[0]);
        assert forall|i: int| 0 <= i < front.len() implies is_decimal_digit(#[trigger] front[i]) by {
            assert(is_decimal_digit(text[i]));
        }
        lemma_positive_digits(front);
        assert(is_decimal_digit(text[text.len() - 1]));
    } else {
        assert(text.drop_last() =~= Seq::empty());
        assert(decimal_value(text.drop_last()) == 0);
    }
}

/// Hexadecimal spelling doubles the length and uses lower-case digits only.
pub proof fn lemma_hex_text(bytes: Seq<u8>)
    ensures
        hex_text(bytes).len() == 2 * bytes.len(),
        forall|i: int| 0 <= i < hex_text(bytes).len() ==> is_lower_hex(#[trigger] hex_text(bytes)[i]),
    decreases bytes.len(),
{
    if bytes.len() > 0 {
        lemma_hex_text(bytes.drop_last());
    }
}

/// The order of texts by code points, which is also the order of their UTF-8
/// bytes.
pub open spec fn precedes(left: Seq<char>, right: Seq<char>) -> bool
    decreases right.len(),
{
    if right.len() == 0 {
        false
    } else if left.len() == 0 {
        true
    } else if left[0] != right[0] {
        left[0] < right[0]
    } else {
        precedes(left.skip(1), right.skip(1))
    }
}

/// Whether one text comes before another.
pub fn is_before(left: &str, right: &str) -> (r: bool)
    ensures
        r == precedes(left@, right@),
{
    let a = chars_of(left);
    let b = chars_of(right);
    let mut i: usize = 0;
    assert(a@.skip(0) =~= a@);
    assert(b@.skip(0) =~= b@);
    while i < a.len() && i < b.len()
        invariant
            i <= a@.len(),
            i <= b@.len(),
            a@ == left@,
            b@ == right@,
            precedes(a@, b@) == precedes(a@.skip(i as int), b@.skip(i as int)),
        decreases a@.len() - i,
    {
        assert(a@.skip(i as int).skip(1) =~= a@.skip(i as int + 1));
        assert(b@.skip(i as int).skip(1) =~= b@.skip(i as int + 1));
        if a[i] != b[i] {
            return a[i] < b[i];
        }
        i += 1;
    }
    i < b.len()
}

/// Texts are ordered one way or the other, unless they are equal.
pub proof fn lemma_precedes_total(left: Seq<char>, right: Seq<char>)
    ensures
        precedes(left, right) || precedes(right, left) || left == right,
        !(precedes(left, right) && precedes(right, left)),
        left == right ==> !precedes(left, right),
    decreases right.len(),
{
    if left.len() > 0 && right.len() > 0 && left[0] == right[0] {
        lemma_precedes_total(left.skip(1), right.skip(1));
        if left.skip(1) == right.skip(1) {
            assert(left =~= seq![left[0]] + left.skip(1));
            assert(right =~= seq![right[0]] + right.skip(1));
        }
    } else if left.len() == 0 && right.len() == 0 {
        assert(left =~= right);
    }
}

/// The order of texts is transitive.
pub proof fn lemma_precedes_transitive(first: Seq<char>, second: Seq<char>, third: Seq<char>)
    requires
        precedes(first, second),
        precedes(second, third),
    ensures
        precedes(first, third),
    decreases third.len(),
{
    if first.len() > 0 && first[0] == second[0] && second[0] == third[0] {
        lemma_precedes_transitive(first.skip(1), second.skip(1), third.skip(1));
    }
}

/// A number is read from its digits, with a plus sign or without, if it is not
/// above the bound; nothing else is a number.
pub proof fn law_numbers_are_read_from_their_digits(n: nat, max: nat, chars: Seq<char>)
    ensures
        parsed_number(decimal(n), max) == (if n <= max {
            Some(n)
        } else {
            None
        }),
        parsed_number(seq!['+'] + decimal(n), max) == parsed_number(decimal(n), max),
        parsed_number(Seq::empty(), max) is None,
        parsed_number(chars, max) matches Some(value) ==> value <= max,
        parsed_number(chars, max) is Some ==> chars.len() > 0 && forall|i: int|
            0 < i < chars.len() ==> 48 <= (#[trigger] chars[i]) as int <= 57,
{
    lemma_decimal_spells(n);
    let digits = decimal(n);
    assert(is_decimal_digit(digits[0]));
    assert((seq!['+'] + digits).skip(1) =~= digits);
    if parsed_number(chars, max) is Some {
        let found = if chars[0] == '+' {
            chars.skip(1)
        } else {
            chars
        };
        assert forall|i: int| 0 < i < chars.len() implies 48 <= (#[trigger] chars[i]) as int
            <= 57 by {
            if chars[0] == '+' {
                assert(is_decimal_digit(found[i - 1]));
            } else {
                assert(is_decimal_digit(found[i]));
            }
        }
    }
}

/// The control characters are those below the space, the delete character and
/// those of the second block.
pub proof fn law_control_characters(c: char)
    ensures
        is_control(c) <==> (c as int) < 32 || 127 <= c as int <= 159,
{
}

/// A text precedes another if it is shorter and the other continues it, or if
/// it has the lesser character where they first differ.
pub proof fn law_texts_are_ordered_by_their_first_difference(
    common: Seq<char>,
    left: Seq<char>,
    right: Seq<char>,
)
    requires
        left.len() > 0 && right.len() > 0 ==> left[0] != right[0],
    ensures
        precedes(common + left, common + right) <==> right.len() > 0 && (left.len() == 0 || (
        left[0] as int) < (right[0] as int)),
    decreases common.len(),
{
    if common.len() > 0 {
        let x = common + left;
        let y = common + right;
        assert(x[0] == common[0] && y[0] == common[0]);
        assert(x.skip(1) =~= common.skip(1) + left);
        assert(y.skip(1) =~= common.skip(1) + right);
        law_texts_are_ordered_by_their_first_difference(common.skip(1), left, right);
    } else {
        assert(common + left =~= left);
        assert(common + right =~= right);
    }
}

/// Every byte is spelled by two hexadecimal digits, and different bytes are
/// spelled differently.
pub proof fn law_bytes_are_spelled_apart(left: Seq<u8>, right: Seq<u8>)
    ensures
        hex_text(left).len() == 2 * left.len(),
        hex_text(left) == hex_text(right) ==> left == right,
    decreases left.len(),
{
    lemma_hex_text(left);
    lemma_hex_text(right);
    if hex_text(left) == hex_text(right) {
        if left.len() > 0 {
            let x = hex_text(left);
            let y = hex_text(right);
            let n = x.len();
            assert(x.take(n - 2) =~= hex_text(left.drop_last()));
            assert(y.take(n - 2) =~= hex_text(right.drop_last()));
            assert(x[n - 2] == hex_char(left.last() as int / 16));
            assert(y[n - 2] == hex_char(right.last() as int / 16));
            assert(x[n - 1] == hex_char(left.last() as int % 16));
            assert(y[n - 1] == hex_char(right.last() as int % 16));
            law_bytes_are_spelled_apart(left.drop_last(), right.drop_last());
            assert(left =~= left.drop_last().push(left.last()));
            assert(right =~= right.drop_last().push(right.last()));
        } else {
            assert(left =~= right);
        }
    }
}

} // verus!
