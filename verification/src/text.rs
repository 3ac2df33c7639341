//! Character-level text operations.
//!
//! Object keys and entry names are ordered and compared by code point, which
//! is the order of their UTF-8 bytes. Text is modelled as a `Seq<char>`.

use vstd::prelude::*;

verus! {

broadcast use vstd::string::group_string_axioms;

/// Appending one character to a `String` adds it at the end.
pub assume_specification[ String::push ](buffer: &mut String, character: char)
    ensures
        final(buffer)@ == old(buffer)@.push(character),
;

/// `position` is the first place where `a` and `b` differ, and `a` is the
/// smaller one there: it has ended, or it has the smaller character.
pub open spec fn smaller_at(a: Seq<char>, b: Seq<char>, position: int) -> bool {
    &&& 0 <= position <= a.len()
    &&& position < b.len()
    &&& forall|i: int| 0 <= i < position ==> a[i] == b[i]
    &&& position == a.len() || (a[position] as int) < (b[position] as int)
}

/// Code point order: `a` sorts strictly before `b`.
pub open spec fn precedes(a: Seq<char>, b: Seq<char>) -> bool {
    exists|position: int| smaller_at(a, b, position)
}

/// `a` sorts before `b` or is the same text.
pub open spec fn precedes_or_same(a: Seq<char>, b: Seq<char>) -> bool {
    a == b || precedes(a, b)
}

/// Nothing sorts before itself.
pub proof fn precedes_is_irreflexive(a: Seq<char>)
    ensures
        !precedes(a, a),
{
}

/// The order is transitive.
pub proof fn precedes_is_transitive(a: Seq<char>, b: Seq<char>, c: Seq<char>)
    requires
        precedes(a, b),
        precedes(b, c),
    ensures
        precedes(a, c),
{
    let i = choose|i: int| smaller_at(a, b, i);
    let j = choose|j: int| smaller_at(b, c, j);
    if i <= j {
        assert(smaller_at(a, c, i));
    } else {
        assert(smaller_at(a, c, j));
    }
}

/// No two texts sort before each other.
pub proof fn precedes_is_asymmetric(a: Seq<char>, b: Seq<char>)
    requires
        precedes(a, b),
    ensures
        !precedes(b, a),
        a != b,
{
    if precedes(b, a) {
        precedes_is_transitive(a, b, a);
    }
}

proof fn first_difference(a: Seq<char>, b: Seq<char>, position: int)
    requires
        0 <= position <= a.len(),
        position <= b.len(),
        forall|i: int| 0 <= i < position ==> a[i] == b[i],
    ensures
        a == b || precedes(a, b) || precedes(b, a),
    decreases a.len() - position,
{
    if position == a.len() {
        if position == b.len() {
            assert(a =~= b);
        } else {
            assert(smaller_at(a, b, position));
        }
    } else if position == b.len() {
        assert(smaller_at(b, a, position));
    } else if a[position] == b[position] {
        first_difference(a, b, position + 1);
    } else if (a[position] as int) < (b[position] as int) {
        assert(smaller_at(a, b, position));
    } else {
        assert(smaller_at(b, a, position));
    }
}

/// Any two texts are the same, or one sorts before the other.
pub proof fn precedes_is_total(a: Seq<char>, b: Seq<char>)
    ensures
        a == b || precedes(a, b) || precedes(b, a),
{
    first_difference(a, b, 0);
}

/// A prefix never sorts after the text it begins.
pub proof fn a_prefix_never_sorts_after(prefix: Seq<char>, text: Seq<char>)
    requires
        prefix.is_prefix_of(text),
    ensures
        precedes_or_same(prefix, text),
{
    if prefix.len() == text.len() {
        assert(prefix =~= text);
    } else {
        assert(smaller_at(prefix, text, prefix.len() as int));
    }
}

/// How one text sorts relative to another.
#[derive(Clone, Copy, Debug, PartialEq, Eq, Structural)]
pub enum TextOrder {
    Before,
    Same,
    After,
}

/// Compares two texts by code point.
pub fn text_order(a: &str, b: &str) -> (order: TextOrder)
    ensures
        order == TextOrder::Before <==> precedes(a@, b@),
        order == TextOrder::Same <==> a@ == b@,
        order == TextOrder::After <==> precedes(b@, a@),
{
    let mut left = a.chars();
    let mut right = b.chars();
    let ghost mut position: int = 0;
    loop
        invariant
            0 <= position <= a@.len(),
            position <= b@.len(),
            forall|i: int| 0 <= i < position ==> a@[i] == b@[i],
            vstd::std_specs::iter::IteratorSpec::remaining(&left) == a@.skip(position),
            vstd::std_specs::iter::IteratorSpec::remaining(&right) == b@.skip(position),
        decreases a@.len() - position,
    {
        let l = left.next();
        let r = right.next();
        match (l, r) {
            (None, None) => {
                assert(a@ =~= b@);
                proof {
                    precedes_is_irreflexive(a@);
                }
                return TextOrder::Same;
            },
            (None, Some(_)) => {
                assert(smaller_at(a@, b@, position));
                proof {
                    precedes_is_asymmetric(a@, b@);
                }
                return TextOrder::Before;
            },
            (Some(_), None) => {
                assert(smaller_at(b@, a@, position));
                proof {
                    precedes_is_asymmetric(b@, a@);
                }
                return TextOrder::After;
            },
            (Some(x), Some(y)) => {
                assert(x == a@[position] && y == b@[position]);
                if x < y {
                    assert(smaller_at(a@, b@, position));
                    proof {
                        precedes_is_asymmetric(a@, b@);
                    }
                    return TextOrder::Before;
                }
                if x > y {
                    assert(smaller_at(b@, a@, position));
                    proof {
                        precedes_is_asymmetric(b@, a@);
                    }
                    return TextOrder::After;
                }
                proof {
                    assert(a@.skip(position).drop_first() =~= a@.skip(position + 1));
                    assert(b@.skip(position).drop_first() =~= b@.skip(position + 1));
                    position = position + 1;
                }
            },
        }
    }
}

/// Whether the two texts are the same.
pub fn same_text(a: &str, b: &str) -> (same: bool)
    ensures
        same == (a@ == b@),
{
    matches!(text_order(a, b), TextOrder::Same)
}

/// Whether `a` sorts strictly before `b`.
pub fn sorts_before(a: &str, b: &str) -> (before: bool)
    ensures
        before == precedes(a@, b@),
{
    matches!(text_order(a, b), TextOrder::Before)
}

/// The characters of a text.
pub fn chars_of(text: &str) -> (chars: Vec<char>)
    ensures
        chars@ == text@,
{
    let mut chars: Vec<char> = Vec::new();
    for c in iter: text.chars()
        invariant
            chars@ == iter.seq().take(iter.index()),
            iter.seq() == text@,
    {
        chars.push(c);
    }
    assert(text@.take(text@.len() as int) =~= text@);
    chars
}

/// The text made of `chars[from..to]`.
pub fn text_of(chars: &Vec<char>, from: usize, to: usize) -> (text: String)
    requires
        from <= to <= chars@.len(),
    ensures
        text@ == chars@.subrange(from as int, to as int),
{
    let mut text = String::new();
    let mut i: usize = from;
    while i < to
        invariant
            from <= i <= to <= chars@.len(),
            text@ == chars@.subrange(from as int, i as int),
        decreases to - i,
    {
        text.push(chars[i]);
        i = i + 1;
        assert(text@ =~= chars@.subrange(from as int, i as int));
    }
    text
}

/// Whether `text` begins with `prefix`.
pub fn has_prefix(text: &str, prefix: &str) -> (yes: bool)
    ensures
        yes == prefix@.is_prefix_of(text@),
{
    let mut left = text.chars();
    let mut right = prefix.chars();
    let ghost mut position: int = 0;
    loop
        invariant
            0 <= position <= text@.len(),
            position <= prefix@.len(),
            forall|i: int| 0 <= i < position ==> text@[i] == prefix@[i],
            vstd::std_specs::iter::IteratorSpec::remaining(&left) == text@.skip(position),
            vstd::std_specs::iter::IteratorSpec::remaining(&right) == prefix@.skip(position),
        decreases prefix@.len() - position,
    {
        let l = left.next();
        let r = right.next();
        match (l, r) {
            (_, None) => {
                assert(prefix@ =~= text@.subrange(0, prefix@.len() as int));
                return true;
            },
            (None, Some(_)) => {
                return false;
            },
            (Some(x), Some(y)) => {
                if x != y {
                    assert(text@[position] == x && prefix@[position] == y);
                    assert(prefix@.is_prefix_of(text@) ==> prefix@[position] == text@.subrange(
                        0,
                        prefix@.len() as int,
                    )[position]);
                    return false;
                }
                proof {
                    assert(text@.skip(position).drop_first() =~= text@.skip(position + 1));
                    assert(prefix@.skip(position).drop_first() =~= prefix@.skip(position + 1));
                    position = position + 1;
                }
            },
        }
    }
}

/// What follows `prefix` in `text`, if `text` begins with it.
pub fn without_prefix(text: &str, prefix: &str) -> (rest: Option<String>)
    ensures
        rest is Some <==> prefix@.is_prefix_of(text@),
        rest matches Some(r) ==> r@ == text@.skip(prefix@.len() as int),
{
    if has_prefix(text, prefix) {
        let from = prefix.unicode_len();
        let to = text.unicode_len();
        Some(text.substring_char(from, to).to_owned())
    } else {
        None
    }
}

/// An optional text, taken as its characters.
pub open spec fn optional(text: Option<String>) -> Option<Seq<char>> {
    match text {
        Some(t) => Some(t@),
        None => None,
    }
}

/// Whether two optional texts are the same.
pub fn same_optional(a: &Option<String>, b: &Option<String>) -> (same: bool)
    ensures
        same == (optional(*a) == optional(*b)),
{
    match (a, b) {
        (Some(x), Some(y)) => same_text(x.as_str(), y.as_str()),
        (None, None) => true,
        _ => false,
    }
}

/// The text ends with this character.
pub open spec fn ends_with(text: Seq<char>, character: char) -> bool {
    text.len() > 0 && text.last() == character
}

/// Whether `text` ends with `character`.
pub fn has_last(text: &str, character: char) -> (yes: bool)
    ensures
        yes == ends_with(text@, character),
{
    let length = text.unicode_len();
    length > 0 && text.get_char(length - 1) == character
}

/// Whether `character` occurs in `text`.
pub fn has_char(text: &str, character: char) -> (yes: bool)
    ensures
        yes == text@.contains(character),
{
    let chars = chars_of(text);
    let mut i: usize = 0;
    while i < chars.len()
        invariant
            chars@ == text@,
            i <= chars@.len(),
            forall|j: int| 0 <= j < i ==> chars@[j] != character,
        decreases chars@.len() - i,
    {
        if chars[i] == character {
            return true;
        }
        i = i + 1;
    }
    false
}

/// Texts, taken as characters.
pub open spec fn texts(list: Seq<String>) -> Seq<Seq<char>> {
    list.map_values(|text: String| text@)
}

/// Whether a text is among others.
pub fn holds_text(list: &Vec<String>, text: &str) -> (found: bool)
    ensures
        found == texts(list@).contains(text@),
{
    let mut i: usize = 0;
    while i < list.len()
        invariant
            i <= list.len(),
            forall|j: int| 0 <= j < i ==> (#[trigger] texts(list@)[j]) != text@,
        decreases list.len() - i,
    {
        if same_text(list[i].as_str(), text) {
            assert(texts(list@)[i as int] == text@);
            return true;
        }
        assert(texts(list@)[i as int] != text@);
        i = i + 1;
    }
    false
}

/// Whether `text` ends with `suffix`.
pub fn has_suffix(text: &str, suffix: &str) -> (yes: bool)
    ensures
        yes == suffix@.is_suffix_of(text@),
{
    let length: usize = text.unicode_len();
    let suffix_length: usize = suffix.unicode_len();
    if suffix_length > length {
        return false;
    }
    let end = text.substring_char(length - suffix_length, length);
    same_text(end, suffix)
}

/// The two texts one after the other.
pub fn joined(first: &str, second: &str) -> (text: String)
    ensures
        text@ == first@ + second@,
{
    let mut text = first.to_owned();
    text.append(second);
    text
}

/// The characters that count as white space.
pub open spec fn is_blank(character: char) -> bool {
    let code = character as int;
    ||| 0x9 <= code <= 0xd
    ||| code == 0x20
    ||| code == 0x85
    ||| code == 0xa0
    ||| code == 0x1680
    ||| 0x2000 <= code <= 0x200a
    ||| code == 0x2028
    ||| code == 0x2029
    ||| code == 0x202f
    ||| code == 0x205f
    ||| code == 0x3000
}

/// Whether a character counts as white space.
pub fn is_blank_char(character: char) -> (blank: bool)
    ensures
        blank == is_blank(character),
{
    ('\u{9}' <= character && character <= '\u{d}') || character == '\u{20}' || character == '\u{85}' || character == '\u{a0}'
        || character == '\u{1680}' || ('\u{2000}' <= character && character <= '\u{200a}') || character == '\u{2028}'
        || character == '\u{2029}' || character == '\u{202f}' || character == '\u{205f}' || character == '\u{3000}'
}

/// The text has nothing but white space.
pub open spec fn all_blank(text: Seq<char>) -> bool {
    forall|i: int| 0 <= i < text.len() ==> is_blank(#[trigger] text[i])
}

/// Whether a text has nothing but white space.
pub fn has_only_blanks(text: &str) -> (blank: bool)
    ensures
        blank == all_blank(text@),
{
    let chars = chars_of(text);
    let mut i: usize = 0;
    while i < chars.len()
        invariant
            chars@ == text@,
            i <= chars@.len(),
            forall|j: int| 0 <= j < i ==> is_blank(#[trigger] chars@[j]),
        decreases chars@.len() - i,
    {
        if !is_blank_char(chars[i]) {
            return false;
        }
        i = i + 1;
    }
    true
}

/// The digits used when numbers are written out.
pub open spec fn digit(value: int) -> char {
    "0123456789abcdef"@[value]
}

fn digit_char(value: usize) -> (character: char)
    requires
        value < 16,
    ensures
        character == digit(value as int),
{
    proof {
        reveal_strlit("0123456789abcdef");
    }
    "0123456789abcdef".get_char(value)
}

/// `number` in base ten, without leading zeros.
pub open spec fn decimal(number: nat) -> Seq<char>
    decreases number,
{
    if number < 10 {
        seq![digit(number as int)]
    } else {
        decimal(number / 10).push(digit((number % 10) as int))
    }
}

/// The lowest `width` base-sixteen digits of `number`.
pub open spec fn hexadecimal(number: nat, width: nat) -> Seq<char>
    decreases width,
{
    if width == 0 {
        Seq::empty()
    } else {
        hexadecimal(number / 16, (width - 1) as nat).push(digit((number % 16) as int))
    }
}

/// Writes a number in base ten.
pub fn decimal_text(number: u64) -> (text: String)
    ensures
        text@ == decimal(number as nat),
    decreases number,
{
    if number < 10 {
        let mut text = String::new();
        text.push(digit_char(number as usize));
        assert(text@ =~= decimal(number as nat));
        text
    } else {
        let mut text = decimal_text(number / 10);
        text.push(digit_char((number % 10) as usize));
        text
    }
}

/// Writes the lowest `width` base-sixteen digits of a number.
pub fn hexadecimal_text(number: u64, width: usize) -> (text: String)
    ensures
        text@ == hexadecimal(number as nat, width as nat),
    decreases width,
{
    if width == 0 {
        String::new()
    } else {
        let mut text = hexadecimal_text(number / 16, width - 1);
        text.push(digit_char((number % 16) as usize));
        text
    }
}

/// The value of a base-ten digit.
pub open spec fn digit_value(character: char) -> Option<int> {
    if '0' as int <= character as int <= '9' as int {
        Some(character as int - '0' as int)
    } else {
        None
    }
}

/// The number that base-ten digits write, if all of them are digits.
pub open spec fn digits_value(digits: Seq<char>) -> Option<int>
    decreases digits.len(),
{
    if digits.len() == 0 {
        Some(0)
    } else {
        match (digits_value(digits.drop_last()), digit_value(digits.last())) {
            (Some(high), Some(low)) => Some(high * 10 + low),
            _ => None,
        }
    }
}

/// The number that a text writes in base ten: a plus sign may stand in front,
/// there is at least one digit, and the number fits 64 bits.
pub open spec fn number_of(text: Seq<char>) -> Option<int> {
    let digits = if text.len() > 0 && text[0] == '+' {
        text.skip(1)
    } else {
        text
    };
    if digits.len() == 0 {
        None
    } else {
        match digits_value(digits) {
            Some(number) => if number <= u64::MAX {
                Some(number)
            } else {
                None
            },
            None => None,
        }
    }
}

proof fn more_digits_only_grow(digits: Seq<char>, count: int)
    requires
        0 <= count <= digits.len(),
        digits_value(digits) is Some,
    ensures
        digits_value(digits.take(count)) is Some,
        0 <= digits_value(digits.take(count))->0 <= digits_value(digits)->0,
    decreases digits.len(),
{
    if count < digits.len() {
        more_digits_only_grow(digits.drop_last(), count);
        assert(digits.drop_last().take(count) =~= digits.take(count));
    } else {
        assert(digits.take(count) =~= digits);
        if digits.len() > 0 {
            more_digits_only_grow(digits.drop_last(), count - 1);
        }
    }
}

/// Reads a number written in base ten.
pub fn parse_number(text: &str) -> (number: Option<u64>)
    ensures
        match number {
            Some(value) => number_of(text@) == Some(value as int),
            None => number_of(text@) is None,
        },
{
    let chars = chars_of(text);
    let mut i: usize = 0;
    if chars.len() > 0 && chars[0] == '+' {
        i = 1;
    }
    let ghost start = i as int;
    let ghost digits = text@.skip(start);
    assert(start == 0 ==> digits =~= text@);
    if i == chars.len() {
        return None;
    }
    let mut value: u64 = 0;
    assert(digits.take(0) =~= Seq::empty());
    while i < chars.len()
        invariant
            chars@ == text@,
            0 <= start <= i <= chars.len(),
            digits == text@.skip(start),
            digits.len() > 0,
            number_of(text@) == (match digits_value(digits) {
                Some(number) => if number <= u64::MAX {
                    Some(number)
                } else {
                    None
                },
                None => None,
            }),
            digits_value(digits.take(i - start)) == Some(value as int),
        decreases chars.len() - i,
    {
        let character = chars[i];
        let ghost more = digits.take(i - start + 1);
        proof {
            assert(more.drop_last() =~= digits.take(i - start));
            assert(more.last() == character);
            if digits_value(digits) is Some {
                more_digits_only_grow(digits, i - start + 1);
            }
        }
        if !('0' <= character && character <= '9') {
            return None;
        }
        let low: u64 = (character as u32 - '0' as u32) as u64;
        match value.checked_mul(10) {
            None => {
                return None;
            },
            Some(high) => match high.checked_add(low) {
                None => {
                    return None;
                },
                Some(sum) => {
                    value = sum;
                },
            },
        }
        i = i + 1;
    }
    assert(digits.take(i - start) =~= digits);
    Some(value)
}

proof fn a_digit_reads_back(value: int)
    requires
        0 <= value < 10,
    ensures
        digit_value(digit(value)) == Some(value),
{
    reveal_strlit("0123456789abcdef");
}

proof fn written_digits_read_back(number: nat)
    ensures
        digits_value(decimal(number)) == Some(number as int),
        decimal(number).len() > 0,
        decimal(number)[0] != '+',
    decreases number,
{
    if number < 10 {
        a_digit_reads_back(number as int);
        assert(decimal(number).drop_last() =~= Seq::empty());
        assert(digits_value(Seq::<char>::empty()) == Some(0int));
        assert(digit_value('+') is None);
    } else {
        written_digits_read_back(number / 10);
        a_digit_reads_back((number % 10) as int);
        assert(decimal(number).drop_last() =~= decimal(number / 10));
    }
}

/// A written number has nothing but digits.
pub proof fn a_written_number_has_only_digits(number: nat, index: int)
    requires
        0 <= index < decimal(number).len(),
    ensures
        digit_value(decimal(number)[index]) is Some,
    decreases number,
{
    if number < 10 {
        a_digit_reads_back(number as int);
    } else if index == decimal(number).len() - 1 {
        a_digit_reads_back((number % 10) as int);
    } else {
        a_written_number_has_only_digits(number / 10, index);
    }
}

/// A number reads back as it was written.
pub proof fn a_written_number_reads_back(number: u64)
    ensures
        number_of(decimal(number as nat)) == Some(number as int),
{
    written_digits_read_back(number as nat);
}

/// A number that is read is not negative, fits 64 bits, and is written with
/// digits alone, but for a plus sign in front.
pub proof fn numbers_are_not_negative(text: Seq<char>)
    requires
        number_of(text) is Some,
    ensures
        0 <= number_of(text)->0 <= 18_446_744_073_709_551_615,
        text.len() > 0,
        forall|i: int| 1 <= i < text.len() ==> '0' as int <= #[trigger] text[i] as int <= '9' as int,
        text[0] == '+' || '0' as int <= text[0] as int <= '9' as int,
        text[0] == '+' ==> text.len() > 1,
{
    let digits = if text.len() > 0 && text[0] == '+' {
        text.skip(1)
    } else {
        text
    };
    only_digits_have_a_value(digits);
    assert forall|i: int| 1 <= i < text.len() implies '0' as int <= #[trigger] text[i] as int <= '9' as int by {
        if text[0] == '+' {
            assert(digits[i - 1] == text[i]);
        }
    }
    if text[0] != '+' {
        assert(digits[0] == text[0]);
    }
}

proof fn only_digits_have_a_value(digits: Seq<char>)
    requires
        digits_value(digits) is Some,
    ensures
        0 <= digits_value(digits)->0,
        forall|i: int| 0 <= i < digits.len() ==> '0' as int <= #[trigger] digits[i] as int <= '9' as int,
    decreases digits.len(),
{
    if digits.len() > 0 {
        only_digits_have_a_value(digits.drop_last());
        assert forall|i: int| 0 <= i < digits.len() implies '0' as int <= #[trigger] digits[i] as int <= '9' as int by {
            if i < digits.len() - 1 {
                assert(digits.drop_last()[i] == digits[i]);
            }
        }
    }
}

/// One more digit behind a number makes it ten times as large, and the digit
/// more.
pub proof fn a_further_digit_counts_in_tens(digits: Seq<char>, value: int)
    requires
        digits_value(digits) is Some,
        0 <= value <= 9,
    ensures
        digits_value(digits.push(('0' as int + value) as char)) == Some(digits_value(digits)->0 * 10 + value),
        digits_value(Seq::<char>::empty()) == Some(0int),
{
    assert(digits.push(('0' as int + value) as char).drop_last() =~= digits);
}

/// The digits are the usual ones.
pub proof fn the_digits_are_the_usual_ones(value: int)
    requires
        0 <= value < 16,
    ensures
        value < 10 ==> digit(value) as int == '0' as int + value,
        value >= 10 ==> digit(value) as int == 'a' as int + value - 10,
{
    reveal_strlit("0123456789abcdef");
}

/// A number is written with its last digit last, and without zeros in front.
pub proof fn a_number_is_written_in_base_ten(number: nat)
    ensures
        decimal(number).len() > 0,
        decimal(number).last() == digit((number % 10) as int),
        number >= 10 ==> decimal(number).drop_last() == decimal(number / 10),
        number < 10 ==> decimal(number).len() == 1,
        number > 0 ==> decimal(number)[0] != '0',
    decreases number,
{
    reveal_strlit("0123456789abcdef");
    if number >= 10 {
        a_number_is_written_in_base_ten(number / 10);
        assert(decimal(number).drop_last() =~= decimal(number / 10));
    }
}

/// A number in base sixteen has as many digits as were asked for, the lowest
/// last.
pub proof fn a_number_is_written_in_base_sixteen(number: nat, width: nat)
    ensures
        hexadecimal(number, width).len() == width,
        width > 0 ==> hexadecimal(number, width).last() == digit((number % 16) as int),
        width > 0 ==> hexadecimal(number, width).drop_last() == hexadecimal(number / 16, (width - 1) as nat),
    decreases width,
{
    if width > 0 {
        a_number_is_written_in_base_sixteen(number / 16, (width - 1) as nat);
        assert(hexadecimal(number, width).drop_last() =~= hexadecimal(number / 16, (width - 1) as nat));
    }
}

/// White space is what separates words: blanks, tabs and line ends count as
/// such, and no other character of plain text does.
pub proof fn plain_text_is_not_blank(character: char)
    requires
        (character as int) < 0x80,
    ensures
        is_blank(character) <==> character == ' ' || character == '\t' || character == '\n' || character == '\r' || character as int == 0xb
            || character as int == 0xc,
{
}

} // verus!
