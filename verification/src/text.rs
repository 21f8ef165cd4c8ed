//! Text: comparing, joining, numbers, letter case and UTF-16.

use vstd::prelude::*;
use vstd::string::StringExecFns;

verus! {

/// `String::push` appends the character to the end of the string.
pub assume_specification[ String::push ](string: &mut String, ch: char)
    ensures
        final(string)@ == old(string)@.push(ch),
;

/// Whether a number is a Unicode scalar value, which a `char` can hold.
pub open spec fn is_scalar_value(number: int) -> bool {
    0 <= number < 0xd800 || 0xe000 <= number <= 0x10ffff
}

/// `char::from_u32` gives the character with this number, and nothing where
/// the number is not a Unicode scalar value.
pub assume_specification[ char::from_u32 ](i: u32) -> (ch: Option<char>)
    ensures
        match ch {
            Some(found) => is_scalar_value(i as int) && found == i as char,
            None => !is_scalar_value(i as int),
        },
;

/// Whether two strings hold the same characters.
pub fn same_text(left: &str, right: &str) -> (same: bool)
    ensures
        same == (left@ == right@),
{
    left.to_owned() == right.to_owned()
}

/// The characters of a string, one by one.
pub fn characters(string: &str) -> (chars: Vec<char>)
    ensures
        chars@ == string@,
{
    let mut chars: Vec<char> = Vec::new();
    for ch in iter: string.chars()
        invariant
            iter.seq() == string@,
            chars@ == string@.take(iter.index() as int),
    {
        chars.push(ch);
        assert(chars@ =~= string@.take(iter.index() + 1));
    }
    assert(string@.take(string@.len() as int) =~= string@);
    chars
}

/// The string that these characters make.
pub fn string_of(chars: &[char]) -> (string: String)
    ensures
        string@ == chars@,
{
    let mut string = String::new();
    let mut index: usize = 0;
    while index < chars.len()
        invariant
            index <= chars@.len(),
            string@ == chars@.take(index as int),
        decreases chars@.len() - index,
    {
        string.push(chars[index]);
        index = index + 1;
        assert(string@ =~= chars@.take(index as int));
    }
    assert(chars@.take(chars@.len() as int) =~= chars@);
    string
}

/// Two strings, one behind the other.
pub fn joined(left: &str, right: &str) -> (string: String)
    ensures
        string@ == left@ + right@,
{
    left.to_owned().concat(right)
}

/// The character of a decimal digit.
pub open spec fn digit_char(digit: int) -> char {
    (digit + 48) as char
}

/// A number in decimal notation, without leading zeros.
pub open spec fn decimal_text(number: nat) -> Seq<char>
    decreases number,
{
    if number < 10 {
        seq![digit_char(number as int)]
    } else {
        decimal_text(number / 10).push(digit_char((number % 10) as int))
    }
}

/// Writes a number in decimal notation.
pub fn decimal(number: u32) -> (string: String)
    ensures
        string@ == decimal_text(number as nat),
    decreases number,
{
    let mut string = if number < 10 {
        String::new()
    } else {
        decimal(number / 10)
    };
    string.push(((number % 10) as u8 + 48) as char);
    assert(string@ =~= decimal_text(number as nat));
    string
}

/// The character in lower case, where it is an ASCII letter.
pub open spec fn lower_char(ch: char) -> char {
    if 'A' <= ch <= 'Z' {
        (ch as u32 + 32) as char
    } else {
        ch
    }
}

/// A string with its ASCII letters in lower case.
pub open spec fn lower_text(string: Seq<char>) -> Seq<char> {
    string.map_values(|ch: char| lower_char(ch))
}

/// Puts the ASCII letters of a string in lower case.
pub fn lowered(chars: &[char]) -> (lower: Vec<char>)
    ensures
        lower@ == lower_text(chars@),
{
    let mut lower: Vec<char> = Vec::with_capacity(chars.len());
    let mut index: usize = 0;
    while index < chars.len()
        invariant
            index <= chars@.len(),
            lower@ == lower_text(chars@).take(index as int),
        decreases chars@.len() - index,
    {
        let ch: char = chars[index];
        if 'A' <= ch && ch <= 'Z' {
            lower.push((ch as u8 + 32) as char);
        } else {
            lower.push(ch);
        }
        index = index + 1;
        assert(lower@ =~= lower_text(chars@).take(index as int));
    }
    assert(lower@ =~= lower_text(chars@));
    lower
}

/// The value of a hexadecimal digit, in either case.
pub open spec fn hex_digit(ch: char) -> Option<int> {
    if '0' <= ch <= '9' {
        Some(ch as int - 48)
    } else if 'a' <= ch <= 'f' {
        Some(ch as int - 87)
    } else if 'A' <= ch <= 'F' {
        Some(ch as int - 55)
    } else {
        None
    }
}

/// The number that hexadecimal digits spell, none where something else stands
/// among them.
pub open spec fn hex_value(digits: Seq<char>) -> Option<int>
    decreases digits.len(),
{
    if digits.len() == 0 {
        Some(0)
    } else {
        match (hex_value(digits.drop_last()), hex_digit(digits.last())) {
            (Some(value), Some(digit)) => Some(16 * value + digit),
            _ => None,
        }
    }
}

/// The 32-bit number that a hexadecimal token spells: at least one digit,
/// behind an optional plus sign.
pub open spec fn hex_number(token: Seq<char>) -> Option<u32> {
    let digits = if token.len() > 0 && token[0] == '+' {
        token.skip(1)
    } else {
        token
    };
    if digits.len() == 0 {
        None
    } else {
        match hex_value(digits) {
            Some(value) => if value <= u32::MAX {
                Some(value as u32)
            } else {
                None
            },
            None => None,
        }
    }
}

/// More digits never make a number smaller, nor a wrong digit right.
proof fn hex_value_grows(digits: Seq<char>, count: int)
    requires
        0 <= count <= digits.len(),
    ensures
        match hex_value(digits.take(count)) {
            Some(value) => {
                &&& value >= 0
                &&& hex_value(digits) matches Some(total) ==> total >= value
            },
            None => hex_value(digits) is None,
        },
    decreases digits.len(),
{
    if count == digits.len() {
        assert(digits.take(count) =~= digits);
        if count > 0 {
            hex_value_grows(digits.drop_last(), count - 1);
            assert(digits.drop_last().take(count - 1) =~= digits.drop_last());
        }
    } else {
        hex_value_grows(digits.drop_last(), count);
        assert(digits.drop_last().take(count) =~= digits.take(count));
        hex_value_grows(digits.drop_last(), digits.len() - 1);
        assert(digits.drop_last().take(digits.len() - 1) =~= digits.drop_last());
    }
}

/// Reads the 32-bit number that a hexadecimal token spells.
pub fn parse_hex(token: &[char]) -> (number: Option<u32>)
    ensures
        number == hex_number(token@),
{
    let start: usize = if token.len() > 0 && token[0] == '+' {
        1
    } else {
        0
    };
    if start == token.len() {
        return None;
    }
    let ghost digits = if start == 1 {
        token@.skip(1)
    } else {
        token@
    };
    let mut value: u64 = 0;
    let mut index: usize = start;
    while index < token.len()
        invariant
            start <= 1,
            start <= index <= token@.len(),
            digits.len() == token@.len() - start,
            digits.len() > 0,
            forall|i: int| 0 <= i < digits.len() ==> #[trigger] digits[i] == token@[i + start],
            hex_number(token@) == (match hex_value(digits) {
                Some(total) => if total <= u32::MAX {
                    Some(total as u32)
                } else {
                    None
                },
                None => None::<u32>,
            }),
            hex_value(digits.take(index - start)) == Some(value as int),
            value <= u32::MAX,
        decreases token@.len() - index,
    {
        let ch: char = token[index];
        let ghost read = digits.take(index + 1 - start);
        proof {
            assert(read.drop_last() =~= digits.take(index - start));
            assert(read.last() == ch);
            hex_value_grows(digits, index + 1 - start);
        }
        let digit: u64 = if '0' <= ch && ch <= '9' {
            ch as u64 - 48
        } else if 'a' <= ch && ch <= 'f' {
            ch as u64 - 87
        } else if 'A' <= ch && ch <= 'F' {
            ch as u64 - 55
        } else {
            return None;
        };
        value = 16 * value + digit;
        if value > 0xffff_ffff {
            return None;
        }
        index = index + 1;
    }
    assert(digits.take(index - start) =~= digits);
    Some(value as u32)
}

/// The text that UTF-16 code units spell, with the replacement character for
/// each surrogate that is not half of a pair.
pub open spec fn utf16_text(units: Seq<u16>) -> Seq<char>
    decreases units.len(),
{
    if units.len() == 0 {
        Seq::empty()
    } else if !(0xd800 <= units[0] <= 0xdfff) {
        seq![units[0] as char] + utf16_text(units.skip(1))
    } else if units[0] <= 0xdbff && units.len() > 1 && 0xdc00 <= units[1] <= 0xdfff {
        seq![(0x10000 + (units[0] - 0xd800) * 0x400 + (units[1] - 0xdc00)) as char] + utf16_text(
            units.skip(2),
        )
    } else {
        seq!['\u{fffd}'] + utf16_text(units.skip(1))
    }
}

/// The character with this number.
fn scalar_char(number: u32) -> (ch: char)
    requires
        is_scalar_value(number as int),
    ensures
        ch == number as char,
{
    match char::from_u32(number) {
        Some(ch) => ch,
        None => '\u{fffd}',
    }
}

/// Decodes UTF-16 code units, putting the replacement character for each
/// surrogate that is not half of a pair.
pub fn decode_utf16(units: &[u16]) -> (string: String)
    ensures
        string@ == utf16_text(units@),
{
    let mut string = String::new();
    let mut index: usize = 0;
    assert(units@.skip(0) =~= units@);
    while index < units.len()
        invariant
            index <= units@.len(),
            string@ + utf16_text(units@.skip(index as int)) == utf16_text(units@),
        decreases units@.len() - index,
    {
        let unit: u16 = units[index];
        let ghost before = string@;
        let ghost left = units@.skip(index as int);
        assert(left.skip(1) =~= units@.skip(index + 1));
        if unit < 0xd800 || unit > 0xdfff {
            string.push(scalar_char(unit as u32));
            index = index + 1;
        } else if unit <= 0xdbff && units.len() - index > 1 && 0xdc00 <= units[index + 1]
            && units[index + 1] <= 0xdfff {
            assert(left.skip(2) =~= units@.skip(index + 2));
            let low: u16 = units[index + 1];
            string.push(
                scalar_char(0x10000 + (unit as u32 - 0xd800) * 0x400 + (low as u32 - 0xdc00)),
            );
            index = index + 2;
        } else {
            string.push('\u{fffd}');
            index = index + 1;
        }
        assert(string@ + utf16_text(units@.skip(index as int)) =~= before + utf16_text(left));
    }
    assert(string@ + utf16_text(units@.skip(index as int)) =~= string@);
    string
}

/// The number that digits spell in a base, the most significant digit first.
pub open spec fn digits_value(digits: Seq<int>, base: int) -> int
    decreases digits.len(),
{
    if digits.len() == 0 {
        0
    } else {
        base * digits_value(digits.drop_last(), base) + digits.last()
    }
}

/// A number in decimal notation consists of digits that spell it, without
/// leading zeros.
pub proof fn decimal_spells_the_number(number: nat)
    ensures
        decimal_text(number).len() > 0,
        decimal_text(number).len() > 1 ==> decimal_text(number)[0] != '0',
        forall|i: int|
            0 <= i < decimal_text(number).len() ==> '0' <= #[trigger] decimal_text(number)[i]
                <= '9',
        digits_value(decimal_text(number).map_values(|ch: char| ch as int - '0' as int), 10)
            == number,
    decreases number,
{
    let digit = |ch: char| ch as int - '0' as int;
    let written = decimal_text(number);
    let digits = written.map_values(digit);
    if number < 10 {
        assert(digits.drop_last() =~= Seq::empty());
        assert(digits_value(digits.drop_last(), 10) == 0);
    } else {
        let shorter = decimal_text(number / 10);
        decimal_spells_the_number(number / 10);
        assert(digits.drop_last() =~= shorter.map_values(digit));
        assert(written[0] == shorter[0]);
        if shorter.len() == 1 && shorter[0] == '0' {
            let ones = shorter.map_values(digit);
            assert(ones.drop_last() =~= Seq::empty());
            assert(digits_value(ones.drop_last(), 10) == 0);
            assert(digits_value(ones, 10) == 0);
        }
    }
}

/// Lower case moves the letters from `A` to `Z` by the distance between the
/// cases, and leaves every other character as it is.
pub proof fn lower_case_moves_letters_only(string: Seq<char>, index: int)
    requires
        0 <= index < string.len(),
    ensures
        lower_text(string).len() == string.len(),
        'A' <= string[index] <= 'Z' ==> lower_text(string)[index] as int - string[index] as int
            == 'a' as int - 'A' as int,
        !('A' <= string[index] <= 'Z') ==> lower_text(string)[index] == string[index],
{
}

/// Whether a character is a hexadecimal digit with this value, in either case.
pub open spec fn is_hex_digit(ch: char, value: int) -> bool {
    ||| 0 <= value < 10 && ch as int == '0' as int + value
    ||| 10 <= value < 16 && ch as int == 'a' as int + (value - 10)
    ||| 10 <= value < 16 && ch as int == 'A' as int + (value - 10)
}

/// Digits of these values spell the number that the values make.
proof fn hex_digits_make_their_value(chars: Seq<char>, values: Seq<int>)
    requires
        chars.len() == values.len(),
        forall|i: int| 0 <= i < chars.len() ==> is_hex_digit(#[trigger] chars[i], values[i]),
    ensures
        hex_value(chars) == Some(digits_value(values, 16)),
    decreases chars.len(),
{
    if chars.len() > 0 {
        let last = chars.len() - 1;
        assert forall|i: int| 0 <= i < last implies is_hex_digit(
            #[trigger] chars.drop_last()[i],
            values.drop_last()[i],
        ) by {
            assert(chars[i] == chars.drop_last()[i]);
        }
        hex_digits_make_their_value(chars.drop_last(), values.drop_last());
        assert(is_hex_digit(chars[last], values[last]));
    }
}

/// A token of hexadecimal digits is read as the number that they spell, with
/// or without a plus sign before them, where the number fits; otherwise it is
/// no number.
pub proof fn hex_token_is_read_as_spelled(chars: Seq<char>, values: Seq<int>)
    requires
        chars.len() > 0,
        chars.len() == values.len(),
        forall|i: int| 0 <= i < chars.len() ==> is_hex_digit(#[trigger] chars[i], values[i]),
    ensures
        digits_value(values, 16) <= 0xffff_ffff ==> hex_number(chars) == Some(
            digits_value(values, 16) as u32,
        ),
        digits_value(values, 16) > 0xffff_ffff ==> hex_number(chars) is None,
        hex_number(seq!['+'] + chars) == hex_number(chars),
{
    hex_digits_make_their_value(chars, values);
    assert(is_hex_digit(chars[0], values[0]));
    assert((seq!['+'] + chars).skip(1) =~= chars);
}

/// A token that is empty, or holds anything but hexadecimal digits behind its
/// first character, is no number; nor is one that starts with anything but a
/// digit or a plus sign, or consists of the sign.
pub proof fn other_tokens_are_no_numbers(token: Seq<char>, place: int)
    requires
        token.len() == 0 || token == seq!['+'] || (0 <= place < token.len() && (forall|value: int|
            !#[trigger] is_hex_digit(token[place], value)) && (place > 0 || token[0] != '+')),
    ensures
        hex_number(token) is None,
{
    if token.len() > 0 && token != seq!['+'] {
        let ch = token[place];
        let signed = token[0] == '+';
        let digits = if signed {
            token.skip(1)
        } else {
            token
        };
        let at = if signed {
            place - 1
        } else {
            place
        };
        assert(hex_digit(ch) is None) by {
            assert(!is_hex_digit(ch, ch as int - 48));
            assert(!is_hex_digit(ch, ch as int - 87));
            assert(!is_hex_digit(ch, ch as int - 55));
        }
        assert(digits[at] == ch);
        assert(digits.take(at + 1).last() == ch);
        hex_value_grows(digits, at + 1);
    }
}

/// The UTF-16 code units of a character.
pub open spec fn utf16_units(ch: char) -> Seq<u16> {
    let number = ch as int;
    if number < 0x10000 {
        seq![number as u16]
    } else {
        seq![
            (0xd800 + (number - 0x10000) / 0x400) as u16,
            (0xdc00 + (number - 0x10000) % 0x400) as u16,
        ]
    }
}

/// A character is decoded from its code units, whatever follows them.
pub proof fn utf16_character_is_decoded(ch: char, rest: Seq<u16>)
    ensures
        utf16_text(utf16_units(ch) + rest) == seq![ch] + utf16_text(rest),
{
    let units = utf16_units(ch);
    assert((units + rest).skip(units.len() as int) =~= rest);
}

/// A text survives being written in UTF-16 and decoded.
pub proof fn utf16_round_trips(string: Seq<char>)
    ensures
        utf16_text(string.map_values(|ch: char| utf16_units(ch)).flatten()) == string,
    decreases string.len(),
{
    let units = string.map_values(|ch: char| utf16_units(ch));
    if string.len() > 0 {
        let others = string.drop_first();
        utf16_round_trips(others);
        assert(units.drop_first() =~= others.map_values(|ch: char| utf16_units(ch)));
        utf16_character_is_decoded(string.first(), units.drop_first().flatten());
        assert(seq![string.first()] + others =~= string);
    } else {
        assert(units.flatten() =~= Seq::empty());
    }
}

/// A surrogate that is not half of a pair is decoded as the replacement
/// character, and only that one unit is used up.
pub proof fn lone_surrogate_is_replaced(unit: u16, rest: Seq<u16>)
    requires
        0xdc00 <= unit <= 0xdfff || (0xd800 <= unit <= 0xdbff && (rest.len() == 0 || !(0xdc00
            <= rest[0] <= 0xdfff))),
    ensures
        utf16_text(seq![unit] + rest) == seq!['\u{fffd}'] + utf16_text(rest),
{
    assert((seq![unit] + rest).skip(1) =~= rest);
}

} // verus!
