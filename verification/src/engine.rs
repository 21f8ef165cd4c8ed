//! GPU engine counters: which belong to an adapter, and which to the same
//! engine.
//!
//! The name of a counter instance holds the adapter that it belongs to, as two
//! hexadecimal tokens behind a marker. What follows the marker names the engine;
//! what stands before it only names the process that uses it.

use vstd::prelude::*;
use vstd::slice::slice_subrange;

use crate::text;
use crate::text::{characters, lowered, parse_hex, string_of};

verus! {

/// The identifier that the system gives an adapter.
#[derive(Clone, Copy, Debug, PartialEq, Eq, Structural)]
pub struct AdapterLuid {
    pub high: u32,
    pub low: u32,
}

/// What stands before the adapter in an instance name: `_luid_`.
pub open spec fn luid_marker() -> Seq<char> {
    seq!['_', 'l', 'u', 'i', 'd', '_']
}

/// The first place at or behind `from` where the marker stands.
pub open spec fn marker_from(name: Seq<char>, from: int) -> Option<int>
    decreases name.len() - from,
{
    if from + 6 > name.len() {
        None
    } else if name.subrange(from, from + 6) == luid_marker() {
        Some(from)
    } else {
        marker_from(name, from + 1)
    }
}

/// The end of the token that starts at `from`: the next underscore, or the end
/// of the name.
pub open spec fn token_end(name: Seq<char>, from: int) -> int
    decreases name.len() - from,
{
    if from >= name.len() {
        name.len() as int
    } else if name[from] == '_' {
        from
    } else {
        token_end(name, from + 1)
    }
}

/// The number that a token of the form `0x1f` spells.
pub open spec fn prefixed_hex(token: Seq<char>) -> Option<u32> {
    if token.len() >= 2 && token[0] == '0' && token[1] == 'x' {
        text::hex_number(token.skip(2))
    } else {
        None
    }
}

/// The adapter that the two tokens from `from` on spell.
pub open spec fn luid_from(name: Seq<char>, from: int) -> Option<AdapterLuid> {
    let middle = token_end(name, from);
    if middle >= name.len() {
        None
    } else {
        let end = token_end(name, middle + 1);
        match (
            prefixed_hex(name.subrange(from, middle)),
            prefixed_hex(name.subrange(middle + 1, end)),
        ) {
            (Some(high), Some(low)) => Some(AdapterLuid { high, low }),
            _ => None,
        }
    }
}

/// The engine that an instance name stands for, if it belongs to the adapter:
/// the name in lower case, from the marker on.
pub open spec fn engine_key(name: Seq<char>, adapter: AdapterLuid) -> Option<Seq<char>> {
    let lower = text::lower_text(name);
    match marker_from(lower, 0) {
        Some(marker) => if luid_from(lower, marker + 6) == Some(adapter) {
            Some(lower.skip(marker))
        } else {
            None
        },
        None => None,
    }
}

/// Finds the marker in a name.
fn find_marker(name: &[char]) -> (marker: Option<usize>)
    ensures
        match marker {
            Some(found) => marker_from(name@, 0) == Some(found as int) && found + 6 <= name@.len(),
            None => marker_from(name@, 0) is None,
        },
{
    let mut index: usize = 0;
    while name.len() - index >= 6
        invariant
            index <= name@.len(),
            marker_from(name@, index as int) == marker_from(name@, 0),
        decreases name@.len() - index,
    {
        let here: bool = name[index] == '_' && name[index + 1] == 'l' && name[index + 2] == 'u'
            && name[index + 3] == 'i' && name[index + 4] == 'd' && name[index + 5] == '_';
        let ghost seen = name@.subrange(index as int, index + 6);
        if here {
            assert(seen =~= luid_marker());
            return Some(index);
        }
        assert(seen != luid_marker()) by {
            assert(forall|i: int| 0 <= i < 6 ==> seen[i] == name@[index + i]);
            if seen == luid_marker() {
                assert(seen[0] == '_' && seen[1] == 'l' && seen[2] == 'u' && seen[3] == 'i'
                    && seen[4] == 'd' && seen[5] == '_');
            }
        }
        index = index + 1;
    }
    None
}

/// Finds the end of the token that starts at `from`.
fn find_token_end(name: &[char], from: usize) -> (end: usize)
    requires
        from <= name@.len(),
    ensures
        end == token_end(name@, from as int),
        from <= end <= name@.len(),
{
    let mut index: usize = from;
    while index < name.len()
        invariant
            from <= index <= name@.len(),
            token_end(name@, index as int) == token_end(name@, from as int),
        decreases name@.len() - index,
    {
        if name[index] == '_' {
            return index;
        }
        index = index + 1;
    }
    index
}

/// Reads a token of the form `0x1f`.
fn parse_prefixed_hex(token: &[char]) -> (number: Option<u32>)
    ensures
        number == prefixed_hex(token@),
{
    if token.len() >= 2 && token[0] == '0' && token[1] == 'x' {
        parse_hex(slice_subrange(token, 2, token.len()))
    } else {
        None
    }
}

/// Returns the engine that an instance name stands for, if it belongs to the
/// adapter.
pub fn gpu_engine_key(instance_name: &str, adapter_luid: AdapterLuid) -> (key: Option<String>)
    ensures
        match key {
            Some(found) => engine_key(instance_name@, adapter_luid) == Some(found@),
            None => engine_key(instance_name@, adapter_luid) is None,
        },
{
    let normalized: Vec<char> = lowered(characters(instance_name).as_slice());
    let name: &[char] = normalized.as_slice();
    let length: usize = name.len();
    let marker: usize = match find_marker(name) {
        Some(marker) => marker,
        None => { return None; },
    };
    let start: usize = marker + 6;
    let middle: usize = find_token_end(name, start);
    let high: u32 = match parse_prefixed_hex(slice_subrange(name, start, middle)) {
        Some(high) => high,
        None => { return None; },
    };
    if middle >= length {
        return None;
    }
    let end: usize = find_token_end(name, middle + 1);
    let low: u32 = match parse_prefixed_hex(slice_subrange(name, middle + 1, end)) {
        Some(low) => low,
        None => { return None; },
    };
    if (AdapterLuid { high, low }) != adapter_luid {
        return None;
    }
    Some(string_of(slice_subrange(name, marker, length)))
}

/// A name in lower case stays as it is when put in lower case.
proof fn lower_text_is_settled(name: Seq<char>)
    ensures
        text::lower_text(text::lower_text(name)) == text::lower_text(name),
{
    assert(text::lower_text(text::lower_text(name)) =~= text::lower_text(name));
}

/// The letter case of an instance name makes no difference.
pub proof fn key_ignores_case(name: Seq<char>, adapter: AdapterLuid)
    ensures
        engine_key(text::lower_text(name), adapter) == engine_key(name, adapter),
{
    lower_text_is_settled(name);
}

/// An instance name belongs to one adapter at most.
pub proof fn key_belongs_to_one_adapter(name: Seq<char>, one: AdapterLuid, other: AdapterLuid)
    requires
        engine_key(name, one) is Some,
        engine_key(name, other) is Some,
    ensures
        one == other,
{
}

/// The end of a token does not depend on what stands before it.
proof fn token_end_moves_along(name: Seq<char>, start: int, from: int)
    requires
        0 <= start <= from <= name.len(),
    ensures
        token_end(name, from) == token_end(name.skip(start), from - start) + start,
        from <= token_end(name, from) <= name.len(),
    decreases name.len() - from,
{
    if from < name.len() && name[from] != '_' {
        token_end_moves_along(name, start, from + 1);
    }
}

/// The place of the marker is within the name, and the marker stands there.
proof fn marker_stands_there(name: Seq<char>, from: int)
    requires
        0 <= from,
    ensures
        marker_from(name, from) matches Some(marker) ==> from <= marker && marker + 6 <= name.len()
            && name.subrange(marker, marker + 6) == luid_marker(),
    decreases name.len() - from,
{
    if from + 6 <= name.len() {
        marker_stands_there(name, from + 1);
    }
}

/// A key stands for itself: what was cut off an instance name to get it makes
/// no difference.
pub proof fn key_stands_for_itself(name: Seq<char>, adapter: AdapterLuid)
    ensures
        engine_key(name, adapter) matches Some(key) ==> engine_key(key, adapter) == Some(key),
{
    let lower = text::lower_text(name);
    marker_stands_there(lower, 0);
    if let Some(key) = engine_key(name, adapter) {
        let marker = marker_from(lower, 0)->Some_0;
        let middle = token_end(lower, marker + 6);
        lower_text_is_settled(name);
        assert(text::lower_text(key) =~= text::lower_text(lower).skip(marker));
        assert(key.subrange(0, 6) =~= lower.subrange(marker, marker + 6));
        token_end_moves_along(lower, marker, marker + 6);
        token_end_moves_along(lower, marker, middle + 1);
        let end = token_end(lower, middle + 1);
        assert(key.subrange(6, middle - marker) =~= lower.subrange(marker + 6, middle));
        assert(key.subrange(middle + 1 - marker, end - marker) =~= lower.subrange(middle + 1, end));
        assert(key.skip(0) =~= key);
    }
}

/// Whether the marker stands at an index of a name.
pub open spec fn marker_stands_at(name: Seq<char>, index: int) -> bool {
    &&& 0 <= index
    &&& index + 6 <= name.len()
    &&& name[index] == '_'
    &&& name[index + 1] == 'l'
    &&& name[index + 2] == 'u'
    &&& name[index + 3] == 'i'
    &&& name[index + 4] == 'd'
    &&& name[index + 5] == '_'
}

/// Whether no marker stands before an index of a name.
pub open spec fn no_marker_before(name: Seq<char>, index: int) -> bool {
    forall|i: int| 0 <= i < index ==> !#[trigger] marker_stands_at(name, i)
}

/// The marker stands where the six characters are its own.
proof fn marker_is_its_characters(name: Seq<char>, index: int)
    requires
        0 <= index,
        index + 6 <= name.len(),
    ensures
        name.subrange(index, index + 6) == luid_marker() <==> marker_stands_at(name, index),
{
    let seen = name.subrange(index, index + 6);
    if marker_stands_at(name, index) {
        assert(seen =~= luid_marker());
    }
    if seen == luid_marker() {
        assert(forall|i: int| 0 <= i < 6 ==> seen[i] == name[index + i]);
        assert(seen[0] == '_' && seen[1] == 'l' && seen[2] == 'u' && seen[3] == 'i' && seen[4]
            == 'd' && seen[5] == '_');
    }
}

/// The marker is found at the first place where it stands.
proof fn first_marker_is_found(name: Seq<char>, from: int, at: int)
    requires
        0 <= from <= at,
        marker_stands_at(name, at),
        forall|i: int| from <= i < at ==> !#[trigger] marker_stands_at(name, i),
    ensures
        marker_from(name, from) == Some(at),
    decreases at - from,
{
    marker_is_its_characters(name, from);
    if from < at {
        first_marker_is_found(name, from + 1, at);
    }
}

/// No marker stands before the one that is found.
proof fn found_marker_is_the_first(name: Seq<char>, from: int)
    requires
        0 <= from,
    ensures
        marker_from(name, from) matches Some(at) ==> {
            &&& from <= at
            &&& marker_stands_at(name, at)
            &&& forall|i: int| from <= i < at ==> !#[trigger] marker_stands_at(name, i)
        },
    decreases name.len() - from,
{
    if from + 6 <= name.len() {
        marker_is_its_characters(name, from);
        found_marker_is_the_first(name, from + 1);
    }
}

/// A token ends at the first underscore, or at the end of the name.
proof fn token_ends_at_the_underscore(name: Seq<char>, from: int, end: int)
    requires
        0 <= from <= end <= name.len(),
        forall|i: int| from <= i < end ==> #[trigger] name[i] != '_',
        end == name.len() || name[end] == '_',
    ensures
        token_end(name, from) == end,
    decreases end - from,
{
    if from < end {
        token_ends_at_the_underscore(name, from + 1, end);
    }
}

/// No underscore stands in a token.
proof fn token_holds_no_underscore(name: Seq<char>, from: int)
    requires
        0 <= from <= name.len(),
    ensures
        from <= token_end(name, from) <= name.len(),
        forall|i: int| from <= i < token_end(name, from) ==> #[trigger] name[i] != '_',
        token_end(name, from) < name.len() ==> name[token_end(name, from)] == '_',
    decreases name.len() - from,
{
    if from < name.len() && name[from] != '_' {
        token_holds_no_underscore(name, from + 1);
    }
}

/// A token of the form `0x1f` within a name is read as the number that its
/// digits spell.
proof fn token_is_read_as_spelled(
    name: Seq<char>,
    from: int,
    digits: Seq<char>,
    values: Seq<int>,
    number: u32,
)
    requires
        0 <= from,
        from + 2 + digits.len() <= name.len(),
        name[from] == '0',
        name[from + 1] == 'x',
        digits.len() > 0,
        digits.len() == values.len(),
        forall|i: int| 0 <= i < digits.len() ==> text::is_hex_digit(#[trigger] digits[i], values[i]),
        forall|i: int|
            0 <= i < digits.len() ==> name[from + 2 + i] == text::lower_char(#[trigger] digits[i]),
        text::digits_value(values, 16) == number,
        from + 2 + digits.len() == name.len() || name[from + 2 + digits.len()] == '_',
    ensures
        token_end(name, from) == from + 2 + digits.len(),
        prefixed_hex(name.subrange(from, from + 2 + digits.len())) == Some(number),
{
    let end = from + 2 + digits.len();
    let lower = text::lower_text(digits);
    assert forall|i: int| from <= i < end implies #[trigger] name[i] != '_' by {
        if i >= from + 2 {
            let place = i - from - 2;
            assert(text::is_hex_digit(digits[place], values[place]));
            assert(name[from + 2 + place] == text::lower_char(digits[place]));
        }
    }
    token_ends_at_the_underscore(name, from, end);
    assert forall|i: int| 0 <= i < lower.len() implies text::is_hex_digit(
        #[trigger] lower[i],
        values[i],
    ) by {
        assert(text::is_hex_digit(digits[i], values[i]));
    }
    text::hex_token_is_read_as_spelled(lower, values);
    assert(name.subrange(from, end).skip(2) =~= lower);
}

/// The instance name that spells out an adapter in hexadecimal digits, behind
/// some text and with the rest of the engine's name behind it.
pub open spec fn spelled_name(
    before: Seq<char>,
    high: Seq<char>,
    low: Seq<char>,
    rest: Seq<char>,
) -> Seq<char> {
    before + seq!['_', 'l', 'u', 'i', 'd', '_', '0', 'x'] + high + seq!['_', '0', 'x'] + low + rest
}

/// A name that spells out an adapter behind its first marker belongs to that
/// adapter, however many digits there are and in whatever case. Its key is the
/// name in lower case, from the marker on.
pub proof fn spelled_adapter_is_recognised(
    before: Seq<char>,
    high: Seq<char>,
    high_values: Seq<int>,
    low: Seq<char>,
    low_values: Seq<int>,
    rest: Seq<char>,
    adapter: AdapterLuid,
)
    requires
        high.len() > 0,
        high.len() == high_values.len(),
        forall|i: int|
            0 <= i < high.len() ==> text::is_hex_digit(#[trigger] high[i], high_values[i]),
        text::digits_value(high_values, 16) == adapter.high,
        low.len() > 0,
        low.len() == low_values.len(),
        forall|i: int| 0 <= i < low.len() ==> text::is_hex_digit(#[trigger] low[i], low_values[i]),
        text::digits_value(low_values, 16) == adapter.low,
        rest.len() == 0 || rest[0] == '_',
        no_marker_before(
            text::lower_text(before + seq!['_', 'l', 'u', 'i', 'd', '_']),
            before.len() as int,
        ),
    ensures
        engine_key(spelled_name(before, high, low, rest), adapter) == Some(
            text::lower_text(spelled_name(before, high, low, rest)).skip(before.len() as int),
        ),
{
    let name = spelled_name(before, high, low, rest);
    let lower = text::lower_text(name);
    let start = before.len() as int;
    let opening = text::lower_text(before + seq!['_', 'l', 'u', 'i', 'd', '_']);
    assert(marker_stands_at(lower, start));
    assert forall|i: int| 0 <= i < start implies !#[trigger] marker_stands_at(lower, i) by {
        assert(forall|j: int| 0 <= j < start + 6 ==> lower[j] == opening[j]);
        assert(!marker_stands_at(opening, i));
    }
    first_marker_is_found(lower, 0, start);
    let middle = start + 8 + high.len();
    assert forall|i: int| 0 <= i < high.len() implies lower[start + 6 + 2 + i] == text::lower_char(
        #[trigger] high[i],
    ) by {
        assert(name[start + 8 + i] == high[i]);
    }
    token_is_read_as_spelled(lower, start + 6, high, high_values, adapter.high);
    let end = middle + 3 + low.len();
    assert forall|i: int| 0 <= i < low.len() implies lower[middle + 1 + 2 + i] == text::lower_char(
        #[trigger] low[i],
    ) by {
        assert(name[middle + 3 + i] == low[i]);
    }
    if rest.len() > 0 {
        assert(name[end] == rest[0]);
    }
    token_is_read_as_spelled(lower, middle + 1, low, low_values, adapter.low);
}

/// Whether a key spells this adapter: two tokens behind the marker, of which
/// the first ends at `middle` and the second at `end`.
pub open spec fn spells_adapter(
    key: Seq<char>,
    adapter: AdapterLuid,
    middle: int,
    end: int,
) -> bool {
    &&& marker_stands_at(key, 0)
    &&& 8 < middle
    &&& middle + 3 < end <= key.len()
    &&& key[6] == '0' && key[7] == 'x'
    &&& text::hex_number(key.subrange(8, middle)) == Some(adapter.high)
    &&& key[middle] == '_' && key[middle + 1] == '0' && key[middle + 2] == 'x'
    &&& text::hex_number(key.subrange(middle + 3, end)) == Some(adapter.low)
    &&& end == key.len() || key[end] == '_'
}

/// A name has a key only where it spells the adapter behind its first marker,
/// and the key is then what the name in lower case holds from there on.
pub proof fn key_spells_its_adapter(name: Seq<char>, adapter: AdapterLuid)
    ensures
        engine_key(name, adapter) matches Some(key) ==> {
            let start = name.len() - key.len();
            &&& 0 <= start
            &&& key == text::lower_text(name).skip(start)
            &&& no_marker_before(text::lower_text(name), start)
            &&& exists|middle: int, end: int| #[trigger] spells_adapter(key, adapter, middle, end)
        },
{
    let lower = text::lower_text(name);
    found_marker_is_the_first(lower, 0);
    if let Some(key) = engine_key(name, adapter) {
        let start = marker_from(lower, 0)->Some_0;
        let middle = token_end(lower, start + 6);
        token_holds_no_underscore(lower, start + 6);
        token_holds_no_underscore(lower, middle + 1);
        let end = token_end(lower, middle + 1);
        let high = lower.subrange(start + 6, middle);
        let low = lower.subrange(middle + 1, end);
        assert(high.skip(2) =~= key.subrange(8, middle - start));
        assert(low.skip(2) =~= key.subrange(middle - start + 3, end - start));
        assert(high[0] == key[6] && high[1] == key[7]);
        assert(low[0] == key[middle - start + 1] && low[1] == key[middle - start + 2]);
        assert(spells_adapter(key, adapter, middle - start, end - start));
    }
}

} // verus!
