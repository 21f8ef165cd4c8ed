//! Reading the utilization of an adapter's engines: how the counters are
//! queried, which of their values count, and what the adapter's load is.
//!
//! Measured values are binary64 floating-point numbers. They are kept as their
//! bit patterns, which for numbers that are not negative are ordered as the
//! numbers are.

use vstd::prelude::*;

use crate::engine;
use crate::engine::{gpu_engine_key, AdapterLuid};
use crate::text::same_text;

verus! {

/// The status of a call that worked.
pub const STATUS_SUCCESS: u32 = 0;

/// The status of a call that needs a larger buffer.
pub const STATUS_MORE_DATA: u32 = 0x8000_07d2;

/// The status of a counter whose value is valid.
pub const COUNTER_VALID_DATA: u32 = 0;

/// The status of a counter whose value is valid and has changed.
pub const COUNTER_NEW_DATA: u32 = 1;

/// The bit pattern of positive infinity; the patterns below it are those of
/// the finite numbers that are not negative.
pub const INFINITY_BITS: u64 = 0x7ff0_0000_0000_0000;

/// The bit pattern of negative zero.
pub const NEGATIVE_ZERO_BITS: u64 = 0x8000_0000_0000_0000;

/// The bit pattern of one hundred.
pub const HUNDRED_BITS: u64 = 0x4059_0000_0000_0000;

/// What happened while a query was being opened.
#[derive(Clone, Copy, Debug, PartialEq, Eq, Structural)]
pub enum OpenEvent {
    /// The query was opened.
    Opened { status: u32 },
    /// The counter was added to it.
    Added { status: u32 },
    /// The first data was collected.
    Collected { status: u32 },
}

/// What to do next while a query is being opened.
#[derive(Clone, Copy, Debug, PartialEq, Eq, Structural)]
pub enum OpenAction {
    /// Add the counter.
    AddCounter,
    /// Collect the first data.
    Collect,
    /// The query can be used.
    Ready,
    /// There is no query.
    GiveUp,
    /// Close the query; there is none then.
    CloseAndGiveUp,
}

/// What follows an event while a query is being opened.
pub open spec fn opening(event: OpenEvent) -> OpenAction {
    match event {
        OpenEvent::Opened { status } => if status == STATUS_SUCCESS {
            OpenAction::AddCounter
        } else {
            OpenAction::GiveUp
        },
        OpenEvent::Added { status } => if status == STATUS_SUCCESS {
            OpenAction::Collect
        } else {
            OpenAction::CloseAndGiveUp
        },
        OpenEvent::Collected { status } => if status == STATUS_SUCCESS {
            OpenAction::Ready
        } else {
            OpenAction::CloseAndGiveUp
        },
    }
}

/// Decides what follows an event while a query is being opened.
pub fn open_step(event: OpenEvent) -> (action: OpenAction)
    ensures
        action == opening(event),
{
    match event {
        OpenEvent::Opened { status } => if status != STATUS_SUCCESS {
            OpenAction::GiveUp
        } else {
            OpenAction::AddCounter
        },
        OpenEvent::Added { status } => if status != STATUS_SUCCESS {
            OpenAction::CloseAndGiveUp
        } else {
            OpenAction::Collect
        },
        OpenEvent::Collected { status } => if status != STATUS_SUCCESS {
            OpenAction::CloseAndGiveUp
        } else {
            OpenAction::Ready
        },
    }
}

/// The last action of opening a query whose calls have these statuses.
pub open spec fn opened(open: u32, added: u32, collected: u32) -> OpenAction {
    match opening(OpenEvent::Opened { status: open }) {
        OpenAction::AddCounter => match opening(OpenEvent::Added { status: added }) {
            OpenAction::Collect => opening(OpenEvent::Collected { status: collected }),
            action => action,
        },
        action => action,
    }
}

/// A query that was opened is either ready or closed again, and it is ready
/// exactly when every call worked.
pub proof fn no_query_is_left_behind(open: u32, added: u32, collected: u32)
    ensures
        opened(open, added, collected) == OpenAction::Ready <==> open == STATUS_SUCCESS && added
            == STATUS_SUCCESS && collected == STATUS_SUCCESS,
        opened(open, added, collected) == OpenAction::GiveUp <==> open != STATUS_SUCCESS,
        opened(open, added, collected) == OpenAction::CloseAndGiveUp <==> open == STATUS_SUCCESS
            && (added != STATUS_SUCCESS || collected != STATUS_SUCCESS),
{
}

/// What happened while the values of a counter were being fetched.
#[derive(Clone, Copy, Debug, PartialEq, Eq, Structural)]
pub enum FetchEvent {
    /// New data was collected.
    Collected { status: u32 },
    /// The size of the values was asked for.
    Sized { status: u32, buffer_bytes: u32, item_count: u32, word_bytes: usize },
    /// A buffer was filled with the values.
    Filled { status: u32, buffer_bytes: u32, item_count: u32, item_bytes: usize },
}

/// What to do next while the values of a counter are being fetched.
#[derive(Clone, Copy, Debug, PartialEq, Eq, Structural)]
pub enum FetchAction {
    /// Ask for the size of the values.
    AskSize,
    /// Fill a buffer of this many words.
    Fill { words: usize },
    /// Read this many items in the buffer.
    ReadItems { count: usize },
    /// There are no values.
    Unavailable,
}

/// Whether `words` is the least number of words that hold so many bytes.
pub open spec fn words_for(words: int, bytes: int, word_bytes: int) -> bool {
    (words - 1) * word_bytes < bytes <= words * word_bytes
}

/// Whether this action follows the event.
pub open spec fn follows_fetch(event: FetchEvent, action: FetchAction) -> bool {
    match event {
        FetchEvent::Collected { status } => action == if status == STATUS_SUCCESS {
            FetchAction::AskSize
        } else {
            FetchAction::Unavailable
        },
        FetchEvent::Sized { status, buffer_bytes, item_count, word_bytes } => if status
            == STATUS_MORE_DATA && buffer_bytes != 0 && item_count != 0 {
            action matches FetchAction::Fill { words } && words_for(
                words as int,
                buffer_bytes as int,
                word_bytes as int,
            )
        } else {
            action == FetchAction::Unavailable
        },
        FetchEvent::Filled { status, buffer_bytes, item_count, item_bytes } => if status
            == STATUS_SUCCESS && item_count * item_bytes <= buffer_bytes {
            action == FetchAction::ReadItems { count: item_count as usize }
        } else {
            action == FetchAction::Unavailable
        },
    }
}

/// Decides what follows an event while the values of a counter are fetched.
pub fn fetch_step(event: FetchEvent) -> (action: FetchAction)
    requires
        event matches FetchEvent::Sized { word_bytes, .. } ==> word_bytes > 0,
    ensures
        follows_fetch(event, action),
{
    match event {
        FetchEvent::Collected { status } => if status != STATUS_SUCCESS {
            FetchAction::Unavailable
        } else {
            FetchAction::AskSize
        },
        FetchEvent::Sized { status, buffer_bytes, item_count, word_bytes } => {
            if status != STATUS_MORE_DATA || buffer_bytes == 0 || item_count == 0 {
                return FetchAction::Unavailable;
            }
            let bytes: usize = buffer_bytes as usize;
            let whole: usize = bytes / word_bytes;
            let partial: usize = bytes % word_bytes;
            proof {
                vstd::arithmetic::div_mod::lemma_fundamental_div_mod(
                    bytes as int,
                    word_bytes as int,
                );
                assert(whole * word_bytes == word_bytes * whole) by (nonlinear_arith);
                assert((whole - 1) * word_bytes == whole * word_bytes - word_bytes)
                    by (nonlinear_arith);
                assert((whole + 1) * word_bytes == whole * word_bytes + word_bytes)
                    by (nonlinear_arith);
                assert(partial > 0 ==> whole < bytes) by (nonlinear_arith)
                    requires
                        word_bytes > 0,
                        bytes == word_bytes * whole + partial,
                ;
            }
            FetchAction::Fill {
                words: if partial == 0 {
                    whole
                } else {
                    whole + 1
                },
            }
        },
        FetchEvent::Filled { status, buffer_bytes, item_count, item_bytes } => {
            if status != STATUS_SUCCESS {
                return FetchAction::Unavailable;
            }
            assert(item_count as u128 * item_bytes as u128 <= u128::MAX) by (nonlinear_arith)
                requires
                    item_count <= 0xffff_ffff,
                    item_bytes <= 0xffff_ffff_ffff_ffff,
            ;
            if item_count as u128 * item_bytes as u128 > buffer_bytes as u128 {
                return FetchAction::Unavailable;
            }
            FetchAction::ReadItems { count: item_count as usize }
        },
    }
}

/// One value of a counter: its status, its bit pattern, and the name of its
/// instance where that is readable text.
#[derive(Debug)]
pub struct CounterItem {
    pub status: u32,
    pub value_bits: u64,
    pub name: Option<String>,
}

/// Whether a bit pattern is that of a finite number that is not below zero.
pub open spec fn counted_bits(bits: u64) -> bool {
    bits < INFINITY_BITS || bits == NEGATIVE_ZERO_BITS
}

impl CounterItem {
    /// Whether the value of this item counts.
    pub open spec fn counts_spec(self) -> bool {
        &&& self.status == COUNTER_VALID_DATA || self.status == COUNTER_NEW_DATA
        &&& counted_bits(self.value_bits)
    }

    /// The engine of the adapter that the value counts for, if any.
    pub open spec fn key_spec(self, adapter: AdapterLuid) -> Option<Seq<char>> {
        if self.counts_spec() {
            match self.name {
                Some(name) => engine::engine_key(name@, adapter),
                None => None,
            }
        } else {
            None
        }
    }

    /// Whether this item is passed over: its value does not count, or its name
    /// can be read and is not one of an engine of the adapter.
    pub open spec fn rejected(self, adapter: AdapterLuid) -> bool {
        ||| !self.counts_spec()
        ||| self.name matches Some(name) && engine::engine_key(name@, adapter) is None
    }

    /// Whether the value of this item counts.
    pub fn counts(&self) -> (counts: bool)
        ensures
            counts == self.counts_spec(),
    {
        (self.status == COUNTER_VALID_DATA || self.status == COUNTER_NEW_DATA) && (self.value_bits
            < INFINITY_BITS || self.value_bits == NEGATIVE_ZERO_BITS)
    }
}

/// The values that count for one engine.
#[derive(Debug)]
pub struct EngineValues {
    pub key: String,
    pub values: Vec<u64>,
}

/// The engines of the adapter that the items name, each once, in the order in
/// which they first occur.
pub open spec fn engine_keys(items: Seq<CounterItem>, adapter: AdapterLuid) -> Seq<Seq<char>>
    decreases items.len(),
{
    if items.len() == 0 {
        Seq::empty()
    } else {
        let keys = engine_keys(items.drop_last(), adapter);
        match items.last().key_spec(adapter) {
            Some(key) => if keys.contains(key) {
                keys
            } else {
                keys.push(key)
            },
            None => keys,
        }
    }
}

/// The values that count for an engine, in the order of the items.
pub open spec fn engine_values(
    items: Seq<CounterItem>,
    adapter: AdapterLuid,
    key: Seq<char>,
) -> Seq<u64>
    decreases items.len(),
{
    if items.len() == 0 {
        Seq::empty()
    } else {
        let values = engine_values(items.drop_last(), adapter, key);
        if items.last().key_spec(adapter) == Some(key) {
            values.push(items.last().value_bits)
        } else {
            values
        }
    }
}

/// Whether these are the engines of the items, each with its values.
pub open spec fn groups_of(
    groups: Seq<EngineValues>,
    items: Seq<CounterItem>,
    adapter: AdapterLuid,
) -> bool {
    &&& groups.len() == engine_keys(items, adapter).len()
    &&& forall|i: int|
        0 <= i < groups.len() ==> {
            &&& (#[trigger] groups[i]).key@ == engine_keys(items, adapter)[i]
            &&& groups[i].values@ == engine_values(items, adapter, groups[i].key@)
        }
}

/// Whether some item counts whose name cannot be read.
pub open spec fn has_unreadable_name(items: Seq<CounterItem>) -> bool {
    exists|i: int| 0 <= i < items.len() && (#[trigger] items[i]).counts_spec() && items[i].name is None
}

/// Whether this is what grouping the items gives: nothing where the name of an
/// item that counts cannot be read, their engines otherwise.
pub open spec fn is_grouping(
    groups: Option<Vec<EngineValues>>,
    items: Seq<CounterItem>,
    adapter: AdapterLuid,
) -> bool {
    match groups {
        Some(found) => !has_unreadable_name(items) && groups_of(found@, items, adapter),
        None => has_unreadable_name(items),
    }
}

/// The place of an engine among the groups.
fn find_engine(groups: &Vec<EngineValues>, key: &String) -> (place: Option<usize>)
    ensures
        match place {
            Some(found) => found < groups@.len() && groups@[found as int].key@ == key@,
            None => forall|i: int| 0 <= i < groups@.len() ==> (#[trigger] groups@[i]).key@ != key@,
        },
{
    let mut index: usize = 0;
    while index < groups.len()
        invariant
            index <= groups@.len(),
            forall|i: int| 0 <= i < index ==> (#[trigger] groups@[i]).key@ != key@,
        decreases groups@.len() - index,
    {
        if same_text(groups[index].key.as_str(), key.as_str()) {
            return Some(index);
        }
        index = index + 1;
    }
    None
}

/// Sorts the values that count by the adapter's engines. Where the name of one
/// that counts cannot be read, there is no result at all.
pub fn engine_groups(items: &Vec<CounterItem>, adapter: AdapterLuid) -> (groups: Option<
    Vec<EngineValues>,
>)
    ensures
        is_grouping(groups, items@, adapter),
{
    let mut groups: Vec<EngineValues> = Vec::new();
    let mut index: usize = 0;
    while index < items.len()
        invariant
            index <= items@.len(),
            forall|i: int|
                0 <= i < index && (#[trigger] items@[i]).counts_spec() ==> items@[i].name is Some,
            groups_of(groups@, items@.take(index as int), adapter),
        decreases items@.len() - index,
    {
        let item: &CounterItem = &items[index];
        let ghost seen = items@.take(index as int);
        let ghost now = items@.take(index + 1);
        let ghost before = groups@;
        proof {
            assert(now.drop_last() =~= seen);
            assert(now.last() == *item);
            engine_keys_are_distinct(seen, adapter);
        }
        if item.counts() {
            match &item.name {
                None => {
                    assert(items@[index as int].counts_spec());
                    return None;
                },
                Some(name) => match gpu_engine_key(name.as_str(), adapter) {
                    Some(key) => {
                        match find_engine(&groups, &key) {
                            Some(place) => {
                                assert(engine_keys(seen, adapter)[place as int] == key@);
                                groups[place].values.push(item.value_bits);
                            },
                            None => {
                                proof {
                                    if engine_keys(seen, adapter).contains(key@) {
                                        let i = engine_keys(seen, adapter).index_of(key@);
                                        assert(groups@[i].key@ == key@);
                                    }
                                    unnamed_engine_has_no_values(seen, adapter, key@);
                                }
                                let mut values: Vec<u64> = Vec::new();
                                values.push(item.value_bits);
                                groups.push(EngineValues { key, values });
                            },
                        }
                    },
                    None => {},
                },
            }
        }
        index = index + 1;
        assert(groups_of(groups@, now, adapter));
    }
    assert(items@.take(index as int) =~= items@);
    Some(groups)
}

/// Every engine occurs once among the keys, and exactly those occur that some
/// item counts for.
pub proof fn engine_keys_are_distinct(items: Seq<CounterItem>, adapter: AdapterLuid)
    ensures
        engine_keys(items, adapter).no_duplicates(),
        forall|key: Seq<char>| #[trigger]
            engine_keys(items, adapter).contains(key) <==> exists|i: int|
                0 <= i < items.len() && (#[trigger] items[i]).key_spec(adapter) == Some(key),
    decreases items.len(),
{
    if items.len() > 0 {
        let others = items.drop_last();
        let keys = engine_keys(others, adapter);
        let all = engine_keys(items, adapter);
        engine_keys_are_distinct(others, adapter);
        assert forall|key: Seq<char>| #[trigger]
            all.contains(key) implies exists|i: int|
            0 <= i < items.len() && (#[trigger] items[i]).key_spec(adapter) == Some(key) by {
            if keys.contains(key) {
                let i = choose|i: int|
                    0 <= i < others.len() && (#[trigger] others[i]).key_spec(adapter) == Some(key);
                assert(items[i] == others[i]);
            } else {
                assert(items[items.len() - 1].key_spec(adapter) == Some(key));
            }
        }
        assert forall|key: Seq<char>|
            (exists|i: int|
                0 <= i < items.len() && (#[trigger] items[i]).key_spec(adapter) == Some(key))
            implies #[trigger] all.contains(key) by {
            let i = choose|i: int|
                0 <= i < items.len() && (#[trigger] items[i]).key_spec(adapter) == Some(key);
            if i < others.len() {
                assert(others[i].key_spec(adapter) == Some(key));
                assert(keys.contains(key));
                let place = keys.index_of(key);
                assert(all[place] == key);
            } else if !keys.contains(key) {
                assert(all[all.len() - 1] == key);
            }
        }
    }
}

/// An engine that no item counts for has no values.
proof fn unnamed_engine_has_no_values(
    items: Seq<CounterItem>,
    adapter: AdapterLuid,
    key: Seq<char>,
)
    requires
        !engine_keys(items, adapter).contains(key),
    ensures
        engine_values(items, adapter, key) == Seq::<u64>::empty(),
    decreases items.len(),
{
    if items.len() > 0 {
        let keys = engine_keys(items.drop_last(), adapter);
        let all = engine_keys(items, adapter);
        if keys.contains(key) {
            let place = keys.index_of(key);
            assert(all[place] == key);
        }
        if items.last().key_spec(adapter) == Some(key) {
            assert(all[all.len() - 1] == key);
        }
        unnamed_engine_has_no_values(items.drop_last(), adapter, key);
    }
}

/// The largest of some bit patterns.
pub open spec fn largest(patterns: Seq<u64>) -> u64
    decreases patterns.len(),
{
    if patterns.len() <= 1 {
        patterns[0]
    } else if largest(patterns.drop_last()) >= patterns.last() {
        largest(patterns.drop_last())
    } else {
        patterns.last()
    }
}

/// The load of an adapter whose engines have these loads: that of the busiest
/// engine, and no more than one hundred. Without engines there is no load.
pub open spec fn peak_load(loads: Seq<u64>) -> Option<u64> {
    if loads.len() == 0 {
        None
    } else if largest(loads) <= HUNDRED_BITS {
        Some(largest(loads))
    } else {
        Some(HUNDRED_BITS)
    }
}

/// Returns the load of an adapter whose engines have these loads, in percent.
/// All are bit patterns without a sign, of finite numbers or of infinity.
pub fn peak_percent(loads: &[u64]) -> (peak: Option<u64>)
    requires
        forall|i: int| 0 <= i < loads@.len() ==> #[trigger] loads@[i] <= INFINITY_BITS,
    ensures
        peak == peak_load(loads@),
{
    if loads.len() == 0 {
        return None;
    }
    let mut peak: u64 = loads[0];
    let mut index: usize = 1;
    assert(loads@.take(1)[0] == loads@[0]);
    while index < loads.len()
        invariant
            1 <= index <= loads@.len(),
            peak == largest(loads@.take(index as int)),
        decreases loads@.len() - index,
    {
        assert(loads@.take(index + 1).drop_last() =~= loads@.take(index as int));
        if loads[index] > peak {
            peak = loads[index];
        }
        index = index + 1;
    }
    assert(loads@.take(index as int) =~= loads@);
    if peak > HUNDRED_BITS {
        return Some(HUNDRED_BITS);
    }
    Some(peak)
}

/// The largest pattern is one of them, and none is above it.
pub proof fn largest_is_the_maximum(patterns: Seq<u64>)
    requires
        patterns.len() > 0,
    ensures
        patterns.contains(largest(patterns)),
        forall|i: int| 0 <= i < patterns.len() ==> #[trigger] patterns[i] <= largest(patterns),
    decreases patterns.len(),
{
    if patterns.len() > 1 {
        let others = patterns.drop_last();
        largest_is_the_maximum(others);
        let place = others.index_of(largest(others));
        assert(patterns[place] == largest(others));
        assert(patterns[patterns.len() - 1] == patterns.last());
        assert forall|i: int| 0 <= i < patterns.len() implies #[trigger] patterns[i] <= largest(
            patterns,
        ) by {
            if i < others.len() {
                assert(others[i] == patterns[i]);
            }
        }
    }
}

/// The items that count for an engine of the adapter.
pub open spec fn counted_items(items: Seq<CounterItem>, adapter: AdapterLuid) -> Seq<CounterItem> {
    items.filter(|item: CounterItem| item.key_spec(adapter) is Some)
}

/// The items that are not passed over.
pub open spec fn kept_items(items: Seq<CounterItem>, adapter: AdapterLuid) -> Seq<CounterItem> {
    items.filter(|item: CounterItem| !item.rejected(adapter))
}

/// Leaving out items that count for no engine changes neither the engines nor
/// their values.
proof fn filtering_keeps_engines(
    items: Seq<CounterItem>,
    adapter: AdapterLuid,
    kept: spec_fn(CounterItem) -> bool,
)
    requires
        forall|item: CounterItem| (#[trigger] item.key_spec(adapter)) is Some ==> kept(item),
    ensures
        engine_keys(items.filter(kept), adapter) == engine_keys(items, adapter),
        forall|key: Seq<char>| #[trigger]
            engine_values(items.filter(kept), adapter, key) == engine_values(items, adapter, key),
    decreases items.len(),
{
    reveal(Seq::filter);
    if items.len() > 0 {
        let others = items.drop_last();
        filtering_keeps_engines(others, adapter, kept);
        if kept(items.last()) {
            assert(items.filter(kept).drop_last() =~= others.filter(kept));
            assert(items.filter(kept).last() == items.last());
        }
        assert forall|key: Seq<char>| #[trigger]
            engine_values(items.filter(kept), adapter, key) == engine_values(
                items,
                adapter,
                key,
            ) by {
            assert(engine_values(others.filter(kept), adapter, key) == engine_values(
                others,
                adapter,
                key,
            ));
        }
    }
}

/// An item that counts and whose name cannot be read is never passed over.
proof fn unreadable_names_are_kept(items: Seq<CounterItem>, adapter: AdapterLuid)
    ensures
        has_unreadable_name(kept_items(items, adapter)) == has_unreadable_name(items),
{
    let keep = |item: CounterItem| !item.rejected(adapter);
    let kept = kept_items(items, adapter);
    if has_unreadable_name(items) {
        let i = choose|i: int|
            0 <= i < items.len() && (#[trigger] items[i]).counts_spec() && items[i].name is None;
        items.lemma_filter_contains(keep, i);
        let place = kept.index_of(items[i]);
        assert(kept[place].counts_spec());
    }
    if has_unreadable_name(kept) {
        let i = choose|i: int|
            0 <= i < kept.len() && (#[trigger] kept[i]).counts_spec() && kept[i].name is None;
        items.lemma_filter_contains_rev(keep, kept[i]);
        let place = items.index_of(kept[i]);
        assert(items[place].counts_spec());
    }
}

/// The engines and their values depend on nothing but the items that count for
/// an engine of the adapter.
pub proof fn only_counted_items_matter(items: Seq<CounterItem>, adapter: AdapterLuid)
    ensures
        engine_keys(counted_items(items, adapter), adapter) == engine_keys(items, adapter),
        forall|key: Seq<char>| #[trigger]
            engine_values(counted_items(items, adapter), adapter, key) == engine_values(
                items,
                adapter,
                key,
            ),
{
    filtering_keeps_engines(
        items,
        adapter,
        |item: CounterItem| item.key_spec(adapter) is Some,
    );
}

/// Items that are passed over have no influence: two lists that differ only in
/// such items give the same result, be it none at all or the same engines with
/// the same values in the same order.
pub proof fn rejected_items_have_no_influence(
    one: Seq<CounterItem>,
    other: Seq<CounterItem>,
    adapter: AdapterLuid,
    first: Option<Vec<EngineValues>>,
    second: Option<Vec<EngineValues>>,
)
    requires
        kept_items(one, adapter) == kept_items(other, adapter),
        is_grouping(first, one, adapter),
        is_grouping(second, other, adapter),
    ensures
        match (first, second) {
            (Some(groups), Some(others)) => {
                &&& groups@.len() == others@.len()
                &&& forall|i: int|
                    0 <= i < groups@.len() ==> {
                        &&& (#[trigger] groups@[i]).key@ == others@[i].key@
                        &&& groups@[i].values@ == others@[i].values@
                    }
            },
            (None, None) => true,
            _ => false,
        },
{
    let keep = |item: CounterItem| !item.rejected(adapter);
    unreadable_names_are_kept(one, adapter);
    unreadable_names_are_kept(other, adapter);
    filtering_keeps_engines(one, adapter, keep);
    filtering_keeps_engines(other, adapter, keep);
    if let (Some(groups), Some(others)) = (first, second) {
        assert forall|i: int| 0 <= i < groups@.len() implies (#[trigger] groups@[i]).key@
            == others@[i].key@ && groups@[i].values@ == others@[i].values@ by {
            let key = others@[i].key@;
            assert(engine_values(one.filter(keep), adapter, key) == engine_values(
                other.filter(keep),
                adapter,
                key,
            ));
        }
    }
}

/// The load of an engine: its values added up in order, from zero on.
pub open spec fn engine_load(values: Seq<u64>, sum: spec_fn(u64, u64) -> u64) -> u64 {
    values.fold_left(0u64, sum)
}

/// The loads of the adapter's engines.
pub open spec fn engine_loads(
    items: Seq<CounterItem>,
    adapter: AdapterLuid,
    sum: spec_fn(u64, u64) -> u64,
) -> Seq<u64> {
    engine_keys(items, adapter).map_values(
        |key: Seq<char>| engine_load(engine_values(items, adapter, key), sum),
    )
}

/// The load of the adapter that the items show: none where the name of one that
/// counts cannot be read.
pub open spec fn adapter_load(
    items: Seq<CounterItem>,
    adapter: AdapterLuid,
    sum: spec_fn(u64, u64) -> u64,
) -> Option<u64> {
    if has_unreadable_name(items) {
        None
    } else {
        peak_load(engine_loads(items, adapter, sum))
    }
}

/// Whether a load without a sign and a value that counts can be handed to an
/// addition, and give a load without a sign again.
pub open spec fn adds_loads<F: Fn(u64, u64) -> u64>(plus: F) -> bool {
    &&& forall|load: u64, value: u64|
        load <= INFINITY_BITS && counted_bits(value) ==> #[trigger] call_requires(
            plus,
            (load, value),
        )
    &&& forall|load: u64, value: u64, total: u64|
        load <= INFINITY_BITS && counted_bits(value) && #[trigger] call_ensures(
            plus,
            (load, value),
            total,
        ) ==> total <= INFINITY_BITS
}

/// Whether an addition gives this sum for every load without a sign and every
/// value that counts.
pub open spec fn adds_as<F: Fn(u64, u64) -> u64>(plus: F, sum: spec_fn(u64, u64) -> u64) -> bool {
    forall|load: u64, value: u64, total: u64|
        load <= INFINITY_BITS && counted_bits(value) && #[trigger] call_ensures(
            plus,
            (load, value),
            total,
        ) ==> total == sum(load, value)
}

/// Every value of an engine counts.
proof fn engine_values_count(items: Seq<CounterItem>, adapter: AdapterLuid, key: Seq<char>)
    ensures
        forall|i: int|
            0 <= i < engine_values(items, adapter, key).len() ==> counted_bits(
                #[trigger] engine_values(items, adapter, key)[i],
            ),
    decreases items.len(),
{
    if items.len() > 0 {
        let before = engine_values(items.drop_last(), adapter, key);
        let values = engine_values(items, adapter, key);
        engine_values_count(items.drop_last(), adapter, key);
        assert forall|i: int| 0 <= i < values.len() implies counted_bits(#[trigger] values[i]) by {
            if i < before.len() {
                assert(values[i] == before[i]);
            }
        }
    }
}

/// Adds up the values of an engine.
fn total_load<F: Fn(u64, u64) -> u64>(values: &Vec<u64>, plus: &F) -> (load: u64)
    requires
        adds_loads(*plus),
        forall|i: int| 0 <= i < values@.len() ==> counted_bits(#[trigger] values@[i]),
    ensures
        load <= INFINITY_BITS,
        forall|sum: spec_fn(u64, u64) -> u64| #[trigger]
            adds_as(*plus, sum) ==> load == engine_load(values@, sum),
{
    let mut load: u64 = 0;
    let mut index: usize = 0;
    while index < values.len()
        invariant
            adds_loads(*plus),
            forall|i: int| 0 <= i < values@.len() ==> counted_bits(#[trigger] values@[i]),
            index <= values@.len(),
            load <= INFINITY_BITS,
            forall|sum: spec_fn(u64, u64) -> u64| #[trigger]
                adds_as(*plus, sum) ==> load == engine_load(values@.take(index as int), sum),
        decreases values@.len() - index,
    {
        load = (*plus)(load, values[index]);
        index = index + 1;
        assert(values@.take(index as int).drop_last() =~= values@.take(index - 1));
    }
    assert(values@.take(index as int) =~= values@);
    load
}

/// Returns the load of the adapter that the items show, in percent. The values
/// of an engine are added up with `plus`, which is handed a load and the next
/// value.
pub fn utilization<F: Fn(u64, u64) -> u64>(
    items: &Vec<CounterItem>,
    adapter: AdapterLuid,
    plus: F,
) -> (load: Option<u64>)
    requires
        adds_loads(plus),
    ensures
        load is None <==> has_unreadable_name(items@) || engine_keys(items@, adapter).len() == 0,
        forall|sum: spec_fn(u64, u64) -> u64| #[trigger]
            adds_as(plus, sum) ==> load == adapter_load(items@, adapter, sum),
{
    let groups: Vec<EngineValues> = match engine_groups(items, adapter) {
        Some(groups) => groups,
        None => { return None; },
    };
    let mut loads: Vec<u64> = Vec::with_capacity(groups.len());
    let mut index: usize = 0;
    while index < groups.len()
        invariant
            adds_loads(plus),
            groups_of(groups@, items@, adapter),
            index <= groups@.len(),
            loads@.len() == index,
            forall|i: int| 0 <= i < index ==> #[trigger] loads@[i] <= INFINITY_BITS,
            forall|sum: spec_fn(u64, u64) -> u64| #[trigger]
                adds_as(plus, sum) ==> loads@ == engine_loads(items@, adapter, sum).take(
                    index as int,
                ),
        decreases groups@.len() - index,
    {
        proof {
            engine_values_count(items@, adapter, groups@[index as int].key@);
        }
        loads.push(total_load(&groups[index].values, &plus));
        index = index + 1;
        assert forall|sum: spec_fn(u64, u64) -> u64| #[trigger] adds_as(plus, sum) implies loads@
            == engine_loads(items@, adapter, sum).take(index as int) by {
            let all = engine_loads(items@, adapter, sum);
            assert(loads@[index - 1] == all[index - 1]);
            assert(all.take(index as int) =~= all.take(index - 1).push(all[index - 1]));
        }
    }
    let load = peak_percent(loads.as_slice());
    assert forall|sum: spec_fn(u64, u64) -> u64| #[trigger] adds_as(plus, sum) implies load
        == adapter_load(items@, adapter, sum) by {
        assert(loads@ =~= engine_loads(items@, adapter, sum));
    }
    load
}

/// Items that are passed over have no influence on the load of the adapter,
/// whatever sum the values are added up with.
pub proof fn rejected_items_leave_the_load(
    one: Seq<CounterItem>,
    other: Seq<CounterItem>,
    adapter: AdapterLuid,
    sum: spec_fn(u64, u64) -> u64,
)
    requires
        kept_items(one, adapter) == kept_items(other, adapter),
    ensures
        adapter_load(one, adapter, sum) == adapter_load(other, adapter, sum),
{
    let keep = |item: CounterItem| !item.rejected(adapter);
    unreadable_names_are_kept(one, adapter);
    unreadable_names_are_kept(other, adapter);
    filtering_keeps_engines(one, adapter, keep);
    filtering_keeps_engines(other, adapter, keep);
    assert forall|key: Seq<char>| #[trigger] engine_values(one, adapter, key) == engine_values(
        other,
        adapter,
        key,
    ) by {
        assert(engine_values(one.filter(keep), adapter, key) == engine_values(
            other.filter(keep),
            adapter,
            key,
        ));
    }
    assert(engine_loads(one, adapter, sum) =~= engine_loads(other, adapter, sum));
}

/// How many values the items have for these engines together.
pub open spec fn grouped_values(
    items: Seq<CounterItem>,
    adapter: AdapterLuid,
    keys: Seq<Seq<char>>,
) -> nat
    decreases keys.len(),
{
    if keys.len() == 0 {
        0
    } else {
        grouped_values(items, adapter, keys.drop_last()) + engine_values(
            items,
            adapter,
            keys.last(),
        ).len()
    }
}

/// No value is lost and none counts twice: the engines together have as many
/// values as there are items that count for one.
pub proof fn every_value_is_grouped_once(items: Seq<CounterItem>, adapter: AdapterLuid)
    ensures
        grouped_values(items, adapter, engine_keys(items, adapter)) == counted_items(
            items,
            adapter,
        ).len(),
    decreases items.len(),
{
    reveal(Seq::filter);
    if items.len() > 0 {
        let others = items.drop_last();
        let keys = engine_keys(others, adapter);
        every_value_is_grouped_once(others, adapter);
        engine_keys_are_distinct(others, adapter);
        one_more_item(items, adapter, keys);
        if let Some(key) = items.last().key_spec(adapter) {
            if !keys.contains(key) {
                unnamed_engine_has_no_values(others, adapter, key);
                assert(keys.push(key).drop_last() =~= keys);
            }
        }
    } else {
        assert(engine_keys(items, adapter) =~= Seq::empty());
    }
}

/// The last item adds one value to the engine that it counts for.
proof fn one_more_item(items: Seq<CounterItem>, adapter: AdapterLuid, keys: Seq<Seq<char>>)
    requires
        items.len() > 0,
        keys.no_duplicates(),
    ensures
        grouped_values(items, adapter, keys) == grouped_values(items.drop_last(), adapter, keys) + (
        if items.last().key_spec(adapter) matches Some(key) && keys.contains(key) {
            1nat
        } else {
            0nat
        }),
    decreases keys.len(),
{
    if keys.len() > 0 {
        let others = keys.drop_last();
        one_more_item(items, adapter, others);
        if let Some(key) = items.last().key_spec(adapter) {
            if keys.contains(key) && keys.last() != key {
                let place = keys.index_of(key);
                assert(others[place] == key);
            }
            if others.contains(key) {
                let place = others.index_of(key);
                assert(keys[place] == key);
            }
            if keys.last() == key {
                assert(keys[keys.len() - 1] == key);
            }
        }
    }
}

/// The load of an adapter is that of its busiest engine: where no engine is
/// above one hundred, it is one of their loads and none exceeds it. Where one
/// is, it is one hundred. Only without engines is there none.
pub proof fn peak_is_the_busiest_up_to_a_hundred(loads: Seq<u64>)
    ensures
        loads.len() == 0 <==> peak_load(loads) is None,
        loads.len() > 0 && (forall|i: int|
            0 <= i < loads.len() ==> #[trigger] loads[i] <= 0x4059_0000_0000_0000) ==> (peak_load(
            loads,
        ) matches Some(peak) && loads.contains(peak) && forall|i: int|
            0 <= i < loads.len() ==> #[trigger] loads[i] <= peak),
        (exists|i: int| 0 <= i < loads.len() && #[trigger] loads[i] > 0x4059_0000_0000_0000)
            ==> peak_load(loads) == Some(0x4059_0000_0000_0000u64),
{
    if loads.len() > 0 {
        largest_is_the_maximum(loads);
        let place = loads.index_of(largest(loads));
        assert(loads[place] == largest(loads));
    }
}

/// A value counts exactly where its status is one of the two good ones and its
/// number is finite and not below zero: the exponent bits are not all set, and
/// the sign bit is not, but for negative zero.
pub proof fn good_finite_values_count(item: CounterItem)
    ensures
        item.counts_spec() <==> {
            &&& item.status == 0 || item.status == 1
            &&& item.value_bits / 0x10_0000_0000_0000 % 0x800 != 0x7ff
            &&& item.value_bits / 0x8000_0000_0000_0000 == 0 || item.value_bits
                == 0x8000_0000_0000_0000
        },
{
}

/// A value counts for an engine exactly where it counts, its name can be read,
/// and the name stands for that engine of the adapter.
pub proof fn item_counts_for_its_engine(item: CounterItem, adapter: AdapterLuid, key: Seq<char>)
    ensures
        item.key_spec(adapter) == Some(key) <==> {
            &&& item.counts_spec()
            &&& item.name matches Some(name) && engine::engine_key(name@, adapter) == Some(key)
        },
{
}

/// An item gives its own value to the engine that it counts for, and to no
/// other.
pub proof fn one_item_gives_its_value(item: CounterItem, adapter: AdapterLuid, key: Seq<char>)
    ensures
        item.key_spec(adapter) == Some(key) ==> engine_values(seq![item], adapter, key)
            == seq![item.value_bits] && engine_keys(seq![item], adapter) == seq![key],
        item.key_spec(adapter) != Some(key) ==> engine_values(seq![item], adapter, key)
            == Seq::<u64>::empty(),
{
    assert(seq![item].drop_last() =~= Seq::empty());
    assert(engine_values(seq![item].drop_last(), adapter, key) =~= Seq::empty());
    assert(engine_keys(seq![item].drop_last(), adapter) =~= Seq::empty());
    if item.key_spec(adapter) == Some(key) {
        assert(engine_values(seq![item], adapter, key) =~= seq![item.value_bits]);
        assert(engine_keys(seq![item], adapter) =~= seq![key]);
    }
}

/// The values of an engine in two lists, one behind the other, are those in the
/// one and behind them those in the other. The engines of the first list keep
/// their places.
pub proof fn lists_add_their_values(
    one: Seq<CounterItem>,
    other: Seq<CounterItem>,
    adapter: AdapterLuid,
    key: Seq<char>,
)
    ensures
        engine_values(one + other, adapter, key) == engine_values(one, adapter, key)
            + engine_values(other, adapter, key),
        engine_keys(one, adapter).is_prefix_of(engine_keys(one + other, adapter)),
    decreases other.len(),
{
    if other.len() == 0 {
        assert(one + other =~= one);
        assert(engine_values(other, adapter, key) =~= Seq::empty());
    } else {
        let all = one + other;
        assert(all.drop_last() =~= one + other.drop_last());
        assert(all.last() == other.last());
        lists_add_their_values(one, other.drop_last(), adapter, key);
        assert(engine_values(all, adapter, key) =~= engine_values(one, adapter, key)
            + engine_values(other, adapter, key));
    }
}

/// A result lists every engine that some item counts for, each once, with
/// exactly its values; it is missing exactly where the name of an item that
/// counts cannot be read.
pub proof fn grouping_lists_every_engine(
    groups: Option<Vec<EngineValues>>,
    items: Seq<CounterItem>,
    adapter: AdapterLuid,
)
    requires
        is_grouping(groups, items, adapter),
    ensures
        groups is None <==> exists|i: int|
            0 <= i < items.len() && (#[trigger] items[i]).counts_spec() && items[i].name is None,
        groups matches Some(found) ==> {
            &&& forall|i: int|
                0 <= i < found@.len() ==> (#[trigger] found@[i]).values@ == engine_values(
                    items,
                    adapter,
                    found@[i].key@,
                )
            &&& forall|i: int, j: int|
                0 <= i < j < found@.len() ==> (#[trigger] found@[i]).key@ != (
                #[trigger] found@[j]).key@
            &&& forall|i: int|
                0 <= i < items.len() && (#[trigger] items[i]).key_spec(adapter) is Some
                    ==> exists|j: int|
                    0 <= j < found@.len() && Some((#[trigger] found@[j]).key@) == items[i].key_spec(
                        adapter,
                    )
            &&& forall|j: int|
                0 <= j < found@.len() ==> exists|i: int|
                    0 <= i < items.len() && (#[trigger] items[i]).key_spec(adapter) == Some(
                        (#[trigger] found@[j]).key@,
                    )
        },
{
    if let Some(found) = groups {
        let keys = engine_keys(items, adapter);
        engine_keys_are_distinct(items, adapter);
        assert forall|i: int|
            0 <= i < items.len() && (#[trigger] items[i]).key_spec(
                adapter,
            ) is Some implies exists|j: int|
            0 <= j < found@.len() && Some((#[trigger] found@[j]).key@) == items[i].key_spec(
                adapter,
            ) by {
            let key = items[i].key_spec(adapter)->Some_0;
            assert(items[i].key_spec(adapter) == Some(key));
            assert(keys.contains(key));
            let j = keys.index_of(key);
            assert(found@[j].key@ == key);
        }
        assert forall|j: int| 0 <= j < found@.len() implies exists|i: int|
            0 <= i < items.len() && (#[trigger] items[i]).key_spec(adapter) == Some(
                (#[trigger] found@[j]).key@,
            ) by {
            assert(keys[j] == found@[j].key@);
            assert(keys.contains(found@[j].key@));
        }
    }
}

/// An engine without values has no load; each further value is added to the
/// load of those before it.
pub proof fn each_value_is_added(values: Seq<u64>, value: u64, sum: spec_fn(u64, u64) -> u64)
    ensures
        engine_load(Seq::<u64>::empty(), sum) == 0,
        engine_load(values.push(value), sum) == sum(engine_load(values, sum), value),
{
    assert(values.push(value).drop_last() =~= values);
}

/// An addition that gives this sum wherever it can be asked for one is one that
/// the load of an adapter can be formed with, and is formed with.
pub proof fn total_additions_will_do<F: Fn(u64, u64) -> u64>(
    plus: F,
    sum: spec_fn(u64, u64) -> u64,
)
    requires
        forall|load: u64, value: u64| #[trigger] call_requires(plus, (load, value)),
        forall|load: u64, value: u64, total: u64|
            load <= 0x7ff0_0000_0000_0000 && (value < 0x7ff0_0000_0000_0000 || value
                == 0x8000_0000_0000_0000) && #[trigger] call_ensures(plus, (load, value), total)
                ==> total == sum(load, value) && total <= 0x7ff0_0000_0000_0000,
    ensures
        adds_loads(plus),
        adds_as(plus, sum),
{
}

/// The load of the adapter is missing exactly where no item counts for one of
/// its engines, or the name of an item that counts cannot be read. Where no
/// engine is above one hundred, it is the load of an engine that an item counts
/// for, and none of these has a larger one; where one is, it is one hundred.
pub proof fn load_is_that_of_the_busiest_engine(
    items: Seq<CounterItem>,
    adapter: AdapterLuid,
    sum: spec_fn(u64, u64) -> u64,
)
    ensures
        adapter_load(items, adapter, sum) is None <==> (exists|i: int|
            0 <= i < items.len() && (#[trigger] items[i]).counts_spec() && items[i].name is None)
            || (forall|i: int|
            0 <= i < items.len() ==> (#[trigger] items[i]).key_spec(adapter) is None),
        adapter_load(items, adapter, sum) matches Some(load) ==> {
            &&& load <= 0x4059_0000_0000_0000
            &&& forall|i: int|
                0 <= i < items.len() ==> ((#[trigger] items[i]).key_spec(adapter) matches Some(key)
                    ==> engine_load(engine_values(items, adapter, key), sum) <= load || load
                    == 0x4059_0000_0000_0000)
            &&& exists|i: int|
                0 <= i < items.len() && ((#[trigger] items[i]).key_spec(adapter) matches Some(key)
                    && (engine_load(engine_values(items, adapter, key), sum) == load || (load
                    == 0x4059_0000_0000_0000 && engine_load(
                    engine_values(items, adapter, key),
                    sum,
                ) > load)))
        },
{
    let keys = engine_keys(items, adapter);
    let loads = engine_loads(items, adapter, sum);
    engine_keys_are_distinct(items, adapter);
    peak_is_the_busiest_up_to_a_hundred(loads);
    if forall|i: int| 0 <= i < items.len() ==> (#[trigger] items[i]).key_spec(adapter) is None {
        if keys.len() > 0 {
            assert(keys.contains(keys[0]));
        }
    } else {
        let i = choose|i: int|
            0 <= i < items.len() && (#[trigger] items[i]).key_spec(adapter) is Some;
        let key = items[i].key_spec(adapter)->Some_0;
        assert(items[i].key_spec(adapter) == Some(key));
        assert(keys.contains(key));
    }
    if let Some(load) = adapter_load(items, adapter, sum) {
        assert forall|i: int| 0 <= i < items.len() implies ((#[trigger] items[i]).key_spec(
            adapter,
        ) matches Some(key) ==> engine_load(engine_values(items, adapter, key), sum) <= load
            || load == 0x4059_0000_0000_0000) by {
            if let Some(key) = items[i].key_spec(adapter) {
                assert(keys.contains(key));
                let place = keys.index_of(key);
                assert(loads[place] == engine_load(engine_values(items, adapter, key), sum));
            }
        }
        let place = if exists|p: int|
            0 <= p < loads.len() && #[trigger] loads[p] > 0x4059_0000_0000_0000 {
            choose|p: int| 0 <= p < loads.len() && #[trigger] loads[p] > 0x4059_0000_0000_0000
        } else {
            loads.index_of(load)
        };
        let key = keys[place];
        assert(loads[place] == engine_load(engine_values(items, adapter, key), sum));
        assert(keys.contains(key));
        let i = choose|i: int|
            0 <= i < items.len() && (#[trigger] items[i]).key_spec(adapter) == Some(key);
        assert(items[i].key_spec(adapter) == Some(key));
    }
}

/// While a query is being opened each call that worked leads to the next one,
/// and the last to a query that can be used. One that did not work leads to
/// giving up, and behind the first to closing the query before that.
pub proof fn opening_goes_call_by_call(status: u32)
    ensures
        opening(OpenEvent::Opened { status }) == (if status == 0 {
            OpenAction::AddCounter
        } else {
            OpenAction::GiveUp
        }),
        opening(OpenEvent::Added { status }) == (if status == 0 {
            OpenAction::Collect
        } else {
            OpenAction::CloseAndGiveUp
        }),
        opening(OpenEvent::Collected { status }) == (if status == 0 {
            OpenAction::Ready
        } else {
            OpenAction::CloseAndGiveUp
        }),
{
}

/// The buffer for the values holds as many bytes as were asked for, with less
/// than a word to spare. It is filled exactly where the system says that there
/// are values.
pub proof fn buffer_holds_what_was_asked_for(
    status: u32,
    buffer_bytes: u32,
    item_count: u32,
    word_bytes: usize,
    action: FetchAction,
)
    requires
        word_bytes > 0,
        follows_fetch(
            FetchEvent::Sized { status, buffer_bytes, item_count, word_bytes },
            action,
        ),
    ensures
        action is Fill <==> status == 0x8000_07d2 && buffer_bytes > 0 && item_count > 0,
        action is Fill || action == FetchAction::Unavailable,
        action matches FetchAction::Fill { words } ==> buffer_bytes <= words * word_bytes
            < buffer_bytes + word_bytes,
{
    if let FetchAction::Fill { words } = action {
        assert((words - 1) * word_bytes == words * word_bytes - word_bytes) by (nonlinear_arith);
    }
}

/// Items are read exactly where the buffer was filled and is large enough for
/// all of them, and then all of them are.
pub proof fn items_are_read_within_the_buffer(
    status: u32,
    buffer_bytes: u32,
    item_count: u32,
    item_bytes: usize,
    action: FetchAction,
)
    requires
        follows_fetch(
            FetchEvent::Filled { status, buffer_bytes, item_count, item_bytes },
            action,
        ),
    ensures
        action is ReadItems <==> status == 0 && item_count * item_bytes <= buffer_bytes,
        action is ReadItems || action == FetchAction::Unavailable,
        action matches FetchAction::ReadItems { count } ==> count == item_count,
{
}

/// The size is asked for exactly where new data was collected.
pub proof fn size_is_asked_for_after_collecting(status: u32, action: FetchAction)
    requires
        follows_fetch(FetchEvent::Collected { status }, action),
    ensures
        status == 0 ==> action == FetchAction::AskSize,
        status != 0 ==> action == FetchAction::Unavailable,
{
}

} // verus!
