//! Choosing the graphics adapter to report on.

use vstd::prelude::*;
use vstd::slice::slice_subrange;

use crate::engine::AdapterLuid;
use crate::text;
use crate::text::decode_utf16;

verus! {

/// How many adapters are looked at.
pub const ADAPTER_LIMIT: u32 = 32;

/// The flag of an adapter that is only software.
pub const SOFTWARE_ADAPTER_FLAG: u32 = 2;

/// What the system says of an adapter.
#[derive(Debug)]
pub struct AdapterDescription {
    pub flags: u32,
    /// The name in UTF-16, up to the first zero.
    pub description: Vec<u16>,
    pub dedicated_video_memory: u64,
    pub luid_high: i32,
    pub luid_low: u32,
}

/// The adapter that is reported on.
#[derive(Debug)]
pub struct GpuAdapter {
    pub name: String,
    pub dedicated_total_bytes: u64,
    pub luid: AdapterLuid,
}

/// What asking for the adapter at an index gave.
#[derive(Debug)]
pub enum AdapterProbe {
    /// There is no such adapter.
    Missing,
    /// There is one, but the system does not describe it.
    Undescribed,
    /// There is one, with this description.
    Described(AdapterDescription),
}

/// Where the search for an adapter stands.
#[derive(Debug)]
pub enum AdapterSearch {
    /// Ask for the adapter at this index.
    Probe(u32),
    /// This is the adapter.
    Found(GpuAdapter),
    /// There is none.
    NotFound,
}

/// The length of a text that ends at the first zero, or fills the buffer.
pub open spec fn terminated_length(units: Seq<u16>, from: int) -> int
    decreases units.len() - from,
{
    if from >= units.len() {
        units.len() as int
    } else if units[from] == 0 {
        from
    } else {
        terminated_length(units, from + 1)
    }
}

impl AdapterDescription {
    /// The name of the adapter.
    pub open spec fn name_spec(self) -> Seq<char> {
        text::utf16_text(self.description@.take(terminated_length(self.description@, 0)))
    }

    /// Whether the adapter is only software.
    pub open spec fn is_software(self) -> bool {
        self.flags & SOFTWARE_ADAPTER_FLAG != 0
    }
}

impl AdapterProbe {
    /// Whether the adapter is one to report on.
    pub open spec fn suits(self) -> bool {
        self matches AdapterProbe::Described(description) && !description.is_software()
    }
}

impl GpuAdapter {
    /// Whether this is the adapter with this description.
    pub open spec fn described_by(self, description: AdapterDescription) -> bool {
        &&& self.name@ == description.name_spec()
        &&& self.dedicated_total_bytes == description.dedicated_video_memory
        &&& self.luid.high == description.luid_high as u32
        &&& self.luid.low == description.luid_low
    }

    /// The adapter with this description.
    pub fn from_description(description: AdapterDescription) -> (adapter: Self)
        ensures
            adapter.described_by(description),
    {
        let units: &[u16] = description.description.as_slice();
        let mut end: usize = 0;
        while end < units.len() && units[end] != 0
            invariant
                end <= units@.len(),
                terminated_length(units@, end as int) == terminated_length(units@, 0),
            decreases units@.len() - end,
        {
            end = end + 1;
        }
        assert(units@.subrange(0, end as int) =~= units@.take(end as int));
        GpuAdapter {
            name: decode_utf16(slice_subrange(units, 0, end)),
            dedicated_total_bytes: description.dedicated_video_memory,
            luid: AdapterLuid { high: description.luid_high as u32, low: description.luid_low },
        }
    }
}

/// What an answer at an index means for the search.
pub enum SearchTurn {
    Next(int),
    Take,
    GiveUp,
}

/// How the search goes on after the answer at an index.
pub open spec fn search_turn(index: int, probe: AdapterProbe) -> SearchTurn {
    if probe is Missing {
        SearchTurn::GiveUp
    } else if probe.suits() {
        SearchTurn::Take
    } else if index + 1 < ADAPTER_LIMIT {
        SearchTurn::Next(index + 1)
    } else {
        SearchTurn::GiveUp
    }
}

impl AdapterSearch {
    /// A search that has asked for nothing yet.
    pub fn start() -> (search: Self)
        ensures
            search == AdapterSearch::Probe(0),
    {
        AdapterSearch::Probe(0)
    }

    /// Goes on with the search after the answer at `index`.
    pub fn discover_step(index: u32, probe: AdapterProbe) -> (search: Self)
        requires
            index < ADAPTER_LIMIT,
        ensures
            match search_turn(index as int, probe) {
                SearchTurn::Next(next) => search matches AdapterSearch::Probe(asked) && asked
                    == next,
                SearchTurn::Take => search matches AdapterSearch::Found(adapter)
                    && adapter.described_by(probe->Described_0),
                SearchTurn::GiveUp => search == AdapterSearch::NotFound,
            },
    {
        match probe {
            AdapterProbe::Missing => { return AdapterSearch::NotFound; },
            AdapterProbe::Undescribed => {},
            AdapterProbe::Described(description) => {
                if description.flags & SOFTWARE_ADAPTER_FLAG == 0 {
                    return AdapterSearch::Found(GpuAdapter::from_description(description));
                }
            },
        }
        if index + 1 < ADAPTER_LIMIT {
            AdapterSearch::Probe(index + 1)
        } else {
            AdapterSearch::NotFound
        }
    }
}

/// The index that a search takes from `index` on, given what the system
/// answers at each.
pub open spec fn search_from(answers: spec_fn(int) -> AdapterProbe, index: int) -> Option<int>
    decreases ADAPTER_LIMIT - index,
{
    match search_turn(index, answers(index)) {
        SearchTurn::Next(next) => search_from(answers, next),
        SearchTurn::Take => Some(index),
        SearchTurn::GiveUp => None,
    }
}

/// Whether an adapter is the first that suits among those that the system
/// lists without a gap.
pub open spec fn first_to_suit(
    answers: spec_fn(int) -> AdapterProbe,
    from: int,
    chosen: int,
) -> bool {
    &&& from <= chosen < ADAPTER_LIMIT
    &&& answers(chosen).suits()
    &&& forall|i: int|
        from <= i < chosen ==> !((#[trigger] answers(i)) is Missing) && !answers(i).suits()
}

/// The search takes the first adapter that suits, of those that the system
/// lists before the first missing one and within the limit; it finds none only
/// where there is none.
pub proof fn search_takes_the_first_to_suit(answers: spec_fn(int) -> AdapterProbe)
    ensures
        match search_from(answers, 0) {
            Some(chosen) => first_to_suit(answers, 0, chosen),
            None => forall|i: int| !#[trigger] first_to_suit(answers, 0, i),
        },
{
    search_takes_the_first_from(answers, 0);
}

/// The same of a search that stands at an index.
proof fn search_takes_the_first_from(answers: spec_fn(int) -> AdapterProbe, from: int)
    requires
        0 <= from < ADAPTER_LIMIT,
    ensures
        match search_from(answers, from) {
            Some(chosen) => first_to_suit(answers, from, chosen),
            None => forall|i: int| !#[trigger] first_to_suit(answers, from, i),
        },
    decreases ADAPTER_LIMIT - from,
{
    if let SearchTurn::Next(next) = search_turn(from, answers(from)) {
        search_takes_the_first_from(answers, next);
        assert forall|i: int| #[trigger] first_to_suit(answers, from, i) implies first_to_suit(
            answers,
            next,
            i,
        ) by {
            assert(i != from);
        }
    } else {
        assert forall|i: int| #[trigger] first_to_suit(answers, from, i) implies i == from by {
            if i > from {
                assert(!(answers(from) is Missing));
            }
        }
    }
}

/// The name of an adapter is the text of the units before the first zero, or of
/// all units where none is zero.
pub proof fn name_ends_at_the_first_zero(description: AdapterDescription, end: int)
    requires
        0 <= end <= description.description@.len(),
        forall|i: int| 0 <= i < end ==> #[trigger] description.description@[i] != 0,
        end == description.description@.len() || description.description@[end] == 0,
    ensures
        description.name_spec() == text::utf16_text(description.description@.take(end)),
{
    text_ends_at_the_first_zero(description.description@, 0, end);
}

/// The same of the units from one on.
proof fn text_ends_at_the_first_zero(units: Seq<u16>, from: int, end: int)
    requires
        0 <= from <= end <= units.len(),
        forall|i: int| from <= i < end ==> #[trigger] units[i] != 0,
        end == units.len() || units[end] == 0,
    ensures
        terminated_length(units, from) == end,
    decreases end - from,
{
    if from < end {
        text_ends_at_the_first_zero(units, from + 1, end);
    }
}

/// An adapter has the memory of its description and its identifier, of which
/// the high half is taken modulo two to the thirty-second.
pub proof fn adapter_is_as_described(adapter: GpuAdapter, description: AdapterDescription)
    requires
        adapter.described_by(description),
    ensures
        adapter.name@ == description.name_spec(),
        adapter.dedicated_total_bytes == description.dedicated_video_memory,
        adapter.luid.low == description.luid_low,
        description.luid_high >= 0 ==> adapter.luid.high == description.luid_high,
        description.luid_high < 0 ==> adapter.luid.high == description.luid_high + 0x1_0000_0000,
{
    let high = description.luid_high;
    assert(high >= 0 ==> high as u32 == high) by (bit_vector);
    assert(high < 0 ==> high as u32 == high + 0x1_0000_0000) by (bit_vector);
}

/// An adapter suits exactly where it is described and the second bit of its
/// flags is not set.
pub proof fn hardware_adapters_suit(description: AdapterDescription)
    ensures
        AdapterProbe::Described(description).suits() <==> description.flags / 2 % 2 == 0,
        !AdapterProbe::Missing.suits(),
        !AdapterProbe::Undescribed.suits(),
{
    let flags = description.flags;
    assert(flags & 2 != 0 <==> flags / 2 % 2 == 1) by (bit_vector);
}

/// A missing adapter ends the search, one that suits is taken, and any other
/// leads to the next index, of which the last is 31.
pub proof fn search_goes_index_by_index(index: int, probe: AdapterProbe)
    requires
        0 <= index < 32,
    ensures
        probe is Missing ==> search_turn(index, probe) is GiveUp,
        probe.suits() ==> search_turn(index, probe) is Take,
        !(probe is Missing) && !probe.suits() ==> if index == 31 {
            search_turn(index, probe) is GiveUp
        } else {
            search_turn(index, probe) == SearchTurn::Next(index + 1)
        },
{
}

} // verus!
