use companion::adapter::{AdapterDescription, AdapterProbe, AdapterSearch, GpuAdapter};
use companion::counter::{
    engine_groups, fetch_step, open_step, peak_percent, utilization, CounterItem, FetchAction, FetchEvent,
    OpenAction, OpenEvent, HUNDRED_BITS, INFINITY_BITS, NEGATIVE_ZERO_BITS, STATUS_MORE_DATA,
};
use companion::engine::{gpu_engine_key, AdapterLuid};
use companion::text::{characters, decode_utf16, joined, lowered, parse_hex, same_text, string_of};

const ADAPTER: AdapterLuid = AdapterLuid { high: 0, low: 0xabcd };

fn item(status: u32, value: f64, name: &str) -> CounterItem {
    CounterItem { status, value_bits: value.to_bits(), name: Some(name.to_owned()) }
}

fn float_sum(load: u64, value: u64) -> u64 {
    (f64::from_bits(load) + f64::from_bits(value)).to_bits()
}

fn percent(items: Vec<CounterItem>) -> Option<f64> {
    utilization(&items, ADAPTER, float_sum).map(f64::from_bits)
}

fn described(flags: u32, name: &str) -> AdapterProbe {
    let mut description: Vec<u16> = name.encode_utf16().collect();
    description.resize(128, 0);
    AdapterProbe::Described(AdapterDescription {
        flags,
        description,
        dedicated_video_memory: 4096,
        luid_high: -1,
        luid_low: 7,
    })
}

fn search(answers: Vec<AdapterProbe>) -> (AdapterSearch, u32) {
    let mut search = AdapterSearch::start();
    let mut asked = 0;
    for answer in answers {
        match search {
            AdapterSearch::Probe(index) => {
                asked = index;
                search = AdapterSearch::discover_step(index, answer);
            }
            done => return (done, asked),
        }
    }
    (search, asked)
}

#[test]
fn key_is_the_name_from_the_marker_on() {
    assert_eq!(
        gpu_engine_key("pid_42_LUID_0x00000000_0x0000ABCD_phys_0_eng_3_engtype_3D", ADAPTER),
        Some("_luid_0x00000000_0x0000abcd_phys_0_eng_3_engtype_3d".to_owned())
    );
    assert_eq!(gpu_engine_key("_luid_0x0_0xabcd", ADAPTER), Some("_luid_0x0_0xabcd".to_owned()));
}

#[test]
fn key_needs_the_adapter() {
    for name in [
        "",
        "pid_42_phys_0",
        "pid_42_luid",
        "pid_42_luid_",
        "pid_42_luid_0x0",
        "pid_42_luid_0x0_",
        "pid_42_luid_0x1_0xabcd",
        "pid_42_luid_0x0_0xabce",
        "pid_42_luid_0_0xabcd",
        "pid_42_luid_0x_0xabcd",
        "pid_42_luid_0x0_abcd",
        "pid_42_luid_0x0_0xabcg",
        "pid_42_luid_0x100000000_0xabcd",
        "pid_42_luid__0x0_0xabcd",
    ] {
        assert_eq!(gpu_engine_key(name, ADAPTER), None);
    }
}

#[test]
fn key_goes_by_the_first_marker() {
    assert_eq!(gpu_engine_key("_luid_0x1_0x2_luid_0x0_0xabcd", ADAPTER), None);
    assert_eq!(
        gpu_engine_key("\u{c4}_Luid_0x+0_0x+ABCD_\u{c4}", ADAPTER),
        Some("_luid_0x+0_0x+abcd_\u{c4}".to_owned())
    );
}

#[test]
fn key_stands_for_itself() {
    let key = gpu_engine_key("pid_1_luid_0x0_0xABCD_eng_0", ADAPTER).unwrap();
    assert_eq!(gpu_engine_key(&key, ADAPTER), Some(key));
}

#[test]
fn hexadecimal_numbers_are_read_as_the_standard_library_does() {
    for text in [
        "", "+", "-", "-0", "0", "+0", "++1", "ff", "FF", "fFfFfFfF", "100000000", "000000000000001",
        "g", "1g", " 1", "0x1", "\u{661}",
    ] {
        let chars: Vec<char> = text.chars().collect();
        assert_eq!(parse_hex(&chars), u32::from_str_radix(text, 16).ok());
    }
}

#[test]
fn text_is_taken_apart_and_put_together() {
    let text = "A\u{e9}Z\u{1F600}z[@";
    let chars = characters(text);
    assert_eq!(chars, text.chars().collect::<Vec<char>>());
    assert_eq!(string_of(&chars), text);
    assert_eq!(string_of(&lowered(&chars)), text.to_ascii_lowercase());
    assert_eq!(joined("ab", "cd"), "abcd");
    assert!(same_text("ab", "ab"));
    assert!(!same_text("ab", "aB"));
}

#[test]
fn utf16_is_decoded_as_the_standard_library_does() {
    for units in [
        vec![],
        vec![0x41, 0xe9, 0xd83d, 0xde00, 0x20ac],
        vec![0xd83d],
        vec![0xde00, 0x41],
        vec![0xd83d, 0xd83d, 0xde00],
        vec![0xd83d, 0x41, 0xdfff],
        vec![0xdbff, 0xdfff, 0xe000, 0xd7ff, 0xffff],
    ] {
        assert_eq!(decode_utf16(&units), String::from_utf16_lossy(&units));
    }
}

#[test]
fn first_hardware_adapter_is_found() {
    let (found, index) = search(vec![
        described(2, "Software"),
        AdapterProbe::Undescribed,
        described(1, "Card \u{ae}"),
        described(0, "Other"),
    ]);
    assert_eq!(index, 2);
    match found {
        AdapterSearch::Found(adapter) => {
            assert_eq!(adapter.name, "Card \u{ae}");
            assert_eq!(adapter.dedicated_total_bytes, 4096);
            assert_eq!(adapter.luid, AdapterLuid { high: u32::MAX, low: 7 });
        }
        other => panic!("not found: {other:?}"),
    }
}

#[test]
fn adapter_name_may_fill_its_buffer() {
    let adapter = GpuAdapter::from_description(AdapterDescription {
        flags: 0,
        description: vec![0x41, 0x42],
        dedicated_video_memory: 1,
        luid_high: 2,
        luid_low: 3,
    });
    assert_eq!(adapter.name, "AB");
    assert_eq!(adapter.luid, AdapterLuid { high: 2, low: 3 });
}

#[test]
fn search_ends_at_a_missing_adapter() {
    let (found, index) = search(vec![AdapterProbe::Undescribed, AdapterProbe::Missing]);
    assert!(matches!(found, AdapterSearch::NotFound));
    assert_eq!(index, 1);
}

#[test]
fn search_ends_at_the_limit() {
    let (found, index) = search((0..40).map(|_| AdapterProbe::Undescribed).collect());
    assert!(matches!(found, AdapterSearch::NotFound));
    assert_eq!(index, 31);
}

#[test]
fn query_is_opened_or_closed() {
    assert_eq!(open_step(OpenEvent::Opened { status: 0 }), OpenAction::AddCounter);
    assert_eq!(open_step(OpenEvent::Opened { status: 1 }), OpenAction::GiveUp);
    assert_eq!(open_step(OpenEvent::Added { status: 0 }), OpenAction::Collect);
    assert_eq!(open_step(OpenEvent::Added { status: 1 }), OpenAction::CloseAndGiveUp);
    assert_eq!(open_step(OpenEvent::Collected { status: 0 }), OpenAction::Ready);
    assert_eq!(open_step(OpenEvent::Collected { status: 1 }), OpenAction::CloseAndGiveUp);
}

#[test]
fn values_are_fetched_in_three_steps() {
    let sized = |status, buffer_bytes, item_count| FetchEvent::Sized {
        status,
        buffer_bytes,
        item_count,
        word_bytes: 8,
    };
    let filled = |status, buffer_bytes, item_count| FetchEvent::Filled {
        status,
        buffer_bytes,
        item_count,
        item_bytes: 24,
    };
    assert_eq!(STATUS_MORE_DATA, 0x8000_07d2);
    assert_eq!(fetch_step(FetchEvent::Collected { status: 0 }), FetchAction::AskSize);
    assert_eq!(fetch_step(FetchEvent::Collected { status: 5 }), FetchAction::Unavailable);
    assert_eq!(fetch_step(sized(STATUS_MORE_DATA, 16, 1)), FetchAction::Fill { words: 2 });
    assert_eq!(fetch_step(sized(STATUS_MORE_DATA, 17, 1)), FetchAction::Fill { words: 3 });
    assert_eq!(fetch_step(sized(STATUS_MORE_DATA, 1, 1)), FetchAction::Fill { words: 1 });
    assert_eq!(fetch_step(sized(STATUS_MORE_DATA, 0, 1)), FetchAction::Unavailable);
    assert_eq!(fetch_step(sized(STATUS_MORE_DATA, 16, 0)), FetchAction::Unavailable);
    assert_eq!(fetch_step(sized(0, 16, 1)), FetchAction::Unavailable);
    assert_eq!(fetch_step(filled(0, 48, 2)), FetchAction::ReadItems { count: 2 });
    assert_eq!(fetch_step(filled(0, 47, 2)), FetchAction::Unavailable);
    assert_eq!(fetch_step(filled(0, 0, 0)), FetchAction::ReadItems { count: 0 });
    assert_eq!(fetch_step(filled(1, 48, 2)), FetchAction::Unavailable);
}

#[test]
fn bit_patterns_are_those_of_their_numbers() {
    assert_eq!(HUNDRED_BITS, 100.0f64.to_bits());
    assert_eq!(INFINITY_BITS, f64::INFINITY.to_bits());
    assert_eq!(NEGATIVE_ZERO_BITS, (-0.0f64).to_bits());
}

#[test]
fn finite_values_from_zero_up_count() {
    for value in [0.0, -0.0, f64::MIN_POSITIVE, 5e-324, 99.5, 250.0, f64::MAX] {
        assert!(item(0, value, "").counts());
        assert!(item(1, value, "").counts());
        assert!(!item(2, value, "").counts());
    }
    for value in [-5e-324, -1.0, f64::MIN, f64::INFINITY, f64::NEG_INFINITY, f64::NAN, -f64::NAN] {
        assert!(!item(0, value, "").counts());
    }
}

#[test]
fn values_are_sorted_by_engine() {
    let items = vec![
        item(0, 1.0, "pid_1_luid_0x0_0xABCD_eng_3d"),
        item(0, 2.0, "pid_1_luid_0x0_0xabcd_eng_copy"),
        item(0, 4.0, "pid_1_luid_0x0_0x1_eng_3d"),
        item(9, 8.0, "pid_1_luid_0x0_0xabcd_eng_3d"),
        item(1, 16.0, "pid_2_luid_0x0_0xabcd_eng_3D"),
        CounterItem { status: 9, value_bits: 0, name: None },
    ];
    let groups = engine_groups(&items, ADAPTER).unwrap();
    let found: Vec<(String, Vec<f64>)> = groups
        .into_iter()
        .map(|group| (group.key, group.values.into_iter().map(f64::from_bits).collect()))
        .collect();
    assert_eq!(
        found,
        vec![
            ("_luid_0x0_0xabcd_eng_3d".to_owned(), vec![1.0, 16.0]),
            ("_luid_0x0_0xabcd_eng_copy".to_owned(), vec![2.0]),
        ]
    );
}

#[test]
fn rejected_items_have_no_influence() {
    let counted = || {
        vec![
            item(0, 1.0, "pid_1_luid_0x0_0xabcd_eng_3d"),
            item(1, 2.0, "pid_1_luid_0x0_0xabcd_eng_copy"),
            item(0, 4.0, "pid_2_luid_0x0_0xabcd_eng_3d"),
        ]
    };
    let rejected = || {
        vec![
            item(2, 8.0, "pid_1_luid_0x0_0xabcd_eng_3d"),
            item(0, f64::NAN, "pid_1_luid_0x0_0xabcd_eng_3d"),
            item(0, f64::INFINITY, "pid_1_luid_0x0_0xabcd_eng_copy"),
            item(1, -1.0, "pid_1_luid_0x0_0xabcd_eng_video"),
            item(0, 16.0, "pid_1_luid_0x0_0x1_eng_3d"),
            item(0, 32.0, "pid_1_eng_3d"),
            CounterItem { status: 0, value_bits: f64::NAN.to_bits(), name: None },
        ]
    };
    let grouped = |items: Vec<CounterItem>| {
        engine_groups(&items, ADAPTER).map(|groups| {
            groups
                .into_iter()
                .map(|group| (group.key, group.values))
                .collect::<Vec<(String, Vec<u64>)>>()
        })
    };
    let expected = grouped(counted());
    assert_eq!(
        expected,
        Some(vec![
            (
                "_luid_0x0_0xabcd_eng_3d".to_owned(),
                vec![1.0f64.to_bits(), 4.0f64.to_bits()],
            ),
            ("_luid_0x0_0xabcd_eng_copy".to_owned(), vec![2.0f64.to_bits()]),
        ])
    );
    let mut mixed = rejected();
    for wanted in counted() {
        mixed.push(wanted);
        mixed.extend(rejected());
    }
    assert_eq!(grouped(mixed), expected);
    assert_eq!(grouped(rejected()), Some(Vec::new()));

    let unreadable = || CounterItem { status: 0, value_bits: 0, name: None };
    let mut hidden = rejected();
    hidden.push(unreadable());
    assert_eq!(grouped(hidden), None);
    assert_eq!(grouped(vec![unreadable()]), None);
}

#[test]
fn unreadable_name_hides_every_value() {
    let items = vec![
        item(0, 1.0, "pid_1_luid_0x0_0xabcd"),
        CounterItem { status: 0, value_bits: 0, name: None },
    ];
    assert!(engine_groups(&items, ADAPTER).is_none());
    assert!(engine_groups(&vec![], ADAPTER).unwrap().is_empty());
}

#[test]
fn load_is_that_of_the_busiest_engine() {
    let peak = |loads: &[f64]| {
        let bits: Vec<u64> = loads.iter().map(|load| load.to_bits()).collect();
        peak_percent(&bits).map(f64::from_bits)
    };
    assert_eq!(peak(&[]), None);
    assert_eq!(peak(&[0.0]), Some(0.0));
    assert_eq!(peak(&[1.5, 20.25, 3.0]), Some(20.25));
    assert_eq!(peak(&[100.0, 99.0]), Some(100.0));
    assert_eq!(peak(&[1.0, 100.5]), Some(100.0));
    assert_eq!(peak(&[f64::INFINITY]), Some(100.0));
}

#[test]
fn values_of_an_engine_are_added_up() {
    let three_d = "pid_1_luid_0x0_0xabcd_eng_3d";
    let copy = "pid_1_luid_0x0_0xabcd_eng_copy";
    assert_eq!(percent(Vec::new()), None);
    assert_eq!(percent(vec![item(0, 4.0, "pid_1_luid_0x0_0x1")]), None);
    assert_eq!(percent(vec![item(0, 12.5, three_d)]), Some(12.5));
    assert_eq!(
        percent(vec![item(0, 12.5, three_d), item(0, 30.0, copy), item(1, 20.25, three_d)]),
        Some(32.75)
    );
    assert_eq!(
        percent(vec![item(0, 60.0, three_d), item(0, 50.0, three_d)]),
        Some(100.0)
    );
    assert_eq!(
        percent(vec![item(0, f64::MAX, copy), item(0, f64::MAX, copy)]),
        Some(100.0)
    );
    let zero = percent(vec![item(0, -0.0, three_d)]).unwrap();
    assert_eq!(zero.to_bits(), 0.0f64.to_bits());
}

#[test]
fn values_are_added_in_their_order() {
    let name = "pid_1_luid_0x0_0xabcd_eng_3d";
    let items = vec![item(0, 3.0, name), item(0, 5.0, name), item(0, 7.0, name)];
    let calls = std::cell::RefCell::new(Vec::new());
    let load = utilization(&items, ADAPTER, |load, value| {
        calls.borrow_mut().push((f64::from_bits(load), f64::from_bits(value)));
        float_sum(load, value)
    });
    assert_eq!(load, Some(15.0f64.to_bits()));
    assert_eq!(calls.into_inner(), vec![(0.0, 3.0), (3.0, 5.0), (8.0, 7.0)]);
}

#[test]
fn rejected_items_leave_the_load() {
    let name = "pid_1_luid_0x0_0xabcd_eng_3d";
    assert_eq!(percent(vec![item(0, 1.5, name), item(0, 2.5, name)]), Some(4.0));
    assert_eq!(
        percent(vec![
            item(0, f64::NAN, name),
            item(0, 1.5, name),
            item(7, 50.0, name),
            item(0, -1.0, name),
            item(0, 60.0, "pid_1_luid_0x0_0x1_eng_3d"),
            item(0, 2.5, name),
            item(0, f64::INFINITY, name),
            item(0, 70.0, "pid_1_eng_3d"),
        ]),
        Some(4.0)
    );
    assert_eq!(
        percent(vec![
            item(0, 1.5, name),
            CounterItem { status: 0, value_bits: 0, name: None },
        ]),
        None
    );
}
