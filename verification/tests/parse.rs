use knobs::cli::parse::{
    BoolStr, CardIds, DurationStr, FrequencyStr, FrequencyUnit, Indices, PowerStr, PowerUnit, TimeUnit, Toggles,
};
use knobs::cli::group::CardId;
use knobs::cli::Error;

fn value_error(e: Error) -> String {
    match e {
        Error::ParseValue(m) => m,
        other => panic!("unexpected error {:?}", other),
    }
}

#[test]
fn bool_str_accepts_the_four_spellings() {
    assert_eq!(BoolStr::from_str("0").unwrap().into_bool(), false);
    assert_eq!(BoolStr::from_str("false").unwrap().into_bool(), false);
    assert_eq!(BoolStr::from_str("1").unwrap().into_bool(), true);
    assert_eq!(BoolStr::from_str("true").unwrap().into_bool(), true);
}

#[test]
fn bool_str_refuses_others() {
    for s in ["", "yes", "TRUE", "2", " 1"] {
        let e = BoolStr::from_str(s).unwrap_err();
        assert_eq!(value_error(e), "Expected 0, 1, false, or true");
    }
}

#[test]
fn indices_sorted_and_distinct() {
    let v = Indices::from_str("5,0-2,1,3").unwrap().into_vec();
    assert_eq!(v, vec![0, 1, 2, 3, 5]);
}

#[test]
fn indices_trailing_commas_ignored() {
    assert_eq!(Indices::from_str("1,2,,").unwrap().into_vec(), vec![1, 2]);
    assert_eq!(Indices::from_str("4").unwrap().into_vec(), vec![4]);
}

#[test]
fn indices_empty_range_gives_nothing() {
    assert_eq!(Indices::from_str("5-3").unwrap().into_vec(), Vec::<u64>::new());
}

#[test]
fn indices_range_to_the_largest_id() {
    let v = Indices::from_str("18446744073709551614-18446744073709551615").unwrap().into_vec();
    assert_eq!(v, vec![u64::MAX - 1, u64::MAX]);
}

#[test]
fn indices_faults() {
    assert_eq!(value_error(Indices::from_str("a").unwrap_err()), "Index is not an integer");
    assert_eq!(value_error(Indices::from_str("").unwrap_err()), "Index is not an integer");
    assert_eq!(value_error(Indices::from_str("x-3").unwrap_err()), "Start of range is not an integer");
    assert_eq!(value_error(Indices::from_str("1-y").unwrap_err()), "End of range is not an integer");
    assert_eq!(
        value_error(Indices::from_str("1-2-3").unwrap_err()),
        "Expected comma-delimited list of integers and/or integer ranges"
    );
}

#[test]
fn indices_first_fault_wins() {
    assert_eq!(value_error(Indices::from_str("1-2-3,a").unwrap_err()), "Expected comma-delimited list of integers and/or integer ranges");
    assert_eq!(value_error(Indices::from_str("a,1-2-3").unwrap_err()), "Index is not an integer");
}

#[test]
fn toggles_positions_are_ids() {
    let t = Toggles::from_str("10_1").unwrap().into_vec();
    assert_eq!(t, vec![(0, true), (1, false), (3, true)]);
    let t = Toggles::from_str("-0").unwrap().into_vec();
    assert_eq!(t, vec![(1, false)]);
}

#[test]
fn toggles_refuse_other_characters() {
    assert_eq!(value_error(Toggles::from_str("1x").unwrap_err()), "Expected sequence of 0, 1, or -");
}

#[test]
fn card_id_index_or_bus_id() {
    match CardId::from_str("3").unwrap() {
        CardId::Index(i) => assert_eq!(i, 3),
        other => panic!("{:?}", other),
    }
    match CardId::from_str("0000:00:02.0").unwrap() {
        CardId::BusId(s) => assert_eq!(s, "0000:00:02.0"),
        other => panic!("{:?}", other),
    }
    assert_eq!(value_error(CardId::from_str("x").unwrap_err()), "Expected id integer or pci id string");
}

#[test]
fn card_ids_indices_then_bus_ids() {
    let v = CardIds::from_str("0000:00:02.0,2,0-1").unwrap().0;
    assert_eq!(v.len(), 4);
    for (i, want) in [0u64, 1, 2].iter().enumerate() {
        match &v[i] {
            CardId::Index(x) => assert_eq!(x, want),
            other => panic!("{:?}", other),
        }
    }
    match &v[3] {
        CardId::BusId(s) => assert_eq!(s, "0000:00:02.0"),
        other => panic!("{:?}", other),
    }
}

#[test]
fn card_ids_pci_id_alone() {
    let v = CardIds::from_str("0000:00:02.0").unwrap().0;
    assert_eq!(v.len(), 1);
    match &v[0] {
        CardId::BusId(s) => assert_eq!(s, "0000:00:02.0"),
        other => panic!("{:?}", other),
    }
    let v = CardIds::from_str("2,0000:00:02.0,0-1").unwrap().0;
    assert_eq!(v.len(), 4);
    match (&v[0], &v[1], &v[2], &v[3]) {
        (CardId::Index(0), CardId::Index(1), CardId::Index(2), CardId::BusId(s)) => assert_eq!(s, "0000:00:02.0"),
        other => panic!("{:?}", other),
    }
}

#[test]
fn card_ids_bad_index() {
    assert_eq!(value_error(CardIds::from_str("1,x").unwrap_err()), "Index is not an integer");
}

#[test]
fn duration_units() {
    let d = DurationStr::from_str("2000").unwrap();
    assert_eq!((d.value, d.unit), (2000, TimeUnit::Millis));
    assert_eq!(d.as_micros(), 2_000_000);
    let d = DurationStr::from_str("3s").unwrap();
    assert_eq!((d.value, d.unit), (3, TimeUnit::Secs));
    assert_eq!(d.as_micros(), 3_000_000);
    assert_eq!(DurationStr::from_str("1500ns").unwrap().as_micros(), 1);
    assert_eq!(DurationStr::from_str("7us").unwrap().as_micros(), 7);
    assert_eq!(DurationStr::from_str("7u").unwrap().unit, TimeUnit::Micros);
    assert_eq!(DurationStr::from_str("7m").unwrap().unit, TimeUnit::Millis);
}

#[test]
fn duration_faults() {
    assert_eq!(value_error(DurationStr::from_str("3h").unwrap_err()), "Unrecognized duration unit");
    assert_eq!(
        value_error(DurationStr::from_str("1.5s").unwrap_err()),
        "Expected duration value, ex. 2000, 2000ms, 2s"
    );
    assert_eq!(
        value_error(DurationStr::from_str("").unwrap_err()),
        "Expected duration value, ex. 3000, 3000ms, 3s"
    );
}

#[test]
fn frequency_units() {
    let f = FrequencyStr::from_str("1200").unwrap();
    assert_eq!((f.number.as_str(), f.unit), ("1200", FrequencyUnit::Megahertz));
    let f = FrequencyStr::from_str("1.2GHz").unwrap();
    assert_eq!((f.number.as_str(), f.unit), ("1.2", FrequencyUnit::Gigahertz));
    assert_eq!(FrequencyStr::from_str("800k").unwrap().unit, FrequencyUnit::Kilohertz);
    assert_eq!(FrequencyStr::from_str("5h").unwrap().unit, FrequencyUnit::Hertz);
    assert_eq!(FrequencyStr::from_str("1T").unwrap().unit, FrequencyUnit::Terahertz);
}

#[test]
fn frequency_faults() {
    assert_eq!(value_error(FrequencyStr::from_str("3x").unwrap_err()), "Unrecognized frequency unit");
    assert_eq!(
        value_error(FrequencyStr::from_str("ghz").unwrap_err()),
        "Expected frequency value with optional unit"
    );
}

#[test]
fn power_units() {
    let p = PowerStr::from_str("15").unwrap();
    assert_eq!((p.number.as_str(), p.unit), ("15", PowerUnit::Milliwatts));
    let p = PowerStr::from_str("28w").unwrap();
    assert_eq!((p.number.as_str(), p.unit), ("28", PowerUnit::Watts));
    assert_eq!(PowerStr::from_str("500m").unwrap().unit, PowerUnit::Milliwatts);
    let p = PowerStr::from_str("2.5mw").unwrap();
    assert_eq!((p.number.as_str(), p.unit), ("2.5", PowerUnit::Milliwatts));
    assert_eq!(PowerStr::from_str("9u").unwrap().unit, PowerUnit::Microwatts);
    assert_eq!(PowerStr::from_str("1kw").unwrap().unit, PowerUnit::Kilowatts);
}

#[test]
fn power_faults() {
    assert_eq!(value_error(PowerStr::from_str("5W").unwrap_err()), "Unrecognized power unit");
    assert_eq!(value_error(PowerStr::from_str("w").unwrap_err()), "Expected power value");
}
