use knobs::cpu;
use knobs::cpufreq;
use knobs::format::{
    cpu_cpufreq, dot, epb_epp, epps, governors, hz, i915, intel_pstate, intel_rapl, nl, uw, Cell, Table, DOT,
};
use knobs::i915 as card;
use knobs::intel_pstate::{Device, Globals, System};
use knobs::intel_rapl::{Constraint, Device as Zone, ZoneId};

fn text(c: &Cell) -> String {
    match c {
        Cell::Text(s) => s.clone(),
        Cell::Dot => DOT.to_string(),
        other => panic!("not a text: {:?}", other),
    }
}

fn words(v: &[&str]) -> Vec<String> {
    v.iter().map(|s| s.to_string()).collect()
}

#[test]
fn dot_and_newline() {
    assert_eq!(dot(), "\u{2022}");
    assert_eq!(nl("a".to_string()), "a\n");
}

#[test]
fn hz_precision() {
    assert_eq!(text(&hz(0)), "0 Hz");
    assert!(matches!(hz(999_999_999), Cell::Hz { hz: 999_999_999, precision: 0 }));
    assert!(matches!(hz(1_000_000_000), Cell::Hz { hz: 1_000_000_000, precision: 1 }));
}

#[test]
fn uw_drops_low_digits() {
    assert_eq!(text(&uw(0)), "0 W");
    assert!(matches!(uw(999_999), Cell::Power { uw: 999_999 }));
    assert!(matches!(uw(28_123_456), Cell::Power { uw: 28_123_000 }));
    assert!(matches!(uw(35_000_000_001), Cell::Power { uw: 35_000_000_000 }));
    assert!(matches!(uw(1_234_567_890_123), Cell::Power { uw: 1_234_000_000_000 }));
}

#[test]
fn table_has_dashes_under_the_header() {
    let mut t = Table::new(&["CPU", "Online"]);
    assert_eq!(t.header, words(&["CPU", "Online"]));
    assert_eq!(t.rows, vec![words(&["---", "------"])]);
    t.row(words(&["0", "true"]));
    assert_eq!(t.rows.len(), 2);
    let s = t.to_text();
    assert!(s.contains("CPU"));
    assert!(s.contains("------"));
    assert!(s.ends_with('\n'));
    let t = Table::new(&["Zone é", "°C"]);
    assert_eq!(t.rows, vec![words(&["-------", "---"])]);
}

fn cpu_record(id: u64, online: Option<bool>) -> cpu::Record {
    let mut r = cpu::Record::new(id);
    r.read(online);
    r
}

fn policy(id: u64, gov: Option<&str>, govs: Option<&[&str]>) -> cpufreq::Record {
    let mut r = cpufreq::Record::new(id);
    r.read(
        Some(4_800_000),
        Some(400_000),
        Some(546_000),
        Some("intel_pstate".to_string()),
        gov.map(String::from),
        govs.map(words),
        Some(4_800_000),
        Some(400_000),
    );
    r
}

#[test]
fn cpu_table_rows() {
    let cpus = vec![cpu_record(0, None), cpu_record(1, Some(true))];
    let pols = vec![policy(1, Some("powersave"), None)];
    let t = cpu_cpufreq(Some(&cpus), Some(&pols)).unwrap();
    assert_eq!(t.header, words(&["CPU", "Online", "Governor", "Cur", "Min", "Max", "CPU min", "CPU max"]));
    assert_eq!(t.rows.len(), 2);
    assert_eq!(text(&t.rows[0][0]), "0");
    assert_eq!(text(&t.rows[0][1]), DOT);
    assert_eq!(text(&t.rows[0][2]), DOT);
    assert_eq!(text(&t.rows[1][1]), "true");
    assert_eq!(text(&t.rows[1][2]), "powersave");
    assert!(matches!(t.rows[1][3], Cell::Hz { hz: 546_000_000, precision: 0 }));
    assert!(matches!(t.rows[1][5], Cell::Hz { hz: 4_800_000_000, precision: 1 }));
}

#[test]
fn cpu_table_needs_cpus() {
    assert!(cpu_cpufreq(None, None).is_none());
    assert!(cpu_cpufreq(Some(&vec![]), None).is_none());
}

#[test]
fn governors_one_row_when_all_agree() {
    let g: &[&str] = &["performance", "powersave"];
    let pols = vec![policy(0, None, Some(g)), policy(1, None, Some(g)), policy(2, None, None)];
    let t = governors(Some(&pols)).unwrap();
    assert_eq!(t.rows.len(), 1);
    assert_eq!(text(&t.rows[0][0]), "all");
    assert_eq!(text(&t.rows[0][1]), "performance powersave");
}

#[test]
fn governors_row_per_policy_when_they_differ() {
    let pols = vec![policy(0, None, Some(&["a"])), policy(1, None, Some(&["b"])), policy(2, None, None)];
    let t = governors(Some(&pols)).unwrap();
    assert_eq!(t.rows.len(), 3);
    assert_eq!(text(&t.rows[1][0]), "1");
    assert_eq!(text(&t.rows[1][1]), "b");
    assert_eq!(text(&t.rows[2][1]), DOT);
    assert!(governors(Some(&vec![policy(0, None, None)])).is_none());
}

#[test]
fn i915_rows_in_mhz() {
    let mut c = card::Record::new(0);
    c.read(Some(100), Some(1400), Some(300), Some(1400), Some(100), Some(1400), Some(700), Some(100));
    let t = i915(Some(&vec![c])).unwrap();
    assert_eq!(t.rows.len(), 1);
    assert_eq!(text(&t.rows[0][1]), "i915");
    assert!(matches!(t.rows[0][2], Cell::Hz { hz: 100_000_000, precision: 0 }));
    assert!(matches!(t.rows[0][3], Cell::Hz { hz: 300_000_000, precision: 0 }));
    assert!(matches!(t.rows[0][6], Cell::Hz { hz: 1_400_000_000, precision: 1 }));
}

fn pstate_device(id: u64, epb: Option<u64>, epp: Option<&str>, prefs: Option<&[&str]>) -> Device {
    let mut d = Device::new(id);
    d.read(epb, epp.map(String::from), prefs.map(words));
    d
}

#[test]
fn epb_epp_one_row_when_all_agree() {
    let ds = vec![pstate_device(0, Some(6), Some("balance_performance"), None), pstate_device(1, Some(6), Some("balance_performance"), None)];
    let t = epb_epp(&ds);
    assert_eq!(t.rows.len(), 1);
    assert_eq!(text(&t.rows[0][0]), "all");
    assert_eq!(text(&t.rows[0][1]), "6");
    assert_eq!(text(&t.rows[0][2]), "balance_performance");
}

#[test]
fn epb_epp_row_per_device_when_they_differ() {
    let ds = vec![
        pstate_device(0, Some(6), Some("power"), None),
        pstate_device(1, Some(4), Some("power"), None),
        pstate_device(2, None, None, None),
    ];
    let t = epb_epp(&ds);
    assert_eq!(t.rows.len(), 3);
    assert_eq!(text(&t.rows[1][1]), "4");
    assert_eq!(text(&t.rows[2][1]), DOT);
    assert_eq!(text(&t.rows[2][2]), DOT);
    let one = vec![pstate_device(0, Some(6), Some("power"), None), pstate_device(1, Some(4), None, None)];
    assert_eq!(epb_epp(&one).rows.len(), 1);
}

#[test]
fn epps_rows() {
    let p: &[&str] = &["default", "power"];
    let ds = vec![pstate_device(0, None, None, Some(p)), pstate_device(1, None, None, Some(p))];
    let t = epps(&ds);
    assert_eq!(t.rows.len(), 1);
    assert_eq!(text(&t.rows[0][1]), "default power");
}

#[test]
fn intel_pstate_status_and_tables() {
    let mut g = Globals::new();
    g.read(None, None, None, Some("active".to_string()), None);
    let mut s = System::new();
    s.set_globals(g);
    s.push_device(pstate_device(0, Some(6), Some("power"), None));
    let (line, tables) = intel_pstate(Some(&s));
    assert_eq!(line, Some(" intel_pstate: active\n\n".to_string()));
    assert_eq!(tables.len(), 2);
    let mut g = Globals::new();
    g.read(None, None, None, Some("passive".to_string()), None);
    s.set_globals(g);
    let (line, tables) = intel_pstate(Some(&s));
    assert_eq!(line, Some(" intel_pstate: passive\n\n".to_string()));
    assert_eq!(tables.len(), 0);
    let (line, tables) = intel_pstate(None);
    assert!(line.is_none() && tables.is_empty());
}

#[test]
fn rapl_rows() {
    let z = Zone {
        id: ZoneId { zone: 0, subzone: Some(1) },
        name: Some("uncore".to_string()),
        constraints: vec![
            Constraint { name: Some("short_term".to_string()), power_limit_uw: Some(35_000_000), time_window_us: Some(2440) },
            Constraint { name: Some("long_term".to_string()), power_limit_uw: Some(0), time_window_us: Some(976) },
        ],
    };
    let zones = vec![z];
    let t = intel_rapl(Some(&zones), &vec![ZoneId { zone: 0, subzone: Some(1) }]).unwrap();
    let r = &t.rows[0];
    assert_eq!(text(&r[0]), "uncore");
    assert_eq!(text(&r[1]), "0:1");
    assert_eq!(text(&r[2]), "0 W");
    assert!(matches!(r[3], Cell::Power { uw: 35_000_000 }));
    assert_eq!(text(&r[4]), "976 us");
    assert_eq!(text(&r[5]), "2440 us");
    assert!(matches!(r[6], Cell::Usage(ZoneId { zone: 0, subzone: Some(1) })));
    let t = intel_rapl(Some(&zones), &vec![]).unwrap();
    assert!(matches!(t.rows[0][6], Cell::Dot));
    let t = intel_rapl(Some(&zones), &vec![ZoneId { zone: 0, subzone: None }]).unwrap();
    assert!(matches!(t.rows[0][6], Cell::Dot));
    assert!(intel_rapl(Some(&vec![]), &vec![]).is_none());
    assert!(intel_rapl(None, &vec![]).is_none());
}

#[test]
fn rows_have_a_cell_per_heading() {
    let cpus = vec![cpu_record(0, Some(true)), cpu_record(1, None)];
    let pols = vec![policy(0, Some("powersave"), Some(&["a"])), policy(1, None, Some(&["b"]))];
    for t in [cpu_cpufreq(Some(&cpus), Some(&pols)).unwrap(), governors(Some(&pols)).unwrap()] {
        for r in &t.rows {
            assert_eq!(r.len(), t.header.len());
        }
    }
    let ds = vec![pstate_device(0, Some(1), Some("x"), Some(&["x"])), pstate_device(1, Some(2), None, None)];
    for t in [epb_epp(&ds), epps(&ds)] {
        for r in &t.rows {
            assert_eq!(r.len(), t.header.len());
        }
    }
}
