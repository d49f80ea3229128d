use knobs::cpu::{Cpu, Record as CpuRecord};
use knobs::cpufreq::{Policy, Record as PolicyRecord};
use knobs::drm::{index, BusId, Record as CardRecord};
use knobs::i915::Record as I915Record;
use knobs::intel_pstate::{Device, Globals, System};
use knobs::intel_rapl::{
    constraint_attr, constraint_index, deltas, largest, parse_zone, push_sample, samples_never_decrease, uses_largest, zone_dir,
    zone_ids, ZoneId, SAMPLE_COUNT,
};

fn names(v: &[&str]) -> Vec<String> {
    v.iter().map(|s| s.to_string()).collect()
}

#[test]
fn cpu_record_lifecycle() {
    let mut r = CpuRecord::new(3);
    assert_eq!(r.id(), 3);
    assert!(r.is_empty());
    assert!(!r.read(None));
    assert!(r.read(Some(false)));
    assert_eq!(r.online(), Some(false));
    assert!(!r.is_empty());
}

#[test]
fn cpu_and_policy_ids() {
    assert_eq!(Cpu::new(2).id(), 2);
    assert_eq!(Policy::new(5).id(), 5);
    assert_eq!(CpuRecord::ids(&names(&["cpu0", "cpufreq", "cpu12", "cpuidle", "online"])), vec![0, 12]);
    assert_eq!(PolicyRecord::ids(&names(&["policy3", "policy1", "boost", "policy3"])), vec![1, 3]);
}

#[test]
fn policy_record_getters() {
    let mut r = PolicyRecord::new(0);
    assert!(r.is_empty());
    r.read(Some(1), Some(2), None, Some("acpi".to_string()), None, Some(names(&["a", "b"])), None, Some(8));
    assert_eq!(r.cpuinfo_max_freq(), Some(1));
    assert_eq!(r.cpuinfo_min_freq(), Some(2));
    assert_eq!(r.scaling_cur_freq(), None);
    assert_eq!(r.scaling_driver(), Some("acpi"));
    assert_eq!(r.scaling_governor(), None);
    assert_eq!(r.scaling_available_governors(), Some(&names(&["a", "b"])[..]));
    assert_eq!(r.scaling_min_freq(), Some(8));
}

#[test]
fn drm_ids_and_index() {
    assert_eq!(knobs::drm::ids(&names(&["card0", "card0-DP-1", "renderD128", "card1"])), vec![0, 1]);
    let b = BusId { bus: "pci".to_string(), id: "0000:00:02.0".to_string() };
    assert_eq!(index(&b, &names(&["card1"])), Ok(1));
    assert_eq!(index(&b, &names(&["renderD128"])), Err("Drm card node not found for pci device 0000:00:02.0".to_string()));
    assert_eq!(index(&b, &names(&["card0", "card1"])), Err("Multiple drm card nodes found for pci device 0000:00:02.0".to_string()));
}

#[test]
fn card_records() {
    let mut r = CardRecord::new(1);
    assert!(r.is_empty());
    assert!(r.read(None, Some("i915".to_string())));
    assert_eq!(r.driver(), Some("i915"));
    assert_eq!(r.bus_id(), None);
    let mut c = I915Record::new(0);
    assert!(c.is_empty());
    c.read(None, None, None, Some(1300), None, None, None, None);
    assert_eq!(c.max_freq_mhz(), Some(1300));
    assert!(!c.is_empty());
}

#[test]
fn globals_setters_chain() {
    let mut g = Globals::new();
    assert!(g.is_empty());
    g.set_max_perf_pct(Some(100)).set_min_perf_pct(Some(20)).set_no_turbo(Some(true));
    assert_eq!(g.max_perf_pct(), Some(100));
    assert_eq!(g.min_perf_pct(), Some(20));
    assert_eq!(g.no_turbo(), Some(true));
    g.clear();
    assert!(g.is_empty());
}

#[test]
fn system_keeps_devices_in_id_order() {
    let mut s = System::new();
    s.push_device(Device::new(3));
    s.push_device(Device::new(1));
    let mut d = Device::new(3);
    d.set_energy_perf_bias(Some(6));
    s.push_device(d);
    let ids: Vec<u64> = s.devices().iter().map(|d| d.id()).collect();
    assert_eq!(ids, vec![1, 3]);
    assert_eq!(s.devices()[1].energy_perf_bias(), Some(6));
}

#[test]
fn system_push_devices_and_take_them_out() {
    let mut s = System::new();
    s.push_devices(vec![Device::new(2), Device::new(0), Device::new(2)]);
    let ids: Vec<u64> = s.into_devices().iter().map(|d| d.id()).collect();
    assert_eq!(ids, vec![0, 2]);
}

#[test]
fn system_many_pushes_keep_the_last_device_per_id() {
    let mut s = System::from_devices(vec![Device::new(5), Device::new(1)]);
    let mut a = Device::new(5);
    a.set_energy_perf_bias(Some(4));
    s.push_device(a);
    let mut b = Device::new(5);
    b.set_energy_perf_bias(Some(9));
    let mut c = Device::new(1);
    c.set_energy_performance_preference(Some("power".to_string()));
    s.push_devices(vec![Device::new(3), b, c]);
    let ids: Vec<u64> = s.devices().iter().map(|d| d.id()).collect();
    assert_eq!(ids, vec![1, 3, 5]);
    assert_eq!(s.devices()[0].energy_performance_preference(), Some("power"));
    assert_eq!(s.devices()[1].energy_perf_bias(), None);
    assert_eq!(s.devices()[2].energy_perf_bias(), Some(9));
}

#[test]
fn drm_ids_agree_on_a_listing() {
    let listing = names(&["card1", "renderD128", "card0-DP-1", "card0", "version"]);
    assert_eq!(knobs::drm::ids(&listing), vec![0, 1]);
    assert_eq!(CardRecord::ids(&listing), knobs::drm::ids(&listing));
}

#[test]
fn drm_cards_of_a_driver() {
    let ids = vec![0, 1, 2];
    let drivers = vec![Some("i915".to_string()), None, Some("amdgpu".to_string())];
    assert_eq!(knobs::drm::ids_for_driver(&ids, &drivers, "i915"), vec![0]);
    assert_eq!(I915Record::ids(&ids, &drivers), vec![0]);
}

#[test]
fn rapl_zones_from_a_listing() {
    let z = zone_ids(&names(&["intel-rapl:1", "intel-rapl:0:1", "intel-rapl:0", "intel-rapl-mmio:0", "intel-rapl:0:0"]));
    assert_eq!(
        z,
        vec![
            ZoneId { zone: 0, subzone: None },
            ZoneId { zone: 0, subzone: Some(0) },
            ZoneId { zone: 0, subzone: Some(1) },
            ZoneId { zone: 1, subzone: None },
        ]
    );
    assert_eq!(parse_zone("intel-rapl:2:x"), None);
    assert_eq!(zone_dir(ZoneId { zone: 0, subzone: Some(1) }), "/sys/class/powercap/intel-rapl:0:1");
    assert_eq!(
        constraint_attr(ZoneId { zone: 0, subzone: None }, 1, "power_limit_uw"),
        "/sys/class/powercap/intel-rapl:0/constraint_1_power_limit_uw"
    );
    let cs = vec![Some("long_term".to_string()), None, Some("short_term".to_string())];
    assert_eq!(constraint_index(&cs, "short_term"), Some(2));
    assert_eq!(constraint_index(&cs, "peak_power"), None);
}

#[test]
fn energy_sample_window_keeps_the_last_samples() {
    let mut w = vec![];
    for v in 0..15u64 {
        push_sample(&mut w, v * 10);
    }
    assert_eq!(w.len(), SAMPLE_COUNT);
    assert_eq!(w[0], 40);
    assert_eq!(w[SAMPLE_COUNT - 1], 140);
}

#[test]
fn energy_sample_statistics() {
    let s = vec![100, 130, 190, 200];
    assert!(samples_never_decrease(&s));
    assert!(!samples_never_decrease(&vec![5, 3]));
    let d = deltas(&s);
    assert_eq!(d, vec![30, 60, 10]);
    assert_eq!(largest(&d), Some(60));
    assert_eq!(largest(&vec![]), None);
    assert!(uses_largest(3));
    assert!(!uses_largest(4));
    assert_eq!(deltas(&vec![7]), Vec::<u64>::new());
}
