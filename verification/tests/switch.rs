use knobs::cli::group::{cli_values, Group};
use knobs::cli::switch::CpuSwitch;

/// Runs a pass over `ids`, reading `readings` and writing with the outcomes
/// `oks`, as the program does with sysfs.
fn run_pass(online: bool, ids: &[u64], readings: &[Option<bool>], oks: &[bool]) -> (Vec<u64>, Vec<(u64, bool)>, bool) {
    let mut pass = CpuSwitch::new(online);
    let mut writes = vec![];
    for (i, id) in ids.iter().enumerate() {
        let ok = match pass.write_for(readings[i]) {
            Some(v) => {
                writes.push((*id, v));
                oks[i]
            },
            None => false,
        };
        pass.step(*id, readings[i], ok);
    }
    let wait = pass.must_wait();
    (pass.changed, writes, wait)
}

#[test]
fn online_pass_writes_offline_cpus() {
    let (changed, writes, wait) =
        run_pass(true, &[0, 1, 2, 3], &[Some(true), Some(false), None, Some(false)], &[true, true, true, false]);
    assert_eq!(writes, vec![(1, true), (3, true)]);
    assert_eq!(changed, vec![1]);
    assert!(wait);
}

#[test]
fn offline_pass_restores_only_onlined() {
    let (onlined, _, _) = run_pass(true, &[0, 1, 2], &[Some(false), Some(true), Some(false)], &[true, true, true]);
    assert_eq!(onlined, vec![0, 2]);
    let (offlined, writes, wait) = run_pass(false, &onlined, &[Some(true), Some(false)], &[true, true]);
    assert_eq!(writes, vec![(0, false)]);
    assert_eq!(offlined, vec![0]);
    assert!(wait);
    let (none, writes, wait) = run_pass(false, &[], &[], &[]);
    assert!(none.is_empty() && writes.is_empty() && !wait);
}

#[test]
fn cpu_switch_write_for() {
    let on = CpuSwitch::new(true);
    assert_eq!(on.write_for(Some(false)), Some(true));
    assert_eq!(on.write_for(Some(true)), None);
    assert_eq!(on.write_for(None), None);
    let off = CpuSwitch::new(false);
    assert_eq!(off.write_for(Some(true)), Some(false));
    assert_eq!(off.write_for(Some(false)), None);
    let mut on = CpuSwitch::new(true);
    on.step(4, Some(true), true);
    on.step(5, Some(false), false);
    on.step(6, Some(false), true);
    assert_eq!(on.changed, vec![6]);
}

#[test]
fn cli_values_profile_first_with_values_resolved() {
    let mut a = Group::new();
    a.pstate_epb = Some(6);
    let b = Group::new();
    let mut c = Group::new();
    c.cpu_on = Some(true);
    c.cpu = Some(vec![3]);
    let mut d = Group::new();
    d.pstate_epp = Some("power".to_string());
    let e = Group::new();
    let r = cli_values(vec![a, b], vec![c, d, e], &vec![0, 1, 2], &vec![0]);
    assert_eq!(r.len(), 3);
    assert_eq!(r[0].pstate_epb, Some(6));
    assert_eq!(r[0].cpu, Some(vec![0, 1, 2]));
    assert!(r[0].i915.is_none());
    assert_eq!(r[1].cpu_on, Some(true));
    assert_eq!(r[1].cpu, Some(vec![3]));
    assert_eq!(r[2].pstate_epp.as_deref(), Some("power"));
    assert_eq!(r[2].cpu, Some(vec![0, 1, 2]));
    assert!(cli_values(vec![Group::new()], vec![], &vec![0], &vec![]).is_empty());
}
