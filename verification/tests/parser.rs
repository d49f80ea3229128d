use knobs::cli::group::{Group, Groups, Step};
use knobs::cli::parse::FrequencyUnit;
use knobs::cli::parser::{app, argv0, Parser, ARG_CPU, ARG_OPTIONS, ARG_QUIET, ARG_SHOW_CPU};
use knobs::cli::Error;

fn argv(args: &[&str]) -> Vec<String> {
    let mut v = vec!["knobs".to_string()];
    v.extend(args.iter().map(|s| s.to_string()));
    v
}

fn vars(pairs: &[(&str, &str)]) -> Vec<(String, String)> {
    pairs.iter().map(|(a, b)| (a.to_string(), b.to_string())).collect()
}

fn parse(args: &[&str], env: &[(&str, &str)]) -> Parser {
    Parser::new(argv(args), vars(env)).unwrap()
}

fn flag_error(e: Error) -> (String, String) {
    match e {
        Error::ParseFlag { flag, message } => (flag, message),
        other => panic!("unexpected error {:?}", other),
    }
}

#[test]
fn app_lists_every_argument() {
    let a = app();
    assert_eq!(a.name, "knobs");
    assert_eq!(a.args.len(), 25);
    assert_eq!(a.args[0].name, "quiet");
    assert_eq!(a.args[24].name, "OPTIONS");
    assert!(a.args[24].raw);
}

#[test]
fn flags_from_command_line() {
    let p = parse(&["-q", "--show-cpu"], &[]);
    assert!(p.arg_present(ARG_QUIET));
    assert_eq!(p.flag(ARG_QUIET), Some(()));
    assert_eq!(p.flag(ARG_SHOW_CPU), Some(()));
    assert_eq!(p.flag("show-rapl"), None);
}

#[test]
fn flags_from_environment() {
    let p = parse(&[], &[("KNOBS_SHOW_CPU", "1"), ("KNOBS_QUIET", "false"), ("KNOBS_SHOW_RAPL", "FALSE")]);
    assert_eq!(p.flag(ARG_SHOW_CPU), Some(()));
    assert_eq!(p.flag(ARG_QUIET), None);
    assert_eq!(p.flag("show-rapl"), None);
    let p = parse(&[], &[("KNOBS_SHOW_CPU", "0"), ("KNOBS_QUIET", "")]);
    assert_eq!(p.flag(ARG_SHOW_CPU), None);
    assert_eq!(p.flag(ARG_QUIET), None);
}

#[test]
fn values_from_command_line_before_environment() {
    let p = parse(&["--cpu", "1,3-5"], &[("KNOBS_CPU", "7"), ("KNOBS_CPUFREQ_GOV", "powersave")]);
    assert_eq!(p.str(ARG_CPU), Some("1,3-5".to_string()));
    assert_eq!(p.str("cpufreq-gov"), Some("powersave".to_string()));
    assert_eq!(p.indices(ARG_CPU).unwrap(), Some(vec![1, 3, 4, 5]));
    let q = parse(&[], &[("KNOBS_CPU", "1,3-5")]);
    assert_eq!(q.indices(ARG_CPU).unwrap(), Some(vec![1, 3, 4, 5]));
}

#[test]
fn integer_values() {
    let p = parse(&["--rapl-package", "1", "--pstate-epb", "x"], &[]);
    assert_eq!(p.integer("rapl-package").unwrap(), Some(1));
    assert_eq!(p.integer("rapl-zone").unwrap(), None);
    let (flag, message) = flag_error(p.integer("pstate-epb").unwrap_err());
    assert_eq!(flag, "pstate-epb");
    assert_eq!(message, "Expected integer value");
}

#[test]
fn parse_errors_name_the_flag() {
    let p = parse(&["--cpu-on", "maybe"], &[]);
    let (flag, message) = flag_error(p.bool_value("cpu-on").unwrap_err());
    assert_eq!(flag, "cpu-on");
    assert_eq!(message, "Expected 0, 1, false, or true");
}

#[test]
fn clap_refuses_unknown_flags() {
    match Parser::new(argv(&["--no-such-flag"]), vec![]) {
        Err(Error::Clap { help, .. }) => assert!(!help),
        Err(e) => panic!("unexpected error {:?}", e),
        Ok(_) => panic!("parsed"),
    }
}

#[test]
fn clap_help_is_reported_as_help() {
    match Parser::new(argv(&["--help"]), vec![]) {
        Err(Error::Clap { help, message }) => {
            assert!(help);
            assert!(message.contains("--cpu-on-each"));
        },
        Err(e) => panic!("unexpected error {:?}", e),
        Ok(_) => panic!("parsed"),
    }
}

#[test]
fn rapl_limit_requires_package() {
    assert!(matches!(Parser::new(argv(&["--rapl-long-limit", "5"]), vec![]), Err(Error::Clap { .. })));
    assert!(Parser::new(argv(&["-P", "0", "--rapl-long-limit", "5"]), vec![]).is_ok());
}

#[test]
fn group_from_arguments() {
    let p = parse(&["-c", "0-1", "-o", "1", "-n", "800", "--i915", "0", "--i915-max", "1.1g"], &[]);
    let g = Group::try_from(&p).unwrap();
    assert_eq!(g.cpu, Some(vec![0, 1]));
    assert_eq!(g.cpu_on, Some(true));
    let f = g.cpufreq_min.clone().unwrap();
    assert_eq!((f.number.as_str(), f.unit), ("800", FrequencyUnit::Megahertz));
    let f = g.i915_max.clone().unwrap();
    assert_eq!((f.number.as_str(), f.unit), ("1.1", FrequencyUnit::Gigahertz));
    assert!(g.has_values());
    assert!(g.cpufreq_max.is_none());
}

#[test]
fn group_first_fault_wins() {
    let p = parse(&["-o", "x", "-n", "y"], &[]);
    let (flag, message) = flag_error(Group::try_from(&p).unwrap_err());
    assert_eq!(flag, "cpu-on");
    assert_eq!(message, "Expected 0, 1, false, or true");
}

#[test]
fn group_targets_alone_have_no_values() {
    let p = parse(&["--cpu", "1"], &[]);
    let g = Group::try_from(&p).unwrap();
    assert!(!g.has_values());
}

#[test]
fn groups_follow_the_chain() {
    let p = parse(&["-c", "0", "-o", "1", "--", "-c", "1", "-o", "0", "--", "-c", "2"], &[]);
    assert!(p.arg_present(ARG_OPTIONS));
    let gs = Groups::try_from(&p).unwrap();
    assert_eq!(gs.groups.len(), 2);
    assert_eq!(gs.groups[0].cpu, Some(vec![0]));
    assert_eq!(gs.groups[0].cpu_on, Some(true));
    assert_eq!(gs.groups[1].cpu, Some(vec![1]));
    assert_eq!(gs.groups[1].cpu_on, Some(false));
}

#[test]
fn groups_report_a_fault_later_in_the_chain() {
    let p = parse(&["-o", "1", "--", "-o", "2"], &[]);
    let (flag, _) = flag_error(Groups::try_from(&p).unwrap_err());
    assert_eq!(flag, "cpu-on");
}

#[test]
fn apply_plan_orders_the_passes() {
    let p = parse(&["-c", "2,0", "-g", "powersave", "--", "-c", "1", "-o", "0"], &[]);
    let gs = Groups::try_from(&p).unwrap();
    let plan = gs.apply_plan();
    assert_eq!(
        plan,
        vec![
            Step::OnlineCpus(vec![0, 1, 2]),
            Step::ApplyCpufreq(0),
            Step::ApplyPstate(0),
            Step::WaitCpuRelated,
            Step::ApplyCpufreq(1),
            Step::ApplyPstate(1),
            Step::WaitCpuRelated,
            Step::OfflineOnlined,
            Step::ApplyRapl(0),
            Step::ApplyDrm(0),
            Step::ApplyCpu(1),
            Step::WaitCpuOnoff,
            Step::ApplyRapl(1),
            Step::ApplyDrm(1),
        ]
    );
}

#[test]
fn apply_plan_without_cpufreq_skips_the_first_pass() {
    let p = parse(&["-c", "1", "-o", "0"], &[]);
    let gs = Groups::try_from(&p).unwrap();
    assert_eq!(gs.apply_plan(), vec![Step::ApplyCpu(0), Step::WaitCpuOnoff, Step::ApplyRapl(0), Step::ApplyDrm(0)]);
}

#[test]
fn collect_cpu_ids_is_the_sorted_union() {
    let p = parse(&["-c", "3,1", "-o", "1", "--", "-c", "2-3", "-o", "0"], &[]);
    let gs = Groups::try_from(&p).unwrap();
    assert_eq!(gs.collect_cpu_ids(), vec![1, 2, 3]);
}

#[test]
fn argv0_is_the_last_path_part() {
    assert_eq!(argv0(&vec!["/usr/bin/knobs".to_string()]), "knobs");
    assert_eq!(argv0(&vec!["kn".to_string(), "-q".to_string()]), "kn");
    assert_eq!(argv0(&vec!["dir/".to_string()]), "");
    assert_eq!(argv0(&vec![]), "knobs");
}
