use knobs::cli::app::{remaining_sample_ms, Action, App, Cli};
use knobs::cli::Error;
use knobs::cli::parser::{Parser, ARG_PROFILE};
use knobs::cli::path::{home_from, Paths};
use knobs::cli::profile::{config_paths_from, first_file, is_recent, state_path_from, Profile, ProfileError};
use knobs::env::var_name;
use knobs::sysfs::join;

fn s(v: &str) -> String {
    v.to_string()
}

#[test]
fn join_as_pathbuf_push() {
    assert_eq!(join("/sys", "class"), "/sys/class");
    assert_eq!(join("/sys/", "class"), "/sys/class");
    assert_eq!(join("/sys", "/etc"), "/etc");
    assert_eq!(join("", "a"), "a");
}

#[test]
fn profile_paths() {
    assert_eq!(Paths::profile_sys(None, "default.yaml"), "/etc/knobs/profile/default.yaml");
    assert_eq!(Paths::profile_sys(Some("/usr/etc"), "default.yaml"), "/usr/etc/knobs/profile/default.yaml");
    assert_eq!(Paths::profile_user_in(Some(s("/home/u/.config")), "x.yaml"), Some(s("/home/u/.config/knobs/profile/x.yaml")));
    assert_eq!(Paths::profile_user_in(None, "x.yaml"), None);
    assert_eq!(home_from(Some(s("/h"))), Some(s("/h/knobs")));
}

#[test]
fn config_paths_order() {
    let v = config_paths_from(None, Some(s("box")), Some(s("/home/u/.config")), None);
    assert_eq!(
        v,
        vec![
            s("/home/u/.config/knobs/profile/box.yaml"),
            s("/etc/knobs/profile/box.yaml"),
            s("/home/u/.config/knobs/profile/default.yaml"),
            s("/etc/knobs/profile/default.yaml"),
        ]
    );
    assert_eq!(config_paths_from(None, None, None, None), vec![s("/etc/knobs/profile/default.yaml")]);
    assert_eq!(config_paths_from(Some(s("/tmp/p.yaml")), Some(s("box")), None, None), vec![s("/tmp/p.yaml")]);
    assert_eq!(config_paths_from(None, None, None, Some("/opt/etc")), vec![s("/opt/etc/knobs/profile/default.yaml")]);
}

#[test]
fn state_paths() {
    assert_eq!(state_path_from(true, None, None), Some(s("/var/lib/knobs/profile.yaml")));
    assert_eq!(state_path_from(true, None, Some("/opt/var")), Some(s("/opt/var/knobs/profile.yaml")));
    assert_eq!(
        state_path_from(false, Some(s("/home/u/.local/state")), Some("/opt/var")),
        Some(s("/home/u/.local/state/knobs/profile.yaml"))
    );
    assert_eq!(state_path_from(false, None, None), None);
}

#[test]
fn profiles() {
    assert!(is_recent("_"));
    assert!(!is_recent("work"));
    assert_eq!(first_file(&vec![s("a"), s("b"), s("c")], &vec![false, true, true]), Some(s("b")));
    assert_eq!(first_file(&vec![s("a")], &vec![false]), None);
    let p = Profile::in_config(s("work"), Some(s("/etc/knobs/profile/default.yaml")), vec![]).unwrap();
    assert_eq!(p.path, "/etc/knobs/profile/default.yaml");
    match Profile::in_config(s("work"), None, vec![s("a"), s("b")]) {
        Err(ProfileError::ConfigMissing { search_paths }) => assert_eq!(search_paths, vec![s("a"), s("b")]),
        other => panic!("{:?}", other),
    }
    assert_eq!(p.values_in(vec![(s("home"), 1), (s("work"), 2), (s("work"), 3)]).unwrap(), 2);
    match p.values_in(vec![(s("home"), 1)]) {
        Err(ProfileError::ProfileMissing { path, profile }) => {
            assert_eq!(path, "/etc/knobs/profile/default.yaml");
            assert_eq!(profile, "work");
        },
        other => panic!("{:?}", other),
    }
}

#[test]
fn env_var_names() {
    assert_eq!(var_name("LOG"), "knobs_LOG");
    assert_eq!(knobs::cli::env::var_name("cpu-on"), "KNOBS_CPU_ON");
}

#[test]
fn cli_shows_and_sampling() {
    let p = Parser::new(vec![s("knobs"), s("--show-rapl"), s("-q")], vec![]).unwrap();
    let c = Cli::new(&p, None, vec![], vec![], &vec![], &vec![]);
    assert!(c.has_show_args());
    let sh = c.shows();
    assert!(sh.rapl && !sh.cpu && !sh.pstate && !sh.i915);
    assert!(!c.prints());
    assert!(!c.should_sample());
    let p = Parser::new(vec![s("knobs")], vec![]).unwrap();
    let c = Cli::new(&p, None, vec![], vec![], &vec![], &vec![]);
    let sh = c.shows();
    assert!(sh.rapl && sh.cpu && sh.pstate && sh.i915);
    assert!(c.prints());
    assert!(c.should_sample());
    let p = Parser::new(vec![s("knobs"), s("--show-cpu")], vec![]).unwrap();
    let c = Cli::new(&p, None, vec![], vec![], &vec![], &vec![]);
    assert!(c.prints());
    assert!(!c.should_sample());
    let p = Parser::new(vec![s("knobs"), s("--show-rapl")], vec![]).unwrap();
    let c = Cli::new(&p, None, vec![], vec![], &vec![], &vec![]);
    assert!(c.should_sample());
    assert_eq!(remaining_sample_ms(150), 250);
    assert_eq!(remaining_sample_ms(500), 0);
}

#[test]
fn app_actions() {
    let help = Error::Clap { message: s("usage"), help: true };
    assert_eq!(App::action(&help), Action::PrintHelp);
    assert_eq!(App::exit_code(&App::action(&help)), 0);
    let usage = Error::Clap { message: s("bad"), help: false };
    assert_eq!(App::action(&usage), Action::ReportUsage);
    assert_eq!(App::exit_code(&Action::ReportUsage), 1);
    let corrupt = Error::Profile(ProfileError::StateCorrupt { path: s("/s") });
    assert_eq!(App::action(&corrupt), Action::RemoveState(s("/s")));
    assert_eq!(App::action(&Error::ParseValue(s("x"))), Action::Report);
}

#[test]
fn cli_keeps_the_named_profile() {
    let p = Parser::new(vec![s("knobs"), s("work")], vec![]).unwrap();
    assert_eq!(p.str(ARG_PROFILE), Some(s("work")));
    let pr = Profile { name: s("work"), path: s("/etc/knobs/profile/default.yaml") };
    let c = Cli::new(&p, Some(pr), vec![], vec![], &vec![], &vec![]);
    assert_eq!(c.profile.map(|p| p.name), Some(s("work")));
    let p = Parser::new(vec![s("knobs")], vec![]).unwrap();
    assert_eq!(p.str(ARG_PROFILE), None);
}
