//! Profiles: named groups of values kept in a configuration file, and the
//! state file that remembers the profile applied last.

use vstd::prelude::*;

use crate::cli::env::{lookup, lookup_spec, pairs, var_name, var_name_spec};
use crate::cli::path::{
    config_dir, config_sys, home_from, state_dir, state_sys, sys_dir_or, sys_spec, under, with, CONFIG_DIR_DEFAULT, PROFILE,
    STATE_DIR_DEFAULT,
};
use crate::intel_pstate::{opt_str, opt_text, strings};
use crate::sysfs::{join, push_spec};
use crate::text::{chars_eq_str, chars_of};

verus! {

/// The name that stands for the profile applied last.
pub const RECENT_PROFILE: &'static str = "_";

/// The suffix of the environment variable that names the configuration file.
pub const CONFIG_ENV_SUFFIX: &'static str = "PROFILE_CONFIG";

/// The base name of the configuration file used on every host.
pub const DEFAULT_CONFIG_BASE_NAME: &'static str = "default";

/// The name of the state file.
pub const STATE_FILE_NAME: &'static str = "profile.yaml";

/// `nix::unistd::gethostname` into a buffer of 64 bytes: the host's name,
/// if it can be had as UTF-8.
/// It depends on the machine, so nothing is promised of it.
#[verifier::external_body]
pub(crate) fn hostname() -> (r: Option<String>) {
    let mut buf = [0u8; 64];
    nix::unistd::gethostname(&mut buf).ok().and_then(|h| h.to_str().ok()).map(String::from)
}

/// `nix::unistd::Uid::effective().is_root()`: whether the process runs as
/// root. It depends on the process, so nothing is promised of it.
#[verifier::external_body]
pub(crate) fn is_root() -> (r: bool) {
    nix::unistd::Uid::effective().is_root()
}

/// The profile files that the configuration may be in, for the base name
/// `base` (`{base}.yaml`): in the user's configuration directory when there
/// is one, then in the system's (under `sys_dir` when the program was built
/// with one).
pub open spec fn files_for(base: Seq<char>, config_dir: Option<Seq<char>>, sys_dir: Option<Seq<char>>) -> Seq<Seq<char>> {
    let file_name = base + ".yaml"@;
    let sys = push_spec(push_spec(sys_spec(sys_dir_or(sys_dir, CONFIG_DIR_DEFAULT@)), PROFILE@), file_name);
    match with(with(under(config_dir), PROFILE@), file_name) {
        Some(p) => seq![p, sys],
        None => seq![sys],
    }
}

/// The files that the profile configuration may be in, in order of
/// preference: the file that the environment variable names, when it is set;
/// else the files for the host's name (when known), then those for `default`.
pub open spec fn config_paths_spec(
    var: Option<Seq<char>>,
    hostname: Option<Seq<char>>,
    config_dir: Option<Seq<char>>,
    sys_dir: Option<Seq<char>>,
) -> Seq<Seq<char>> {
    match var {
        Some(v) => seq![v],
        None => match hostname {
            Some(h) => files_for(h, config_dir, sys_dir) + files_for(DEFAULT_CONFIG_BASE_NAME@, config_dir, sys_dir),
            None => files_for(DEFAULT_CONFIG_BASE_NAME@, config_dir, sys_dir),
        },
    }
}

/// Appends the files for the base name `base` to `out`.
fn push_files_for(out: &mut Vec<String>, base: &str, config_dir: &Option<String>, sys_dir: Option<&str>)
    ensures
        strings(final(out)@) == strings(old(out)@) + files_for(base@, opt_text(*config_dir), opt_str(sys_dir)),
{
    let mut file_name = String::from_str(base);
    file_name.append(".yaml");
    let ghost before = strings(out@);
    let home = match config_dir {
        Some(d) => Some(d.clone()),
        None => None,
    };
    let user = crate::cli::path::join_opt(crate::cli::path::join_opt(home_from(home), PROFILE), file_name.as_str());
    match user {
        Some(p) => {
            out.push(p);
        },
        None => {},
    }
    let sys = join(join(config_sys(sys_dir).as_str(), PROFILE).as_str(), file_name.as_str());
    out.push(sys);
    assert(strings(out@) =~= before + files_for(base@, opt_text(*config_dir), opt_str(sys_dir)));
}

/// The files that the profile configuration may be in, given the value of
/// its environment variable, the host's name and the user's configuration
/// directory, and the system directory that the program was built with.
pub fn config_paths_from(
    var: Option<String>,
    hostname: Option<String>,
    config_dir: Option<String>,
    sys_dir: Option<&str>,
) -> (r: Vec<String>)
    ensures
        strings(r@) == config_paths_spec(opt_text(var), opt_text(hostname), opt_text(config_dir), opt_str(sys_dir)),
{
    let mut out: Vec<String> = Vec::new();
    match var {
        Some(v) => {
            out.push(v);
            assert(strings(out@) =~= seq![opt_text(var)->0]);
        },
        None => {
            assert(strings(out@) =~= Seq::<Seq<char>>::empty());
            match &hostname {
                Some(h) => push_files_for(&mut out, h.as_str(), &config_dir, sys_dir),
                None => {},
            }
            push_files_for(&mut out, DEFAULT_CONFIG_BASE_NAME, &config_dir, sys_dir);
            assert(strings(out@) =~= config_paths_spec(opt_text(var), opt_text(hostname), opt_text(config_dir), opt_str(sys_dir)));
        },
    }
    out
}

/// The files that the profile configuration may be in, with the environment
/// `vars` and the system directory that the program was built with; the
/// host's name and the user's directory are asked of the system.
pub fn config_paths(vars: &Vec<(String, String)>, sys_dir: Option<&str>) -> (r: Vec<String>)
    ensures
        exists|h: Option<Seq<char>>, d: Option<Seq<char>>|
            strings(r@) == config_paths_spec(
                lookup_spec(pairs(vars@), var_name_spec(CONFIG_ENV_SUFFIX@)),
                h,
                d,
                opt_str(sys_dir),
            ),
{
    let name = var_name(CONFIG_ENV_SUFFIX);
    let var = lookup(vars.as_slice(), name.as_str());
    let h = hostname();
    let d = config_dir();
    let ghost hv = opt_text(h);
    let ghost dv = opt_text(d);
    let r = config_paths_from(var, h, d, sys_dir);
    assert(strings(r@) == config_paths_spec(
        lookup_spec(pairs(vars@), var_name_spec(CONFIG_ENV_SUFFIX@)),
        hv,
        dv,
        opt_str(sys_dir),
    ));
    r
}

/// The first of `paths` that is a file, given whether each is.
pub fn first_file(paths: &Vec<String>, is_file: &Vec<bool>) -> (r: Option<String>)
    requires
        paths.len() == is_file.len(),
    ensures
        match r {
            Some(p) => exists|i: int|
                0 <= i < paths.len() && is_file@[i] && p@ == paths@[i]@ && forall|j: int|
                    0 <= j < i ==> !#[trigger] is_file@[j],
            None => forall|j: int| 0 <= j < paths.len() ==> !#[trigger] is_file@[j],
        },
{
    let mut i: usize = 0;
    while i < paths.len()
        invariant
            i <= paths.len(),
            paths.len() == is_file.len(),
            forall|j: int| 0 <= j < i ==> !#[trigger] is_file@[j],
        decreases paths.len() - i,
    {
        if is_file[i] {
            return Some(paths[i].clone());
        }
        i = i + 1;
    }
    None
}

/// The state file: in the system's state directory for root (under
/// `sys_dir` when the program was built with one), else in the user's state
/// directory (when there is one).
pub open spec fn state_path_spec(root: bool, state_dir: Option<Seq<char>>, sys_dir: Option<Seq<char>>) -> Option<Seq<char>> {
    if root {
        Some(push_spec(sys_spec(sys_dir_or(sys_dir, STATE_DIR_DEFAULT@)), STATE_FILE_NAME@))
    } else {
        with(under(state_dir), STATE_FILE_NAME@)
    }
}

/// The state file, given whether the process runs as root, the user's
/// state directory and the system directory that the program was built with.
pub fn state_path_from(root: bool, state_dir: Option<String>, sys_dir: Option<&str>) -> (r: Option<String>)
    ensures
        opt_text(r) == state_path_spec(root, opt_text(state_dir), opt_str(sys_dir)),
{
    if root {
        Some(join(state_sys(sys_dir).as_str(), STATE_FILE_NAME))
    } else {
        crate::cli::path::join_opt(home_from(state_dir), STATE_FILE_NAME)
    }
}

/// The state file, with the system directory that the program was built
/// with; whether the process runs as root and the user's state directory
/// are asked of the system.
pub fn state_path(sys_dir: Option<&str>) -> (r: Option<String>)
    ensures
        exists|root: bool, d: Option<Seq<char>>| opt_text(r) == state_path_spec(root, d, opt_str(sys_dir)),
{
    let root = is_root();
    let d = state_dir();
    let ghost dv = opt_text(d);
    let r = state_path_from(root, d, sys_dir);
    assert(opt_text(r) == state_path_spec(root, dv, opt_str(sys_dir)));
    r
}

/// Why a profile could not be had.
#[derive(Clone, Debug)]
pub enum ProfileError {
    /// The file at `path` did not parse.
    De { path: String, message: String },
    /// The file at `path` could not be read or written.
    Io { path: String, message: String },
    /// None of the places that the configuration may be in holds it.
    ConfigMissing { search_paths: Vec<String> },
    /// The configuration at `path` has no profile named `profile`.
    ProfileMissing { path: String, profile: String },
    /// The state file at `path` did not parse.
    StateCorrupt { path: String },
    /// There is no state file at `path`.
    StateMissing { path: String },
    /// The user's state directory is unknown, so `activity` cannot be done.
    StatePathMissing { activity: String },
    /// The state could not be written out.
    Se { message: String },
}

/// A profile: its name and the configuration file that holds it.
#[derive(Clone, Debug)]
pub struct Profile {
    pub name: String,
    pub path: String,
}

/// Whether `name` stands for the profile applied last.
pub fn is_recent(name: &str) -> (r: bool)
    ensures
        r == (name@ == RECENT_PROFILE@),
{
    chars_eq_str(&chars_of(name), RECENT_PROFILE)
}

impl Profile {
    /// The profile `name` in the configuration file `config_path`, the first
    /// of `search_paths` that is a file; when there is none, the error that
    /// lists where the configuration was looked for.
    pub fn in_config(name: String, config_path: Option<String>, search_paths: Vec<String>) -> (r: Result<
        Profile,
        ProfileError,
    >)
        ensures
            match config_path {
                Some(p) => r matches Ok(pr) && pr.name@ == name@ && pr.path@ == p@,
                None => r matches Err(ProfileError::ConfigMissing { search_paths: s }) && strings(s@) == strings(
                    search_paths@,
                ),
            },
    {
        match config_path {
            Some(path) => Ok(Profile { name, path }),
            None => Err(ProfileError::ConfigMissing { search_paths }),
        }
    }

    /// The groups of values of the profile, from the profiles that its
    /// configuration file holds (`profiles`, by name): the error names the
    /// file when the profile is not there.
    pub fn values_in<T>(&self, profiles: Vec<(String, T)>) -> (r: Result<T, ProfileError>)
        ensures
            match r {
                Ok(v) => exists|i: int|
                    0 <= i < profiles@.len() && profiles@[i].0@ == self.name@ && profiles@[i].1 == v
                        && forall|j: int| 0 <= j < i ==> (#[trigger] profiles@[j]).0@ != self.name@,
                Err(e) => {
                    &&& forall|j: int| 0 <= j < profiles@.len() ==> (#[trigger] profiles@[j]).0@ != self.name@
                    &&& e matches ProfileError::ProfileMissing { path, profile } && path@ == self.path@
                        && profile@ == self.name@
                },
            },
    {
        let n = chars_of(self.name.as_str());
        let ghost all = profiles@;
        let total = profiles.len();
        let mut rest = profiles;
        let mut k: usize = 0;
        while rest.len() > 0
            invariant
                n@ == self.name@,
                k + rest@.len() == all.len(),
                all == profiles@,
                all.len() == total,
                rest@ == all.skip(k as int),
                forall|j: int| 0 <= j < k ==> (#[trigger] all[j]).0@ != self.name@,
            decreases rest.len(),
        {
            let (name, v) = rest.remove(0);
            assert(all[k as int] == (name, v));
            if crate::text::chars_eq(&chars_of(name.as_str()), &n) {
                assert(profiles@[k as int].0@ == self.name@ && profiles@[k as int].1 == v);
                return Ok(v);
            }
            k = k + 1;
            assert(rest@ =~= all.skip(k as int));
        }
        Err(ProfileError::ProfileMissing { path: self.path.clone(), profile: self.name.clone() })
    }
}

} // verus!
