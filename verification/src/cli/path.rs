//! Where the program keeps its configuration and its state: under the user's
//! directories, or under the system's.

use vstd::prelude::*;

use crate::cli::NAME;
use crate::intel_pstate::{opt_str, opt_text};
use crate::sysfs::{join, push_spec};

verus! {

/// The system's configuration directory, unless the program was built with
/// another one.
pub const CONFIG_DIR_DEFAULT: &'static str = "/etc";

/// The system's state directory, unless the program was built with another
/// one.
pub const STATE_DIR_DEFAULT: &'static str = "/var/lib";

/// The directory of profile files in a configuration directory.
pub const PROFILE: &'static str = "profile";

/// `dirs::config_dir`: the user's configuration directory (`~/.config`), if
/// there is one; a path that is not UTF-8 counts as none. It depends on the
/// environment, so nothing is promised of it.
#[verifier::external_body]
pub(crate) fn config_dir() -> (r: Option<String>) {
    dirs::config_dir().and_then(|p| p.into_os_string().into_string().ok())
}

/// `dirs::state_dir`: the user's state directory (`~/.local/state`), if
/// there is one; a path that is not UTF-8 counts as none. It depends on the
/// environment, so nothing is promised of it.
#[verifier::external_body]
pub(crate) fn state_dir() -> (r: Option<String>) {
    dirs::state_dir().and_then(|p| p.into_os_string().into_string().ok())
}

/// The program's directory under `dir`, when there is a `dir`.
pub open spec fn under(dir: Option<Seq<char>>) -> Option<Seq<char>> {
    match dir {
        Some(d) => Some(push_spec(d, NAME@)),
        None => None,
    }
}

/// The program's directory under `dir` (`~/.config/knobs`).
pub fn home_from(dir: Option<String>) -> (r: Option<String>)
    ensures
        opt_text(r) == under(opt_text(dir)),
{
    match dir {
        Some(d) => Some(join(d.as_str(), NAME)),
        None => None,
    }
}

/// `path` joined with `file_name`, when there is a `path`.
pub open spec fn with(path: Option<Seq<char>>, file_name: Seq<char>) -> Option<Seq<char>> {
    match path {
        Some(p) => Some(push_spec(p, file_name)),
        None => None,
    }
}

/// `path` joined with `file_name`, when there is a `path`.
pub fn join_opt(path: Option<String>, file_name: &str) -> (r: Option<String>)
    ensures
        opt_text(r) == with(opt_text(path), file_name@),
{
    match path {
        Some(p) => Some(join(p.as_str(), file_name)),
        None => None,
    }
}

/// The program's directory under the system directory `dir` (`/etc/knobs`).
pub open spec fn sys_spec(dir: Seq<char>) -> Seq<char> {
    push_spec(push_spec(Seq::empty(), dir), NAME@)
}

/// The program's directory under the system directory `dir`.
pub fn sys_in(dir: &str) -> (r: String)
    ensures
        r@ == sys_spec(dir@),
{
    proof {
        reveal_strlit("");
    }
    let p = join("", dir);
    join(p.as_str(), NAME)
}

/// The user's configuration directory of the program (`~/.config/knobs`).
pub fn config_home() -> (r: Option<String>)
    ensures
        exists|d: Option<Seq<char>>| opt_text(r) == under(d),
{
    let d = config_dir();
    let ghost dv = opt_text(d);
    let r = home_from(d);
    assert(opt_text(r) == under(dv));
    r
}

/// The system directory to use: `dir` when the program was built with one,
/// else `default`.
pub open spec fn sys_dir_or(dir: Option<Seq<char>>, default: Seq<char>) -> Seq<char> {
    match dir {
        Some(d) => d,
        None => default,
    }
}

/// The system's configuration directory of the program (`/etc/knobs`), or
/// the one under `sys_dir` when the program was built with one.
pub fn config_sys(sys_dir: Option<&str>) -> (r: String)
    ensures
        r@ == sys_spec(sys_dir_or(opt_str(sys_dir), CONFIG_DIR_DEFAULT@)),
{
    match sys_dir {
        Some(d) => sys_in(d),
        None => sys_in(CONFIG_DIR_DEFAULT),
    }
}

/// The user's state directory of the program (`~/.local/state/knobs`).
pub fn state_home() -> (r: Option<String>)
    ensures
        exists|d: Option<Seq<char>>| opt_text(r) == under(d),
{
    let d = state_dir();
    let ghost dv = opt_text(d);
    let r = home_from(d);
    assert(opt_text(r) == under(dv));
    r
}

/// The system's state directory of the program (`/var/lib/knobs`), or the
/// one under `sys_dir` when the program was built with one.
pub fn state_sys(sys_dir: Option<&str>) -> (r: String)
    ensures
        r@ == sys_spec(sys_dir_or(opt_str(sys_dir), STATE_DIR_DEFAULT@)),
{
    match sys_dir {
        Some(d) => sys_in(d),
        None => sys_in(STATE_DIR_DEFAULT),
    }
}

/// Paths of profile files.
pub struct Paths;

impl Paths {
    /// A profile file in the user's configuration directory, given the
    /// user's configuration directory `config_dir`
    /// (`~/.config/knobs/profile/{file_name}`).
    pub fn profile_user_in(config_dir: Option<String>, file_name: &str) -> (r: Option<String>)
        ensures
            opt_text(r) == with(with(under(opt_text(config_dir)), PROFILE@), file_name@),
    {
        join_opt(join_opt(home_from(config_dir), PROFILE), file_name)
    }

    /// A profile file in the user's configuration directory
    /// (`~/.config/knobs/profile/{file_name}`).
    pub fn profile_user(file_name: &str) -> (r: Option<String>)
        ensures
            exists|d: Option<Seq<char>>| opt_text(r) == with(with(under(d), PROFILE@), file_name@),
    {
        let d = config_dir();
        let ghost dv = opt_text(d);
        let r = Self::profile_user_in(d, file_name);
        assert(opt_text(r) == with(with(under(dv), PROFILE@), file_name@));
        r
    }

    /// A profile file in the system's configuration directory
    /// (`/etc/knobs/profile/{file_name}`; `sys_dir` in place of `/etc` when
    /// the program was built with one).
    pub fn profile_sys(sys_dir: Option<&str>, file_name: &str) -> (r: String)
        ensures
            r@ == push_spec(push_spec(sys_spec(sys_dir_or(opt_str(sys_dir), CONFIG_DIR_DEFAULT@)), PROFILE@), file_name@),
    {
        let p = join(config_sys(sys_dir).as_str(), PROFILE);
        join(p.as_str(), file_name)
    }
}

} // verus!
