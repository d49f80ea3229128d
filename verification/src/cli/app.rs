//! The program's run: which flags were given, what is printed, and whether
//! the power of the rapl zones is sampled while the values are read.

use vstd::prelude::*;

use crate::cli::group::{cli_values, resolved_from, with_values, Group};
use crate::cli::parser::{
    arg_value_spec, flag_spec, Parser, ParserV, ARG_PROFILE, ARG_QUIET, ARG_SHOW_CPU, ARG_SHOW_I915, ARG_SHOW_PSTATE, ARG_SHOW_RAPL,
};
use crate::cli::profile::{Profile, ProfileError};
use crate::cli::Error;

verus! {

/// How long, in milliseconds, the rapl samplers must run to give useful data.
pub const SAMPLE_RUNTIME_MS: u64 = 400;

/// How long, in milliseconds, a rapl sampler sleeps between samples.
pub const SAMPLE_INTERVAL_MS: u64 = 100;

/// What the command line asks for: its flags, the profile to apply and the
/// groups of values to apply.
pub struct Cli {
    pub quiet: Option<()>,
    pub show_cpu: Option<()>,
    pub show_i915: Option<()>,
    pub show_pstate: Option<()>,
    pub show_rapl: Option<()>,
    pub profile: Option<Profile>,
    pub groups: Vec<Group>,
}

/// Which tables are printed.
#[derive(Clone, Copy, Debug, PartialEq, Eq, Structural)]
pub struct Shows {
    pub cpu: bool,
    pub pstate: bool,
    pub rapl: bool,
    pub i915: bool,
}

/// Whether `flag` says that the flag `name` of `p` is on.
pub open spec fn flag_of(flag: Option<()>, p: ParserV, name: Seq<char>) -> bool {
    flag is Some <==> flag_spec(p, name)
}

impl Cli {
    /// The flags of the command line `p`, with the profile (loaded exactly
    /// when `p` names one) and the groups of values to apply: those of the profile (`profile_groups`) first, then
    /// those of the command line (`groups`), each kept only where it holds
    /// values and with its default targets filled in from `cpu_ids` and
    /// `i915_ids`.
    pub fn new(
        p: &Parser,
        profile: Option<Profile>,
        profile_groups: Vec<Group>,
        groups: Vec<Group>,
        cpu_ids: &Vec<u64>,
        i915_ids: &Vec<u64>,
    ) -> (r: Self)
        requires
            profile is Some <==> arg_value_spec(p@, ARG_PROFILE@) is Some,
        ensures
            flag_of(r.quiet, p@, ARG_QUIET@),
            flag_of(r.show_cpu, p@, ARG_SHOW_CPU@),
            flag_of(r.show_i915, p@, ARG_SHOW_I915@),
            flag_of(r.show_pstate, p@, ARG_SHOW_PSTATE@),
            flag_of(r.show_rapl, p@, ARG_SHOW_RAPL@),
            r.profile == profile,
            r.profile is Some <==> arg_value_spec(p@, ARG_PROFILE@) is Some,
            r.groups@.len() == with_values(profile_groups@ + groups@).len(),
            forall|i: int| 0 <= i < r.groups@.len() ==>
                resolved_from(#[trigger] r.groups@[i], with_values(profile_groups@ + groups@)[i], cpu_ids@, i915_ids@),
    {
        let groups = cli_values(profile_groups, groups, cpu_ids, i915_ids);
        Cli {
            quiet: p.flag(ARG_QUIET),
            show_cpu: p.flag(ARG_SHOW_CPU),
            show_i915: p.flag(ARG_SHOW_I915),
            show_pstate: p.flag(ARG_SHOW_PSTATE),
            show_rapl: p.flag(ARG_SHOW_RAPL),
            profile,
            groups,
        }
    }

    /// Whether some `--show-*` flag is on.
    pub open spec fn has_show_args_spec(&self) -> bool {
        self.show_cpu is Some || self.show_i915 is Some || self.show_pstate is Some || self.show_rapl is Some
    }

    /// Whether some `--show-*` flag is on.
    pub fn has_show_args(&self) -> (r: bool)
        ensures
            r == self.has_show_args_spec(),
    {
        self.show_cpu.is_some() || self.show_i915.is_some() || self.show_pstate.is_some()
            || self.show_rapl.is_some()
    }

    /// The tables to print: all of them without `--show-*` flags, else those
    /// that the flags name.
    pub fn shows(&self) -> (r: Shows)
        ensures
            r.cpu == (!self.has_show_args_spec() || self.show_cpu is Some),
            r.pstate == (!self.has_show_args_spec() || self.show_pstate is Some),
            r.rapl == (!self.has_show_args_spec() || self.show_rapl is Some),
            r.i915 == (!self.has_show_args_spec() || self.show_i915 is Some),
    {
        let all = !self.has_show_args();
        Shows {
            cpu: all || self.show_cpu.is_some(),
            pstate: all || self.show_pstate.is_some(),
            rapl: all || self.show_rapl.is_some(),
            i915: all || self.show_i915.is_some(),
        }
    }

    /// Whether anything is printed.
    pub fn prints(&self) -> (r: bool)
        ensures
            r == (self.quiet is None),
    {
        self.quiet.is_none()
    }

    /// Whether the rapl zones are sampled: when values are printed and the
    /// rapl table is among them, so that its usage column can be filled.
    pub fn should_sample(&self) -> (r: bool)
        ensures
            r == (self.quiet is None && (!self.has_show_args_spec() || self.show_rapl is Some)),
    {
        self.quiet.is_none() && (!self.has_show_args() || self.show_rapl.is_some())
    }
}

/// How much longer, in milliseconds, samplers that have run `elapsed_ms`
/// must run to give useful data.
pub fn remaining_sample_ms(elapsed_ms: u64) -> (r: u64)
    ensures
        r == (if elapsed_ms < SAMPLE_RUNTIME_MS {
            SAMPLE_RUNTIME_MS - elapsed_ms
        } else {
            0
        }),
{
    if elapsed_ms < SAMPLE_RUNTIME_MS {
        SAMPLE_RUNTIME_MS - elapsed_ms
    } else {
        0
    }
}

/// The program.
pub struct App;

/// What the program does when it cannot go on.
#[derive(Clone, Debug, PartialEq, Eq)]
pub enum Action {
    /// Print clap's text (the help that was asked for) and succeed.
    PrintHelp,
    /// Report clap's message and fail.
    ReportUsage,
    /// The state file at this path is corrupt: report it, remove it and fail.
    RemoveState(String),
    /// Report the error and fail.
    Report,
}

impl App {
    /// What to do about the error `e` that stopped the program.
    pub fn action(e: &Error) -> (r: Action)
        ensures
            match e {
                Error::Clap { help, .. } => if *help {
                    r == Action::PrintHelp
                } else {
                    r == Action::ReportUsage
                },
                Error::Profile(ProfileError::StateCorrupt { path }) => r matches Action::RemoveState(p) && p@
                    == path@,
                _ => r == Action::Report,
            },
    {
        match e {
            Error::Clap { help, .. } => if *help {
                Action::PrintHelp
            } else {
                Action::ReportUsage
            },
            Error::Profile(ProfileError::StateCorrupt { path }) => Action::RemoveState(path.clone()),
            _ => Action::Report,
        }
    }

    /// The exit status after `action`: success only for the help.
    pub fn exit_code(action: &Action) -> (r: i32)
        ensures
            r == (if *action is PrintHelp {
                0i32
            } else {
                1i32
            }),
    {
        match action {
            Action::PrintHelp => 0,
            _ => 1,
        }
    }
}

} // verus!
