//! The command-line specification and the parsing of arguments from the
//! command line or, in their place, from environment variables.

use vstd::prelude::*;

use crate::cli::env::{clone_pairs, flag_value, flag_value_spec, lookup, lookup_spec, pairs, var_name, var_name_spec};
use crate::cli::{Error, NAME};
use crate::cli::group::{card_views, CardId, Group, Groups};
use crate::cli::parse::{
    bool_str_spec, bus_items, card_ids_layout, card_ids_spec, duration_message, duration_spec,
    frequency_message, frequency_spec, indices_message, indices_spec, power_message, power_spec,
    strictly_increasing, toggles_spec, unit_text, BoolStr, CardIds, DurationStr, FrequencyStr, Indices, PowerStr,
    Toggles,
};
use crate::intel_pstate::{clone_strings, opt_str, opt_strings, opt_text, strings};
use crate::text::{
    chars_eq, chars_of, lemma_split_nonempty, lowercase, parse_u64, parse_u64_spec, replace_char, replace_spec, split_chars,
    split_spec, string_of, to_uppercase, uppercase,
};

verus! {

/// clap's settings of a parser.
#[verifier::external_type_specification]
#[verifier::external_body]
pub struct ExClapSettings(clap::AppSettings);

/// clap's argument definition.
#[verifier::external_type_specification]
#[verifier::external_body]
pub struct ExClapArg<'a, 'b>(clap::Arg<'a, 'b>) where 'a: 'b;

/// Settings of the parser that the program uses.
#[derive(Clone, Copy, Debug, PartialEq, Eq, Structural)]
pub enum Setting {
    DeriveDisplayOrder,
    DisableHelpSubcommand,
    DisableVersion,
    TrailingVarArg,
    UnifiedHelpMessage,
}

/// One command-line argument: a flag, an option taking a value, or a
/// positional argument (neither short nor long).
#[derive(Clone, Debug)]
pub struct ArgSpec {
    pub name: String,
    pub short: Option<String>,
    pub long: Option<String>,
    pub takes_value: bool,
    pub value_name: Option<String>,
    pub help: Option<String>,
    pub needs: Option<String>,
    pub raw: bool,
}

/// The whole command line: program name, version, help epilogue, settings and
/// arguments.
#[derive(Clone, Debug)]
pub struct AppSpec {
    pub name: String,
    pub version: String,
    pub after_help: String,
    pub settings: Vec<Setting>,
    pub args: Vec<ArgSpec>,
}

/// The values of an `ArgSpec`.
pub struct ArgSpecV {
    pub name: Seq<char>,
    pub short: Option<Seq<char>>,
    pub long: Option<Seq<char>>,
    pub takes_value: bool,
    pub value_name: Option<Seq<char>>,
    pub help: Option<Seq<char>>,
    pub needs: Option<Seq<char>>,
    pub raw: bool,
}

/// The values of an `AppSpec`.
pub struct AppSpecV {
    pub name: Seq<char>,
    pub version: Seq<char>,
    pub after_help: Seq<char>,
    pub settings: Seq<Setting>,
    pub args: Seq<ArgSpecV>,
}

impl View for ArgSpec {
    type V = ArgSpecV;

    open spec fn view(&self) -> ArgSpecV {
        ArgSpecV {
            name: self.name@,
            short: opt_text(self.short),
            long: opt_text(self.long),
            takes_value: self.takes_value,
            value_name: opt_text(self.value_name),
            help: opt_text(self.help),
            needs: opt_text(self.needs),
            raw: self.raw,
        }
    }
}

impl View for AppSpec {
    type V = AppSpecV;

    open spec fn view(&self) -> AppSpecV {
        AppSpecV {
            name: self.name@,
            version: self.version@,
            after_help: self.after_help@,
            settings: self.settings@,
            args: self.args@.map_values(|a: ArgSpec| a@),
        }
    }
}

/// What the command line gave for one argument.
#[derive(Clone, Debug)]
pub struct ArgMatch {
    pub name: String,
    pub present: bool,
    pub values: Option<Vec<String>>,
}

/// The values of an `ArgMatch`.
pub struct ArgMatchV {
    pub name: Seq<char>,
    pub present: bool,
    pub values: Option<Seq<Seq<char>>>,
}

impl View for ArgMatch {
    type V = ArgMatchV;

    open spec fn view(&self) -> ArgMatchV {
        ArgMatchV {
            name: self.name@,
            present: self.present,
            values: match self.values {
                Some(v) => Some(strings(v@)),
                None => None,
            },
        }
    }
}

/// The values of argument matches.
pub open spec fn match_views(v: Seq<ArgMatch>) -> Seq<ArgMatchV> {
    v.map_values(|m: ArgMatch| m@)
}

/// What clap makes of the command line `argv` with the arguments `app`: for
/// each argument of `app`, in order, whether it is present and its values; or,
/// when clap refuses the command line, whether that is because the help was
/// asked for (`Err(true)`) or because of an error (`Err(false)`).
pub uninterp spec fn clap_matches(app: AppSpecV, argv: Seq<Seq<char>>) -> Result<Seq<ArgMatchV>, bool>;

/// The clap setting for each `Setting` (`clap::AppSettings`, variant for
/// variant). Nothing is promised of it: it only converts for `clap_parse`.
#[verifier::external_body]
fn clap_setting(s: Setting) -> clap::AppSettings {
    match s {
        Setting::DeriveDisplayOrder => clap::AppSettings::DeriveDisplayOrder,
        Setting::DisableHelpSubcommand => clap::AppSettings::DisableHelpSubcommand,
        Setting::DisableVersion => clap::AppSettings::DisableVersion,
        Setting::TrailingVarArg => clap::AppSettings::TrailingVarArg,
        Setting::UnifiedHelpMessage => clap::AppSettings::UnifiedHelpMessage,
    }
}

/// The clap argument that `spec` describes: `clap::Arg::with_name`, then
/// `short`, `long`, `takes_value`, `value_name`, `help`, `requires` and `raw`
/// for the fields that `spec` gives. Nothing is promised of it: it only
/// converts for `clap_parse`.
#[verifier::external_body]
fn clap_arg<'a>(spec: &'a ArgSpec) -> clap::Arg<'a, 'a> {
    let mut a = clap::Arg::with_name(spec.name.as_str());
    if let Some(v) = &spec.short { a = a.short(v.as_str()); }
    if let Some(v) = &spec.long { a = a.long(v.as_str()); }
    if spec.takes_value { a = a.takes_value(true); }
    if let Some(v) = &spec.value_name { a = a.value_name(v.as_str()); }
    if let Some(v) = &spec.help { a = a.help(v.as_str()); }
    if let Some(v) = &spec.needs { a = a.requires(v.as_str()); }
    if spec.raw { a = a.raw(true); }
    a
}

/// `clap::App::get_matches_from_safe` on `argv`, with the app that `app`
/// describes (`App::new`, `version`, `after_help`, `setting` and `arg` for
/// each of its settings and arguments). On success the result holds, for
/// each argument of `app` in order, its name, `ArgMatches::is_present` and
/// `ArgMatches::values_of`; on failure, clap's message and whether it is the
/// help that was asked for. Which command lines clap takes, and what it finds
/// in them, is left to the named function `clap_matches`; the message is left
/// unsaid. clap checks, with debug assertions, that the app is well formed
/// (names, shorts and longs unique, only the last positional taking many
/// values) and panics where it is not, so it is called only with the
/// program's own app (`app_spec`), which is well formed.
#[verifier::external_body]
fn clap_parse(app: &AppSpec, argv: &Vec<String>) -> (r: Result<Vec<ArgMatch>, (String, bool)>)
    requires
        app@ == app_spec(),
    ensures
        match clap_matches(app@, strings(argv@)) {
            Ok(m) => r matches Ok(v) && match_views(v@) == m,
            Err(help) => r matches Err(e) && e.1 == help,
        },
        r matches Ok(v) ==> v@.len() == app@.args.len()
            && forall|i: int| 0 <= i < v@.len() ==> (#[trigger] v@[i])@.name == app@.args[i].name,
{
    let mut a = clap::App::new(&app.name).version(app.version.as_str()).after_help(app.after_help.as_str());
    for s in &app.settings { a = a.setting(clap_setting(*s)); }
    for s in &app.args { a = a.arg(clap_arg(s)); }
    let m = a.get_matches_from_safe(argv).map_err(|e| (e.message, e.kind == clap::ErrorKind::HelpDisplayed))?;
    Ok(app.args.iter().map(|s| ArgMatch {
        name: s.name.clone(),
        present: m.is_present(&s.name),
        values: m.values_of(&s.name).map(|v| v.map(String::from).collect()),
    }).collect())
}

// ---------------------------------------------------------------- The arguments

pub const ARG_QUIET: &'static str = "quiet";
pub const ARG_SHOW_CPU: &'static str = "show-cpu";
pub const ARG_SHOW_PSTATE: &'static str = "show-pstate";
pub const ARG_SHOW_RAPL: &'static str = "show-rapl";
pub const ARG_SHOW_I915: &'static str = "show-i915";
pub const ARG_CPU: &'static str = "cpu";
pub const ARG_CPU_ON: &'static str = "cpu-on";
pub const ARG_CPU_ON_EACH: &'static str = "cpu-on-each";
pub const ARG_CPUFREQ_GOV: &'static str = "cpufreq-gov";
pub const ARG_CPUFREQ_MIN: &'static str = "cpufreq-min";
pub const ARG_CPUFREQ_MAX: &'static str = "cpufreq-max";
pub const ARG_PSTATE_EPB: &'static str = "pstate-epb";
pub const ARG_PSTATE_EPP: &'static str = "pstate-epp";
pub const ARG_RAPL_PACKAGE: &'static str = "rapl-package";
pub const ARG_RAPL_ZONE: &'static str = "rapl-zone";
pub const ARG_RAPL_LONG_LIMIT: &'static str = "rapl-long-limit";
pub const ARG_RAPL_LONG_WINDOW: &'static str = "rapl-long-window";
pub const ARG_RAPL_SHORT_LIMIT: &'static str = "rapl-short-limit";
pub const ARG_RAPL_SHORT_WINDOW: &'static str = "rapl-short-window";
pub const ARG_I915: &'static str = "i915";
pub const ARG_I915_MIN: &'static str = "i915-min";
pub const ARG_I915_MAX: &'static str = "i915-max";
pub const ARG_I915_BOOST: &'static str = "i915-boost";
pub const ARG_PROFILE: &'static str = "PROFILE";
pub const ARG_OPTIONS: &'static str = "OPTIONS";

/// The version that `--version` would print.
pub const VERSION: &'static str = "0.2.5";

/// The text after the options in the help.
pub const AFTER_HELP: &'static str = "           BOOL   0, 1, true, false
            IDS   comma-delimited sequence of integers and/or integer ranges
          HERTZ*  mhz when unspecified: hz/h - khz/k - mhz/m - ghz/g - thz/t
           SECS   ms when unspecified: ns/n - us/u - ms/m - s
        TOGGLES   sequence of 0 (off), 1 (on), or _ (skip), where position denotes id
          WATTS*  mw when unspecified: uw/u - mw/m - w - kw/k

        * Floating point values may be given for these units.

    All supported values are shown unless the --show-* or --quiet flags are used.

    All flags may be expressed as env vars. For example:

        --show-cpu        → KNOBS_SHOW_CPU=1
        --cpu 1,3-5       → KNOBS_CPU=1,3-5
        --i915-boost 1200 → KNOBS_I915_BOOST=1200

    The KNOBS_LOG env var may be set to trace, debug, info, warn, or error (default).
";

/// A flag: named by `name` (its long form too), with no value.
pub open spec fn switch_v(name: Seq<char>, short: Option<Seq<char>>, help: Seq<char>) -> ArgSpecV {
    ArgSpecV {
        name,
        short,
        long: Some(name),
        takes_value: false,
        value_name: None,
        help: Some(help),
        needs: None,
        raw: false,
    }
}

/// An option: named by `name` (its long form too), taking one value.
pub open spec fn option_v(
    name: Seq<char>,
    short: Option<Seq<char>>,
    value_name: Seq<char>,
    help: Seq<char>,
    needs: Option<Seq<char>>,
) -> ArgSpecV {
    ArgSpecV {
        name,
        short,
        long: Some(name),
        takes_value: true,
        value_name: Some(value_name),
        help: Some(help),
        needs,
        raw: false,
    }
}

/// A positional argument; a raw one takes everything after `--`.
pub open spec fn positional_v(name: Seq<char>, raw: bool) -> ArgSpecV {
    ArgSpecV {
        name,
        short: None,
        long: None,
        takes_value: false,
        value_name: None,
        help: None,
        needs: None,
        raw,
    }
}

/// The settings of the command line.
pub open spec fn settings_spec() -> Seq<Setting> {
    seq![
        Setting::DeriveDisplayOrder,
        Setting::DisableHelpSubcommand,
        Setting::DisableVersion,
        Setting::TrailingVarArg,
        Setting::UnifiedHelpMessage,
    ]
}

/// The flags that choose what is printed.
pub open spec fn show_args_spec() -> Seq<ArgSpecV> {
    seq![
        switch_v(ARG_QUIET@, Some("q"@), "Do not print values"@),
        switch_v(ARG_SHOW_CPU@, None, "Print cpu and cpufreq values"@),
        switch_v(ARG_SHOW_PSTATE@, None, "Print pstate values"@),
        switch_v(ARG_SHOW_RAPL@, None, "Print rapl values"@),
        switch_v(ARG_SHOW_I915@, None, "Print drm values"@),
    ]
}

/// The options for cpus.
pub open spec fn cpu_args_spec() -> Seq<ArgSpecV> {
    seq![
        option_v(ARG_CPU@, Some("c"@), "IDS"@, "Target cpu ids, default all, ex. 0,1,3-5"@, None),
        option_v(ARG_CPU_ON@, Some("o"@), "BOOL"@, "Set cpu online status per --cpu"@, None),
        option_v(
            ARG_CPU_ON_EACH@,
            Some("O"@),
            "TOGGLES"@,
            "Set cpu online status, ex. 10_1 → 0:ON 1:OFF 2:SKIP 3:ON"@,
            None,
        ),
        option_v(ARG_CPUFREQ_GOV@, Some("g"@), "STR"@, "Set cpufreq governor per --cpu"@, None),
        option_v(
            ARG_CPUFREQ_MIN@,
            Some("n"@),
            "HERTZ"@,
            "Set cpufreq min freq per --cpu, ex. 1200 or 1.2ghz"@,
            None,
        ),
        option_v(
            ARG_CPUFREQ_MAX@,
            Some("x"@),
            "HERTZ"@,
            "Set cpufreq max freq per --cpu, ex. 1200 or 1.2ghz"@,
            None,
        ),
        option_v(ARG_PSTATE_EPB@, None, "0-15"@, "Set pstate energy/performance bias per --cpu"@, None),
        option_v(ARG_PSTATE_EPP@, None, "STR"@, "Set pstate energy/performance pref per --cpu"@, None),
    ]
}

/// The options for rapl zones.
pub open spec fn rapl_args_spec() -> Seq<ArgSpecV> {
    seq![
        option_v(ARG_RAPL_PACKAGE@, Some("P"@), "INT"@, "Target rapl package"@, None),
        option_v(ARG_RAPL_ZONE@, Some("Z"@), "INT"@, "Target rapl sub-zone"@, None),
        option_v(
            ARG_RAPL_LONG_LIMIT@,
            Some("L"@),
            "WATTS"@,
            "Set rapl long term power limit per --rapl-package/zone"@,
            Some(ARG_RAPL_PACKAGE@),
        ),
        option_v(
            ARG_RAPL_LONG_WINDOW@,
            None,
            "SECS"@,
            "Set rapl long term time window per --rapl-package/zone"@,
            Some(ARG_RAPL_PACKAGE@),
        ),
        option_v(
            ARG_RAPL_SHORT_LIMIT@,
            Some("S"@),
            "WATTS"@,
            "Set rapl short term power limit per --rapl-package/zone"@,
            Some(ARG_RAPL_PACKAGE@),
        ),
        option_v(
            ARG_RAPL_SHORT_WINDOW@,
            None,
            "SECS"@,
            "Set rapl short term time window per --rapl-package/zone"@,
            Some(ARG_RAPL_PACKAGE@),
        ),
    ]
}

/// The options for i915 cards, then the positional arguments.
pub open spec fn i915_args_spec() -> Seq<ArgSpecV> {
    seq![
        option_v(
            ARG_I915@,
            None,
            "IDS"@,
            "Target i915 card ids or pci ids, default all, ex. 0,1,3-5"@,
            None,
        ),
        option_v(
            ARG_I915_MIN@,
            None,
            "HERTZ"@,
            "Set i915 min freq per --drm-i915, ex. 1200 or 1.2ghz"@,
            None,
        ),
        option_v(
            ARG_I915_MAX@,
            None,
            "HERTZ"@,
            "Set i915 max freq per --drm-i915, ex. 1200 or 1.2ghz"@,
            None,
        ),
        option_v(
            ARG_I915_BOOST@,
            None,
            "HERTZ"@,
            "Set i915 boost freq per --drm-i915, ex. 1200 or 1.2ghz"@,
            None,
        ),
        positional_v(ARG_PROFILE@, false),
        positional_v(ARG_OPTIONS@, true),
    ]
}

/// The whole command line of the program.
pub open spec fn app_spec() -> AppSpecV {
    AppSpecV {
        name: NAME@,
        version: VERSION@,
        after_help: AFTER_HELP@,
        settings: settings_spec(),
        args: show_args_spec() + cpu_args_spec() + rapl_args_spec() + i915_args_spec(),
    }
}

/// A flag named `name`.
fn switch_arg(name: &str, short: Option<&str>, help: &str) -> (r: ArgSpec)
    ensures
        r@ == switch_v(name@, opt_str(short), help@),
{
    ArgSpec {
        name: String::from_str(name),
        short: match short {
            Some(s) => Some(String::from_str(s)),
            None => None,
        },
        long: Some(String::from_str(name)),
        takes_value: false,
        value_name: None,
        help: Some(String::from_str(help)),
        needs: None,
        raw: false,
    }
}

/// An option named `name`.
fn option_arg(name: &str, short: Option<&str>, value_name: &str, help: &str, needs: Option<&str>) -> (r: ArgSpec)
    ensures
        r@ == option_v(name@, opt_str(short), value_name@, help@, opt_str(needs)),
{
    ArgSpec {
        name: String::from_str(name),
        short: match short {
            Some(s) => Some(String::from_str(s)),
            None => None,
        },
        long: Some(String::from_str(name)),
        takes_value: true,
        value_name: Some(String::from_str(value_name)),
        help: Some(String::from_str(help)),
        needs: match needs {
            Some(s) => Some(String::from_str(s)),
            None => None,
        },
        raw: false,
    }
}

/// A positional argument named `name`.
fn positional_arg(name: &str, raw: bool) -> (r: ArgSpec)
    ensures
        r@ == positional_v(name@, raw),
{
    ArgSpec {
        name: String::from_str(name),
        short: None,
        long: None,
        takes_value: false,
        value_name: None,
        help: None,
        needs: None,
        raw,
    }
}

/// The views of argument specs.
pub open spec fn arg_views(v: Seq<ArgSpec>) -> Seq<ArgSpecV> {
    v.map_values(|a: ArgSpec| a@)
}

/// Appends `a` to `v`.
fn push_arg(v: &mut Vec<ArgSpec>, a: ArgSpec)
    ensures
        arg_views(final(v)@) == arg_views(old(v)@).push(a@),
{
    v.push(a);
    assert(arg_views(v@) =~= arg_views(old(v)@).push(a@));
}

/// The flags that choose what is printed.
fn show_args(v: &mut Vec<ArgSpec>)
    ensures
        arg_views(final(v)@) == arg_views(old(v)@) + show_args_spec(),
{
    push_arg(v, switch_arg(ARG_QUIET, Some("q"), "Do not print values"));
    push_arg(v, switch_arg(ARG_SHOW_CPU, None, "Print cpu and cpufreq values"));
    push_arg(v, switch_arg(ARG_SHOW_PSTATE, None, "Print pstate values"));
    push_arg(v, switch_arg(ARG_SHOW_RAPL, None, "Print rapl values"));
    push_arg(v, switch_arg(ARG_SHOW_I915, None, "Print drm values"));
    assert(arg_views(v@) =~= arg_views(old(v)@) + show_args_spec());
}

/// The options for cpus.
fn cpu_args(v: &mut Vec<ArgSpec>)
    ensures
        arg_views(final(v)@) == arg_views(old(v)@) + cpu_args_spec(),
{
    push_arg(v, option_arg(ARG_CPU, Some("c"), "IDS", "Target cpu ids, default all, ex. 0,1,3-5", None));
    push_arg(v, option_arg(ARG_CPU_ON, Some("o"), "BOOL", "Set cpu online status per --cpu", None));
    push_arg(
        v,
        option_arg(
            ARG_CPU_ON_EACH,
            Some("O"),
            "TOGGLES",
            "Set cpu online status, ex. 10_1 → 0:ON 1:OFF 2:SKIP 3:ON",
            None,
        ),
    );
    push_arg(v, option_arg(ARG_CPUFREQ_GOV, Some("g"), "STR", "Set cpufreq governor per --cpu", None));
    push_arg(
        v,
        option_arg(
            ARG_CPUFREQ_MIN,
            Some("n"),
            "HERTZ",
            "Set cpufreq min freq per --cpu, ex. 1200 or 1.2ghz",
            None,
        ),
    );
    push_arg(
        v,
        option_arg(
            ARG_CPUFREQ_MAX,
            Some("x"),
            "HERTZ",
            "Set cpufreq max freq per --cpu, ex. 1200 or 1.2ghz",
            None,
        ),
    );
    push_arg(v, option_arg(ARG_PSTATE_EPB, None, "0-15", "Set pstate energy/performance bias per --cpu", None));
    push_arg(v, option_arg(ARG_PSTATE_EPP, None, "STR", "Set pstate energy/performance pref per --cpu", None));
    assert(arg_views(v@) =~= arg_views(old(v)@) + cpu_args_spec());
}

/// The options for rapl zones.
fn rapl_args(v: &mut Vec<ArgSpec>)
    ensures
        arg_views(final(v)@) == arg_views(old(v)@) + rapl_args_spec(),
{
    push_arg(v, option_arg(ARG_RAPL_PACKAGE, Some("P"), "INT", "Target rapl package", None));
    push_arg(v, option_arg(ARG_RAPL_ZONE, Some("Z"), "INT", "Target rapl sub-zone", None));
    push_arg(
        v,
        option_arg(
            ARG_RAPL_LONG_LIMIT,
            Some("L"),
            "WATTS",
            "Set rapl long term power limit per --rapl-package/zone",
            Some(ARG_RAPL_PACKAGE),
        ),
    );
    push_arg(
        v,
        option_arg(
            ARG_RAPL_LONG_WINDOW,
            None,
            "SECS",
            "Set rapl long term time window per --rapl-package/zone",
            Some(ARG_RAPL_PACKAGE),
        ),
    );
    push_arg(
        v,
        option_arg(
            ARG_RAPL_SHORT_LIMIT,
            Some("S"),
            "WATTS",
            "Set rapl short term power limit per --rapl-package/zone",
            Some(ARG_RAPL_PACKAGE),
        ),
    );
    push_arg(
        v,
        option_arg(
            ARG_RAPL_SHORT_WINDOW,
            None,
            "SECS",
            "Set rapl short term time window per --rapl-package/zone",
            Some(ARG_RAPL_PACKAGE),
        ),
    );
    assert(arg_views(v@) =~= arg_views(old(v)@) + rapl_args_spec());
}

/// The options for i915 cards, then the positional arguments.
fn i915_args(v: &mut Vec<ArgSpec>)
    ensures
        arg_views(final(v)@) == arg_views(old(v)@) + i915_args_spec(),
{
    push_arg(
        v,
        option_arg(ARG_I915, None, "IDS", "Target i915 card ids or pci ids, default all, ex. 0,1,3-5", None),
    );
    push_arg(
        v,
        option_arg(ARG_I915_MIN, None, "HERTZ", "Set i915 min freq per --drm-i915, ex. 1200 or 1.2ghz", None),
    );
    push_arg(
        v,
        option_arg(ARG_I915_MAX, None, "HERTZ", "Set i915 max freq per --drm-i915, ex. 1200 or 1.2ghz", None),
    );
    push_arg(
        v,
        option_arg(
            ARG_I915_BOOST,
            None,
            "HERTZ",
            "Set i915 boost freq per --drm-i915, ex. 1200 or 1.2ghz",
            None,
        ),
    );
    push_arg(v, positional_arg(ARG_PROFILE, false));
    push_arg(v, positional_arg(ARG_OPTIONS, true));
    assert(arg_views(v@) =~= arg_views(old(v)@) + i915_args_spec());
}

/// The command line of the program.
pub fn app() -> (r: AppSpec)
    ensures
        r@ == app_spec(),
{
    let mut settings: Vec<Setting> = Vec::new();
    settings.push(Setting::DeriveDisplayOrder);
    settings.push(Setting::DisableHelpSubcommand);
    settings.push(Setting::DisableVersion);
    settings.push(Setting::TrailingVarArg);
    settings.push(Setting::UnifiedHelpMessage);
    let mut args: Vec<ArgSpec> = Vec::new();
    assert(arg_views(args@) =~= Seq::<ArgSpecV>::empty());
    show_args(&mut args);
    cpu_args(&mut args);
    rapl_args(&mut args);
    i915_args(&mut args);
    let r = AppSpec {
        name: String::from_str(NAME),
        version: String::from_str(VERSION),
        after_help: String::from_str(AFTER_HELP),
        settings,
        args,
    };
    assert(r.settings@ =~= settings_spec());
    assert(arg_views(r.args@) =~= show_args_spec() + cpu_args_spec() + rapl_args_spec() + i915_args_spec());
    assert(r@.args =~= arg_views(r.args@));
    r
}

/// The name that `argv` calls the program by: the last `/`-separated part
/// of its first element, or `knobs` when `argv` is empty.
pub open spec fn argv0_spec(argv: Seq<Seq<char>>) -> Seq<char> {
    if argv.len() == 0 {
        NAME@
    } else {
        split_spec(argv[0], '/').last()
    }
}

/// The name that `argv` calls the program by.
pub fn argv0(argv: &Vec<String>) -> (r: String)
    ensures
        r@ == argv0_spec(strings(argv@)),
{
    if argv.len() == 0 {
        return String::from_str(NAME);
    }
    let parts = split_chars(&chars_of(argv[0].as_str()), '/');
    proof {
        lemma_split_nonempty(argv@[0]@, '/');
    }
    string_of(&parts[parts.len() - 1])
}

// ---------------------------------------------------------------- The parser

/// One parsed command line, with the environment that gives the arguments
/// that the command line leaves out.
pub struct Parser {
    pub argv: Vec<String>,
    pub matches: Vec<ArgMatch>,
    pub vars: Vec<(String, String)>,
}

/// The values of a `Parser`.
pub struct ParserV {
    pub argv: Seq<Seq<char>>,
    pub matches: Seq<ArgMatchV>,
    pub vars: Seq<(Seq<char>, Seq<char>)>,
}

impl View for Parser {
    type V = ParserV;

    open spec fn view(&self) -> ParserV {
        ParserV { argv: strings(self.argv@), matches: match_views(self.matches@), vars: pairs(self.vars@) }
    }
}

/// The first match for the argument `name`.
pub open spec fn find_match(ms: Seq<ArgMatchV>, name: Seq<char>) -> Option<ArgMatchV>
    decreases ms.len(),
{
    if ms.len() == 0 {
        None
    } else if ms[0].name == name {
        Some(ms[0])
    } else {
        find_match(ms.drop_first(), name)
    }
}

/// Whether the argument `name` is on the command line.
pub open spec fn present_spec(p: ParserV, name: Seq<char>) -> bool {
    find_match(p.matches, name) matches Some(m) && m.present
}

/// The values that the command line gives the argument `name`.
pub open spec fn values_spec(p: ParserV, name: Seq<char>) -> Option<Seq<Seq<char>>> {
    match find_match(p.matches, name) {
        Some(m) => m.values,
        None => None,
    }
}

/// The first value that the command line gives the argument `name`.
pub open spec fn value_of_spec(p: ParserV, name: Seq<char>) -> Option<Seq<char>> {
    match values_spec(p, name) {
        Some(v) => if v.len() > 0 {
            Some(v[0])
        } else {
            None
        },
        None => None,
    }
}

/// The environment variable for the argument `name`.
pub open spec fn arg_var_name(name: Seq<char>) -> Seq<char> {
    var_name_spec(replace_spec(uppercase(name), '-', '_'))
}

/// The value of the argument `name`: from the command line, or else from its
/// environment variable.
pub open spec fn arg_value_spec(p: ParserV, name: Seq<char>) -> Option<Seq<char>> {
    match value_of_spec(p, name) {
        Some(v) => Some(v),
        None => lookup_spec(p.vars, arg_var_name(name)),
    }
}

/// Whether the flag `name` is on: on the command line, or else by an
/// environment value other than empty, `0` and `false`.
pub open spec fn flag_spec(p: ParserV, name: Seq<char>) -> bool {
    present_spec(p, name) || match lookup_spec(p.vars, arg_var_name(name)) {
        Some(v) => flag_value_spec(v, lowercase(v)),
        None => false,
    }
}

/// The message of an integer that does not parse.
pub open spec fn int_message() -> Seq<char> {
    "Expected integer value"@
}

/// A `ParseFlag` error for `flag` from a `ParseValue` error.
fn flag_fault(flag: &str, e: Error) -> (r: Error)
    ensures
        forall|m: Seq<char>| e.is_parse_value(m) ==> r.is_parse_flag(flag@, m),
{
    match e {
        Error::ParseValue(m) => Error::ParseFlag { flag: String::from_str(flag), message: m },
        other => other,
    }
}

// Each kind of argument value: the fault of a given text (`None` for none),
// and how a parsed value relates to the text.

pub open spec fn indices_fault(v: Option<Seq<char>>) -> Option<Seq<char>> {
    match v {
        Some(t) => match indices_spec(t) {
            Err(f) => Some(indices_message(f)),
            Ok(_) => None,
        },
        None => None,
    }
}

pub open spec fn indices_rel(x: Option<Vec<u64>>, v: Option<Seq<char>>) -> bool {
    match v {
        None => x is None,
        Some(t) => match indices_spec(t) {
            Ok(ids) => x matches Some(y) && strictly_increasing(y@) && y@.to_set() == ids,
            Err(_) => false,
        },
    }
}

pub open spec fn bool_fault(v: Option<Seq<char>>) -> Option<Seq<char>> {
    match v {
        Some(t) => if bool_str_spec(t) is None {
            Some("Expected 0, 1, false, or true"@)
        } else {
            None
        },
        None => None,
    }
}

pub open spec fn bool_rel(x: Option<bool>, v: Option<Seq<char>>) -> bool {
    match v {
        None => x is None,
        Some(t) => x == bool_str_spec(t) && x is Some,
    }
}

pub open spec fn toggles_fault(v: Option<Seq<char>>) -> Option<Seq<char>> {
    match v {
        Some(t) => if toggles_spec(t) is None {
            Some("Expected sequence of 0, 1, or -"@)
        } else {
            None
        },
        None => None,
    }
}

pub open spec fn toggles_rel(x: Option<Vec<(u64, bool)>>, v: Option<Seq<char>>) -> bool {
    match v {
        None => x is None,
        Some(t) => match toggles_spec(t) {
            Some(tg) => x matches Some(y) && y@ == tg,
            None => false,
        },
    }
}

pub open spec fn text_rel(x: Option<String>, v: Option<Seq<char>>) -> bool {
    opt_text(x) == v
}

pub open spec fn int_fault(v: Option<Seq<char>>) -> Option<Seq<char>> {
    match v {
        Some(t) => if parse_u64_spec(t) is None {
            Some(int_message())
        } else {
            None
        },
        None => None,
    }
}

pub open spec fn int_rel(x: Option<u64>, v: Option<Seq<char>>) -> bool {
    match v {
        None => x is None,
        Some(t) => x == parse_u64_spec(t) && x is Some,
    }
}

pub open spec fn frequency_fault(v: Option<Seq<char>>) -> Option<Seq<char>> {
    match v {
        Some(t) => match frequency_spec(t, lowercase(unit_text(t))) {
            Err(f) => Some(frequency_message(f)),
            Ok(_) => None,
        },
        None => None,
    }
}

pub open spec fn frequency_rel(x: Option<FrequencyStr>, v: Option<Seq<char>>) -> bool {
    match v {
        None => x is None,
        Some(t) => match frequency_spec(t, lowercase(unit_text(t))) {
            Ok((n, u)) => x matches Some(f) && f.number@ == n && f.unit == u,
            Err(_) => false,
        },
    }
}

pub open spec fn power_fault(v: Option<Seq<char>>) -> Option<Seq<char>> {
    match v {
        Some(t) => match power_spec(t) {
            Err(f) => Some(power_message(f)),
            Ok(_) => None,
        },
        None => None,
    }
}

pub open spec fn power_rel(x: Option<PowerStr>, v: Option<Seq<char>>) -> bool {
    match v {
        None => x is None,
        Some(t) => match power_spec(t) {
            Ok((n, u)) => x matches Some(p) && p.number@ == n && p.unit == u,
            Err(_) => false,
        },
    }
}

pub open spec fn duration_fault(v: Option<Seq<char>>) -> Option<Seq<char>> {
    match v {
        Some(t) => match duration_spec(t) {
            Err(f) => Some(duration_message(f)),
            Ok(_) => None,
        },
        None => None,
    }
}

pub open spec fn duration_rel(x: Option<DurationStr>, v: Option<Seq<char>>) -> bool {
    match v {
        None => x is None,
        Some(t) => match duration_spec(t) {
            Ok((n, u)) => x == Some(DurationStr { value: n, unit: u }),
            Err(_) => false,
        },
    }
}

pub open spec fn card_ids_fault(v: Option<Seq<char>>) -> Option<Seq<char>> {
    match v {
        Some(t) => match card_ids_spec(t) {
            Err(f) => Some(indices_message(f)),
            Ok(_) => None,
        },
        None => None,
    }
}

pub open spec fn card_ids_rel(x: Option<Vec<CardId>>, v: Option<Seq<char>>) -> bool {
    match v {
        None => x is None,
        Some(t) => match card_ids_spec(t) {
            Ok(ids) => x matches Some(y) && card_ids_layout(card_views(y@), ids, bus_items(split_spec(t, ','))),
            Err(_) => false,
        },
    }
}

impl Parser {
    /// A parser of what clap found on a command line.
    pub fn from_matches(argv: Vec<String>, matches: Vec<ArgMatch>, vars: Vec<(String, String)>) -> (r: Self)
        ensures
            r.argv@ == argv@,
            r.matches@ == matches@,
            r.vars@ == vars@,
    {
        Parser { argv, matches, vars }
    }

    /// Parses the command line `argv` (the program's name first); `vars` is the
    /// environment.
    pub fn new(argv: Vec<String>, vars: Vec<(String, String)>) -> (r: Result<Self, Error>)
        ensures
            match clap_matches(app_spec(), strings(argv@)) {
                Ok(m) => r matches Ok(p) && p@ == (ParserV {
                    argv: strings(argv@),
                    matches: m,
                    vars: pairs(vars@),
                }),
                Err(help) => r matches Err(Error::Clap { help: h, .. }) && h == help,
            },
    {
        let a = app();
        match clap_parse(&a, &argv) {
            Ok(m) => Ok(Parser::from_matches(argv, m, vars)),
            Err((message, help)) => Err(Error::Clap { message, help }),
        }
    }

    /// The position of the first match for `name`.
    fn find(&self, name: &str) -> (r: Option<usize>)
        ensures
            match r {
                Some(i) => i < self.matches.len() && find_match(self@.matches, name@) == Some(
                    self@.matches[i as int],
                ),
                None => find_match(self@.matches, name@) is None,
            },
    {
        let n = chars_of(name);
        let ghost ms = self@.matches;
        let mut i: usize = 0;
        assert(ms.skip(0) =~= ms);
        while i < self.matches.len()
            invariant
                i <= self.matches.len(),
                ms == self@.matches,
                ms.len() == self.matches.len(),
                n@ == name@,
                find_match(ms, name@) == find_match(ms.skip(i as int), name@),
            decreases self.matches.len() - i,
        {
            assert(ms.skip(i as int).drop_first() =~= ms.skip(i + 1));
            assert(ms.skip(i as int)[0] == ms[i as int]);
            let k = chars_of(self.matches[i].name.as_str());
            if chars_eq(&k, &n) {
                return Some(i);
            }
            i = i + 1;
        }
        None
    }

    /// Whether the argument `name` is on the command line (the environment is
    /// not read).
    pub fn arg_present(&self, name: &str) -> (r: bool)
        ensures
            r == present_spec(self@, name@),
    {
        match self.find(name) {
            Some(i) => self.matches[i].present,
            None => false,
        }
    }

    /// The values of the argument `name` on the command line (the environment
    /// is not read).
    pub fn arg_values(&self, name: &str) -> (r: Option<Vec<String>>)
        ensures
            opt_strings(r) == values_spec(self@, name@),
    {
        match self.find(name) {
            Some(i) => match &self.matches[i].values {
                Some(v) => Some(clone_strings(v)),
                None => None,
            },
            None => None,
        }
    }

    /// The first value of the argument `name` on the command line.
    pub fn value_of(&self, name: &str) -> (r: Option<String>)
        ensures
            opt_text(r) == value_of_spec(self@, name@),
    {
        match self.find(name) {
            Some(i) => match &self.matches[i].values {
                Some(v) => if v.len() > 0 {
                    Some(v[0].clone())
                } else {
                    None
                },
                None => None,
            },
            None => None,
        }
    }

    /// The value of the environment variable for the argument `name`.
    pub fn var(&self, name: &str) -> (r: Option<String>)
        ensures
            opt_text(r) == lookup_spec(self@.vars, arg_var_name(name@)),
    {
        let up = to_uppercase(name);
        let n = replace_char(up.as_str(), '-', '_');
        let v = var_name(n.as_str());
        lookup(self.vars.as_slice(), v.as_str())
    }

    /// Whether the flag `name` is on, from the command line or the environment.
    pub fn flag(&self, name: &str) -> (r: Option<()>)
        ensures
            r is Some <==> flag_spec(self@, name@),
    {
        if self.arg_present(name) {
            return Some(());
        }
        match self.var(name) {
            Some(v) => if flag_value(v.as_str()) {
                Some(())
            } else {
                None
            },
            None => None,
        }
    }

    /// The value of the argument `name`, from the command line or the
    /// environment.
    pub fn str(&self, name: &str) -> (r: Option<String>)
        ensures
            opt_text(r) == arg_value_spec(self@, name@),
    {
        match self.value_of(name) {
            Some(v) => Some(v),
            None => self.var(name),
        }
    }

    /// The integer value of the argument `name`.
    pub fn integer(&self, name: &str) -> (r: Result<Option<u64>, Error>)
        ensures
            match int_fault(arg_value_spec(self@, name@)) {
                Some(m) => r matches Err(e) && e.is_parse_flag(name@, m),
                None => r matches Ok(x) && int_rel(x, arg_value_spec(self@, name@)),
            },
    {
        match self.str(name) {
            None => Ok(None),
            Some(v) => match parse_u64(&chars_of(v.as_str())) {
                Some(n) => Ok(Some(n)),
                None => Err(Error::ParseFlag {
                    flag: String::from_str(name),
                    message: String::from_str("Expected integer value"),
                }),
            },
        }
    }

    /// The id list of the argument `name`.
    pub fn indices(&self, name: &str) -> (r: Result<Option<Vec<u64>>, Error>)
        ensures
            match indices_fault(arg_value_spec(self@, name@)) {
                Some(m) => r matches Err(e) && e.is_parse_flag(name@, m),
                None => r matches Ok(x) && indices_rel(x, arg_value_spec(self@, name@)),
            },
    {
        match self.str(name) {
            None => Ok(None),
            Some(v) => match Indices::from_str(v.as_str()) {
                Ok(i) => Ok(Some(i.into_vec())),
                Err(e) => Err(flag_fault(name, e)),
            },
        }
    }

    /// The boolean value of the argument `name`.
    pub fn bool_value(&self, name: &str) -> (r: Result<Option<bool>, Error>)
        ensures
            match bool_fault(arg_value_spec(self@, name@)) {
                Some(m) => r matches Err(e) && e.is_parse_flag(name@, m),
                None => r matches Ok(x) && bool_rel(x, arg_value_spec(self@, name@)),
            },
    {
        match self.str(name) {
            None => Ok(None),
            Some(v) => match BoolStr::from_str(v.as_str()) {
                Ok(b) => Ok(Some(b.into_bool())),
                Err(e) => Err(flag_fault(name, e)),
            },
        }
    }

    /// The toggles of the argument `name`.
    pub fn toggles(&self, name: &str) -> (r: Result<Option<Vec<(u64, bool)>>, Error>)
        ensures
            match toggles_fault(arg_value_spec(self@, name@)) {
                Some(m) => r matches Err(e) && e.is_parse_flag(name@, m),
                None => r matches Ok(x) && toggles_rel(x, arg_value_spec(self@, name@)),
            },
    {
        match self.str(name) {
            None => Ok(None),
            Some(v) => match Toggles::from_str(v.as_str()) {
                Ok(t) => Ok(Some(t.into_vec())),
                Err(e) => Err(flag_fault(name, e)),
            },
        }
    }

    /// The frequency of the argument `name`.
    pub fn frequency(&self, name: &str) -> (r: Result<Option<FrequencyStr>, Error>)
        ensures
            match frequency_fault(arg_value_spec(self@, name@)) {
                Some(m) => r matches Err(e) && e.is_parse_flag(name@, m),
                None => r matches Ok(x) && frequency_rel(x, arg_value_spec(self@, name@)),
            },
    {
        match self.str(name) {
            None => Ok(None),
            Some(v) => match FrequencyStr::from_str(v.as_str()) {
                Ok(f) => Ok(Some(f)),
                Err(e) => Err(flag_fault(name, e)),
            },
        }
    }

    /// The power of the argument `name`.
    pub fn power(&self, name: &str) -> (r: Result<Option<PowerStr>, Error>)
        ensures
            match power_fault(arg_value_spec(self@, name@)) {
                Some(m) => r matches Err(e) && e.is_parse_flag(name@, m),
                None => r matches Ok(x) && power_rel(x, arg_value_spec(self@, name@)),
            },
    {
        match self.str(name) {
            None => Ok(None),
            Some(v) => match PowerStr::from_str(v.as_str()) {
                Ok(p) => Ok(Some(p)),
                Err(e) => Err(flag_fault(name, e)),
            },
        }
    }

    /// The duration of the argument `name`.
    pub fn duration(&self, name: &str) -> (r: Result<Option<DurationStr>, Error>)
        ensures
            match duration_fault(arg_value_spec(self@, name@)) {
                Some(m) => r matches Err(e) && e.is_parse_flag(name@, m),
                None => r matches Ok(x) && duration_rel(x, arg_value_spec(self@, name@)),
            },
    {
        match self.str(name) {
            None => Ok(None),
            Some(v) => match DurationStr::from_str(v.as_str()) {
                Ok(d) => Ok(Some(d)),
                Err(e) => Err(flag_fault(name, e)),
            },
        }
    }

    /// The card list of the argument `name`.
    pub fn card_ids(&self, name: &str) -> (r: Result<Option<Vec<CardId>>, Error>)
        ensures
            match card_ids_fault(arg_value_spec(self@, name@)) {
                Some(m) => r matches Err(e) && e.is_parse_flag(name@, m),
                None => r matches Ok(x) && card_ids_rel(x, arg_value_spec(self@, name@)),
            },
    {
        match self.str(name) {
            None => Ok(None),
            Some(v) => match CardIds::from_str(v.as_str()) {
                Ok(c) => Ok(Some(c.0)),
                Err(e) => Err(flag_fault(name, e)),
            },
        }
    }
}

// ---------------------------------------------------------------- Groups

/// `prev`, or else `(name, m)` when `fault` is `Some(m)`.
pub open spec fn first_fault(
    prev: Option<(Seq<char>, Seq<char>)>,
    name: Seq<char>,
    fault: Option<Seq<char>>,
) -> Option<(Seq<char>, Seq<char>)> {
    match prev {
        Some(x) => Some(x),
        None => match fault {
            Some(m) => Some((name, m)),
            None => None,
        },
    }
}

/// The first argument of a group, in the order in which they are parsed,
/// whose value does not parse, with the message: `--cpu`, `--cpu-on`,
/// `--cpu-on-each`, the cpufreq, intel_pstate and rapl arguments, then the
/// i915 arguments.
pub open spec fn group_fault(p: ParserV) -> Option<(Seq<char>, Seq<char>)> {
    let a0 = first_fault(None, ARG_CPU@, indices_fault(arg_value_spec(p, ARG_CPU@)));
    let a1 = first_fault(a0, ARG_CPU_ON@, bool_fault(arg_value_spec(p, ARG_CPU_ON@)));
    let a2 = first_fault(a1, ARG_CPU_ON_EACH@, toggles_fault(arg_value_spec(p, ARG_CPU_ON_EACH@)));
    let a3 = first_fault(a2, ARG_CPUFREQ_MIN@, frequency_fault(arg_value_spec(p, ARG_CPUFREQ_MIN@)));
    let a4 = first_fault(a3, ARG_CPUFREQ_MAX@, frequency_fault(arg_value_spec(p, ARG_CPUFREQ_MAX@)));
    let a5 = first_fault(a4, ARG_PSTATE_EPB@, int_fault(arg_value_spec(p, ARG_PSTATE_EPB@)));
    let a6 = first_fault(a5, ARG_RAPL_PACKAGE@, int_fault(arg_value_spec(p, ARG_RAPL_PACKAGE@)));
    let a7 = first_fault(a6, ARG_RAPL_ZONE@, int_fault(arg_value_spec(p, ARG_RAPL_ZONE@)));
    let a8 = first_fault(a7, ARG_RAPL_LONG_LIMIT@, power_fault(arg_value_spec(p, ARG_RAPL_LONG_LIMIT@)));
    let a9 = first_fault(a8, ARG_RAPL_LONG_WINDOW@, duration_fault(arg_value_spec(p, ARG_RAPL_LONG_WINDOW@)));
    let a10 = first_fault(a9, ARG_RAPL_SHORT_LIMIT@, power_fault(arg_value_spec(p, ARG_RAPL_SHORT_LIMIT@)));
    let a11 = first_fault(
        a10,
        ARG_RAPL_SHORT_WINDOW@,
        duration_fault(arg_value_spec(p, ARG_RAPL_SHORT_WINDOW@)),
    );
    let a12 = first_fault(a11, ARG_I915@, card_ids_fault(arg_value_spec(p, ARG_I915@)));
    let a13 = first_fault(a12, ARG_I915_MIN@, frequency_fault(arg_value_spec(p, ARG_I915_MIN@)));
    let a14 = first_fault(a13, ARG_I915_MAX@, frequency_fault(arg_value_spec(p, ARG_I915_MAX@)));
    first_fault(a14, ARG_I915_BOOST@, frequency_fault(arg_value_spec(p, ARG_I915_BOOST@)))
}

/// Whether each field of `g` is what its argument in `p` gives.
pub open spec fn group_rel(g: Group, p: ParserV) -> bool {
    &&& indices_rel(g.cpu, arg_value_spec(p, ARG_CPU@))
    &&& bool_rel(g.cpu_on, arg_value_spec(p, ARG_CPU_ON@))
    &&& toggles_rel(g.cpu_on_each, arg_value_spec(p, ARG_CPU_ON_EACH@))
    &&& text_rel(g.cpufreq_gov, arg_value_spec(p, ARG_CPUFREQ_GOV@))
    &&& frequency_rel(g.cpufreq_min, arg_value_spec(p, ARG_CPUFREQ_MIN@))
    &&& frequency_rel(g.cpufreq_max, arg_value_spec(p, ARG_CPUFREQ_MAX@))
    &&& int_rel(g.pstate_epb, arg_value_spec(p, ARG_PSTATE_EPB@))
    &&& text_rel(g.pstate_epp, arg_value_spec(p, ARG_PSTATE_EPP@))
    &&& int_rel(g.rapl_package, arg_value_spec(p, ARG_RAPL_PACKAGE@))
    &&& int_rel(g.rapl_zone, arg_value_spec(p, ARG_RAPL_ZONE@))
    &&& power_rel(g.rapl_long_limit, arg_value_spec(p, ARG_RAPL_LONG_LIMIT@))
    &&& duration_rel(g.rapl_long_window, arg_value_spec(p, ARG_RAPL_LONG_WINDOW@))
    &&& power_rel(g.rapl_short_limit, arg_value_spec(p, ARG_RAPL_SHORT_LIMIT@))
    &&& duration_rel(g.rapl_short_window, arg_value_spec(p, ARG_RAPL_SHORT_WINDOW@))
    &&& card_ids_rel(g.i915, arg_value_spec(p, ARG_I915@))
    &&& frequency_rel(g.i915_min, arg_value_spec(p, ARG_I915_MIN@))
    &&& frequency_rel(g.i915_max, arg_value_spec(p, ARG_I915_MAX@))
    &&& frequency_rel(g.i915_boost, arg_value_spec(p, ARG_I915_BOOST@))
}

/// Whether `p` gives any value to set (targets such as `--cpu` alone do not
/// count).
pub open spec fn values_given(p: ParserV) -> bool {
    ||| arg_value_spec(p, ARG_CPU_ON@) is Some
    ||| arg_value_spec(p, ARG_CPU_ON_EACH@) is Some
    ||| arg_value_spec(p, ARG_CPUFREQ_GOV@) is Some
    ||| arg_value_spec(p, ARG_CPUFREQ_MIN@) is Some
    ||| arg_value_spec(p, ARG_CPUFREQ_MAX@) is Some
    ||| arg_value_spec(p, ARG_PSTATE_EPB@) is Some
    ||| arg_value_spec(p, ARG_PSTATE_EPP@) is Some
    ||| arg_value_spec(p, ARG_RAPL_LONG_LIMIT@) is Some
    ||| arg_value_spec(p, ARG_RAPL_LONG_WINDOW@) is Some
    ||| arg_value_spec(p, ARG_RAPL_SHORT_LIMIT@) is Some
    ||| arg_value_spec(p, ARG_RAPL_SHORT_WINDOW@) is Some
    ||| arg_value_spec(p, ARG_I915_MIN@) is Some
    ||| arg_value_spec(p, ARG_I915_MAX@) is Some
    ||| arg_value_spec(p, ARG_I915_BOOST@) is Some
}

impl Group {
    /// The group that the arguments of `p` give, or the error of the first
    /// argument whose value does not parse.
    pub fn try_from(p: &Parser) -> (r: Result<Group, Error>)
        ensures
            match group_fault(p@) {
                Some((f, m)) => r matches Err(e) && e.is_parse_flag(f, m),
                None => r matches Ok(g) && group_rel(g, p@) && (g.has_values_spec() <==> values_given(p@)),
            },
    {
        let cpu = match p.indices(ARG_CPU) {
            Ok(v) => v,
            Err(e) => return Err(e),
        };
        let cpu_on = match p.bool_value(ARG_CPU_ON) {
            Ok(v) => v,
            Err(e) => return Err(e),
        };
        let cpu_on_each = match p.toggles(ARG_CPU_ON_EACH) {
            Ok(v) => v,
            Err(e) => return Err(e),
        };
        let cpufreq_gov = p.str(ARG_CPUFREQ_GOV);
        let cpufreq_min = match p.frequency(ARG_CPUFREQ_MIN) {
            Ok(v) => v,
            Err(e) => return Err(e),
        };
        let cpufreq_max = match p.frequency(ARG_CPUFREQ_MAX) {
            Ok(v) => v,
            Err(e) => return Err(e),
        };
        let pstate_epb = match p.integer(ARG_PSTATE_EPB) {
            Ok(v) => v,
            Err(e) => return Err(e),
        };
        let pstate_epp = p.str(ARG_PSTATE_EPP);
        let rapl_package = match p.integer(ARG_RAPL_PACKAGE) {
            Ok(v) => v,
            Err(e) => return Err(e),
        };
        let rapl_zone = match p.integer(ARG_RAPL_ZONE) {
            Ok(v) => v,
            Err(e) => return Err(e),
        };
        let rapl_long_limit = match p.power(ARG_RAPL_LONG_LIMIT) {
            Ok(v) => v,
            Err(e) => return Err(e),
        };
        let rapl_long_window = match p.duration(ARG_RAPL_LONG_WINDOW) {
            Ok(v) => v,
            Err(e) => return Err(e),
        };
        let rapl_short_limit = match p.power(ARG_RAPL_SHORT_LIMIT) {
            Ok(v) => v,
            Err(e) => return Err(e),
        };
        let rapl_short_window = match p.duration(ARG_RAPL_SHORT_WINDOW) {
            Ok(v) => v,
            Err(e) => return Err(e),
        };
        let i915 = match p.card_ids(ARG_I915) {
            Ok(v) => v,
            Err(e) => return Err(e),
        };
        let i915_min = match p.frequency(ARG_I915_MIN) {
            Ok(v) => v,
            Err(e) => return Err(e),
        };
        let i915_max = match p.frequency(ARG_I915_MAX) {
            Ok(v) => v,
            Err(e) => return Err(e),
        };
        let i915_boost = match p.frequency(ARG_I915_BOOST) {
            Ok(v) => v,
            Err(e) => return Err(e),
        };
        Ok(Group {
            cpu,
            cpu_on,
            cpu_on_each,
            cpufreq_gov,
            cpufreq_min,
            cpufreq_max,
            i915,
            i915_min,
            i915_max,
            i915_boost,
            pstate_epb,
            pstate_epp,
            rapl_package,
            rapl_zone,
            rapl_long_limit,
            rapl_long_window,
            rapl_short_limit,
            rapl_short_window,
        })
    }
}

/// Why a chain of command lines could not be parsed.
pub enum ChainFault {
    /// An argument's value does not parse: the argument and the message.
    Flag(Seq<char>, Seq<char>),
    /// clap refused a command line of the chain.
    Clap,
}

/// The command line that follows `p` in a chain: the program's name, then the
/// values after `--`; `None` when there are none.
pub open spec fn next_argv(p: ParserV) -> Option<Seq<Seq<char>>> {
    if present_spec(p, ARG_OPTIONS@) {
        match values_spec(p, ARG_OPTIONS@) {
            Some(v) => if v.len() > 0 {
                Some(seq![NAME@] + v)
            } else {
                None
            },
            None => None,
        }
    } else {
        None
    }
}

/// The parsers of the chain that starts at `p`: `p`, then, while a command
/// line follows after `--`, the parser of that command line. A command line
/// that would not be shorter than the one before ends the chain (clap only
/// gives values that stand after `--`, so this does not happen).
pub open spec fn chain_spec(p: ParserV) -> Result<Seq<ParserV>, ChainFault>
    decreases p.argv.len(),
{
    match group_fault(p) {
        Some((f, m)) => Err(ChainFault::Flag(f, m)),
        None => match next_argv(p) {
            None => Ok(seq![p]),
            Some(a) => if a.len() < p.argv.len() {
                match clap_matches(app_spec(), a) {
                    Err(_) => Err(ChainFault::Clap),
                    Ok(ms) => match chain_spec(ParserV { argv: a, matches: ms, vars: p.vars }) {
                        Ok(ps) => Ok(seq![p] + ps),
                        Err(e) => Err(e),
                    },
                }
            } else {
                Ok(seq![p])
            },
        },
    }
}

/// `pre` followed by the parsers of `r`.
pub open spec fn prepend(pre: Seq<ParserV>, r: Result<Seq<ParserV>, ChainFault>) -> Result<
    Seq<ParserV>,
    ChainFault,
> {
    match r {
        Ok(ps) => Ok(pre + ps),
        Err(e) => Err(e),
    }
}

/// The parsers of `ps` that give values to set, in order.
pub open spec fn given(ps: Seq<ParserV>) -> Seq<ParserV>
    decreases ps.len(),
{
    if ps.len() == 0 {
        Seq::empty()
    } else if values_given(ps.last()) {
        given(ps.drop_last()).push(ps.last())
    } else {
        given(ps.drop_last())
    }
}

/// Whether each group of `gs` is the group of the parser at its place in `ps`.
pub open spec fn groups_rel(gs: Seq<Group>, ps: Seq<ParserV>) -> bool {
    gs.len() == ps.len() && forall|i: int| 0 <= i < gs.len() ==> #[trigger] group_rel(gs[i], ps[i])
}

/// The view of the parser in use: `owned` when there is one, else `p`.
pub open spec fn current(p: &Parser, owned: Option<Parser>) -> ParserV {
    match owned {
        Some(q) => q@,
        None => p@,
    }
}

impl Groups {
    /// The groups that the chain of command lines starting at `p` gives: one
    /// per command line that gives values, in order.
    pub fn try_from(p: &Parser) -> (r: Result<Groups, Error>)
        ensures
            match chain_spec(p@) {
                Ok(ps) => r matches Ok(gs) && groups_rel(gs.groups@, given(ps)),
                Err(ChainFault::Flag(f, m)) => r matches Err(e) && e.is_parse_flag(f, m),
                Err(ChainFault::Clap) => r matches Err(e) && e is Clap,
            },
    {
        let mut groups: Vec<Group> = Vec::new();
        let mut owned: Option<Parser> = None;
        let ghost mut pre: Seq<ParserV> = Seq::empty();
        assert(pre + seq![p@] =~= seq![p@]);
        assert(Seq::<ParserV>::empty() + seq![p@] =~= seq![p@]);
        loop
            invariant
                chain_spec(p@) == prepend(pre, chain_spec(current(p, owned))),
                groups_rel(groups@, given(pre)),
            decreases current(p, owned).argv.len(),
        {
            let ghost before = groups@;
            let cur: &Parser = match &owned {
                Some(q) => q,
                None => p,
            };
            assert(cur@ == current(p, owned));
            let g = match Group::try_from(cur) {
                Ok(g) => g,
                Err(e) => return Err(e),
            };
            let ghost pre_next = pre.push(cur@);
            assert(pre_next.drop_last() =~= pre);
            if g.has_values() {
                groups.push(g);
                assert(given(pre_next) == given(pre).push(cur@));
                assert forall|i: int| 0 <= i < groups@.len() implies #[trigger] group_rel(
                    groups@[i],
                    given(pre_next)[i],
                ) by {
                    if i < before.len() {
                        assert(group_rel(before[i], given(pre)[i]));
                    }
                }
            } else {
                assert(given(pre_next) == given(pre));
            }
            if !cur.arg_present(ARG_OPTIONS) {
                assert(pre + seq![cur@] =~= pre_next);
                proof { pre = pre_next; }
                return Ok(Groups { groups });
            }
            let mut v = match cur.arg_values(ARG_OPTIONS) {
                Some(v) => v,
                None => {
                    assert(pre + seq![cur@] =~= pre_next);
                    proof { pre = pre_next; }
                    return Ok(Groups { groups });
                },
            };
            if v.len() == 0 {
                assert(pre + seq![cur@] =~= pre_next);
                proof { pre = pre_next; }
                return Ok(Groups { groups });
            }
            let mut argv: Vec<String> = Vec::new();
            argv.push(String::from_str(NAME));
            argv.append(&mut v);
            assert(strings(argv@) =~= seq![NAME@] + values_spec(cur@, ARG_OPTIONS@)->0);
            if argv.len() >= cur.argv.len() {
                assert(pre + seq![cur@] =~= pre_next);
                proof { pre = pre_next; }
                return Ok(Groups { groups });
            }
            let vars = clone_pairs(&cur.vars);
            let ghost cur_view = cur@;
            let q = match Parser::new(argv, vars) {
                Ok(q) => q,
                Err(e) => return Err(e),
            };
            proof {
                assert(pre_next + chain_spec(q@)->Ok_0 =~= pre + (seq![cur_view] + chain_spec(q@)->Ok_0))
                    by {
                }
                pre = pre_next;
            }
            owned = Some(q);
        }
    }
}

// ---------------------------------------------------------------- Laws

/// Every argument may be given by its environment variable instead: when the
/// command line leaves an argument out, its value is that of the variable
/// `KNOBS_` + the name uppercased with `-` made `_`; when the command line
/// gives it, the variable is not read.
pub proof fn law_environment_stands_in(p: ParserV, name: Seq<char>)
    ensures
        value_of_spec(p, name) is None ==> arg_value_spec(p, name) == lookup_spec(
            p.vars,
            "KNOBS_"@ + replace_spec(uppercase(replace_spec(uppercase(name), '-', '_')), '-', '_'),
        ),
        value_of_spec(p, name) matches Some(v) ==> arg_value_spec(p, name) == Some(v),
{
}

/// A flag may be given by its environment variable instead: it is on when
/// the command line has it, or when its variable is set to anything but the
/// empty text, `0` or `false` in any case.
pub proof fn law_flag_from_environment(p: ParserV, name: Seq<char>, v: Seq<char>)
    requires
        !present_spec(p, name),
        lookup_spec(p.vars, arg_var_name(name)) == Some(v),
    ensures
        flag_spec(p, name) <==> (v.len() > 0 && v != "0"@ && lowercase(v) != "false"@),
{
}

} // verus!
