# knobs

A verified library for viewing and setting Linux power and performance
values (cpu online state, cpufreq, intel_pstate, intel_rapl and i915 gpu
frequencies), and the `knobs` program around it.

- `src/` is the library, proved with Verus: the command line and its
  environment-variable fallbacks, the parsing of ids, toggles, frequencies,
  powers and durations, the groups of values and what each sets on each
  subsystem, the plan that applies them, the sysfs paths, the records of
  what was read, the profile and state paths, and the tables that are
  printed.
- `app/` is the program: it reads and writes sysfs and the profile files,
  samples rapl energy, and writes frequencies and powers with their units.
- `tests/` exercises the library on concrete values.

Differences from what one might expect of the program:

- Nvidia cards (`nvml`, `--show-nvml`, `--nvml-*`) are not supported: that
  support needs the `nvml_facade` crate, which this project does not depend
  on.
- Paths are kept as UTF-8 text. A user configuration or state directory
  whose path is not UTF-8 counts as absent, so only the system directories
  are searched then.
- The system directories (`/etc`, `/var/lib`) can be replaced when the
  program is built, with the environment variables `KNOBS_SYS_CONFIG_DIR`
  and `KNOBS_SYS_STATE_DIR`.
