//! Parsing, modelling and planning of Linux power and performance knobs.

pub mod cli;
pub mod cpu;
pub mod cpufreq;
pub mod drm;
pub mod env;
pub mod format;
pub mod i915;
pub mod intel_pstate;
pub mod intel_rapl;
pub mod sysfs;
pub mod text;
