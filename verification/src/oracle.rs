//! Whether an external ROFF processor can serve as an oracle.
//!
//! Two renderings mean the same where a processor typesets both to the same
//! plain text. Before a comparison rests on that, the processor is probed by
//! asking for its version. What follows from the probe is decided here; to
//! run the processor is the caller's business.

use crate::text::starts_with;
use vstd::prelude::*;

verus! {

/// How the banner of a tool begins that answers to the processor's name on
/// macOS and cannot typeset: an old shell.
pub const BROKEN_BANNER: &'static str = "GNU bash, version 3";

/// The platform that the comparison runs on.
#[derive(Debug, Clone, Copy, PartialEq, Eq)]
pub enum Platform {
    Linux,
    MacOs,
    Other,
}

/// What came of asking the processor for its version.
#[derive(Debug, Clone, Copy, PartialEq, Eq)]
pub enum Probe {
    /// The processor was not found or could not be started.
    NotRunnable,
    /// It ran and reported failure.
    Failed,
    /// It ran and reported success.
    Succeeded,
}

/// What to do with a comparison.
#[derive(Debug, Clone, Copy, PartialEq, Eq)]
pub enum Verdict {
    /// Make the comparison.
    Proceed,
    /// Leave the comparison out: the processor is not there, or not usable.
    Skip,
    /// The setup is broken: the processor is missing where it is expected.
    MissingTool,
    /// The processor is there and does not work.
    BrokenTool,
}

/// Whether the run is part of continuous integration: it is where either of
/// the two variables that mark such a run is set, whatever it holds.
pub open spec fn is_ci_spec(ci_set: bool, tf_build_set: bool) -> bool {
    ci_set || tf_build_set
}

/// Whether the banner is that of the old shell.
pub open spec fn is_broken_banner_spec(banner: Seq<char>) -> bool {
    BROKEN_BANNER@.is_prefix_of(banner)
}

/// The verdict on a probe.
///
/// A processor that cannot be run means that the comparison is left out;
/// under continuous integration on Linux, where it is expected to be
/// installed, it means a broken setup. One that reports failure is broken.
/// One that reports success is used, unless on macOS its banner is that of
/// the old shell.
pub open spec fn verdict_spec(
    probe: Probe,
    banner: Seq<char>,
    ci: bool,
    platform: Platform,
) -> Verdict {
    match probe {
        Probe::NotRunnable => if ci && platform is Linux {
            Verdict::MissingTool
        } else {
            Verdict::Skip
        },
        Probe::Failed => Verdict::BrokenTool,
        Probe::Succeeded => if platform is MacOs && is_broken_banner_spec(banner) {
            Verdict::Skip
        } else {
            Verdict::Proceed
        },
    }
}

/// Whether the run is part of continuous integration, given for each of
/// the two variables that mark such a run whether it is set.
pub fn is_ci(ci_set: bool, tf_build_set: bool) -> (ci: bool)
    ensures
        ci == is_ci_spec(ci_set, tf_build_set),
{
    ci_set || tf_build_set
}

/// Whether the banner is that of the old shell.
pub fn is_broken_banner(banner: &str) -> (b: bool)
    ensures
        b == is_broken_banner_spec(banner@),
{
    starts_with(banner, BROKEN_BANNER)
}

/// Decide what to do with a comparison, from the outcome of the probe, what
/// the processor printed, whether the run is part of continuous integration
/// and the platform.
pub fn verdict(probe: Probe, banner: &str, ci: bool, platform: Platform) -> (v: Verdict)
    ensures
        v == verdict_spec(probe, banner@, ci, platform),
{
    match probe {
        Probe::NotRunnable => match platform {
            Platform::Linux => if ci {
                Verdict::MissingTool
            } else {
                Verdict::Skip
            },
            _ => Verdict::Skip,
        },
        Probe::Failed => Verdict::BrokenTool,
        Probe::Succeeded => match platform {
            Platform::MacOs => if is_broken_banner(banner) {
                Verdict::Skip
            } else {
                Verdict::Proceed
            },
            _ => Verdict::Proceed,
        },
    }
}

} // verus!
