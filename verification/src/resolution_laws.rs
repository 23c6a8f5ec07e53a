//! What the probes of a toolchain come to.

use crate::environment::Ran;
use crate::model::{CaptureCompleteness, CommandOutcome, CommandTermination};
use crate::resolution;
use crate::resolution::{ProbeResult, ProbeStatus, Resolving, ToolProbe, ToolchainReport};
use crate::text;
use vstd::prelude::*;
use vstd::utf8::{decode_utf8, valid_utf8};

verus! {

/// A probe succeeds where it exited with zero, both its streams were read whole and
/// are text, and nothing of it or of an earlier one may still run. It was not found
/// where the system knows no such file, and timed out where its deadline ended it.
pub proof fn a_probe_succeeds_where_nothing_is_wrong(p: ProbeResult, uncertain: bool, timeout: u64)
    ensures
        resolution::probed(p, uncertain, timeout) is Succeeded <==> {
            &&& p.outcome == (CommandOutcome::Exited { code: 0 })
            &&& p.stdout_completeness == CaptureCompleteness::Complete
            &&& p.stderr_completeness == CaptureCompleteness::Complete
            &&& valid_utf8(p.stdout@)
            &&& valid_utf8(p.stderr@)
            &&& p.cleanup_confirmed
            &&& !uncertain
        },
        resolution::probed(p, uncertain, timeout) matches Ran::Succeeded { stdout, stderr } ==> stdout
            == decode_utf8(p.stdout@) && stderr == decode_utf8(p.stderr@),
        resolution::probed(p, uncertain, timeout) is NotFound <==> p.outcome == (
        CommandOutcome::LaunchFailed { os_code: Some(2) }),
        resolution::probed(p, uncertain, timeout) is TimedOut <==> (p.outcome
            matches CommandOutcome::Terminated { reason, .. } && reason
            == CommandTermination::Deadline),
        resolution::probed(p, uncertain, timeout) matches Ran::TimedOut { timeout: t, .. } ==> t
            == timeout,
{
}

/// Whether a probe found where a tool is.
pub open spec fn finds(p: ToolProbe, tool: Seq<char>) -> bool {
    p.component@ == tool && p.purpose@ == "resolve"@ && p.status == ProbeStatus::Available
}

/// Whether the first probe that found a tool says that it is there.
pub open spec fn is_at(probes: Seq<ToolProbe>, tool: Seq<char>, path: Seq<char>) -> bool {
    exists|i: int|
        0 <= i < probes.len() && finds(#[trigger] probes[i], tool) && path == text::trimmed(
            probes[i].stdout@,
        ) && forall|j: int| 0 <= j < i ==> !finds(#[trigger] probes[j], tool)
}

proof fn lemma_path(probes: Seq<ToolProbe>, tool: Seq<char>, from: nat)
    requires
        forall|j: int| 0 <= j < from ==> !finds(#[trigger] probes[j], tool),
        from <= probes.len(),
    ensures
        match resolution::path_of(probes, tool, from) {
            Some(path) => is_at(probes, tool, path),
            None => forall|j: int| 0 <= j < probes.len() ==> !finds(#[trigger] probes[j], tool),
        },
    decreases probes.len() - from,
{
    if from < probes.len() {
        if !finds(probes[from as int], tool) {
            lemma_path(probes, tool, from + 1);
        }
    }
}

/// A language server is launched with the tools that the probes found: where nothing
/// required is missing, a toolchain is selected and each of the four tools was found
/// by a probe, the first of which says where it is.
pub proof fn a_launch_names_what_was_found(report: ToolchainReport)
    ensures
        resolution::launch_of(report) is Ok <==> {
            &&& !report.blocked
            &&& report.selected_toolchain is Some
            &&& exists|i: int|
                0 <= i < report.probes@.len() && finds(
                    #[trigger] report.probes@[i],
                    "rust-analyzer"@,
                )
            &&& exists|i: int|
                0 <= i < report.probes@.len() && finds(#[trigger] report.probes@[i], "cargo"@)
            &&& exists|i: int|
                0 <= i < report.probes@.len() && finds(#[trigger] report.probes@[i], "rustc"@)
            &&& exists|i: int|
                0 <= i < report.probes@.len() && finds(#[trigger] report.probes@[i], "rustdoc"@)
        },
        resolution::launch_of(report) matches Ok(l) ==> {
            &&& l.selection == report.selected_toolchain->0@
            &&& is_at(report.probes@, "rust-analyzer"@, l.analyzer)
            &&& is_at(report.probes@, "cargo"@, l.cargo)
            &&& is_at(report.probes@, "rustc"@, l.rustc)
            &&& is_at(report.probes@, "rustdoc"@, l.rustdoc)
        },
{
    lemma_path(report.probes@, "rust-analyzer"@, 0);
    lemma_path(report.probes@, "cargo"@, 0);
    lemma_path(report.probes@, "rustc"@, 0);
    lemma_path(report.probes@, "rustdoc"@, 0);
}

/// What was found is launched only where probes were run and none of them may still
/// run.
pub proof fn a_launch_needs_finished_probes(report: ToolchainReport, s: Resolving)
    ensures
        resolution::resolved_launch(report, s) is Ok <==> resolution::launch_of(report) is Ok
            && !s.cleanup_uncertain && s.captures > 0,
        resolution::resolved_launch(report, s) is Ok ==> resolution::resolved_launch(report, s)
            == resolution::launch_of(report),
{
}

} // verus!
