//! What the checks of a machine come to.

use crate::doctor;
use crate::doctor::{
    Checked, DoctorFacts, FileSystemTrial, Level, Starter, StorageBudgets, Terminal, Theme,
};
use crate::resolution::{ProbeStatus, ToolProbe, ToolchainReport};
use crate::text;
use vstd::prelude::*;

verus! {

/// A terminal is fine from eighty columns by twenty-four rows on, where its kind is
/// known to show colors. A smaller one and one that shows none is in the way, and one
/// of which nothing is known is doubtful. Where there is none nothing is asked of it.
pub proof fn a_terminal_is_fine_from_its_size_on(terminal: Terminal)
    ensures
        terminal is Absent ==> doctor::screen_check(terminal).level == Level::Fine,
        terminal is Unmeasured ==> doctor::screen_check(terminal).level == Level::Blocker,
        terminal matches Terminal::Sized { columns, rows, term, colorterm } ==> {
            let level = doctor::screen_check(terminal).level;
            let known = text::lowered_holds(term@, "ansi"@) || text::lowered_holds(
                term@,
                "color"@,
            ) || text::lowered_holds(term@, "konsole"@) || text::lowered_holds(term@, "linux"@)
                || text::lowered_holds(term@, "screen"@) || text::lowered_holds(term@, "tmux"@)
                || text::lowered_holds(term@, "vt100"@) || text::lowered_holds(term@, "xterm"@);
            let large = columns >= 80 && rows >= 24;
            &&& level == Level::Blocker <==> !large || term@ == "dumb"@
            &&& level == Level::Fine <==> large && term@ != "dumb"@ && (known || colorterm)
            &&& level == Level::Warning <==> large && term@ != "dumb"@ && !known && !colorterm
        },
{
}

/// A workspace is fine where it can be used or made, and nothing of it is doubtful.
pub proof fn a_workspace_is_fine_where_it_can_be_used(f: DoctorFacts)
    ensures
        doctor::workspace_check_of(f).level == Level::Fine <==> f.place is Found && (f.look
            is Usable || f.look is CanCreate),
        doctor::workspace_check_of(f).level != Level::Warning,
        doctor::ownership_of(f).level == Level::Fine <==> f.place is Found && (f.ownership
            is NoState || f.ownership is Released),
        doctor::ownership_of(f).level != Level::Warning,
        doctor::workspace_check_of(f).name == "workspace"@,
        doctor::ownership_of(f).name == "session ownership"@,
{
}

/// A package is fine where it was unpacked and nothing was left behind.
pub proof fn a_package_is_fine_where_it_was_unpacked(f: DoctorFacts)
    ensures
        doctor::starter_check(f.starter, f.left).level == Level::Fine <==> f.left is None
            && f.starter is Extracted,
        doctor::starter_check(f.starter, f.left).level != Level::Warning,
        f.left is None ==> (f.starter matches Starter::Extracted(files) ==> doctor::starter_check(
            f.starter,
            f.left,
        ).detail == "self-contained package: manifest and "@ + text::decimal(files as nat)
            + " starter files validated and extracted safely"@),
{
}

/// There is room where what is available is no less than the budget of a session:
/// both checks of it say the same.
pub proof fn there_is_room_for_the_budget(
    available: Result<u64, String>,
    scope: Seq<char>,
    b: StorageBudgets,
)
    ensures
        doctor::disk_check(available, scope, b).level == Level::Fine <==> available is Ok
            && available->Ok_0 >= b.storage_bytes,
        doctor::disk_check(available, scope, b).level != Level::Warning,
        doctor::headroom_check(available, scope, b).level == doctor::disk_check(
            available,
            scope,
            b,
        ).level,
{
}

/// A file system is fine where it passed the trial. It is in doubt where no trial
/// could be made beside it.
pub proof fn a_file_system_is_fine_where_it_passed(trial: FileSystemTrial, scope: Seq<char>)
    ensures
        doctor::trial_check(trial, scope).level == Level::Fine <==> trial is Passed,
        doctor::trial_check(trial, scope).level == Level::Warning <==> trial is Elsewhere,
        doctor::trial_check(trial, scope).level == Level::Blocker <==> trial is Unidentified
            || trial is Failed,
{
}

/// Whether every probe of a tool, and at least one, found it available.
pub open spec fn is_there(probes: Seq<ToolProbe>, tool: Seq<char>) -> bool {
    &&& exists|i: int| 0 <= i < probes.len() && (#[trigger] probes[i]).component@ == tool
    &&& forall|i: int|
        0 <= i < probes.len() && (#[trigger] probes[i]).component@ == tool ==> probes[i].status
            == ProbeStatus::Available
}

/// A tool that is there is fine. One that is not is in the way where it is needed:
/// rustup, the toolchain and Cargo are, and the formatter, the linter and the
/// language server are not. The tools are told in this order.
pub proof fn a_missing_tool_is_in_the_way_where_it_is_needed(r: ToolchainReport, pin: Seq<char>)
    ensures
        ({
            let tools = doctor::tools_of(Some(r), Some(pin));
            &&& tools.len() == 6
            &&& tools[0].name == "rustup"@
            &&& tools[0].level == if is_there(r.probes@, "rustup"@) {
                Level::Fine
            } else {
                Level::Blocker
            }
            &&& tools[1].name == "assignment toolchain"@
            &&& tools[1].level == if r.selected_toolchain is Some && is_there(
                r.probes@,
                "toolchain"@,
            ) && is_there(r.probes@, "rustc"@) {
                Level::Fine
            } else {
                Level::Blocker
            }
            &&& tools[2].name == "Cargo"@
            &&& tools[2].level == if is_there(r.probes@, "cargo"@) {
                Level::Fine
            } else {
                Level::Blocker
            }
            &&& tools[3].name == "rustfmt"@
            &&& tools[3].level == if is_there(r.probes@, "rustfmt"@) {
                Level::Fine
            } else {
                Level::Warning
            }
            &&& tools[4].name == "Clippy"@
            &&& tools[4].level == if is_there(r.probes@, "clippy"@) {
                Level::Fine
            } else {
                Level::Warning
            }
            &&& tools[5].name == "rust-analyzer"@
            &&& tools[5].level == if is_there(r.probes@, "rust-analyzer"@) {
                Level::Fine
            } else {
                Level::Warning
            }
        }),
{
    assert(is_there(r.probes@, "rustup"@) == doctor::is_available(r.probes@, "rustup"@));
    assert(is_there(r.probes@, "toolchain"@) == doctor::is_available(r.probes@, "toolchain"@));
    assert(is_there(r.probes@, "rustc"@) == doctor::is_available(r.probes@, "rustc"@));
    assert(is_there(r.probes@, "cargo"@) == doctor::is_available(r.probes@, "cargo"@));
    assert(is_there(r.probes@, "rustfmt"@) == doctor::is_available(r.probes@, "rustfmt"@));
    assert(is_there(r.probes@, "clippy"@) == doctor::is_available(r.probes@, "clippy"@));
    assert(is_there(r.probes@, "rust-analyzer"@) == doctor::is_available(
        r.probes@,
        "rust-analyzer"@,
    ));
}

/// A theme is fine unless something was wrong with the configuration.
pub proof fn a_theme_is_fine_without_a_warning(theme: Theme)
    ensures
        doctor::theme_check_of(theme).level == Level::Fine <==> theme.warning is None,
        doctor::theme_check_of(theme).level == Level::Warning <==> theme.warning is Some,
{
}

/// Fourteen things are checked, always in the same order.
pub proof fn fourteen_things_are_checked(f: DoctorFacts)
    ensures
        ({
            let all = doctor::all_checks(f);
            &&& all.len() == 14
            &&& all[0].name == "terminal"@
            &&& all[1].name == "theme"@
            &&& all[2].name == "workspace"@
            &&& all[3].name == "disk space"@
            &&& all[4].name == "rustup"@
            &&& all[5].name == "assignment toolchain"@
            &&& all[6].name == "Cargo"@
            &&& all[7].name == "rustfmt"@
            &&& all[8].name == "Clippy"@
            &&& all[9].name == "rust-analyzer"@
            &&& all[10].name == "starter package"@
            &&& all[11].name == "session ownership"@
            &&& all[12].name == "filesystem capabilities"@
            &&& all[13].name == "cumulative storage headroom"@
        }),
{
}

/// Every check is counted once: as many are fine, doubtful and in the way as there
/// are checks, however they are grouped.
pub proof fn every_check_is_counted_once(checks: Seq<Checked>)
    ensures
        doctor::level_count(checks, Level::Fine) + doctor::level_count(checks, Level::Warning)
            + doctor::level_count(checks, Level::Blocker) == checks.len(),
    decreases checks.len(),
{
    if checks.len() > 0 {
        every_check_is_counted_once(checks.drop_last());
    }
}

/// What is counted of two lists is counted of each.
pub proof fn counts_of_checks_add_up(a: Seq<Checked>, b: Seq<Checked>, level: Level)
    ensures
        doctor::level_count(a + b, level) == doctor::level_count(a, level) + doctor::level_count(
            b,
            level,
        ),
    decreases b.len(),
{
    if b.len() == 0 {
        assert(a + b =~= a);
    } else {
        assert((a + b).drop_last() =~= a + b.drop_last());
        counts_of_checks_add_up(a, b.drop_last(), level);
    }
}

/// One check is counted under its own level.
pub proof fn a_check_is_counted_under_its_level(c: Checked, level: Level)
    ensures
        doctor::level_count(seq![c], level) == if c.level == level {
            1nat
        } else {
            0nat
        },
{
    reveal_with_fuel(doctor::level_count, 2);
    assert(seq![c].drop_last() =~= Seq::empty());
}

/// A check is told with its level, its name and what was seen, and with its remedy
/// where it has one. The summary tells how many are fine, doubtful and in the way.
pub proof fn a_check_is_told(c: Checked, checks: Seq<Checked>)
    ensures
        doctor::summary_line(checks) == "Doctor summary: "@ + text::decimal(
            doctor::level_count(checks, Level::Fine),
        ) + " OK, "@ + text::decimal(doctor::level_count(checks, Level::Warning)) + " WARNING, "@
            + text::decimal(doctor::level_count(checks, Level::Blocker)) + " BLOCKER."@,
        doctor::check_lines(c).len() == if c.remedy is Some {
            2nat
        } else {
            1nat
        },
        c.level == Level::Fine ==> doctor::check_lines(c)[0] == "OK"@ + " "@ + c.name + ": "@
            + crate::display::label_of(c.detail, 2048),
        c.level == Level::Warning ==> doctor::check_lines(c)[0] == "WARNING"@ + " "@ + c.name
            + ": "@ + crate::display::label_of(c.detail, 2048),
        c.level == Level::Blocker ==> doctor::check_lines(c)[0] == "BLOCKER"@ + " "@ + c.name
            + ": "@ + crate::display::label_of(c.detail, 2048),
        c.remedy is Some ==> doctor::check_lines(c)[1] == "  Remedy: "@ + crate::display::label_of(
            c.remedy->0,
            2048,
        ),
{
}

/// The checks are told one behind the other.
pub proof fn checks_are_told_in_order(a: Seq<Checked>, b: Seq<Checked>)
    ensures
        doctor::checks_lines(a + b) == doctor::checks_lines(a) + doctor::checks_lines(b),
    decreases b.len(),
{
    if b.len() == 0 {
        assert(a + b =~= a);
        assert(doctor::checks_lines(a) + Seq::<Seq<char>>::empty() =~= doctor::checks_lines(a));
    } else {
        assert((a + b).drop_last() =~= a + b.drop_last());
        checks_are_told_in_order(a, b.drop_last());
        lemma_regroup(
            doctor::checks_lines(a),
            doctor::checks_lines(b.drop_last()),
            doctor::check_lines(b.last()),
        );
        assert((a + b).last() == b.last());
    }
}

proof fn lemma_regroup<T>(x: Seq<T>, y: Seq<T>, z: Seq<T>)
    ensures
        (x + y) + z == x + (y + z),
{
    assert((x + y) + z =~= x + (y + z));
}

/// The workspace is the last one that was named, each behind its own flag.
pub proof fn the_last_named_workspace_counts(
    args: Seq<Seq<char>>,
    from: nat,
    earlier: Option<Seq<char>>,
)
    requires
        from <= args.len(),
    ensures
        from == args.len() ==> doctor::workspace_named(args, from, earlier) == Some(earlier),
        from + 2 <= args.len() && args[from as int] == "--workspace"@ ==> doctor::workspace_named(
            args,
            from,
            earlier,
        ) == doctor::workspace_named(args, from + 2, Some(args[from + 1int])),
        from < args.len() && args[from as int] != "--workspace"@ ==> doctor::workspace_named(
            args,
            from,
            earlier,
        ) is None,
        from + 1 == args.len() ==> doctor::workspace_named(args, from, earlier) is None,
{
}

} // verus!
