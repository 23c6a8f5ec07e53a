use rustrace::doctor::{
    filesystem_checks, filesystem_probe_location, parse_args, recognizable_terminal, run_doctor,
    starter_package_remedy, storage_bytes, terminal_check, tool_checks, write_ghostty_keys,
    write_report, Check, DoctorArgs, DoctorFacts, FileSystemTrial, KeysOutcome, LeftBehind, Level,
    Ownership, PackageFailure, PlacedPath, Starter, StorageBudgets, Terminal, Theme, ThemeColor,
    Unpacked, WorkspaceLook, WorkspacePlace, USAGE,
};
use rustrace::ghostty::default_inspection;
use rustrace::resolution::{ProbeStatus, ToolProbe, ToolVersion, ToolchainReport};

const BUDGETS: StorageBudgets = StorageBudgets {
    storage_bytes: 2048 * 1024 * 1024,
    reserve_bytes: 64 * 1024 * 1024,
};

fn args(words: &[&str]) -> Vec<String> {
    words.iter().map(|word| (*word).to_owned()).collect()
}

fn probe(component: &str, status: ProbeStatus, stderr: &str) -> ToolProbe {
    ToolProbe {
        component: component.to_owned(),
        purpose: "version".to_owned(),
        status,
        stdout: String::new(),
        stderr: stderr.to_owned(),
    }
}

fn report(probes: Vec<ToolProbe>) -> ToolchainReport {
    ToolchainReport {
        blocked: false,
        selected_toolchain: Some("1.98.1".to_owned()),
        probes,
        versions: vec![ToolVersion {
            component: "rustup".to_owned(),
            version: "rustup 1.30".to_owned(),
        }],
    }
}

fn all_tools() -> ToolchainReport {
    report(
        ["rustup", "toolchain", "rustc", "cargo", "rustfmt", "clippy", "rust-analyzer"]
            .iter()
            .map(|name| probe(name, ProbeStatus::Available, ""))
            .collect(),
    )
}

fn sized(columns: u16, rows: u16, term: &str, colorterm: bool) -> Terminal {
    Terminal::Sized {
        columns,
        rows,
        term: term.to_owned(),
        colorterm,
    }
}

fn facts() -> DoctorFacts {
    DoctorFacts {
        terminal: Terminal::Absent,
        theme: Theme {
            name: "dark".to_owned(),
            auto_switch: true,
            warning: None,
            colors: vec![],
        },
        place: WorkspacePlace::Found("/w".to_owned()),
        look: WorkspaceLook::CanCreate,
        ownership: Ownership::NoState,
        starter: Starter::Extracted(3),
        left: None,
        scope: "workspace-parent filesystem at /".to_owned(),
        budgets: BUDGETS,
        unpacked: Some(Unpacked {
            trial: FileSystemTrial::Passed,
            available: Ok(4096 * 1024 * 1024),
            report: all_tools(),
            pin: "1.98.1".to_owned(),
        }),
    }
}

#[test]
fn arguments_name_a_package_and_at_most_a_directory() {
    assert_eq!(
        parse_args(&args(&["a.rta"])).unwrap(),
        DoctorArgs {
            package: "a.rta".to_owned(),
            workspace: None
        }
    );
    assert_eq!(
        parse_args(&args(&["a.rta", "--workspace", "x", "--workspace", "y"]))
            .unwrap()
            .workspace,
        Some("y".to_owned())
    );
    for line in [&[][..], &["a.rta", "--workspace"], &["a.rta", "more", "words"]] {
        assert_eq!(parse_args(&args(line)).unwrap_err(), USAGE);
    }
}

#[test]
fn a_ready_machine_has_no_blocker() {
    let (checks, code) = run_doctor(&facts());
    assert_eq!(code, 0);
    assert_eq!(
        checks.iter().map(|check| check.name).collect::<Vec<_>>(),
        [
            "terminal",
            "theme",
            "workspace",
            "disk space",
            "rustup",
            "assignment toolchain",
            "Cargo",
            "rustfmt",
            "Clippy",
            "rust-analyzer",
            "starter package",
            "session ownership",
            "filesystem capabilities",
            "cumulative storage headroom"
        ]
    );
    assert!(checks.iter().all(|check| check.level == Level::Fine && check.remedy.is_none()));
    assert_eq!(checks[4].detail, "rustup 1.30");
    assert_eq!(checks[6].detail, "installed and available");
    assert_eq!(
        checks[3].detail,
        "4096 MiB available on workspace-parent filesystem at /; 2048 MiB cumulative session budget required"
    );
    assert_eq!(
        checks[13].detail,
        "workspace-parent filesystem at / has 1984 MiB usable before the hard cap with 64 MiB reserved"
    );
}

#[test]
fn a_package_that_is_not_unpacked_blocks_what_needs_it() {
    let mut given = facts();
    given.starter = Starter::NoScratch;
    given.unpacked = None;
    given.place = WorkspacePlace::ParentNotDirectory;
    let (checks, code) = run_doctor(&given);
    assert_eq!(code, 1);
    let level = |name: &str| checks.iter().find(|check| check.name == name).unwrap().level;
    assert_eq!(level("disk space"), Level::Blocker);
    assert_eq!(level("Cargo"), Level::Blocker);
    assert_eq!(level("Clippy"), Level::Warning);
    assert_eq!(level("session ownership"), Level::Blocker);
    assert_eq!(level("workspace"), Level::Blocker);
    assert!(checks
        .iter()
        .all(|check| check.remedy.is_some() == (check.level != Level::Fine)));
}

#[test]
fn what_is_left_behind_blocks_a_package_that_was_fine() {
    let mut given = facts();
    given.left = Some(LeftBehind {
        error: "busy".to_owned(),
        path: "/tmp/x".to_owned(),
    });
    let (checks, code) = run_doctor(&given);
    assert_eq!(code, 1);
    let starter = checks.iter().find(|check| check.name == "starter package").unwrap();
    assert_eq!(starter.detail, "scratch cleanup failed after validation: busy");
    assert_eq!(
        starter.remedy.as_deref(),
        Some("Remove the temporary directory /tmp/x, then rerun doctor.")
    );
}

#[test]
fn tools_fail_with_a_phrase_and_the_first_line_of_their_error() {
    let mut found = report(vec![
        probe("rustup", ProbeStatus::NotFound, ""),
        probe("toolchain", ProbeStatus::Available, ""),
        probe("toolchain", ProbeStatus::Failed, "\n  not \u{7}installed \nmore\n"),
        probe("clippy", ProbeStatus::TimedOut, ""),
        probe("rustfmt", ProbeStatus::InvalidOutput, ""),
    ]);
    found.selected_toolchain = None;
    let checks = tool_checks(Some(&found), Some("1.98.1"));
    assert_eq!(checks[0].detail, "version probe found no executable");
    assert_eq!(checks[0].level, Level::Blocker);
    assert_eq!(checks[1].detail, "version probe failed (not \\u{7}installed)");
    assert_eq!(
        checks[1].remedy.as_deref(),
        Some("Run rustup toolchain install 1.98.1, then rerun doctor.")
    );
    assert_eq!(
        checks[2].detail,
        "not checked because a required earlier probe failed"
    );
    assert_eq!(checks[3].detail, "version probe returned unusable output");
    assert_eq!(checks[4].detail, "version probe timed out");
    assert_eq!(checks[4].level, Level::Warning);
    let unpinned = tool_checks(Some(&found), None);
    assert_eq!(
        unpinned[2].remedy.as_deref(),
        Some("Repair the installed the assignment toolchain toolchain, then rerun doctor.")
    );
}

#[test]
fn a_terminal_needs_room_and_colors() {
    let check = |terminal: Terminal| terminal_check(&terminal);
    assert_eq!(check(Terminal::Absent).level, Level::Fine);
    assert_eq!(check(Terminal::Unmeasured("x".to_owned())).level, Level::Blocker);
    assert_eq!(
        check(sized(79, 24, "xterm", false)).detail,
        "79x24 attached; at least 80x24 required"
    );
    assert_eq!(check(sized(80, 24, "dumb", true)).level, Level::Blocker);
    assert_eq!(
        check(sized(80, 24, "XTerm-256Color", false)).detail,
        "80x24; color and bracketed-paste support detected from TERM=XTerm-256Color"
    );
    assert_eq!(check(sized(80, 24, "odd", false)).level, Level::Warning);
    assert_eq!(check(sized(80, 24, "odd", true)).level, Level::Fine);
    assert!(recognizable_terminal("TMUX") && !recognizable_terminal("vt10"));
}

#[test]
fn too_little_space_blocks_twice() {
    let (disk, trial, headroom) = filesystem_checks(
        &FileSystemTrial::Elsewhere,
        &Ok(BUDGETS.storage_bytes - 1),
        "here",
        BUDGETS,
    );
    assert_eq!(disk.level, Level::Blocker);
    assert_eq!(trial.level, Level::Warning);
    assert_eq!(
        headroom.detail,
        "here cannot fit the full session budget and recovery reserve"
    );
    let (disk, _, headroom) =
        filesystem_checks(&FileSystemTrial::Passed, &Err("lost".to_owned()), "here", BUDGETS);
    assert_eq!(
        disk.detail,
        "available storage on here could not be measured safely: lost"
    );
    assert_eq!(headroom.detail, "headroom on here is unavailable");
    assert_eq!(storage_bytes(10, 4096), 40960);
    assert_eq!(storage_bytes(u64::MAX, 2), u64::MAX);
}

#[test]
fn the_file_system_is_probed_where_the_workspace_is() {
    let placed = |path: &str, parent: &str| {
        Some(PlacedPath {
            path: path.to_owned(),
            parent: parent.to_owned(),
        })
    };
    let opened = filesystem_probe_location(&placed("/a/w", "/a"), &Some("/real/w".to_owned()), &None);
    assert_eq!(opened.base.as_deref(), Some("/real/w"));
    assert_eq!(opened.scope, "workspace filesystem at /real/w");
    let planned = filesystem_probe_location(&placed("/a/w", "/a"), &None, &None);
    assert_eq!(planned.target, "/a");
    let beside = filesystem_probe_location(&None, &None, &placed("/p/assignment.work", "/p"));
    assert_eq!(beside.scope, "workspace-parent filesystem at /p");
    let nowhere = filesystem_probe_location(&None, &None, &None);
    assert_eq!((nowhere.base, nowhere.scope.as_str()), (None, "unavailable filesystem"));
}

#[test]
fn the_remedy_goes_by_the_kind_of_error() {
    let remedy = |failure, causes: &[bool]| starter_package_remedy(failure, &causes.to_vec(), "/p");
    assert!(remedy(PackageFailure::Structure, &[]).starts_with("Ask the course staff"));
    assert!(remedy(PackageFailure::Io, &[]).starts_with("Make assignment.rta readable"));
    assert_eq!(
        remedy(PackageFailure::Other, &[false, true]),
        "Make the workspace parent /p writable, then rerun doctor."
    );
    assert!(remedy(PackageFailure::Other, &[false]).starts_with("Re-download"));
}

#[test]
fn the_report_is_shown_safely_and_summed_up() {
    let checks = vec![
        Check::ok("one", "fine \u{1b}[0m".to_owned()),
        Check::warning("two", "odd".to_owned(), "mend".to_owned()),
    ];
    let colors = vec![
        ThemeColor {
            field: "text".to_owned(),
            color: "#ffffff".to_owned(),
            built_in: None,
        },
        ThemeColor {
            field: "border".to_owned(),
            color: "#000000".to_owned(),
            built_in: Some("dark".to_owned()),
        },
    ];
    let inspection = default_inspection();
    let lines = write_report("0.1.0", &checks, &colors, Some(&inspection));
    assert_eq!(lines[0], "rustrace 0.1.0");
    assert_eq!(lines[1], "OK one: fine \\u{1b}[0m");
    assert_eq!(lines[2], "WARNING two: odd");
    assert_eq!(lines[3], "  Remedy: mend");
    assert_eq!(lines[4], "  text = #ffffff (source: custom)");
    assert_eq!(lines[5], "  border = #000000 (source: dark built-in)");
    assert_eq!(lines[6], "Ghostty key setup:");
    assert_eq!(lines[7], "  Ghostty CLI unavailable; assuming Ghostty defaults");
    assert_eq!(lines[8], "  Ghostty key super+arrow_up: owned (jump_to_prompt:-1)");
    assert_eq!(lines.last().unwrap(), "Doctor summary: 1 OK, 1 WARNING, 0 BLOCKER.");
}

#[test]
fn writing_the_keys_is_told() {
    let (lines, code) = write_ghostty_keys(&KeysOutcome::UpToDate("/k".to_owned()));
    assert_eq!(code, 0);
    assert_eq!(lines[0], "Ghostty keys already up to date at /k");
    assert_eq!(
        lines[3],
        "Reload using Ghostty's own super+shift+,=reload_config binding (⌘⇧,)."
    );
    assert_eq!(
        write_ghostty_keys(&KeysOutcome::Failed("no".to_owned())),
        (vec!["Ghostty keys not written: no".to_owned()], 1)
    );
}
