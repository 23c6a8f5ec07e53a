//! What a Cargo command is started with.

use crate::cargo_policy::{
    action_word, among, changes_dependencies, compiles, validate_command, validated, Accepted,
    CargoAction, ConsoleCommand, Line, PreparationError,
};
use crate::text;
use vstd::prelude::*;

verus! {

pub const MAX_PATH_BYTES: usize = 4096;

/// The tools that a command runs with: paths that were resolved for a selected
/// toolchain. `selection_is_valid` says that the selection is a name of one.
pub struct ResolvedTools {
    pub rustup: String,
    pub selection: String,
    pub selection_is_valid: bool,
    pub cargo: String,
    pub rustc: String,
    pub rustdoc: String,
    pub cargo_clippy: Option<String>,
    /// The driver and the formatter.
    pub formatter: Option<(String, String)>,
}

/// What is said of the environment of a command: fixed words, never values.
#[derive(Clone, Debug, PartialEq, Eq)]
pub struct EnvironmentSummary {
    pub policy_version: u32,
    pub retained_names: Vec<&'static str>,
    pub compiler_and_tools: &'static str,
    pub wrappers_and_extra_flags: &'static str,
    pub cargo_network: &'static str,
    pub cargo_lockfile: &'static str,
    pub cargo_output: &'static str,
    pub configuration_files: &'static str,
}

/// A command that is ready: a program, its arguments, where it runs, and what
/// its environment holds beside the names that it keeps.
pub struct PreparedCargoCommand {
    pub program: String,
    pub args: Vec<String>,
    pub directory: String,
    pub environment: Vec<(String, String)>,
    pub summary: EnvironmentSummary,
}

// Paths.

/// Whether a part of a path between slashes, from a place on, is the parent.
pub open spec fn names_parent(path: Seq<char>) -> bool {
    exists|i: int| #[trigger] parent_at(path, i)
}

pub open spec fn parent_at(path: Seq<char>, i: int) -> bool {
    &&& 0 <= i <= path.len() - 2
    &&& path[i] == '.'
    &&& path[i + 1] == '.'
    &&& i == 0 || path[i - 1] == '/'
    &&& i + 2 == path.len() || path[i + 2] == '/'
}

/// A path that is absolute, not too long, without characters that control and
/// without a step to a parent.
pub open spec fn is_valid_path(path: Seq<char>) -> bool {
    &&& path.len() > 0
    &&& path[0] == '/'
    &&& text::byte_len(path) <= MAX_PATH_BYTES
    &&& forall|i: int| 0 <= i < path.len() ==> !text::is_control(#[trigger] path[i])
    &&& !names_parent(path)
}

pub fn validate_path(path: &str) -> (r: Result<(), PreparationError>)
    ensures
        r == if is_valid_path(path@) {
            Ok::<(), PreparationError>(())
        } else {
            Err(PreparationError::InvalidPath)
        },
{
    let chars = text::chars_of(path);
    if chars.len() == 0 || chars[0] != '/' || text::str_bytes(path) > MAX_PATH_BYTES {
        return Err(PreparationError::InvalidPath);
    }
    proof {
        text::lemma_byte_len_ge(path@);
    }
    let n: usize = chars.len();
    let mut i: usize = 0;
    while i < n
        invariant
            i <= n,
            n == chars@.len(),
            n <= MAX_PATH_BYTES,
            chars@ == path@,
            forall|j: int| 0 <= j < i ==> !text::is_control(#[trigger] path@[j]),
            forall|j: int| 0 <= j < i ==> !(#[trigger] parent_at(path@, j)),
        decreases n - i,
    {
        if text::control(chars[i]) {
            return Err(PreparationError::InvalidPath);
        }
        let parent = i + 2 <= n && chars[i] == '.' && chars[i + 1] == '.' && (i == 0 || chars[i - 1]
            == '/') && (i + 2 == n || chars[i + 2] == '/');
        assert(parent == parent_at(path@, i as int));
        if parent {
            return Err(PreparationError::InvalidPath);
        }
        i += 1;
    }
    assert(!names_parent(path@)) by {
        assert forall|j: int| !(#[trigger] parent_at(path@, j)) by {}
    }
    Ok(())
}

/// A name below a directory.
pub open spec fn below(directory: Seq<char>, name: Seq<char>) -> Seq<char> {
    if directory.len() > 0 && directory.last() == '/' {
        directory + name
    } else {
        directory + "/"@ + name
    }
}

fn path_below(directory: &str, name: &str) -> (r: String)
    ensures
        r@ == below(directory@, name@),
{
    let chars = text::chars_of(directory);
    let mut r = directory.to_owned();
    if !(chars.len() > 0 && chars[chars.len() - 1] == '/') {
        r.push_str("/");
    }
    r.push_str(name);
    r
}

// The names that are kept.

pub open spec fn kept_name(i: int) -> Seq<char> {
    if i == 0 {
        "HOME"@
    } else if i == 1 {
        "CARGO_HOME"@
    } else if i == 2 {
        "RUSTUP_HOME"@
    } else if i == 3 {
        "PATH"@
    } else if i == 4 {
        "TMPDIR"@
    } else if i == 5 {
        "TMP"@
    } else {
        "TEMP"@
    }
}

pub const KEPT_NAMES: usize = 7;

fn kept(i: usize) -> (r: &'static str)
    ensures
        r@ == kept_name(i as int),
{
    if i == 0 {
        "HOME"
    } else if i == 1 {
        "CARGO_HOME"
    } else if i == 2 {
        "RUSTUP_HOME"
    } else if i == 3 {
        "PATH"
    } else if i == 4 {
        "TMPDIR"
    } else if i == 5 {
        "TMP"
    } else {
        "TEMP"
    }
}

pub open spec fn static_texts(v: Seq<&'static str>) -> Seq<Seq<char>> {
    Seq::new(v.len(), |i: int| v[i]@)
}

/// The first names of the list that the environment has, in the list's order.
pub open spec fn retained(present: Seq<String>, n: nat) -> Seq<Seq<char>>
    decreases n,
{
    if n == 0 {
        Seq::empty()
    } else if among(present, kept_name(n - 1)) {
        retained(present, (n - 1) as nat).push(kept_name(n - 1))
    } else {
        retained(present, (n - 1) as nat)
    }
}

fn holds_name(present: &Vec<String>, name: &str) -> (r: bool)
    ensures
        r == among(present@, name@),
{
    let mut i: usize = 0;
    while i < present.len()
        invariant
            i <= present@.len(),
            forall|j: int| 0 <= j < i ==> (#[trigger] present@[j])@ != name@,
        decreases present@.len() - i,
    {
        if text::str_eq(present[i].as_str(), name) {
            return true;
        }
        i += 1;
    }
    false
}

/// The names of the environment that a command keeps. No others are passed on.
pub fn retain_execution_environment(present: &Vec<String>) -> (r: Vec<&'static str>)
    ensures
        static_texts(r@) == retained(present@, KEPT_NAMES as nat),
{
    let mut r: Vec<&'static str> = Vec::new();
    let mut i: usize = 0;
    assert(static_texts(r@) =~= Seq::<Seq<char>>::empty());
    while i < KEPT_NAMES
        invariant
            i <= KEPT_NAMES,
            static_texts(r@) == retained(present@, i as nat),
        decreases KEPT_NAMES - i,
    {
        let name = kept(i);
        if holds_name(present, name) {
            let ghost before = r@;
            r.push(name);
            assert(static_texts(r@) =~= static_texts(before).push(name@));
        }
        i += 1;
    }
    r
}

// Preparing.

pub struct Tools {
    pub selection: Seq<char>,
    pub cargo: Seq<char>,
    pub rustc: Seq<char>,
    pub rustdoc: Seq<char>,
}

/// What the environment is set to: the tools, no wrappers, no flags, output in
/// the workspace, nothing installed by itself.
pub open spec fn fixed_environment(t: Tools, workspace: Seq<char>) -> Seq<(Seq<char>, Seq<char>)> {
    seq![
        ("RUSTUP_AUTO_INSTALL"@, "0"@),
        ("RUSTUP_TOOLCHAIN"@, t.selection),
        ("CARGO"@, t.cargo),
        ("RUSTC"@, t.rustc),
        ("RUSTDOC"@, t.rustdoc),
        ("RUSTC_WRAPPER"@, ""@),
        ("RUSTC_WORKSPACE_WRAPPER"@, ""@),
        ("CARGO_ENCODED_RUSTFLAGS"@, ""@),
        ("CARGO_ENCODED_RUSTDOCFLAGS"@, ""@),
        ("CARGO_TARGET_DIR"@, below(workspace, "target"@)),
        ("CARGO_BUILD_BUILD_DIR"@, "target"@),
        ("CARGO_TERM_COLOR"@, "never"@),
        ("CARGO_TERM_PROGRESS_WHEN"@, "never"@),
    ]
}

pub open spec fn pairs(v: Seq<(String, String)>) -> Seq<(Seq<char>, Seq<char>)> {
    Seq::new(v.len(), |i: int| (v[i].0@, v[i].1@))
}

fn pair(name: &str, value: &str) -> (r: (String, String))
    ensures
        (r.0@, r.1@) == (name@, value@),
{
    (name.to_owned(), value.to_owned())
}

/// The environment of a command that runs with these tools.
pub fn tool_environment(selection: &str, cargo: &str, rustc: &str, rustdoc: &str, workspace: &str) -> (r: Vec<
    (String, String),
>)
    ensures
        pairs(r@) == fixed_environment(
            Tools {
                selection: selection@,
                cargo: cargo@,
                rustc: rustc@,
                rustdoc: rustdoc@,
            },
            workspace@,
        ),
{
    let target = path_below(workspace, "target");
    let r = vec![
        pair("RUSTUP_AUTO_INSTALL", "0"),
        pair("RUSTUP_TOOLCHAIN", selection),
        pair("CARGO", cargo),
        pair("RUSTC", rustc),
        pair("RUSTDOC", rustdoc),
        pair("RUSTC_WRAPPER", ""),
        pair("RUSTC_WORKSPACE_WRAPPER", ""),
        pair("CARGO_ENCODED_RUSTFLAGS", ""),
        pair("CARGO_ENCODED_RUSTDOCFLAGS", ""),
        pair("CARGO_TARGET_DIR", target.as_str()),
        pair("CARGO_BUILD_BUILD_DIR", "target"),
        pair("CARGO_TERM_COLOR", "never"),
        pair("CARGO_TERM_PROGRESS_WHEN", "never"),
    ];
    assert(pairs(r@) =~= fixed_environment(
        Tools { selection: selection@, cargo: cargo@, rustc: rustc@, rustdoc: rustdoc@ },
        workspace@,
    ));
    r
}

/// How a command is to run.
#[derive(Clone, Copy, Debug, PartialEq, Eq, Structural)]
pub struct Mode {
    pub release: bool,
    pub structured_output: bool,
    pub deny_warnings: bool,
}

pub open spec fn flags(action: CargoAction, mode: Mode) -> Seq<Seq<char>> {
    (if compiles(action) {
        (if mode.release {
            seq!["--release"@]
        } else {
            Seq::empty()
        }) + (if mode.structured_output {
            seq!["--message-format=json"@]
        } else {
            Seq::empty()
        }) + seq!["--locked"@]
    } else {
        Seq::empty()
    }) + (if mode.deny_warnings {
        seq!["--"@, "-D"@, "warnings"@]
    } else {
        Seq::empty()
    })
}

/// The arguments behind the program: the toolchain, the tool, what it is to do.
pub open spec fn arguments(
    selection: Seq<char>,
    executable: Seq<char>,
    action: CargoAction,
    mode: Mode,
    tail: Seq<Seq<char>>,
) -> Seq<Seq<char>> {
    seq!["run"@, selection, executable, action_word(action)] + (if changes_dependencies(action) {
        tail
    } else {
        Seq::empty()
    }) + flags(action, mode)
}

/// The tool that runs an action, where there is one.
pub open spec fn executable_of(action: CargoAction, t: ResolvedTools) -> Result<Seq<char>, PreparationError> {
    if action == CargoAction::Clippy {
        match t.cargo_clippy {
            Some(path) => Ok(path@),
            None => Err(PreparationError::MissingOptionalTool),
        }
    } else if action == CargoAction::Format {
        match t.formatter {
            Some((driver, formatter)) => if is_valid_path(formatter@) {
                Ok(driver@)
            } else {
                Err(PreparationError::InvalidPath)
            },
            None => Err(PreparationError::MissingOptionalTool),
        }
    } else {
        Ok(t.cargo@)
    }
}

/// What stands in the way of a command, if anything.
pub open spec fn obstacle(action: CargoAction, t: ResolvedTools, workspace: Seq<char>) -> Option<PreparationError> {
    if !t.selection_is_valid {
        Some(PreparationError::InvalidToolSelection)
    } else if !is_valid_path(workspace) || !is_valid_path(t.rustup@) || !is_valid_path(t.cargo@)
        || !is_valid_path(t.rustc@) || !is_valid_path(t.rustdoc@) {
        Some(PreparationError::InvalidPath)
    } else {
        match executable_of(action, t) {
            Err(e) => Some(e),
            Ok(path) => if is_valid_path(path) {
                None
            } else {
                Some(PreparationError::InvalidPath)
            },
        }
    }
}

pub open spec fn environment_of(action: CargoAction, t: ResolvedTools, workspace: Seq<char>) -> Seq<
    (Seq<char>, Seq<char>),
> {
    let fixed = fixed_environment(
        Tools { selection: t.selection@, cargo: t.cargo@, rustc: t.rustc@, rustdoc: t.rustdoc@ },
        workspace,
    );
    match t.formatter {
        Some((driver, formatter)) => if action == CargoAction::Format {
            fixed.push(("RUSTFMT"@, formatter@))
        } else {
            fixed
        },
        None => fixed,
    }
}

pub open spec fn lockfile_text(action: CargoAction) -> Seq<char> {
    if action == CargoAction::Format {
        "no mutation authorized"@
    } else if changes_dependencies(action) {
        "dependency action changes recorded through editor transactions"@
    } else {
        "locked"@
    }
}

impl EnvironmentSummary {
    pub open spec fn says(&self, action: CargoAction, present: Seq<String>) -> bool {
        &&& self.policy_version == 1
        &&& static_texts(self.retained_names@) == retained(present, KEPT_NAMES as nat)
        &&& self.compiler_and_tools@ == "explicit resolved selected executables"@
        &&& self.wrappers_and_extra_flags@ == "empty; Clippy may set its own driver wrapper"@
        &&& self.cargo_network@ == "network allowed; registry traffic unrecorded"@
        &&& self.cargo_lockfile@ == lockfile_text(action)
        &&& self.cargo_output@ == "workspace/target"@
        &&& self.configuration_files@
            == "ambient Cargo/rustfmt files may influence execution; values unrecorded"@
    }
}

impl PreparedCargoCommand {
    /// Whether this is the command for an action.
    pub open spec fn runs(
        &self,
        action: CargoAction,
        t: ResolvedTools,
        workspace: Seq<char>,
        mode: Mode,
        tail: Seq<Seq<char>>,
        present: Seq<String>,
    ) -> bool {
        &&& self.program@ == t.rustup@
        &&& text::texts(self.args@) == arguments(
            t.selection@,
            executable_of(action, t)->Ok_0,
            action,
            mode,
            tail,
        )
        &&& self.directory@ == workspace
        &&& pairs(self.environment@) == environment_of(action, t, workspace)
        &&& self.summary.says(action, present)
    }
}

pub open spec fn prepared(
    r: Result<PreparedCargoCommand, PreparationError>,
    action: CargoAction,
    t: ResolvedTools,
    workspace: Seq<char>,
    mode: Mode,
    tail: Seq<Seq<char>>,
    present: Seq<String>,
) -> bool {
    match obstacle(action, t, workspace) {
        Some(e) => r is Err && r->Err_0 == e,
        None => r is Ok && r->Ok_0.runs(action, t, workspace, mode, tail, present),
    }
}

fn find_executable(action: CargoAction, tools: &ResolvedTools) -> (r: Result<String, PreparationError>)
    ensures
        match executable_of(action, *tools) {
            Ok(path) => r is Ok && r->Ok_0@ == path,
            Err(e) => r is Err && r->Err_0 == e,
        },
{
    if action == CargoAction::Clippy {
        match &tools.cargo_clippy {
            Some(path) => Ok(path.clone()),
            None => Err(PreparationError::MissingOptionalTool),
        }
    } else if action == CargoAction::Format {
        match &tools.formatter {
            Some((driver, formatter)) => {
                validate_path(formatter.as_str())?;
                Ok(driver.clone())
            },
            None => Err(PreparationError::MissingOptionalTool),
        }
    } else {
        Ok(tools.cargo.clone())
    }
}

fn push_text(args: &mut Vec<String>, s: &str)
    ensures
        text::texts(final(args)@) == text::texts(old(args)@).push(s@),
{
    let ghost before = args@;
    let t = s.to_owned();
    args.push(t);
    assert(text::texts(args@) =~= text::texts(before).push(s@));
}

fn write_arguments(
    selection: &str,
    executable: &str,
    action: CargoAction,
    mode: Mode,
    tail: &Vec<String>,
) -> (r: Vec<String>)
    ensures
        text::texts(r@) == arguments(selection@, executable@, action, mode, text::texts(tail@)),
{
    let mut args: Vec<String> = Vec::new();
    assert(text::texts(args@) =~= Seq::<Seq<char>>::empty());
    push_text(&mut args, "run");
    push_text(&mut args, selection);
    push_text(&mut args, executable);
    push_text(&mut args, action.subcommand());
    let ghost four = seq!["run"@, selection@, executable@, action_word(action)];
    assert(text::texts(args@) =~= four);
    if action.is_dependency() {
        let ghost all = text::texts(tail@);
        let mut i: usize = 0;
        assert(four + all.take(0) =~= four);
        while i < tail.len()
            invariant
                i <= tail@.len(),
                all == text::texts(tail@),
                text::texts(args@) == four + all.take(i as int),
            decreases tail@.len() - i,
        {
            push_text(&mut args, tail[i].as_str());
            assert(four + all.take(i + 1) =~= (four + all.take(i as int)).push(all[i as int]));
            i += 1;
        }
        assert(all.take(all.len() as int) =~= all);
    }
    let ghost front = text::texts(args@);
    if action.is_compile() {
        if mode.release {
            push_text(&mut args, "--release");
        }
        if mode.structured_output {
            push_text(&mut args, "--message-format=json");
        }
        push_text(&mut args, "--locked");
    }
    if mode.deny_warnings {
        push_text(&mut args, "--");
        push_text(&mut args, "-D");
        push_text(&mut args, "warnings");
    }
    assert(text::texts(args@) =~= front + flags(action, mode));
    assert(text::texts(args@) =~= arguments(
        selection@,
        executable@,
        action,
        mode,
        text::texts(tail@),
    ));
    args
}

/// Prepares a command. Nothing is read, written or started.
pub fn prepare_inner(
    action: CargoAction,
    tools: &ResolvedTools,
    workspace: &str,
    mode: Mode,
    tail: &Vec<String>,
    present: &Vec<String>,
) -> (r: Result<PreparedCargoCommand, PreparationError>)
    ensures
        prepared(r, action, *tools, workspace@, mode, text::texts(tail@), present@),
{
    if !tools.selection_is_valid {
        return Err(PreparationError::InvalidToolSelection);
    }
    validate_path(workspace)?;
    validate_path(tools.rustup.as_str())?;
    validate_path(tools.cargo.as_str())?;
    validate_path(tools.rustc.as_str())?;
    validate_path(tools.rustdoc.as_str())?;
    let executable = find_executable(action, tools)?;
    validate_path(executable.as_str())?;
    let retained_names = retain_execution_environment(present);
    let args = write_arguments(tools.selection.as_str(), executable.as_str(), action, mode, tail);
    let mut environment = tool_environment(
        tools.selection.as_str(),
        tools.cargo.as_str(),
        tools.rustc.as_str(),
        tools.rustdoc.as_str(),
        workspace,
    );
    if action == CargoAction::Format {
        match &tools.formatter {
            Some((_, formatter)) => {
                let ghost before = environment@;
                let ghost path = formatter@;
                environment.push(pair("RUSTFMT", formatter.as_str()));
                assert(pairs(environment@) =~= pairs(before).push(("RUSTFMT"@, path)));
            },
            None => {},
        }
    }
    let cargo_lockfile = if action == CargoAction::Format {
        "no mutation authorized"
    } else if action.is_dependency() {
        "dependency action changes recorded through editor transactions"
    } else {
        "locked"
    };
    let summary = EnvironmentSummary {
        policy_version: 1,
        retained_names,
        compiler_and_tools: "explicit resolved selected executables",
        wrappers_and_extra_flags: "empty; Clippy may set its own driver wrapper",
        cargo_network: "network allowed; registry traffic unrecorded",
        cargo_lockfile,
        cargo_output: "workspace/target",
        configuration_files: "ambient Cargo/rustfmt files may influence execution; values unrecorded",
    };
    Ok(
        PreparedCargoCommand {
            program: tools.rustup.clone(),
            args,
            directory: workspace.to_owned(),
            environment,
            summary,
        },
    )
}

pub open spec fn tail_of(argv: Seq<Seq<char>>) -> Seq<Seq<char>> {
    if argv.len() <= 2 {
        Seq::empty()
    } else {
        argv.skip(2)
    }
}

fn copy_tail(argv: &Vec<String>) -> (r: Vec<String>)
    ensures
        text::texts(r@) == tail_of(text::texts(argv@)),
{
    let ghost all = text::texts(argv@);
    let mut r: Vec<String> = Vec::new();
    let mut i: usize = 2;
    assert(text::texts(r@) =~= Seq::<Seq<char>>::empty());
    while i < argv.len()
        invariant
            2 <= i,
            i == 2 || i <= argv@.len(),
            all == text::texts(argv@),
            r@.len() == i - 2,
            forall|j: int| 0 <= j < i - 2 ==> (#[trigger] r@[j])@ == all[j + 2],
        decreases argv@.len() - i,
    {
        r.push(argv[i].clone());
        i += 1;
    }
    assert(text::texts(r@) =~= tail_of(all));
    r
}

/// Prepares an argument vector that an instructor wrote. Output is structured.
pub fn prepare(
    action: CargoAction,
    instructor_argv: &Vec<String>,
    tools: &ResolvedTools,
    workspace: &str,
    accepted: &Accepted,
    present: &Vec<String>,
) -> (r: Result<PreparedCargoCommand, PreparationError>)
    ensures
        match validated(action, text::texts(instructor_argv@), *accepted) {
            None => r is Err && r->Err_0 == PreparationError::UnsupportedCommand,
            Some(deny_warnings) => prepared(
                r,
                action,
                *tools,
                workspace@,
                Mode { release: false, structured_output: true, deny_warnings },
                tail_of(text::texts(instructor_argv@)),
                present@,
            ),
        },
{
    let deny_warnings = validate_command(action, instructor_argv, accepted)?;
    let tail = copy_tail(instructor_argv);
    prepare_inner(
        action,
        tools,
        workspace,
        Mode { release: false, structured_output: true, deny_warnings },
        &tail,
        present,
    )
}

/// Whether a command of the console is one that its line can stand for.
pub open spec fn is_console_line(line: Line, a: Accepted) -> bool {
    let v = line.argv;
    let two = v.len() == 2 && v[0] == "cargo"@ && v[1] == action_word(line.action);
    let three = v.len() == 3 && v[0] == "cargo"@ && v[1] == action_word(line.action);
    let shape = match line.action {
        CargoAction::Run => two || (three && v[2] == "--release"@),
        CargoAction::Format => false,
        CargoAction::Add => three && among(a.dependency_specs@, v[2]),
        CargoAction::Remove => three && among(a.crate_names@, v[2]),
        _ => two,
    };
    shape && (line.action is Run || (line.stdin is None && line.stdout is None))
}

fn check_console_line(request: &ConsoleCommand, a: &Accepted) -> (r: bool)
    ensures
        r == is_console_line(request.view(), *a),
{
    let v = &request.argv;
    let ghost all = text::texts(v@);
    if v.len() < 2 || v.len() > 3 {
        return false;
    }
    assert(all[0] == v@[0]@ && all[1] == v@[1]@);
    if !text::str_eq(v[0].as_str(), "cargo") || !text::str_eq(
        v[1].as_str(),
        request.action.subcommand(),
    ) {
        return false;
    }
    let plain = request.stdin.is_none() && request.stdout.is_none();
    if v.len() == 2 {
        return match request.action {
            CargoAction::Run => true,
            CargoAction::Format => false,
            CargoAction::Add => false,
            CargoAction::Remove => false,
            _ => plain,
        };
    }
    assert(all[2] == v@[2]@);
    let third = v[2].as_str();
    match request.action {
        CargoAction::Run => text::str_eq(third, "--release"),
        CargoAction::Add => plain && holds_name(&a.dependency_specs, third),
        CargoAction::Remove => plain && holds_name(&a.crate_names, third),
        _ => false,
    }
}

/// Prepares a command of the console. Output stays as the tools write it; files
/// never become arguments.
pub fn prepare_console(
    request: &ConsoleCommand,
    tools: &ResolvedTools,
    workspace: &str,
    accepted: &Accepted,
    present: &Vec<String>,
) -> (r: Result<PreparedCargoCommand, PreparationError>)
    ensures
        if !is_console_line(request.view(), *accepted) {
            r is Err && r->Err_0 == PreparationError::UnsupportedCommand
        } else {
            prepared(
                r,
                request.action,
                *tools,
                workspace@,
                Mode {
                    release: request.view().action is Run && request.view().argv.len() == 3,
                    structured_output: false,
                    deny_warnings: false,
                },
                tail_of(request.view().argv),
                present@,
            )
        },
{
    if !check_console_line(request, accepted) {
        return Err(PreparationError::UnsupportedCommand);
    }
    let release = request.action == CargoAction::Run && request.argv.len() == 3;
    let tail = copy_tail(&request.argv);
    prepare_inner(
        request.action,
        tools,
        workspace,
        Mode { release, structured_output: false, deny_warnings: false },
        &tail,
        present,
    )
}

/// What the console reads is a console command when it is prepared.
pub proof fn console_commands_can_be_prepared(input: Seq<char>, a: Accepted)
    requires
        crate::cargo_policy::command_of(input, a) is Some,
    ensures
        is_console_line(crate::cargo_policy::command_of(input, a)->0, a),
{
}

/// A command that compiles is told to leave the lock file as it is.
pub proof fn compiling_is_locked(selection: Seq<char>, executable: Seq<char>, action: CargoAction, mode: Mode, tail: Seq<Seq<char>>)
    requires
        compiles(action),
    ensures
        arguments(selection, executable, action, mode, tail).contains("--locked"@),
{
    let args = arguments(selection, executable, action, mode, tail);
    let k = 4 + (if mode.release {
        1int
    } else {
        0int
    }) + (if mode.structured_output {
        1int
    } else {
        0int
    });
    assert(args[k] == "--locked"@);
}

// The language server.

/// What a language server is started with.
pub fn language_server_command(
    rustup: &str,
    launch: &crate::resolution::LaunchSpec,
    workspace: &str,
) -> (r: (String, Vec<String>, Vec<(String, String)>))
    ensures
        r.0@ == rustup@,
        text::texts(r.1@) == seq!["run"@, launch.selection@, launch.analyzer@],
        pairs(r.2@) == fixed_environment(
            Tools {
                selection: launch.selection@,
                cargo: launch.cargo@,
                rustc: launch.rustc@,
                rustdoc: launch.rustdoc@,
            },
            workspace@,
        ),
{
    let mut args: Vec<String> = Vec::new();
    assert(text::texts(args@) =~= Seq::<Seq<char>>::empty());
    push_text(&mut args, "run");
    push_text(&mut args, launch.selection.as_str());
    push_text(&mut args, launch.analyzer.as_str());
    assert(text::texts(args@) =~= seq!["run"@, launch.selection@, launch.analyzer@]);
    let environment = tool_environment(
        launch.selection.as_str(),
        launch.cargo.as_str(),
        launch.rustc.as_str(),
        launch.rustdoc.as_str(),
        workspace,
    );
    (rustup.to_owned(), args, environment)
}

} // verus!
