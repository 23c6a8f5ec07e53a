//! What a Cargo command is run with.

use crate::cargo_command;
use crate::cargo_command::{Mode, ResolvedTools};
use crate::cargo_policy::{CargoAction, PreparationError};
use vstd::prelude::*;

verus! {

/// The word that Cargo knows an action by.
pub open spec fn is_word_of(word: Seq<char>, action: CargoAction) -> bool {
    match action {
        CargoAction::Build => word == "build"@,
        CargoAction::Check => word == "check"@,
        CargoAction::Test => word == "test"@,
        CargoAction::Run => word == "run"@,
        CargoAction::Clippy => word == "clippy"@,
        CargoAction::Format => word == "fmt"@,
        CargoAction::Doc => word == "doc"@,
        CargoAction::Add => word == "add"@,
        CargoAction::Remove => word == "remove"@,
        CargoAction::Update => word == "update"@,
    }
}

/// What compiles is run by rustup under the selected toolchain, with the lockfile as
/// it is: optimised where that is asked for, and with its messages as records where
/// they are to be read.
pub proof fn a_build_is_run_locked(
    selection: Seq<char>,
    executable: Seq<char>,
    action: CargoAction,
    word: Seq<char>,
    mode: Mode,
    tail: Seq<Seq<char>>,
)
    requires
        is_word_of(word, action),
        action is Build || action is Check || action is Test || action is Run || action is Clippy
            || action is Doc,
        !mode.deny_warnings,
    ensures
        ({
            let args = cargo_command::arguments(selection, executable, action, mode, tail);
            &&& !mode.release && !mode.structured_output ==> args == seq![
                "run"@,
                selection,
                executable,
                word,
                "--locked"@,
            ]
            &&& mode.release && !mode.structured_output ==> args == seq![
                "run"@,
                selection,
                executable,
                word,
                "--release"@,
                "--locked"@,
            ]
            &&& !mode.release && mode.structured_output ==> args == seq![
                "run"@,
                selection,
                executable,
                word,
                "--message-format=json"@,
                "--locked"@,
            ]
            &&& mode.release && mode.structured_output ==> args == seq![
                "run"@,
                selection,
                executable,
                word,
                "--release"@,
                "--message-format=json"@,
                "--locked"@,
            ]
        }),
{
    let args = cargo_command::arguments(selection, executable, action, mode, tail);
    if !mode.release && !mode.structured_output {
        assert(args =~= seq!["run"@, selection, executable, word, "--locked"@]);
    } else if mode.release && !mode.structured_output {
        assert(args =~= seq!["run"@, selection, executable, word, "--release"@, "--locked"@]);
    } else if !mode.release {
        assert(args =~= seq![
            "run"@,
            selection,
            executable,
            word,
            "--message-format=json"@,
            "--locked"@,
        ]);
    } else {
        assert(args =~= seq![
            "run"@,
            selection,
            executable,
            word,
            "--release"@,
            "--message-format=json"@,
            "--locked"@,
        ]);
    }
}

/// What changes the dependencies is run with what was written behind it and nothing
/// else, and the formatter with nothing at all. Warnings are denied behind a dash of
/// their own.
pub proof fn what_does_not_compile_has_no_flags(
    selection: Seq<char>,
    executable: Seq<char>,
    action: CargoAction,
    word: Seq<char>,
    mode: Mode,
    tail: Seq<Seq<char>>,
)
    requires
        is_word_of(word, action),
    ensures
        ({
            let plain = cargo_command::arguments(
                selection,
                executable,
                action,
                Mode { deny_warnings: false, ..mode },
                tail,
            );
            &&& action is Add || action is Remove || action is Update ==> plain == seq![
                "run"@,
                selection,
                executable,
                word,
            ] + tail
            &&& action is Format ==> plain == seq!["run"@, selection, executable, word]
            &&& cargo_command::arguments(
                selection,
                executable,
                action,
                Mode { deny_warnings: true, ..mode },
                tail,
            ) == plain + seq!["--"@, "-D"@, "warnings"@]
        }),
{
    let quiet = Mode { deny_warnings: false, ..mode };
    let strict = Mode { deny_warnings: true, ..mode };
    let plain = cargo_command::arguments(selection, executable, action, quiet, tail);
    let start = seq!["run"@, selection, executable, word];
    if action is Add || action is Remove || action is Update {
        assert(plain =~= start + tail);
    }
    if action is Format {
        assert(plain =~= start);
    }
    assert(cargo_command::arguments(selection, executable, action, strict, tail) =~= plain + seq![
        "--"@,
        "-D"@,
        "warnings"@,
    ]);
}

/// The program of an action: the linter and the formatter have their own, where they
/// are installed, and everything else is Cargo itself.
pub proof fn an_action_has_its_program(action: CargoAction, t: ResolvedTools)
    ensures
        !(action is Clippy) && !(action is Format) ==> cargo_command::executable_of(action, t)
            == Ok::<Seq<char>, PreparationError>(t.cargo@),
        action is Clippy ==> (match t.cargo_clippy {
            Some(path) => cargo_command::executable_of(action, t) == Ok::<
                Seq<char>,
                PreparationError,
            >(path@),
            None => cargo_command::executable_of(action, t) == Err::<Seq<char>, PreparationError>(
                PreparationError::MissingOptionalTool,
            ),
        }),
        action is Format && t.formatter is None ==> cargo_command::executable_of(action, t) == Err::<
            Seq<char>,
            PreparationError,
        >(PreparationError::MissingOptionalTool),
        action is Format && cargo_command::executable_of(action, t) is Ok ==> t.formatter is Some
            && cargo_command::executable_of(action, t)->Ok_0 == (t.formatter->0).0@,
{
}

/// Whether a path can be handed to a command: it starts at the root, goes nowhere up,
/// and has no control character and no more than 4096 bytes.
pub open spec fn is_plain_path(path: Seq<char>) -> bool {
    &&& path.len() > 0
    &&& path[0] == '/'
    &&& crate::text::byte_len(path) <= 4096
    &&& forall|i: int| 0 <= i < path.len() ==> !crate::text::is_control(#[trigger] path[i])
    &&& !cargo_command::names_parent(path)
}

/// A command can be prepared where the toolchain was selected and every path that it
/// uses is plain.
pub proof fn a_command_is_prepared_from_plain_paths(
    action: CargoAction,
    t: ResolvedTools,
    workspace: Seq<char>,
)
    ensures
        cargo_command::obstacle(action, t, workspace) is None <==> {
            &&& t.selection_is_valid
            &&& is_plain_path(workspace)
            &&& is_plain_path(t.rustup@)
            &&& is_plain_path(t.cargo@)
            &&& is_plain_path(t.rustc@)
            &&& is_plain_path(t.rustdoc@)
            &&& cargo_command::executable_of(action, t) is Ok
            &&& is_plain_path(cargo_command::executable_of(action, t)->Ok_0)
        },
        cargo_command::obstacle(action, t, workspace) == Some(
            PreparationError::InvalidToolSelection,
        ) <==> !t.selection_is_valid,
{
    assert(is_plain_path(workspace) == cargo_command::is_valid_path(workspace));
    assert(is_plain_path(t.rustup@) == cargo_command::is_valid_path(t.rustup@));
    assert(is_plain_path(t.cargo@) == cargo_command::is_valid_path(t.cargo@));
    assert(is_plain_path(t.rustc@) == cargo_command::is_valid_path(t.rustc@));
    assert(is_plain_path(t.rustdoc@) == cargo_command::is_valid_path(t.rustdoc@));
    let x = cargo_command::executable_of(action, t)->Ok_0;
    assert(is_plain_path(x) == cargo_command::is_valid_path(x));
}

/// Whether a command is told a value under a name.
pub open spec fn is_told(env: Seq<(Seq<char>, Seq<char>)>, name: Seq<char>, value: Seq<char>) -> bool {
    exists|i: int| 0 <= i < env.len() && #[trigger] env[i] == (name, value)
}

/// A command is told the selected tools, no wrappers and no flags, and to build below
/// the workspace without installing anything. Only the formatter is told where it is.
pub proof fn a_command_is_told_its_tools(action: CargoAction, t: ResolvedTools, workspace: Seq<char>)
    ensures
        ({
            let env = cargo_command::environment_of(action, t, workspace);
            &&& is_told(env, "RUSTUP_AUTO_INSTALL"@, "0"@)
            &&& is_told(env, "RUSTUP_TOOLCHAIN"@, t.selection@)
            &&& is_told(env, "CARGO"@, t.cargo@)
            &&& is_told(env, "RUSTC"@, t.rustc@)
            &&& is_told(env, "RUSTDOC"@, t.rustdoc@)
            &&& is_told(env, "RUSTC_WRAPPER"@, ""@)
            &&& is_told(env, "RUSTC_WORKSPACE_WRAPPER"@, ""@)
            &&& is_told(env, "CARGO_ENCODED_RUSTFLAGS"@, ""@)
            &&& is_told(env, "CARGO_ENCODED_RUSTDOCFLAGS"@, ""@)
            &&& is_told(env, "CARGO_BUILD_BUILD_DIR"@, "target"@)
            &&& is_told(env, "CARGO_TERM_COLOR"@, "never"@)
            &&& is_told(env, "CARGO_TERM_PROGRESS_WHEN"@, "never"@)
            &&& workspace.len() > 0 && workspace.last() != '/' ==> is_told(
                env,
                "CARGO_TARGET_DIR"@,
                workspace + "/"@ + "target"@,
            )
            &&& env.len() == if action is Format && t.formatter is Some {
                14nat
            } else {
                13nat
            }
            &&& action is Format && t.formatter is Some ==> env.last() == (
                "RUSTFMT"@,
                (t.formatter->0).1@,
            )
        }),
{
    let env = cargo_command::environment_of(action, t, workspace);
    assert(env[0] == ("RUSTUP_AUTO_INSTALL"@, "0"@));
    assert(env[1] == ("RUSTUP_TOOLCHAIN"@, t.selection@));
    assert(env[2] == ("CARGO"@, t.cargo@));
    assert(env[3] == ("RUSTC"@, t.rustc@));
    assert(env[4] == ("RUSTDOC"@, t.rustdoc@));
    assert(env[5] == ("RUSTC_WRAPPER"@, ""@));
    assert(env[6] == ("RUSTC_WORKSPACE_WRAPPER"@, ""@));
    assert(env[7] == ("CARGO_ENCODED_RUSTFLAGS"@, ""@));
    assert(env[8] == ("CARGO_ENCODED_RUSTDOCFLAGS"@, ""@));
    assert(env[9] == ("CARGO_TARGET_DIR"@, cargo_command::below(workspace, "target"@)));
    assert(env[10] == ("CARGO_BUILD_BUILD_DIR"@, "target"@));
    assert(env[11] == ("CARGO_TERM_COLOR"@, "never"@));
    assert(env[12] == ("CARGO_TERM_PROGRESS_WHEN"@, "never"@));
}

} // verus!
