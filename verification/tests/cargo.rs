use rustrace::cargo_command::{
    language_server_command, prepare, prepare_console, retain_execution_environment, validate_path,
    ResolvedTools,
};
use rustrace::cargo_policy::{
    parse_console_command, validate_command, Accepted, CargoAction, ConsoleCommand, PreparationError,
};
use rustrace::resolution::LaunchSpec;

fn words(words: &[&str]) -> Vec<String> {
    words.iter().map(|word| (*word).to_owned()).collect()
}

fn accepted() -> Accepted {
    Accepted {
        dependency_specs: words(&["rand", "serde@1"]),
        crate_names: words(&["rand"]),
        workspace_paths: words(&["in.txt", "out.txt"]),
    }
}

fn tools() -> ResolvedTools {
    ResolvedTools {
        rustup: "/bin/rustup".to_owned(),
        selection: "1.98.1".to_owned(),
        selection_is_valid: true,
        cargo: "/t/cargo".to_owned(),
        rustc: "/t/rustc".to_owned(),
        rustdoc: "/t/rustdoc".to_owned(),
        cargo_clippy: None,
        formatter: Some(("/t/cargo-fmt".to_owned(), "/t/rustfmt".to_owned())),
    }
}

#[test]
fn console_commands_are_few_and_exact() {
    for (line, action) in [
        ("cargo build", CargoAction::Build),
        ("  cargo   check ", CargoAction::Check),
        ("cargo add serde@1", CargoAction::Add),
        ("cargo remove rand", CargoAction::Remove),
        ("cargo update", CargoAction::Update),
    ] {
        let command = parse_console_command(line, &accepted()).unwrap();
        assert_eq!(command.action, action);
        assert_eq!((command.stdin, command.stdout), (None, None));
    }
    for line in [
        "",
        "cargo",
        "cargo fmt",
        "cargo build --release",
        "cargo add unknown",
        "cargo run; rm",
        "cargo run \u{7}",
        "cargo run <",
        "cargo run < < in.txt",
        "cargo run < in.txt < out.txt",
        "cargo run < in.txt > in.txt",
        "cargo run < elsewhere.txt",
        "cargo run in.txt",
    ] {
        assert_eq!(
            parse_console_command(line, &accepted()),
            Err(PreparationError::UnsupportedCommand),
            "{line:?}"
        );
    }
    assert!(PreparationError::UnsupportedCommand
        .to_text()
        .starts_with("unsupported Cargo command"));
}

#[test]
fn a_run_may_read_and_write_files() {
    assert_eq!(
        parse_console_command("cargo run --release > out.txt < in.txt", &accepted()).unwrap(),
        ConsoleCommand {
            action: CargoAction::Run,
            argv: words(&["cargo", "run", "--release"]),
            stdin: Some("in.txt".to_owned()),
            stdout: Some("out.txt".to_owned()),
        }
    );
}

#[test]
fn a_compiling_command_is_locked_and_structured() {
    let command = prepare(
        CargoAction::Check,
        &words(&["cargo", "check"]),
        &tools(),
        "/w",
        &accepted(),
        &words(&["PATH", "EDITOR", "HOME"]),
    )
    .unwrap();
    assert_eq!(command.program, "/bin/rustup");
    assert_eq!(
        command.args,
        words(&["run", "1.98.1", "/t/cargo", "check", "--message-format=json", "--locked"])
    );
    assert_eq!(command.directory, "/w");
    assert_eq!(command.summary.retained_names, ["HOME", "PATH"]);
    assert_eq!(command.summary.cargo_lockfile, "locked");
    assert!(command
        .environment
        .contains(&("CARGO_TARGET_DIR".to_owned(), "/w/target".to_owned())));
    assert!(command
        .environment
        .contains(&("RUSTUP_AUTO_INSTALL".to_owned(), "0".to_owned())));
}

#[test]
fn a_console_command_keeps_natural_output() {
    let request = parse_console_command("cargo run --release", &accepted()).unwrap();
    let command = prepare_console(&request, &tools(), "/w", &accepted(), &Vec::new()).unwrap();
    assert_eq!(
        command.args,
        words(&["run", "1.98.1", "/t/cargo", "run", "--release", "--locked"])
    );
    let request = parse_console_command("cargo add rand", &accepted()).unwrap();
    let command = prepare_console(&request, &tools(), "/w", &accepted(), &Vec::new()).unwrap();
    assert_eq!(
        command.args,
        words(&["run", "1.98.1", "/t/cargo", "add", "rand"])
    );
}

#[test]
fn each_obstacle_has_its_error() {
    let format = words(&["cargo", "fmt"]);
    let clippy = words(&["cargo", "clippy"]);
    let none = Vec::new();
    let mut invalid = tools();
    invalid.selection_is_valid = false;
    assert_eq!(
        prepare(CargoAction::Format, &format, &invalid, "/w", &accepted(), &none).err(),
        Some(PreparationError::InvalidToolSelection)
    );
    assert_eq!(
        prepare(CargoAction::Format, &format, &tools(), "/w/../x", &accepted(), &none).err(),
        Some(PreparationError::InvalidPath)
    );
    assert_eq!(
        prepare(CargoAction::Clippy, &clippy, &tools(), "/w", &accepted(), &none).err(),
        Some(PreparationError::MissingOptionalTool)
    );
    let formatted = prepare(CargoAction::Format, &format, &tools(), "/w", &accepted(), &none).unwrap();
    assert_eq!(formatted.args, words(&["run", "1.98.1", "/t/cargo-fmt", "fmt"]));
    assert!(formatted
        .environment
        .contains(&("RUSTFMT".to_owned(), "/t/rustfmt".to_owned())));
    assert_eq!(
        validate_command(CargoAction::Build, &words(&["cargo", "build"]), &accepted()),
        Err(PreparationError::UnsupportedCommand)
    );
}

#[test]
fn paths_are_absolute_and_plain() {
    assert!(validate_path("/a/b..c").is_ok());
    for path in ["", "a", "/a/..", "/a/../b", "/a\n"] {
        assert_eq!(validate_path(path), Err(PreparationError::InvalidPath), "{path:?}");
    }
    assert_eq!(
        retain_execution_environment(&words(&["TEMP", "LD_PRELOAD", "PATH"])),
        ["PATH", "TEMP"]
    );
}

#[test]
fn a_language_server_runs_under_the_selection() {
    let launch = LaunchSpec {
        selection: "stable".to_owned(),
        analyzer: "/t/ra".to_owned(),
        cargo: "/t/cargo".to_owned(),
        rustc: "/t/rustc".to_owned(),
        rustdoc: "/t/rustdoc".to_owned(),
    };
    let (program, args, environment) = language_server_command("/bin/rustup", &launch, "/w");
    assert_eq!(program, "/bin/rustup");
    assert_eq!(args, words(&["run", "stable", "/t/ra"]));
    assert!(environment.contains(&("RUSTC".to_owned(), "/t/rustc".to_owned())));
}
