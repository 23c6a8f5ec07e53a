//! Which Cargo commands may run, and with which arguments and environment.

use crate::text;
use vstd::prelude::*;

pub use crate::cargo_command::{
    prepare, prepare_console, retain_execution_environment, EnvironmentSummary,
    PreparedCargoCommand, ResolvedTools,
};

verus! {

pub const MAX_COMMAND_BYTES: usize = 4096;

#[derive(Clone, Copy, Debug, PartialEq, Eq, Structural)]
pub enum CargoAction {
    Build,
    Check,
    Test,
    Run,
    Clippy,
    Format,
    Doc,
    Add,
    Remove,
    Update,
}

pub open spec fn action_word(action: CargoAction) -> Seq<char> {
    match action {
        CargoAction::Build => "build"@,
        CargoAction::Check => "check"@,
        CargoAction::Test => "test"@,
        CargoAction::Run => "run"@,
        CargoAction::Clippy => "clippy"@,
        CargoAction::Format => "fmt"@,
        CargoAction::Doc => "doc"@,
        CargoAction::Add => "add"@,
        CargoAction::Remove => "remove"@,
        CargoAction::Update => "update"@,
    }
}

pub open spec fn changes_dependencies(action: CargoAction) -> bool {
    action is Add || action is Remove || action is Update
}

pub open spec fn compiles(action: CargoAction) -> bool {
    action is Build || action is Check || action is Test || action is Run || action is Clippy
        || action is Doc
}

impl CargoAction {
    pub fn subcommand(self) -> (r: &'static str)
        ensures
            r@ == action_word(self),
    {
        match self {
            CargoAction::Build => "build",
            CargoAction::Check => "check",
            CargoAction::Test => "test",
            CargoAction::Run => "run",
            CargoAction::Clippy => "clippy",
            CargoAction::Format => "fmt",
            CargoAction::Doc => "doc",
            CargoAction::Add => "add",
            CargoAction::Remove => "remove",
            CargoAction::Update => "update",
        }
    }

    pub fn is_dependency(self) -> (r: bool)
        ensures
            r == changes_dependencies(self),
    {
        match self {
            CargoAction::Add => true,
            CargoAction::Remove => true,
            CargoAction::Update => true,
            _ => false,
        }
    }

    pub fn is_compile(self) -> (r: bool)
        ensures
            r == compiles(self),
    {
        match self {
            CargoAction::Format => false,
            CargoAction::Add => false,
            CargoAction::Remove => false,
            CargoAction::Update => false,
            _ => true,
        }
    }
}

#[derive(Clone, Copy, Debug, PartialEq, Eq, Structural)]
pub enum PreparationError {
    UnsupportedCommand,
    InvalidToolSelection,
    InvalidPath,
    MissingOptionalTool,
}

impl PreparationError {
    pub open spec fn words(self) -> Seq<char> {
        match self {
            PreparationError::UnsupportedCommand => "unsupported Cargo command; allowed: cargo build, cargo check, cargo test, cargo run, cargo clippy, cargo doc, cargo add NAME, cargo add NAME@VERSION, cargo remove NAME, cargo update"@,
            PreparationError::InvalidToolSelection => "expected an explicitly resolved installed toolchain name"@,
            PreparationError::InvalidPath => "expected a bounded absolute tool or workspace path"@,
            PreparationError::MissingOptionalTool => "selected optional component is unavailable; repair it outside Rustrace"@,
        }
    }

    /// The error in words.
    pub fn to_text(self) -> (r: String)
        ensures
            r@ == self.words(),
    {
        match self {
            PreparationError::UnsupportedCommand => "unsupported Cargo command; allowed: cargo build, cargo check, cargo test, cargo run, cargo clippy, cargo doc, cargo add NAME, cargo add NAME@VERSION, cargo remove NAME, cargo update".to_owned(),
            PreparationError::InvalidToolSelection => "expected an explicitly resolved installed toolchain name".to_owned(),
            PreparationError::InvalidPath => "expected a bounded absolute tool or workspace path".to_owned(),
            PreparationError::MissingOptionalTool => "selected optional component is unavailable; repair it outside Rustrace".to_owned(),
        }
    }
}

/// Words that others accept: dependencies to add, crates to remove, paths of a
/// workspace.
pub struct Accepted {
    pub dependency_specs: Vec<String>,
    pub crate_names: Vec<String>,
    pub workspace_paths: Vec<String>,
}

pub open spec fn among(words: Seq<String>, word: Seq<char>) -> bool {
    exists|i: int| 0 <= i < words.len() && (#[trigger] words[i])@ == word
}

fn is_among(words: &Vec<String>, word: &str) -> (r: bool)
    ensures
        r == among(words@, word@),
{
    let mut i: usize = 0;
    while i < words.len()
        invariant
            i <= words@.len(),
            forall|j: int| 0 <= j < i ==> (#[trigger] words@[j])@ != word@,
        decreases words@.len() - i,
    {
        if text::str_eq(words[i].as_str(), word) {
            return true;
        }
        i += 1;
    }
    false
}

// The console's commands.

/// Characters that a shell would give a meaning to, and those that control.
pub open spec fn is_refused(c: char) -> bool {
    ||| text::is_control(c)
    ||| c == '\'' || c == '"' || c == '\\' || c == '$' || c == '`' || c == '|' || c == '&' || c == ';'
        || c == '*' || c == '?' || c == '[' || c == ']' || c == '{' || c == '}' || c == '(' || c == ')'
        || c == '!' || c == '~' || c == '#'
}

fn refuse(c: char) -> (r: bool)
    ensures
        r == is_refused(c),
{
    text::control(c) || c == '\'' || c == '"' || c == '\\' || c == '$' || c == '`' || c == '|' || c == '&'
        || c == ';' || c == '*' || c == '?' || c == '[' || c == ']' || c == '{' || c == '}' || c == '('
        || c == ')' || c == '!' || c == '~' || c == '#'
}

pub open spec fn is_literal(input: Seq<char>) -> bool {
    &&& input.len() > 0
    &&& text::byte_len(input) <= MAX_COMMAND_BYTES
    &&& forall|i: int| 0 <= i < input.len() ==> !is_refused(#[trigger] input[i])
}

/// The words of a text and the word that is being read: words stand between
/// spaces.
pub open spec fn split(s: Seq<char>) -> (Seq<Seq<char>>, Seq<char>)
    decreases s.len(),
{
    if s.len() == 0 {
        (Seq::empty(), Seq::empty())
    } else {
        let (words, word) = split(s.drop_last());
        if s.last() == ' ' {
            if word.len() == 0 {
                (words, word)
            } else {
                (words.push(word), Seq::empty())
            }
        } else {
            (words, word.push(s.last()))
        }
    }
}

/// The words of a text.
pub open spec fn words_of(s: Seq<char>) -> Seq<Seq<char>> {
    let (words, word) = split(s);
    if word.len() == 0 {
        words
    } else {
        words.push(word)
    }
}

fn read_words(input: &Vec<char>) -> (r: Vec<String>)
    ensures
        text::texts(r@) == words_of(input@),
{
    let mut words: Vec<String> = Vec::new();
    let mut word: String = String::new();
    let mut empty = true;
    let mut i: usize = 0;
    assert(input@.take(0) =~= Seq::<char>::empty());
    assert(text::texts(words@) =~= Seq::<Seq<char>>::empty());
    while i < input.len()
        invariant
            i <= input@.len(),
            (text::texts(words@), word@) == split(input@.take(i as int)),
            empty == (word@.len() == 0),
        decreases input@.len() - i,
    {
        proof {
            assert(input@.take(i + 1).drop_last() =~= input@.take(i as int));
            assert(input@.take(i + 1).last() == input@[i as int]);
        }
        if input[i] == ' ' {
            if !empty {
                let ghost before = words@;
                let ghost last = word@;
                words.push(word);
                assert(text::texts(words@) =~= text::texts(before).push(last));
                word = String::new();
                empty = true;
            }
        } else {
            word.push(input[i]);
            empty = false;
        }
        i += 1;
    }
    assert(input@.take(input@.len() as int) =~= input@);
    if !empty {
        let ghost before = words@;
        let ghost last = word@;
        words.push(word);
        assert(text::texts(words@) =~= text::texts(before).push(last));
    }
    words
}

/// A command of the console. Files for input and output stand beside its
/// arguments.
#[derive(Clone, Debug, PartialEq, Eq)]
pub struct ConsoleCommand {
    pub action: CargoAction,
    pub argv: Vec<String>,
    pub stdin: Option<String>,
    pub stdout: Option<String>,
}

pub struct Line {
    pub action: CargoAction,
    pub argv: Seq<Seq<char>>,
    pub stdin: Option<Seq<char>>,
    pub stdout: Option<Seq<char>>,
}

pub open spec fn opt_string(s: Option<String>) -> Option<Seq<char>> {
    match s {
        Some(t) => Some(t@),
        None => None,
    }
}

impl ConsoleCommand {
    pub open spec fn view(&self) -> Line {
        Line {
            action: self.action,
            argv: text::texts(self.argv@),
            stdin: opt_string(self.stdin),
            stdout: opt_string(self.stdout),
        }
    }
}

/// The action of a command's words.
pub open spec fn action_of(w: Seq<Seq<char>>, a: Accepted) -> Option<CargoAction> {
    if w.len() < 2 || w[0] != "cargo"@ {
        None
    } else if w[1] == "run"@ {
        Some(CargoAction::Run)
    } else if w.len() == 2 {
        if w[1] == "build"@ {
            Some(CargoAction::Build)
        } else if w[1] == "check"@ {
            Some(CargoAction::Check)
        } else if w[1] == "test"@ {
            Some(CargoAction::Test)
        } else if w[1] == "clippy"@ {
            Some(CargoAction::Clippy)
        } else if w[1] == "doc"@ {
            Some(CargoAction::Doc)
        } else if w[1] == "update"@ {
            Some(CargoAction::Update)
        } else {
            None
        }
    } else if w.len() == 3 && w[1] == "add"@ && among(a.dependency_specs@, w[2]) {
        Some(CargoAction::Add)
    } else if w.len() == 3 && w[1] == "remove"@ && among(a.crate_names@, w[2]) {
        Some(CargoAction::Remove)
    } else {
        None
    }
}

fn read_action(w: &Vec<String>, a: &Accepted) -> (r: Option<CargoAction>)
    ensures
        r == action_of(text::texts(w@), *a),
{
    let ghost words = text::texts(w@);
    if w.len() < 2 {
        return None;
    }
    assert(words[0] == w@[0]@ && words[1] == w@[1]@);
    if !text::str_eq(w[0].as_str(), "cargo") {
        return None;
    }
    let second = w[1].as_str();
    if text::str_eq(second, "run") {
        return Some(CargoAction::Run);
    }
    if w.len() == 2 {
        if text::str_eq(second, "build") {
            Some(CargoAction::Build)
        } else if text::str_eq(second, "check") {
            Some(CargoAction::Check)
        } else if text::str_eq(second, "test") {
            Some(CargoAction::Test)
        } else if text::str_eq(second, "clippy") {
            Some(CargoAction::Clippy)
        } else if text::str_eq(second, "doc") {
            Some(CargoAction::Doc)
        } else if text::str_eq(second, "update") {
            Some(CargoAction::Update)
        } else {
            None
        }
    } else if w.len() == 3 {
        assert(words[2] == w@[2]@);
        if text::str_eq(second, "add") && is_among(&a.dependency_specs, w[2].as_str()) {
            Some(CargoAction::Add)
        } else if text::str_eq(second, "remove") && is_among(&a.crate_names, w[2].as_str()) {
            Some(CargoAction::Remove)
        } else {
            None
        }
    } else {
        None
    }
}

pub open spec fn has_angle(s: Seq<char>) -> bool {
    exists|i: int| 0 <= i < s.len() && (#[trigger] s[i] == '<' || s[i] == '>')
}

fn find_angle(s: &str) -> (r: bool)
    ensures
        r == has_angle(s@),
{
    let chars = text::chars_of(s);
    let mut i: usize = 0;
    while i < chars.len()
        invariant
            i <= chars@.len(),
            chars@ == s@,
            forall|j: int| 0 <= j < i ==> #[trigger] s@[j] != '<' && s@[j] != '>',
        decreases chars@.len() - i,
    {
        if chars[i] == '<' || chars[i] == '>' {
            assert(s@[i as int] == '<' || s@[i as int] == '>');
            return true;
        }
        i += 1;
    }
    false
}

/// The files that the words from a place on name: each at most once, and paths
/// of the workspace.
pub open spec fn redirected(
    w: Seq<Seq<char>>,
    from: nat,
    stdin: Option<Seq<char>>,
    stdout: Option<Seq<char>>,
    a: Accepted,
) -> Option<(Option<Seq<char>>, Option<Seq<char>>)>
    decreases w.len() - from,
{
    if from >= w.len() {
        Some((stdin, stdout))
    } else if from + 1 >= w.len() {
        None
    } else {
        let value = w[(from + 1) as int];
        if (w[from as int] != "<"@ && w[from as int] != ">"@) || value == "--release"@ || has_angle(value)
            || !among(a.workspace_paths@, value) {
            None
        } else if w[from as int] == "<"@ {
            if stdin is Some {
                None
            } else {
                redirected(w, from + 2, Some(value), stdout, a)
            }
        } else if stdout is Some {
            None
        } else {
            redirected(w, from + 2, stdin, Some(value), a)
        }
    }
}

pub open spec fn is_release(w: Seq<Seq<char>>) -> bool {
    w.len() > 2 && w[2] == "--release"@
}

pub open spec fn run_argv(release: bool) -> Seq<Seq<char>> {
    if release {
        seq!["cargo"@, "run"@, "--release"@]
    } else {
        seq!["cargo"@, "run"@]
    }
}

/// The command that a line stands for, if it is one that may run.
pub open spec fn command_of(input: Seq<char>, a: Accepted) -> Option<Line> {
    let w = words_of(input);
    if !is_literal(input) {
        None
    } else {
        match action_of(w, a) {
            None => None,
            Some(action) => if action != CargoAction::Run {
                Some(Line { action, argv: w, stdin: None, stdout: None })
            } else {
                let from = if is_release(w) {
                    3nat
                } else {
                    2nat
                };
                match redirected(w, from, None, None, a) {
                    None => None,
                    Some((stdin, stdout)) => if stdin is Some && stdin == stdout {
                        None
                    } else {
                        Some(Line { action, argv: run_argv(is_release(w)), stdin, stdout })
                    },
                }
            },
        }
    }
}

fn check_literal(input: &str, chars: &Vec<char>) -> (r: bool)
    requires
        chars@ == input@,
    ensures
        r == is_literal(input@),
{
    if chars.len() == 0 || text::str_bytes(input) > MAX_COMMAND_BYTES {
        return false;
    }
    let mut i: usize = 0;
    while i < chars.len()
        invariant
            i <= chars@.len(),
            chars@ == input@,
            forall|j: int| 0 <= j < i ==> !is_refused(#[trigger] input@[j]),
        decreases chars@.len() - i,
    {
        if refuse(chars[i]) {
            return false;
        }
        i += 1;
    }
    true
}

fn read_redirects(w: &Vec<String>, start: usize, a: &Accepted) -> (r: Option<(Option<String>, Option<String>)>)
    requires
        start <= w@.len(),
    ensures
        match r {
            Some((stdin, stdout)) => redirected(text::texts(w@), start as nat, None, None, *a) == Some(
                (opt_string(stdin), opt_string(stdout)),
            ),
            None => redirected(text::texts(w@), start as nat, None, None, *a) is None,
        },
{
    let ghost words = text::texts(w@);
    let ghost goal = redirected(words, start as nat, None, None, *a);
    let mut stdin: Option<String> = None;
    let mut stdout: Option<String> = None;
    let mut i: usize = start;
    while i < w.len()
        invariant
            start <= i <= w@.len(),
            words == text::texts(w@),
            goal == redirected(words, start as nat, None, None, *a),
            goal == redirected(words, i as nat, opt_string(stdin), opt_string(stdout), *a),
        decreases w@.len() - i,
    {
        assert(words[i as int] == w@[i as int]@);
        if w.len() - i < 2 {
            return None;
        }
        assert(words[i + 1] == w@[i + 1]@);
        let input = text::str_eq(w[i].as_str(), "<");
        let output = text::str_eq(w[i].as_str(), ">");
        let value = w[i + 1].as_str();
        if (!input && !output) || text::str_eq(value, "--release") || find_angle(value) || !is_among(
            &a.workspace_paths,
            value,
        ) {
            return None;
        }
        if input {
            if stdin.is_some() {
                return None;
            }
            stdin = Some(value.to_owned());
        } else {
            if stdout.is_some() {
                return None;
            }
            stdout = Some(value.to_owned());
        }
        i += 2;
    }
    Some((stdin, stdout))
}

/// Reads a line of the console. Whatever is not one of the known commands, word
/// for word, is refused.
pub fn parse_console_command(input: &str, accepted: &Accepted) -> (r: Result<ConsoleCommand, PreparationError>)
    ensures
        match command_of(input@, *accepted) {
            Some(line) => r is Ok && r->Ok_0.view() == line,
            None => r == Err::<ConsoleCommand, PreparationError>(
                PreparationError::UnsupportedCommand,
            ),
        },
{
    let chars = text::chars_of(input);
    if !check_literal(input, &chars) {
        return Err(PreparationError::UnsupportedCommand);
    }
    let words = read_words(&chars);
    let ghost w = text::texts(words@);
    let action = match read_action(&words, accepted) {
        Some(action) => action,
        None => {
            return Err(PreparationError::UnsupportedCommand);
        },
    };
    if action != CargoAction::Run {
        return Ok(ConsoleCommand { action, argv: words, stdin: None, stdout: None });
    }
    let mut release = false;
    if words.len() > 2 {
        assert(w[2] == words@[2]@);
        release = text::str_eq(words[2].as_str(), "--release");
    }
    assert(release == is_release(w));
    let start: usize = if release {
        3
    } else {
        2
    };
    match read_redirects(&words, start, accepted) {
        None => Err(PreparationError::UnsupportedCommand),
        Some((stdin, stdout)) => {
            let same = match (&stdin, &stdout) {
                (Some(a), Some(b)) => text::str_eq(a.as_str(), b.as_str()),
                _ => false,
            };
            if same {
                return Err(PreparationError::UnsupportedCommand);
            }
            let mut argv: Vec<String> = Vec::new();
            argv.push("cargo".to_owned());
            argv.push("run".to_owned());
            if release {
                argv.push("--release".to_owned());
            }
            assert(text::texts(argv@) =~= run_argv(release));
            Ok(ConsoleCommand { action, argv, stdin, stdout })
        },
    }
}

/// Only a run has files, and never one file for both; every other command is
/// its words.
pub proof fn only_runs_have_files(input: Seq<char>, a: Accepted)
    requires
        command_of(input, a) is Some,
    ensures
        ({
            let line = command_of(input, a)->0;
            &&& is_literal(input)
            &&& line.action != CargoAction::Run ==> line.stdin is None && line.stdout is None
                && line.argv == words_of(input)
            &&& line.action == CargoAction::Run ==> line.argv == run_argv(true) || line.argv == run_argv(
                false,
            )
            &&& line.stdin is Some ==> line.stdin != line.stdout
            &&& line.action != CargoAction::Format
        }),
{
}

// The instructor's commands.

pub open spec fn ends_with_deny(t: Seq<Seq<char>>) -> bool {
    &&& t.len() >= 3
    &&& t[t.len() - 3] == "--"@
    &&& t[t.len() - 2] == "-D"@
    &&& t[t.len() - 1] == "warnings"@
}

/// No flags, or those that keep the lock file and the network as they are.
pub open spec fn is_lock_tail(t: Seq<Seq<char>>) -> bool {
    ||| t.len() == 0
    ||| t.len() == 1 && (t[0] == "--locked"@ || t[0] == "--offline"@ || t[0] == "--frozen"@)
    ||| t.len() == 2 && ((t[0] == "--locked"@ && t[1] == "--offline"@) || (t[0] == "--offline"@ && t[1]
        == "--locked"@))
}

/// Whether an argument vector may run, and whether it makes warnings errors.
pub open spec fn validated(action: CargoAction, argv: Seq<Seq<char>>, a: Accepted) -> Option<bool> {
    if action == CargoAction::Build || argv.len() < 2 || argv[0] != "cargo"@ || argv[1] != action_word(
        action,
    ) {
        None
    } else {
        let t = argv.skip(2);
        if action == CargoAction::Format || action == CargoAction::Update {
            if t.len() == 0 {
                Some(false)
            } else {
                None
            }
        } else if action == CargoAction::Add {
            if t.len() == 1 && among(a.dependency_specs@, t[0]) {
                Some(false)
            } else {
                None
            }
        } else if action == CargoAction::Remove {
            if t.len() == 1 && among(a.crate_names@, t[0]) {
                Some(false)
            } else {
                None
            }
        } else if action == CargoAction::Clippy && ends_with_deny(t) {
            if is_lock_tail(t.take(t.len() - 3)) {
                Some(true)
            } else {
                None
            }
        } else if is_lock_tail(t) {
            Some(false)
        } else {
            None
        }
    }
}

fn has_lock_tail(argv: &Vec<String>, to: usize) -> (r: bool)
    requires
        2 <= to <= argv@.len(),
    ensures
        r == is_lock_tail(text::texts(argv@).subrange(2, to as int)),
{
    let ghost t = text::texts(argv@).subrange(2, to as int);
    if to == 2 {
        return true;
    }
    assert(t[0] == argv@[2]@);
    let first = argv[2].as_str();
    if to == 3 {
        return text::str_eq(first, "--locked") || text::str_eq(first, "--offline") || text::str_eq(
            first,
            "--frozen",
        );
    }
    if to == 4 {
        assert(t[1] == argv@[3]@);
        let second = argv[3].as_str();
        return (text::str_eq(first, "--locked") && text::str_eq(second, "--offline")) || (text::str_eq(
            first,
            "--offline",
        ) && text::str_eq(second, "--locked"));
    }
    false
}

pub fn validate_command(action: CargoAction, argv: &Vec<String>, accepted: &Accepted) -> (r: Result<
    bool,
    PreparationError,
>)
    ensures
        match validated(action, text::texts(argv@), *accepted) {
            Some(deny) => r == Ok::<bool, PreparationError>(deny),
            None => r == Err::<bool, PreparationError>(PreparationError::UnsupportedCommand),
        },
{
    let ghost all = text::texts(argv@);
    let ghost t = all.skip(2);
    if action == CargoAction::Build || argv.len() < 2 {
        return Err(PreparationError::UnsupportedCommand);
    }
    assert(all[0] == argv@[0]@ && all[1] == argv@[1]@);
    if !text::str_eq(argv[0].as_str(), "cargo") || !text::str_eq(
        argv[1].as_str(),
        action.subcommand(),
    ) {
        return Err(PreparationError::UnsupportedCommand);
    }
    let n: usize = argv.len();
    let mut allowed = false;
    let mut deny = false;
    if action == CargoAction::Format || action == CargoAction::Update {
        allowed = n == 2;
    } else if action == CargoAction::Add {
        if n == 3 {
            assert(t[0] == argv@[2]@);
            allowed = is_among(&accepted.dependency_specs, argv[2].as_str());
        }
    } else if action == CargoAction::Remove {
        if n == 3 {
            assert(t[0] == argv@[2]@);
            allowed = is_among(&accepted.crate_names, argv[2].as_str());
        }
    } else {
        if action == CargoAction::Clippy && n >= 5 {
            assert(t[t.len() - 3] == argv@[n - 3]@);
            assert(t[t.len() - 2] == argv@[n - 2]@);
            assert(t[t.len() - 1] == argv@[n - 1]@);
            deny = text::str_eq(argv[n - 3].as_str(), "--") && text::str_eq(
                argv[n - 2].as_str(),
                "-D",
            ) && text::str_eq(argv[n - 1].as_str(), "warnings");
        }
        if deny {
            allowed = has_lock_tail(argv, n - 3);
            assert(all.subrange(2, n - 3) =~= t.take(t.len() - 3));
        } else {
            allowed = has_lock_tail(argv, n);
            assert(all.subrange(2, n as int) =~= t);
        }
    }
    if allowed {
        Ok(deny)
    } else {
        Err(PreparationError::UnsupportedCommand)
    }
}

} // verus!
