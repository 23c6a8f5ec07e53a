//! What the console admits, said of the characters that were typed.

use crate::cargo_policy;
use crate::cargo_policy::{Accepted, CargoAction, Line, MAX_COMMAND_BYTES};
use crate::text;
use vstd::prelude::*;

verus! {

/// So many spaces.
pub open spec fn blanks(n: nat) -> Seq<char> {
    Seq::new(n, |i: int| ' ')
}

/// A word: some characters, none of them a space.
pub open spec fn is_word(w: Seq<char>) -> bool {
    w.len() > 0 && forall|i: int| 0 <= i < w.len() ==> #[trigger] w[i] != ' '
}

/// Words with spaces before each of them: the first may have none, the others have
/// some.
pub open spec fn spread(words: Seq<Seq<char>>, gaps: Seq<nat>) -> Seq<char>
    decreases words.len(),
{
    if words.len() == 0 {
        Seq::empty()
    } else {
        spread(words.drop_last(), gaps) + blanks(gaps[words.len() - 1]) + words.last()
    }
}

/// Whether a line is these words, with spaces between them and perhaps around.
pub open spec fn reads(input: Seq<char>, words: Seq<Seq<char>>, gaps: Seq<nat>, after: nat) -> bool {
    &&& gaps.len() == words.len()
    &&& forall|i: int| 0 <= i < words.len() ==> is_word(#[trigger] words[i])
    &&& forall|i: int| 0 < i < gaps.len() ==> #[trigger] gaps[i] > 0
    &&& input == spread(words, gaps) + blanks(after)
}

proof fn lemma_split_blanks(s: Seq<char>, n: nat)
    ensures
        n > 0 ==> cargo_policy::split(s + blanks(n)) == (cargo_policy::words_of(s), Seq::<char>::empty()),
        cargo_policy::words_of(s + blanks(n)) == cargo_policy::words_of(s),
    decreases n,
{
    let t = s + blanks(n);
    if n == 0 {
        assert(t =~= s);
    } else {
        assert(t.drop_last() =~= s + blanks((n - 1) as nat));
        assert(t.last() == ' ');
        lemma_split_blanks(s, (n - 1) as nat);
        if n == 1 {
            assert(s + blanks(0) =~= s);
        }
    }
}

proof fn lemma_split_word(s: Seq<char>, w: Seq<char>)
    requires
        forall|i: int| 0 <= i < w.len() ==> #[trigger] w[i] != ' ',
    ensures
        cargo_policy::split(s + w) == (cargo_policy::split(s).0, cargo_policy::split(s).1 + w),
    decreases w.len(),
{
    let t = s + w;
    if w.len() == 0 {
        assert(t =~= s);
        assert(cargo_policy::split(s).1 + w =~= cargo_policy::split(s).1);
    } else {
        assert(t.drop_last() =~= s + w.drop_last());
        assert(t.last() == w.last());
        lemma_split_word(s, w.drop_last());
        assert((cargo_policy::split(s).1 + w.drop_last()).push(w.last()) =~= cargo_policy::split(s).1 + w);
    }
}

proof fn lemma_spread(words: Seq<Seq<char>>, gaps: Seq<nat>)
    requires
        gaps.len() >= words.len(),
        forall|i: int| 0 <= i < words.len() ==> is_word(#[trigger] words[i]),
        forall|i: int| 0 < i < gaps.len() ==> #[trigger] gaps[i] > 0,
    ensures
        cargo_policy::words_of(spread(words, gaps)) == words,
    decreases words.len(),
{
    if words.len() == 0 {
        assert(cargo_policy::words_of(spread(words, gaps)) =~= words);
    } else {
        let n = words.len() - 1;
        let start = spread(words.drop_last(), gaps);
        let w = words.last();
        assert(is_word(words[n]));
        lemma_spread(words.drop_last(), gaps);
        lemma_split_blanks(start, gaps[n]);
        lemma_split_word(start + blanks(gaps[n]), w);
        if gaps[n] == 0 {
            assert(n == 0);
            assert(start =~= Seq::<char>::empty());
            assert(start + blanks(0) =~= Seq::<char>::empty());
        }
        assert(Seq::<char>::empty() + w =~= w);
        assert(words.drop_last().push(w) =~= words);
    }
}

/// A line is read as its words, however many spaces stand between and around them.
pub proof fn a_line_is_its_words(
    input: Seq<char>,
    words: Seq<Seq<char>>,
    gaps: Seq<nat>,
    after: nat,
)
    requires
        reads(input, words, gaps, after),
    ensures
        cargo_policy::words_of(input) == words,
{
    lemma_spread(words, gaps);
    lemma_split_blanks(spread(words, gaps), after);
}

/// A character with which no line is refused: a letter, a digit, or one of those
/// that paths, names and versions are made of.
pub open spec fn is_plain(c: char) -> bool {
    ||| 'a' <= c <= 'z'
    ||| 'A' <= c <= 'Z'
    ||| '0' <= c <= '9'
    ||| c == ' ' || c == '-' || c == '_' || c == '.' || c == '/' || c == '@' || c == '<' || c == '>'
        || c == '+' || c == '=' || c == '^' || c == ','
}

pub open spec fn is_plain_line(input: Seq<char>) -> bool {
    &&& input.len() > 0
    &&& text::byte_len(input) <= MAX_COMMAND_BYTES
    &&& forall|i: int| 0 <= i < input.len() ==> is_plain(#[trigger] input[i])
}

/// The words that an action without arguments is typed as.
pub open spec fn typed(action: CargoAction) -> Option<Seq<char>> {
    match action {
        CargoAction::Build => Some("build"@),
        CargoAction::Check => Some("check"@),
        CargoAction::Test => Some("test"@),
        CargoAction::Clippy => Some("clippy"@),
        CargoAction::Doc => Some("doc"@),
        CargoAction::Update => Some("update"@),
        _ => None,
    }
}

proof fn lemma_words_differ()
    ensures
        "build"@ != "run"@,
        "check"@ != "run"@,
        "test"@ != "run"@,
        "clippy"@ != "run"@,
        "doc"@ != "run"@,
        "update"@ != "run"@,
        "add"@ != "run"@,
        "remove"@ != "run"@,
        "check"@ != "build"@,
        "test"@ != "build"@,
        "clippy"@ != "build"@,
        "doc"@ != "build"@,
        "update"@ != "build"@,
        "test"@ != "check"@,
        "clippy"@ != "check"@,
        "doc"@ != "check"@,
        "update"@ != "check"@,
        "clippy"@ != "test"@,
        "doc"@ != "test"@,
        "update"@ != "test"@,
        "doc"@ != "clippy"@,
        "update"@ != "clippy"@,
        "update"@ != "doc"@,
        "remove"@ != "add"@,
        "<"@ != ">"@,
        "<"@ != "--release"@,
        ">"@ != "--release"@,
{
    reveal_strlit("build");
    reveal_strlit("check");
    reveal_strlit("test");
    reveal_strlit("run");
    reveal_strlit("clippy");
    reveal_strlit("doc");
    reveal_strlit("update");
    reveal_strlit("add");
    reveal_strlit("remove");
    reveal_strlit("<");
    reveal_strlit(">");
    reveal_strlit("--release");
    assert("check"@[0] != "build"@[0]);
    assert("remove"@.len() != "run"@.len());
    assert("clippy"@.len() != "check"@.len());
    assert("doc"@[0] != "run"@[0]);
    assert("add"@[0] != "run"@[0]);
    assert("update"@[0] != "clippy"@[0]);
    assert("<"@[0] != ">"@[0]);
}

proof fn lemma_plain_is_literal(input: Seq<char>)
    requires
        is_plain_line(input),
    ensures
        cargo_policy::is_literal(input),
{
    assert forall|i: int| 0 <= i < input.len() implies !cargo_policy::is_refused(#[trigger] input[i]) by {
        assert(is_plain(input[i]));
    }
}

/// Each command that takes no arguments is admitted, as its action and its words:
/// whoever types `cargo` and the word gets that action.
pub proof fn a_plain_command_is_admitted(
    input: Seq<char>,
    action: CargoAction,
    gaps: Seq<nat>,
    after: nat,
    a: Accepted,
)
    requires
        typed(action) is Some,
        reads(input, seq!["cargo"@, typed(action)->0], gaps, after),
        is_plain_line(input),
    ensures
        cargo_policy::command_of(input, a) == Some(
            Line { action, argv: seq!["cargo"@, typed(action)->0], stdin: None, stdout: None },
        ),
{
    a_line_is_its_words(input, seq!["cargo"@, typed(action)->0], gaps, after);
    lemma_plain_is_literal(input);
    lemma_words_differ();
}

/// A dependency that is accepted can be added, and a crate that is accepted removed.
pub proof fn a_dependency_command_is_admitted(
    input: Seq<char>,
    adds: bool,
    name: Seq<char>,
    gaps: Seq<nat>,
    after: nat,
    a: Accepted,
)
    requires
        reads(
            input,
            seq![
                "cargo"@,
                if adds {
                    "add"@
                } else {
                    "remove"@
                },
                name,
            ],
            gaps,
            after,
        ),
        is_plain_line(input),
    ensures
        ({
            let found = if adds {
                exists|i: int|
                    0 <= i < a.dependency_specs@.len() && (#[trigger] a.dependency_specs@[i])@ == name
            } else {
                exists|i: int| 0 <= i < a.crate_names@.len() && (#[trigger] a.crate_names@[i])@ == name
            };
            let line = cargo_policy::command_of(input, a);
            &&& found <==> line is Some
            &&& found ==> line->0.action == (if adds {
                CargoAction::Add
            } else {
                CargoAction::Remove
            })
            &&& found ==> line->0.argv == seq![
                "cargo"@,
                if adds {
                    "add"@
                } else {
                    "remove"@
                },
                name,
            ] && line->0.stdin is None && line->0.stdout is None
        }),
{
    let words = seq![
        "cargo"@,
        if adds {
            "add"@
        } else {
            "remove"@
        },
        name,
    ];
    a_line_is_its_words(input, words, gaps, after);
    lemma_plain_is_literal(input);
    lemma_words_differ();
}

/// The words of a run: perhaps for release, perhaps with a file for its input, and
/// perhaps with one for its output.
pub open spec fn run_words(release: bool, stdin: Option<Seq<char>>, stdout: Option<Seq<char>>) -> Seq<
    Seq<char>,
> {
    seq!["cargo"@, "run"@] + (if release {
        seq!["--release"@]
    } else {
        Seq::empty()
    }) + (match stdin {
        Some(p) => seq!["<"@, p],
        None => Seq::empty(),
    }) + (match stdout {
        Some(p) => seq![">"@, p],
        None => Seq::empty(),
    })
}

pub open spec fn is_file(path: Option<Seq<char>>, a: Accepted) -> bool {
    path matches Some(p) ==> {
        &&& exists|i: int| 0 <= i < a.workspace_paths@.len() && (#[trigger] a.workspace_paths@[i])@ == p
        &&& p != "--release"@
        &&& forall|i: int| 0 <= i < p.len() ==> #[trigger] p[i] != '<' && p[i] != '>'
    }
}

/// A run is admitted with the files that it names, as long as they are two, and of
/// the workspace.
pub proof fn a_run_is_admitted_with_its_files(
    input: Seq<char>,
    release: bool,
    stdin: Option<Seq<char>>,
    stdout: Option<Seq<char>>,
    gaps: Seq<nat>,
    after: nat,
    a: Accepted,
)
    requires
        reads(input, run_words(release, stdin, stdout), gaps, after),
        is_plain_line(input),
        is_file(stdin, a),
        is_file(stdout, a),
        stdin is Some ==> stdin != stdout,
    ensures
        cargo_policy::command_of(input, a) == Some(
            Line {
                action: CargoAction::Run,
                argv: if release {
                    seq!["cargo"@, "run"@, "--release"@]
                } else {
                    seq!["cargo"@, "run"@]
                },
                stdin,
                stdout,
            },
        ),
{
    let w = run_words(release, stdin, stdout);
    a_line_is_its_words(input, w, gaps, after);
    lemma_plain_is_literal(input);
    lemma_words_differ();
    reveal_with_fuel(cargo_policy::redirected, 4);
    let from: int = if release {
        3
    } else {
        2
    };
    assert(w[0] == "cargo"@ && w[1] == "run"@);
    assert(release ==> w[2] == "--release"@);
    if stdin is Some {
        assert(w[from] == "<"@);
        assert(w[from + 1] == stdin->0);
        if stdout is Some {
            assert(w[from + 2] == ">"@);
            assert(w[from + 3] == stdout->0);
        }
    } else if stdout is Some {
        assert(w[from] == ">"@);
        assert(w[from + 1] == stdout->0);
    }
}

/// What is admitted is `cargo` with one of nine words, and of the line that was typed
/// no character means anything to a shell.
pub proof fn nothing_else_is_admitted(input: Seq<char>, a: Accepted)
    requires
        cargo_policy::command_of(input, a) is Some,
    ensures
        ({
            let line = cargo_policy::command_of(input, a)->0;
            &&& line.argv[0] == "cargo"@
            &&& line.argv[1] == (match line.action {
                CargoAction::Run => "run"@,
                CargoAction::Add => "add"@,
                CargoAction::Remove => "remove"@,
                other => typed(other)->0,
            })
            &&& line.action != CargoAction::Format
            &&& typed(line.action) is Some ==> line.argv.len() == 2
            &&& line.action == CargoAction::Add || line.action == CargoAction::Remove
                ==> line.argv.len() == 3
        }),
        forall|i: int|
            0 <= i < input.len() ==> {
                let c = #[trigger] input[i];
                c != ';' && c != '|' && c != '&' && c != '$' && c != '`' && c != '\'' && c != '"' && c
                    != '\\' && c != '*' && c != '?' && c != '(' && c != ')' && c != '\n' && c != '#' && c
                    != '{' && c != '}' && c != '[' && c != ']' && c != '!' && c != '~' && c != '\t'
            },
        text::byte_len(input) <= MAX_COMMAND_BYTES,
{
    assert forall|i: int| 0 <= i < input.len() implies !cargo_policy::is_refused(#[trigger] input[i]) by {}
}

/// The words for checking, testing and the like may be followed by flags that keep
/// the lock file and the network as they are, and by nothing else; only lints take
/// the demand that warnings are errors.
pub proof fn an_instructed_command_is_its_action(
    action: CargoAction,
    tail: Seq<Seq<char>>,
    deny: bool,
    a: Accepted,
)
    requires
        action is Check || action is Test || action is Run || action is Clippy || action is Doc,
        deny ==> action is Clippy,
        tail == Seq::<Seq<char>>::empty() || tail == seq!["--locked"@] || tail == seq!["--offline"@]
            || tail == seq!["--frozen"@] || tail == seq!["--locked"@, "--offline"@] || tail == seq![
            "--offline"@,
            "--locked"@,
        ],
    ensures
        cargo_policy::validated(
            action,
            seq![
                "cargo"@,
                match action {
                    CargoAction::Check => "check"@,
                    CargoAction::Test => "test"@,
                    CargoAction::Run => "run"@,
                    CargoAction::Clippy => "clippy"@,
                    _ => "doc"@,
                },
            ] + tail + (if deny {
                seq!["--"@, "-D"@, "warnings"@]
            } else {
                Seq::empty()
            }),
            a,
        ) == Some(deny),
{
    let word = match action {
        CargoAction::Check => "check"@,
        CargoAction::Test => "test"@,
        CargoAction::Run => "run"@,
        CargoAction::Clippy => "clippy"@,
        _ => "doc"@,
    };
    let end = if deny {
        seq!["--"@, "-D"@, "warnings"@]
    } else {
        Seq::<Seq<char>>::empty()
    };
    let argv = seq!["cargo"@, word] + tail + end;
    assert(argv.skip(2) =~= tail + end);
    if deny {
        assert((tail + end).take(tail.len() as int) =~= tail);
    } else {
        assert(tail + end =~= tail);
    }
}

} // verus!
