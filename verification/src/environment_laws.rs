//! What the probes of an environment come to.

use crate::environment;
use crate::environment::{
    ChildOutcome, DiagnosticLevel, Finding, Ran, Requirement, Tool, ToolStatus,
};
use crate::text;
use vstd::prelude::*;

verus! {

/// Six tools are looked for, in this order and by these commands. Three of them are
/// needed.
pub proof fn six_tools_are_looked_for(runs: Seq<Ran>)
    ensures
        ({
            let found = environment::findings_of(runs);
            &&& found.len() == 6
            &&& found[0].component == "rustup"@
            &&& found[0].command == "rustup"@ + " "@ + "--version"@
            &&& found[0].requirement == Requirement::Required
            &&& found[1].component == "Rust compiler"@
            &&& found[1].command == "rustc"@ + " "@ + "-vV"@
            &&& found[1].requirement == Requirement::Required
            &&& found[2].component == "Cargo"@
            &&& found[2].command == "cargo"@ + " "@ + "-V"@
            &&& found[2].requirement == Requirement::Required
            &&& found[3].component == "rust-analyzer"@
            &&& found[3].command == "rust-analyzer"@ + " "@ + "--version"@
            &&& found[3].requirement == Requirement::Optional
            &&& found[4].component == "rustfmt"@
            &&& found[4].command == "rustfmt"@ + " "@ + "--version"@
            &&& found[4].requirement == Requirement::Optional
            &&& found[5].component == "Clippy"@
            &&& found[5].command == "cargo"@ + " "@ + "clippy"@ + " "@ + "-V"@
            &&& found[5].requirement == Requirement::Optional
        }),
{
}

/// A tool is available where its command succeeded. One that is not is an error
/// where it is needed and a warning where it is not, and then there is a remedy.
pub proof fn a_tool_is_available_where_its_command_succeeded(tool: Tool, run: Ran)
    ensures
        ({
            let f: Finding = environment::finding(tool, run);
            &&& f.status == ToolStatus::Available <==> run is Succeeded
            &&& f.status == ToolStatus::NotFound <==> run is NotFound
            &&& f.status == ToolStatus::Failed <==> run is Failed
            &&& f.status == ToolStatus::TimedOut <==> run is TimedOut
            &&& f.level == DiagnosticLevel::Info <==> run is Succeeded
            &&& f.level == DiagnosticLevel::Error <==> !(run is Succeeded) && tool.requirement
                == Requirement::Required
            &&& run is Succeeded ==> f.remediation == ""@
            &&& !(run is Succeeded) ==> f.remediation == tool.remediation
            &&& f.component == tool.component
            &&& f.command == tool.command
            &&& f.requirement == tool.requirement
        }),
{
}

/// What a command showed is kept as evidence: its code where it ended, its limit where
/// that ended it, and what it printed.
pub proof fn what_a_command_showed_is_kept(tool: Tool, run: Ran)
    ensures
        ({
            let e = environment::finding(tool, run).evidence;
            match run {
                Ran::NotFound => e.exit_code is None && e.timeout_ms is None && e.stdout is None
                    && e.stderr is None,
                Ran::Succeeded { stdout, stderr } => e.exit_code == Some(0i32) && e.timeout_ms
                    is None && e.stdout == environment::concise(stdout) && e.stderr
                    == environment::concise(stderr),
                Ran::Failed { exit_code, stdout, stderr } => e.exit_code == exit_code && e.timeout_ms
                    is None && e.stdout == environment::concise(stdout) && e.stderr
                    == environment::concise(stderr),
                Ran::TimedOut { timeout, stdout, stderr } => e.exit_code is None && e.timeout_ms
                    == Some(timeout) && e.stdout == environment::concise(stdout) && e.stderr
                    == environment::concise(stderr),
            }
        }),
{
}

/// Whether a character is shown in evidence as it is.
pub open spec fn is_shown(c: char) -> bool {
    !text::is_white(c) && !text::is_control(c)
}

pub open spec fn is_shown_word(word: Seq<char>) -> bool {
    word.len() > 0 && forall|i: int| 0 <= i < word.len() ==> is_shown(#[trigger] word[i])
}

proof fn lemma_shown_word(s: Seq<char>, word: Seq<char>)
    requires
        s.len() == 0 || !is_shown(s.last()),
        is_shown_word(word),
    ensures
        environment::squeezed(s + word) == (
            if environment::squeezed(s).0.len() == 0 {
                word
            } else {
                environment::squeezed(s).0 + " "@ + word
            },
            false,
        ),
    decreases word.len(),
{
    reveal_strlit(" ");
    let n = environment::squeezed(s).0;
    assert((s + word).drop_last() =~= s + word.drop_last());
    assert(is_shown(word[word.len() - 1]));
    if word.len() == 1 {
        assert(word.drop_last() =~= Seq::empty());
        assert(s + word.drop_last() =~= s);
        assert(word =~= seq![word.last()]);
        if s.len() > 0 {
            assert(environment::squeezed(s).1 == (n.len() > 0));
        }
        assert(n.push(' ').push(word.last()) =~= n + " "@ + word);
        assert(Seq::<char>::empty().push(word.last()) =~= word);
        if n.len() == 0 {
            assert(n.push(word.last()) =~= word);
        }
    } else {
        assert forall|i: int| 0 <= i < word.len() - 1 implies is_shown(
            #[trigger] word.drop_last()[i],
        ) by {
            assert(is_shown(word[i]));
        }
        lemma_shown_word(s, word.drop_last());
        assert((n + " "@ + word.drop_last()).push(word.last()) =~= n + " "@ + word);
        assert(word.drop_last().push(word.last()) =~= word);
    }
}

/// Evidence is what was printed, word by word: white space and control characters at
/// its end are dropped, and what stands between two words becomes one blank.
pub proof fn evidence_is_what_was_printed(s: Seq<char>, word: Seq<char>, c: char)
    ensures
        environment::squeezed(Seq::empty()).0 == Seq::<char>::empty(),
        !is_shown(c) ==> environment::squeezed(s.push(c)).0 == environment::squeezed(s).0,
        is_shown_word(word) && (s.len() == 0 || !is_shown(s.last())) ==> environment::squeezed(
            s + word,
        ).0 == if environment::squeezed(s).0.len() == 0 {
            word
        } else {
            environment::squeezed(s).0 + " "@ + word
        },
{
    assert(s.push(c).drop_last() =~= s);
    if is_shown_word(word) && (s.len() == 0 || !is_shown(s.last())) {
        lemma_shown_word(s, word);
    }
}

/// Evidence of up to one hundred and sixty characters is kept whole. Of longer
/// evidence these are kept and the cut is marked.
pub proof fn evidence_is_kept_or_its_cut_is_marked(s: Seq<char>)
    requires
        s.len() <= 16384,
    ensures
        ({
            let words = environment::squeezed(s).0;
            &&& words.len() == 0 ==> environment::concise(s) is None
            &&& 0 < words.len() <= 160 ==> environment::concise(s) == Some(words)
            &&& words.len() > 160 ==> environment::concise(s) == Some(words.take(160) + "…"@)
        }),
{
}

/// What is captured of a stream is its beginning, however it comes in pieces.
pub proof fn a_capture_is_the_beginning(a: Seq<u8>, b: Seq<u8>, limit: usize)
    ensures
        ({
            let first = environment::captured_with(Seq::empty(), a, limit);
            let both = environment::captured_with(first, b, limit);
            &&& both.len() == if a.len() + b.len() <= limit {
                a.len() + b.len()
            } else {
                limit as nat
            }
            &&& both == (a + b).take(both.len() as int)
        }),
{
    let first = environment::captured_with(Seq::empty(), a, limit);
    let both = environment::captured_with(first, b, limit);
    assert(first =~= a.take(first.len() as int));
    assert(both =~= (a + b).take(both.len() as int));
}

/// A command succeeded where it ended well and its output was read to the end.
pub proof fn a_command_succeeded_where_it_ended_well(
    outcome: ChildOutcome,
    finished: bool,
    timeout: u64,
    stdout: Seq<char>,
    stderr: Seq<char>,
)
    ensures
        ({
            let run = environment::ran_of(outcome, finished, timeout, stdout, stderr);
            &&& run is Succeeded <==> finished && outcome is Exited && outcome->success
            &&& run is TimedOut <==> !finished || outcome is TimedOut
            &&& run is Failed <==> finished && (outcome is Failed || (outcome is Exited
                && !outcome->success))
            &&& run matches Ran::TimedOut { timeout: t, .. } ==> t == timeout
            &&& run matches Ran::Succeeded { stdout: o, stderr: e } ==> o == stdout && e == stderr
            &&& (finished && outcome is Exited && !outcome->success) ==> run == (Ran::Failed {
                exit_code: outcome->code,
                stdout,
                stderr,
            })
        }),
{
}

} // verus!
