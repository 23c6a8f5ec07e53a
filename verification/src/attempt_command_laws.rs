//! What is known of the commands of an attempt.

use crate::attempt;
use crate::attempt::{Acc, Diagnosis};
use crate::diagnostics;
use crate::diagnostics::EvidenceRules;
use crate::model::{
    CommandOutcome, ControlledAction, ControlledCommandFinished, ControlledCommandOutput,
    ControlledCommandStarted,
};
use vstd::prelude::*;

verus! {

/// The word by which Cargo knows an action.
pub open spec fn is_word_of(word: Seq<char>, action: ControlledAction) -> bool {
    match action {
        ControlledAction::Build => word == "build"@,
        ControlledAction::Check => word == "check"@,
        ControlledAction::Test => word == "test"@,
        ControlledAction::Run => word == "run"@,
        ControlledAction::Clippy => word == "clippy"@,
        ControlledAction::Format => word == "fmt"@,
        ControlledAction::Doc => word == "doc"@,
        ControlledAction::Add => word == "add"@,
        ControlledAction::Remove => word == "remove"@,
        ControlledAction::Update => word == "update"@,
    }
}

/// Whether a program is Cargo, wherever it lies.
pub open spec fn is_cargo(program: Seq<char>) -> bool {
    ||| program == "cargo"@
    ||| exists|directory: Seq<char>| program == #[trigger] (directory.push('/') + "cargo"@)
    ||| exists|directory: Seq<char>| program == #[trigger] (directory.push('\\') + "cargo"@)
}

proof fn lemma_last_part(start: Seq<char>, name: Seq<char>)
    requires
        start.len() == 0 || start.last() == '/' || start.last() == '\\',
        forall|i: int| 0 <= i < name.len() ==> #[trigger] name[i] != '/' && name[i] != '\\',
    ensures
        attempt::last_part(start + name) == name,
    decreases name.len(),
{
    if name.len() == 0 {
        assert(start + name =~= start);
        assert(name =~= Seq::empty());
    } else {
        assert((start + name).drop_last() =~= start + name.drop_last());
        assert forall|i: int| 0 <= i < name.len() - 1 implies #[trigger] name.drop_last()[i] != '/'
            && name.drop_last()[i] != '\\' by {
            assert(name[i] != '/');
        }
        lemma_last_part(start, name.drop_last());
        assert(name[name.len() - 1] != '/');
        assert(name.drop_last().push(name.last()) =~= name);
    }
}

proof fn lemma_words()
    ensures
        "build"@.len() == 5 && "build"@[0] == 'b',
        "check"@.len() == 5 && "check"@[0] == 'c',
        "test"@.len() == 4,
        "run"@.len() == 3 && "run"@[0] == 'r',
        "clippy"@.len() == 6 && "clippy"@[0] == 'c',
        "fmt"@.len() == 3 && "fmt"@[0] == 'f',
        "doc"@.len() == 3 && "doc"@[0] == 'd',
        "add"@.len() == 3 && "add"@[0] == 'a',
        "remove"@.len() == 6 && "remove"@[0] == 'r',
        "update"@.len() == 6 && "update"@[0] == 'u',
{
    reveal_strlit("build");
    reveal_strlit("check");
    reveal_strlit("test");
    reveal_strlit("run");
    reveal_strlit("clippy");
    reveal_strlit("fmt");
    reveal_strlit("doc");
    reveal_strlit("add");
    reveal_strlit("remove");
    reveal_strlit("update");
}

/// A command of the older records is one of Cargo's where the program is Cargo and its
/// first word names an action.
pub proof fn an_older_command_is_known_by_its_words(
    program: Seq<char>,
    arguments: Seq<String>,
    action: ControlledAction,
)
    requires
        is_cargo(program),
        arguments.len() > 0,
        is_word_of(arguments[0]@, action),
    ensures
        attempt::legacy_action_of(program, arguments) == Some(action),
{
    reveal_strlit("cargo");
    if program == "cargo"@ {
        lemma_last_part(Seq::empty(), "cargo"@);
        assert(Seq::<char>::empty() + "cargo"@ =~= "cargo"@);
    } else if exists|directory: Seq<char>|
        program == #[trigger] (directory.push('/') + "cargo"@) {
        let directory = choose|directory: Seq<char>|
            program == #[trigger] (directory.push('/') + "cargo"@);
        lemma_last_part(directory.push('/'), "cargo"@);
    } else {
        let directory = choose|directory: Seq<char>|
            program == #[trigger] (directory.push('\\') + "cargo"@);
        lemma_last_part(directory.push('\\'), "cargo"@);
    }
    lemma_words();
}

/// No other command is taken for one of Cargo's.
pub proof fn no_other_command_is_known(program: Seq<char>, arguments: Seq<String>)
    ensures
        attempt::legacy_action_of(program, arguments) matches Some(action) ==> arguments.len() > 0
            && is_word_of(arguments[0]@, action) && attempt::last_part(program) == "cargo"@,
{
}

/// What a command prints is kept in the order in which it came. What another printed
/// is not taken for it, and puts a check or a test in doubt.
pub proof fn output_is_kept_in_order(a: Acc, output: ControlledCommandOutput)
    ensures
        a.active is None ==> attempt::output_seen(a, output) == a,
        a.active matches Some(active) ==> {
            let b = attempt::output_seen(a, output);
            &&& active.start.command_id@ == output.command_id@ ==> {
                &&& b.active matches Some(now) && now.output == active.output.push(output)
                    && now.start == active.start
                &&& b.values == a.values
                &&& b.unavailable == a.unavailable
            }
            &&& active.start.command_id@ != output.command_id@ ==> {
                &&& b.active == a.active
                &&& active.start.action is Check || active.start.action is Test ==> b.unavailable
                    is Some
                &&& b.values == a.values
            }
        },
{
}

/// The messages of a build are read where there are any: what compiles has them, unless
/// it was typed at the console without asking for them.
pub proof fn messages_are_read_where_there_are_any(
    start: ControlledCommandStarted,
    output: Seq<ControlledCommandOutput>,
    finish: ControlledCommandFinished,
    rules: EvidenceRules,
)
    ensures
        ({
            let asked = exists|i: int|
                0 <= i < start.argv@.len() && (#[trigger] start.argv@[i])@
                    == "--message-format=json"@;
            let compiles = start.action is Build || start.action is Check || start.action is Test
                || start.action is Run || start.action is Clippy || start.action is Doc;
            let d = attempt::diagnosis(start, output, finish, rules);
            &&& d is Some <==> compiles && (!start.console || asked)
            &&& d is Some ==> d->0.outcome == diagnostics::outcome_of(
                diagnostics::evidence_of(start, output, finish, rules),
                finish.outcome,
            )
        }),
{
}

/// A command is known where it exited, both its streams were captured whole and its
/// messages, where there are any, came to something.
pub proof fn a_command_is_known_where_all_of_it_is(
    start: ControlledCommandStarted,
    finish: ControlledCommandFinished,
    d: Diagnosis,
)
    requires
        !start.console,
    ensures
        attempt::evidence_known(start, finish, None) <==> finish.outcome is Exited
            && finish.stdout.completeness is Complete && finish.stderr.completeness is Complete,
        attempt::evidence_known(start, finish, Some(d)) <==> attempt::evidence_known(
            start,
            finish,
            None,
        ) && (d.outcome is Success || d.outcome is CompilerErrors || d.outcome is NonzeroExit),
{
}

/// What is told of a command that is not known: that it was not launched, what ended
/// it, or what was not captured.
pub proof fn what_is_not_known_is_told_why(finish: ControlledCommandFinished, d: Option<Diagnosis>)
    ensures
        finish.outcome is LaunchFailed ==> attempt::unknown_reason(finish, d) == "launch failure"@,
        finish.outcome matches CommandOutcome::Terminated { reason, .. } ==> {
            let why = attempt::unknown_reason(finish, d);
            &&& reason is Deadline ==> why == "timeout"@
            &&& reason is Cancelled || reason is Quit ==> why == "cancellation"@
            &&& !(reason is Deadline || reason is Cancelled || reason is Quit) ==> why
                == "incomplete execution"@
        },
        finish.outcome is Exited ==> {
            let why = attempt::unknown_reason(finish, d);
            &&& finish.stdout.completeness is Truncated ==> why == "truncated output"@
            &&& finish.stdout.completeness is ReadFailed ==> why == "output read failure"@
            &&& finish.stdout.completeness is Unavailable ==> why == "unavailable output"@
            &&& finish.stdout.completeness is Complete && finish.stderr.completeness is Truncated
                ==> why == "truncated output"@
        },
{
}

/// A command that is still open at the end is counted as unknown once, and puts an
/// attempt in doubt where it was a check or a test.
pub proof fn an_open_command_is_unknown_at_the_end(a: Acc)
    requires
        a.factual.commands.len() == 10,
    ensures
        a.active is None ==> attempt::closed(a) == Ok::<Acc, Seq<char>>(a),
        (a.active is Some && attempt::closed(a) is Ok) ==> {
            let b = attempt::closed(a)->Ok_0;
            let action = a.active->0.start.action;
            let i = crate::attempt_trace_laws::row(action);
            &&& b.active is None
            &&& b.values == a.values
            &&& b.factual.commands[i].unknown == a.factual.commands[i].unknown + 1
            &&& b.factual.commands[i].complete == a.factual.commands[i].complete
            &&& b.factual.commands[i].started == a.factual.commands[i].started
            &&& action is Check || action is Test ==> b.unavailable is Some
            &&& !(action is Check || action is Test) ==> b.unavailable == a.unavailable
        },
{
}

} // verus!
