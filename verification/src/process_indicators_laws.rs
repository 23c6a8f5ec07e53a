//! What holds of the facts of two recordings taken together.

use crate::model::ControlledAction;
use crate::process_indicators;
use crate::process_indicators::{CommandFacts, EditFacts, Facts, RejectionFacts};
use vstd::prelude::*;

verus! {

/// Whether a number is the sum of two.
pub open spec fn is_sum(n: u64, a: u64, b: u64) -> bool {
    n == a + b
}

/// Whether a list is what two lists hold one behind the other, up to the first 256.
pub open spec fn is_start_of_both<T>(list: Seq<T>, a: Seq<T>, b: Seq<T>) -> bool {
    &&& list.len() == if a.len() + b.len() <= 256 {
        a.len() + b.len()
    } else {
        256
    }
    &&& list == (a + b).take(list.len() as int)
}

pub open spec fn edits_add_up(m: EditFacts, a: EditFacts, b: EditFacts) -> bool {
    &&& is_sum(m.transactions, a.transactions, b.transactions)
    &&& is_sum(m.inserted_scalars, a.inserted_scalars, b.inserted_scalars)
    &&& is_start_of_both(m.links, a.links, b.links)
}

pub open spec fn rejections_add_up(m: RejectionFacts, a: RejectionFacts, b: RejectionFacts) -> bool {
    &&& is_sum(m.attempts, a.attempts, b.attempts)
    &&& is_start_of_both(m.links, a.links, b.links)
}

pub open spec fn commands_add_up(m: CommandFacts, a: CommandFacts, b: CommandFacts) -> bool {
    &&& m.action == a.action
    &&& is_sum(m.started, a.started, b.started)
    &&& is_sum(m.complete, a.complete, b.complete)
    &&& is_sum(m.exit_zero, a.exit_zero, b.exit_zero)
    &&& is_sum(m.nonzero_exit, a.nonzero_exit, b.nonzero_exit)
    &&& is_sum(m.compiler_errors, a.compiler_errors, b.compiler_errors)
    &&& is_sum(m.unknown, a.unknown, b.unknown)
    &&& is_start_of_both(m.links, a.links, b.links)
}

/// Whether a list has one entry for each kind of command, in the order in which they
/// are reported.
pub open spec fn lists_every_action(commands: Seq<CommandFacts>) -> bool {
    &&& commands.len() == 10
    &&& commands[0].action == ControlledAction::Build
    &&& commands[1].action == ControlledAction::Check
    &&& commands[2].action == ControlledAction::Test
    &&& commands[3].action == ControlledAction::Run
    &&& commands[4].action == ControlledAction::Clippy
    &&& commands[5].action == ControlledAction::Format
    &&& commands[6].action == ControlledAction::Doc
    &&& commands[7].action == ControlledAction::Add
    &&& commands[8].action == ControlledAction::Remove
    &&& commands[9].action == ControlledAction::Update
}

/// Facts as a recording has them: every kind of command is listed and no list of
/// links is longer than it may be.
pub open spec fn are_facts(f: Facts) -> bool {
    &&& lists_every_action(f.commands)
    &&& f.allowed_internal_paste.links.len() <= 256
    &&& f.historical_origin_unverified_paste.links.len() <= 256
    &&& f.unknown_origin_edit.links.len() <= 256
    &&& f.rejected_external_change.links.len() <= 256
    &&& f.rejected_paste.links.len() <= 256
    &&& forall|i: int| 0 <= i < 10 ==> (#[trigger] f.commands[i]).links.len() <= 256
}

pub open spec fn facts_add_up(m: Facts, a: Facts, b: Facts) -> bool {
    &&& edits_add_up(m.allowed_internal_paste, a.allowed_internal_paste, b.allowed_internal_paste)
    &&& edits_add_up(
        m.historical_origin_unverified_paste,
        a.historical_origin_unverified_paste,
        b.historical_origin_unverified_paste,
    )
    &&& edits_add_up(m.unknown_origin_edit, a.unknown_origin_edit, b.unknown_origin_edit)
    &&& rejections_add_up(
        m.rejected_external_change,
        a.rejected_external_change,
        b.rejected_external_change,
    )
    &&& rejections_add_up(m.rejected_paste, a.rejected_paste, b.rejected_paste)
    &&& m.commands.len() == a.commands.len()
    &&& forall|i: int|
        0 <= i < m.commands.len() ==> commands_add_up(
            #[trigger] m.commands[i],
            a.commands[i],
            b.commands[i],
        )
}

proof fn lemma_both<T>(a: Seq<T>, b: Seq<T>)
    requires
        a.len() <= 256,
    ensures
        is_start_of_both(process_indicators::kept_all(a, b), a, b),
{
    let list = process_indicators::kept_all(a, b);
    assert(list =~= (a + b).take(list.len() as int));
}

proof fn lemma_edits(a: EditFacts, b: EditFacts)
    requires
        a.links.len() <= 256,
    ensures
        match process_indicators::edits_merged(a, b) {
            Ok(m) => edits_add_up(m, a, b),
            Err(_) => a.transactions + b.transactions > u64::MAX || a.inserted_scalars
                + b.inserted_scalars > u64::MAX,
        },
{
    lemma_both(a.links, b.links);
}

proof fn lemma_rejections(a: RejectionFacts, b: RejectionFacts)
    requires
        a.links.len() <= 256,
    ensures
        match process_indicators::rejections_merged(a, b) {
            Ok(m) => rejections_add_up(m, a, b),
            Err(_) => a.attempts + b.attempts > u64::MAX,
        },
{
    lemma_both(a.links, b.links);
}

/// Whether none of the sums of two commands is too large.
pub open spec fn commands_fit(a: CommandFacts, b: CommandFacts) -> bool {
    &&& a.started + b.started <= u64::MAX
    &&& a.complete + b.complete <= u64::MAX
    &&& a.exit_zero + b.exit_zero <= u64::MAX
    &&& a.nonzero_exit + b.nonzero_exit <= u64::MAX
    &&& a.compiler_errors + b.compiler_errors <= u64::MAX
    &&& a.unknown + b.unknown <= u64::MAX
}

proof fn lemma_commands(a: CommandFacts, b: CommandFacts)
    requires
        a.links.len() <= 256,
    ensures
        match process_indicators::commands_merged(a, b) {
            Ok(m) => commands_add_up(m, a, b),
            Err(_) => !commands_fit(a, b),
        },
{
    lemma_both(a.links, b.links);
}

proof fn lemma_place(commands: Seq<CommandFacts>, i: int)
    requires
        lists_every_action(commands),
        0 <= i < 10,
    ensures
        process_indicators::index_of(commands[i].action) == i,
{
    if i == 0 {
    } else if i == 1 {
    } else if i == 2 {
    } else if i == 3 {
    } else if i == 4 {
    } else if i == 5 {
    } else if i == 6 {
    } else if i == 7 {
    } else if i == 8 {
    } else {
    }
}

proof fn lemma_lists(a: Seq<CommandFacts>, b: Seq<CommandFacts>, n: nat)
    requires
        lists_every_action(a),
        lists_every_action(b),
        forall|i: int| 0 <= i < 10 ==> (#[trigger] a[i]).links.len() <= 256,
        n <= 10,
    ensures
        match process_indicators::command_lists_merged(a, b, n) {
            Ok(m) => {
                &&& m.len() == 10
                &&& forall|i: int| 0 <= i < n ==> commands_add_up(#[trigger] m[i], a[i], b[i])
                &&& forall|i: int| n <= i < 10 ==> #[trigger] m[i] == a[i]
            },
            Err(_) => exists|i: int| 0 <= i < n && !commands_fit(#[trigger] a[i], b[i]),
        },
    decreases n,
{
    if n > 0 {
        lemma_lists(a, b, (n - 1) as nat);
        lemma_place(b, n - 1);
        assert(a[n - 1].links.len() <= 256);
        lemma_commands(a[n - 1], b[n - 1]);
        match process_indicators::command_lists_merged(a, b, (n - 1) as nat) {
            Ok(done) => {
                assert(done[n - 1] == a[n - 1]);
                match process_indicators::commands_merged(done[n - 1], b[n - 1]) {
                    Ok(c) => {
                        let m = done.update(n - 1, c);
                        assert forall|i: int| 0 <= i < n implies commands_add_up(
                            #[trigger] m[i],
                            a[i],
                            b[i],
                        ) by {
                            if i < n - 1 {
                                assert(m[i] == done[i]);
                            }
                        }
                        assert forall|i: int| n <= i < 10 implies #[trigger] m[i] == a[i] by {
                            assert(m[i] == done[i]);
                        }
                    },
                    Err(_) => {},
                }
            },
            Err(_) => {},
        }
    }
}

/// Two recordings are taken together by adding: every count is the sum of the two
/// counts, kind of command by kind of command, and the links of the second stand
/// behind those of the first, up to 256. It fails only where a sum is too large.
pub proof fn recordings_add_up(a: Facts, b: Facts)
    requires
        are_facts(a),
        are_facts(b),
    ensures
        match process_indicators::facts_merged(a, b) {
            Ok(m) => facts_add_up(m, a, b),
            Err(_) => forall|m: Facts| !#[trigger] facts_add_up(m, a, b),
        },
{
    lemma_edits(a.allowed_internal_paste, b.allowed_internal_paste);
    lemma_edits(a.historical_origin_unverified_paste, b.historical_origin_unverified_paste);
    lemma_edits(a.unknown_origin_edit, b.unknown_origin_edit);
    lemma_rejections(a.rejected_external_change, b.rejected_external_change);
    lemma_rejections(a.rejected_paste, b.rejected_paste);
    lemma_lists(a.commands, b.commands, 10);
    if process_indicators::facts_merged(a, b) is Err {
        assert forall|m: Facts| !#[trigger] facts_add_up(m, a, b) by {
            if facts_add_up(m, a, b) {
                if process_indicators::command_lists_merged(a.commands, b.commands, 10) is Err {
                    let i = choose|i: int|
                        0 <= i < 10 && !commands_fit(#[trigger] a.commands[i], b.commands[i]);
                    assert(commands_add_up(m.commands[i], a.commands[i], b.commands[i]));
                }
            }
        }
    }
}

/// A recording without facts adds nothing.
pub proof fn nothing_adds_nothing(a: Facts)
    requires
        are_facts(a),
    ensures
        are_facts(process_indicators::no_facts()),
        process_indicators::facts_merged(a, process_indicators::no_facts()) == Ok::<
            Facts,
            Seq<char>,
        >(a),
{
    let b = process_indicators::no_facts();
    recordings_add_up(a, b);
    match process_indicators::facts_merged(a, b) {
        Ok(m) => {
            assert forall|i: int| 0 <= i < 10 implies #[trigger] m.commands[i] == a.commands[i] by {
                assert(commands_add_up(m.commands[i], a.commands[i], b.commands[i]));
                assert((a.commands[i].links + b.commands[i].links).take(
                    a.commands[i].links.len() as int,
                ) =~= a.commands[i].links);
            }
            assert(m.commands =~= a.commands);
            assert(m.allowed_internal_paste.links =~= a.allowed_internal_paste.links);
            assert(m.historical_origin_unverified_paste.links
                =~= a.historical_origin_unverified_paste.links);
            assert(m.unknown_origin_edit.links =~= a.unknown_origin_edit.links);
            assert(m.rejected_external_change.links =~= a.rejected_external_change.links);
            assert(m.rejected_paste.links =~= a.rejected_paste.links);
        },
        Err(_) => {
            assert(facts_add_up(a, a, b)) by {
                assert forall|i: int| 0 <= i < 10 implies commands_add_up(
                    #[trigger] a.commands[i],
                    a.commands[i],
                    b.commands[i],
                ) by {
                    assert((a.commands[i].links + b.commands[i].links).take(
                        a.commands[i].links.len() as int,
                    ) =~= a.commands[i].links);
                }
                assert((a.allowed_internal_paste.links + b.allowed_internal_paste.links).take(
                    a.allowed_internal_paste.links.len() as int,
                ) =~= a.allowed_internal_paste.links);
                assert((a.historical_origin_unverified_paste.links
                    + b.historical_origin_unverified_paste.links).take(
                    a.historical_origin_unverified_paste.links.len() as int,
                ) =~= a.historical_origin_unverified_paste.links);
                assert((a.unknown_origin_edit.links + b.unknown_origin_edit.links).take(
                    a.unknown_origin_edit.links.len() as int,
                ) =~= a.unknown_origin_edit.links);
                assert((a.rejected_external_change.links + b.rejected_external_change.links).take(
                    a.rejected_external_change.links.len() as int,
                ) =~= a.rejected_external_change.links);
                assert((a.rejected_paste.links + b.rejected_paste.links).take(
                    a.rejected_paste.links.len() as int,
                ) =~= a.rejected_paste.links);
            }
        },
    }
}

} // verus!
