//! What holds of the test cases and of what is told of them.

use crate::console;
use crate::console::{CaseRead, NamingState};
use crate::model::{CaptureCompleteness, CommandOutcome, CommandTermination};
use crate::text;
use vstd::prelude::*;

verus! {

// Where two outputs part.

/// How many newlines stand in some bytes.
pub open spec fn newlines(bytes: Seq<u8>) -> nat
    decreases bytes.len(),
{
    if bytes.len() == 0 {
        0
    } else {
        newlines(bytes.drop_last()) + if bytes.last() == 10 {
            1nat
        } else {
            0nat
        }
    }
}

/// Whether some bytes are whole lines.
pub open spec fn are_lines(bytes: Seq<u8>) -> bool {
    bytes.len() == 0 || bytes.last() == 10
}

/// Whether some bytes begin with a line: no newline stands in it, and behind it there
/// is one or nothing at all.
pub open spec fn begin_with(bytes: Seq<u8>, line: Seq<u8>, ended: bool) -> bool {
    &&& line.len() <= bytes.len()
    &&& bytes.take(line.len() as int) == line
    &&& forall|i: int| 0 <= i < line.len() ==> #[trigger] line[i] != 10
    &&& ended ==> line.len() < bytes.len() && bytes[line.len() as int] == 10
    &&& !ended ==> line.len() == bytes.len()
}

proof fn lemma_feed_at(bytes: Seq<u8>, from: nat, k: nat)
    requires
        from <= k <= bytes.len(),
        forall|i: int| from <= i < k ==> #[trigger] bytes[i] != 10,
        k < bytes.len() ==> bytes[k as int] == 10,
    ensures
        console::feed_at(bytes, from) == k,
    decreases k - from,
{
    if from < k {
        lemma_feed_at(bytes, from + 1, k);
    }
}

proof fn lemma_begins(bytes: Seq<u8>, line: Seq<u8>, ended: bool)
    requires
        begin_with(bytes, line, ended),
    ensures
        bytes.len() > 0 ==> console::first_line(bytes) == Some((line, ended)),
        console::line_bytes(console::first_line(bytes)) == line,
{
    assert forall|i: int| 0 <= i < line.len() implies #[trigger] bytes[i] != 10 by {
        assert(bytes[i] == bytes.take(line.len() as int)[i]);
        assert(line[i] != 10);
    }
    lemma_feed_at(bytes, 0, line.len());
}

proof fn lemma_newlines_concat(a: Seq<u8>, b: Seq<u8>)
    ensures
        newlines(a + b) == newlines(a) + newlines(b),
    decreases b.len(),
{
    if b.len() == 0 {
        assert(a + b =~= a);
    } else {
        assert((a + b).drop_last() =~= a + b.drop_last());
        lemma_newlines_concat(a, b.drop_last());
    }
}

proof fn lemma_no_newlines(line: Seq<u8>)
    requires
        forall|i: int| 0 <= i < line.len() ==> #[trigger] line[i] != 10,
    ensures
        newlines(line) == 0,
    decreases line.len(),
{
    if line.len() > 0 {
        assert forall|i: int| 0 <= i < line.len() - 1 implies #[trigger] line.drop_last()[i] != 10 by {
            assert(line[i] != 10);
        }
        assert(line[line.len() - 1] != 10);
        lemma_no_newlines(line.drop_last());
    }
}

/// Two outputs part in the first line that is not the same in both: where they agree
/// in some whole lines and then go on with two lines that differ, that line is told,
/// counted from one, with what stands on it in each.
pub proof fn outputs_part_where_they_differ(
    common: Seq<u8>,
    expected: Seq<u8>,
    actual: Seq<u8>,
    e: Seq<u8>,
    e_ended: bool,
    a: Seq<u8>,
    a_ended: bool,
    at: nat,
)
    requires
        are_lines(common),
        begin_with(expected, e, e_ended),
        begin_with(actual, a, a_ended),
        e != a || e_ended != a_ended,
    ensures
        console::difference(common + expected, common + actual, at) == (
            at + newlines(common),
            e,
            a,
        ),
    decreases common.len(),
{
    if common.len() == 0 {
        assert(common + expected =~= expected);
        assert(common + actual =~= actual);
        lemma_begins(expected, e, e_ended);
        lemma_begins(actual, a, a_ended);
        if expected.len() == 0 && actual.len() == 0 {
            assert(e =~= a);
        }
    } else {
        let k = console::feed_at(common, 0);
        lemma_first_feed(common, 0);
        let line = common.take(k as int);
        let rest = common.skip(k as int + 1);
        let x = common + expected;
        let y = common + actual;
        assert(x.take(line.len() as int) =~= line);
        assert(y.take(line.len() as int) =~= line);
        assert(x[k as int] == common[k as int]);
        assert(y[k as int] == common[k as int]);
        assert(begin_with(x, line, true));
        assert(begin_with(y, line, true));
        lemma_begins(x, line, true);
        lemma_begins(y, line, true);
        lemma_feed_at_of(x, line);
        lemma_feed_at_of(y, line);
        assert(console::other_lines(x) =~= rest + expected);
        assert(console::other_lines(y) =~= rest + actual);
        if rest.len() > 0 {
            assert(rest.last() == common.last());
        }
        outputs_part_where_they_differ(rest, expected, actual, e, e_ended, a, a_ended, at + 1);
        assert(common =~= line + seq![10u8] + rest);
        lemma_newlines_concat(line + seq![10u8], rest);
        lemma_newlines_concat(line, seq![10u8]);
        lemma_no_newlines(line);
        assert(seq![10u8].drop_last() =~= Seq::empty());
        assert(newlines(seq![10u8]) == 1) by {
            reveal_with_fuel(newlines, 2);
        }
    }
}

proof fn lemma_feed_at_of(bytes: Seq<u8>, line: Seq<u8>)
    requires
        begin_with(bytes, line, true),
    ensures
        console::feed_at(bytes, 0) == line.len(),
{
    assert forall|i: int| 0 <= i < line.len() implies #[trigger] bytes[i] != 10 by {
        assert(bytes[i] == bytes.take(line.len() as int)[i]);
        assert(line[i] != 10);
    }
    lemma_feed_at(bytes, 0, line.len());
}

proof fn lemma_first_feed(bytes: Seq<u8>, from: nat)
    requires
        from < bytes.len(),
        bytes.last() == 10,
    ensures
        from <= console::feed_at(bytes, from) < bytes.len(),
        bytes[console::feed_at(bytes, from) as int] == 10,
        forall|i: int| from <= i < console::feed_at(bytes, from) ==> #[trigger] bytes[i] != 10,
    decreases bytes.len() - from,
{
    if bytes[from as int] != 10 {
        lemma_first_feed(bytes, from + 1);
    }
}

// The files of a test case.

/// Whether a text can name a test case: letters, digits, dashes and underscores.
pub open spec fn can_name(name: Seq<char>, longest: usize) -> bool {
    &&& 0 < name.len() <= longest
    &&& forall|i: int|
        0 <= i < name.len() ==> {
            let c = #[trigger] name[i];
            ('a' <= c <= 'z') || ('A' <= c <= 'Z') || ('0' <= c <= '9') || c == '-' || c == '_'
        }
}

proof fn lemma_endings(name: Seq<char>)
    ensures
        console::without(name + ".in"@, ".in"@) == Some(name),
        console::without(name + ".expected"@, ".expected"@) == Some(name),
        console::without(name + ".expected"@, ".in"@) is None,
{
    reveal_strlit(".in");
    reveal_strlit(".expected");
    let a = name + ".in"@;
    let b = name + ".expected"@;
    assert(a.skip(a.len() - 3) =~= ".in"@);
    assert(a.take(a.len() - 3) =~= name);
    assert(b.skip(b.len() - 9) =~= ".expected"@);
    assert(b.take(b.len() - 9) =~= name);
    assert(b.skip(b.len() - 3)[2] == 'd');
    assert(".in"@[2] == 'n');
}

/// A test case is named by its files: `name.in` is what it reads and `name.expected`
/// what it should print, where the name is made of letters, digits, dashes and
/// underscores. No other file belongs to a test case.
pub proof fn a_case_is_named_by_its_files(path: Seq<char>, name: Seq<char>, longest: usize)
    ensures
        console::case_file(path, longest) == Some((name, true)) <==> can_name(name, longest)
            && path == name + ".in"@,
        console::case_file(path, longest) == Some((name, false)) <==> can_name(name, longest)
            && path == name + ".expected"@,
{
    lemma_endings(name);
    assert(can_name(name, longest) == console::is_case_name(name, longest));
    match console::without(path, ".in"@) {
        Some(n) => {
            assert(path =~= n + ".in"@);
        },
        None => {
            match console::without(path, ".expected"@) {
                Some(n) => {
                    assert(path =~= n + ".expected"@);
                },
                None => {},
            }
        },
    }
}

/// A test case is known by the hash of both its files: what is read first is what it
/// reads and what is read next what it should print, each of at most a mebibyte and
/// both within what is left of the allowance.
pub proof fn a_case_is_known_by_both_files(s: NamingState, input: Vec<u8>, expected: Vec<u8>)
    requires
        s.next < s.identities.len(),
        s.input is None,
        input@.len() <= 1048576,
        expected@.len() <= 1048576,
        input@.len() + expected@.len() <= s.remaining,
    ensures
        ({
            let t = console::read_taken(
                console::read_taken(s, CaseRead::Bytes(input)),
                CaseRead::Bytes(expected),
            );
            &&& t.identities == s.identities.update(
                s.next as int,
                Some(console::blake3_of(console::pair_input(input@, expected@))),
            )
            &&& t.next == s.next + 1
            &&& t.input is None
            &&& t.remaining == s.remaining - input@.len() - expected@.len()
        }),
{
}

/// The number that some bytes stand for, the lowest first.
pub open spec fn number_of(bytes: Seq<u8>) -> nat
    decreases bytes.len(),
{
    if bytes.len() == 0 {
        0
    } else {
        bytes[0] as nat + 256 * number_of(bytes.skip(1))
    }
}

proof fn lemma_number(n: nat, k: nat)
    ensures
        console::le_bytes(n, k).len() == k,
        n < vstd::arithmetic::power::pow(256, k) ==> number_of(console::le_bytes(n, k)) == n,
    decreases k,
{
    vstd::arithmetic::power::lemma_pow0(256);
    if k > 0 {
        lemma_number(n / 256, (k - 1) as nat);
        let b = console::le_bytes(n, k);
        assert(b.skip(1) =~= console::le_bytes(n / 256, (k - 1) as nat));
        vstd::arithmetic::power::lemma_pow_adds(256, 1, (k - 1) as nat);
        vstd::arithmetic::power::lemma_pow1(256);
    }
}

/// A length is written in eight bytes and can be read back from them.
pub proof fn a_length_reads_back(n: u64)
    ensures
        console::le_bytes(n as nat, 8).len() == 8,
        number_of(console::le_bytes(n as nat, 8)) == n,
{
    lemma_number(n as nat, 8);
    assert(vstd::arithmetic::power::pow(256, 8) == 18446744073709551616) by {
        reveal(vstd::arithmetic::power::pow);
        reveal_with_fuel(vstd::arithmetic::power::pow, 9);
    }
}

/// What a run is blamed for: that it was not launched, what ended it, its exit code,
/// or that its output was not read whole. A run that exited with zero and was read
/// whole is blamed for nothing.
pub proof fn a_run_is_blamed_for_what_went_wrong(outcome: CommandOutcome, completeness: CaptureCompleteness)
    ensures
        console::run_error(outcome, completeness) is None <==> outcome == (CommandOutcome::Exited {
            code: 0,
        }) && completeness == CaptureCompleteness::Complete,
        outcome is LaunchFailed ==> console::run_error(outcome, completeness) == Some(
            "launch failed"@,
        ),
        outcome matches CommandOutcome::Terminated { reason, .. } ==> {
            let why = console::run_error(outcome, completeness);
            &&& reason == CommandTermination::Cancelled ==> why == Some("cancelled"@)
            &&& reason == CommandTermination::Quit ==> why == Some("quit"@)
            &&& reason == CommandTermination::Deadline ==> why == Some("deadline exceeded"@)
            &&& reason == CommandTermination::OutputLimit ==> why == Some("output limit exceeded"@)
            &&& reason == CommandTermination::CaptureFailure ==> why == Some("capture failed"@)
            &&& reason == CommandTermination::Signal ==> why == Some("terminated by signal"@)
            &&& reason == CommandTermination::CleanupFailure ==> why == Some(
                "process cleanup failed"@,
            )
        },
        outcome matches CommandOutcome::Exited { code } ==> {
            let why = console::run_error(outcome, completeness);
            &&& code != 0 ==> why == Some("exit "@ + text::signed(code as int))
            &&& code == 0 && completeness == CaptureCompleteness::Truncated ==> why == Some(
                "stdout capture was truncated"@,
            )
            &&& code == 0 && completeness == CaptureCompleteness::ReadFailed ==> why == Some(
                "stdout capture read failed"@,
            )
            &&& code == 0 && completeness == CaptureCompleteness::Unavailable ==> why == Some(
                "stdout capture is unavailable"@,
            )
        },
{
}

} // verus!
