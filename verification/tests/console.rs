use rustrace::console::{
    admit_identity_read, classify_test_case_result, compare_test_case_bytes, hash_bytes,
    identity_read_limit, is_test_case_candidate, list_cases, output_disposition, pair_identity,
    refresh_identity, CaseRead, Naming, OutputDisposition, TestCase, TestCaseComparison, TestCaseMismatch,
    TestCaseOutcome, MAX_CONSOLE_LINE_BYTES, MAX_TEST_CASE_FILE_BYTES,
    MAX_TEST_CASE_LINE_PREVIEW_INPUT_BYTES, MAX_TEST_CASE_LINE_PREVIEW_OUTPUT_BYTES,
};
use rustrace::console_line::ConsoleLine;
use rustrace::display::TRUNCATED;
use rustrace::model::{CaptureCompleteness, CommandOutcome, CommandTermination};
use rustrace::text::encode_hex;

/// A bound on the names of cases.
const LONGEST_NAME: usize = 64;

#[test]
fn test_case_name_limit_matches_provenance_model() {
    for longest in [1, LONGEST_NAME, 4 * LONGEST_NAME] {
        let maximum = "a".repeat(longest);
        assert!(TestCase::new(maximum.clone(), longest).is_ok());
        assert!(TestCase::new(format!("{maximum}a"), longest).is_err());
    }
}

#[test]
fn unicode_line_editing_uses_grapheme_boundaries() {
    let mut line = ConsoleLine::default();
    for character in "Ae\u{301}🦀Z".chars() {
        assert!(line.insert(character));
    }
    assert_eq!(line.text(), "Ae\u{301}🦀Z");
    assert_eq!(line.cursor(), line.text().len());

    line.left();
    line.left();
    assert_eq!(&line.text()[line.cursor()..], "🦀Z");
    assert!(line.delete());
    assert_eq!(line.text(), "Ae\u{301}Z");
    assert!(line.backspace());
    assert_eq!(line.text(), "AZ");
    line.home();
    line.right();
    assert_eq!(line.cursor(), 1);
    line.end();
    assert_eq!(line.cursor(), 2);
    assert_eq!(line.take(), "AZ");
    assert_eq!((line.text(), line.cursor()), ("", 0));
}

#[test]
fn insertion_that_joins_neighbors_keeps_the_cursor_on_a_grapheme_boundary() {
    let mut line = ConsoleLine::default();
    assert!(line.insert('👩'));
    assert!(line.insert('💻'));
    line.home();
    line.right();
    assert!(line.insert('\u{200d}'));
    assert_eq!(line.text(), "👩\u{200d}💻");
    assert_eq!(line.cursor(), line.text().len());
    line.left();
    assert_eq!(line.cursor(), 0);
    line.right();
    assert_eq!(line.cursor(), line.text().len());
}

#[test]
fn line_bound_is_utf8_atomic() {
    let mut line = ConsoleLine::default();
    for _ in 0..MAX_CONSOLE_LINE_BYTES - 4 {
        assert!(line.insert('a'));
    }
    assert!(line.insert('🦀'));
    assert_eq!(line.text().len(), MAX_CONSOLE_LINE_BYTES);
    assert!(!line.insert('b'));
    line.left();
    assert!(line.delete());
    assert_eq!(line.text().len(), MAX_CONSOLE_LINE_BYTES - 4);
    assert!(line.insert('🦀'));
    assert_eq!(line.text().len(), MAX_CONSOLE_LINE_BYTES);
}

#[test]
fn case_pairing_accepts_only_the_packaged_name_grammar_and_complete_pairs() {
    let paths: Vec<String> = [
        "0.in",
        "0.expected",
        "a-b_C9.in",
        "a-b_C9.expected",
        "missing-input.expected",
        "missing-expected.in",
        ".in",
        ".expected",
        "dot.name.in",
        "dot.name.expected",
        "too-long-aaaaaaaaaaaaaaaaaaaaaaaaaaaaaaaaaaaaaaaaaaaaaaaaaaaaaaaa.in",
        "too-long-aaaaaaaaaaaaaaaaaaaaaaaaaaaaaaaaaaaaaaaaaaaaaaaaaaaaaaaa.expected",
        "notes.txt",
        "nested/hidden.in",
        "nested/hidden.expected",
    ]
    .iter()
    .map(|path| (*path).to_owned())
    .collect();
    let cases = list_cases(&paths, 7, LONGEST_NAME);
    assert_eq!(
        cases.iter().map(TestCase::name).collect::<Vec<_>>(),
        ["0", "a-b_C9"]
    );
    assert!(is_test_case_candidate("0.in", LONGEST_NAME));
    assert!(!is_test_case_candidate("notes.txt", LONGEST_NAME));
    assert_eq!(cases[1].input_path(), "a-b_C9.in");
    assert_eq!(cases[1].expected_path(), "a-b_C9.expected");
}

#[test]
fn cases_are_listed_in_bytewise_order() {
    let paths: Vec<String> = ["b.in", "B.in", "10.in", "2.in", "b.expected", "B.expected", "10.expected", "2.expected"]
        .iter()
        .map(|path| (*path).to_owned())
        .collect();
    let cases = list_cases(&paths, 7, LONGEST_NAME);
    assert_eq!(
        cases.iter().map(TestCase::name).collect::<Vec<_>>(),
        ["10", "2", "B", "b"]
    );
    assert_eq!(cases[3].pair_blake3, Some(refresh_identity(7, "b")));
    assert_ne!(cases[3].pair_blake3, Some(refresh_identity(8, "b")));
}

fn case(name: &str) -> TestCase {
    TestCase::new(name.to_owned(), LONGEST_NAME).unwrap()
}

fn mismatch(comparison: &TestCaseComparison) -> &TestCaseMismatch {
    let TestCaseOutcome::Fail(mismatch) = &comparison.outcome else {
        panic!("expected mismatch, got {:?}", comparison.outcome);
    };
    mismatch
}

#[test]
fn exact_byte_comparison_table_reports_the_first_lf_delimited_mismatch() {
    let case = case("33");
    for (expected, actual) in [
        (&b""[..], &b""[..]),
        (&b"same"[..], &b"same"[..]),
        (&b"same\n"[..], &b"same\n"[..]),
        (&b"\xff\x00\n"[..], &b"\xff\x00\n"[..]),
    ] {
        assert_eq!(
            compare_test_case_bytes(case.clone(), expected, actual).outcome,
            TestCaseOutcome::Pass
        );
    }

    let table: Vec<(&[u8], &[u8], u64, usize, usize)> = vec![
        (b"same\n", b"same", 1, 4, 4),
        (b"one\n", b"one\ntwo\n", 2, 0, 3),
        (b"abc\n", b"abX\n", 1, 3, 3),
        (b"line\r\n", b"line\n", 1, 5, 4),
        (b"\xff\n", b"\xfe\n", 1, 1, 1),
        (b"one\n", b"one\nextra", 2, 0, 5),
        (b"one\nmissing", b"one\n", 2, 7, 0),
        (b"first\nsecond\nthird", b"first\nSECOND\nthird", 2, 6, 6),
    ];
    for (expected, actual, line, expected_len, actual_len) in table {
        let comparison = compare_test_case_bytes(case.clone(), expected, actual);
        let mismatch = mismatch(&comparison);
        assert_eq!(
            mismatch.line, line,
            "expected={expected:?} actual={actual:?}"
        );
        assert_eq!(mismatch.expected_len, expected_len);
        assert_eq!(mismatch.actual_len, actual_len);
        assert_eq!(comparison.expected_blake3, Some(hash_bytes(expected)));
        assert_eq!(comparison.actual_blake3, Some(hash_bytes(actual)));
    }
}

#[test]
fn comparison_previews_are_shared_safe_display_output_and_strictly_bounded() {
    let mut expected = vec![b'a'; MAX_TEST_CASE_LINE_PREVIEW_INPUT_BYTES * 2];
    expected[0] = 0x1b;
    expected[1] = 0xff;
    let actual = vec![b'b'; MAX_TEST_CASE_LINE_PREVIEW_INPUT_BYTES * 2];
    let comparison = compare_test_case_bytes(case("unsafe"), &expected, &actual);
    let mismatch = mismatch(&comparison);

    assert_eq!(mismatch.expected_len, expected.len());
    assert_eq!(mismatch.actual_len, actual.len());
    assert!(mismatch.expected_preview.contains("\\u{1b}\\xff"));
    assert!(mismatch.expected_preview.contains(TRUNCATED));
    assert!(mismatch.actual_preview.contains(TRUNCATED));
    assert!(mismatch.expected_preview.len() <= MAX_TEST_CASE_LINE_PREVIEW_OUTPUT_BYTES);
    assert!(mismatch.actual_preview.len() <= MAX_TEST_CASE_LINE_PREVIEW_OUTPUT_BYTES);
    assert!(!mismatch.expected_preview.as_bytes().contains(&0x1b));
}

#[test]
fn finished_case_classifies_every_non_comparable_condition_as_error() {
    let case = case("errors");
    let successful = CommandOutcome::Exited { code: 0 };
    let errors = [
        (
            CommandOutcome::LaunchFailed { os_code: Some(2) },
            CaptureCompleteness::Complete,
            Ok(b"expected".to_vec()),
            "launch failed",
        ),
        (
            CommandOutcome::Exited { code: 9 },
            CaptureCompleteness::Complete,
            Ok(b"expected".to_vec()),
            "exit 9",
        ),
        (
            CommandOutcome::Terminated {
                reason: CommandTermination::Deadline,
                signal: None,
            },
            CaptureCompleteness::Complete,
            Ok(b"expected".to_vec()),
            "deadline",
        ),
        (
            successful,
            CaptureCompleteness::Truncated,
            Ok(b"expected".to_vec()),
            "truncated",
        ),
        (
            successful,
            CaptureCompleteness::Unavailable,
            Ok(b"expected".to_vec()),
            "unavailable",
        ),
        (
            successful,
            CaptureCompleteness::ReadFailed,
            Ok(b"expected".to_vec()),
            "read failed",
        ),
        (
            successful,
            CaptureCompleteness::Complete,
            Err("arbitrary filesystem detail must not escape".to_owned()),
            "expected output is unreadable",
        ),
        (
            CommandOutcome::Exited { code: 0 },
            CaptureCompleteness::Complete,
            Err("expected output exceeds the 1048576-byte limit".to_owned()),
            "expected output is oversized",
        ),
    ];

    for (outcome, completeness, expected, reason) in errors {
        let comparison =
            classify_test_case_result(case.clone(), &outcome, completeness, b"actual", expected);
        let TestCaseOutcome::Error(actual) = &comparison.outcome else {
            panic!("{reason} was not classified as an error: {comparison:?}");
        };
        assert!(
            actual.contains(reason),
            "{actual:?} does not contain {reason:?}"
        );
        if completeness == CaptureCompleteness::Unavailable {
            assert_eq!(comparison.actual_blake3, None);
        }
    }

    for reason in [
        CommandTermination::Cancelled,
        CommandTermination::Quit,
        CommandTermination::OutputLimit,
        CommandTermination::CaptureFailure,
        CommandTermination::Signal,
        CommandTermination::CleanupFailure,
    ] {
        let comparison = classify_test_case_result(
            case.clone(),
            &CommandOutcome::Terminated {
                reason,
                signal: Some(9),
            },
            CaptureCompleteness::Complete,
            b"actual",
            Ok(b"expected".to_vec()),
        );
        assert!(matches!(comparison.outcome, TestCaseOutcome::Error(_)));
    }
}

#[test]
fn a_case_passes_on_equal_output_of_a_complete_run() {
    let comparison = classify_test_case_result(
        case("equal"),
        &CommandOutcome::Exited { code: 0 },
        CaptureCompleteness::Complete,
        b"one\ntwo\n",
        Ok(b"one\ntwo\n".to_vec()),
    );
    assert_eq!(comparison.outcome, TestCaseOutcome::Pass);
    assert_eq!(comparison.expected_blake3, comparison.actual_blake3);
}

#[test]
fn the_hash_of_no_bytes_is_that_of_blake3() {
    assert_eq!(
        encode_hex(&hash_bytes(b"").bytes),
        "af1349b9f5f9a1a6a0404dea36dcc9499bcb25c9adc112b7cc9a93cae41f3262"
    );
    assert_eq!(hash_bytes(b"abc").bytes, *blake3::hash(b"abc").as_bytes());
}

#[test]
fn identities_change_with_every_part() {
    let pair = pair_identity(b"in", b"out");
    assert_ne!(pair, pair_identity(b"in2", b"out"));
    assert_ne!(pair, pair_identity(b"in", b"out2"));
    assert_ne!(pair, pair_identity(b"ino", b"ut"));
    assert_eq!(pair, pair_identity(b"in", b"out"));
    let refresh = refresh_identity(1, "a");
    assert_ne!(refresh, refresh_identity(2, "a"));
    assert_ne!(refresh, refresh_identity(1, "b"));
}

#[test]
fn identity_reads_spend_a_shared_budget() {
    assert_eq!(identity_read_limit(10), 11);
    assert_eq!(
        identity_read_limit(MAX_TEST_CASE_FILE_BYTES * 2),
        MAX_TEST_CASE_FILE_BYTES + 1
    );
    let mut remaining = 10;
    admit_identity_read(&mut remaining, 4, "too large").unwrap();
    assert_eq!(remaining, 6);
    assert!(admit_identity_read(&mut remaining, 7, "too large").is_err());
}

#[test]
fn names_outside_the_grammar_are_refused() {
    for name in ["", "a.b", "a/b", "é", "a b"] {
        assert_eq!(
            TestCase::new(name.to_owned(), LONGEST_NAME).unwrap_err(),
            "invalid packaged test-case name",
            "{name:?}"
        );
    }
}

#[test]
fn an_output_replaces_what_is_there() {
    assert_ne!(output_disposition(true), output_disposition(false));
    let _: OutputDisposition = output_disposition(true);
}

fn naming(limit: u64) -> Naming {
    let paths: Vec<String> = ["a.in", "a.expected", "b.in", "b.expected", "c.in", "c.expected"]
        .iter()
        .map(|path| (*path).to_owned())
        .collect();
    Naming::new(list_cases(&paths, 1, LONGEST_NAME), limit)
}

#[test]
fn cases_are_named_by_both_of_their_files() {
    let mut naming = naming(100);
    assert_eq!(naming.wanted(), Some(("a.in".to_owned(), 101)));
    naming.take(CaseRead::Bytes(b"in".to_vec()));
    assert_eq!(naming.wanted(), Some(("a.expected".to_owned(), 99)));
    naming.take(CaseRead::Bytes(b"out".to_vec()));
    naming.take(CaseRead::Unopened);
    naming.take(CaseRead::Bytes(b"in".to_vec()));
    naming.take(CaseRead::Failed { read: 3 });
    assert_eq!(naming.wanted(), None);
    assert_eq!(naming.remaining, 90);
    assert_eq!(naming.cases[0].pair_blake3, Some(pair_identity(b"in", b"out")));
    assert_eq!(naming.cases[1].pair_blake3, Some(refresh_identity(1, "b")));
    assert_eq!(naming.cases[2].pair_blake3, Some(refresh_identity(1, "c")));
}

#[test]
fn naming_ends_when_nothing_more_may_be_read() {
    let mut naming = naming(4);
    naming.take(CaseRead::Bytes(b"four".to_vec()));
    assert_eq!(naming.wanted(), None);
    let mut naming = self::naming(4);
    naming.take(CaseRead::Bytes(b"five!".to_vec()));
    assert_eq!(naming.wanted(), None);
    assert_eq!(naming.cases[0].pair_blake3, Some(refresh_identity(1, "a")));
}

#[test]
fn deleting_after_moving_left_is_a_backspace() {
    for text in ["Ae\u{301}🦀Z", "👩\u{200d}💻x", "🇷🇸🇮🇴🇷", "क्षि", "a\u{200d}"] {
        let mut line = ConsoleLine::default();
        for character in text.chars() {
            assert!(line.insert(character));
        }
        while line.cursor() > 0 {
            let mut erased = line.clone();
            assert!(erased.backspace());
            line.left();
            let mut deleted = line.clone();
            assert!(deleted.delete());
            assert_eq!(deleted, erased, "{text:?}");
        }
    }
}
