//! The console: cases that a program is tested with, what a run of one came
//! to, and the line that is being typed.

use crate::display;
use crate::glyph;
use crate::model::{CaptureCompleteness, CommandOutcome, CommandTermination};
use crate::order::{lemma_text_irreflexive, lemma_text_total, lemma_text_transitive, text_before, text_comes_first};
use crate::text;
use vstd::prelude::*;

pub use crate::console_line::ConsoleLine;

verus! {

pub const MAX_CONSOLE_LINE_BYTES: usize = 4096;

pub const MAX_TEST_CASE_LINE_PREVIEW_INPUT_BYTES: usize = 256;

pub const MAX_TEST_CASE_LINE_PREVIEW_OUTPUT_BYTES: usize = 128;

pub const MAX_TEST_CASE_FILE_BYTES: u64 = 1_048_576;

// Hashes.

/// What `blake3::hash` makes of a byte sequence.
pub uninterp spec fn blake3_of(bytes: Seq<u8>) -> Seq<u8>;

/// Calls `blake3::hash`. The hash is a function of the bytes.
#[verifier::external_body]
fn blake3_hash(bytes: &[u8]) -> (r: [u8; 32])
    ensures
        r@ == blake3_of(bytes@),
{
    *blake3::hash(bytes).as_bytes()
}

pub fn hash_bytes(bytes: &[u8]) -> (r: crate::model::Hash)
    ensures
        r.bytes@ == blake3_of(bytes@),
{
    crate::model::Hash { bytes: blake3_hash(bytes) }
}

/// A number in so many bytes, the least first.
pub open spec fn le_bytes(n: nat, k: nat) -> Seq<u8>
    decreases k,
{
    if k == 0 {
        Seq::empty()
    } else {
        seq![(n % 256) as u8] + le_bytes(n / 256, (k - 1) as nat)
    }
}

fn push_number(out: &mut Vec<u8>, n: u64)
    ensures
        final(out)@ == old(out)@ + le_bytes(n as nat, 8),
{
    let mut m: u64 = n;
    let mut k: usize = 0;
    let ghost before = out@;
    let ghost whole = before + le_bytes(n as nat, 8);
    while k < 8
        invariant
            k <= 8,
            out@ + le_bytes(m as nat, (8 - k) as nat) == whole,
        decreases 8 - k,
    {
        let b: u8 = (m % 256) as u8;
        let ghost was = out@;
        let ghost rest = le_bytes((m / 256) as nat, (8 - k - 1) as nat);
        out.push(b);
        assert(out@ + rest =~= was + le_bytes(m as nat, (8 - k) as nat));
        m = m / 256;
        k += 1;
    }
    assert(out@ =~= whole);
}

fn push_bytes(out: &mut Vec<u8>, bytes: &[u8])
    ensures
        final(out)@ == old(out)@ + bytes@,
{
    let ghost before = out@;
    let mut i: usize = 0;
    assert(before + bytes@.take(0) =~= before);
    while i < bytes.len()
        invariant
            i <= bytes@.len(),
            out@ == before + bytes@.take(i as int),
        decreases bytes@.len() - i,
    {
        out.push(bytes[i]);
        assert(bytes@.take(i + 1) =~= bytes@.take(i as int).push(bytes@[i as int]));
        i += 1;
    }
    assert(bytes@.take(bytes@.len() as int) =~= bytes@);
}

// Cases.

/// A case: its name, and which files it was read from.
#[derive(Clone, Debug, PartialEq, Eq)]
pub struct TestCase {
    pub name: String,
    pub pair_blake3: Option<crate::model::Hash>,
}

pub open spec fn is_name_char(c: char) -> bool {
    ||| '0' <= c <= '9'
    ||| 'A' <= c <= 'Z'
    ||| 'a' <= c <= 'z'
    ||| c == '-'
    ||| c == '_'
}

/// A name of a case: letters, digits, hyphens and underscores, and no more of them
/// than the longest name has.
pub open spec fn is_case_name(s: Seq<char>, longest: usize) -> bool {
    &&& 1 <= s.len() <= longest
    &&& forall|i: int| 0 <= i < s.len() ==> is_name_char(#[trigger] s[i])
}

fn may_be_name(s: &str, longest: usize) -> (r: bool)
    ensures
        r == is_case_name(s@, longest),
{
    let chars = text::chars_of(s);
    if chars.len() == 0 || chars.len() > longest {
        return false;
    }
    let mut i: usize = 0;
    while i < chars.len()
        invariant
            i <= chars@.len(),
            chars@ == s@,
            forall|j: int| 0 <= j < i ==> is_name_char(#[trigger] s@[j]),
        decreases chars@.len() - i,
    {
        let c: char = chars[i];
        let good = ('0' <= c && c <= '9') || ('A' <= c && c <= 'Z') || ('a' <= c && c <= 'z') || c
            == '-' || c == '_';
        if !good {
            return false;
        }
        i += 1;
    }
    true
}

impl TestCase {
    pub fn new(name: String, longest: usize) -> (r: Result<TestCase, String>)
        ensures
            if is_case_name(name@, longest) {
                r is Ok && r->Ok_0.name@ == name@ && r->Ok_0.pair_blake3 is None
            } else {
                r is Err && r->Err_0@ == "invalid packaged test-case name"@
            },
    {
        if !may_be_name(name.as_str(), longest) {
            return Err("invalid packaged test-case name".to_owned());
        }
        Ok(TestCase { name, pair_blake3: None })
    }

    pub fn name(&self) -> (r: &str)
        ensures
            r@ == self.name@,
    {
        self.name.as_str()
    }

    pub fn input_path(&self) -> (r: String)
        ensures
            r@ == self.name@ + ".in"@,
    {
        let mut r = self.name.clone();
        r.push_str(".in");
        r
    }

    pub fn expected_path(&self) -> (r: String)
        ensures
            r@ == self.name@ + ".expected"@,
    {
        let mut r = self.name.clone();
        r.push_str(".expected");
        r
    }
}

/// What a text is without an ending, where it has it.
pub open spec fn without(s: Seq<char>, ending: Seq<char>) -> Option<Seq<char>> {
    if s.len() >= ending.len() && s.skip(s.len() - ending.len()) == ending {
        Some(s.take(s.len() - ending.len()))
    } else {
        None
    }
}

fn strip(s: &str, ending: &str) -> (r: Option<String>)
    ensures
        match without(s@, ending@) {
            Some(t) => r is Some && r->0@ == t,
            None => r is None,
        },
{
    let a = text::chars_of(s);
    let b = text::chars_of(ending);
    if a.len() < b.len() {
        return None;
    }
    let cut: usize = a.len() - b.len();
    let mut i: usize = 0;
    while i < b.len()
        invariant
            i <= b@.len(),
            a@ == s@,
            b@ == ending@,
            cut == a.len() - b.len(),
            forall|j: int| 0 <= j < i ==> #[trigger] b@[j] == a@[cut + j],
        decreases b@.len() - i,
    {
        if a[cut + i] != b[i] {
            proof {
                assert(s@.skip(cut as int)[i as int] == a@[cut + i]);
            }
            return None;
        }
        i += 1;
    }
    assert(s@.skip(cut as int) =~= ending@);
    let r = text::string_of(a.as_slice(), 0, cut);
    assert(r@ =~= s@.take(cut as int));
    Some(r)
}

/// The name that a file of a case stands for, and whether it is the input.
pub open spec fn case_file(path: Seq<char>, longest: usize) -> Option<(Seq<char>, bool)> {
    match without(path, ".in"@) {
        Some(name) => if is_case_name(name, longest) {
            Some((name, true))
        } else {
            None
        },
        None => match without(path, ".expected"@) {
            Some(name) => if is_case_name(name, longest) {
                Some((name, false))
            } else {
                None
            },
            None => None,
        },
    }
}

fn read_case_file(path: &str, longest: usize) -> (r: Option<(String, bool)>)
    ensures
        match r {
            Some((name, input)) => case_file(path@, longest) == Some((name@, input)),
            None => case_file(path@, longest) is None,
        },
{
    match strip(path, ".in") {
        Some(name) => {
            if may_be_name(name.as_str(), longest) {
                Some((name, true))
            } else {
                None
            }
        },
        None => match strip(path, ".expected") {
            Some(name) => {
                if may_be_name(name.as_str(), longest) {
                    Some((name, false))
                } else {
                    None
                }
            },
            None => None,
        },
    }
}

/// Whether a file belongs to a case.
pub fn is_test_case_candidate(path: &str, longest: usize) -> (r: bool)
    ensures
        r == (case_file(path@, longest) is Some),
{
    read_case_file(path, longest).is_some()
}

pub open spec fn listed(paths: Seq<String>, name: Seq<char>, input: bool, longest: usize) -> bool {
    exists|i: int| 0 <= i < paths.len() && case_file((#[trigger] paths[i])@, longest) == Some((name, input))
}

/// A case has both its files.
pub open spec fn is_pair(paths: Seq<String>, name: Seq<char>, longest: usize) -> bool {
    listed(paths, name, true, longest) && listed(paths, name, false, longest)
}

pub open spec fn names(cases: Seq<TestCase>) -> Seq<Seq<char>> {
    Seq::new(cases.len(), |i: int| cases[i].name@)
}

pub open spec fn ascending(names: Seq<Seq<char>>) -> bool {
    forall|i: int, j: int| 0 <= i < j < names.len() ==> text_before(#[trigger] names[i], #[trigger] names[j])
}

fn has_file(paths: &Vec<String>, name: &str, input: bool, longest: usize) -> (r: bool)
    ensures
        r == listed(paths@, name@, input, longest),
{
    let mut i: usize = 0;
    while i < paths.len()
        invariant
            i <= paths@.len(),
            forall|j: int|
                0 <= j < i ==> case_file((#[trigger] paths@[j])@, longest) != Some((name@, input)),
        decreases paths@.len() - i,
    {
        match read_case_file(paths[i].as_str(), longest) {
            Some((found, is_input)) => {
                if is_input == input && text::str_eq(found.as_str(), name) {
                    return true;
                }
            },
            None => {},
        }
        i += 1;
    }
    false
}

proof fn lemma_order(a: Seq<char>, b: Seq<char>, c: Seq<char>)
    ensures
        !text_before(a, a),
        text_before(a, b) && text_before(b, c) ==> text_before(a, c),
        a == b || text_before(a, b) || text_before(b, a),
{
    lemma_text_irreflexive(a);
    lemma_text_total(a, b);
    if text_before(a, b) && text_before(b, c) {
        lemma_text_transitive(a, b, c);
    }
}

fn place_case(cases: &mut Vec<TestCase>, name: String)
    requires
        ascending(names(old(cases)@)),
    ensures
        ascending(names(final(cases)@)),
        forall|n: Seq<char>| #[trigger]
            names(final(cases)@).contains(n) <==> names(old(cases)@).contains(n) || n == name@,
{
    let ghost before = names(cases@);
    let ghost x = name@;
    let mut p: usize = 0;
    while p < cases.len() && text_comes_first(cases[p].name.as_str(), name.as_str())
        invariant
            p <= cases@.len(),
            cases == old(cases),
            before == names(cases@),
            x == name@,
            forall|i: int| 0 <= i < p ==> text_before(#[trigger] before[i], x),
        decreases cases@.len() - p,
    {
        assert(before[p as int] == cases@[p as int].name@);
        p += 1;
    }
    if p < cases.len() {
        assert(before[p as int] == cases@[p as int].name@);
        if text::str_eq(cases[p].name.as_str(), name.as_str()) {
            assert(before.contains(before[p as int]));
            return ;
        }
    }
    cases.insert(p, TestCase { name, pair_blake3: None });
    proof {
        let after = names(cases@);
        assert(after =~= before.insert(p as int, x));
        assert forall|i: int, j: int| 0 <= i < j < after.len() implies text_before(
            #[trigger] after[i],
            #[trigger] after[j],
        ) by {
            if i == p {
                assert(after[j] == before[j - 1]);
                lemma_order(before[p as int], x, x);
                if j - 1 > p {
                    assert(text_before(before[p as int], before[j - 1]));
                    lemma_order(x, before[p as int], before[j - 1]);
                }
            } else if i < p {
                assert(after[i] == before[i]);
                if j > p {
                    assert(after[j] == before[j - 1]);
                }
            } else {
                assert(after[i] == before[i - 1]);
                assert(after[j] == before[j - 1]);
            }
        }
        assert forall|n: Seq<char>| #[trigger] after.contains(n) <==> before.contains(n) || n == x by {
            if before.contains(n) {
                let k = before.index_of(n);
                if k < p {
                    assert(after[k] == n);
                } else {
                    assert(after[k + 1] == n);
                }
            }
            if n == x {
                assert(after[p as int] == n);
            }
            if after.contains(n) && n != x {
                let k = after.index_of(n);
                if k < p {
                    assert(before[k] == n);
                } else {
                    assert(before[k - 1] == n);
                }
            }
        }
    }
}

/// The cases of a directory: those with both files, each once, in order. Until
/// its files are read, a case goes by its name and the number of the listing.
pub fn list_cases(paths: &Vec<String>, refresh_id: u64, longest: usize) -> (r: Vec<TestCase>)
    ensures
        ascending(names(r@)),
        forall|n: Seq<char>| #[trigger] names(r@).contains(n) <==> is_pair(paths@, n, longest),
        forall|i: int|
            0 <= i < r@.len() ==> (#[trigger] r@[i]).pair_blake3 is Some
                && r@[i].pair_blake3->0.bytes@ == blake3_of(refresh_input(refresh_id, r@[i].name@)),
{
    let mut cases: Vec<TestCase> = Vec::new();
    let mut i: usize = 0;
    while i < paths.len()
        invariant
            i <= paths@.len(),
            ascending(names(cases@)),
            forall|n: Seq<char>| #[trigger]
                names(cases@).contains(n) <==> listed(
                    paths@.take(i as int),
                    n,
                    true,
                    longest,
                ) && listed(paths@, n, false, longest),
        decreases paths@.len() - i,
    {
        let ghost was = names(cases@);
        let ghost front = paths@.take(i as int);
        let ghost next = paths@.take(i + 1);
        let file = read_case_file(paths[i].as_str(), longest);
        proof {
            assert forall|n: Seq<char>| #[trigger] listed(next, n, true, longest) <==> listed(front, n, true, longest)
                || case_file(paths@[i as int]@, longest) == Some((n, true)) by {
                if listed(front, n, true, longest) {
                    let k = choose|k: int|
                        0 <= k < front.len() && case_file((#[trigger] front[k])@, longest) == Some((n, true));
                    assert(next[k] == front[k]);
                }
                if case_file(paths@[i as int]@, longest) == Some((n, true)) {
                    assert(next[i as int] == paths@[i as int]);
                }
                if listed(next, n, true, longest) {
                    let k = choose|k: int|
                        0 <= k < next.len() && case_file((#[trigger] next[k])@, longest) == Some((n, true));
                    if k < i {
                        assert(front[k] == next[k]);
                    }
                }
            }
        }
        match file {
            Some((name, true)) => {
                if has_file(paths, name.as_str(), false, longest) {
                    place_case(&mut cases, name);
                }
            },
            _ => {},
        }
        i += 1;
    }
    assert(paths@.take(paths@.len() as int) =~= paths@);
    let ghost found = names(cases@);
    let count: usize = cases.len();
    let mut i: usize = 0;
    while i < count
        invariant
            i <= count,
            cases@.len() == count,
            names(cases@) == found,
            forall|j: int|
                0 <= j < i ==> (#[trigger] cases@[j]).pair_blake3 is Some
                    && cases@[j].pair_blake3->0.bytes@ == blake3_of(
                    refresh_input(refresh_id, cases@[j].name@),
                ),
        decreases count - i,
    {
        let name = cases[i].name.clone();
        let pair_blake3 = Some(refresh_identity(refresh_id, name.as_str()));
        cases.set(i, TestCase { name, pair_blake3 });
        assert(names(cases@) =~= found);
        i += 1;
    }
    cases
}

// Which files a case was read from.

pub const REFRESH_DOMAIN: &'static str = "rustrace.live-test-case-refresh.v1";

pub const PAIR_DOMAIN: &'static str = "rustrace.live-test-case-pair.v1";

/// What is hashed for a case whose files were not read.
pub open spec fn refresh_input(refresh: u64, name: Seq<char>) -> Seq<u8> {
    vstd::utf8::encode_utf8(REFRESH_DOMAIN@) + le_bytes(refresh as nat, 8) + le_bytes(
        text::byte_len(name),
        8,
    ) + vstd::utf8::encode_utf8(name)
}

pub fn refresh_identity(refresh_id: u64, name: &str) -> (r: crate::model::Hash)
    ensures
        r.bytes@ == blake3_of(refresh_input(refresh_id, name@)),
{
    let mut out: Vec<u8> = Vec::new();
    push_bytes(&mut out, REFRESH_DOMAIN.as_bytes());
    assert(out@ =~= vstd::utf8::encode_utf8(REFRESH_DOMAIN@));
    push_number(&mut out, refresh_id);
    push_number(&mut out, text::str_bytes(name) as u64);
    push_bytes(&mut out, name.as_bytes());
    hash_bytes(out.as_slice())
}

/// What is hashed for a case whose files were read.
pub open spec fn pair_input(input: Seq<u8>, expected: Seq<u8>) -> Seq<u8> {
    vstd::utf8::encode_utf8(PAIR_DOMAIN@) + le_bytes(input.len(), 8) + input + le_bytes(
        expected.len(),
        8,
    ) + expected
}

pub fn pair_identity(input: &[u8], expected: &[u8]) -> (r: crate::model::Hash)
    ensures
        r.bytes@ == blake3_of(pair_input(input@, expected@)),
{
    let mut out: Vec<u8> = Vec::new();
    push_bytes(&mut out, PAIR_DOMAIN.as_bytes());
    assert(out@ =~= vstd::utf8::encode_utf8(PAIR_DOMAIN@));
    push_number(&mut out, input.len() as u64);
    push_bytes(&mut out, input);
    push_number(&mut out, expected.len() as u64);
    push_bytes(&mut out, expected);
    hash_bytes(out.as_slice())
}

/// How much of a file is read while so much may be: one byte more than allowed
/// tells that there was more.
pub fn identity_read_limit(remaining: u64) -> (r: u64)
    ensures
        r == if remaining < MAX_TEST_CASE_FILE_BYTES {
            remaining + 1
        } else {
            MAX_TEST_CASE_FILE_BYTES + 1
        },
{
    if remaining < MAX_TEST_CASE_FILE_BYTES {
        remaining + 1
    } else {
        MAX_TEST_CASE_FILE_BYTES + 1
    }
}

pub open spec fn read_fault(allowance: u64, read: u64, oversized: Seq<char>) -> Option<Seq<char>> {
    if allowance == 0 || read > allowance {
        Some("packaged test-case identity limit reached"@)
    } else if read > MAX_TEST_CASE_FILE_BYTES {
        Some(oversized)
    } else {
        None
    }
}

/// Takes what was read off what may be read, and refuses what was too much.
pub fn admit_identity_read(remaining: &mut u64, read: u64, oversized: &str) -> (r: Result<(), String>)
    ensures
        *final(remaining) == if read <= *old(remaining) {
            *old(remaining) - read
        } else {
            0
        },
        match read_fault(*old(remaining), read, oversized@) {
            None => r is Ok,
            Some(why) => r is Err && r->Err_0@ == why,
        },
{
    let allowance: u64 = *remaining;
    *remaining = if read <= allowance {
        allowance - read
    } else {
        0
    };
    if allowance == 0 || read > allowance {
        return Err("packaged test-case identity limit reached".to_owned());
    }
    if read > MAX_TEST_CASE_FILE_BYTES {
        return Err(oversized.to_owned());
    }
    Ok(())
}

// Naming cases by their files.

/// What came of reading a file of a case.
pub enum CaseRead {
    Unopened,
    Failed { read: u64 },
    Bytes(Vec<u8>),
}

/// Cases that are being named by what is in their files, one file after another:
/// the next case, its input if that was read, and how many bytes may still be
/// read.
pub struct Naming {
    pub cases: Vec<TestCase>,
    pub next: usize,
    pub input: Option<Vec<u8>>,
    pub remaining: u64,
}

pub struct NamingState {
    pub names: Seq<Seq<char>>,
    pub identities: Seq<Option<Seq<u8>>>,
    pub next: nat,
    pub input: Option<Seq<u8>>,
    pub remaining: u64,
}

pub open spec fn identity_view(h: Option<crate::model::Hash>) -> Option<Seq<u8>> {
    match h {
        Some(hash) => Some(hash.bytes@),
        None => None,
    }
}

pub open spec fn identities(cases: Seq<TestCase>) -> Seq<Option<Seq<u8>>> {
    Seq::new(cases.len(), |i: int| identity_view(cases[i].pair_blake3))
}

/// What is left to read after some bytes were read.
pub open spec fn left_after(remaining: u64, read: nat) -> u64 {
    if read <= remaining {
        (remaining - read) as u64
    } else {
        0
    }
}

/// A case is passed over: it keeps the identity that it has.
pub open spec fn passed_over(s: NamingState, remaining: u64) -> NamingState {
    NamingState { next: s.next + 1, input: None, remaining, ..s }
}

/// A read is taken in. What is not read whole, or was too much, passes the case
/// over; the second file names it.
pub open spec fn read_taken(s: NamingState, read: CaseRead) -> NamingState {
    match read {
        CaseRead::Unopened => passed_over(s, s.remaining),
        CaseRead::Failed { read } => passed_over(s, left_after(s.remaining, read as nat)),
        CaseRead::Bytes(bytes) => {
            let left = left_after(s.remaining, bytes@.len());
            if bytes@.len() > s.remaining || bytes@.len() > MAX_TEST_CASE_FILE_BYTES {
                passed_over(s, left)
            } else {
                match s.input {
                    None => NamingState { input: Some(bytes@), remaining: left, ..s },
                    Some(input) => NamingState {
                        identities: s.identities.update(
                            s.next as int,
                            Some(blake3_of(pair_input(input, bytes@))),
                        ),
                        ..passed_over(s, left)
                    },
                }
            }
        },
    }
}

impl Naming {
    pub open spec fn view(&self) -> NamingState {
        NamingState {
            names: names(self.cases@),
            identities: identities(self.cases@),
            next: self.next as nat,
            input: match self.input {
                Some(bytes) => Some(bytes@),
                None => None,
            },
            remaining: self.remaining,
        }
    }

    /// Starts naming cases, while at most so many bytes may be read.
    pub fn new(cases: Vec<TestCase>, limit: u64) -> (r: Naming)
        ensures
            r.cases == cases,
            r.next == 0,
            r.input is None,
            r.remaining == limit,
    {
        Naming { cases, next: 0, input: None, remaining: limit }
    }

    /// The file to read next and how much of it, while a case and bytes are left.
    pub fn wanted(&self) -> (r: Option<(String, u64)>)
        ensures
            if self.next < self.cases@.len() && self.remaining > 0 {
                &&& r matches Some((path, limit))
                &&& path@ == self.cases@[self.next as int].name@ + if self.input is None {
                    ".in"@
                } else {
                    ".expected"@
                }
                &&& limit == if self.remaining < MAX_TEST_CASE_FILE_BYTES {
                    self.remaining + 1
                } else {
                    MAX_TEST_CASE_FILE_BYTES + 1
                }
            } else {
                r is None
            },
    {
        if self.next >= self.cases.len() || self.remaining == 0 {
            return None;
        }
        let case = &self.cases[self.next];
        let path = if self.input.is_none() {
            case.input_path()
        } else {
            case.expected_path()
        };
        Some((path, identity_read_limit(self.remaining)))
    }

    /// Takes in what came of reading the file that was wanted.
    pub fn take(&mut self, read: CaseRead)
        requires
            old(self).next < old(self).cases@.len(),
            old(self).remaining > 0,
        ensures
            final(self).view() == read_taken(old(self).view(), read),
            final(self).cases@.len() == old(self).cases@.len(),
    {
        let ghost before = self.view();
        let count: usize = self.cases.len();
        assert(self.next < count);
        let input = self.input.take();
        match read {
            CaseRead::Unopened => {
                self.next = self.next + 1;
            },
            CaseRead::Failed { read } => {
                let _ = admit_identity_read(&mut self.remaining, read, OVERSIZED);
                self.next = self.next + 1;
            },
            CaseRead::Bytes(bytes) => {
                match admit_identity_read(&mut self.remaining, bytes.len() as u64, OVERSIZED) {
                    Err(_) => {
                        self.next = self.next + 1;
                    },
                    Ok(()) => match input {
                        None => {
                            self.input = Some(bytes);
                        },
                        Some(first) => {
                            let identity = pair_identity(first.as_slice(), bytes.as_slice());
                            let name = self.cases[self.next].name.clone();
                            let ghost was = self.cases@;
                            self.cases.set(
                                self.next,
                                TestCase { name, pair_blake3: Some(identity) },
                            );
                            proof {
                                assert(names(self.cases@) =~= names(was));
                                assert(identities(self.cases@) =~= identities(was).update(
                                    self.next as int,
                                    Some(identity.bytes@),
                                ));
                            }
                            self.next = self.next + 1;
                        },
                    },
                }
            },
        }
        assert(self.view().identities =~= read_taken(before, read).identities);
    }
}

/// Naming a case changes no other, and what may be read never grows: it falls by
/// what was read.
pub proof fn naming_is_local(s: NamingState, read: CaseRead)
    requires
        s.next < s.identities.len(),
    ensures
        read_taken(s, read).names == s.names,
        read_taken(s, read).remaining <= s.remaining,
        forall|i: int|
            0 <= i < s.identities.len() && i != s.next ==> #[trigger] read_taken(s, read).identities[i]
                == s.identities[i],
        read matches CaseRead::Bytes(bytes) ==> read_taken(s, read).remaining == left_after(
            s.remaining,
            bytes@.len(),
        ),
{
}

// Runs.

/// Where two outputs first differ: a line, its lengths and what they look like.
#[derive(Clone, Debug, PartialEq, Eq)]
pub struct TestCaseMismatch {
    pub line: u64,
    pub expected_len: usize,
    pub actual_len: usize,
    pub expected_preview: String,
    pub actual_preview: String,
}

#[derive(Clone, Debug, PartialEq, Eq)]
pub enum TestCaseOutcome {
    Pass,
    Fail(TestCaseMismatch),
    Error(String),
}

#[derive(Clone, Debug, PartialEq, Eq)]
pub struct TestCaseComparison {
    pub case: TestCase,
    pub outcome: TestCaseOutcome,
    pub expected_blake3: Option<crate::model::Hash>,
    pub actual_blake3: Option<crate::model::Hash>,
}

/// The place of the first line feed at or after a place, or the end.
pub open spec fn feed_at(bytes: Seq<u8>, from: nat) -> nat
    decreases bytes.len() - from,
{
    if from >= bytes.len() {
        bytes.len()
    } else if bytes[from as int] == 0x0a {
        from
    } else {
        feed_at(bytes, from + 1)
    }
}

pub proof fn lemma_feed(bytes: Seq<u8>, from: nat)
    requires
        from <= bytes.len(),
    ensures
        from <= feed_at(bytes, from) <= bytes.len(),
    decreases bytes.len() - from,
{
    if from < bytes.len() && bytes[from as int] != 0x0a {
        lemma_feed(bytes, from + 1);
    }
}

/// The first line without its line feed, and whether it had one.
pub open spec fn first_line(bytes: Seq<u8>) -> Option<(Seq<u8>, bool)> {
    if bytes.len() == 0 {
        None
    } else {
        let k = feed_at(bytes, 0);
        Some((bytes.take(k as int), k < bytes.len()))
    }
}

pub open spec fn other_lines(bytes: Seq<u8>) -> Seq<u8> {
    let k = feed_at(bytes, 0);
    if k < bytes.len() {
        bytes.skip((k + 1) as int)
    } else {
        Seq::empty()
    }
}

pub open spec fn line_bytes(line: Option<(Seq<u8>, bool)>) -> Seq<u8> {
    match line {
        Some((bytes, _)) => bytes,
        None => Seq::empty(),
    }
}

/// The number of the first line that differs, and both lines. A line that has
/// a line feed differs from one that has none.
pub open spec fn difference(expected: Seq<u8>, actual: Seq<u8>, line: nat) -> (nat, Seq<u8>, Seq<u8>)
    decreases expected.len(),
{
    let e = first_line(expected);
    let a = first_line(actual);
    if e is Some && e == a {
        proof {
            lemma_feed(expected, 0);
        }
        difference(other_lines(expected), other_lines(actual), line + 1)
    } else {
        (line, line_bytes(e), line_bytes(a))
    }
}

pub open spec fn preview_limits() -> display::Limits {
    display::Limits {
        input_bytes: MAX_TEST_CASE_LINE_PREVIEW_INPUT_BYTES,
        output_bytes: MAX_TEST_CASE_LINE_PREVIEW_OUTPUT_BYTES,
        spans: display::MAX_SPANS,
        lines: 1,
    }
}

/// What a line looks like, made safe and short.
pub open spec fn preview_of(line: Seq<u8>) -> Seq<char> {
    display::lines_text(display::shown(line, preview_limits(), false, true).lines)
}

fn line_preview(bytes: &[u8]) -> (r: String)
    ensures
        r@ == preview_of(bytes@),
        text::byte_len(r@) <= MAX_TEST_CASE_LINE_PREVIEW_OUTPUT_BYTES,
        glyph::shows_safely(r@),
{
    let limits = display::Limits {
        input_bytes: MAX_TEST_CASE_LINE_PREVIEW_INPUT_BYTES,
        output_bytes: MAX_TEST_CASE_LINE_PREVIEW_OUTPUT_BYTES,
        spans: display::MAX_SPANS,
        lines: 1,
    };
    let shown = display::plain(bytes, limits);
    proof {
        display::single_line_is_safe(shown.view().lines);
    }
    shown.to_text()
}

fn find_feed(bytes: &[u8], at: usize) -> (r: usize)
    requires
        at <= bytes@.len(),
    ensures
        r == at + feed_at(bytes@.skip(at as int), 0),
        at <= r <= bytes@.len(),
{
    let ghost rest = bytes@.skip(at as int);
    let mut i: usize = at;
    while i < bytes.len() && bytes[i] != 0x0a
        invariant
            at <= i <= bytes@.len(),
            rest == bytes@.skip(at as int),
            feed_at(rest, 0) == feed_at(rest, (i - at) as nat),
        decreases bytes@.len() - i,
    {
        assert(rest[i - at] == bytes@[i as int]);
        i += 1;
    }
    proof {
        if i < bytes@.len() {
            assert(rest[i - at] == bytes@[i as int]);
        }
    }
    i
}

impl TestCaseMismatch {
    /// Whether this is where two outputs first differ.
    pub open spec fn tells(&self, expected: Seq<u8>, actual: Seq<u8>) -> bool {
        let (line, e, a) = difference(expected, actual, 1);
        &&& self.line == if line <= u64::MAX {
            line
        } else {
            u64::MAX as nat
        }
        &&& self.expected_len == e.len()
        &&& self.actual_len == a.len()
        &&& self.expected_preview@ == preview_of(e)
        &&& self.actual_preview@ == preview_of(a)
        &&& text::byte_len(self.expected_preview@) <= MAX_TEST_CASE_LINE_PREVIEW_OUTPUT_BYTES
        &&& text::byte_len(self.actual_preview@) <= MAX_TEST_CASE_LINE_PREVIEW_OUTPUT_BYTES
        &&& glyph::shows_safely(self.expected_preview@)
        &&& glyph::shows_safely(self.actual_preview@)
    }
}

pub fn first_mismatch(expected: &[u8], actual: &[u8]) -> (r: TestCaseMismatch)
    ensures
        r.tells(expected@, actual@),
{
    let mut e: usize = 0;
    let mut a: usize = 0;
    let mut line: u128 = 1;
    assert(expected@.skip(0) =~= expected@);
    assert(actual@.skip(0) =~= actual@);
    loop
        invariant
            e <= expected@.len(),
            e <= expected.len(),
            a <= actual@.len(),
            line <= e + 1,
            difference(expected@, actual@, 1) == difference(
                expected@.skip(e as int),
                actual@.skip(a as int),
                line as nat,
            ),
        decreases expected@.len() - e,
    {
        let ghost er = expected@.skip(e as int);
        let ghost ar = actual@.skip(a as int);
        let ek = find_feed(expected, e);
        let ak = find_feed(actual, a);
        let mut same = e < expected.len() && a < actual.len() && ek - e == ak - a && (ek
            < expected.len()) == (ak < actual.len());
        let mut i: usize = 0;
        let n: usize = ek - e;
        while same && i < n
            invariant
                i <= n,
                n == ek - e,
                ek <= expected@.len(),
                ak <= actual@.len(),
                e <= ek,
                a <= ak,
                same ==> ek - e == ak - a && e < expected@.len() && a < actual@.len() && (ek
                    < expected@.len()) == (ak < actual@.len()),
                same ==> forall|j: int| 0 <= j < i ==> #[trigger] expected@[e + j] == actual@[a + j],
                !same ==> (e >= expected@.len() || a >= actual@.len() || ek - e != ak - a || (ek
                    < expected@.len()) != (ak < actual@.len()) || exists|j: int|
                    0 <= j < n && #[trigger] expected@[e + j] != actual@[a + j]),
            decreases n - i, same as int,
        {
            if expected[e + i] != actual[a + i] {
                same = false;
                assert(expected@[e + i as int] != actual@[a + i as int]);
            } else {
                i += 1;
            }
        }
        proof {
            assert(er.take(ek - e) =~= expected@.subrange(e as int, ek as int));
            assert(ar.take(ak - a) =~= actual@.subrange(a as int, ak as int));
            if same {
                assert(er.take(ek - e) =~= ar.take(ak - a)) by {
                    assert forall|j: int| 0 <= j < n implies er[j] == ar[j] by {
                        assert(expected@[e + j] == actual@[a + j]);
                    }
                }
            } else if e < expected@.len() && a < actual@.len() && ek - e == ak - a && (ek
                < expected@.len()) == (ak < actual@.len()) {
                let j = choose|j: int| 0 <= j < n && #[trigger] expected@[e + j] != actual@[a + j];
                assert(er.take(ek - e)[j] != ar.take(ak - a)[j]);
            }
        }
        if same {
            proof {
                if ek < expected@.len() {
                    assert(other_lines(er) =~= expected@.skip(ek + 1));
                    assert(other_lines(ar) =~= actual@.skip(ak + 1));
                } else {
                    assert(other_lines(er) =~= expected@.skip(ek as int));
                    assert(other_lines(ar) =~= actual@.skip(ak as int));
                }
            }
            line = line + 1;
            if ek < expected.len() {
                e = ek + 1;
                a = ak + 1;
            } else {
                e = ek;
                a = ak;
            }
        } else {
            let expected_line = text::copy_bytes(expected, e, ek);
            let actual_line = text::copy_bytes(actual, a, ak);
            proof {
                assert(expected_line@ =~= line_bytes(first_line(er)));
                assert(actual_line@ =~= line_bytes(first_line(ar)));
            }
            let line: u64 = if line <= u64::MAX as u128 {
                line as u64
            } else {
                u64::MAX
            };
            return TestCaseMismatch {
                line,
                expected_len: expected_line.len(),
                actual_len: actual_line.len(),
                expected_preview: line_preview(expected_line.as_slice()),
                actual_preview: line_preview(actual_line.as_slice()),
            };
        }
    }
}

pub open spec fn hash_is(h: Option<crate::model::Hash>, bytes: Option<Seq<u8>>) -> bool {
    match bytes {
        Some(b) => h is Some && h->0.bytes@ == blake3_of(b),
        None => h is None,
    }
}

impl TestCaseComparison {
    /// Whether this is what a comparison of two outputs says.
    pub open spec fn compares(&self, case: TestCase, expected: Seq<u8>, actual: Seq<u8>) -> bool {
        &&& self.case == case
        &&& hash_is(self.expected_blake3, Some(expected))
        &&& hash_is(self.actual_blake3, Some(actual))
        &&& if expected == actual {
            self.outcome is Pass
        } else {
            self.outcome matches TestCaseOutcome::Fail(m) && m.tells(expected, actual)
        }
    }
}

/// Compares two outputs byte by byte.
pub fn compare_test_case_bytes(case: TestCase, expected: &[u8], actual: &[u8]) -> (r: TestCaseComparison)
    ensures
        r.compares(case, expected@, actual@),
{
    let expected_blake3 = Some(hash_bytes(expected));
    let actual_blake3 = Some(hash_bytes(actual));
    let outcome = if text::bytes_eq(expected, actual) {
        TestCaseOutcome::Pass
    } else {
        TestCaseOutcome::Fail(first_mismatch(expected, actual))
    };
    TestCaseComparison { case, outcome, expected_blake3, actual_blake3 }
}

/// Whether a text holds another.
pub open spec fn holds(s: Seq<char>, part: Seq<char>) -> bool {
    exists|i: int| #[trigger] holds_at(s, part, i)
}

pub open spec fn holds_at(s: Seq<char>, part: Seq<char>, i: int) -> bool {
    0 <= i <= s.len() - part.len() && s.subrange(i, i + part.len()) == part
}

fn find_text(s: &str, part: &str) -> (r: bool)
    ensures
        r == holds(s@, part@),
{
    let a = text::chars_of(s);
    let b = text::chars_of(part);
    if a.len() < b.len() {
        return false;
    }
    let mut i: usize = 0;
    let last: usize = a.len() - b.len();
    while i <= last
        invariant
            a@ == s@,
            b@ == part@,
            last == a@.len() - b@.len(),
            last == a.len() - b.len(),
            i <= last + 1,
            forall|k: int| 0 <= k < i ==> !(#[trigger] holds_at(s@, part@, k)),
        decreases last + 1 - i,
    {
        let mut j: usize = 0;
        while j < b.len() && a[i + j] == b[j]
            invariant
                j <= b@.len(),
                i + b@.len() <= a@.len(),
                a.len() == a@.len(),
                forall|k: int| 0 <= k < j ==> #[trigger] b@[k] == a@[i + k],
            decreases b@.len() - j,
        {
            j += 1;
        }
        if j == b.len() {
            proof {
                assert(s@.subrange(i as int, i + part@.len()) =~= part@);
                assert(holds_at(s@, part@, i as int));
            }
            return true;
        }
        proof {
            if holds_at(s@, part@, i as int) {
                assert(s@.subrange(i as int, i + part@.len())[j as int] == a@[i + j]);
            }
        }
        if i == last {
            proof {
                assert forall|k: int| !(#[trigger] holds_at(s@, part@, k)) by {
                    if 0 <= k < i {
                    }
                }
            }
            return false;
        }
        i += 1;
    }
    false
}

pub open spec fn termination_text(reason: CommandTermination) -> Seq<char> {
    match reason {
        CommandTermination::Cancelled => "cancelled"@,
        CommandTermination::Quit => "quit"@,
        CommandTermination::Deadline => "deadline exceeded"@,
        CommandTermination::OutputLimit => "output limit exceeded"@,
        CommandTermination::CaptureFailure => "capture failed"@,
        CommandTermination::Signal => "terminated by signal"@,
        CommandTermination::CleanupFailure => "process cleanup failed"@,
    }
}

/// Why a run cannot be compared, as far as the run itself says.
pub open spec fn run_error(outcome: CommandOutcome, completeness: CaptureCompleteness) -> Option<Seq<char>> {
    match outcome {
        CommandOutcome::LaunchFailed { .. } => Some("launch failed"@),
        CommandOutcome::Terminated { reason, .. } => Some(termination_text(reason)),
        CommandOutcome::Exited { code } => if code != 0 {
            Some("exit "@ + text::signed(code as int))
        } else {
            match completeness {
                CaptureCompleteness::Complete => None,
                CaptureCompleteness::Truncated => Some("stdout capture was truncated"@),
                CaptureCompleteness::ReadFailed => Some("stdout capture read failed"@),
                CaptureCompleteness::Unavailable => Some("stdout capture is unavailable"@),
            }
        },
    }
}

pub const OVERSIZED: &'static str = "exceeds the 1048576-byte limit";

pub open spec fn expected_error(detail: Seq<char>) -> Seq<char> {
    if holds(detail, OVERSIZED@) {
        "expected output is oversized"@
    } else {
        "expected output is unreadable"@
    }
}

fn termination_word(reason: CommandTermination) -> (r: &'static str)
    ensures
        r@ == termination_text(reason),
{
    match reason {
        CommandTermination::Cancelled => "cancelled",
        CommandTermination::Quit => "quit",
        CommandTermination::Deadline => "deadline exceeded",
        CommandTermination::OutputLimit => "output limit exceeded",
        CommandTermination::CaptureFailure => "capture failed",
        CommandTermination::Signal => "terminated by signal",
        CommandTermination::CleanupFailure => "process cleanup failed",
    }
}

fn error_of_run(outcome: &CommandOutcome, completeness: CaptureCompleteness) -> (r: Option<String>)
    ensures
        match run_error(*outcome, completeness) {
            Some(why) => r is Some && r->0@ == why,
            None => r is None,
        },
{
    match outcome {
        CommandOutcome::LaunchFailed { .. } => Some("launch failed".to_owned()),
        CommandOutcome::Terminated { reason, .. } => Some(termination_word(*reason).to_owned()),
        CommandOutcome::Exited { code } => {
            if *code != 0 {
                let mut r = "exit ".to_owned();
                r.push_str(text::write_signed(*code).as_str());
                return Some(r);
            }
            match completeness {
                CaptureCompleteness::Complete => None,
                CaptureCompleteness::Truncated => Some("stdout capture was truncated".to_owned()),
                CaptureCompleteness::ReadFailed => Some("stdout capture read failed".to_owned()),
                CaptureCompleteness::Unavailable => Some("stdout capture is unavailable".to_owned()),
            }
        },
    }
}

impl TestCaseComparison {
    /// Whether this is what a run of a case came to.
    pub open spec fn classifies(
        &self,
        case: TestCase,
        outcome: CommandOutcome,
        completeness: CaptureCompleteness,
        actual: Seq<u8>,
        expected: Result<Vec<u8>, String>,
    ) -> bool {
        match (run_error(outcome, completeness), expected) {
            (None, Ok(bytes)) => self.compares(case, bytes@, actual),
            (error, _) => {
                &&& self.case == case
                &&& hash_is(
                    self.expected_blake3,
                    match expected {
                        Ok(bytes) => Some(bytes@),
                        Err(_) => None,
                    },
                )
                &&& hash_is(
                    self.actual_blake3,
                    if completeness == CaptureCompleteness::Unavailable {
                        None
                    } else {
                        Some(actual)
                    },
                )
                &&& self.outcome is Error
                &&& self.outcome->Error_0@ == match error {
                    Some(why) => why,
                    None => expected_error(expected->Err_0@),
                }
            },
        }
    }
}

/// What a run of a case came to: a comparison where both outputs are whole, and
/// an error otherwise.
pub fn classify_test_case_result(
    case: TestCase,
    process_outcome: &CommandOutcome,
    completeness: CaptureCompleteness,
    actual: &[u8],
    expected: Result<Vec<u8>, String>,
) -> (r: TestCaseComparison)
    ensures
        r.classifies(case, *process_outcome, completeness, actual@, expected),
{
    let run = error_of_run(process_outcome, completeness);
    let error = match run {
        Some(why) => Some(why),
        None => match &expected {
            Ok(_) => None,
            Err(detail) => {
                if find_text(detail.as_str(), OVERSIZED) {
                    Some("expected output is oversized".to_owned())
                } else {
                    Some("expected output is unreadable".to_owned())
                }
            },
        },
    };
    let expected_blake3 = match &expected {
        Ok(bytes) => Some(hash_bytes(bytes.as_slice())),
        Err(_) => None,
    };
    match error {
        Some(reason) => {
            let actual_blake3 = if completeness == CaptureCompleteness::Unavailable {
                None
            } else {
                Some(hash_bytes(actual))
            };
            TestCaseComparison {
                case,
                outcome: TestCaseOutcome::Error(reason),
                expected_blake3,
                actual_blake3,
            }
        },
        None => match expected {
            Ok(bytes) => compare_test_case_bytes(case, bytes.as_slice(), actual),
            Err(detail) => TestCaseComparison {
                case,
                outcome: TestCaseOutcome::Error(detail),
                expected_blake3,
                actual_blake3: None,
            },
        },
    }
}

/// Only a run that exited with nothing wrong, was captured whole and gave the
/// expected bytes passes.
pub proof fn a_pass_is_exact(
    r: TestCaseComparison,
    case: TestCase,
    outcome: CommandOutcome,
    completeness: CaptureCompleteness,
    actual: Seq<u8>,
    expected: Result<Vec<u8>, String>,
)
    requires
        r.classifies(case, outcome, completeness, actual, expected),
    ensures
        r.outcome is Pass <==> outcome == (CommandOutcome::Exited { code: 0 }) && completeness
            == CaptureCompleteness::Complete && expected is Ok && expected->Ok_0@ == actual,
{
}

#[derive(Clone, Copy, Debug, PartialEq, Eq, Structural)]
pub enum OutputDisposition {
    CreateNew,
    Overwrite,
}

/// How an output is written: over a file that is there, or to a new one.
pub fn output_disposition(exists_already: bool) -> (r: OutputDisposition)
    ensures
        r == if exists_already {
            OutputDisposition::Overwrite
        } else {
            OutputDisposition::CreateNew
        },
{
    if exists_already {
        OutputDisposition::Overwrite
    } else {
        OutputDisposition::CreateNew
    }
}

} // verus!
