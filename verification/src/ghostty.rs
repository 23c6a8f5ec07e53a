//! Keys that the Ghostty terminal may keep to itself.

use crate::text;
use vstd::prelude::*;

verus! {

pub const KEYS_MARKER: &'static str = "# Rustrace Ghostty key setup";

pub const KEY_COUNT: usize = 12;

/// The keys that the editor wants for itself.
pub open spec fn key_of(i: int) -> Seq<char> {
    if i == 0 {
        "super+arrow_up"@
    } else if i == 1 {
        "super+arrow_down"@
    } else if i == 2 {
        "super+arrow_left"@
    } else if i == 3 {
        "super+arrow_right"@
    } else if i == 4 {
        "super+backspace"@
    } else if i == 5 {
        "alt+arrow_left"@
    } else if i == 6 {
        "alt+arrow_right"@
    } else if i == 7 {
        "super+f"@
    } else if i == 8 {
        "super+z"@
    } else if i == 9 {
        "super+k"@
    } else if i == 10 {
        "super+home"@
    } else {
        "super+end"@
    }
}

pub fn setup_key(i: usize) -> (r: &'static str)
    ensures
        r@ == key_of(i as int),
{
    if i == 0 {
        "super+arrow_up"
    } else if i == 1 {
        "super+arrow_down"
    } else if i == 2 {
        "super+arrow_left"
    } else if i == 3 {
        "super+arrow_right"
    } else if i == 4 {
        "super+backspace"
    } else if i == 5 {
        "alt+arrow_left"
    } else if i == 6 {
        "alt+arrow_right"
    } else if i == 7 {
        "super+f"
    } else if i == 8 {
        "super+z"
    } else if i == 9 {
        "super+k"
    } else if i == 10 {
        "super+home"
    } else {
        "super+end"
    }
}

/// What the terminal does with these keys when nothing was set up.
pub open spec fn default_action_of(i: int) -> Seq<char> {
    if i == 0 {
        "jump_to_prompt:-1"@
    } else if i == 1 {
        "jump_to_prompt:1"@
    } else if i == 2 {
        "text:\\x01"@
    } else if i == 3 {
        "text:\\x05"@
    } else if i == 4 {
        "text:\\x15"@
    } else if i == 5 {
        "esc:b"@
    } else if i == 6 {
        "esc:f"@
    } else if i == 7 {
        "start_search"@
    } else if i == 8 {
        "undo"@
    } else if i == 9 {
        "clear_screen"@
    } else if i == 10 {
        "scroll_to_top"@
    } else {
        "scroll_to_bottom"@
    }
}

pub fn default_action(i: usize) -> (r: &'static str)
    ensures
        r@ == default_action_of(i as int),
{
    if i == 0 {
        "jump_to_prompt:-1"
    } else if i == 1 {
        "jump_to_prompt:1"
    } else if i == 2 {
        "text:\\x01"
    } else if i == 3 {
        "text:\\x05"
    } else if i == 4 {
        "text:\\x15"
    } else if i == 5 {
        "esc:b"
    } else if i == 6 {
        "esc:f"
    } else if i == 7 {
        "start_search"
    } else if i == 8 {
        "undo"
    } else if i == 9 {
        "clear_screen"
    } else if i == 10 {
        "scroll_to_top"
    } else {
        "scroll_to_bottom"
    }
}

#[derive(Clone, Copy, Debug, PartialEq, Eq, Structural)]
pub enum GhosttyBindingStatus {
    Owned,
    Rewritten,
    Passed,
}

impl GhosttyBindingStatus {
    pub open spec fn word(self) -> Seq<char> {
        match self {
            GhosttyBindingStatus::Owned => "owned"@,
            GhosttyBindingStatus::Rewritten => "rewritten"@,
            GhosttyBindingStatus::Passed => "passed"@,
        }
    }

    pub fn label(self) -> (r: &'static str)
        ensures
            r@ == self.word(),
    {
        match self {
            GhosttyBindingStatus::Owned => "owned",
            GhosttyBindingStatus::Rewritten => "rewritten",
            GhosttyBindingStatus::Passed => "passed",
        }
    }
}

/// What happens to an action: it is passed on, written as other bytes, or kept.
pub open spec fn status_of(action: Seq<char>) -> GhosttyBindingStatus {
    if action == "unbind"@ {
        GhosttyBindingStatus::Passed
    } else if text::behind(action, "text:"@) is Some || text::behind(action, "esc:"@) is Some {
        GhosttyBindingStatus::Rewritten
    } else {
        GhosttyBindingStatus::Owned
    }
}

pub fn classify_action(action: &str) -> (r: GhosttyBindingStatus)
    ensures
        r == status_of(action@),
{
    if text::str_eq(action, "unbind") {
        GhosttyBindingStatus::Passed
    } else if text::strip_start(action, "text:").is_some() || text::strip_start(
        action,
        "esc:",
    ).is_some() {
        GhosttyBindingStatus::Rewritten
    } else {
        GhosttyBindingStatus::Owned
    }
}

// The byte that an action writes.

/// The place of the first character at or after a place that is no backslash.
pub open spec fn slashes_end(s: Seq<char>, from: nat) -> nat
    decreases s.len() - from,
{
    if from >= s.len() || s[from as int] != '\\' {
        from
    } else {
        slashes_end(s, from + 1)
    }
}

pub open spec fn digit_value(c: char) -> Option<u8> {
    if '0' <= c <= '9' {
        Some((c as u32 - 0x30) as u8)
    } else if 'a' <= c <= 'f' {
        Some((c as u32 - 0x61 + 10) as u8)
    } else if 'A' <= c <= 'F' {
        Some((c as u32 - 0x41 + 10) as u8)
    } else {
        None
    }
}

/// The number that two characters give to base sixteen. A plus sign may stand
/// before a single digit.
pub open spec fn hex_pair(a: char, b: char) -> Option<u8> {
    match (digit_value(a), digit_value(b)) {
        (Some(x), Some(y)) => Some((16 * x + y) as u8),
        (None, Some(y)) => if a == '+' {
            Some(y)
        } else {
            None
        },
        _ => None,
    }
}

/// The byte that an action writes, if it writes one: it may stand for itself or
/// be escaped.
pub open spec fn text_byte(action: Seq<char>) -> Option<u8> {
    match text::behind(action, "text:"@) {
        None => None,
        Some(p) => if p.len() == 1 && (p[0] as u32) < 0x80 {
            Some(p[0] as u8)
        } else {
            let k = slashes_end(p, 0);
            if k == 0 || p.len() != k + 3 || (p[k as int] != 'x' && p[k as int] != 'X') {
                None
            } else {
                hex_pair(p[(k + 1) as int], p[(k + 2) as int])
            }
        },
    }
}

fn read_digit(c: char) -> (r: Option<u8>)
    ensures
        r == digit_value(c),
        r is Some ==> r->0 < 16,
{
    let v: u32 = c as u32;
    if '0' <= c && c <= '9' {
        Some((v - 0x30) as u8)
    } else if 'a' <= c && c <= 'f' {
        Some((v - 0x61 + 10) as u8)
    } else if 'A' <= c && c <= 'F' {
        Some((v - 0x41 + 10) as u8)
    } else {
        None
    }
}

fn read_pair(a: char, b: char) -> (r: Option<u8>)
    ensures
        r == hex_pair(a, b),
{
    match (read_digit(a), read_digit(b)) {
        (Some(x), Some(y)) => Some(16 * x + y),
        (None, Some(y)) => if a == '+' {
            Some(y)
        } else {
            None
        },
        _ => None,
    }
}

pub fn serialized_text_byte(action: &str) -> (r: Option<u8>)
    ensures
        r == text_byte(action@),
{
    let payload = match text::strip_start(action, "text:") {
        Some(p) => p,
        None => {
            return None;
        },
    };
    let p = text::chars_of(payload.as_str());
    if p.len() == 1 {
        let c: char = p[0];
        let v: u32 = c as u32;
        if v < 0x80 {
            return Some(c as u8);
        }
    }
    let mut k: usize = 0;
    while k < p.len() && p[k] == '\\'
        invariant
            k <= p@.len(),
            slashes_end(p@, 0) == slashes_end(p@, k as nat),
        decreases p@.len() - k,
    {
        k += 1;
    }
    if k == 0 || p.len() - k != 3 || (p[k] != 'x' && p[k] != 'X') {
        return None;
    }
    read_pair(p[k + 1], p[k + 2])
}

/// Whether what the terminal sends for a key is exactly what the editor takes
/// the key to mean.
pub open spec fn is_exact(key: Seq<char>, action: Seq<char>) -> bool {
    if key == "super+arrow_left"@ {
        text_byte(action) == Some(0x01u8)
    } else if key == "super+arrow_right"@ {
        text_byte(action) == Some(0x05u8)
    } else if key == "super+backspace"@ {
        text_byte(action) == Some(0x15u8)
    } else if key == "super+k"@ {
        text_byte(action) == Some(0x0bu8)
    } else if key == "alt+arrow_left"@ {
        action == "esc:b"@
    } else if key == "alt+arrow_right"@ {
        action == "esc:f"@
    } else {
        false
    }
}

fn writes(action: &str, byte: u8) -> (r: bool)
    ensures
        r == (text_byte(action@) == Some(byte)),
{
    match serialized_text_byte(action) {
        Some(b) => b == byte,
        None => false,
    }
}

pub fn is_exact_translation(key: &str, action: &str) -> (r: bool)
    ensures
        r == is_exact(key@, action@),
{
    if text::str_eq(key, "super+arrow_left") {
        writes(action, 0x01)
    } else if text::str_eq(key, "super+arrow_right") {
        writes(action, 0x05)
    } else if text::str_eq(key, "super+backspace") {
        writes(action, 0x15)
    } else if text::str_eq(key, "super+k") {
        writes(action, 0x0b)
    } else if text::str_eq(key, "alt+arrow_left") {
        text::str_eq(action, "esc:b")
    } else if text::str_eq(key, "alt+arrow_right") {
        text::str_eq(action, "esc:f")
    } else {
        false
    }
}

// What the terminal lists.

/// The keys and the action of a line that defines a binding.
pub open spec fn definition(line: Seq<char>) -> Option<(Seq<char>, Seq<char>)> {
    match text::behind(text::trimmed(line), "keybind = "@) {
        None => None,
        Some(rest) => {
            let k = text::place_of(rest, '=', 0);
            if k < rest.len() {
                Some((rest.take(k as int), rest.skip((k + 1) as int)))
            } else {
                None
            }
        },
    }
}

fn read_definition(line: &str) -> (r: Option<(String, String)>)
    ensures
        match r {
            Some((keys, action)) => definition(line@) == Some((keys@, action@)),
            None => definition(line@) is None,
        },
{
    let trimmed = text::trim(line);
    match text::strip_start(trimmed.as_str(), "keybind = ") {
        None => None,
        Some(rest) => {
            let chars = text::chars_of(rest.as_str());
            let k = text::find_char(&chars, '=', 0);
            if k == chars.len() {
                return None;
            }
            let keys = text::string_of(chars.as_slice(), 0, k);
            let action = text::string_of(chars.as_slice(), k + 1, chars.len());
            assert(keys@ =~= rest@.take(k as int));
            assert(action@ =~= rest@.skip(k + 1));
            Some((keys, action))
        },
    }
}

/// The place behind the last colon before a place.
pub open spec fn colon_end(s: Seq<char>, to: nat) -> nat
    decreases to,
{
    if to == 0 || to > s.len() || s[to - 1] == ':' {
        to
    } else {
        colon_end(s, (to - 1) as nat)
    }
}

/// The key of a binding: what stands behind its flags.
pub open spec fn key_name(keys: Seq<char>) -> Seq<char> {
    keys.skip(colon_end(keys, keys.len()) as int)
}

fn read_key(keys: &str) -> (r: String)
    ensures
        r@ == key_name(keys@),
{
    let chars = text::chars_of(keys);
    let mut k: usize = chars.len();
    while k > 0 && chars[k - 1] != ':'
        invariant
            k <= chars@.len(),
            chars@ == keys@,
            colon_end(keys@, keys@.len()) == colon_end(keys@, k as nat),
        decreases k,
    {
        k -= 1;
    }
    let r = text::string_of(chars.as_slice(), k, chars.len());
    assert(r@ =~= keys@.skip(k as int));
    r
}

/// The action of a key: that of the first line that binds it to one.
pub open spec fn action_in(lines: Seq<Seq<char>>, key: Seq<char>, from: nat) -> Option<Seq<char>>
    decreases lines.len() - from,
{
    if from >= lines.len() {
        None
    } else {
        match definition(lines[from as int]) {
            Some((keys, action)) => if key_name(keys) == key && action != "unbind"@ {
                Some(action)
            } else {
                action_in(lines, key, from + 1)
            },
            None => action_in(lines, key, from + 1),
        }
    }
}

fn action_for_key(lines: &Vec<String>, key: &str) -> (r: Option<String>)
    ensures
        match action_in(text::texts(lines@), key@, 0) {
            Some(action) => r is Some && r->0@ == action,
            None => r is None,
        },
{
    let ghost all = text::texts(lines@);
    let mut i: usize = 0;
    while i < lines.len()
        invariant
            i <= lines@.len(),
            all == text::texts(lines@),
            action_in(all, key@, 0) == action_in(all, key@, i as nat),
        decreases lines@.len() - i,
    {
        assert(all[i as int] == lines@[i as int]@);
        match read_definition(lines[i].as_str()) {
            Some((keys, action)) => {
                let name = read_key(keys.as_str());
                if text::str_eq(name.as_str(), key) && !text::str_eq(action.as_str(), "unbind") {
                    return Some(action);
                }
            },
            None => {},
        }
        i += 1;
    }
    None
}

pub open spec fn defines_any(lines: Seq<Seq<char>>) -> bool {
    exists|i: int| 0 <= i < lines.len() && definition(#[trigger] lines[i]) is Some
}

fn has_definition(lines: &Vec<String>) -> (r: bool)
    ensures
        r == defines_any(text::texts(lines@)),
{
    let ghost all = text::texts(lines@);
    let mut i: usize = 0;
    while i < lines.len()
        invariant
            i <= lines@.len(),
            all == text::texts(lines@),
            forall|j: int| 0 <= j < i ==> definition(#[trigger] all[j]) is None,
        decreases lines@.len() - i,
    {
        assert(all[i as int] == lines@[i as int]@);
        if read_definition(lines[i].as_str()).is_some() {
            return true;
        }
        i += 1;
    }
    false
}

// What is known of the keys.

/// What happens to each key, whether what is sent for it is exact, and whether
/// this was asked of the terminal.
#[derive(Clone, Copy, Debug, PartialEq, Eq)]
pub struct GhosttyKeyBindings {
    pub statuses: [GhosttyBindingStatus; 12],
    pub exact_translations: [bool; 12],
    pub probe_available: bool,
}

/// The place of a key.
pub open spec fn key_place(key: Seq<char>, from: nat) -> Option<int>
    decreases KEY_COUNT - from,
{
    if from >= KEY_COUNT {
        None
    } else if key_of(from as int) == key {
        Some(from as int)
    } else {
        key_place(key, from + 1)
    }
}

fn find_key(key: &str) -> (r: Option<usize>)
    ensures
        match key_place(key@, 0) {
            Some(k) => r is Some && r->0 == k && k < KEY_COUNT,
            None => r is None,
        },
{
    let mut i: usize = 0;
    while i < KEY_COUNT
        invariant
            i <= KEY_COUNT,
            key_place(key@, 0) == key_place(key@, i as nat),
        decreases KEY_COUNT - i,
    {
        if text::str_eq(setup_key(i), key) {
            return Some(i);
        }
        i += 1;
    }
    None
}

pub open spec fn status_in(action: Option<Seq<char>>) -> GhosttyBindingStatus {
    match action {
        Some(a) => status_of(a),
        None => GhosttyBindingStatus::Passed,
    }
}

pub open spec fn exact_in(key: Seq<char>, action: Option<Seq<char>>) -> bool {
    match action {
        Some(a) => is_exact(key, a),
        None => false,
    }
}

fn status_for(action: &Option<String>) -> (r: GhosttyBindingStatus)
    ensures
        r == status_in(opt_string(*action)),
{
    match action {
        Some(a) => classify_action(a.as_str()),
        None => GhosttyBindingStatus::Passed,
    }
}

fn exact_for(i: usize, action: &Option<String>) -> (r: bool)
    ensures
        r == exact_in(key_of(i as int), opt_string(*action)),
{
    match action {
        Some(a) => is_exact_translation(setup_key(i), a.as_str()),
        None => false,
    }
}

pub open spec fn opt_string(s: Option<String>) -> Option<Seq<char>> {
    match s {
        Some(t) => Some(t@),
        None => None,
    }
}

/// What was found of the keys: their actions, and whether the terminal said so.
#[derive(Clone, Debug, PartialEq, Eq)]
pub struct GhosttyInspection {
    pub bindings: GhosttyKeyBindings,
    pub actions: Vec<Option<String>>,
    pub cli_available: bool,
}

impl GhosttyKeyBindings {
    /// Whether these are the statuses of actions.
    pub open spec fn describes(&self, actions: spec_fn(int) -> Option<Seq<char>>, asked: bool) -> bool {
        &&& self.probe_available == asked
        &&& forall|i: int|
            0 <= i < KEY_COUNT ==> #[trigger] self.statuses@[i] == status_in(actions(i))
        &&& forall|i: int|
            0 <= i < KEY_COUNT ==> #[trigger] self.exact_translations@[i] == exact_in(key_of(i), actions(i))
    }

    pub fn passed() -> (r: Self)
        ensures
            r.probe_available,
            forall|i: int| 0 <= i < KEY_COUNT ==> #[trigger] r.statuses@[i] == GhosttyBindingStatus::Passed,
            forall|i: int| 0 <= i < KEY_COUNT ==> !(#[trigger] r.exact_translations@[i]),
    {
        GhosttyKeyBindings {
            statuses: [GhosttyBindingStatus::Passed; 12],
            exact_translations: [false; 12],
            probe_available: true,
        }
    }

    pub fn defaults() -> (r: Self)
        ensures
            r.describes(|i: int| Some(default_action_of(i)), false),
    {
        let inspection = default_inspection();
        inspection.bindings
    }

    /// Whether these are the statuses that a listing shows. One that defines nothing
    /// is no listing: then the usual actions are taken to hold.
    pub open spec fn shows(&self, output: Seq<char>) -> bool {
        if defines_any(text::lines(output)) {
            self.describes(|i: int| action_in(text::lines(output), key_of(i), 0), true)
        } else {
            self.describes(|i: int| Some(default_action_of(i)), false)
        }
    }

    pub fn from_list_output(output: &str) -> (r: Self)
        ensures
            r.shows(output@),
    {
        let inspection = parse_list_output(output);
        inspection.bindings
    }

    pub fn status(&self, key: &str) -> (r: Option<GhosttyBindingStatus>)
        ensures
            r == match key_place(key@, 0) {
                Some(k) => Some(self.statuses@[k]),
                None => None,
            },
    {
        match find_key(key) {
            Some(i) => Some(self.statuses[i]),
            None => None,
        }
    }

    /// Whether a command on a key can be shown as a hint: it was asked of the
    /// terminal, and the key comes through.
    pub open spec fn hints(&self, key: Seq<char>) -> bool {
        self.probe_available && (key_place(key, 0) matches Some(k) && (self.statuses@[k]
            == GhosttyBindingStatus::Passed || self.exact_translations@[k]))
    }

    pub fn command_hint_available(&self, key: &str) -> (r: bool)
        ensures
            r == self.hints(key@),
    {
        match find_key(key) {
            Some(i) => self.probe_available && (self.statuses[i] == GhosttyBindingStatus::Passed
                || self.exact_translations[i]),
            None => false,
        }
    }

    pub fn observed_exact_translation(&self, key: &str) -> (r: bool)
        ensures
            r == (self.probe_available && (key_place(key@, 0) matches Some(k)
                && self.exact_translations@[k])),
    {
        match find_key(key) {
            Some(i) => self.probe_available && self.exact_translations[i],
            None => false,
        }
    }
}

impl Default for GhosttyKeyBindings {
    fn default() -> (r: GhosttyKeyBindings)
        ensures
            r.describes(|i: int| Some(default_action_of(i)), false),
    {
        GhosttyKeyBindings::defaults()
    }
}

fn bindings_of(actions: &Vec<Option<String>>, asked: bool) -> (r: GhosttyKeyBindings)
    requires
        actions@.len() == KEY_COUNT,
    ensures
        r.describes(|i: int| opt_string(actions@[i]), asked),
{
    let mut statuses: [GhosttyBindingStatus; 12] = [GhosttyBindingStatus::Passed; 12];
    let mut exact_translations: [bool; 12] = [false; 12];
    let mut i: usize = 0;
    while i < KEY_COUNT
        invariant
            i <= KEY_COUNT,
            actions@.len() == KEY_COUNT,
            forall|j: int| 0 <= j < i ==> #[trigger] statuses@[j] == status_in(opt_string(actions@[j])),
            forall|j: int|
                0 <= j < i ==> #[trigger] exact_translations@[j] == exact_in(
                    key_of(j),
                    opt_string(actions@[j]),
                ),
        decreases KEY_COUNT - i,
    {
        statuses[i] = status_for(&actions[i]);
        exact_translations[i] = exact_for(i, &actions[i]);
        i += 1;
    }
    GhosttyKeyBindings { statuses, exact_translations, probe_available: asked }
}

impl GhosttyInspection {
    pub open spec fn finds(&self, actions: spec_fn(int) -> Option<Seq<char>>, asked: bool) -> bool {
        &&& self.cli_available == asked
        &&& self.actions@.len() == KEY_COUNT
        &&& forall|i: int| 0 <= i < KEY_COUNT ==> opt_string(#[trigger] self.actions@[i]) == actions(i)
        &&& self.bindings.describes(actions, asked)
    }
}

/// What is taken to hold where the terminal was not asked: its defaults, and
/// no key that comes through.
pub fn default_inspection() -> (r: GhosttyInspection)
    ensures
        r.finds(|i: int| Some(default_action_of(i)), false),
{
    let mut actions: Vec<Option<String>> = Vec::new();
    let mut i: usize = 0;
    while i < KEY_COUNT
        invariant
            i <= KEY_COUNT,
            actions@.len() == i,
            forall|j: int| 0 <= j < i ==> opt_string(#[trigger] actions@[j]) == Some(default_action_of(j)),
        decreases KEY_COUNT - i,
    {
        actions.push(Some(default_action(i).to_owned()));
        i += 1;
    }
    let bindings = bindings_of(&actions, false);
    GhosttyInspection { bindings, actions, cli_available: false }
}

/// Reads what the terminal lists. A list without a binding says nothing.
pub fn parse_list_output(output: &str) -> (r: GhosttyInspection)
    ensures
        if defines_any(text::lines(output@)) {
            r.finds(|i: int| action_in(text::lines(output@), key_of(i), 0), true)
        } else {
            r.finds(|i: int| Some(default_action_of(i)), false)
        },
{
    let lines = text::split_lines(output);
    if !has_definition(&lines) {
        return default_inspection();
    }
    let ghost all = text::lines(output@);
    let mut actions: Vec<Option<String>> = Vec::new();
    let mut i: usize = 0;
    while i < KEY_COUNT
        invariant
            i <= KEY_COUNT,
            actions@.len() == i,
            text::texts(lines@) == all,
            forall|j: int| 0 <= j < i ==> opt_string(#[trigger] actions@[j]) == action_in(all, key_of(j), 0),
        decreases KEY_COUNT - i,
    {
        let action = action_for_key(&lines, setup_key(i));
        actions.push(action);
        i += 1;
    }
    let bindings = bindings_of(&actions, true);
    GhosttyInspection { bindings, actions, cli_available: true }
}

proof fn lemma_no_action(lines: Seq<Seq<char>>, key: Seq<char>, from: nat)
    requires
        forall|i: int|
            0 <= i < lines.len() ==> ((#[trigger] definition(lines[i])) matches Some((_, action))
                ==> action == "unbind"@),
    ensures
        action_in(lines, key, from) is None,
    decreases lines.len() - from,
{
    if from < lines.len() {
        assert(definition(lines[from as int]) matches Some((_, action)) ==> action == "unbind"@);
        lemma_no_action(lines, key, from + 1);
    }
}

/// Where every binding that the terminal lists gives its key up, every key
/// comes through.
pub proof fn keys_given_up_come_through(lines: Seq<Seq<char>>, key: Seq<char>, from: nat)
    requires
        forall|i: int|
            0 <= i < lines.len() ==> ((#[trigger] definition(lines[i])) matches Some((_, action))
                ==> action == "unbind"@),
    ensures
        status_in(action_in(lines, key, from)) == GhosttyBindingStatus::Passed,
{
    lemma_no_action(lines, key, from);
}

/// Whether the terminal is the one whose keys matter here.
pub fn applies_to_terminal(is_macos: bool, terminal: Option<&str>) -> (r: bool)
    ensures
        r == (is_macos && (opt_str(terminal) matches Some(t) && text::lowered_is(t, "ghostty"@))),
{
    match terminal {
        Some(t) => is_macos && text::is_lowered(t, "ghostty"),
        None => false,
    }
}

/// What is taken to hold of the keys at the start, from what the terminal listed
/// if it could be asked.
pub fn startup_key_bindings(applies: bool, listing: Option<&str>) -> (r: GhosttyKeyBindings)
    ensures
        match (applies, opt_str(listing)) {
            (false, _) => {
                &&& r.probe_available
                &&& forall|i: int|
                    0 <= i < KEY_COUNT ==> #[trigger] r.statuses@[i] == GhosttyBindingStatus::Passed
                &&& forall|i: int| 0 <= i < KEY_COUNT ==> !(#[trigger] r.exact_translations@[i])
            },
            (true, Some(output)) => r.shows(output),
            (true, None) => r.describes(|i: int| Some(default_action_of(i)), false),
        },
{
    if !applies {
        return GhosttyKeyBindings::passed();
    }
    match listing {
        Some(output) => GhosttyKeyBindings::from_list_output(output),
        None => GhosttyKeyBindings::defaults(),
    }
}

// Setting the keys up.

pub open spec fn key_lines(n: nat) -> Seq<char>
    decreases n,
{
    if n == 0 {
        Seq::empty()
    } else {
        key_lines((n - 1) as nat) + "keybind = "@ + key_of(n - 1) + "=unbind\n"@
    }
}

/// The file that gives the keys up: a marker and a line for each key.
pub open spec fn keys_file() -> Seq<char> {
    KEYS_MARKER@.push('\n') + key_lines(KEY_COUNT as nat)
}

pub fn keys_file_contents() -> (r: String)
    ensures
        r@ == keys_file(),
{
    let mut r = KEYS_MARKER.to_owned();
    r.push('\n');
    let ghost start = r@;
    let mut i: usize = 0;
    assert(start + key_lines(0) =~= start);
    while i < KEY_COUNT
        invariant
            i <= KEY_COUNT,
            r@ == start + key_lines(i as nat),
        decreases KEY_COUNT - i,
    {
        let ghost before = r@;
        r.push_str("keybind = ");
        r.push_str(setup_key(i));
        r.push_str("=unbind\n");
        i += 1;
        assert(r@ =~= start + key_lines(i as nat));
    }
    r
}

/// The line of a key, without the line feed.
pub open spec fn key_line(i: int) -> Seq<char> {
    "keybind = "@ + key_of(i) + "=unbind"@
}

/// What a key is written with.
proof fn lemma_key_of(i: int)
    requires
        0 <= i < KEY_COUNT,
    ensures
        forall|j: int| 0 <= j < key_of(i).len() ==> #[trigger] key_of(i)[j] != '=' && key_of(i)[j] != '\n',
{
    reveal_strlit("super+arrow_up");
    reveal_strlit("super+arrow_down");
    reveal_strlit("super+arrow_left");
    reveal_strlit("super+arrow_right");
    reveal_strlit("super+backspace");
    reveal_strlit("alt+arrow_left");
    reveal_strlit("alt+arrow_right");
    reveal_strlit("super+f");
    reveal_strlit("super+z");
    reveal_strlit("super+k");
    reveal_strlit("super+home");
    reveal_strlit("super+end");
}

proof fn lemma_key_line(i: int)
    requires
        0 <= i < KEY_COUNT,
    ensures
        definition(key_line(i)) == Some((key_of(i), "unbind"@)),
        forall|j: int| 0 <= j < key_line(i).len() ==> #[trigger] key_line(i)[j] != '\n',
        text::without_return(key_line(i)) == key_line(i),
{
    reveal_strlit("keybind = ");
    reveal_strlit("=unbind");
    reveal_strlit("unbind");
    lemma_key_of(i);
    let line = key_line(i);
    let key = key_of(i);
    let n = key.len();
    let start = "keybind = "@;
    assert(line.last() == 'd');
    assert(line[0] == 'k');
    text::lemma_trimmed(line);
    assert(line.take(start.len() as int) =~= start);
    let rest = line.skip(start.len() as int);
    assert(rest =~= key + "=unbind"@);
    assert forall|j: int| 0 <= j < n implies #[trigger] rest[j] != '=' by {
        assert(rest[j] == key[j]);
    }
    text::lemma_place_is(rest, '=', 0, n);
    assert(rest.take(n as int) =~= key);
    assert(rest.skip((n + 1) as int) =~= "unbind"@);
    assert forall|j: int| 0 <= j < line.len() implies #[trigger] line[j] != '\n' by {
        if start.len() <= j < start.len() + n {
            assert(line[j] == key[j - start.len()]);
        }
    }
}

/// The lines of the file of keys: the marker, and one for each key.
proof fn lemma_keys_file_lines(n: nat)
    requires
        n <= KEY_COUNT,
    ensures
        ({
            let s = KEYS_MARKER@.push('\n') + key_lines(n);
            &&& s.last() == '\n'
            &&& text::lines(s).len() == n + 1
            &&& definition(text::lines(s)[0]) is None
            &&& forall|i: int|
                0 <= i < n ==> #[trigger] text::lines(s)[i + 1] == key_line(i)
        }),
    decreases n,
{
    let s = KEYS_MARKER@.push('\n') + key_lines(n);
    if n == 0 {
        reveal_strlit("# Rustrace Ghostty key setup");
        reveal_strlit("keybind = ");
        let none = Seq::<char>::empty();
        text::lemma_lines_push(none, KEYS_MARKER@);
        assert(none + KEYS_MARKER@.push('\n') =~= s);
        text::lemma_trimmed(KEYS_MARKER@);
        assert(KEYS_MARKER@.take("keybind = "@.len() as int)[0] == '#');
        assert("keybind = "@[0] == 'k');
    } else {
        let before = KEYS_MARKER@.push('\n') + key_lines((n - 1) as nat);
        lemma_keys_file_lines((n - 1) as nat);
        lemma_key_line(n - 1);
        text::lemma_lines_push(before, key_line(n - 1));
        reveal_strlit("=unbind\n");
        reveal_strlit("=unbind");
        assert("=unbind\n"@ =~= "=unbind"@.push('\n'));
        assert(s =~= before + key_line(n - 1).push('\n'));
        assert forall|i: int| 0 <= i < n implies #[trigger] text::lines(s)[i + 1] == key_line(i) by {
            if i < n - 1 {
                assert(text::lines(before)[i + 1] == key_line(i));
            }
        }
    }
}

proof fn lemma_key_place(key: Seq<char>, from: nat)
    ensures
        key_place(key, from) matches Some(k) ==> 0 <= k < KEY_COUNT,
    decreases KEY_COUNT - from,
{
    if from < KEY_COUNT {
        lemma_key_place(key, from + 1);
    }
}

/// The file that gives the keys up does so: to a terminal that lists just what
/// stands in it, every key of the editor comes through, and no other is known.
pub proof fn the_file_gives_every_key_up(bindings: GhosttyKeyBindings, key: Seq<char>)
    requires
        bindings.shows(keys_file()),
    ensures
        bindings.probe_available,
        forall|i: int|
            0 <= i < KEY_COUNT ==> #[trigger] bindings.statuses@[i] == GhosttyBindingStatus::Passed,
        forall|i: int| 0 <= i < KEY_COUNT ==> !(#[trigger] bindings.exact_translations@[i]),
        bindings.hints(key) <==> key_place(key, 0) is Some,
{
    let lines = text::lines(keys_file());
    lemma_keys_file_lines(KEY_COUNT as nat);
    assert forall|i: int| 0 <= i < lines.len() implies ((#[trigger] definition(lines[i])) matches Some(
        (_, action),
    ) ==> action == "unbind"@) by {
        if i > 0 {
            lemma_key_line(i - 1);
            assert(lines[(i - 1) + 1] == key_line(i - 1));
        }
    }
    assert(definition(lines[1]) is Some) by {
        lemma_key_line(0);
        assert(lines[0int + 1] == key_line(0));
    }
    assert(defines_any(lines));
    assert forall|i: int| 0 <= i < KEY_COUNT implies action_in(lines, #[trigger] key_of(i), 0) is None by {
        lemma_no_action(lines, key_of(i), 0);
    }
    assert forall|i: int| 0 <= i < KEY_COUNT implies #[trigger] bindings.statuses@[i]
        == GhosttyBindingStatus::Passed by {
        assert(action_in(lines, key_of(i), 0) is None);
    }
    assert forall|i: int| 0 <= i < KEY_COUNT implies !(#[trigger] bindings.exact_translations@[i]) by {
        assert(action_in(lines, key_of(i), 0) is None);
    }
    lemma_key_place(key, 0);
}

/// Where the file of the keys stands.
pub open spec fn keys_path_of(xdg: Option<Seq<char>>, home: Option<Seq<char>>) -> Option<Seq<char>> {
    config_below(xdg, home, "ghostty/rustrace-keys"@)
}

/// A file below the directory of settings: the one that is named, or the usual
/// one below the home.
pub open spec fn config_below(xdg: Option<Seq<char>>, home: Option<Seq<char>>, name: Seq<char>) -> Option<
    Seq<char>,
> {
    match (xdg, home) {
        (Some(x), _) if x.len() > 0 => Some(text::path_below(x, name)),
        (_, Some(h)) => Some(text::path_below(text::path_below(h, ".config"@), name)),
        _ => None,
    }
}

pub open spec fn opt_str(s: Option<&str>) -> Option<Seq<char>> {
    match s {
        Some(t) => Some(t@),
        None => None,
    }
}

pub fn config_path(xdg: Option<&str>, home: Option<&str>, name: &str) -> (r: Option<String>)
    ensures
        opt_string(r) == config_below(opt_str(xdg), opt_str(home), name@),
{
    match xdg {
        Some(x) => {
            let chars = text::chars_of(x);
            if chars.len() > 0 {
                return Some(text::join_path(x, name));
            }
        },
        None => {},
    }
    match home {
        Some(h) => {
            let base = text::join_path(h, ".config");
            Some(text::join_path(base.as_str(), name))
        },
        None => None,
    }
}

pub fn ghostty_keys_path(xdg_config_home: Option<&str>, home: Option<&str>) -> (r: Option<String>)
    ensures
        opt_string(r) == keys_path_of(opt_str(xdg_config_home), opt_str(home)),
{
    config_path(xdg_config_home, home, "ghostty/rustrace-keys")
}

/// What stands where the file of the keys is to be.
pub enum KeysFile {
    Missing,
    Link,
    Text(String),
}

#[derive(Clone, Debug, PartialEq, Eq)]
pub enum KeysStep {
    Write,
    UpToDate,
    Refuse(String),
}

pub open spec fn first_is_marker(contents: Seq<char>) -> bool {
    text::lines(contents).len() > 0 && text::lines(contents)[0] == KEYS_MARKER@
}

/// Only a file with the marker, or none, is written over.
pub open spec fn keys_step_of(path: Seq<char>, file: KeysFile) -> (bool, Option<Seq<char>>) {
    match file {
        KeysFile::Missing => (true, None),
        KeysFile::Link => (
            false,
            Some("refusing to overwrite "@ + path + "; it is a symbolic link"@),
        ),
        KeysFile::Text(contents) => if contents@ == keys_file() {
            (false, None)
        } else if first_is_marker(contents@) {
            (true, None)
        } else {
            (
                false,
                Some("refusing to overwrite "@ + path + "; it does not have the Rustrace marker"@),
            )
        },
    }
}

pub fn keys_step(path: &str, file: &KeysFile) -> (r: KeysStep)
    ensures
        match keys_step_of(path@, *file) {
            (true, _) => r is Write,
            (false, None) => r is UpToDate,
            (false, Some(why)) => r is Refuse && r->Refuse_0@ == why,
        },
{
    match file {
        KeysFile::Missing => KeysStep::Write,
        KeysFile::Link => {
            let mut m = "refusing to overwrite ".to_owned();
            m.push_str(path);
            m.push_str("; it is a symbolic link");
            KeysStep::Refuse(m)
        },
        KeysFile::Text(contents) => {
            let wanted = keys_file_contents();
            if text::str_eq(contents.as_str(), wanted.as_str()) {
                return KeysStep::UpToDate;
            }
            let lines = text::split_lines(contents.as_str());
            if lines.len() > 0 {
                assert(text::lines(contents@)[0] == lines@[0]@);
                if text::str_eq(lines[0].as_str(), KEYS_MARKER) {
                    return KeysStep::Write;
                }
            }
            let mut m = "refusing to overwrite ".to_owned();
            m.push_str(path);
            m.push_str("; it does not have the Rustrace marker");
            KeysStep::Refuse(m)
        },
    }
}

} // verus!
