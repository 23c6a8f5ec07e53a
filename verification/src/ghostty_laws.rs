//! What the terminal's own key bindings mean.

use crate::ghostty;
use crate::ghostty::{GhosttyBindingStatus, KeysFile};
use crate::text;
use vstd::prelude::*;

verus! {

proof fn lemma_behind(start: Seq<char>, rest: Seq<char>)
    ensures
        text::behind(start + rest, start) == Some(rest),
{
    assert((start + rest).take(start.len() as int) =~= start);
    assert((start + rest).skip(start.len() as int) =~= rest);
}

/// A line binds a key where it says so: the keys stand before the first equals sign
/// and the action behind it.
pub proof fn a_line_binds_its_keys(keys: Seq<char>, action: Seq<char>)
    requires
        forall|i: int| 0 <= i < keys.len() ==> #[trigger] keys[i] != '=',
        action.len() > 0,
        !text::is_white(action.last()),
    ensures
        ghostty::definition("keybind = "@ + keys + "="@ + action) == Some((keys, action)),
{
    reveal_strlit("keybind = ");
    reveal_strlit("=");
    let line = "keybind = "@ + keys + "="@ + action;
    let rest = keys + "="@ + action;
    assert(line =~= "keybind = "@ + rest);
    lemma_behind("keybind = "@, rest);
    assert(line[0] == 'k');
    assert(line.last() == action.last());
    text::lemma_trimmed(line);
    assert(rest[keys.len() as int] == '=');
    assert forall|i: int| 0 <= i < keys.len() implies #[trigger] rest[i] != '=' by {
        assert(rest[i] == keys[i]);
    }
    text::lemma_place_is(rest, '=', 0, keys.len());
    assert(rest.take(keys.len() as int) =~= keys);
    assert(rest.skip(keys.len() as int + 1) =~= action);
}

/// Whether a line binds a key to something.
pub open spec fn binds(line: Seq<char>, key: Seq<char>, action: Seq<char>) -> bool {
    ghostty::definition(line) matches Some((keys, a)) && ghostty::key_name(keys) == key && a
        == action && a != "unbind"@
}

/// The first line that binds a key to something counts. A key that none binds is
/// given up.
pub proof fn the_first_binding_counts(lines: Seq<Seq<char>>, key: Seq<char>, from: nat)
    requires
        from <= lines.len(),
    ensures
        match ghostty::action_in(lines, key, from) {
            Some(action) => exists|i: int|
                from <= i < lines.len() && binds(#[trigger] lines[i], key, action) && forall|j: int,
                    a: Seq<char>|
                    from <= j < i ==> !#[trigger] binds(lines[j], key, a),
            None => forall|j: int, a: Seq<char>|
                from <= j < lines.len() ==> !#[trigger] binds(lines[j], key, a),
        },
    decreases lines.len() - from,
{
    if from < lines.len() {
        match ghostty::definition(lines[from as int]) {
            Some((keys, action)) => {
                if ghostty::key_name(keys) == key && action != "unbind"@ {
                    assert(binds(lines[from as int], key, action));
                } else {
                    the_first_binding_counts(lines, key, from + 1);
                    lemma_not_here(lines, key, from);
                }
            },
            None => {
                the_first_binding_counts(lines, key, from + 1);
                lemma_not_here(lines, key, from);
            },
        }
    }
}

proof fn lemma_not_here(lines: Seq<Seq<char>>, key: Seq<char>, from: nat)
    requires
        from < lines.len(),
        forall|a: Seq<char>| !#[trigger] binds(lines[from as int], key, a),
        match ghostty::action_in(lines, key, from + 1) {
            Some(action) => exists|i: int|
                from + 1 <= i < lines.len() && binds(#[trigger] lines[i], key, action)
                    && forall|j: int, a: Seq<char>|
                    from + 1 <= j < i ==> !#[trigger] binds(lines[j], key, a),
            None => forall|j: int, a: Seq<char>|
                from + 1 <= j < lines.len() ==> !#[trigger] binds(lines[j], key, a),
        },
    ensures
        match ghostty::action_in(lines, key, from + 1) {
            Some(action) => exists|i: int|
                from <= i < lines.len() && binds(#[trigger] lines[i], key, action) && forall|j: int,
                    a: Seq<char>|
                    from <= j < i ==> !#[trigger] binds(lines[j], key, a),
            None => forall|j: int, a: Seq<char>|
                from <= j < lines.len() ==> !#[trigger] binds(lines[j], key, a),
        },
{
    match ghostty::action_in(lines, key, from + 1) {
        Some(action) => {
            let i = choose|i: int|
                from + 1 <= i < lines.len() && binds(#[trigger] lines[i], key, action)
                    && forall|j: int, a: Seq<char>|
                    from + 1 <= j < i ==> !#[trigger] binds(lines[j], key, a);
            assert forall|j: int, a: Seq<char>| from <= j < i implies !#[trigger] binds(
                lines[j],
                key,
                a,
            ) by {
                if j == from {
                    assert(!binds(lines[from as int], key, a));
                }
            }
        },
        None => {
            assert forall|j: int, a: Seq<char>| from <= j < lines.len() implies !#[trigger] binds(
                lines[j],
                key,
                a,
            ) by {
                if j == from {
                    assert(!binds(lines[from as int], key, a));
                }
            }
        },
    }
}

/// A key comes through where it was given up, is rewritten where the terminal types
/// something else for it, and is owned by the terminal where it does anything else.
pub proof fn an_action_tells_who_has_the_key(rest: Seq<char>, action: Seq<char>)
    ensures
        ghostty::status_of("unbind"@) == GhosttyBindingStatus::Passed,
        ghostty::status_of("text:"@ + rest) == GhosttyBindingStatus::Rewritten,
        ghostty::status_of("esc:"@ + rest) == GhosttyBindingStatus::Rewritten,
        ghostty::status_of(action) == GhosttyBindingStatus::Owned <==> action != "unbind"@ && (
        forall|r: Seq<char>| action != #[trigger] ("text:"@ + r) && action != "esc:"@ + r),
{
    reveal_strlit("text:");
    reveal_strlit("esc:");
    reveal_strlit("unbind");
    lemma_behind("text:"@, rest);
    lemma_behind("esc:"@, rest);
    assert(("text:"@ + rest)[0] == 't');
    assert(("esc:"@ + rest)[0] == 'e');
    assert("unbind"@[0] == 'u');
    if text::behind(action, "text:"@) is Some {
        let r = text::behind(action, "text:"@)->0;
        assert(action =~= "text:"@ + r);
    }
    if text::behind(action, "esc:"@) is Some {
        let r = text::behind(action, "esc:"@)->0;
        assert(action =~= "esc:"@ + r);
    }
    if ghostty::status_of(action) == GhosttyBindingStatus::Owned {
        assert forall|r: Seq<char>| action != #[trigger] ("text:"@ + r) && action != "esc:"@ + r by {
            lemma_behind("text:"@, r);
            lemma_behind("esc:"@, r);
        }
    }
    if action != "unbind"@ && (forall|r: Seq<char>|
        action != #[trigger] ("text:"@ + r) && action != "esc:"@ + r) {
        if text::behind(action, "esc:"@) is Some {
            let r = text::behind(action, "esc:"@)->0;
            assert(action != "text:"@ + r);
        }
        if text::behind(action, "text:"@) is Some {
            let r = text::behind(action, "text:"@)->0;
            assert(action != "text:"@ + r);
        }
    }
}

/// A file of the keys is written where there is none or where it is one of these that
/// has changed. Nothing else is overwritten, and a link never.
pub proof fn only_its_own_file_is_overwritten(path: Seq<char>, file: KeysFile)
    ensures
        ({
            let (write, refusal) = ghostty::keys_step_of(path, file);
            &&& file is Missing ==> write && refusal is None
            &&& file is Link ==> !write && refusal == Some(
                "refusing to overwrite "@ + path + "; it is a symbolic link"@,
            )
            &&& (file matches KeysFile::Text(t) && t@ == ghostty::keys_file()) ==> !write
                && refusal is None
            &&& file matches KeysFile::Text(t) ==> (write ==> text::lines(t@).len() > 0
                && text::lines(t@)[0] == "# Rustrace Ghostty key setup"@)
            &&& file matches KeysFile::Text(t) ==> (t@ != ghostty::keys_file() && !(text::lines(
                t@,
            ).len() > 0 && text::lines(t@)[0] == "# Rustrace Ghostty key setup"@) ==> refusal
                == Some("refusing to overwrite "@ + path + "; it does not have the Rustrace marker"@))
            &&& !(write && refusal is Some)
        }),
{
}

/// The file of the keys lies below the configuration directory that was named, or
/// below that of the home.
pub proof fn the_keys_lie_below_the_configuration(xdg: Seq<char>, home: Seq<char>)
    requires
        xdg.len() > 0,
        xdg.last() != '/',
        home.len() > 0,
        home.last() != '/',
    ensures
        ghostty::keys_path_of(Some(xdg), Some(home)) == Some(
            xdg + "/"@ + "ghostty/rustrace-keys"@,
        ),
        ghostty::keys_path_of(Some(xdg), None) == Some(xdg + "/"@ + "ghostty/rustrace-keys"@),
        ghostty::keys_path_of(None, Some(home)) == Some(
            home + "/"@ + ".config"@ + "/"@ + "ghostty/rustrace-keys"@,
        ),
        ghostty::keys_path_of(Some(Seq::empty()), Some(home)) == ghostty::keys_path_of(
            None,
            Some(home),
        ),
        ghostty::keys_path_of(None, None) is None,
{
    reveal_strlit(".config");
}

} // verus!
