//! The settings file and which keys go with Control or Command.

use crate::environment::opt_string;
use crate::ghostty;
use crate::text;
use vstd::prelude::*;

verus! {

#[derive(Clone, Copy, Debug, PartialEq, Eq, Structural)]
pub enum ModifierPreference {
    Auto,
    Command,
    Control,
}

impl Default for ModifierPreference {
    fn default() -> (r: ModifierPreference)
        ensures
            r == ModifierPreference::Auto,
    {
        ModifierPreference::Auto
    }
}

#[derive(Clone, Copy, Debug, PartialEq, Eq, Structural)]
pub enum PrimaryModifier {
    Command,
    Control,
}

/// The settings that are in force, where they come from, and what was wrong.
#[derive(Clone, Debug, PartialEq, Eq)]
pub struct LoadedConfig<T> {
    pub modifier: ModifierPreference,
    pub theme: T,
    pub path: String,
    pub warning: Option<String>,
}

#[derive(Clone, Debug, PartialEq, Eq)]
pub struct ModifierResolution {
    pub effective: PrimaryModifier,
    pub warning: Option<String>,
}

pub open spec fn unavailable() -> Seq<char> {
    "Command modifier unavailable in this terminal; using Control shortcuts"@
}

/// Which modifier is used. Command needs a terminal that reports it.
pub open spec fn modifier_of(preference: ModifierPreference, is_macos: bool, supported: bool) -> (
    PrimaryModifier,
    Option<Seq<char>>,
) {
    match preference {
        ModifierPreference::Auto => if is_macos && supported {
            (PrimaryModifier::Command, None)
        } else {
            (PrimaryModifier::Control, None)
        },
        ModifierPreference::Command => if supported {
            (PrimaryModifier::Command, None)
        } else {
            (PrimaryModifier::Control, Some(unavailable()))
        },
        ModifierPreference::Control => (PrimaryModifier::Control, None),
    }
}

pub fn resolve_primary_modifier(
    preference: ModifierPreference,
    is_macos: bool,
    keyboard_enhancement_supported: bool,
) -> (r: ModifierResolution)
    ensures
        (r.effective, opt_string(r.warning)) == modifier_of(
            preference,
            is_macos,
            keyboard_enhancement_supported,
        ),
{
    match preference {
        ModifierPreference::Auto => {
            if is_macos && keyboard_enhancement_supported {
                ModifierResolution { effective: PrimaryModifier::Command, warning: None }
            } else {
                ModifierResolution { effective: PrimaryModifier::Control, warning: None }
            }
        },
        ModifierPreference::Command => {
            if keyboard_enhancement_supported {
                ModifierResolution { effective: PrimaryModifier::Command, warning: None }
            } else {
                ModifierResolution {
                    effective: PrimaryModifier::Control,
                    warning: Some(
                        "Command modifier unavailable in this terminal; using Control shortcuts".to_owned(),
                    ),
                }
            }
        },
        ModifierPreference::Control => ModifierResolution {
            effective: PrimaryModifier::Control,
            warning: None,
        },
    }
}

/// Command is used only where the terminal reports it; a warning comes only
/// with a preference that could not be met.
pub proof fn command_needs_support(preference: ModifierPreference, is_macos: bool, supported: bool)
    ensures
        modifier_of(preference, is_macos, supported).0 == PrimaryModifier::Command ==> supported,
        modifier_of(preference, is_macos, supported).1 is Some <==> preference
            == ModifierPreference::Command && !supported,
{
}

pub fn config_file_path(xdg_config_home: Option<&str>, home: Option<&str>) -> (r: Option<String>)
    ensures
        ghostty::opt_string(r) == ghostty::config_below(
            ghostty::opt_str(xdg_config_home),
            ghostty::opt_str(home),
            "rustrace/config.toml"@,
        ),
{
    ghostty::config_path(xdg_config_home, home, "rustrace/config.toml")
}

/// What reading the settings came to. What a theme is the library does not ask.
pub enum ConfigRead<T> {
    Parsed(ModifierPreference, T),
    Invalid(String),
    Missing,
    Unreadable(String),
}

/// The words of a text so far and the one that is being read: words stand
/// between white space.
pub open spec fn word_split(s: Seq<char>) -> (Seq<char>, Seq<char>)
    decreases s.len(),
{
    if s.len() == 0 {
        (Seq::empty(), Seq::empty())
    } else {
        let (done, word) = word_split(s.drop_last());
        if text::is_white(s.last()) {
            (with_word(done, word), Seq::empty())
        } else {
            (done, word.push(s.last()))
        }
    }
}

pub open spec fn with_word(done: Seq<char>, word: Seq<char>) -> Seq<char> {
    if word.len() == 0 {
        done
    } else if done.len() == 0 {
        word
    } else {
        done.push(' ') + word
    }
}

/// The words of a text with one space between each two.
pub open spec fn one_line(s: Seq<char>) -> Seq<char> {
    with_word(word_split(s).0, word_split(s).1)
}

fn add_word(done: &mut Vec<char>, word: &Vec<char>)
    ensures
        final(done)@ == with_word(old(done)@, word@),
{
    if word.len() == 0 {
        return ;
    }
    if done.len() > 0 {
        done.push(' ');
    }
    let ghost before = done@;
    let mut i: usize = 0;
    assert(before + word@.take(0) =~= before);
    while i < word.len()
        invariant
            i <= word@.len(),
            done@ == before + word@.take(i as int),
        decreases word@.len() - i,
    {
        done.push(word[i]);
        assert(word@.take(i + 1) =~= word@.take(i as int).push(word@[i as int]));
        i += 1;
    }
    assert(word@.take(word@.len() as int) =~= word@);
    assert(done@ =~= with_word(old(done)@, word@));
}

fn squeeze(s: &str) -> (r: String)
    ensures
        r@ == one_line(s@),
{
    let chars = text::chars_of(s);
    let mut done: Vec<char> = Vec::new();
    let mut word: Vec<char> = Vec::new();
    let mut i: usize = 0;
    assert(chars@.take(0) =~= Seq::<char>::empty());
    while i < chars.len()
        invariant
            i <= chars@.len(),
            (done@, word@) == word_split(chars@.take(i as int)),
        decreases chars@.len() - i,
    {
        proof {
            assert(chars@.take(i + 1).drop_last() =~= chars@.take(i as int));
            assert(chars@.take(i + 1).last() == chars@[i as int]);
        }
        if text::white(chars[i]) {
            add_word(&mut done, &word);
            word = Vec::new();
        } else {
            word.push(chars[i]);
        }
        i += 1;
    }
    assert(chars@.take(chars@.len() as int) =~= chars@);
    add_word(&mut done, &word);
    let r = text::string_of(done.as_slice(), 0, done.len());
    assert(r@ =~= done@);
    r
}

pub open spec fn fallback_text(error: Seq<char>, path: Seq<char>) -> Seq<char> {
    one_line(error) + " in "@ + path + "; using modifier = \"auto\" and the default theme"@
}

/// The settings after a read: defaults where there is no file, and defaults
/// with a warning where it cannot be used.
pub open spec fn loaded<T>(read: ConfigRead<T>, default_theme: T, path: Seq<char>) -> (
    ModifierPreference,
    T,
    Option<Seq<char>>,
) {
    match read {
        ConfigRead::Parsed(modifier, theme) => (modifier, theme, None),
        ConfigRead::Missing => (ModifierPreference::Auto, default_theme, None),
        ConfigRead::Invalid(error) => (
            ModifierPreference::Auto,
            default_theme,
            Some(fallback_text("invalid configuration: "@ + error@, path)),
        ),
        ConfigRead::Unreadable(error) => (
            ModifierPreference::Auto,
            default_theme,
            Some(fallback_text("configuration could not be read: "@ + error@, path)),
        ),
    }
}

fn fallback_with_warning<T>(path: &str, before: &str, error: &str, theme: T) -> (r: LoadedConfig<T>)
    ensures
        r.theme == theme,
        r.modifier == ModifierPreference::Auto,
        r.path@ == path@,
        opt_string(r.warning) == Some(fallback_text(before@ + error@, path@)),
{
    let mut whole = before.to_owned();
    whole.push_str(error);
    let mut warning = squeeze(whole.as_str());
    warning.push_str(" in ");
    warning.push_str(path);
    warning.push_str("; using modifier = \"auto\" and the default theme");
    LoadedConfig {
        modifier: ModifierPreference::Auto,
        theme,
        path: path.to_owned(),
        warning: Some(warning),
    }
}

/// Takes in what reading the settings came to.
pub fn load_config_from<T>(path: &str, read: ConfigRead<T>, default_theme: T) -> (r: LoadedConfig<T>)
    ensures
        r.path@ == path@,
        (r.modifier, r.theme, opt_string(r.warning)) == loaded(read, default_theme, path@),
{
    match read {
        ConfigRead::Parsed(modifier, theme) => LoadedConfig {
            modifier,
            theme,
            path: path.to_owned(),
            warning: None,
        },
        ConfigRead::Missing => LoadedConfig {
            modifier: ModifierPreference::Auto,
            theme: default_theme,
            path: path.to_owned(),
            warning: None,
        },
        ConfigRead::Invalid(error) => fallback_with_warning(
            path,
            "invalid configuration: ",
            error.as_str(),
            default_theme,
        ),
        ConfigRead::Unreadable(error) => fallback_with_warning(
            path,
            "configuration could not be read: ",
            error.as_str(),
            default_theme,
        ),
    }
}

} // verus!
