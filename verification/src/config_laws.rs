//! What a configuration comes to.

use crate::config;
use crate::config::{ConfigRead, ModifierPreference, PrimaryModifier};
use crate::text;
use vstd::prelude::*;

verus! {

/// Which modifier is used: the one that was asked for, where the terminal can tell
/// it. Where none was asked for it is that of the system.
pub proof fn the_modifier_is_the_one_asked_for(
    preference: ModifierPreference,
    is_macos: bool,
    supported: bool,
)
    ensures
        preference == ModifierPreference::Control ==> config::modifier_of(
            preference,
            is_macos,
            supported,
        ) == (PrimaryModifier::Control, None::<Seq<char>>),
        preference == ModifierPreference::Command && supported ==> config::modifier_of(
            preference,
            is_macos,
            supported,
        ) == (PrimaryModifier::Command, None::<Seq<char>>),
        preference == ModifierPreference::Command && !supported ==> config::modifier_of(
            preference,
            is_macos,
            supported,
        ) == (
            PrimaryModifier::Control,
            Some("Command modifier unavailable in this terminal; using Control shortcuts"@),
        ),
        preference == ModifierPreference::Auto ==> (config::modifier_of(
            preference,
            is_macos,
            supported,
        ).0 == PrimaryModifier::Command <==> is_macos && supported),
{
}

/// What was written is used where it could be read. Where there is no file the
/// defaults are used without a word, and where there is a fault they are used with
/// one that names the file.
pub proof fn a_configuration_is_used_or_its_fault_is_told<T>(
    read: ConfigRead<T>,
    default_theme: T,
    path: Seq<char>,
)
    ensures
        read matches ConfigRead::Parsed(modifier, theme) ==> config::loaded(
            read,
            default_theme,
            path,
        ) == (modifier, theme, None::<Seq<char>>),
        !(read is Parsed) ==> {
            &&& config::loaded(read, default_theme, path).0 == ModifierPreference::Auto
            &&& config::loaded(read, default_theme, path).1 == default_theme
            &&& config::loaded(read, default_theme, path).2 is None <==> read is Missing
        },
        read matches ConfigRead::Invalid(error) ==> config::loaded(read, default_theme, path).2
            == Some(
            config::one_line("invalid configuration: "@ + error@) + " in "@ + path
                + "; using modifier = \"auto\" and the default theme"@,
        ),
        read matches ConfigRead::Unreadable(error) ==> config::loaded(read, default_theme, path).2
            == Some(
            config::one_line("configuration could not be read: "@ + error@) + " in "@ + path
                + "; using modifier = \"auto\" and the default theme"@,
        ),
{
}

pub open spec fn is_word(word: Seq<char>) -> bool {
    word.len() > 0 && forall|i: int| 0 <= i < word.len() ==> !text::is_white(#[trigger] word[i])
}

proof fn lemma_word(s: Seq<char>, word: Seq<char>)
    requires
        s.len() == 0 || text::is_white(s.last()),
        forall|i: int| 0 <= i < word.len() ==> !text::is_white(#[trigger] word[i]),
    ensures
        config::word_split(s).1 == Seq::<char>::empty(),
        config::word_split(s + word) == (config::word_split(s).0, word),
    decreases word.len(),
{
    if word.len() == 0 {
        assert(s + word =~= s);
        assert(word =~= Seq::empty());
    } else {
        assert forall|i: int| 0 <= i < word.len() - 1 implies !text::is_white(
            #[trigger] word.drop_last()[i],
        ) by {
            assert(!text::is_white(word[i]));
        }
        lemma_word(s, word.drop_last());
        assert((s + word).drop_last() =~= s + word.drop_last());
        assert(!text::is_white(word[word.len() - 1]));
        assert(word.drop_last().push(word.last()) =~= word);
    }
}

/// A text is made one line of its words: white space at its end is dropped, and what
/// stands between two of its words becomes one blank.
pub proof fn a_text_is_made_one_line_of_its_words(s: Seq<char>, word: Seq<char>, c: char)
    ensures
        config::one_line(Seq::empty()) == Seq::<char>::empty(),
        text::is_white(c) ==> config::one_line(s.push(c)) == config::one_line(s),
        is_word(word) && (s.len() == 0 || text::is_white(s.last())) ==> config::one_line(s + word)
            == if config::one_line(s).len() == 0 {
            word
        } else {
            config::one_line(s) + " "@ + word
        },
{
    assert(s.push(c).drop_last() =~= s);
    reveal_strlit(" ");
    assert(" "@ =~= seq![' ']);
    if is_word(word) && (s.len() == 0 || text::is_white(s.last())) {
        lemma_word(s, word);
        let done = config::word_split(s).0;
        assert(done.push(' ') + word =~= done + " "@ + word);
    }
}

} // verus!
