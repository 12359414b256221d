//! The language the game's texts are shown in, and the message keys of stat
//! names.

use vstd::prelude::*;

use crate::modifiers::ModifierID;

verus! {

/// A language of the game's texts.
#[derive(Copy, Clone, Debug, PartialEq, Eq, Hash, Structural)]
pub enum Language {
    /// en-US
    UsEnglish,
    /// de-DE
    German,
    /// ch-CH
    SwissGerman,
    /// Any other language.
    Other,
}

/// The language after `l` when cycling: English, German, Swiss German,
/// and back to English; any other language goes to English.
pub open spec fn next_language(l: Language) -> Language {
    match l {
        Language::UsEnglish => Language::German,
        Language::German => Language::SwissGerman,
        _ => Language::UsEnglish,
    }
}

/// Which language the game's texts are shown in.
#[derive(Copy, Clone, Debug, PartialEq, Eq, Structural)]
pub struct LocalizationResource {
    pub current_language: Language,
}

impl Default for LocalizationResource {
    fn default() -> (r: Self)
        ensures
            r.current_language == Language::UsEnglish,
    {
        LocalizationResource { current_language: Language::UsEnglish }
    }
}

impl LocalizationResource {
    pub fn switch_language(&mut self, language: Language)
        ensures
            final(self).current_language == language,
    {
        self.current_language = language;
    }

    /// Moves on to the next language.
    pub fn cycle_language(&mut self)
        ensures
            final(self).current_language == next_language(old(self).current_language),
    {
        self.current_language = match self.current_language {
            Language::UsEnglish => Language::German,
            Language::German => Language::SwissGerman,
            _ => Language::UsEnglish,
        };
    }

    /// The message key of a stat's name: `stat-` followed by the stat's id.
    pub fn stat_key(&self, id: ModifierID) -> (k: String)
        ensures
            k@ == "stat-"@ + id.0@,
    {
        let mut k = String::from_str("stat-");
        k.append(id.as_str());
        k
    }
}

/// The name of a language, in that language.
pub fn language_name(l: Language) -> (name: &'static str)
    ensures
        name@ == match l {
            Language::UsEnglish => "English (US)"@,
            Language::German => "Deutsch"@,
            Language::SwissGerman => "Schwiizerdütsch"@,
            Language::Other => "Unknown"@,
        },
{
    match l {
        Language::UsEnglish => "English (US)",
        Language::German => "Deutsch",
        Language::SwissGerman => "Schwiizerdütsch",
        Language::Other => "Unknown",
    }
}

/// Cycling through the languages three times comes back to a known
/// language where it started; from any other language, one step leads to
/// English.
pub proof fn law_cycle_returns_after_three(l: Language)
    ensures
        l != Language::Other ==> next_language(next_language(next_language(l))) == l,
        l == Language::Other ==> next_language(l) == Language::UsEnglish,
        next_language(l) != Language::Other,
{
}

} // verus!
