//! Spell-check preferences: whether the composer flags misspellings and
//! whether it silently fixes obvious typos as you type.

use vstd::prelude::*;

verus! {

#[derive(Debug, Clone, Copy, PartialEq, Eq, Structural)]
pub struct SpellcheckConfig {
    /// Mark misspelled words and show the suggestion bar. Non-destructive: it
    /// never rewrites the text.
    pub enabled: bool,
    /// Silently apply the speller's high-confidence fix when a word is
    /// finished with a space (Backspace immediately after reverts it). Off
    /// until the user opts in.
    pub autocorrect: bool,
}

impl Default for SpellcheckConfig {
    /// Checking on, silent rewriting off.
    fn default() -> (r: Self)
        ensures
            r == (SpellcheckConfig { enabled: true, autocorrect: false }),
    {
        SpellcheckConfig { enabled: true, autocorrect: false }
    }
}

impl SpellcheckConfig {
    /// What was stored, or the defaults where the file is missing or
    /// unreadable.
    pub fn load_or_default(loaded: Option<Self>) -> (r: Self)
        ensures
            r == match loaded {
                Some(c) => c,
                None => SpellcheckConfig { enabled: true, autocorrect: false },
            },
    {
        match loaded {
            Some(c) => c,
            None => SpellcheckConfig::default(),
        }
    }
}

} // verus!
