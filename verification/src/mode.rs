//! The draw mode: which orbits leave a trace.

use std::str::FromStr;
use vstd::prelude::*;
use vstd::string::StringExecFns;

verus! {

/// Which orbits are drawn.
#[derive(Clone, Copy, Debug, PartialEq, Eq, Structural)]
pub enum DrawMode {
    /// Every orbit.
    All,
    /// Only the orbits that left the bound.
    Escaped,
    /// Only the orbits that stayed inside the bound.
    Trapped,
}

impl DrawMode {
    /// Whether an orbit with the given escape flag is drawn under this mode.
    pub open spec fn keeps(self, escaped: bool) -> bool {
        match self {
            DrawMode::All => true,
            DrawMode::Escaped => escaped,
            DrawMode::Trapped => !escaped,
        }
    }

    /// Decides whether an orbit with the given escape flag is drawn.
    pub fn accepts(self, escaped: bool) -> (kept: bool)
        ensures
            kept == self.keeps(escaped),
    {
        match self {
            DrawMode::All => true,
            DrawMode::Escaped => escaped,
            DrawMode::Trapped => !escaped,
        }
    }
}

/// The orbits that a mode keeps, by their place in a list of escape flags.
pub open spec fn kept_under(mode: DrawMode, escaped: Seq<bool>) -> Set<int> {
    Set::new(|i: int| 0 <= i < escaped.len() && mode.keeps(escaped[i]))
}

/// Whatever the orbits of a grid did, the ones kept under `All` are those
/// kept under `Escaped` together with those kept under `Trapped`, and no
/// orbit is kept under both of these.
pub proof fn lemma_modes_partition(escaped: Seq<bool>)
    ensures
        kept_under(DrawMode::All, escaped) == kept_under(DrawMode::Escaped, escaped).union(
            kept_under(DrawMode::Trapped, escaped),
        ),
        kept_under(DrawMode::Escaped, escaped).disjoint(kept_under(DrawMode::Trapped, escaped)),
{
}

/// A string with its leading and trailing whitespace removed, as `str::trim`
/// gives it.
pub uninterp spec fn trimmed(text: Seq<char>) -> Seq<char>;

/// Calls `str::trim`.  The contract only names the outcome: what counts as
/// whitespace is Unicode's to say.
#[verifier::external_body]
fn trim(text: &str) -> (word: &str)
    ensures
        word@ == trimmed(text@),
{
    text.trim()
}

/// An ASCII capital letter as its small letter, any other character as it is.
pub open spec fn fold_char(c: char) -> char {
    if 'A' <= c && c <= 'Z' {
        ((c as u8) + 32) as char
    } else {
        c
    }
}

/// A string with its ASCII capital letters turned into small letters.
pub open spec fn folded(text: Seq<char>) -> Seq<char> {
    text.map_values(|c: char| fold_char(c))
}

/// Calls `str::eq_ignore_ascii_case`, which std documents as comparing the
/// two strings after turning the ASCII letters `A` to `Z` of each into `a`
/// to `z`.
#[verifier::external_body]
fn eq_ignore_ascii_case(left: &str, right: &str) -> (same: bool)
    ensures
        same == (folded(left@) == folded(right@)),
{
    left.eq_ignore_ascii_case(right)
}

/// The mode that a word names, whatever the case of its letters.
pub open spec fn mode_named(word: Seq<char>) -> Option<DrawMode> {
    if folded(word) == folded("all"@) {
        Some(DrawMode::All)
    } else if folded(word) == folded("escaped"@) {
        Some(DrawMode::Escaped)
    } else if folded(word) == folded("trapped"@) {
        Some(DrawMode::Trapped)
    } else {
        None
    }
}

/// What is said of a word that names no mode.
pub open spec fn unknown_mode(word: Seq<char>) -> Seq<char> {
    "Unknown draw mode: '"@ + word + "'"@
}

/// The view of a parse result.
pub open spec fn parse_view(result: Result<DrawMode, String>) -> Result<DrawMode, Seq<char>> {
    match result {
        Ok(mode) => Ok(mode),
        Err(message) => Err(message@),
    }
}

/// The outcome of reading a word that is already trimmed.
pub open spec fn word_parsed(word: Seq<char>) -> Result<DrawMode, Seq<char>> {
    match mode_named(word) {
        Some(mode) => Ok(mode),
        None => Err(unknown_mode(word)),
    }
}

impl DrawMode {
    /// Reads a mode from a word without surrounding whitespace: `all`,
    /// `escaped` or `trapped` in any case.  Any other word is an error that
    /// quotes it.
    pub fn from_word(word: &str) -> (result: Result<DrawMode, String>)
        ensures
            parse_view(result) == word_parsed(word@),
    {
        if eq_ignore_ascii_case(word, "all") {
            Ok(DrawMode::All)
        } else if eq_ignore_ascii_case(word, "escaped") {
            Ok(DrawMode::Escaped)
        } else if eq_ignore_ascii_case(word, "trapped") {
            Ok(DrawMode::Trapped)
        } else {
            let message = "Unknown draw mode: '".to_owned().concat(word).concat("'");
            Err(message)
        }
    }

    /// Reads a mode from text: the text is trimmed and the word that is left
    /// is read.
    pub fn parse(text: &str) -> (result: Result<DrawMode, String>)
        ensures
            parse_view(result) == word_parsed(trimmed(text@)),
    {
        DrawMode::from_word(trim(text))
    }
}

impl FromStr for DrawMode {
    type Err = String;

    /// Reads a mode from text, as `parse` does.
    fn from_str(text: &str) -> (result: Result<DrawMode, String>)
        ensures
            parse_view(result) == word_parsed(trimmed(text@)),
    {
        DrawMode::parse(text)
    }
}

} // verus!
