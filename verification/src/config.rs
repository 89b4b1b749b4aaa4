//! Reading what the user and the environment say.

use vstd::prelude::*;
use crate::text::{
    ascii_lowercase, ascii_lowercased, chars_of, spells, string_of, trim_bounds, trimmed, Strip,
};

verus! {

/// Whether an answer to a yes-or-no question says yes: `y` or `yes`, in any
/// mix of upper and lower case, with white space around it passed over.
pub open spec fn says_yes(answer: Seq<char>) -> bool {
    let word = ascii_lowercase(trimmed(answer, Strip::Whitespace));
    word == "y"@ || word == "yes"@
}

/// Whether an answer to a yes-or-no question says yes.
pub fn confirms(answer: &str) -> (yes: bool)
    ensures
        yes == says_yes(answer@),
{
    let chars = chars_of(answer);
    let (from, to) = trim_bounds(&chars, Strip::Whitespace);
    let word = ascii_lowercased(&chars_of(string_of(&chars, from, to).as_str()));
    spells(&word, "y") || spells(&word, "yes")
}

/// The directory that archives are written to where none was chosen: the one
/// that the environment names, or else `beatmaps`.
pub fn default_output_dir(from_env: Option<String>) -> (dir: String)
    ensures
        dir@ == (match from_env {
            Some(named) => named@,
            None => "beatmaps"@,
        }),
{
    match from_env {
        Some(named) => named,
        None => "beatmaps".to_owned(),
    }
}

} // verus!
