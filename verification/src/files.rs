//! When a file that the build leaves behind has to be written anew.

use crate::text::chars_of_option;
use crate::text::same_text;
use vstd::prelude::*;

verus! {

/// Whether a file has to be written to hold `content`. `current` is what the
/// file holds now, or `None` if it could not be read as text.
///
/// A file that holds `content` already is left alone, so that nothing that
/// watches it sees a change.
pub fn write_needed(current: Option<&str>, content: &str) -> (needed: bool)
    ensures
        needed == (chars_of_option(current) != Some(content@)),
{
    match current {
        Some(text) => !same_text(text, content),
        None => true,
    }
}

/// Whether a file has to be copied over another. `source` and `destination`
/// are what the two hold now, each `None` if it could not be read as text.
pub fn copy_needed(source: Option<&str>, destination: Option<&str>) -> (needed: bool)
    ensures
        needed == (chars_of_option(source) != chars_of_option(destination)),
{
    match (source, destination) {
        (Some(s), Some(d)) => !same_text(s, d),
        (None, None) => false,
        _ => true,
    }
}

} // verus!
