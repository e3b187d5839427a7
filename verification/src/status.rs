use crate::locator::text_of;
use crate::text::{chars_of, last_word, last_word_of, string_of};
use vstd::prelude::*;

verus! {

/// The build version shown under the banner: the last word of what the package
/// manager printed of the package, and nothing where it printed nothing or could not
/// be asked.
pub open spec fn shown_version(output: Option<Seq<char>>) -> Seq<char> {
    match output {
        Some(text) => last_word(text),
        None => Seq::empty(),
    }
}

/// The build version shown under the banner. `output` is what the package manager
/// printed of the package, or `None` where the query failed.
pub fn build_version(output: Option<&str>) -> (r: String)
    ensures
        r@ == shown_version(text_of(output)),
{
    match output {
        Some(text) => {
            let chars = chars_of(text);
            let word = last_word_of(&chars);
            string_of(&word)
        },
        None => String::new(),
    }
}

} // verus!
