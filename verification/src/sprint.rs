//! `glide sprint`: which open item of the active sprint a command means.
//! The sprint note itself is read and written by the daily-note vault; this
//! is the choice made between reading it and writing it back.

use vstd::prelude::*;

use crate::text::{chars_of, contains, contains_chars, trim, trim_chars, CharClass};

verus! {

/// One item of a sprint: its text, and whether it is done.
#[derive(Debug, Clone)]
pub struct SprintItem {
    pub text: String,
    pub done: bool,
}

/// What `str::to_lowercase` gives for `s` (full Unicode lower-casing).
pub uninterp spec fn lowercase(s: Seq<char>) -> Seq<char>;

/// `str::to_lowercase`. Its result is named, not stated: Unicode
/// lower-casing can change a text's length, and the tables take pages.
#[verifier::external_body]
fn lower(s: &str) -> (r: String)
    ensures
        r@ == lowercase(s@),
{
    s.to_lowercase()
}

/// The item `text` picks: open, and holding the trimmed text as a
/// substring, both lower-cased (an empty text picks any open item).
pub open spec fn picks(item: SprintItem, text: Seq<char>) -> bool {
    !item.done && contains(lowercase(item.text@), lowercase(trim(text)))
}

/// The first open item that `text` picks, if any: what `sprint done` ticks
/// off and what `sprint pull` makes today's focus.
pub fn first_open_match(items: &Vec<SprintItem>, text: &str) -> (r: Option<usize>)
    ensures
        match r {
            Some(i) => i < items@.len() && picks(items@[i as int], text@) && forall|k: int|
                0 <= k < i ==> !picks(#[trigger] items@[k], text@),
            None => forall|k: int| 0 <= k < items@.len() ==> !picks(#[trigger] items@[k], text@),
        },
{
    let t = trim_chars(&chars_of(text), CharClass::Space);
    let needle = chars_of(lower(crate::text::string_of(&t).as_str()).as_str());
    let mut i: usize = 0;
    while i < items.len()
        invariant
            i <= items@.len(),
            needle@ == lowercase(trim(text@)),
            forall|k: int| 0 <= k < i ==> !picks(#[trigger] items@[k], text@),
        decreases items.len() - i,
    {
        if !items[i].done {
            let hay = chars_of(lower(items[i].text.as_str()).as_str());
            if contains_chars(&hay, &needle) {
                return Some(i);
            }
        }
        i = i + 1;
    }
    None
}

/// A sprint needs a name with something in it besides spaces.
pub fn name_ok(name: &str) -> (b: bool)
    ensures
        b == (trim(name@).len() > 0),
{
    trim_chars(&chars_of(name), CharClass::Space).len() > 0
}

} // verus!
