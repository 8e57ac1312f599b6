//! The persona: the character that the owner wrote, which becomes the system
//! prompt.

use vstd::prelude::*;

use crate::conversations::FileRead;
use crate::text::{empty, trimmed};

verus! {

/// The persona in a file; none where it cannot be read or says nothing.
pub open spec fn persona_in(read: FileRead) -> Option<Seq<char>> {
    match read {
        FileRead::Text(text) => if crate::text::trim(text@).len() == 0 {
            None
        } else {
            Some(crate::text::trim(text@))
        },
        _ => None,
    }
}

/// The persona, given what reading its file brought. A file that is missing or
/// unreadable changes nothing.
pub fn persona(read: FileRead) -> (r: Option<String>)
    ensures
        crate::text::opt_text(r) == persona_in(read),
{
    match read {
        FileRead::Text(text) => {
            let t = trimmed(text.as_str());
            if empty(t.as_str()) {
                None
            } else {
                Some(t)
            }
        },
        _ => None,
    }
}

} // verus!
