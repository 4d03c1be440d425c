//! Texts as the contracts see them.

use vstd::prelude::*;

verus! {

/// The characters of a text that may be missing.
pub open spec fn text_view(text: Option<String>) -> Option<Seq<char>> {
    match text {
        Some(known) => Some(known@),
        None => None,
    }
}

} // verus!
