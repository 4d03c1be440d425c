//! Looking up a stored audio file by its name in the listing of a directory.

use crate::text::text_view;
use vstd::prelude::*;
use vstd::string::StringExecFns;

verus! {

/// One entry of a directory, as its listing reports it.
#[derive(Debug)]
pub struct ListedEntry {
    /// The full path of the entry.
    pub path: String,
    /// Whether the entry is a regular file.
    pub is_file: bool,
    /// The name of the file without its extension, where it has one.
    pub stem: Option<String>,
}

/// An entry as the contracts see it.
pub struct ListedView {
    pub path: Seq<char>,
    pub is_file: bool,
    pub stem: Option<Seq<char>>,
}

impl View for ListedEntry {
    type V = ListedView;

    open spec fn view(&self) -> ListedView {
        ListedView {
            path: self.path@,
            is_file: self.is_file,
            stem: text_view(self.stem),
        }
    }
}

/// The views of `entries`, in order.
pub open spec fn listed_views(entries: Seq<ListedEntry>) -> Seq<ListedView> {
    Seq::new(entries.len(), |i: int| entries[i]@)
}

/// Why no file was found.
#[derive(Debug, Clone, Copy, PartialEq, Eq, Structural)]
pub enum FindError {
    /// The search met an entry that is not a file.
    NotAFile,
    /// The listing ended without a file of that name.
    NoMatch,
}

/// The search through a listing from its start: the first file whose stem
/// is `name` is found; an entry that is not a file ends the search.
pub open spec fn found_in(entries: Seq<ListedView>, name: Seq<char>) -> Result<Seq<char>, FindError>
    decreases entries.len(),
{
    if entries.len() == 0 {
        Err(FindError::NoMatch)
    } else if !entries[0].is_file {
        Err(FindError::NotAFile)
    } else if entries[0].stem == Some(name) {
        Ok(entries[0].path)
    } else {
        found_in(entries.drop_first(), name)
    }
}

/// The path that was found, as the contracts see it, or the error.
pub open spec fn found_view(found: Result<String, FindError>) -> Result<Seq<char>, FindError> {
    match found {
        Ok(path) => Ok(path@),
        Err(error) => Err(error),
    }
}

/// Looks in the listing of a directory for the file whose name without
/// extension is `name`, and returns its path.
pub fn find_file(entries: &Vec<ListedEntry>, name: &str) -> (found: Result<String, FindError>)
    ensures
        found_view(found) == found_in(listed_views(entries@), name@),
{
    let wanted = String::from_str(name);
    let n = entries.len();
    let ghost all = listed_views(entries@);
    proof {
        assert(all.skip(0) =~= all);
    }
    for i in 0..n
        invariant
            n == entries@.len(),
            all == listed_views(entries@),
            wanted@ == name@,
            found_in(all, name@) == found_in(all.skip(i as int), name@),
    {
        let entry = &entries[i];
        proof {
            assert(all.skip(i as int)[0] == entry@);
            assert(all.skip(i as int).drop_first() =~= all.skip(i + 1));
        }
        if !entry.is_file {
            return Err(FindError::NotAFile);
        }
        match &entry.stem {
            Some(stem) => {
                if *stem == wanted {
                    return Ok(entry.path.clone());
                }
            },
            None => {},
        }
    }
    Err(FindError::NoMatch)
}

} // verus!
