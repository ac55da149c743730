//! The files that a document may pull in, as the caller has read them.

use crate::text::{same_text, to_chars};
use vstd::prelude::*;

verus! {

/// A file that the caller has read: its path as the document names it, and
/// its contents.
#[derive(Clone, Debug, PartialEq, Eq)]
pub struct SourceFile {
    pub path: String,
    pub contents: String,
}

/// The contents of the first of `files` with the path `path`, if there is
/// one. A path that is not among the files counts as unreadable.
pub open spec fn file_contents(files: Seq<SourceFile>, path: Seq<char>) -> Option<Seq<char>>
    decreases files.len(),
{
    if files.len() == 0 {
        None
    } else if files[0].path@ == path {
        Some(files[0].contents@)
    } else {
        file_contents(files.drop_first(), path)
    }
}

/// Looks up the contents of the file with the path `path`.
pub fn read_file(files: &Vec<SourceFile>, path: &Vec<char>) -> (res: Option<Vec<char>>)
    ensures
        match res {
            Some(contents) => file_contents(files@, path@) == Some(contents@),
            None => file_contents(files@, path@) is None,
        },
{
    let mut i: usize = 0;
    assert(files@.skip(0) =~= files@);
    while i < files.len()
        invariant
            i <= files.len(),
            file_contents(files@, path@) == file_contents(files@.skip(i as int), path@),
        decreases files.len() - i,
    {
        let candidate = to_chars(files[i].path.as_str());
        if same_text(&candidate, path) {
            return Some(to_chars(files[i].contents.as_str()));
        }
        assert(files@.skip(i as int).drop_first() =~= files@.skip(i + 1));
        i += 1;
    }
    None
}

} // verus!
