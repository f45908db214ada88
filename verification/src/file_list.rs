//! Reading the list of files that the clipboard offers.
//!
//! The list names each file as `file://` followed by its path, one after the
//! other with carriage returns between them, and writes a space in a path as
//! `%20`.

use crate::scan::{
    nonempty, nonempty_strings, remove, replace, replaced, split, split_at, views, without,
};
use crate::text::chars_of;
use vstd::prelude::*;

verus! {

/// A piece of the list as a path: line feeds dropped, then each `%20` read
/// as a space.
pub open spec fn cleaned(piece: Seq<char>) -> Seq<char> {
    replaced(without(piece, '\n'), "%20"@, " "@)
}

/// The paths that a list names, in its order: the scheme is taken out
/// wherever it stands, the rest is cut at carriage returns, each piece is
/// cleaned, and pieces that come out empty name no file.
pub open spec fn file_entries(list: Seq<char>) -> Seq<Seq<char>> {
    split(replaced(list, "file://"@, ""@), '\r').map_values(|p: Seq<char>| cleaned(p)).filter(
        nonempty(),
    )
}

/// The path that an upload takes from a list: its first, whatever follows.
pub open spec fn first_entry(list: Seq<char>) -> Option<Seq<char>> {
    let entries = file_entries(list);
    if entries.len() > 0 {
        Some(entries[0])
    } else {
        None
    }
}

/// Every path that `list` names.
pub fn file_paths(list: &str) -> (r: Vec<String>)
    ensures
        r.deep_view() == file_entries(list@),
{
    let scheme = chars_of("file://");
    let nothing = chars_of("");
    let escaped = chars_of("%20");
    let space = chars_of(" ");
    let chars = chars_of(list);
    let bare = replace(&chars, &scheme, &nothing);
    let pieces = split_at(&bare, '\r');
    let ghost raw = views(pieces@);
    let mut paths: Vec<Vec<char>> = Vec::new();
    let mut i: usize = 0;
    while i < pieces.len()
        invariant
            i <= pieces@.len(),
            escaped@ == "%20"@,
            space@ == " "@,
            raw == views(pieces@),
            views(paths@) == raw.take(i as int).map_values(|p: Seq<char>| cleaned(p)),
        decreases pieces@.len() - i,
    {
        let joined = remove(&pieces[i], '\n');
        let path = replace(&joined, &escaped, &space);
        let ghost before = views(paths@);
        paths.push(path);
        assert(views(paths@) =~= before.push(path@));
        assert(path@ == cleaned(raw[i as int]));
        assert(raw.take(i + 1) =~= raw.take(i as int).push(raw[i as int]));
        assert(views(paths@) =~= raw.take(i + 1).map_values(|p: Seq<char>| cleaned(p)));
        i = i + 1;
    }
    assert(raw.take(i as int) =~= raw);
    nonempty_strings(&paths)
}

/// The path of the file to upload: the first that `list` names. A list that
/// names none gives nothing.
pub fn first_file_path(list: &str) -> (r: Option<String>)
    ensures
        r.deep_view() == first_entry(list@),
{
    let mut paths = file_paths(list);
    if paths.len() > 0 {
        let first = paths.swap_remove(0);
        Some(first)
    } else {
        None
    }
}

} // verus!
